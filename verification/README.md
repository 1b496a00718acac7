# alkeme

The logic of alkeme, a terminal client for the Arkime services (viewer, Cont3xt,
WISE, Parliament), as a library whose functions carry contracts proved with Verus.

- `src/app/` — the state of the screens and what changes it: the enums and their
  cycling rules, the column tables and editors, saved layouts and column state,
  time ranges, the server documents of the viewer (Stats, Files, sessions, shards),
  the Cont3xt search (request, streamed answers, results tree), WISE answers and
  the decisions of the main loop.
- `src/ui/` — what the screens show: number and text formatting, the lines of the
  Cont3xt detail pane (JSON laid out, filtered, tables aligned), where a filter
  matches a listed text, the shards grid layout, the help, links, views,
  integrations and cluster popups, and popup arithmetic.
- `src/json.rs`, `src/text.rs`, `src/seqs.rs` — JSON values, text helpers and
  stable sorting used throughout.
- `src/cli.rs` — what the command line decides: authentication, credentials,
  mode, tags, piped values.
- `app/` — the command itself: argument parsing, prompts, running piped commands,
  conversion of server documents, and the texts computed with floating-point
  numbers or the local time zone.
