//! The detail pane of Cont3xt: a JSON document laid out as lines of text, with
//! control characters blanked, links defanged and table columns aligned.
use vstd::prelude::*;
use vstd::string::StrSliceExecFns;
use crate::json::{JsonValue, JsonView, json_views};
use crate::text::{chars_of, push_char, string_from_chars, char_from_code, contains, to_lowercase, spec_contains, spec_to_lowercase};

verus! {

/// A control character: general category Cc, U+0000 to U+001F and U+007F to U+009F.
pub open spec fn is_control(c: char) -> bool {
    (c as u32) <= 0x1F || (0x7F <= (c as u32) && (c as u32) <= 0x9F)
}

pub open spec fn blank_control(c: char) -> char {
    if is_control(c) && c != ' ' {
        ' '
    } else {
        c
    }
}

pub open spec fn spec_sanitize(s: Seq<char>) -> Seq<char> {
    s.map_values(|c: char| blank_control(c))
}

/// Appends the characters of `s`.
pub fn append_chars(out: &mut String, s: &Vec<char>)
    ensures
        final(out)@ == old(out)@ + s@,
{
    let ghost start = out@;
    let mut i: usize = 0;
    while i < s.len()
        invariant
            i <= s.len(),
            out@ == start + s@.subrange(0, i as int),
        decreases s.len() - i,
    {
        push_char(out, s[i]);
        assert(out@ =~= start + s@.subrange(0, i + 1));
        i = i + 1;
    }
    assert(s@.subrange(0, s.len() as int) =~= s@);
}

/// Appends a string slice.
pub fn append_str(out: &mut String, s: &str)
    ensures
        final(out)@ == old(out)@ + s@,
{
    let cs = chars_of(s);
    append_chars(out, &cs);
}

/// Replaces each control character by a space, so that a value stays on one line.
pub fn sanitize_control_chars(s: &str) -> (r: String)
    ensures
        r@ == spec_sanitize(s@),
{
    let cs = chars_of(s);
    let mut out = String::new();
    let mut i: usize = 0;
    while i < cs.len()
        invariant
            i <= cs.len(),
            cs@ == s@,
            out@ == spec_sanitize(s@.subrange(0, i as int)),
        decreases cs.len() - i,
    {
        let c = cs[i];
        let code = c as u32;
        let b = if (code <= 0x1F || (0x7F <= code && code <= 0x9F)) && c != ' ' { ' ' } else { c };
        push_char(&mut out, b);
        assert(out@ =~= spec_sanitize(s@.subrange(0, i + 1)));
        i = i + 1;
    }
    assert(s@.subrange(0, cs.len() as int) =~= s@);
    out
}

/// `str::replace`: each leftmost, non-overlapping occurrence of a non-empty `pat`
/// replaced by `rep`.
pub open spec fn spec_replace(s: Seq<char>, pat: Seq<char>, rep: Seq<char>) -> Seq<char>
    decreases s.len(),
{
    if pat.len() == 0 || s.len() < pat.len() {
        s
    } else if s.subrange(0, pat.len() as int) == pat {
        rep + spec_replace(s.subrange(pat.len() as int, s.len() as int), pat, rep)
    } else {
        seq![s[0]] + spec_replace(s.drop_first(), pat, rep)
    }
}

/// Replaces each occurrence of `pat` (not empty) by `rep`.
pub fn replace_all(s: &Vec<char>, pat: &Vec<char>, rep: &Vec<char>) -> (r: Vec<char>)
    requires
        pat.len() > 0,
    ensures
        r@ == spec_replace(s@, pat@, rep@),
{
    let mut out: Vec<char> = Vec::new();
    let mut i: usize = 0;
    assert(s@.subrange(0, s.len() as int) =~= s@);
    assert(out@ + spec_replace(s@, pat@, rep@) =~= spec_replace(s@, pat@, rep@));
    while i < s.len()
        invariant
            i <= s.len(),
            pat.len() > 0,
            out@ + spec_replace(s@.subrange(i as int, s.len() as int), pat@, rep@) == spec_replace(s@, pat@, rep@),
        decreases s.len() - i,
    {
        let ghost rest = s@.subrange(i as int, s.len() as int);
        if s.len() - i < pat.len() {
            assert(spec_replace(rest, pat@, rep@) == rest);
            let mut j: usize = i;
            while j < s.len()
                invariant
                    i <= j <= s.len(),
                    out@ + s@.subrange(j as int, s.len() as int) == spec_replace(s@, pat@, rep@),
                decreases s.len() - j,
            {
                let ghost prev = out@;
                out.push(s[j]);
                assert(s@.subrange(j as int, s.len() as int) =~= seq![s@[j as int]] + s@.subrange(j + 1, s.len() as int));
                assert(out@ + s@.subrange(j + 1, s.len() as int) =~= prev + s@.subrange(j as int, s.len() as int));
                j = j + 1;
            }
            assert(s@.subrange(s.len() as int, s.len() as int) =~= seq![]);
            assert(out@ =~= out@ + seq![]);
            return out;
        }
        let mut m: usize = 0;
        let mut hit = true;
        while m < pat.len()
            invariant
                m <= pat.len(),
                i + pat.len() <= s.len(),
                hit ==> forall|k: int| 0 <= k < m ==> s@[i + k] == pat@[k],
                !hit ==> s@.subrange(i as int, i + pat.len()) != pat@,
            decreases pat.len() - m,
        {
            if s[i + m] != pat[m] {
                assert(s@.subrange(i as int, i + pat.len())[m as int] == s@[i + m]);
                hit = false;
            }
            m = m + 1;
        }
        assert(rest.subrange(0, pat.len() as int) =~= s@.subrange(i as int, i + pat.len()));
        if hit {
            assert(s@.subrange(i as int, i + pat.len()) =~= pat@);
            assert(rest.subrange(pat.len() as int, rest.len() as int) =~= s@.subrange(i + pat.len(), s.len() as int));
            let ghost prev = out@;
            let mut k: usize = 0;
            while k < rep.len()
                invariant
                    k <= rep.len(),
                    out@ == prev + rep@.subrange(0, k as int),
                decreases rep.len() - k,
            {
                out.push(rep[k]);
                assert(out@ =~= prev + rep@.subrange(0, k + 1));
                k = k + 1;
            }
            assert(rep@.subrange(0, rep.len() as int) =~= rep@);
            assert(out@ + spec_replace(s@.subrange(i + pat.len(), s.len() as int), pat@, rep@) =~= prev + spec_replace(rest, pat@, rep@));
            i = i + pat.len();
        } else {
            assert(rest.drop_first() =~= s@.subrange(i + 1, s.len() as int));
            let ghost prev = out@;
            out.push(s[i]);
            assert(out@ + spec_replace(s@.subrange(i + 1, s.len() as int), pat@, rep@) =~= prev + spec_replace(rest, pat@, rep@));
            i = i + 1;
        }
    }
    assert(s@.subrange(s.len() as int, s.len() as int) =~= seq![]);
    assert(out@ =~= out@ + seq![]);
    out
}

pub open spec fn spec_defang(s: Seq<char>) -> Seq<char> {
    spec_replace(spec_replace(s, seq!['h', 't', 't', 'p'], seq!['h', 'X', 'X', 'p']), seq!['.'], seq!['[', '.', ']'])
}

/// Makes links unclickable: `http` becomes `hXXp` and each `.` becomes `[.]`.
pub fn defang_string(s: &str) -> (r: String)
    ensures
        r@ == spec_defang(s@),
{
    let cs = chars_of(s);
    let http = vec!['h', 't', 't', 'p'];
    let hxxp = vec!['h', 'X', 'X', 'p'];
    let dot = vec!['.'];
    let bracketed = vec!['[', '.', ']'];
    assert(http@ =~= seq!['h', 't', 't', 'p']);
    assert(hxxp@ =~= seq!['h', 'X', 'X', 'p']);
    assert(dot@ =~= seq!['.']);
    assert(bracketed@ =~= seq!['[', '.', ']']);
    let a = replace_all(&cs, &http, &hxxp);
    let b = replace_all(&a, &dot, &bracketed);
    string_from_chars(&b)
}

/// The width of column `j`: its entry in `widths`, or 0 past the end.
pub open spec fn width_at(widths: Seq<usize>, j: int) -> nat {
    if 0 <= j < widths.len() {
        widths[j] as nat
    } else {
        0
    }
}

pub open spec fn spaces(n: nat) -> Seq<char> {
    Seq::new(n, |i: int| ' ')
}

/// A cell padded with spaces to its column's width.
pub open spec fn padded_cell(cell: Seq<char>, w: nat) -> Seq<char> {
    if cell.len() < w {
        cell + spaces((w - cell.len()) as nat)
    } else {
        cell
    }
}

/// The cells of a table row, each padded to its column's width, joined by `sep`.
pub open spec fn spec_table_cells(cells: Seq<Seq<char>>, widths: Seq<usize>, sep: Seq<char>) -> Seq<char>
    decreases cells.len(),
{
    if cells.len() == 0 {
        seq![]
    } else {
        let j = cells.len() - 1;
        spec_table_cells(cells.drop_last(), widths, sep) + (if j > 0 { sep } else { seq![] }) + padded_cell(cells[j], width_at(widths, j))
    }
}

pub open spec fn strings_view(v: Seq<String>) -> Seq<Seq<char>> {
    v.map_values(|s: String| s@)
}

/// Lays out the cells of a table row in columns of the given widths.
pub fn format_table_cells(cells: &Vec<String>, widths: &Vec<usize>, sep: &str) -> (r: String)
    ensures
        r@ == spec_table_cells(strings_view(cells@), widths@, sep@),
{
    let ghost cv = strings_view(cells@);
    let mut out = String::new();
    let mut j: usize = 0;
    while j < cells.len()
        invariant
            j <= cells.len(),
            cv == strings_view(cells@),
            out@ == spec_table_cells(cv.take(j as int), widths@, sep@),
        decreases cells.len() - j,
    {
        assert(cv.take(j + 1).drop_last() =~= cv.take(j as int));
        let ghost before = out@;
        if j > 0 {
            append_str(&mut out, sep);
        }
        let ghost with_sep = out@;
        let w: usize = if j < widths.len() { widths[j] } else { 0 };
        let cs = chars_of(cells[j].as_str());
        append_chars(&mut out, &cs);
        if cs.len() < w {
            let mut k: usize = cs.len();
            while k < w
                invariant
                    cs.len() <= k <= w,
                    out@ == with_sep + cs@ + spaces((k - cs.len()) as nat),
                decreases w - k,
            {
                push_char(&mut out, ' ');
                assert(out@ =~= with_sep + cs@ + spaces((k + 1 - cs.len()) as nat));
                k = k + 1;
            }
        }
        assert(cv[j as int] == cs@);
        assert(out@ =~= spec_table_cells(cv.take(j + 1), widths@, sep@));
        j = j + 1;
    }
    assert(cv.take(cells.len() as int) =~= cv);
    out
}

/// A lowercase hexadecimal digit.
pub open spec fn hex_lower(n: u32) -> char {
    if n < 10 {
        ((n + 48) as u32) as char
    } else {
        ((n + 87) as u32) as char
    }
}

/// How a character is written inside a JSON string.
pub open spec fn escape_char(c: char) -> Seq<char> {
    if c == '"' {
        seq!['\\', '"']
    } else if c == '\\' {
        seq!['\\', '\\']
    } else if c == '\n' {
        seq!['\\', 'n']
    } else if c == '\r' {
        seq!['\\', 'r']
    } else if c == '\t' {
        seq!['\\', 't']
    } else if c == '\x08' {
        seq!['\\', 'b']
    } else if c == '\x0c' {
        seq!['\\', 'f']
    } else if (c as u32) < 0x20 {
        seq!['\\', 'u', '0', '0', hex_lower((c as u32) / 16), hex_lower((c as u32) % 16)]
    } else {
        seq![c]
    }
}

pub open spec fn escape_text(s: Seq<char>) -> Seq<char>
    decreases s.len(),
{
    if s.len() == 0 {
        seq![]
    } else {
        escape_text(s.drop_last()) + escape_char(s.last())
    }
}

/// A JSON string literal.
pub open spec fn quoted(s: Seq<char>) -> Seq<char> {
    seq!['"'] + escape_text(s) + seq!['"']
}

/// The compact JSON text of a value: no spaces, members in their order.
pub open spec fn json_text(v: JsonView) -> Seq<char>
    decreases v,
{
    match v {
        JsonView::Null => seq!['n', 'u', 'l', 'l'],
        JsonView::Bool(b) => if b { seq!['t', 'r', 'u', 'e'] } else { seq!['f', 'a', 'l', 's', 'e'] },
        JsonView::Number(t) => t,
        JsonView::Str(s) => quoted(s),
        JsonView::Array(a) => seq!['['] + items_text(a) + seq![']'],
        JsonView::Object(m) => seq!['{'] + members_text(m) + seq!['}'],
    }
}

/// The texts of array items, separated by commas.
pub open spec fn items_text(a: Seq<JsonView>) -> Seq<char>
    decreases a,
{
    if a.len() == 0 {
        seq![]
    } else {
        proof {
            assert(decreases_to!(a => a[a.len() - 1]));
        }
        items_text(a.subrange(0, a.len() - 1)) + (if a.len() > 1 { seq![','] } else { seq![] }) + json_text(a[a.len() - 1])
    }
}

/// The texts of object members `"key":value`, separated by commas.
pub open spec fn members_text(m: Seq<(Seq<char>, JsonView)>) -> Seq<char>
    decreases m,
{
    if m.len() == 0 {
        seq![]
    } else {
        proof {
            assert(decreases_to!(m => m[m.len() - 1]));
            assert(decreases_to!(m[m.len() - 1] => m[m.len() - 1].1));
        }
        members_text(m.subrange(0, m.len() - 1)) + (if m.len() > 1 { seq![','] } else { seq![] })
            + quoted(m[m.len() - 1].0) + seq![':'] + json_text(m[m.len() - 1].1)
    }
}

fn hex_lower_of(n: u32) -> (c: char)
    requires
        n < 16,
    ensures
        c == hex_lower(n),
{
    if n < 10 {
        char_from_code(n + 48)
    } else {
        char_from_code(n + 87)
    }
}

/// Appends how a character is written inside a JSON string.
fn write_escaped_char(out: &mut String, c: char)
    ensures
        final(out)@ == old(out)@ + escape_char(c),
{
    let ghost start = out@;
    let code = c as u32;
    if c == '"' || c == '\\' {
        push_char(out, '\\');
        push_char(out, c);
    } else if c == '\n' {
        push_char(out, '\\');
        push_char(out, 'n');
    } else if c == '\r' {
        push_char(out, '\\');
        push_char(out, 'r');
    } else if c == '\t' {
        push_char(out, '\\');
        push_char(out, 't');
    } else if c == '\x08' {
        push_char(out, '\\');
        push_char(out, 'b');
    } else if c == '\x0c' {
        push_char(out, '\\');
        push_char(out, 'f');
    } else if code < 0x20 {
        push_char(out, '\\');
        push_char(out, 'u');
        push_char(out, '0');
        push_char(out, '0');
        let h = hex_lower_of(code / 16);
        let l = hex_lower_of(code % 16);
        push_char(out, h);
        push_char(out, l);
    } else {
        push_char(out, c);
    }
    assert(out@ =~= start + escape_char(c));
}

/// Appends a JSON string literal.
fn write_quoted(out: &mut String, s: &String)
    ensures
        final(out)@ == old(out)@ + quoted(s@),
{
    let ghost start = out@;
    push_char(out, '"');
    let cs = chars_of(s.as_str());
    let mut i: usize = 0;
    while i < cs.len()
        invariant
            i <= cs.len(),
            cs@ == s@,
            out@ == start + seq!['"'] + escape_text(s@.subrange(0, i as int)),
        decreases cs.len() - i,
    {
        assert(s@.subrange(0, i + 1).drop_last() =~= s@.subrange(0, i as int));
        write_escaped_char(out, cs[i]);
        assert(out@ =~= start + seq!['"'] + escape_text(s@.subrange(0, i + 1)));
        i = i + 1;
    }
    assert(s@.subrange(0, cs.len() as int) =~= s@);
    push_char(out, '"');
    assert(out@ =~= start + quoted(s@));
}

/// Appends the compact JSON text of a value.
pub fn write_json(v: &JsonValue, out: &mut String)
    ensures
        final(out)@ == old(out)@ + json_text(v@),
    decreases v,
{
    let ghost start = out@;
    match v {
        JsonValue::Null => {
            append_str(out, "null");
            proof { reveal_strlit("null"); }
            assert(out@ =~= start + json_text(v@));
        },
        JsonValue::Bool(b) => {
            if *b {
                append_str(out, "true");
                proof { reveal_strlit("true"); }
            } else {
                append_str(out, "false");
                proof { reveal_strlit("false"); }
            }
            assert(out@ =~= start + json_text(v@));
        },
        JsonValue::Number(t) => {
            append_str(out, t.as_str());
        },
        JsonValue::Str(s) => {
            write_quoted(out, s);
        },
        JsonValue::Array(a) => {
            let ghost av = json_views(a@);
            assert(v@ == JsonView::Array(av)) by {
                if let JsonView::Array(x) = v@ {
                    assert(x =~= av);
                }
            }
            push_char(out, '[');
            let mut i: usize = 0;
            while i < a.len()
                invariant
                    *v == JsonValue::Array(*a),
                    i <= a.len(),
                    av == json_views(a@),
                    out@ == start + seq!['['] + items_text(av.subrange(0, i as int)),
                decreases a.len() - i,
            {
                proof {
                    assert(decreases_to!(*v => (*v)->Array_0));
                    assert(decreases_to!(*a => a[i as int]));
                }
                let ghost sub = av.subrange(0, i + 1);
                assert(sub.subrange(0, sub.len() - 1) =~= av.subrange(0, i as int));
                assert(sub[sub.len() - 1] == a@[i as int]@);
                if i > 0 {
                    push_char(out, ',');
                }
                write_json(&a[i], out);
                assert(out@ =~= start + seq!['['] + items_text(sub));
                i = i + 1;
            }
            assert(av.subrange(0, a.len() as int) =~= av);
            push_char(out, ']');
            assert(out@ =~= start + json_text(v@));
        },
        JsonValue::Object(o) => {
            let ghost mv = o@.map_values(|m: (String, JsonValue)| (m.0@, m.1@));
            assert(v@ == JsonView::Object(mv)) by {
                if let JsonView::Object(x) = v@ {
                    assert(x =~= mv);
                }
            }
            push_char(out, '{');
            let mut i: usize = 0;
            while i < o.len()
                invariant
                    *v == JsonValue::Object(*o),
                    i <= o.len(),
                    mv == o@.map_values(|m: (String, JsonValue)| (m.0@, m.1@)),
                    out@ == start + seq!['{'] + members_text(mv.subrange(0, i as int)),
                decreases o.len() - i,
            {
                proof {
                    assert(decreases_to!(*v => (*v)->Object_0));
                    assert(decreases_to!(*o => o[i as int]));
                    assert(decreases_to!(o[i as int] => o[i as int].1));
                }
                let ghost sub = mv.subrange(0, i + 1);
                assert(sub.subrange(0, sub.len() - 1) =~= mv.subrange(0, i as int));
                assert(sub[sub.len() - 1] == (o@[i as int].0@, o@[i as int].1@));
                if i > 0 {
                    push_char(out, ',');
                }
                write_quoted(out, &o[i].0);
                push_char(out, ':');
                write_json(&o[i].1, out);
                assert(out@ =~= start + seq!['{'] + members_text(sub));
                i = i + 1;
            }
            assert(mv.subrange(0, o.len() as int) =~= mv);
            push_char(out, '}');
            assert(out@ =~= start + json_text(v@));
        },
    }
}

/// The compact JSON text of a value.
pub fn json_to_string(v: &JsonValue) -> (r: String)
    ensures
        r@ == json_text(v@),
{
    let mut out = String::new();
    write_json(v, &mut out);
    assert(out@ =~= json_text(v@));
    out
}

/// The text shown for a JSON value: a string as it is, any other value as its
/// compact JSON text.
pub open spec fn value_text(v: JsonView) -> Seq<char> {
    match v {
        JsonView::Str(s) => s,
        _ => json_text(v),
    }
}

/// The text of a value on one line: `value_text` with control characters blanked.
pub fn format_json_value(v: &JsonValue) -> (r: String)
    ensures
        r@ == spec_sanitize(value_text(v@)),
{
    let raw = match v {
        JsonValue::Str(s) => s.clone(),
        _ => json_to_string(v),
    };
    sanitize_control_chars(raw.as_str())
}

/// `str::split` on one separator character: the pieces between separators, in
/// order, an empty piece where two separators meet or one stands at either end.
pub open spec fn spec_split(s: Seq<char>, sep: char) -> Seq<Seq<char>>
    decreases s.len(),
{
    if s.len() == 0 {
        seq![seq![]]
    } else {
        let rest = spec_split(s.drop_first(), sep);
        if s[0] == sep {
            seq![seq![]] + rest
        } else {
            rest.update(0, seq![s[0]] + rest[0])
        }
    }
}

proof fn lemma_split_nonempty(s: Seq<char>, sep: char)
    ensures
        spec_split(s, sep).len() >= 1,
    decreases s.len(),
{
    if s.len() > 0 {
        lemma_split_nonempty(s.drop_first(), sep);
    }
}

pub open spec fn chars_seqs(v: Seq<Vec<char>>) -> Seq<Seq<char>> {
    v.map_values(|x: Vec<char>| x@)
}

/// The pieces of `s` between the separators.
pub fn split_chars(s: &Vec<char>, sep: char) -> (r: Vec<Vec<char>>)
    ensures
        chars_seqs(r@) == spec_split(s@, sep),
{
    let mut parts: Vec<Vec<char>> = Vec::new();
    parts.push(Vec::new());
    let mut i: usize = s.len();
    assert(s@.subrange(s.len() as int, s.len() as int) =~= seq![]);
    assert(chars_seqs(parts@) =~= seq![seq![]]);
    while i > 0
        invariant
            i <= s.len(),
            chars_seqs(parts@) == spec_split(s@.subrange(i as int, s.len() as int), sep),
        decreases i,
    {
        i = i - 1;
        let ghost sub = s@.subrange(i as int, s.len() as int);
        assert(sub.drop_first() =~= s@.subrange(i + 1, s.len() as int));
        assert(sub[0] == s@[i as int]);
        proof {
            lemma_split_nonempty(sub.drop_first(), sep);
        }
        let ghost before = chars_seqs(parts@);
        if s[i] == sep {
            parts.insert(0, Vec::new());
            assert(chars_seqs(parts@) =~= seq![seq![]] + before);
        } else {
            let ghost old_parts = parts@;
            let mut first = parts.remove(0);
            assert(first@ == before[0]);
            first.insert(0, s[i]);
            assert(first@ =~= seq![s@[i as int]] + before[0]);
            parts.insert(0, first);
            assert(parts@ =~= old_parts.update(0, first));
            assert(chars_seqs(parts@) =~= before.update(0, seq![s@[i as int]] + before[0]));
        }
    }
    assert(s@.subrange(0, s.len() as int) =~= s@);
    parts
}

/// Follows the keys `parts` from `v` down, one object member at a time.
pub open spec fn spec_lookup_parts(v: JsonView, parts: Seq<Seq<char>>) -> Option<JsonView>
    decreases parts.len(),
{
    if parts.len() == 0 {
        Some(v)
    } else {
        match v.get(parts[0]) {
            Some(x) => spec_lookup_parts(x, parts.drop_first()),
            None => None,
        }
    }
}

/// The value at a dotted path: the whole value for an empty path, else the member
/// whose key is the whole path (a flattened key such as `source.ip`), else the
/// members named by the pieces between the dots, one inside the other.
pub open spec fn spec_get_by_path(data: JsonView, path: Seq<char>) -> Option<JsonView> {
    if path.len() == 0 {
        Some(data)
    } else if data.get(path) is Some {
        data.get(path)
    } else {
        spec_lookup_parts(data, spec_split(path, '.'))
    }
}

/// Finds the value at a dotted path like `foo.bar.baz`.
pub fn get_by_path<'a>(data: &'a JsonValue, path: &str) -> (r: Option<&'a JsonValue>)
    ensures
        match r {
            Some(v) => spec_get_by_path(data@, path@) == Some(v@),
            None => spec_get_by_path(data@, path@) is None,
        },
{
    let pcs = chars_of(path);
    if pcs.len() == 0 {
        return Some(data);
    }
    match data.get(path) {
        Some(v) => {
            return Some(v);
        },
        None => {},
    }
    let parts = split_chars(&pcs, '.');
    let ghost pv = chars_seqs(parts@);
    let mut cur: &'a JsonValue = data;
    let mut i: usize = 0;
    assert(pv.subrange(0, pv.len() as int) =~= pv);
    while i < parts.len()
        invariant
            i <= parts.len(),
            pv == chars_seqs(parts@),
            pv == spec_split(path@, '.'),
            data@.get(path@) is None,
            path@.len() > 0,
            spec_lookup_parts(data@, pv) == spec_lookup_parts(cur@, pv.subrange(i as int, pv.len() as int)),
        decreases parts.len() - i,
    {
        let ghost rest = pv.subrange(i as int, pv.len() as int);
        assert(rest[0] == parts@[i as int]@);
        assert(rest.drop_first() =~= pv.subrange(i + 1, pv.len() as int));
        let key = string_from_chars(&parts[i]);
        match cur.get(key.as_str()) {
            Some(next) => {
                cur = next;
            },
            None => {
                return None;
            },
        }
        i = i + 1;
    }
    assert(pv.subrange(pv.len() as int, pv.len() as int) =~= seq![]);
    Some(cur)
}

/// A line of the detail pane.
pub enum JsonLine {
    KeyValue(String, String),
    /// (name, is_array)
    Header(String, bool),
    Close(String),
    ArrayValue(String),
    /// (cells, column widths)
    TableHeader(Vec<String>, Vec<usize>),
    /// (cells, column widths)
    TableRow(Vec<String>, Vec<usize>),
}

pub enum JsonLineView {
    KeyValue(Seq<char>, Seq<char>),
    Header(Seq<char>, bool),
    Close(Seq<char>),
    ArrayValue(Seq<char>),
    TableHeader(Seq<Seq<char>>, Seq<usize>),
    TableRow(Seq<Seq<char>>, Seq<usize>),
}

impl View for JsonLine {
    type V = JsonLineView;

    open spec fn view(&self) -> JsonLineView {
        match self {
            JsonLine::KeyValue(k, v) => JsonLineView::KeyValue(k@, v@),
            JsonLine::Header(n, a) => JsonLineView::Header(n@, *a),
            JsonLine::Close(c) => JsonLineView::Close(c@),
            JsonLine::ArrayValue(v) => JsonLineView::ArrayValue(v@),
            JsonLine::TableHeader(c, w) => JsonLineView::TableHeader(strings_view(c@), w@),
            JsonLine::TableRow(c, w) => JsonLineView::TableRow(strings_view(c@), w@),
        }
    }
}

pub open spec fn lines_view(v: Seq<JsonLine>) -> Seq<JsonLineView> {
    v.map_values(|l: JsonLine| l@)
}

/// Two spaces per level.
pub open spec fn indent(depth: usize) -> Seq<char> {
    spaces(2 * depth as nat)
}

/// One level deeper, at most `usize::MAX`.
pub open spec fn next_depth(depth: usize) -> usize {
    if depth < usize::MAX {
        (depth + 1) as usize
    } else {
        depth
    }
}

/// The text shown for a value on one line.
pub open spec fn shown(v: JsonView) -> Seq<char> {
    spec_sanitize(value_text(v))
}

pub open spec fn is_scalar(v: JsonView) -> bool {
    !(v is Object) && !(v is Array)
}

/// The pieces joined by `sep`.
pub open spec fn spec_join(items: Seq<Seq<char>>, sep: Seq<char>) -> Seq<char>
    decreases items.len(),
{
    if items.len() == 0 {
        seq![]
    } else if items.len() == 1 {
        items[0]
    } else {
        spec_join(items.drop_last(), sep) + sep + items.last()
    }
}

/// Joining one more of the pieces adds the separator (but before the first) and the piece.
pub(crate) proof fn lemma_join_take_step(items: Seq<Seq<char>>, sep: Seq<char>, i: int)
    requires
        0 <= i < items.len(),
    ensures
        spec_join(items.take(i + 1), sep) == if i == 0 {
            items[0]
        } else {
            spec_join(items.take(i), sep) + sep + items[i]
        },
{
    assert(items.take(i + 1).drop_last() =~= items.take(i));
    assert(items.take(i + 1).last() == items[i]);
    assert(items.take(i + 1).len() == i + 1);
}

pub open spec fn cont3xt_key() -> Seq<char> {
    seq!['_', 'c', 'o', 'n', 't', '3', 'x', 't']
}

/// The key of a member as shown: indented, after the prefix and a dot when there
/// is a prefix.
pub open spec fn display_key(prefix: Seq<char>, key: Seq<char>, depth: usize) -> Seq<char> {
    if prefix.len() == 0 {
        indent(depth) + key
    } else {
        indent(depth) + prefix + seq!['.'] + key
    }
}

/// The lines of a value: an object member by member (its `_cont3xt` member left
/// out), any other value as one line.
pub open spec fn spec_flatten(v: JsonView, prefix: Seq<char>, depth: usize) -> Seq<JsonLineView>
    decreases v,
{
    match v {
        JsonView::Object(m) => member_lines(m, prefix, depth),
        _ => seq![JsonLineView::KeyValue(indent(depth) + prefix, shown(v))],
    }
}

/// The lines of the members of an object: a nested object as a header, its lines one
/// level deeper and a closing brace; an array of plain values on one line, joined by
/// commas; another array as a header, its items one level deeper and a closing
/// bracket; any other value as one line.
pub open spec fn member_lines(m: Seq<(Seq<char>, JsonView)>, prefix: Seq<char>, depth: usize) -> Seq<JsonLineView>
    decreases m,
{
    if m.len() == 0 {
        seq![]
    } else {
        let key = m[m.len() - 1].0;
        let val = m[m.len() - 1].1;
        let dk = display_key(prefix, key, depth);
        let d1 = next_depth(depth);
        proof {
            assert(decreases_to!(m => m[m.len() - 1]));
            assert(decreases_to!(m[m.len() - 1] => m[m.len() - 1].1));
        }
        member_lines(m.subrange(0, m.len() - 1), prefix, depth) + (if key == cont3xt_key() {
            seq![]
        } else {
            match val {
                JsonView::Object(_) => seq![JsonLineView::Header(dk, false)] + spec_flatten(val, seq![], d1)
                    + seq![JsonLineView::Close(indent(d1) + seq!['}'])],
                JsonView::Array(arr) => if forall|i: int| 0 <= i < arr.len() ==> is_scalar(#[trigger] arr[i]) {
                    seq![JsonLineView::KeyValue(dk, spec_join(arr.map_values(|x: JsonView| shown(x)), seq![',', ' ']))]
                } else {
                    seq![JsonLineView::Header(dk, true)] + item_lines(arr, depth) + seq![JsonLineView::Close(indent(d1) + seq![']'])]
                },
                _ => seq![JsonLineView::KeyValue(dk, shown(val))],
            }
        })
    }
}

/// The lines of the items of an array that holds an object or an array: each object
/// one level deeper followed by a `---` line, each other item as one line.
pub open spec fn item_lines(arr: Seq<JsonView>, depth: usize) -> Seq<JsonLineView>
    decreases arr,
{
    if arr.len() == 0 {
        seq![]
    } else {
        let item = arr[arr.len() - 1];
        let d1 = next_depth(depth);
        proof {
            assert(decreases_to!(arr => arr[arr.len() - 1]));
        }
        item_lines(arr.subrange(0, arr.len() - 1), depth) + (if item is Object {
            spec_flatten(item, seq![], d1) + seq![JsonLineView::Close(indent(d1) + seq!['-', '-', '-'])]
        } else {
            seq![JsonLineView::ArrayValue(shown(item))]
        })
    }
}

/// Two spaces per level.
fn indent_string(depth: usize) -> (r: String)
    ensures
        r@ == indent(depth),
{
    let mut out = String::new();
    let mut i: usize = 0;
    while i < depth
        invariant
            i <= depth,
            out@ == spaces(2 * i as nat),
        decreases depth - i,
    {
        push_char(&mut out, ' ');
        push_char(&mut out, ' ');
        assert(out@ =~= spaces(2 * (i + 1) as nat));
        i = i + 1;
    }
    out
}

fn next_depth_of(depth: usize) -> (r: usize)
    ensures
        r == next_depth(depth),
{
    if depth < usize::MAX {
        depth + 1
    } else {
        depth
    }
}

fn is_scalar_value(v: &JsonValue) -> (r: bool)
    ensures
        r == is_scalar(v@),
{
    match v {
        JsonValue::Object(_) => false,
        JsonValue::Array(_) => false,
        _ => true,
    }
}

/// The key of a member as shown.
fn display_key_of(prefix: &str, key: &String, depth: usize) -> (r: String)
    ensures
        r@ == display_key(prefix@, key@, depth),
{
    let mut out = indent_string(depth);
    if prefix.unicode_len() > 0 {
        append_str(&mut out, prefix);
        push_char(&mut out, '.');
    }
    append_str(&mut out, key.as_str());
    assert(out@ =~= display_key(prefix@, key@, depth));
    out
}

/// The shown texts of plain items joined by `", "`.
fn join_shown(arr: &Vec<JsonValue>) -> (r: String)
    ensures
        r@ == spec_join(json_views(arr@).map_values(|x: JsonView| shown(x)), seq![',', ' ']),
{
    let ghost items = json_views(arr@).map_values(|x: JsonView| shown(x));
    let mut out = String::new();
    let mut i: usize = 0;
    while i < arr.len()
        invariant
            i <= arr.len(),
            items == json_views(arr@).map_values(|x: JsonView| shown(x)),
            out@ == spec_join(items.take(i as int), seq![',', ' ']),
        decreases arr.len() - i,
    {
        proof {
            lemma_join_take_step(items, seq![',', ' '], i as int);
        }
        let t = format_json_value(&arr[i]);
        if i > 0 {
            push_char(&mut out, ',');
            push_char(&mut out, ' ');
        }
        append_str(&mut out, t.as_str());
        assert(out@ =~= spec_join(items.take(i + 1), seq![',', ' ']));
        i = i + 1;
    }
    assert(items.take(arr.len() as int) =~= items);
    out
}

/// Appends the lines of a value.
fn flatten_into(v: &JsonValue, prefix: &str, depth: usize, lines: &mut Vec<JsonLine>)
    ensures
        lines_view(final(lines)@) == lines_view(old(lines)@) + spec_flatten(v@, prefix@, depth),
    decreases v, 1nat,
{
    let ghost start = lines_view(lines@);
    match v {
        JsonValue::Object(o) => {
            let ghost mv = o@.map_values(|m: (String, JsonValue)| (m.0@, m.1@));
            assert(v@ == JsonView::Object(mv)) by {
                if let JsonView::Object(x) = v@ {
                    assert(x =~= mv);
                }
            }
            let d1 = next_depth_of(depth);
            let mut i: usize = 0;
            while i < o.len()
                invariant
                    *v == JsonValue::Object(*o),
                    i <= o.len(),
                    d1 == next_depth(depth),
                    mv == o@.map_values(|m: (String, JsonValue)| (m.0@, m.1@)),
                    lines_view(lines@) == start + member_lines(mv.subrange(0, i as int), prefix@, depth),
                decreases o.len() - i,
            {
                proof {
                    assert(decreases_to!(*v => (*v)->Object_0));
                    assert(decreases_to!(*o => o[i as int]));
                    assert(decreases_to!(o[i as int] => o[i as int].1));
                }
                let ghost sub = mv.subrange(0, i + 1);
                assert(sub.subrange(0, sub.len() - 1) =~= mv.subrange(0, i as int));
                assert(sub[sub.len() - 1] == (o@[i as int].0@, o@[i as int].1@));
                let ghost before = lines_view(lines@);
                let key = &o[i].0;
                let val = &o[i].1;
                proof {
                    reveal_strlit("_cont3xt");
                    reveal_strlit("");
                    assert("_cont3xt"@ =~= cont3xt_key());
                    assert(""@ =~= Seq::<char>::empty());
                }
                let is_meta = crate::text::string_eq_str(key, "_cont3xt");
                assert(is_meta == (key@ == cont3xt_key()));
                let ghost dkv = display_key(prefix@, key@, depth);
                let ghost added: Seq<JsonLineView> = if key@ == cont3xt_key() {
                    seq![]
                } else {
                    match val@ {
                        JsonView::Object(_) => seq![JsonLineView::Header(dkv, false)] + spec_flatten(val@, seq![], d1)
                            + seq![JsonLineView::Close(indent(d1) + seq!['}'])],
                        JsonView::Array(arr) => if forall|j: int| 0 <= j < arr.len() ==> is_scalar(#[trigger] arr[j]) {
                            seq![JsonLineView::KeyValue(dkv, spec_join(arr.map_values(|x: JsonView| shown(x)), seq![',', ' ']))]
                        } else {
                            seq![JsonLineView::Header(dkv, true)] + item_lines(arr, depth) + seq![JsonLineView::Close(indent(d1) + seq![']'])]
                        },
                        _ => seq![JsonLineView::KeyValue(dkv, shown(val@))],
                    }
                };
                assert(member_lines(sub, prefix@, depth) == member_lines(mv.subrange(0, i as int), prefix@, depth) + added);
                if !is_meta {
                    let dk = display_key_of(prefix, key, depth);
                    match val {
                        JsonValue::Object(_) => {
                            lines.push(JsonLine::Header(dk, false));
                            let ghost m1 = lines_view(lines@);
                            assert(m1 =~= before.push(JsonLineView::Header(dkv, false)));
                            flatten_into(val, "", d1, lines);
                            let ghost m2 = lines_view(lines@);
                            let mut close = indent_string(d1);
                            push_char(&mut close, '}');
                            assert(close@ =~= indent(d1) + seq!['}']);
                            lines.push(JsonLine::Close(close));
                            assert(lines_view(lines@) =~= m2.push(JsonLineView::Close(indent(d1) + seq!['}'])));
                            assert(lines_view(lines@) =~= before + added);
                        },
                        JsonValue::Array(arr) => {
                            let ghost av = json_views(arr@);
                            assert(val@ == JsonView::Array(av)) by {
                                if let JsonView::Array(x) = val@ {
                                    assert(x =~= av);
                                }
                            }
                            let mut all_plain = true;
                            let mut k: usize = 0;
                            while k < arr.len()
                                invariant
                                    k <= arr.len(),
                                    av == json_views(arr@),
                                    all_plain == forall|j: int| 0 <= j < k ==> is_scalar(#[trigger] av[j]),
                                decreases arr.len() - k,
                            {
                                let p = is_scalar_value(&arr[k]);
                                if !p {
                                    assert(!is_scalar(av[k as int]));
                                }
                                all_plain = all_plain && p;
                                k = k + 1;
                            }
                            if all_plain {
                                let joined = join_shown(arr);
                                lines.push(JsonLine::KeyValue(dk, joined));
                                assert(lines_view(lines@) =~= before + added);
                            } else {
                                lines.push(JsonLine::Header(dk, true));
                                let ghost m1 = lines_view(lines@);
                                assert(m1 =~= before.push(JsonLineView::Header(dkv, true)));
                                proof {
                                    assert(decreases_to!(*val => (*val)->Array_0));
                                }
                                items_into(arr, depth, lines);
                                let ghost m2 = lines_view(lines@);
                                let mut close = indent_string(d1);
                                push_char(&mut close, ']');
                                assert(close@ =~= indent(d1) + seq![']']);
                                lines.push(JsonLine::Close(close));
                                assert(lines_view(lines@) =~= m2.push(JsonLineView::Close(indent(d1) + seq![']'])));
                                assert(lines_view(lines@) =~= before + added);
                            }
                        },
                        _ => {
                            let t = format_json_value(val);
                            lines.push(JsonLine::KeyValue(dk, t));
                            assert(lines_view(lines@) =~= before + added);
                        },
                    }
                } else {
                    assert(lines_view(lines@) =~= before + added);
                }
                assert(lines_view(lines@) =~= start + member_lines(sub, prefix@, depth));
                i = i + 1;
            }
            assert(mv.subrange(0, o.len() as int) =~= mv);
        },
        _ => {
            let mut k = indent_string(depth);
            append_str(&mut k, prefix);
            let t = format_json_value(v);
            lines.push(JsonLine::KeyValue(k, t));
            assert(lines_view(lines@) =~= start + spec_flatten(v@, prefix@, depth));
        },
    }
}

/// Appends the lines of the items of an array.
fn items_into(arr: &Vec<JsonValue>, depth: usize, lines: &mut Vec<JsonLine>)
    ensures
        lines_view(final(lines)@) == lines_view(old(lines)@) + item_lines(json_views(arr@), depth),
    decreases arr, 0nat,
{
    let ghost start = lines_view(lines@);
    let ghost av = json_views(arr@);
    let d1 = next_depth_of(depth);
    let mut i: usize = 0;
    while i < arr.len()
        invariant
            i <= arr.len(),
            av == json_views(arr@),
            d1 == next_depth(depth),
            lines_view(lines@) == start + item_lines(av.subrange(0, i as int), depth),
        decreases arr.len() - i,
    {
        proof {
            assert(decreases_to!(*arr => arr[i as int]));
        }
        let ghost sub = av.subrange(0, i + 1);
        assert(sub.subrange(0, sub.len() - 1) =~= av.subrange(0, i as int));
        assert(sub[sub.len() - 1] == arr@[i as int]@);
        let item = &arr[i];
        let ghost before = lines_view(lines@);
        assert(item_lines(sub, depth) == item_lines(av.subrange(0, i as int), depth) + (if item@ is Object {
            spec_flatten(item@, seq![], d1) + seq![JsonLineView::Close(indent(d1) + seq!['-', '-', '-'])]
        } else {
            seq![JsonLineView::ArrayValue(shown(item@))]
        }));
        match item {
            JsonValue::Object(_) => {
                assert(item@ is Object);
                proof {
                    reveal_strlit("");
                    assert(""@ =~= Seq::<char>::empty());
                }
                flatten_into(item, "", d1, lines);
                let ghost mid = lines_view(lines@);
                assert(mid == before + spec_flatten(item@, seq![], d1));
                let mut close = indent_string(d1);
                push_char(&mut close, '-');
                push_char(&mut close, '-');
                push_char(&mut close, '-');
                assert(close@ =~= indent(d1) + seq!['-', '-', '-']);
                lines.push(JsonLine::Close(close));
                assert(lines_view(lines@) =~= mid.push(JsonLineView::Close(indent(d1) + seq!['-', '-', '-'])));
                assert(lines_view(lines@) =~= before + spec_flatten(item@, seq![], d1) + seq![JsonLineView::Close(indent(d1) + seq!['-', '-', '-'])]);
            },
            _ => {
                let t = format_json_value(item);
                lines.push(JsonLine::ArrayValue(t));
                assert(!(item@ is Object));
                assert(lines_view(lines@) =~= before + seq![JsonLineView::ArrayValue(shown(item@))]);
            },
        }
        assert(lines_view(lines@) =~= start + item_lines(sub, depth));
        i = i + 1;
    }
    assert(av.subrange(0, arr.len() as int) =~= av);
}

/// The lines of a result's data in the detail pane.
pub fn flatten_json_to_lines(value: &JsonValue, prefix: &str, depth: usize) -> (r: Vec<JsonLine>)
    ensures
        lines_view(r@) == spec_flatten(value@, prefix@, depth),
{
    let mut lines: Vec<JsonLine> = Vec::new();
    flatten_into(value, prefix, depth, &mut lines);
    assert(lines_view(lines@) =~= spec_flatten(value@, prefix@, depth));
    lines
}

pub open spec fn in_table(l: JsonLineView) -> bool {
    l is TableHeader || l is TableRow
}

pub open spec fn cells_of(l: JsonLineView) -> Seq<Seq<char>> {
    match l {
        JsonLineView::TableHeader(c, _) => c,
        JsonLineView::TableRow(c, _) => c,
        _ => seq![],
    }
}

/// The end of the run of table lines that starts at `i`.
pub open spec fn block_end(lines: Seq<JsonLineView>, i: int) -> int
    decreases lines.len() - i,
{
    if i < 0 || i >= lines.len() || !in_table(lines[i]) {
        i
    } else {
        block_end(lines, i + 1)
    }
}

/// The run starting at `i` stays within the lines, holds only table lines, and ends
/// before a line that is not one.
pub proof fn lemma_block_end(lines: Seq<JsonLineView>, i: int)
    requires
        0 <= i <= lines.len(),
    ensures
        i <= block_end(lines, i) <= lines.len(),
        i < lines.len() && in_table(lines[i]) ==> block_end(lines, i) > i,
        forall|k: int| i <= k < block_end(lines, i) ==> in_table(#[trigger] lines[k]),
        block_end(lines, i) < lines.len() ==> !in_table(lines[block_end(lines, i)]),
    decreases lines.len() - i,
{
    if i < lines.len() && in_table(lines[i]) {
        lemma_block_end(lines, i + 1);
    }
}

/// Column widths after taking the cells of one more row into account: a column
/// seen for the first time gets its cell's width, another widens to it.
pub open spec fn widen(ws: Seq<usize>, cells: Seq<Seq<char>>) -> Seq<usize>
    decreases cells.len(),
{
    if cells.len() == 0 {
        ws
    } else {
        let w0 = widen(ws, cells.drop_last());
        let c = cells.len() - 1;
        let w = cells.last().len() as usize;
        if c >= w0.len() {
            w0.push(w)
        } else if w > w0[c] {
            w0.update(c, w)
        } else {
            w0
        }
    }
}

/// The column widths of a run of table lines: the widest cell of each column.
pub open spec fn block_widths(block: Seq<JsonLineView>) -> Seq<usize>
    decreases block.len(),
{
    if block.len() == 0 {
        seq![]
    } else {
        widen(block_widths(block.drop_last()), cells_of(block.last()))
    }
}

pub open spec fn with_widths(l: JsonLineView, w: Seq<usize>) -> JsonLineView {
    match l {
        JsonLineView::TableHeader(c, _) => JsonLineView::TableHeader(c, w),
        JsonLineView::TableRow(c, _) => JsonLineView::TableRow(c, w),
        _ => l,
    }
}

/// The lines from `i` on with the widths of each table set: a table starts at a
/// header and runs over the header and row lines that follow it.
pub open spec fn spec_align(lines: Seq<JsonLineView>, i: int) -> Seq<JsonLineView>
    decreases lines.len() - i,
{
    if i < 0 || i >= lines.len() {
        seq![]
    } else if lines[i] is TableHeader {
        let j = block_end(lines, i);
        proof {
            lemma_block_end(lines, i);
        }
        let ws = block_widths(lines.subrange(i, j));
        lines.subrange(i, j).map_values(|l: JsonLineView| with_widths(l, ws)) + spec_align(lines, j)
    } else {
        seq![lines[i]] + spec_align(lines, i + 1)
    }
}

fn copy_strings(v: &Vec<String>) -> (r: Vec<String>)
    ensures
        strings_view(r@) == strings_view(v@),
{
    let mut out: Vec<String> = Vec::new();
    let mut i: usize = 0;
    while i < v.len()
        invariant
            i <= v.len(),
            strings_view(out@) == strings_view(v@).take(i as int),
        decreases v.len() - i,
    {
        let ghost prev = out@;
        let c = v[i].clone();
        out.push(c);
        assert(out@ == prev.push(c));
        assert(strings_view(out@) =~= strings_view(prev).push(c@));
        assert(strings_view(out@) =~= strings_view(v@).take(i + 1));
        i = i + 1;
    }
    assert(strings_view(v@).take(v.len() as int) =~= strings_view(v@));
    out
}

fn copy_usizes(v: &Vec<usize>) -> (r: Vec<usize>)
    ensures
        r@ == v@,
{
    let mut out: Vec<usize> = Vec::new();
    let mut i: usize = 0;
    while i < v.len()
        invariant
            i <= v.len(),
            out@ == v@.take(i as int),
        decreases v.len() - i,
    {
        out.push(v[i]);
        assert(out@ =~= v@.take(i + 1));
        i = i + 1;
    }
    assert(v@.take(v.len() as int) =~= v@);
    out
}

/// A copy of a line, with the given widths if it is a table line.
fn copy_line(l: &JsonLine, ws: Option<&Vec<usize>>) -> (r: JsonLine)
    ensures
        r@ == (match ws {
            Some(w) => with_widths(l@, w@),
            None => l@,
        }),
{
    match l {
        JsonLine::KeyValue(k, v) => JsonLine::KeyValue(k.clone(), v.clone()),
        JsonLine::Header(n, a) => JsonLine::Header(n.clone(), *a),
        JsonLine::Close(c) => JsonLine::Close(c.clone()),
        JsonLine::ArrayValue(v) => JsonLine::ArrayValue(v.clone()),
        JsonLine::TableHeader(c, w) => {
            let w2 = match ws {
                Some(x) => copy_usizes(x),
                None => copy_usizes(w),
            };
            JsonLine::TableHeader(copy_strings(c), w2)
        },
        JsonLine::TableRow(c, w) => {
            let w2 = match ws {
                Some(x) => copy_usizes(x),
                None => copy_usizes(w),
            };
            JsonLine::TableRow(copy_strings(c), w2)
        },
    }
}

fn is_table_line(l: &JsonLine) -> (r: bool)
    ensures
        r == in_table(l@),
{
    match l {
        JsonLine::TableHeader(_, _) => true,
        JsonLine::TableRow(_, _) => true,
        _ => false,
    }
}

/// Widens `ws` with the cells of a table line.
fn widen_with(ws: &mut Vec<usize>, l: &JsonLine)
    ensures
        final(ws)@ == widen(old(ws)@, cells_of(l@)),
{
    let empty: Vec<String> = Vec::new();
    let cells: &Vec<String> = match l {
        JsonLine::TableHeader(c, _) => c,
        JsonLine::TableRow(c, _) => c,
        _ => &empty,
    };
    let ghost cv = strings_view(cells@);
    assert(cv == cells_of(l@)) by {
        if !in_table(l@) {
            assert(cv =~= seq![]);
        }
    }
    let ghost base = ws@;
    let mut c: usize = 0;
    while c < cells.len()
        invariant
            c <= cells.len(),
            cv == strings_view(cells@),
            ws@ == widen(base, cv.take(c as int)),
            ws@.len() >= c,
        decreases cells.len() - c,
    {
        assert(cv.take(c + 1).drop_last() =~= cv.take(c as int));
        let w = cells[c].as_str().unicode_len();
        assert(w == cv[c as int].len());
        if c >= ws.len() {
            ws.push(w);
        } else if w > ws[c] {
            ws.set(c, w);
        }
        assert(ws@ =~= widen(base, cv.take(c + 1)));
        c = c + 1;
    }
    assert(cv.take(cells.len() as int) =~= cv);
}

/// Sets the widths of each table to the widest cell of each of its columns.
pub fn align_table_columns(lines: &mut Vec<JsonLine>)
    ensures
        lines_view(final(lines)@) == spec_align(lines_view(old(lines)@), 0),
{
    let ghost lv = lines_view(lines@);
    let n = lines.len();
    let mut out: Vec<JsonLine> = Vec::new();
    let mut i: usize = 0;
    assert(lines_view(out@) + spec_align(lv, 0) =~= spec_align(lv, 0));
    while i < n
        invariant
            n == lines.len(),
            lv == lines_view(lines@),
            i <= n,
            lines_view(out@) + spec_align(lv, i as int) == spec_align(lv, 0),
        decreases n - i,
    {
        let is_header = match &lines[i] {
            JsonLine::TableHeader(_, _) => true,
            _ => false,
        };
        assert(is_header == (lv[i as int] is TableHeader));
        if is_header {
            let mut j: usize = i;
            proof {
                lemma_block_end(lv, i as int);
            }
            while j < n && is_table_line(&lines[j])
                invariant
                    n == lines.len(),
                    lv == lines_view(lines@),
                    i <= j <= n,
                    block_end(lv, j as int) == block_end(lv, i as int),
                decreases n - j,
            {
                j = j + 1;
            }
            assert(block_end(lv, j as int) == j as int);
            let ghost block = lv.subrange(i as int, j as int);
            let mut ws: Vec<usize> = Vec::new();
            let mut k: usize = i;
            assert(lv.subrange(i as int, i as int) =~= seq![]);
            while k < j
                invariant
                    n == lines.len(),
                    lv == lines_view(lines@),
                    i <= k <= j <= n,
                    ws@ == block_widths(lv.subrange(i as int, k as int)),
                decreases j - k,
            {
                assert(lv.subrange(i as int, k + 1).drop_last() =~= lv.subrange(i as int, k as int));
                widen_with(&mut ws, &lines[k]);
                k = k + 1;
            }
            let ghost prev = lines_view(out@);
            let mut k: usize = i;
            while k < j
                invariant
                    n == lines.len(),
                    lv == lines_view(lines@),
                    i <= k <= j <= n,
                    ws@ == block_widths(block),
                    block == lv.subrange(i as int, j as int),
                    lines_view(out@) == prev + lv.subrange(i as int, k as int).map_values(|l: JsonLineView| with_widths(l, ws@)),
                decreases j - k,
            {
                let line = copy_line(&lines[k], Some(&ws));
                let ghost before_push = out@;
                out.push(line);
                assert(lines_view(out@) =~= lines_view(before_push).push(with_widths(lv[k as int], ws@)));
                assert(lines_view(out@) =~= prev + lv.subrange(i as int, k + 1).map_values(|l: JsonLineView| with_widths(l, ws@)));
                k = k + 1;
            }
            assert(spec_align(lv, i as int) == block.map_values(|l: JsonLineView| with_widths(l, ws@)) + spec_align(lv, j as int));
            assert(lines_view(out@) + spec_align(lv, j as int) =~= spec_align(lv, 0));
            i = j;
        } else {
            let ghost prev = lines_view(out@);
            let line = copy_line(&lines[i], None);
            out.push(line);
            assert(lines_view(out@) =~= prev.push(lv[i as int]));
            assert(spec_align(lv, i as int) == seq![lv[i as int]] + spec_align(lv, i + 1));
            assert(lines_view(out@) + spec_align(lv, i + 1) =~= spec_align(lv, 0));
            i = i + 1;
        }
    }
    assert(spec_align(lv, n as int) =~= seq![]);
    assert(lines_view(out@) =~= spec_align(lv, 0));
    *lines = out;
}

/// Whether a line's text, in lower case, holds the filter: a key and value as
/// `key: value`, an array value, or a table row's cells joined by spaces. Headers,
/// closing lines and table headers hold no text of their own.
pub open spec fn line_matches(l: JsonLineView, filter_lower: Seq<char>) -> bool {
    match l {
        JsonLineView::KeyValue(k, v) => spec_contains(spec_to_lowercase(k + seq![':', ' '] + v), filter_lower),
        JsonLineView::ArrayValue(v) => spec_contains(spec_to_lowercase(v), filter_lower),
        JsonLineView::TableRow(cells, _) => spec_contains(spec_to_lowercase(spec_join(cells, seq![' '])), filter_lower),
        _ => false,
    }
}

/// After the table headers are settled: a table header stays when a matching table
/// row follows it anywhere below.
pub open spec fn keeps_table(lines: Seq<JsonLineView>, fl: Seq<char>, j: int) -> bool {
    if lines[j] is TableHeader {
        exists|k: int| j < k < lines.len() && #[trigger] lines[k] is TableRow && line_matches(lines[k], fl)
    } else {
        line_matches(lines[j], fl)
    }
}

/// A header stays when a line that stays, other than a header, follows it below.
pub open spec fn keeps(lines: Seq<JsonLineView>, fl: Seq<char>, j: int) -> bool {
    if lines[j] is Header {
        exists|k: int| j < k < lines.len() && !(#[trigger] lines[k] is Header) && keeps_table(lines, fl, k)
    } else {
        keeps_table(lines, fl, j)
    }
}

/// The first `n` lines that stay, in order.
pub open spec fn kept_lines(lines: Seq<JsonLineView>, fl: Seq<char>, n: int) -> Seq<JsonLineView>
    decreases n,
{
    if n <= 0 {
        seq![]
    } else {
        kept_lines(lines, fl, n - 1) + (if keeps(lines, fl, n - 1) { seq![lines[n - 1]] } else { seq![] })
    }
}

/// The lines of the detail pane under a filter: all of them for an empty filter,
/// else those that stay under the filter in lower case.
pub open spec fn spec_filter_lines(lines: Seq<JsonLineView>, filter: Seq<char>) -> Seq<JsonLineView> {
    if filter.len() == 0 {
        lines
    } else {
        kept_lines(lines, spec_to_lowercase(filter), lines.len() as int)
    }
}

/// Whether one line matches the filter.
fn line_matches_exec(l: &JsonLine, filter_lower: &String) -> (r: bool)
    ensures
        r == line_matches(l@, filter_lower@),
{
    match l {
        JsonLine::KeyValue(k, v) => {
            let mut t = k.clone();
            push_char(&mut t, ':');
            push_char(&mut t, ' ');
            append_str(&mut t, v.as_str());
            assert(t@ =~= k@ + seq![':', ' '] + v@);
            let low = to_lowercase(t.as_str());
            contains(low.as_str(), filter_lower.as_str())
        },
        JsonLine::ArrayValue(v) => {
            let low = to_lowercase(v.as_str());
            contains(low.as_str(), filter_lower.as_str())
        },
        JsonLine::TableRow(cells, _) => {
            let ghost cv = strings_view(cells@);
            let mut t = String::new();
            let mut i: usize = 0;
            while i < cells.len()
                invariant
                    i <= cells.len(),
                    cv == strings_view(cells@),
                    t@ == spec_join(cv.take(i as int), seq![' ']),
                decreases cells.len() - i,
            {
                proof {
                    lemma_join_take_step(cv, seq![' '], i as int);
                }
                if i > 0 {
                    push_char(&mut t, ' ');
                }
                append_str(&mut t, cells[i].as_str());
                assert(t@ =~= spec_join(cv.take(i + 1), seq![' ']));
                i = i + 1;
            }
            assert(cv.take(cells.len() as int) =~= cv);
            let low = to_lowercase(t.as_str());
            contains(low.as_str(), filter_lower.as_str())
        },
        _ => false,
    }
}

/// Keeps the lines of the detail pane that the filter selects, with the table
/// headers and headers above them.
pub fn filter_detail_lines(lines: &Vec<JsonLine>, filter: &str) -> (r: Vec<JsonLine>)
    ensures
        lines_view(r@) == spec_filter_lines(lines_view(lines@), filter@),
{
    let ghost lv = lines_view(lines@);
    let n = lines.len();
    if filter.unicode_len() == 0 {
        let mut out: Vec<JsonLine> = Vec::new();
        let mut i: usize = 0;
        while i < n
            invariant
                n == lines.len(),
                lv == lines_view(lines@),
                i <= n,
                lines_view(out@) == lv.take(i as int),
            decreases n - i,
        {
            let ghost prev = out@;
            let line = copy_line(&lines[i], None);
            out.push(line);
            assert(lines_view(out@) =~= lines_view(prev).push(lv[i as int]));
            assert(lines_view(out@) =~= lv.take(i + 1));
            i = i + 1;
        }
        assert(lv.take(n as int) =~= lv);
        return out;
    }
    let fl = to_lowercase(filter);
    let ghost flv = fl@;
    let mut first: Vec<bool> = Vec::new();
    let mut i: usize = 0;
    while i < n
        invariant
            n == lines.len(),
            lv == lines_view(lines@),
            flv == fl@,
            i <= n,
            first@.len() == i,
            forall|k: int| 0 <= k < i ==> first@[k] == line_matches(#[trigger] lv[k], flv),
        decreases n - i,
    {
        let m = line_matches_exec(&lines[i], &fl);
        first.push(m);
        i = i + 1;
    }
    // table headers, bottom-up
    let mut second: Vec<bool> = first.clone();
    let mut row_after = false;
    let mut j: usize = n;
    while j > 0
        invariant
            n == lines.len(),
            lv == lines_view(lines@),
            flv == fl@,
            j <= n,
            first@.len() == n,
            second@.len() == n,
            forall|k: int| 0 <= k < n ==> first@[k] == line_matches(#[trigger] lv[k], flv),
            forall|k: int| 0 <= k < j ==> second@[k] == first@[k],
            forall|k: int| j <= k < n ==> second@[k] == keeps_table(lv, flv, k),
            row_after == exists|k: int| j <= k < n && #[trigger] lv[k] is TableRow && line_matches(lv[k], flv),
        decreases j,
    {
        j = j - 1;
        let is_th = match &lines[j] {
            JsonLine::TableHeader(_, _) => true,
            _ => false,
        };
        let is_row = match &lines[j] {
            JsonLine::TableRow(_, _) => true,
            _ => false,
        };
        assert(is_th == (lv[j as int] is TableHeader));
        assert(is_row == (lv[j as int] is TableRow));
        if is_th {
            second.set(j, row_after);
            assert(row_after == exists|k: int| j < k < n && #[trigger] lv[k] is TableRow && line_matches(lv[k], flv));
        }
        if is_row && first[j] {
            row_after = true;
        }
    }
    // headers, bottom-up
    let mut third: Vec<bool> = second.clone();
    let mut any_after = false;
    let mut j: usize = n;
    while j > 0
        invariant
            n == lines.len(),
            lv == lines_view(lines@),
            flv == fl@,
            j <= n,
            second@.len() == n,
            third@.len() == n,
            forall|k: int| 0 <= k < n ==> second@[k] == keeps_table(lv, flv, k),
            forall|k: int| 0 <= k < j ==> third@[k] == second@[k],
            forall|k: int| j <= k < n ==> third@[k] == keeps(lv, flv, k),
            any_after == exists|k: int| j <= k < n && !(#[trigger] lv[k] is Header) && keeps_table(lv, flv, k),
        decreases j,
    {
        j = j - 1;
        let is_h = match &lines[j] {
            JsonLine::Header(_, _) => true,
            _ => false,
        };
        assert(is_h == (lv[j as int] is Header));
        if is_h {
            third.set(j, any_after);
            assert(any_after == exists|k: int| j < k < n && !(#[trigger] lv[k] is Header) && keeps_table(lv, flv, k));
        }
        if !is_h && second[j] {
            any_after = true;
        }
    }
    let mut out: Vec<JsonLine> = Vec::new();
    let mut i: usize = 0;
    while i < n
        invariant
            n == lines.len(),
            lv == lines_view(lines@),
            flv == fl@,
            i <= n,
            third@.len() == n,
            forall|k: int| 0 <= k < n ==> third@[k] == keeps(lv, flv, k),
            lines_view(out@) == kept_lines(lv, flv, i as int),
        decreases n - i,
    {
        if third[i] {
            let ghost prev = out@;
            let line = copy_line(&lines[i], None);
            out.push(line);
            assert(lines_view(out@) =~= lines_view(prev).push(lv[i as int]));
        }
        assert(lines_view(out@) =~= kept_lines(lv, flv, i + 1));
        i = i + 1;
    }
    out
}

/// Blanking control characters keeps the length and leaves none behind.
pub proof fn lemma_sanitize_no_control(s: Seq<char>)
    ensures
        spec_sanitize(s).len() == s.len(),
        forall|i: int| 0 <= i < s.len() ==> !is_control(#[trigger] spec_sanitize(s)[i]),
{
}

proof fn lemma_widen_covers(ws: Seq<usize>, cells: Seq<Seq<char>>)
    ensures
        widen(ws, cells).len() >= ws.len(),
        widen(ws, cells).len() >= cells.len(),
        forall|c: int| 0 <= c < ws.len() ==> widen(ws, cells)[c] >= #[trigger] ws[c],
        forall|c: int| 0 <= c < cells.len() ==> widen(ws, cells)[c] >= (#[trigger] cells[c]).len() as usize,
    decreases cells.len(),
{
    if cells.len() > 0 {
        lemma_widen_covers(ws, cells.drop_last());
        assert forall|c: int| 0 <= c < cells.len() implies widen(ws, cells)[c] >= (#[trigger] cells[c]).len() as usize by {
            if c < cells.len() - 1 {
                assert(cells.drop_last()[c] == cells[c]);
            }
        }
    }
}

/// The widths of a table fit each of its cells: no cell is wider than its column.
pub proof fn lemma_block_widths_cover(block: Seq<JsonLineView>)
    ensures
        forall|k: int| 0 <= k < block.len() ==> block_widths(block).len() >= cells_of(#[trigger] block[k]).len(),
        forall|k: int, c: int| 0 <= k < block.len() && 0 <= c < cells_of(block[k]).len()
            ==> block_widths(block)[c] >= (#[trigger] cells_of(#[trigger] block[k])[c]).len() as usize,
    decreases block.len(),
{
    if block.len() > 0 {
        let prev = block.drop_last();
        lemma_block_widths_cover(prev);
        lemma_widen_covers(block_widths(prev), cells_of(block.last()));
        assert forall|k: int, c: int| 0 <= k < block.len() && 0 <= c < cells_of(block[k]).len()
            implies block_widths(block)[c] >= (#[trigger] cells_of(#[trigger] block[k])[c]).len() as usize by {
            if k < block.len() - 1 {
                assert(prev[k] == block[k]);
            }
        }
        assert forall|k: int| 0 <= k < block.len() implies block_widths(block).len() >= cells_of(#[trigger] block[k]).len() by {
            if k < block.len() - 1 {
                assert(prev[k] == block[k]);
            }
        }
    }
}

/// The value of a Stats cell: the member whose key is the whole field, else, for a
/// dotted field, the members named by its pieces one inside the other; `None` stands
/// for a missing value (shown as null).
pub open spec fn spec_nested_value(item: JsonView, field: Seq<char>) -> Option<JsonView> {
    if item.get(field) is Some {
        item.get(field)
    } else if field.contains('.') {
        spec_lookup_parts(item, spec_split(field, '.'))
    } else {
        None
    }
}

/// Finds the value of a Stats cell by its field.
pub fn get_nested_value<'a>(item: &'a JsonValue, field: &str) -> (r: Option<&'a JsonValue>)
    ensures
        match r {
            Some(v) => spec_nested_value(item@, field@) == Some(v@),
            None => spec_nested_value(item@, field@) is None,
        },
{
    match item.get(field) {
        Some(v) => {
            return Some(v);
        },
        None => {},
    }
    let fcs = chars_of(field);
    let mut has_dot = false;
    let mut i: usize = 0;
    while i < fcs.len()
        invariant
            i <= fcs.len(),
            fcs@ == field@,
            has_dot == exists|j: int| 0 <= j < i && fcs@[j] == '.',
        decreases fcs.len() - i,
    {
        if fcs[i] == '.' {
            has_dot = true;
        }
        i = i + 1;
    }
    if !has_dot {
        return None;
    }
    assert(field@.contains('.'));
    let parts = split_chars(&fcs, '.');
    let ghost pv = chars_seqs(parts@);
    let mut cur: &'a JsonValue = item;
    let mut k: usize = 0;
    assert(pv.subrange(0, pv.len() as int) =~= pv);
    while k < parts.len()
        invariant
            k <= parts.len(),
            pv == chars_seqs(parts@),
            pv == spec_split(field@, '.'),
            item@.get(field@) is None,
            field@.contains('.'),
            spec_lookup_parts(item@, pv) == spec_lookup_parts(cur@, pv.subrange(k as int, pv.len() as int)),
        decreases parts.len() - k,
    {
        let ghost rest = pv.subrange(k as int, pv.len() as int);
        assert(rest[0] == parts@[k as int]@);
        assert(rest.drop_first() =~= pv.subrange(k + 1, pv.len() as int));
        let key = string_from_chars(&parts[k]);
        match cur.get(key.as_str()) {
            Some(next) => {
                cur = next;
            },
            None => {
                return None;
            },
        }
        k = k + 1;
    }
    assert(pv.subrange(pv.len() as int, pv.len() as int) =~= seq![]);
    Some(cur)
}

proof fn lemma_kept_contains(lines: Seq<JsonLineView>, fl: Seq<char>, n: int, j: int)
    requires
        0 <= j < n <= lines.len(),
        keeps(lines, fl, j),
    ensures
        kept_lines(lines, fl, n).contains(lines[j]),
    decreases n,
{
    let prev = kept_lines(lines, fl, n - 1);
    let tail: Seq<JsonLineView> = if keeps(lines, fl, n - 1) { seq![lines[n - 1]] } else { seq![] };
    assert(kept_lines(lines, fl, n) == prev + tail);
    if j < n - 1 {
        lemma_kept_contains(lines, fl, n - 1, j);
        let i = choose|i: int| 0 <= i < prev.len() && prev[i] == lines[j];
        assert((prev + tail)[i] == lines[j]);
    } else {
        assert((prev + tail)[prev.len() as int] == lines[j]);
    }
}

/// Under a filter, a line whose own text holds it, ignoring case, stays: a key and value
/// (as `key: value`), an array value, or a table row (its cells joined by spaces); and so
/// does every header above such a line that is not a table row.
pub proof fn lemma_matching_lines_stay(lines: Seq<JsonLineView>, filter: Seq<char>, j: int)
    requires
        0 <= j < lines.len(),
        filter.len() > 0,
    ensures
        ({
            let fl = spec_to_lowercase(filter);
            let out = spec_filter_lines(lines, filter);
            let own = match lines[j] {
                JsonLineView::KeyValue(k, v) => spec_contains(spec_to_lowercase(k + seq![':', ' '] + v), fl),
                JsonLineView::ArrayValue(v) => spec_contains(spec_to_lowercase(v), fl),
                JsonLineView::TableRow(cells, _) => spec_contains(spec_to_lowercase(spec_join(cells, seq![' '])), fl),
                _ => false,
            };
            &&& own ==> out.contains(lines[j])
            &&& (own && !(lines[j] is TableRow)) ==> forall|i: int| 0 <= i < j && (#[trigger] lines[i]) is Header ==> out.contains(lines[i])
        }),
{
    let fl = spec_to_lowercase(filter);
    let n = lines.len() as int;
    if line_matches(lines[j], fl) {
        assert(!(lines[j] is Header) && !(lines[j] is TableHeader));
        assert(keeps_table(lines, fl, j));
        assert(keeps(lines, fl, j));
        lemma_kept_contains(lines, fl, n, j);
        if !(lines[j] is TableRow) {
            assert forall|i: int| 0 <= i < j && (#[trigger] lines[i]) is Header implies spec_filter_lines(lines, filter).contains(
                lines[i],
            ) by {
                assert(i < j && j < lines.len() && !(lines[j] is Header) && keeps_table(lines, fl, j));
                assert(keeps(lines, fl, i));
                lemma_kept_contains(lines, fl, n, i);
            }
        }
    }
}

} // verus!
