//! What the command line decides before the client starts: the authentication
//! mode, which credentials are known and which must be asked for, the mode from
//! the command line or from the server, the Cont3xt tags, and values read from a
//! command.
use vstd::prelude::*;
use crate::app::types::AppMode;
use crate::text::{chars_of, str_to_string, string_from_chars, string_eq_str};

verus! {

/// How the client authenticates with the server.
#[derive(Clone, Copy, PartialEq, Eq, Structural, Debug)]
pub enum AuthMode {
    NoAuth,
    Basic,
    Digest,
    Form,
    Web,
    Okta,
}

pub open spec fn spec_auth_mode(name: Seq<char>) -> AuthMode {
    if name == "basic"@ {
        AuthMode::Basic
    } else if name == "digest"@ {
        AuthMode::Digest
    } else if name == "form"@ {
        AuthMode::Form
    } else if name == "web"@ {
        AuthMode::Web
    } else if name == "okta"@ {
        AuthMode::Okta
    } else {
        AuthMode::NoAuth
    }
}

/// The authentication mode named on the command line; no authentication for any
/// other name.
pub fn auth_mode(name: &str) -> (r: AuthMode)
    ensures
        r == spec_auth_mode(name@),
{
    if string_eq_str(&str_to_string(name), "basic") {
        AuthMode::Basic
    } else if string_eq_str(&str_to_string(name), "digest") {
        AuthMode::Digest
    } else if string_eq_str(&str_to_string(name), "form") {
        AuthMode::Form
    } else if string_eq_str(&str_to_string(name), "web") {
        AuthMode::Web
    } else if string_eq_str(&str_to_string(name), "okta") {
        AuthMode::Okta
    } else {
        AuthMode::NoAuth
    }
}

/// Web and Okta logins ask for their credentials themselves, with the labels of the
/// login page.
pub fn defers_prompts(mode: AuthMode) -> (r: bool)
    ensures
        r == (mode == AuthMode::Web || mode == AuthMode::Okta),
{
    mode == AuthMode::Web || mode == AuthMode::Okta
}

/// What must still be asked on the terminal.
#[derive(Clone, Copy, PartialEq, Eq, Structural, Debug)]
pub enum Ask {
    Nothing,
    /// the password of the known user
    Password,
    /// the user name; the password is known
    Username,
    UsernameAndPassword,
}

/// The credentials known from the command line, and what must still be asked.
pub struct Credentials {
    pub username: Option<String>,
    pub password: Option<String>,
    pub ask: Ask,
}

pub open spec fn opt_view(o: Option<&str>) -> Option<Seq<char>> {
    match o {
        Some(s) => Some(s@),
        None => None,
    }
}

pub open spec fn opt_string_view(o: Option<String>) -> Option<Seq<char>> {
    match o {
        Some(s) => Some(s@),
        None => None,
    }
}

/// The position of the first `:`.
pub open spec fn colon_at(s: Seq<char>) -> int {
    crate::seqs::first_index(s, is_char(':'))
}

pub open spec fn is_char(x: char) -> spec_fn(char) -> bool {
    |c: char| c == x
}

/// The credentials from `--user` (`user` or `user:pass`) and `--password` (which wins
/// over the password of `--user`): what is known and what must be asked. Nothing is
/// asked where the login page asks (web, Okta) or a cookie jar may hold a session, nor
/// without authentication.
pub open spec fn spec_credentials(user: Option<Seq<char>>, password: Option<Seq<char>>, mode: AuthMode, has_jar: bool)
    -> (Option<Seq<char>>, Option<Seq<char>>, Ask)
{
    let defers = mode == AuthMode::Web || mode == AuthMode::Okta;
    match user {
        Some(up) => if colon_at(up) < up.len() {
            (
                Some(up.subrange(0, colon_at(up))),
                Some(match password { Some(p) => p, None => up.subrange(colon_at(up) + 1, up.len() as int) }),
                Ask::Nothing,
            )
        } else {
            match password {
                Some(p) => (Some(up), Some(p), Ask::Nothing),
                None => if defers || has_jar { (Some(up), None, Ask::Nothing) } else { (Some(up), None, Ask::Password) },
            }
        },
        None => if defers {
            (None, password, Ask::Nothing)
        } else if mode != AuthMode::NoAuth {
            if has_jar {
                (None, password, Ask::Nothing)
            } else {
                match password {
                    Some(p) => (None, Some(p), Ask::Username),
                    None => (None, None, Ask::UsernameAndPassword),
                }
            }
        } else {
            (None, None, Ask::Nothing)
        },
    }
}

/// Works out the credentials given on the command line; `password` is the value of
/// `--password` after a command in it ran.
pub fn credentials(user: Option<&str>, password: Option<String>, mode: AuthMode, has_jar: bool) -> (r: Credentials)
    ensures
        (opt_string_view(r.username), opt_string_view(r.password), r.ask)
            == spec_credentials(opt_view(user), opt_string_view(password), mode, has_jar),
{
    let defers = defers_prompts(mode);
    match user {
        Some(up) => {
            let cs = chars_of(up);
            let ghost pred = is_char(':');
            let mut i: usize = 0;
            while i < cs.len() && cs[i] != ':'
                invariant
                    i <= cs.len(),
                    cs@ == up@,
                    pred == is_char(':'),
                    forall|k: int| 0 <= k < i ==> !pred(#[trigger] cs@[k]),
                decreases cs.len() - i,
            {
                i = i + 1;
            }
            proof {
                if i < cs.len() {
                    crate::seqs::lemma_first_match_at(up@, pred, i as int);
                } else {
                    crate::seqs::lemma_first_match_none(up@, pred);
                }
                assert(colon_at(up@) == i);
            }
            if i < cs.len() {
                let mut name: Vec<char> = Vec::new();
                let mut k: usize = 0;
                while k < i
                    invariant
                        k <= i,
                        i < cs.len(),
                        name@ == cs@.subrange(0, k as int),
                    decreases i - k,
                {
                    name.push(cs[k]);
                    assert(name@ =~= cs@.subrange(0, k + 1));
                    k = k + 1;
                }
                let pass = match password {
                    Some(p) => p,
                    None => {
                        let mut rest: Vec<char> = Vec::new();
                        let mut k: usize = i + 1;
                        while k < cs.len()
                            invariant
                                i + 1 <= k <= cs.len(),
                                rest@ == cs@.subrange(i + 1, k as int),
                            decreases cs.len() - k,
                        {
                            rest.push(cs[k]);
                            assert(rest@ =~= cs@.subrange(i + 1, k + 1));
                            k = k + 1;
                        }
                        string_from_chars(&rest)
                    },
                };
                Credentials { username: Some(string_from_chars(&name)), password: Some(pass), ask: Ask::Nothing }
            } else {
                match password {
                    Some(p) => Credentials { username: Some(str_to_string(up)), password: Some(p), ask: Ask::Nothing },
                    None => {
                        let ask = if defers || has_jar { Ask::Nothing } else { Ask::Password };
                        Credentials { username: Some(str_to_string(up)), password: None, ask }
                    },
                }
            }
        },
        None => {
            if defers {
                Credentials { username: None, password, ask: Ask::Nothing }
            } else if mode != AuthMode::NoAuth {
                if has_jar {
                    Credentials { username: None, password, ask: Ask::Nothing }
                } else {
                    match password {
                        Some(p) => Credentials { username: None, password: Some(p), ask: Ask::Username },
                        None => Credentials { username: None, password: None, ask: Ask::UsernameAndPassword },
                    }
                }
            } else {
                Credentials { username: None, password: None, ask: Ask::Nothing }
            }
        },
    }
}

pub open spec fn spec_mode_from_arg(name: Seq<char>) -> AppMode {
    if name == "cont3xt"@ {
        AppMode::Cont3xt
    } else if name == "wise"@ {
        AppMode::Wise
    } else if name == "parliament"@ {
        AppMode::Parliament
    } else {
        AppMode::Viewer
    }
}

/// The mode named by `--app`; the viewer for any other name.
pub fn mode_from_arg(name: &str) -> (r: AppMode)
    ensures
        r == spec_mode_from_arg(name@),
{
    let s = str_to_string(name);
    if string_eq_str(&s, "cont3xt") {
        AppMode::Cont3xt
    } else if string_eq_str(&s, "wise") {
        AppMode::Wise
    } else if string_eq_str(&s, "parliament") {
        AppMode::Parliament
    } else {
        AppMode::Viewer
    }
}

/// The mode of the server from the `app` of its version answer, which a WISE server
/// may give as `wiseService`; the viewer for anything else.
pub fn mode_from_server(app_name: &str) -> (r: AppMode)
    ensures
        r == (if app_name@ == "wiseService"@ { AppMode::Wise } else { spec_mode_from_arg(app_name@) }),
{
    if string_eq_str(&str_to_string(app_name), "wiseService") {
        AppMode::Wise
    } else {
        mode_from_arg(app_name)
    }
}

/// A white-space character (`char::is_whitespace`: the Unicode White_Space property).
pub open spec fn is_white(c: char) -> bool {
    let u = c as u32;
    (0x09 <= u && u <= 0x0D) || u == 0x20 || u == 0x85 || u == 0xA0 || u == 0x1680
        || (0x2000 <= u && u <= 0x200A) || u == 0x2028 || u == 0x2029 || u == 0x202F || u == 0x205F
        || u == 0x3000
}

fn is_white_exec(c: char) -> (r: bool)
    ensures
        r == is_white(c),
{
    let u = c as u32;
    (0x09 <= u && u <= 0x0D) || u == 0x20 || u == 0x85 || u == 0xA0 || u == 0x1680
        || (0x2000 <= u && u <= 0x200A) || u == 0x2028 || u == 0x2029 || u == 0x202F || u == 0x205F
        || u == 0x3000
}

/// The number of white-space characters at the start of `s`.
pub open spec fn lead_white(s: Seq<char>) -> int
    decreases s.len(),
{
    if s.len() > 0 && is_white(s[0]) {
        1 + lead_white(s.drop_first())
    } else {
        0
    }
}

/// The number of white-space characters at the end of `s`.
pub open spec fn trail_white(s: Seq<char>) -> int
    decreases s.len(),
{
    if s.len() > 0 && is_white(s.last()) {
        1 + trail_white(s.drop_last())
    } else {
        0
    }
}

/// `str::trim`: `s` without white space at either end.
pub open spec fn spec_trim(s: Seq<char>) -> Seq<char> {
    if lead_white(s) >= s.len() {
        seq![]
    } else {
        s.subrange(lead_white(s), s.len() - trail_white(s))
    }
}

proof fn lemma_lead_white(s: Seq<char>, i: int)
    requires
        0 <= i <= s.len(),
        forall|k: int| 0 <= k < i ==> is_white(#[trigger] s[k]),
    ensures
        lead_white(s) == i + lead_white(s.subrange(i, s.len() as int)),
    decreases i,
{
    if i > 0 {
        assert forall|k: int| 0 <= k < i - 1 implies is_white(#[trigger] s.drop_first()[k]) by {
            assert(s.drop_first()[k] == s[k + 1]);
        }
        lemma_lead_white(s.drop_first(), i - 1);
        assert(s.drop_first().subrange(i - 1, s.len() - 1) =~= s.subrange(i, s.len() as int));
    } else {
        assert(s.subrange(0, s.len() as int) =~= s);
    }
}

proof fn lemma_trail_white(s: Seq<char>, j: int)
    requires
        0 <= j <= s.len(),
        forall|k: int| j <= k < s.len() ==> is_white(#[trigger] s[k]),
    ensures
        trail_white(s) == (s.len() - j) + trail_white(s.subrange(0, j)),
    decreases s.len() - j,
{
    if j < s.len() {
        assert forall|k: int| j <= k < s.len() - 1 implies is_white(#[trigger] s.drop_last()[k]) by {
            assert(s.drop_last()[k] == s[k]);
        }
        lemma_trail_white(s.drop_last(), j);
        assert(s.drop_last().subrange(0, j) =~= s.subrange(0, j));
    } else {
        assert(s.subrange(0, j) =~= s);
    }
}

proof fn lemma_trail_white_bound(s: Seq<char>)
    ensures
        0 <= trail_white(s) <= s.len(),
    decreases s.len(),
{
    if s.len() > 0 && is_white(s.last()) {
        lemma_trail_white_bound(s.drop_last());
    }
}

/// `s` without white space at either end.
pub fn trim_chars(s: &Vec<char>) -> (r: Vec<char>)
    ensures
        r@ == spec_trim(s@),
{
    let n = s.len();
    let mut a: usize = 0;
    while a < n && is_white_exec(s[a])
        invariant
            a <= n,
            n == s@.len(),
            forall|k: int| 0 <= k < a ==> is_white(#[trigger] s@[k]),
        decreases n - a,
    {
        a = a + 1;
    }
    proof {
        lemma_lead_white(s@, a as int);
    }
    if a == n {
        assert(lead_white(s@.subrange(n as int, n as int)) == 0);
        return Vec::new();
    }
    assert(lead_white(s@.subrange(a as int, n as int)) == 0);
    let mut b: usize = n;
    while b > a && is_white_exec(s[b - 1])
        invariant
            a < n,
            a <= b <= n,
            n == s@.len(),
            !is_white(s@[a as int]),
            forall|k: int| b <= k < n ==> is_white(#[trigger] s@[k]),
        decreases b,
    {
        b = b - 1;
    }
    proof {
        lemma_trail_white(s@, b as int);
        if b > a {
            assert(trail_white(s@.subrange(0, b as int)) == 0);
        } else {
            assert(false);
        }
    }
    let mut out: Vec<char> = Vec::new();
    let mut k: usize = a;
    while k < b
        invariant
            a <= k <= b,
            b <= n,
            n == s@.len(),
            out@ == s@.subrange(a as int, k as int),
        decreases b - k,
    {
        out.push(s[k]);
        assert(out@ =~= s@.subrange(a as int, k + 1));
        k = k + 1;
    }
    out
}

/// The tags of `--cont3xt-tags`: the comma-separated pieces, trimmed, without empty ones.
pub open spec fn spec_tags(s: Seq<char>) -> Seq<Seq<char>> {
    tags_from(crate::ui::json_lines::spec_split(s, ','))
}

pub open spec fn tags_from(pieces: Seq<Seq<char>>) -> Seq<Seq<char>>
    decreases pieces.len(),
{
    if pieces.len() == 0 {
        seq![]
    } else {
        tags_from(pieces.drop_last()) + (if spec_trim(pieces.last()).len() > 0 { seq![spec_trim(pieces.last())] } else { seq![] })
    }
}

/// Reads the Cont3xt tags given on the command line.
pub fn parse_tags(s: &str) -> (r: Vec<String>)
    ensures
        crate::app::columns::string_views(r@) == spec_tags(s@),
{
    let cs = chars_of(s);
    let pieces = crate::ui::json_lines::split_chars(&cs, ',');
    let ghost pv = crate::ui::json_lines::chars_seqs(pieces@);
    let mut out: Vec<String> = Vec::new();
    let mut i: usize = 0;
    while i < pieces.len()
        invariant
            i <= pieces.len(),
            pv == crate::ui::json_lines::chars_seqs(pieces@),
            crate::app::columns::string_views(out@) == tags_from(pv.take(i as int)),
        decreases pieces.len() - i,
    {
        assert(pv.take(i + 1).drop_last() =~= pv.take(i as int));
        assert(pv.take(i + 1).last() == pieces@[i as int]@);
        let t = trim_chars(&pieces[i]);
        if t.len() > 0 {
            let ghost prev = out@;
            let tag = string_from_chars(&t);
            out.push(tag);
            assert(crate::app::columns::string_views(out@) =~= crate::app::columns::string_views(prev).push(tag@));
        }
        i = i + 1;
    }
    assert(pv.take(pieces.len() as int) =~= pv);
    out
}

/// The command of a value given as `|command`, or none for a plain value.
pub fn pipe_command(val: &str) -> (r: Option<String>)
    ensures
        match r {
            Some(cmd) => val@.len() > 0 && val@[0] == '|' && cmd@ == val@.drop_first(),
            None => !(val@.len() > 0 && val@[0] == '|'),
        },
{
    let cs = chars_of(val);
    if cs.len() > 0 && cs[0] == '|' {
        let mut rest: Vec<char> = Vec::new();
        let mut k: usize = 1;
        while k < cs.len()
            invariant
                1 <= k <= cs.len(),
                rest@ == cs@.subrange(1, k as int),
            decreases cs.len() - k,
        {
            rest.push(cs[k]);
            assert(rest@ =~= cs@.subrange(1, k + 1));
            k = k + 1;
        }
        assert(cs@.subrange(1, cs.len() as int) =~= val@.drop_first());
        Some(string_from_chars(&rest))
    } else {
        None
    }
}

/// The first line of a command's output (`str::lines`: up to the first line feed,
/// without a carriage return before it), or nothing for empty output.
pub open spec fn spec_first_line(out: Seq<char>) -> Seq<char> {
    let i = crate::seqs::first_index(out, is_char('\n'));
    let line = out.subrange(0, i);
    if line.len() > 0 && line.last() == '\r' {
        line.drop_last()
    } else {
        line
    }
}

/// Reads the first line of a command's output.
pub fn first_line(out: &str) -> (r: String)
    ensures
        r@ == spec_first_line(out@),
{
    let cs = chars_of(out);
    let ghost pred = is_char('\n');
    let mut i: usize = 0;
    while i < cs.len() && cs[i] != '\n'
        invariant
            i <= cs.len(),
            cs@ == out@,
            pred == is_char('\n'),
            forall|k: int| 0 <= k < i ==> !pred(#[trigger] cs@[k]),
        decreases cs.len() - i,
    {
        i = i + 1;
    }
    proof {
        if i < cs.len() {
            crate::seqs::lemma_first_match_at(out@, pred, i as int);
        } else {
            crate::seqs::lemma_first_match_none(out@, pred);
        }
    }
    let end: usize = if i > 0 && cs[i - 1] == '\r' { i - 1 } else { i };
    let mut line: Vec<char> = Vec::new();
    let mut k: usize = 0;
    while k < end
        invariant
            k <= end,
            end <= i,
            i <= cs.len(),
            line@ == cs@.subrange(0, k as int),
        decreases end - k,
    {
        line.push(cs[k]);
        assert(line@ =~= cs@.subrange(0, k + 1));
        k = k + 1;
    }
    proof {
        if i > 0 {
            assert(cs@.subrange(0, i as int).drop_last() =~= cs@.subrange(0, i - 1));
        }
    }
    string_from_chars(&line)
}

/// The errors of `--cont3xt-save-json`: it needs the Cont3xt mode and a search.
pub fn save_json_check(mode: AppMode, expression: &str) -> (r: Result<(), String>)
    ensures
        match r {
            Ok(()) => mode == AppMode::Cont3xt && expression@.len() > 0,
            Err(e) => if mode != AppMode::Cont3xt {
                e@ == "Error: --cont3xt-save-json requires Cont3xt mode (use --app cont3xt or connect to a Cont3xt server)"@
            } else {
                expression@.len() == 0 && e@ == "Error: --cont3xt-save-json requires a search expression (use --search or --cont3xt-search)"@
            },
        },
{
    if mode != AppMode::Cont3xt {
        return Err(str_to_string("Error: --cont3xt-save-json requires Cont3xt mode (use --app cont3xt or connect to a Cont3xt server)"));
    }
    let cs = chars_of(expression);
    if cs.len() == 0 {
        return Err(str_to_string("Error: --cont3xt-save-json requires a search expression (use --search or --cont3xt-search)"));
    }
    Ok(())
}

} // verus!
