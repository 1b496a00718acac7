//! Small formatting rules of the screens: numbers with thousands separators, IP
//! protocol names, sort arrows, hex colors, the status bar and braille graph cells.
use vstd::prelude::*;
use crate::json::{JsonValue, digit_value};
use crate::text::{char_from_code, push_char, str_to_string};
use vstd::string::StringSliceAdditionalSpecFns;

verus! {

/// The character of a decimal digit.
pub open spec fn digit_char(d: nat) -> char {
    ((d + 48) as u32) as char
}

/// The decimal digits of a number, most significant first, without leading zeros.
pub open spec fn spec_digits(n: nat) -> Seq<char>
    decreases n,
{
    if n < 10 {
        seq![digit_char(n)]
    } else {
        spec_digits(n / 10).push(digit_char(n % 10))
    }
}

/// Digits grouped by three from the right, the groups separated by commas.
pub open spec fn spec_group_thousands(d: Seq<char>) -> Seq<char>
    decreases d.len(),
{
    if d.len() <= 3 {
        d
    } else {
        spec_group_thousands(d.subrange(0, d.len() - 3)) + seq![','] + d.subrange(d.len() - 3, d.len() as int)
    }
}

/// The decimal digits of a number.
pub fn decimal_digits(n: u64) -> (v: Vec<char>)
    ensures
        v@ == spec_digits(n as nat),
{
    // digits least significant first
    let mut rev: Vec<char> = Vec::new();
    let mut m: u64 = n;
    while m >= 10
        invariant
            m <= n,
            spec_digits(n as nat) == spec_digits(m as nat) + rev@.reverse(),
        decreases m,
    {
        let d = m % 10;
        let c = char_from_code((d as u32) + 48);
        proof {
            assert(spec_digits(m as nat) == spec_digits((m / 10) as nat).push(digit_char((m % 10) as nat)));
            assert(rev@.push(c).reverse() =~= seq![c] + rev@.reverse());
            assert(spec_digits(m as nat) + rev@.reverse() =~= spec_digits((m / 10) as nat) + (seq![c] + rev@.reverse()));
        }
        rev.push(c);
        m = m / 10;
    }
    let c = char_from_code((m as u32) + 48);
    proof {
        assert(spec_digits(m as nat) == seq![digit_char(m as nat)]);
        assert(rev@.push(c).reverse() =~= seq![c] + rev@.reverse());
    }
    rev.push(c);
    let mut v: Vec<char> = Vec::new();
    let mut i: usize = rev.len();
    while i > 0
        invariant
            i <= rev@.len(),
            v@ == rev@.reverse().subrange(0, (rev@.len() - i) as int),
        decreases i,
    {
        i = i - 1;
        v.push(rev[i]);
        assert(v@ =~= rev@.reverse().subrange(0, (rev@.len() - i) as int));
    }
    assert(rev@.reverse().subrange(0, rev@.len() as int) =~= rev@.reverse());
    v
}

/// A number with commas between groups of three digits, e.g. 1234567 as "1,234,567".
pub fn format_number(n: u64) -> (s: String)
    ensures
        s@ == spec_group_thousands(spec_digits(n as nat)),
{
    let d = decimal_digits(n);
    let len = d.len();
    let mut out: Vec<char> = Vec::new();
    // the first group has 1 to 3 digits
    let first = if len % 3 == 0 { 3 } else { len % 3 };
    let first = if first > len { len } else { first };
    let mut i: usize = 0;
    while i < first
        invariant
            i <= first <= len,
            len == d@.len(),
            out@ == d@.subrange(0, i as int),
        decreases first - i,
    {
        out.push(d[i]);
        i = i + 1;
    }
    proof {
        lemma_group_prefix(d@, first as int);
    }
    while i < len
        invariant
            first <= i <= len,
            len == d@.len(),
            (i - first) % 3 == 0,
            (len - first) % 3 == 0,
            first == len || first > 0,
            out@ == spec_group_thousands(d@.subrange(0, i as int)),
        decreases len - i,
    {
        push_comma_group(&mut out, &d, i);
        proof {
            let g = d@.subrange(0, i + 3);
            assert(g.subrange(0, g.len() - 3) =~= d@.subrange(0, i as int));
            assert(g.subrange(g.len() - 3, g.len() as int) =~= d@.subrange(i as int, i + 3));
        }
        i = i + 3;
    }
    assert(d@.subrange(0, len as int) =~= d@);
    crate::text::string_from_chars(&out)
}

fn push_comma_group(out: &mut Vec<char>, d: &Vec<char>, i: usize)
    requires
        i + 3 <= d.len(),
    ensures
        final(out)@ == old(out)@ + seq![','] + d@.subrange(i as int, i + 3),
{
    out.push(',');
    out.push(d[i]);
    out.push(d[i + 1]);
    out.push(d[i + 2]);
    assert(final(out)@ =~= old(out)@ + seq![','] + d@.subrange(i as int, i + 3));
}

proof fn lemma_group_prefix(d: Seq<char>, first: int)
    requires
        0 <= first <= 3,
        first <= d.len(),
    ensures
        spec_group_thousands(d.subrange(0, first)) == d.subrange(0, first),
{
}

/// Removes the commas of a text.
pub open spec fn without_commas(s: Seq<char>) -> Seq<char>
    decreases s.len(),
{
    if s.len() == 0 {
        s
    } else if s.last() == ',' {
        without_commas(s.drop_last())
    } else {
        without_commas(s.drop_last()).push(s.last())
    }
}

proof fn lemma_without_commas_concat(a: Seq<char>, b: Seq<char>)
    ensures
        without_commas(a + b) == without_commas(a) + without_commas(b),
    decreases b.len(),
{
    if b.len() == 0 {
        assert(a + b =~= a);
        assert(without_commas(b) =~= Seq::<char>::empty());
        assert(without_commas(a) + without_commas(b) =~= without_commas(a));
    } else {
        lemma_without_commas_concat(a, b.drop_last());
        assert((a + b).drop_last() =~= a + b.drop_last());
        if b.last() != ',' {
            assert((without_commas(a) + without_commas(b.drop_last())).push(b.last())
                =~= without_commas(a) + without_commas(b.drop_last()).push(b.last()));
        }
    }
}

proof fn lemma_no_commas_fixed(d: Seq<char>)
    requires
        forall|i: int| 0 <= i < d.len() ==> d[i] != ',',
    ensures
        without_commas(d) == d,
    decreases d.len(),
{
    if d.len() > 0 {
        lemma_no_commas_fixed(d.drop_last());
        assert(without_commas(d.drop_last()).push(d.last()) =~= d);
    }
}

proof fn lemma_group_ungroup(d: Seq<char>)
    requires
        forall|i: int| 0 <= i < d.len() ==> d[i] != ',',
    ensures
        without_commas(spec_group_thousands(d)) == d,
    decreases d.len(),
{
    lemma_no_commas_fixed(d);
    if d.len() > 3 {
        let h = d.subrange(0, d.len() - 3);
        let t = d.subrange(d.len() - 3, d.len() as int);
        lemma_group_ungroup(h);
        lemma_without_commas_concat(spec_group_thousands(h) + seq![','], t);
        lemma_without_commas_concat(spec_group_thousands(h), seq![',']);
        lemma_no_commas_fixed(t);
        assert(without_commas(seq![',']) =~= Seq::<char>::empty()) by {
            let one = seq![','];
            assert(one.len() == 1 && one.last() == ',');
            assert(one.drop_last() =~= Seq::<char>::empty());
            assert(without_commas(one.drop_last()) =~= Seq::<char>::empty());
        }
        assert(h + t =~= d);
    }
}

proof fn lemma_digits_are_digits(n: nat)
    ensures
        forall|i: int| 0 <= i < spec_digits(n).len() ==> '0' <= #[trigger] spec_digits(n)[i] <= '9',
        spec_digits(n).len() > 0,
    decreases n,
{
    if n >= 10 {
        lemma_digits_are_digits(n / 10);
    }
}

proof fn lemma_digits_decimal(n: nat)
    ensures
        crate::json::spec_decimal(spec_digits(n)) == n,
    decreases n,
{
    if n >= 10 {
        lemma_digits_decimal(n / 10);
        assert(spec_digits(n).drop_last() == spec_digits(n / 10));
        assert(spec_digits(n).last() == digit_char(n % 10));
        assert(digit_value(digit_char(n % 10)) == n % 10);
        let d = spec_digits(n);
        assert(crate::json::spec_decimal(d) == crate::json::spec_decimal(d.drop_last()) * 10 + digit_value(d.last()));
        assert((n / 10) * 10 + n % 10 == n);
    } else {
        let d = spec_digits(n);
        assert(d.drop_last() =~= Seq::<char>::empty());
        assert(d.last() == digit_char(n));
        assert(digit_value(digit_char(n)) == n);
        assert(crate::json::spec_decimal(d) == crate::json::spec_decimal(d.drop_last()) * 10 + digit_value(d.last()));
    }
}

/// With the commas removed, a formatted number is the decimal text of the number: its
/// digits read back as the number.
pub proof fn lemma_format_number_reads_back(n: u64)
    ensures
        without_commas(spec_group_thousands(spec_digits(n as nat))) == spec_digits(n as nat),
        crate::json::spec_parse_u64(spec_digits(n as nat)) == Some(n),
{
    lemma_digits_are_digits(n as nat);
    lemma_group_ungroup(spec_digits(n as nat));
    lemma_digits_decimal(n as nat);
    let d = spec_digits(n as nat);
    assert forall|i: int| 0 <= i < d.len() implies crate::json::is_digit(#[trigger] d[i]) by {}
}

/// The text of a number.
pub fn number_text(n: u64) -> (s: String)
    ensures
        s@ == spec_digits(n as nat),
{
    let d = decimal_digits(n);
    crate::text::string_from_chars(&d)
}

pub open spec fn spec_protocol_name(num: u64) -> Seq<char> {
    if num == 1 {
        "ICMP"@
    } else if num == 2 {
        "IGMP"@
    } else if num == 6 {
        "TCP"@
    } else if num == 17 {
        "UDP"@
    } else if num == 41 {
        "IPv6"@
    } else if num == 47 {
        "GRE"@
    } else if num == 50 {
        "ESP"@
    } else if num == 58 {
        "ICM6"@
    } else if num == 89 {
        "OSPF"@
    } else if num == 132 {
        "SCTP"@
    } else {
        spec_digits(num as nat)
    }
}

/// The name of an IP protocol number, or the number itself.
pub fn protocol_name(num: u64) -> (s: String)
    ensures
        s@ == spec_protocol_name(num),
{
    let name = if num == 1 {
        "ICMP"
    } else if num == 2 {
        "IGMP"
    } else if num == 6 {
        "TCP"
    } else if num == 17 {
        "UDP"
    } else if num == 41 {
        "IPv6"
    } else if num == 47 {
        "GRE"
    } else if num == 50 {
        "ESP"
    } else if num == 58 {
        "ICM6"
    } else if num == 89 {
        "OSPF"
    } else if num == 132 {
        "SCTP"
    } else {
        return number_text(num);
    };
    str_to_string(name)
}

/// The protocol column of a session: the protocol's name for a number (0 for a number
/// that is not a non-negative integer), `-` for anything else.
pub fn ip_protocol_str(val: &JsonValue) -> (s: String)
    ensures
        s@ == (match val@ {
            crate::json::JsonView::Number(_) => spec_protocol_name(match val@.as_u64() { Some(n) => n, None => 0 }),
            _ => "-"@,
        }),
{
    match val {
        JsonValue::Number(_) => {
            let num = match val.as_u64() {
                Some(n) => n,
                None => 0,
            };
            protocol_name(num)
        },
        _ => str_to_string("-"),
    }
}

/// A column label with the sort arrow of a sorted column.
pub fn sort_header_label(label: &str, is_sorted: bool, is_desc: bool) -> (s: String)
    ensures
        s@ == (if is_sorted { label@ + (if is_desc { "▼"@ } else { "▲"@ }) } else { label@ }),
{
    let mut s = str_to_string(label);
    if is_sorted {
        if is_desc {
            s.append("▼");
        } else {
            s.append("▲");
        }
    }
    s
}

/// Number of newlines in a text.
pub open spec fn count_newlines(s: Seq<char>) -> nat
    decreases s.len(),
{
    if s.len() == 0 {
        0
    } else {
        count_newlines(s.drop_last()) + if s.last() == '\n' { 1nat } else { 0nat }
    }
}

/// Rows of the status bar: one per line of the status message (kept to 16 bits).
pub fn status_bar_height(status_msg: &str) -> (h: u16)
    ensures
        h as int == (count_newlines(status_msg@) + 1) % 65536,
{
    let cs = crate::text::chars_of(status_msg);
    let mut count: u16 = 0;
    let mut i: usize = 0;
    while i < cs.len()
        invariant
            i <= cs@.len(),
            count as int == count_newlines(cs@.subrange(0, i as int)) % 65536,
        decreases cs.len() - i,
    {
        assert(cs@.subrange(0, i + 1).drop_last() =~= cs@.subrange(0, i as int));
        if cs[i] == '\n' {
            count = count.wrapping_add(1);
        }
        i = i + 1;
    }
    assert(cs@.subrange(0, cs@.len() as int) =~= cs@);
    count.wrapping_add(1)
}

pub open spec fn braille_left(h: u8) -> u8 {
    if h == 0 { 0x00 } else if h == 1 { 0x40 } else if h == 2 { 0x44 } else if h == 3 { 0x46 } else { 0x47 }
}

pub open spec fn braille_right(h: u8) -> u8 {
    if h == 0 { 0x00 } else if h == 1 { 0x80 } else if h == 2 { 0xA0 } else if h == 3 { 0xB0 } else { 0xB8 }
}

/// The braille cell with the left column filled `left` dots from the bottom and the
/// right column `right` dots (at most four each).
pub fn braille_from_heights(left: u8, right: u8) -> (c: char)
    ensures
        c == ((0x2800 + (braille_left(left) | braille_right(right))) as u32) as char,
{
    let l: u8 = if left == 0 { 0x00 } else if left == 1 { 0x40 } else if left == 2 { 0x44 } else if left == 3 { 0x46 } else { 0x47 };
    let r: u8 = if right == 0 { 0x00 } else if right == 1 { 0x80 } else if right == 2 { 0xA0 } else if right == 3 { 0xB0 } else { 0xB8 };
    let bits: u8 = l | r;
    char_from_code(0x2800 + bits as u32)
}

/// The Stats fields whose values are right-aligned as numbers.
pub open spec fn spec_is_numeric_field(f: Seq<char>) -> bool {
    f == "monitoring"@ || f == "freeSpaceM"@ || f == "deltaPackets"@ || f == "deltaBytesPerSec"@
        || f == "deltaSessions"@ || f == "deltaDropped"@ || f == "storeSize"@ || f == "docs"@
        || f == "searches"@ || f == "searchesTime"@ || f == "docs.count"@ || f == "store.size"@ || f == "pri"@
}

pub fn is_numeric_field(field: &str) -> (b: bool)
    ensures
        b == spec_is_numeric_field(field@),
{
    let names = vec!["monitoring", "freeSpaceM", "deltaPackets", "deltaBytesPerSec", "deltaSessions", "deltaDropped",
        "storeSize", "docs", "searches", "searchesTime", "docs.count", "store.size", "pri"];
    let f = str_to_string(field);
    let mut i: usize = 0;
    while i < names.len()
        invariant
            i <= names@.len(),
            f@ == field@,
            names@.len() == 13,
            names@[0]@ == "monitoring"@, names@[1]@ == "freeSpaceM"@, names@[2]@ == "deltaPackets"@,
            names@[3]@ == "deltaBytesPerSec"@, names@[4]@ == "deltaSessions"@, names@[5]@ == "deltaDropped"@,
            names@[6]@ == "storeSize"@, names@[7]@ == "docs"@, names@[8]@ == "searches"@,
            names@[9]@ == "searchesTime"@, names@[10]@ == "docs.count"@, names@[11]@ == "store.size"@, names@[12]@ == "pri"@,
            forall|k: int| 0 <= k < i ==> names@[k]@ != field@,
        decreases names.len() - i,
    {
        if crate::text::string_eq_str(&f, names[i]) {
            return true;
        }
        i = i + 1;
    }
    false
}

/// The value of a hexadecimal digit byte.
pub open spec fn hex_value(b: u8) -> Option<u8> {
    if 0x30 <= b <= 0x39 {
        Some((b - 0x30) as u8)
    } else if 0x61 <= b <= 0x66 {
        Some((b - 0x61 + 10) as u8)
    } else if 0x41 <= b <= 0x46 {
        Some((b - 0x41 + 10) as u8)
    } else {
        None
    }
}

/// What `u8::from_str_radix` gives in base 16 for a text of two bytes: an optional `+`
/// followed by hexadecimal digits.
pub open spec fn hex_pair(b0: u8, b1: u8) -> Option<u8> {
    if b0 == 0x2B {
        hex_value(b1)
    } else {
        match (hex_value(b0), hex_value(b1)) {
            (Some(h), Some(l)) => Some((h * 16 + l) as u8),
            _ => None,
        }
    }
}

/// The bytes of a color after its optional leading `#`.
pub open spec fn color_digits(bytes: Seq<u8>) -> Seq<u8> {
    if bytes.len() > 0 && bytes[0] == 0x23 {
        bytes.drop_first()
    } else {
        bytes
    }
}

pub open spec fn spec_parse_hex_color(bytes: Seq<u8>) -> Option<(u8, u8, u8)> {
    let h = color_digits(bytes);
    if h.len() != 6 {
        None
    } else {
        match (hex_pair(h[0], h[1]), hex_pair(h[2], h[3]), hex_pair(h[4], h[5])) {
            (Some(r), Some(g), Some(b)) => Some((r, g, b)),
            _ => None,
        }
    }
}

pub open spec fn is_continuation(b: u8) -> bool {
    0x80 <= b <= 0xBF
}

fn hex_value_of(b: u8) -> (r: Option<u8>)
    ensures
        r == hex_value(b),
{
    if 0x30 <= b && b <= 0x39 {
        Some(b - 0x30)
    } else if 0x61 <= b && b <= 0x66 {
        Some(b - 0x61 + 10)
    } else if 0x41 <= b && b <= 0x46 {
        Some(b - 0x41 + 10)
    } else {
        None
    }
}

fn hex_pair_of(b0: u8, b1: u8) -> (r: Option<u8>)
    ensures
        r == hex_pair(b0, b1),
{
    if b0 == 0x2B {
        hex_value_of(b1)
    } else {
        match (hex_value_of(b0), hex_value_of(b1)) {
            (Some(h), Some(l)) => Some(h * 16 + l),
            _ => None,
        }
    }
}

/// Reads a color written as six hexadecimal digits, with or without a leading `#`,
/// each pair read as `u8::from_str_radix` reads it. A text of six bytes whose pairs do
/// not fall on character boundaries is outside the domain: reading it would split a
/// character (a boundary of UTF-8 text is a byte that does not continue a character).
pub fn parse_hex_color(hex: &str) -> (r: Option<(u8, u8, u8)>)
    requires
        color_digits(hex.spec_bytes()).len() == 6 ==> !is_continuation(color_digits(hex.spec_bytes())[2])
            && !is_continuation(color_digits(hex.spec_bytes())[4]),
    ensures
        r == spec_parse_hex_color(hex.spec_bytes()),
{
    let b = hex.as_bytes();
    let off: usize = if b.len() > 0 && b[0] == 0x23 { 1 } else { 0 };
    let ghost h = color_digits(b@);
    assert(h =~= b@.subrange(off as int, b@.len() as int));
    if b.len() - off != 6 {
        return None;
    }
    let r = hex_pair_of(b[off], b[off + 1]);
    let g = hex_pair_of(b[off + 2], b[off + 3]);
    let bl = hex_pair_of(b[off + 4], b[off + 5]);
    match (r, g, bl) {
        (Some(r), Some(g), Some(bl)) => Some((r, g, bl)),
        _ => None,
    }
}

} // verus!
