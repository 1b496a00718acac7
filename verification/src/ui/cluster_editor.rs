//! What the Parliament cluster editor shows: its title, the line of each field, and
//! where the cursor stands in the wrapped description.
use vstd::prelude::*;
use crate::app::parliament::PlClusterEditorField;
use crate::text::{chars_of, str_to_string};
use vstd::string::StringSliceAdditionalSpecFns;
use crate::ui::json_lines::{append_chars, append_str};

verus! {

pub open spec fn spec_cluster_editor_title(is_new: bool) -> Seq<char> {
    if is_new { " New Cluster "@ } else { " Edit Cluster "@ }
}

/// The title of the editor: a new cluster or an existing one.
pub fn cluster_editor_title(is_new: bool) -> (s: &'static str)
    ensures
        s@ == spec_cluster_editor_title(is_new),
{
    if is_new { " New Cluster " } else { " Edit Cluster " }
}

/// Where the cursor stands after the characters `cs` of a description wrapped at
/// `width` columns: a newline starts a new row, and so does reaching the width.
pub open spec fn cursor_walk(cs: Seq<char>, width: int) -> (int, int)
    decreases cs.len(),
{
    if cs.len() == 0 {
        (0, 0)
    } else {
        let (r, c) = cursor_walk(cs.drop_last(), width);
        if cs.last() == '\n' {
            (r + 1, 0)
        } else if width > 0 && c + 1 >= width {
            (r + 1, 0)
        } else {
            (r, c + 1)
        }
    }
}

proof fn lemma_cursor_walk_bounds(cs: Seq<char>, width: int)
    ensures
        0 <= cursor_walk(cs, width).0 <= cs.len(),
        0 <= cursor_walk(cs, width).1 <= cs.len(),
    decreases cs.len(),
{
    if cs.len() > 0 {
        lemma_cursor_walk_bounds(cs.drop_last(), width);
    }
}

/// The cursor of the description box: its row and column among the wrapped lines and
/// the rows scrolled away so that the row is visible. The cursor counts characters and
/// is first cut to the text's length in bytes.
pub open spec fn spec_desc_cursor(text: Seq<char>, byte_len: int, cursor: int, width: int, height: int) -> (int, int, int) {
    let k = if cursor <= byte_len { cursor } else { byte_len };
    let shown = if k <= text.len() { text.take(k) } else { text };
    let (row, col) = cursor_walk(shown, width);
    let scroll = if row >= height { row - height + 1 } else { 0 };
    (row, col, scroll)
}

/// Row, column and scroll of the cursor in the description box, which is `width`
/// columns wide and `height` rows high inside its border.
pub fn desc_cursor(text: &str, cursor: usize, width: u16, height: u16) -> (r: (u16, u16, u16))
    requires
        text@.len() < u16::MAX,
    ensures
        (r.0 as int, r.1 as int, r.2 as int) == spec_desc_cursor(text@, text.spec_bytes().len() as int, cursor as int, width as int, height as int),
{
    let bytes = text.as_bytes().len();
    let k: usize = if cursor <= bytes { cursor } else { bytes };
    let cs = chars_of(text);
    let ghost shown = if k <= cs@.len() { cs@.take(k as int) } else { cs@ };
    let n: usize = if k <= cs.len() { k } else { cs.len() };
    let mut row: u16 = 0;
    let mut col: u16 = 0;
    let mut i: usize = 0;
    while i < n
        invariant
            n <= cs@.len(),
            cs@ == text@,
            text@.len() < u16::MAX,
            i <= n,
            (row as int, col as int) == cursor_walk(cs@.take(i as int), width as int),
        decreases n - i,
    {
        proof {
            lemma_cursor_walk_bounds(cs@.take(i as int), width as int);
            assert(cs@.take(i + 1).drop_last() =~= cs@.take(i as int));
            assert(cs@.take(i + 1).last() == cs@[i as int]);
        }
        if cs[i] == '\n' {
            row = row + 1;
            col = 0;
        } else {
            col = col + 1;
            if width > 0 && col >= width {
                row = row + 1;
                col = 0;
            }
        }
        i = i + 1;
    }
    assert(shown =~= cs@.take(n as int));
    proof {
        lemma_cursor_walk_bounds(cs@.take(n as int), width as int);
    }
    let scroll: u16 = if row >= height { row - height + 1 } else { 0 };
    (row, col, scroll)
}

pub open spec fn indicator(active: bool) -> Seq<char> {
    if active { "▸ "@ } else { "  "@ }
}

/// The line of a field: a toggle shows its box and Yes or No; the type shows its value
/// (`normal` when empty) and how to change it; a text field shows its label padded to
/// 18 characters and then its text. The description has a box of its own.
pub open spec fn spec_cluster_field_line(
    field: PlClusterEditorField,
    active: bool,
    toggle: bool,
    type_value: Seq<char>,
    text: Seq<char>,
) -> Seq<char> {
    if field.spec_is_bool() {
        indicator(active) + field.spec_label() + ": "@ + (if toggle { "☑"@ } else { "☐"@ }) + " "@ + (if toggle {
            "Yes"@
        } else {
            "No"@
        })
    } else if field == PlClusterEditorField::Type {
        indicator(active) + field.spec_label() + ": "@ + (if type_value.len() == 0 { "normal"@ } else { type_value })
            + " (Enter to cycle)"@
    } else {
        let l = field.spec_label() + ":"@;
        indicator(active) + l + Seq::new((if l.len() < 18 { 18 - l.len() } else { 0 }) as nat, |i: int| ' ') + text
    }
}

/// The line shown for a field of the cluster editor (not the description).
pub fn cluster_field_line(field: PlClusterEditorField, active: bool, toggle: bool, type_value: &str, text: &str) -> (s: String)
    ensures
        s@ == spec_cluster_field_line(field, active, toggle, type_value@, text@),
{
    let mut out = str_to_string(if active { "▸ " } else { "  " });
    append_str(&mut out, field.label());
    if field.is_bool() {
        append_str(&mut out, ": ");
        append_str(&mut out, if toggle { "☑" } else { "☐" });
        append_str(&mut out, " ");
        append_str(&mut out, if toggle { "Yes" } else { "No" });
    } else if field == PlClusterEditorField::Type {
        append_str(&mut out, ": ");
        append_str(&mut out, if type_value.is_empty() { "normal" } else { type_value });
        append_str(&mut out, " (Enter to cycle)");
    } else {
        append_str(&mut out, ":");
        let ghost l = field.spec_label() + ":"@;
        let lc = chars_of(field.label());
        let count: usize = if lc.len() < 17 { 17 - lc.len() } else { 0 };
        let mut pad: Vec<char> = Vec::new();
        let mut k: usize = 0;
        while k < count
            invariant
                k <= count,
                pad@ == Seq::new(k as nat, |i: int| ' '),
            decreases count - k,
        {
            pad.push(' ');
            assert(pad@ =~= Seq::new((k + 1) as nat, |i: int| ' '));
            k = k + 1;
        }
        proof {
            reveal_strlit(":");
        }
        assert(lc@ == field.spec_label());
        assert(l.len() == lc@.len() + 1);
        assert(pad@ =~= Seq::new((if l.len() < 18 { 18 - l.len() } else { 0 }) as nat, |i: int| ' '));
        append_chars(&mut out, &pad);
        append_str(&mut out, text);
    }
    out
}

} // verus!
