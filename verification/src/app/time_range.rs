//! Time ranges of the viewer: the built-in ranges, ranges given on the command
//! line, and the sorted list of ranges that the `t`/`T` keys walk through.
use vstd::prelude::*;
use crate::text::{str_to_string, eq_ignore_ascii_case, spec_eq_ignore_ascii_case};

verus! {

/// A time range of the viewer's queries.
pub enum TimeRange {
    Minutes15,
    Minutes30,
    Hours1,
    Hours6,
    Hours24,
    Week1,
    Weeks2,
    Month1,
    All,
    /// a range given in hours, weeks or months: its label and the number of hours sent to the server
    Custom { label: String, date_value: String },
}

pub enum TimeRangeView {
    Minutes15,
    Minutes30,
    Hours1,
    Hours6,
    Hours24,
    Week1,
    Weeks2,
    Month1,
    All,
    Custom { label: Seq<char>, date_value: Seq<char> },
}

impl View for TimeRange {
    type V = TimeRangeView;

    open spec fn view(&self) -> TimeRangeView {
        match self {
            TimeRange::Minutes15 => TimeRangeView::Minutes15,
            TimeRange::Minutes30 => TimeRangeView::Minutes30,
            TimeRange::Hours1 => TimeRangeView::Hours1,
            TimeRange::Hours6 => TimeRangeView::Hours6,
            TimeRange::Hours24 => TimeRangeView::Hours24,
            TimeRange::Week1 => TimeRangeView::Week1,
            TimeRange::Weeks2 => TimeRangeView::Weeks2,
            TimeRange::Month1 => TimeRangeView::Month1,
            TimeRange::All => TimeRangeView::All,
            TimeRange::Custom { label, date_value } => TimeRangeView::Custom { label: label@, date_value: date_value@ },
        }
    }
}

pub open spec fn time_range_views(s: Seq<TimeRange>) -> Seq<TimeRangeView> {
    s.map_values(|t: TimeRange| t@)
}

impl TimeRangeView {
    pub open spec fn label(self) -> Seq<char> {
        match self {
            TimeRangeView::Minutes15 => "15m"@,
            TimeRangeView::Minutes30 => "30m"@,
            TimeRangeView::Hours1 => "1h"@,
            TimeRangeView::Hours6 => "6h"@,
            TimeRangeView::Hours24 => "24h"@,
            TimeRangeView::Week1 => "1w"@,
            TimeRangeView::Weeks2 => "2w"@,
            TimeRangeView::Month1 => "1M"@,
            TimeRangeView::All => "All"@,
            TimeRangeView::Custom { label, .. } => label,
        }
    }

    pub open spec fn date_value(self) -> Seq<char> {
        match self {
            TimeRangeView::Minutes15 => "0.25"@,
            TimeRangeView::Minutes30 => "0.50"@,
            TimeRangeView::Hours1 => "1"@,
            TimeRangeView::Hours6 => "6"@,
            TimeRangeView::Hours24 => "24"@,
            TimeRangeView::Week1 => "168"@,
            TimeRangeView::Weeks2 => "336"@,
            TimeRangeView::Month1 => "720"@,
            TimeRangeView::All => "-1"@,
            TimeRangeView::Custom { date_value, .. } => date_value,
        }
    }
}

/// The built-in ranges, shortest first.
pub open spec fn spec_default_ranges() -> Seq<TimeRangeView> {
    seq![
        TimeRangeView::Minutes15, TimeRangeView::Minutes30, TimeRangeView::Hours1,
        TimeRangeView::Hours6, TimeRangeView::Hours24, TimeRangeView::Week1,
        TimeRangeView::Weeks2, TimeRangeView::Month1, TimeRangeView::All,
    ]
}

/// The unit of a range given as a number and a suffix.
#[derive(Clone, Copy, PartialEq, Eq, Structural, Debug)]
pub enum CustomUnit {
    /// `h`: the number counts hours
    Hours,
    /// `w`: the number counts weeks of 168 hours
    Weeks,
    /// `m`: the number counts months of 1461/2 hours
    Months,
}

impl CustomUnit {
    /// The suffix of the unit in the label of the range.
    pub open spec fn spec_suffix(self) -> Seq<char> {
        match self {
            CustomUnit::Hours => "h"@,
            CustomUnit::Weeks => "w"@,
            CustomUnit::Months => "m"@,
        }
    }

    /// Hours in one unit, as numerator and denominator.
    pub open spec fn spec_hours_ratio(self) -> (u64, u64) {
        match self {
            CustomUnit::Hours => (1, 1),
            CustomUnit::Weeks => (168, 1),
            CustomUnit::Months => (1461, 2),
        }
    }

    pub fn suffix(&self) -> (s: &'static str)
        ensures
            s@ == self.spec_suffix(),
    {
        match self {
            CustomUnit::Hours => "h",
            CustomUnit::Weeks => "w",
            CustomUnit::Months => "m",
        }
    }

    /// Hours in one unit, as numerator and denominator: 1, 168 and 1461/2.
    pub fn hours_ratio(&self) -> (r: (u64, u64))
        ensures
            r == self.spec_hours_ratio(),
    {
        match self {
            CustomUnit::Hours => (1, 1),
            CustomUnit::Weeks => (168, 1),
            CustomUnit::Months => (1461, 2),
        }
    }
}

/// The unit that the last character of a range names: `h`, `w` or `m`, in either case.
pub open spec fn spec_unit_of(c: char) -> Option<CustomUnit> {
    if c == 'h' || c == 'H' {
        Some(CustomUnit::Hours)
    } else if c == 'w' || c == 'W' {
        Some(CustomUnit::Weeks)
    } else if c == 'm' || c == 'M' {
        Some(CustomUnit::Months)
    } else {
        None
    }
}

/// A range written as a number and a unit: the number's text and the unit, when the
/// text ends in a unit letter and something stands before it.
pub open spec fn spec_custom_parts(s: Seq<char>) -> Option<(Seq<char>, CustomUnit)> {
    if s.len() == 0 {
        None
    } else {
        match spec_unit_of(s.last()) {
            Some(u) => if s.len() > 1 { Some((s.drop_last(), u)) } else { None },
            None => None,
        }
    }
}

/// The first built-in range whose label equals `s` ignoring ASCII case.
pub open spec fn spec_builtin_match(s: Seq<char>, i: int) -> Option<TimeRangeView>
    decreases 9 - i,
{
    if i < 0 || i >= 9 {
        None
    } else if spec_eq_ignore_ascii_case(spec_default_ranges()[i].label(), s) {
        Some(spec_default_ranges()[i])
    } else {
        spec_builtin_match(s, i + 1)
    }
}

/// The message of a range that cannot be read.
pub open spec fn spec_parse_error(s: Seq<char>) -> Seq<char> {
    "invalid time range '"@ + s + "': use a label (15m, 1h, 24h, 1w, All), -1, or {num}h/w/m (e.g. 72h, 2w, 3m)"@
}

/// What `TimeRange::parse` gives for `s`, where `custom` is the custom range that
/// the number of `s` denotes (its label and hours), if the number is positive.
pub open spec fn spec_parse(s: Seq<char>, custom: Option<(Seq<char>, Seq<char>)>) -> Result<TimeRangeView, Seq<char>> {
    if s == "-1"@ {
        Ok(TimeRangeView::All)
    } else if spec_builtin_match(s, 0) is Some {
        Ok(spec_builtin_match(s, 0)->0)
    } else {
        match custom {
            Some((label, date_value)) => if spec_custom_parts(s) is Some {
                Ok(TimeRangeView::Custom { label, date_value })
            } else {
                Err(spec_parse_error(s))
            },
            None => Err(spec_parse_error(s)),
        }
    }
}

impl TimeRange {
    /// The built-in ranges, shortest first.
    pub fn defaults() -> (v: Vec<TimeRange>)
        ensures
            time_range_views(v@) == spec_default_ranges(),
    {
        let v = vec![
            TimeRange::Minutes15, TimeRange::Minutes30, TimeRange::Hours1,
            TimeRange::Hours6, TimeRange::Hours24, TimeRange::Week1,
            TimeRange::Weeks2, TimeRange::Month1, TimeRange::All,
        ];
        assert(time_range_views(v@) =~= spec_default_ranges());
        v
    }

    /// The label shown in the toolbar.
    pub fn label(&self) -> (s: &str)
        ensures
            s@ == self@.label(),
    {
        match self {
            TimeRange::Minutes15 => "15m",
            TimeRange::Minutes30 => "30m",
            TimeRange::Hours1 => "1h",
            TimeRange::Hours6 => "6h",
            TimeRange::Hours24 => "24h",
            TimeRange::Week1 => "1w",
            TimeRange::Weeks2 => "2w",
            TimeRange::Month1 => "1M",
            TimeRange::All => "All",
            TimeRange::Custom { label, .. } => label.as_str(),
        }
    }

    /// The number of hours sent to the server; `-1` asks for all time.
    pub fn date_value(&self) -> (s: &str)
        ensures
            s@ == self@.date_value(),
    {
        match self {
            TimeRange::Minutes15 => "0.25",
            TimeRange::Minutes30 => "0.50",
            TimeRange::Hours1 => "1",
            TimeRange::Hours6 => "6",
            TimeRange::Hours24 => "24",
            TimeRange::Week1 => "168",
            TimeRange::Weeks2 => "336",
            TimeRange::Month1 => "720",
            TimeRange::All => "-1",
            TimeRange::Custom { date_value, .. } => date_value.as_str(),
        }
    }

    /// A copy of the range.
    pub fn duplicate(&self) -> (r: TimeRange)
        ensures
            r@ == self@,
    {
        match self {
            TimeRange::Minutes15 => TimeRange::Minutes15,
            TimeRange::Minutes30 => TimeRange::Minutes30,
            TimeRange::Hours1 => TimeRange::Hours1,
            TimeRange::Hours6 => TimeRange::Hours6,
            TimeRange::Hours24 => TimeRange::Hours24,
            TimeRange::Week1 => TimeRange::Week1,
            TimeRange::Weeks2 => TimeRange::Weeks2,
            TimeRange::Month1 => TimeRange::Month1,
            TimeRange::All => TimeRange::All,
            TimeRange::Custom { label, date_value } => TimeRange::Custom { label: label.clone(), date_value: date_value.clone() },
        }
    }

    /// Whether two ranges are the same range.
    pub fn same_as(&self, other: &TimeRange) -> (r: bool)
        ensures
            r == (self@ == other@),
    {
        match (self, other) {
            (TimeRange::Minutes15, TimeRange::Minutes15) => true,
            (TimeRange::Minutes30, TimeRange::Minutes30) => true,
            (TimeRange::Hours1, TimeRange::Hours1) => true,
            (TimeRange::Hours6, TimeRange::Hours6) => true,
            (TimeRange::Hours24, TimeRange::Hours24) => true,
            (TimeRange::Week1, TimeRange::Week1) => true,
            (TimeRange::Weeks2, TimeRange::Weeks2) => true,
            (TimeRange::Month1, TimeRange::Month1) => true,
            (TimeRange::All, TimeRange::All) => true,
            (TimeRange::Custom { label: l1, date_value: d1 }, TimeRange::Custom { label: l2, date_value: d2 }) =>
                *l1 == *l2 && *d1 == *d2,
            _ => false,
        }
    }

    /// The number and unit of a range written as `{num}h`, `{num}w` or `{num}m`
    /// (the unit letter in either case): the text before the letter and the unit.
    /// The number itself is read by the caller.
    pub fn custom_parts(s: &str) -> (r: Option<(String, CustomUnit)>)
        ensures
            match r {
                Some((num, u)) => spec_custom_parts(s@) == Some((num@, u)),
                None => spec_custom_parts(s@) is None,
            },
    {
        let cs = crate::text::chars_of(s);
        let n = cs.len();
        if n == 0 {
            return None;
        }
        let last = cs[n - 1];
        let unit = if last == 'h' || last == 'H' {
            CustomUnit::Hours
        } else if last == 'w' || last == 'W' {
            CustomUnit::Weeks
        } else if last == 'm' || last == 'M' {
            CustomUnit::Months
        } else {
            return None;
        };
        if n == 1 {
            return None;
        }
        let mut num: Vec<char> = Vec::new();
        let mut i: usize = 0;
        while i < n - 1
            invariant
                n == cs@.len(),
                n >= 2,
                i <= n - 1,
                num@ == cs@.subrange(0, i as int),
            decreases n - 1 - i,
        {
            num.push(cs[i]);
            i = i + 1;
        }
        assert(num@ =~= s@.drop_last());
        Some((crate::text::string_from_chars(&num), unit))
    }

    /// The first built-in range whose label equals `s` ignoring ASCII case.
    pub fn builtin_match(s: &str) -> (r: Option<TimeRange>)
        ensures
            match r {
                Some(t) => spec_builtin_match(s@, 0) == Some(t@),
                None => spec_builtin_match(s@, 0) is None,
            },
    {
        let defaults = TimeRange::defaults();
        assert(defaults@.len() == time_range_views(defaults@).len());
        let mut i: usize = 0;
        while i < defaults.len()
            invariant
                time_range_views(defaults@) == spec_default_ranges(),
                defaults@.len() == 9,
                i <= 9,
                spec_builtin_match(s@, 0) == spec_builtin_match(s@, i as int),
            decreases 9 - i,
        {
            assert(defaults@[i as int]@ == spec_default_ranges()[i as int]);
            if eq_ignore_ascii_case(defaults[i].label(), s) {
                let t = defaults[i].duplicate();
                assert(spec_builtin_match(s@, i as int) == Some(spec_default_ranges()[i as int]));
                return Some(t);
            }
            assert(spec_builtin_match(s@, i as int) == spec_builtin_match(s@, i + 1));
            i = i + 1;
        }
        assert(spec_builtin_match(s@, 9) is None);
        None
    }

    /// Reads a time range given on the command line: `-1` (all time), a built-in label
    /// in any ASCII case (15m, 30m, 1h, 6h, 24h, 1w, 2w, 1M, All), or a number of
    /// hours, weeks or months (`72h`, `2w`, `3m`). `custom` is the range that the number
    /// of such a text denotes, its label and hours, when the number is positive; the
    /// caller reads the number, see [`TimeRange::custom_parts`].
    pub fn parse(s: &str, custom: Option<(String, String)>) -> (r: Result<TimeRange, String>)
        ensures
            match r {
                Ok(t) => spec_parse(s@, match custom { Some((l, d)) => Some((l@, d@)), None => None }) == Ok::<TimeRangeView, Seq<char>>(t@),
                Err(e) => spec_parse(s@, match custom { Some((l, d)) => Some((l@, d@)), None => None }) == Err::<TimeRangeView, Seq<char>>(e@),
            },
    {
        let owned = str_to_string(s);
        if crate::text::string_eq_str(&owned, "-1") {
            return Ok(TimeRange::All);
        }
        match TimeRange::builtin_match(s) {
            Some(t) => {
                return Ok(t);
            },
            None => {},
        }
        let parts = TimeRange::custom_parts(s);
        if parts.is_some() {
            match custom {
                Some((label, date_value)) => {
                    return Ok(TimeRange::Custom { label, date_value });
                },
                None => {},
            }
        }
        let mut msg = str_to_string("invalid time range '");
        msg.append(s);
        msg.append("': use a label (15m, 1h, 24h, 1w, All), -1, or {num}h/w/m (e.g. 72h, 2w, 3m)");
        Err(msg)
    }

    /// Inserts a range into the sorted list of ranges and returns the index of the
    /// entry. A range already in the list is not inserted again; its first position is
    /// returned. Otherwise the range goes before the first entry that spans more hours;
    /// `later[i]` tells whether `list[i]` spans more hours than `entry`, all time being
    /// longer than any number of hours.
    pub fn insert_sorted(list: &mut Vec<TimeRange>, entry: TimeRange, later: &Vec<bool>) -> (idx: usize)
        requires
            later@.len() == old(list)@.len(),
        ensures
            spec_insert_sorted(time_range_views(old(list)@), entry@, later@) == (time_range_views(final(list)@), idx as int),
    {
        let mut i: usize = 0;
        while i < list.len()
            invariant
                i <= list@.len(),
                forall|k: int| 0 <= k < i ==> list@[k]@ != entry@,
            decreases list.len() - i,
        {
            if list[i].same_as(&entry) {
                proof {
                    lemma_first_equal(time_range_views(list@), entry@, i as int);
                }
                return i;
            }
            i = i + 1;
        }
        proof {
            lemma_no_equal(time_range_views(list@), entry@);
        }
        let mut pos: usize = 0;
        while pos < list.len() && !later[pos]
            invariant
                pos <= list@.len(),
                later@.len() == list@.len(),
                forall|k: int| 0 <= k < pos ==> !later@[k],
            decreases list.len() - pos,
        {
            pos = pos + 1;
        }
        proof {
            lemma_first_later(later@, pos as int);
        }
        let ghost before = time_range_views(list@);
        list.insert(pos, entry);
        assert(time_range_views(list@) =~= before.insert(pos as int, entry@));
        pos
    }
}

impl PartialEq for TimeRange {
    fn eq(&self, other: &TimeRange) -> (r: bool) {
        self.same_as(other)
    }
}

impl vstd::std_specs::cmp::PartialEqSpecImpl for TimeRange {
    open spec fn obeys_eq_spec() -> bool {
        true
    }

    open spec fn eq_spec(&self, other: &TimeRange) -> bool {
        self@ == other@
    }
}

impl Clone for TimeRange {
    fn clone(&self) -> (r: TimeRange)
        ensures
            r@ == self@,
    {
        self.duplicate()
    }
}

/// Index of the first entry equal to `e`, or the length when there is none.
pub open spec fn spec_index_of(s: Seq<TimeRangeView>, e: TimeRangeView) -> int
    decreases s.len(),
{
    if s.len() == 0 {
        0
    } else if s[0] == e {
        0
    } else {
        1 + spec_index_of(s.drop_first(), e)
    }
}

/// Index of the first `true`, or the length when there is none.
pub open spec fn spec_first_true(s: Seq<bool>) -> int
    decreases s.len(),
{
    if s.len() == 0 {
        0
    } else if s[0] {
        0
    } else {
        1 + spec_first_true(s.drop_first())
    }
}

/// The list after inserting `e` and the index returned.
pub open spec fn spec_insert_sorted(list: Seq<TimeRangeView>, e: TimeRangeView, later: Seq<bool>) -> (Seq<TimeRangeView>, int) {
    if list.contains(e) {
        (list, spec_index_of(list, e))
    } else {
        let pos = spec_first_true(later);
        (list.insert(pos, e), pos)
    }
}

proof fn lemma_first_equal(s: Seq<TimeRangeView>, e: TimeRangeView, i: int)
    requires
        0 <= i < s.len(),
        s[i] == e,
        forall|k: int| 0 <= k < i ==> s[k] != e,
    ensures
        s.contains(e),
        spec_index_of(s, e) == i,
    decreases i,
{
    if i > 0 {
        lemma_first_equal(s.drop_first(), e, i - 1);
    }
}

proof fn lemma_no_equal(s: Seq<TimeRangeView>, e: TimeRangeView)
    requires
        forall|k: int| 0 <= k < s.len() ==> s[k] != e,
    ensures
        !s.contains(e),
{
}

proof fn lemma_first_later(s: Seq<bool>, pos: int)
    requires
        0 <= pos <= s.len(),
        forall|k: int| 0 <= k < pos ==> !s[k],
        pos < s.len() ==> s[pos],
    ensures
        spec_first_true(s) == pos,
    decreases pos,
{
    if pos > 0 {
        lemma_first_later(s.drop_first(), pos - 1);
    }
}

proof fn lemma_index_of_bounds(s: Seq<TimeRangeView>, e: TimeRangeView)
    requires
        s.contains(e),
    ensures
        0 <= spec_index_of(s, e) < s.len(),
        s[spec_index_of(s, e)] == e,
    decreases s.len(),
{
    if s[0] != e {
        let j = choose|j: int| 0 <= j < s.len() && s[j] == e;
        assert(s.drop_first()[j - 1] == e);
        lemma_index_of_bounds(s.drop_first(), e);
    }
}

proof fn lemma_first_true_bounds(s: Seq<bool>)
    ensures
        0 <= spec_first_true(s) <= s.len(),
        forall|k: int| 0 <= k < spec_first_true(s) ==> !s[k],
    decreases s.len(),
{
    if s.len() > 0 && !s[0] {
        lemma_first_true_bounds(s.drop_first());
        assert forall|k: int| 0 <= k < spec_first_true(s) implies !s[k] by {
            if k > 0 {
                assert(s[k] == s.drop_first()[k - 1]);
            }
        }
    }
}

/// After inserting a range, the returned index holds that range, the range occurs in
/// the list, every range that was in the list still is, in the same order, and the
/// list grew by one exactly when the range was new.
pub proof fn lemma_insert_sorted_reads_back(list: Seq<TimeRangeView>, e: TimeRangeView, later: Seq<bool>)
    requires
        later.len() == list.len(),
    ensures
        ({
            let (after, idx) = spec_insert_sorted(list, e, later);
            &&& 0 <= idx < after.len()
            &&& after[idx] == e
            &&& after.len() == if list.contains(e) { list.len() } else { list.len() + 1 }
            &&& forall|k: int| 0 <= k < idx ==> after[k] == list[k]
            &&& !list.contains(e) ==> forall|k: int| idx < k < after.len() ==> after[k] == list[k - 1]
        }),
{
    if list.contains(e) {
        lemma_index_of_bounds(list, e);
    } else {
        lemma_first_true_bounds(later);
    }
}

/// Inserting a range that is already in the list changes nothing, and inserting the
/// same range twice gives the list and the index of inserting it once.
pub proof fn lemma_insert_sorted_idempotent(list: Seq<TimeRangeView>, e: TimeRangeView, later: Seq<bool>, later2: Seq<bool>)
    requires
        later.len() == list.len(),
        later2.len() == spec_insert_sorted(list, e, later).0.len(),
    ensures
        spec_insert_sorted(spec_insert_sorted(list, e, later).0, e, later2) == spec_insert_sorted(list, e, later),
{
    let (after, idx) = spec_insert_sorted(list, e, later);
    lemma_insert_sorted_reads_back(list, e, later);
    assert(after.contains(e));
    if !list.contains(e) {
        lemma_first_true_bounds(later);
        assert forall|k: int| 0 <= k < idx implies after[k] != e by {
            assert(after[k] == list[k]);
        }
        lemma_first_equal(after, e, idx);
    }
}

} // verus!
