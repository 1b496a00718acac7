//! JSON values as the library holds them: the documents that the Arkime
//! services answer with, read as plain values. An object keeps its members in
//! the order of their keys, each key once, as the JSON maps of the client do.
use vstd::prelude::*;
use crate::text::{str_to_string, string_eq};

verus! {

/// A JSON value. A number is held as the text that the JSON library writes for it.
pub enum JsonValue {
    Null,
    Bool(bool),
    Number(String),
    Str(String),
    Array(Vec<JsonValue>),
    Object(Vec<(String, JsonValue)>),
}

/// The mathematical model of a JSON value.
pub enum JsonView {
    Null,
    Bool(bool),
    Number(Seq<char>),
    Str(Seq<char>),
    Array(Seq<JsonView>),
    Object(Seq<(Seq<char>, JsonView)>),
}

pub open spec fn json_view(v: JsonValue) -> JsonView
    decreases v,
{
    match v {
        JsonValue::Null => JsonView::Null,
        JsonValue::Bool(b) => JsonView::Bool(b),
        JsonValue::Number(s) => JsonView::Number(s@),
        JsonValue::Str(s) => JsonView::Str(s@),
        JsonValue::Array(a) => JsonView::Array(
            Seq::new(a@.len(), |i: int| if 0 <= i < a@.len() { json_view(a@[i]) } else { JsonView::Null }),
        ),
        JsonValue::Object(o) => JsonView::Object(
            Seq::new(
                o@.len(),
                |i: int| if 0 <= i < o@.len() { (o@[i].0@, json_view(o@[i].1)) } else { (Seq::empty(), JsonView::Null) },
            ),
        ),
    }
}

impl View for JsonValue {
    type V = JsonView;

    open spec fn view(&self) -> JsonView {
        json_view(*self)
    }
}

pub open spec fn json_views(s: Seq<JsonValue>) -> Seq<JsonView> {
    s.map_values(|v: JsonValue| v@)
}

impl JsonView {
    /// The value of the first member named `key` of an object; nothing for other values.
    pub open spec fn get(self, key: Seq<char>) -> Option<JsonView> {
        match self {
            JsonView::Object(members) => spec_member(members, key),
            _ => None,
        }
    }

    pub open spec fn as_str(self) -> Option<Seq<char>> {
        match self {
            JsonView::Str(s) => Some(s),
            _ => None,
        }
    }

    pub open spec fn as_bool(self) -> Option<bool> {
        match self {
            JsonView::Bool(b) => Some(b),
            _ => None,
        }
    }

    pub open spec fn as_array(self) -> Option<Seq<JsonView>> {
        match self {
            JsonView::Array(a) => Some(a),
            _ => None,
        }
    }

    /// A number written with decimal digits only: a non-negative integer.
    pub open spec fn as_u64(self) -> Option<u64> {
        match self {
            JsonView::Number(t) => spec_parse_u64(t),
            _ => None,
        }
    }
}

/// The value of the first member named `key`.
pub open spec fn spec_member(members: Seq<(Seq<char>, JsonView)>, key: Seq<char>) -> Option<JsonView>
    decreases members.len(),
{
    if members.len() == 0 {
        None
    } else if members[0].0 == key {
        Some(members[0].1)
    } else {
        spec_member(members.drop_first(), key)
    }
}

pub open spec fn is_digit(c: char) -> bool {
    '0' <= c && c <= '9'
}

pub open spec fn digit_value(c: char) -> nat {
    ((c as u32) - ('0' as u32)) as nat
}

/// The number that a text of decimal digits denotes.
pub open spec fn spec_decimal(t: Seq<char>) -> nat
    decreases t.len(),
{
    if t.len() == 0 {
        0
    } else {
        spec_decimal(t.drop_last()) * 10 + digit_value(t.last())
    }
}

/// A non-empty text of decimal digits whose number fits in 64 bits.
pub open spec fn spec_parse_u64(t: Seq<char>) -> Option<u64> {
    if t.len() > 0 && (forall|i: int| 0 <= i < t.len() ==> is_digit(#[trigger] t[i])) && spec_decimal(t) <= u64::MAX {
        Some(spec_decimal(t) as u64)
    } else {
        None
    }
}

proof fn lemma_decimal_monotone(t: Seq<char>, i: int)
    requires
        0 <= i <= t.len(),
        forall|k: int| 0 <= k < t.len() ==> is_digit(#[trigger] t[k]),
    ensures
        spec_decimal(t.subrange(0, i)) <= spec_decimal(t),
    decreases t.len() - i,
{
    if i < t.len() {
        lemma_decimal_monotone(t, i + 1);
        assert(t.subrange(0, i + 1).drop_last() =~= t.subrange(0, i));
    } else {
        assert(t.subrange(0, i) =~= t);
    }
}

/// Reads a text of decimal digits as a 64-bit number.
pub fn parse_u64(t: &Vec<char>) -> (r: Option<u64>)
    ensures
        r == spec_parse_u64(t@),
{
    if t.len() == 0 {
        return None;
    }
    let mut i: usize = 0;
    while i < t.len()
        invariant
            i <= t@.len(),
            forall|k: int| 0 <= k < i ==> is_digit(#[trigger] t@[k]),
        decreases t.len() - i,
    {
        if !('0' <= t[i] && t[i] <= '9') {
            return None;
        }
        i = i + 1;
    }
    let mut acc: u64 = 0;
    let mut j: usize = 0;
    while j < t.len()
        invariant
            j <= t@.len(),
            forall|k: int| 0 <= k < t@.len() ==> is_digit(#[trigger] t@[k]),
            acc == spec_decimal(t@.subrange(0, j as int)),
        decreases t.len() - j,
    {
        let c = t[j];
        let d: u64 = ((c as u32) - ('0' as u32)) as u64;
        assert(t@.subrange(0, j + 1).drop_last() =~= t@.subrange(0, j as int));
        if acc > (u64::MAX - d) / 10 {
            proof {
                lemma_decimal_monotone(t@, j + 1);
                assert(spec_decimal(t@.subrange(0, j + 1)) == acc * 10 + d);
                assert(acc * 10 + d > u64::MAX) by (nonlinear_arith)
                    requires
                        acc > (u64::MAX - d) / 10,
                        d <= 9,
                ;
            }
            return None;
        }
        assert(acc * 10 + d <= u64::MAX) by (nonlinear_arith)
            requires
                acc <= (u64::MAX - d) / 10,
                d <= 9,
        ;
        acc = acc * 10 + d;
        j = j + 1;
    }
    assert(t@.subrange(0, t@.len() as int) =~= t@);
    Some(acc)
}

impl JsonValue {
    /// A deep copy.
    pub fn duplicate(&self) -> (r: JsonValue)
        ensures
            r@ == self@,
        decreases self,
    {
        match self {
            JsonValue::Null => JsonValue::Null,
            JsonValue::Bool(b) => JsonValue::Bool(*b),
            JsonValue::Number(s) => JsonValue::Number(s.clone()),
            JsonValue::Str(s) => JsonValue::Str(s.clone()),
            JsonValue::Array(a) => {
                let mut w: Vec<JsonValue> = Vec::new();
                let mut i: usize = 0;
                while i < a.len()
                    invariant
                        *self == JsonValue::Array(*a),
                        i <= a@.len(),
                        w@.len() == i,
                        forall|k: int| 0 <= k < i ==> w@[k]@ == a@[k]@,
                    decreases a.len() - i,
                {
                    proof {
                        assert(decreases_to!(*self => (*self)->Array_0));
                        assert(decreases_to!(*a => a[i as int]));
                    }
                    w.push(a[i].duplicate());
                    i = i + 1;
                }
                let r = JsonValue::Array(w);
                assert(r@ == self@) by {
                    assert(json_views(w@) =~= json_views(a@));
                    if let JsonView::Array(x) = r@ {
                        if let JsonView::Array(y) = self@ {
                            assert(x =~= y);
                        }
                    }
                }
                r
            },
            JsonValue::Object(o) => {
                let mut w: Vec<(String, JsonValue)> = Vec::new();
                let mut i: usize = 0;
                while i < o.len()
                    invariant
                        *self == JsonValue::Object(*o),
                        i <= o@.len(),
                        w@.len() == i,
                        forall|k: int| 0 <= k < i ==> w@[k].0@ == o@[k].0@ && w@[k].1@ == o@[k].1@,
                    decreases o.len() - i,
                {
                    proof {
                        assert(decreases_to!(*self => (*self)->Object_0));
                        assert(decreases_to!(*o => o[i as int]));
                        assert(decreases_to!(o[i as int] => o[i as int].1));
                    }
                    let (k, v) = &o[i];
                    w.push((k.clone(), v.duplicate()));
                    i = i + 1;
                }
                let r = JsonValue::Object(w);
                assert(r@ == self@) by {
                    if let JsonView::Object(x) = r@ {
                        if let JsonView::Object(y) = self@ {
                            assert(x =~= y);
                        }
                    }
                }
                r
            },
        }
    }

    /// The value of the first member named `key` of an object (`Value::get`).
    pub fn get(&self, key: &str) -> (r: Option<&JsonValue>)
        ensures
            match r {
                Some(v) => self@.get(key@) == Some(v@),
                None => self@.get(key@) is None,
            },
    {
        match self {
            JsonValue::Object(o) => {
                let k = str_to_string(key);
                let ghost members = match self@ {
                    JsonView::Object(m) => m,
                    _ => Seq::empty(),
                };
                assert(members.len() == o@.len());
                assert(members.subrange(0, members.len() as int) =~= members);
                assert forall|j: int| 0 <= j < o@.len() implies members[j] == (o@[j].0@, o@[j].1@) by {}
                let mut i: usize = 0;
                while i < o.len()
                    invariant
                        i <= o@.len(),
                        members.len() == o@.len(),
                        self@ == JsonView::Object(members),
                        k@ == key@,
                        forall|j: int| 0 <= j < o@.len() ==> members[j] == (o@[j].0@, o@[j].1@),
                        spec_member(members, key@) == spec_member(members.subrange(i as int, members.len() as int), key@),
                    decreases o.len() - i,
                {
                    let ghost rest = members.subrange(i as int, members.len() as int);
                    assert(rest[0] == members[i as int]);
                    assert(rest.drop_first() =~= members.subrange(i + 1, members.len() as int));
                    assert(members[i as int] == (o@[i as int].0@, o@[i as int].1@));
                    if string_eq(&o[i].0, &k) {
                        return Some(&o[i].1);
                    }
                    i = i + 1;
                }
                None
            },
            _ => None,
        }
    }

    pub fn as_str(&self) -> (r: Option<&str>)
        ensures
            match r {
                Some(s) => self@.as_str() == Some(s@),
                None => self@.as_str() is None,
            },
    {
        match self {
            JsonValue::Str(s) => Some(s.as_str()),
            _ => None,
        }
    }

    pub fn as_bool(&self) -> (r: Option<bool>)
        ensures
            r == self@.as_bool(),
    {
        match self {
            JsonValue::Bool(b) => Some(*b),
            _ => None,
        }
    }

    pub fn as_array(&self) -> (r: Option<&Vec<JsonValue>>)
        ensures
            match r {
                Some(a) => self@.as_array() == Some(json_views(a@)),
                None => self@.as_array() is None,
            },
    {
        match self {
            JsonValue::Array(a) => {
                assert(json_views(a@) =~= self@.as_array()->0);
                Some(a)
            },
            _ => None,
        }
    }

    /// A number written with decimal digits only, as a 64-bit number.
    pub fn as_u64(&self) -> (r: Option<u64>)
        ensures
            r == self@.as_u64(),
    {
        match self {
            JsonValue::Number(t) => {
                let cs = crate::text::chars_of(t.as_str());
                parse_u64(&cs)
            },
            _ => None,
        }
    }

    pub fn is_null(&self) -> (r: bool)
        ensures
            r == (self@ == JsonView::Null),
    {
        match self {
            JsonValue::Null => true,
            _ => false,
        }
    }
}

} // verus!
