//! A plain model of the JSON documents that the market-data provider returns,
//! with the lookups that every record builder shares.
use vstd::prelude::*;
use crate::text::same_text;

verus! {

/// A JSON number: an integer that fits in `i64`, or any other number kept as
/// its decimal text.
#[derive(Debug)]
pub enum Number {
    Int(i64),
    Other(String),
}

/// A JSON value. Object members keep the order in which they were read.
#[derive(Debug)]
pub enum Json {
    Null,
    Bool(bool),
    Num(Number),
    Str(String),
    Array(Vec<Json>),
    Object(Vec<(String, Json)>),
}

/// The value of the first member named `key`.
pub open spec fn lookup(entries: Seq<(String, Json)>, key: Seq<char>) -> Option<Json>
    decreases entries.len(),
{
    if entries.len() == 0 {
        None
    } else if entries[0].0@ == key {
        Some(entries[0].1)
    } else {
        lookup(entries.drop_first(), key)
    }
}

pub open spec fn deref_opt(r: Option<&Json>) -> Option<Json> {
    match r {
        Some(v) => Some(*v),
        None => None,
    }
}

/// The text of a string value.
pub open spec fn str_of(v: Option<Json>) -> Option<Seq<char>> {
    match v {
        Some(Json::Str(s)) => Some(s@),
        _ => None,
    }
}

/// The integer of a number value that fits in `i64`.
pub open spec fn int_of(v: Option<Json>) -> Option<i64> {
    match v {
        Some(Json::Num(Number::Int(i))) => Some(i),
        _ => None,
    }
}

impl Json {
    /// The member `key` of an object; nothing for any other value.
    pub open spec fn member(self, key: Seq<char>) -> Option<Json> {
        match self {
            Json::Object(entries) => lookup(entries@, key),
            _ => None,
        }
    }

    /// The member `a` if present, else the member `b`.
    pub open spec fn member_either(self, a: Seq<char>, b: Seq<char>) -> Option<Json> {
        if self.member(a).is_some() {
            self.member(a)
        } else {
            self.member(b)
        }
    }

    /// The element `i` of an array; nothing for any other value.
    pub open spec fn element(self, i: int) -> Option<Json> {
        match self {
            Json::Array(items) => if 0 <= i < items@.len() {
                Some(items@[i])
            } else {
                None
            },
            _ => None,
        }
    }

    /// An integer either wrapped as `{"raw": n}` or given directly.
    pub open spec fn whole(self) -> Option<i64> {
        if int_of(self.member(seq!['r', 'a', 'w'])).is_some() {
            int_of(self.member(seq!['r', 'a', 'w']))
        } else {
            int_of(Some(self))
        }
    }

    /// A number either wrapped as `{"raw": n}` or given directly.
    pub open spec fn numeric(self) -> Option<Number> {
        match self.member(seq!['r', 'a', 'w']) {
            Some(Json::Num(n)) => Some(n),
            _ => match self {
                Json::Num(n) => Some(n),
                _ => None,
            },
        }
    }

    pub fn get(&self, key: &str) -> (r: Option<&Json>)
        ensures
            deref_opt(r) == self.member(key@),
    {
        match self {
            Json::Object(entries) => match Json::position_of(entries, key) {
                Some(i) => Some(&entries[i].1),
                None => None,
            },
            _ => None,
        }
    }

    pub fn get_either(&self, a: &str, b: &str) -> (r: Option<&Json>)
        ensures
            deref_opt(r) == self.member_either(a@, b@),
    {
        match self.get(a) {
            Some(v) => Some(v),
            None => self.get(b),
        }
    }

    pub fn as_text(&self) -> (r: Option<&str>)
        ensures
            r.is_some() == str_of(Some(*self)).is_some(),
            r.is_some() ==> r.unwrap()@ == str_of(Some(*self)).unwrap(),
    {
        match self {
            Json::Str(s) => Some(s.as_str()),
            _ => None,
        }
    }

    pub fn as_int(&self) -> (r: Option<i64>)
        ensures
            r == int_of(Some(*self)),
    {
        match self {
            Json::Num(Number::Int(i)) => Some(*i),
            _ => None,
        }
    }

    /// An integer field that may come wrapped as `{"raw": n}`.
    pub fn whole_value(&self) -> (r: Option<i64>)
        ensures
            r == self.whole(),
    {
        proof {
            reveal_strlit("raw");
            assert("raw"@ =~= seq!['r', 'a', 'w']);
        }
        let raw = match self.get("raw") {
            Some(v) => v.as_int(),
            None => None,
        };
        match raw {
            Some(n) => Some(n),
            None => self.as_int(),
        }
    }

    /// A numeric field that may come wrapped as `{"raw": n}`.
    pub fn numeric_value(&self) -> (r: Option<&Number>)
        ensures
            r.is_some() == self.numeric().is_some(),
            r.is_some() ==> *r.unwrap() == self.numeric().unwrap(),
    {
        proof {
            reveal_strlit("raw");
            assert("raw"@ =~= seq!['r', 'a', 'w']);
        }
        match self.get("raw") {
            Some(Json::Num(n)) => return Some(n),
            _ => {},
        }
        match self {
            Json::Num(n) => Some(n),
            _ => None,
        }
    }
}


impl Number {
    pub fn duplicate(&self) -> (r: Number)
        ensures
            r == *self,
    {
        match self {
            Number::Int(i) => Number::Int(*i),
            Number::Other(s) => Number::Other(s.clone()),
        }
    }
}


impl Json {
    /// Index of the first member named `key`.
    fn position_of(entries: &Vec<(String, Json)>, key: &str) -> (r: Option<usize>)
        ensures
            r.is_none() ==> lookup(entries@, key@).is_none(),
            r.is_some() ==> r.unwrap() < entries@.len() && lookup(entries@, key@) == Some(
                entries@[r.unwrap() as int].1,
            ),
    {
        let mut i: usize = 0;
        assert(entries@.skip(0) =~= entries@);
        while i < entries.len()
            invariant
                i <= entries.len(),
                lookup(entries@, key@) == lookup(entries@.skip(i as int), key@),
            decreases entries.len() - i,
        {
            assert(entries@.skip(i as int).drop_first() =~= entries@.skip(i + 1));
            if same_text(entries[i].0.as_str(), key) {
                let ghost rest = entries@.skip(i as int);
                assert(rest.len() > 0 && rest[0] == entries@[i as int]);
                return Some(i);
            }
            i += 1;
        }
        assert(entries@.skip(i as int) =~= Seq::<(String, Json)>::empty());
        None
    }

    /// Moves the member `key` out of an object.
    pub fn into_member(self, key: &str) -> (r: Option<Json>)
        ensures
            r == self.member(key@),
    {
        match self {
            Json::Object(mut entries) => match Json::position_of(&entries, key) {
                Some(i) => Some(entries.remove(i).1),
                None => None,
            },
            _ => None,
        }
    }

    /// Moves the element `i` out of an array.
    pub fn into_element(self, i: usize) -> (r: Option<Json>)
        ensures
            r == self.element(i as int),
    {
        match self {
            Json::Array(mut items) => if i < items.len() {
                Some(items.remove(i))
            } else {
                None
            },
            _ => None,
        }
    }
}

} // verus!
