//! JSON values as the library reads them.
//!
//! Catalog search hits and token claims arrive as JSON; the gateway parses
//! them and hands the library a `Json` value. Objects keep their members in
//! the parser's order, and a lookup finds the first member with the key.

use vstd::prelude::*;
use crate::text::str_eq;

verus! {

/// A JSON value. A number is held as the text the parser renders it to.
#[derive(Debug)]
pub enum Json {
    Null,
    Bool(bool),
    Number(String),
    Str(String),
    Array(Vec<Json>),
    Object(Vec<(String, Json)>),
}

/// The value of the first member of `members` whose key is `key`.
pub open spec fn member(members: Seq<(String, Json)>, key: Seq<char>) -> Option<Json>
    decreases members.len(),
{
    if members.len() == 0 {
        None
    } else if members[0].0@ == key {
        Some(members[0].1)
    } else {
        member(members.drop_first(), key)
    }
}

/// The borrowed `r` stands for the value `v`.
pub open spec fn same_json(r: Option<&Json>, v: Option<Json>) -> bool {
    match r {
        Some(x) => v == Some(*x),
        None => v is None,
    }
}

/// The view of an optional string.
pub open spec fn opt_text(o: Option<String>) -> Option<Seq<char>> {
    match o {
        Some(s) => Some(s@),
        None => None,
    }
}

impl Json {
    /// The member `key` of an object; `None` for a missing key or a non-object.
    pub open spec fn field(self, key: Seq<char>) -> Option<Json> {
        match self {
            Json::Object(members) => member(members@, key),
            _ => None,
        }
    }

    /// The text of a string value.
    pub open spec fn text(self) -> Option<Seq<char>> {
        match self {
            Json::Str(s) => Some(s@),
            _ => None,
        }
    }

    /// The string member `key` of an object.
    pub open spec fn text_field(self, key: Seq<char>) -> Option<Seq<char>> {
        match self.field(key) {
            Some(v) => v.text(),
            None => None,
        }
    }

    /// The member `key` of an object, as `serde_json::Value::get` finds it.
    pub fn get(&self, key: &str) -> (r: Option<&Json>)
        ensures
            same_json(r, self.field(key@)),
    {
        match self {
            Json::Object(members) => {
                let n = members.len();
                let mut i: usize = 0;
                assert(members@.skip(0) =~= members@);
                while i < n
                    invariant
                        n == members@.len(),
                        0 <= i <= n,
                        member(members@, key@) == member(members@.skip(i as int), key@),
                        self.field(key@) == member(members@, key@),
                    decreases n - i,
                {
                    assert(members@.skip(i as int).drop_first() =~= members@.skip(i + 1));
                    assert(members@.skip(i as int)[0] == members@[i as int]);
                    if str_eq(members[i].0.as_str(), key) {
                        return Some(&members[i].1);
                    }
                    i = i + 1;
                }
                None
            },
            _ => None,
        }
    }

    /// The member `key` of an object, taken out of it.
    pub fn into_field(self, key: &str) -> (r: Option<Json>)
        ensures
            r == self.field(key@),
    {
        match self {
            Json::Object(mut members) => {
                let ghost all = members@;
                let n = members.len();
                let mut i: usize = 0;
                assert(all.skip(0) =~= all);
                while i < n
                    invariant
                        members@ == all,
                        n == all.len(),
                        0 <= i <= n,
                        member(all, key@) == member(all.skip(i as int), key@),
                        self.field(key@) == member(all, key@),
                    decreases n - i,
                {
                    assert(all.skip(i as int).drop_first() =~= all.skip(i + 1));
                    assert(all.skip(i as int)[0] == all[i as int]);
                    if str_eq(members[i].0.as_str(), key) {
                        let (_, v) = members.remove(i);
                        return Some(v);
                    }
                    i = i + 1;
                }
                None
            },
            _ => None,
        }
    }
}

} // verus!
