//! A generic JSON-like document, modelled as a tagged variant, together
//! with the spec-level field lookup that the analyzer is stated over.

use vstd::prelude::*;

verus! {

/// A parsed JSON document. An object keeps its members as a sequence of
/// key/value pairs; a numeric member's value is never consulted by this
/// library, so the `Number` variant carries no payload.
#[derive(Debug, PartialEq, Eq)]
pub enum Json {
    Null,
    Bool(bool),
    Number,
    Str(String),
    Array(Vec<Json>),
    Object(Vec<(String, Json)>),
}

/// The value of the first member of `entries` whose key is `key`, if any.
pub open spec fn lookup(entries: Seq<(String, Json)>, key: Seq<char>) -> Option<Json>
    decreases entries.len(),
{
    if entries.len() == 0 {
        None
    } else if entries[0].0@ == key {
        Some(entries[0].1)
    } else {
        lookup(entries.drop_first(), key)
    }
}

/// The value of the field `key` of `doc`: `None` unless `doc` is an
/// object with a member of that key.
pub open spec fn get_field(doc: Json, key: Seq<char>) -> Option<Json> {
    match doc {
        Json::Object(entries) => lookup(entries@, key),
        _ => None,
    }
}

/// The first member of `entries` whose key equals `key`, if any.
pub fn lookup_field<'a>(entries: &'a Vec<(String, Json)>, key: &String) -> (r: Option<
    &'a Json,
>)
    ensures
        match r {
            Some(v) => lookup(entries@, key@) == Some(*v),
            None => lookup(entries@, key@) is None,
        },
{
    let mut i: usize = 0;
    proof {
        assert(entries@.skip(0) =~= entries@);
    }
    while i < entries.len()
        invariant
            i <= entries.len(),
            lookup(entries@, key@) == lookup(entries@.skip(i as int), key@),
        decreases entries.len() - i,
    {
        proof {
            assert(entries@.skip(i as int)[0] == entries@[i as int]);
        }
        if entries[i].0 == *key {
            return Some(&entries[i].1);
        }
        proof {
            assert(entries@.skip(i as int).drop_first() =~= entries@.skip(i + 1int));
        }
        i += 1;
    }
    None
}

} // verus!
