//! The library's own form of a vault item: a structured document holding
//! plain values. The vault's wire format is decoded outside and handed in as
//! this type; the resolver reads it, and only scalar strings count as
//! secrets. Numbers keep their raw decimal text.

use vstd::prelude::*;

verus! {

pub enum JsonValue {
    Null,
    Bool(bool),
    /// The number's raw decimal text, kept opaque.
    Number(String),
    Str(String),
    Array(Vec<JsonValue>),
    Object(Vec<(String, JsonValue)>),
}

/// Field lookup in an object: the last binding of the key wins, as in a
/// document store that overwrites duplicate keys on insertion.
pub open spec fn spec_lookup(pairs: Seq<(String, JsonValue)>, key: Seq<char>) -> Option<JsonValue>
    decreases pairs.len(),
{
    if pairs.len() == 0 {
        None
    } else if pairs.last().0@ == key {
        Some(pairs.last().1)
    } else {
        spec_lookup(pairs.drop_last(), key)
    }
}

/// Finds the value bound to `key`, preferring the latest binding.
pub fn lookup_field<'a>(pairs: &'a Vec<(String, JsonValue)>, key: &String) -> (r: Option<
    &'a JsonValue,
>)
    ensures
        match r {
            Some(v) => spec_lookup(pairs@, key@) == Some(*v),
            None => spec_lookup(pairs@, key@) is None,
        },
{
    let mut j: usize = pairs.len();
    proof {
        assert(pairs@.take(j as int) =~= pairs@);
    }
    while j > 0
        invariant
            j <= pairs.len(),
            spec_lookup(pairs@.take(j as int), key@) == spec_lookup(pairs@, key@),
        decreases j,
    {
        j = j - 1;
        let hit = pairs[j].0 == *key;
        proof {
            assert(pairs@.take(j + 1).last() == pairs@[j as int]);
            assert(pairs@.take(j + 1).drop_last() =~= pairs@.take(j as int));
        }
        if hit {
            return Some(&pairs[j].1);
        }
    }
    proof {
        assert(pairs@.take(0int).len() == 0);
    }
    None
}

} // verus!
