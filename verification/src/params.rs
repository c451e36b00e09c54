//! The key/value parameter map carried opaquely inside a message.
//!
//! Relays read and extend it but must otherwise pass it through unchanged,
//! so it is held as a persistent (copy-on-relay) association list whose
//! mathematical meaning is a `Map` from key to value; an entry nearer the
//! front shadows any later entry with the same key.

use vstd::prelude::*;

verus! {

/// The map denoted by an association list: an entry nearer the front
/// shadows any later entry with the same key.
pub open spec fn params_map(entries: Seq<(String, String)>) -> Map<Seq<char>, Seq<char>>
    decreases entries.len(),
{
    if entries.len() == 0 {
        Map::empty()
    } else {
        params_map(entries.drop_first()).insert(entries[0].0@, entries[0].1@)
    }
}

/// Entries whose key differs from `k` do not affect what the map says of `k`:
/// dropping a key-free prefix leaves the lookup of `k` unchanged.
proof fn lemma_params_map_skip(entries: Seq<(String, String)>, k: Seq<char>, i: int)
    requires
        0 <= i <= entries.len(),
        forall|j: int| 0 <= j < i ==> (#[trigger] entries[j]).0@ != k,
    ensures
        params_map(entries).contains_key(k) == params_map(entries.skip(i)).contains_key(k),
        params_map(entries).contains_key(k) ==> params_map(entries)[k] == params_map(
            entries.skip(i),
        )[k],
    decreases i,
{
    if i == 0 {
        assert(entries.skip(0) =~= entries);
    } else {
        let rest = entries.drop_first();
        assert(entries[0].0@ != k);
        assert forall|j: int| 0 <= j < i - 1 implies (#[trigger] rest[j]).0@ != k by {
            assert(rest[j] == entries[j + 1]);
        }
        lemma_params_map_skip(rest, k, i - 1);
        assert(entries.skip(i) =~= rest.skip(i - 1));
        assert(params_map(entries) == params_map(rest).insert(entries[0].0@, entries[0].1@));
        assert(params_map(entries).contains_key(k) == params_map(rest).contains_key(k));
        assert(params_map(entries).contains_key(k) ==> params_map(entries)[k] == params_map(
            rest,
        )[k]);
    }
}

/// Looks a key up: the first entry with that key, if any, which is what
/// the map view of the list says of the key.
pub fn params_get<'a>(entries: &'a Vec<(String, String)>, key: &String) -> (r: Option<&'a String>)
    ensures
        match r {
            Some(v) => params_map(entries@).contains_key(key@) && v@ == params_map(entries@)[key@],
            None => !params_map(entries@).contains_key(key@),
        },
{
    let n = entries.len();
    let mut i: usize = 0;
    while i < n
        invariant
            n == entries@.len(),
            0 <= i <= n,
            forall|j: int| 0 <= j < i ==> (#[trigger] entries@[j]).0@ != key@,
        decreases n - i,
    {
        if entries[i].0 == *key {
            proof {
                lemma_params_map_skip(entries@, key@, i as int);
                assert(entries@.skip(i as int)[0] == entries@[i as int]);
            }
            return Some(&entries[i].1);
        }
        i += 1;
    }
    proof {
        lemma_params_map_skip(entries@, key@, n as int);
        assert(entries@.skip(n as int) =~= Seq::<(String, String)>::empty());
    }
    None
}

/// A fresh copy of an association list, entry for entry.
pub fn clone_params(entries: &Vec<(String, String)>) -> (r: Vec<(String, String)>)
    ensures
        r@ == entries@,
{
    let mut r: Vec<(String, String)> = Vec::new();
    let mut i: usize = 0;
    while i < entries.len()
        invariant
            0 <= i <= entries@.len(),
            r@ =~= entries@.subrange(0, i as int),
        decreases entries@.len() - i,
    {
        r.push((entries[i].0.clone(), entries[i].1.clone()));
        proof {
            assert(r@ =~= entries@.subrange(0, i as int + 1));
        }
        i += 1;
    }
    proof {
        assert(entries@.subrange(0, entries@.len() as int) =~= entries@);
    }
    r
}

/// A fresh copy of the list with one entry added at the front, so that in
/// the map view the new entry wins over any older one with the same key.
pub fn params_with(entries: &Vec<(String, String)>, key: String, value: String) -> (r: Vec<
    (String, String),
>)
    ensures
        r@ == seq![(key, value)] + entries@,
        params_map(r@) == params_map(entries@).insert(key@, value@),
{
    let mut r = clone_params(entries);
    r.insert(0, (key, value));
    proof {
        assert(r@ =~= seq![(key, value)] + entries@);
        assert(r@.drop_first() =~= entries@);
    }
    r
}

} // verus!
