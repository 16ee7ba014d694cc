//! Keys with their values, in the order in which the keys came.

use vstd::prelude::*;
use crate::text::{chars_of, same};

verus! {

/// The views of a list of keys with their values.
pub open spec fn pairs(list: Seq<(String, String)>) -> Seq<(Seq<char>, Seq<char>)> {
    list.map_values(|p: (String, String)| (p.0@, p.1@))
}

/// The index at which `map` holds `key`, or -1.
pub open spec fn position(map: Seq<(Seq<char>, Seq<char>)>, key: Seq<char>) -> int
    decreases map.len(),
{
    if map.len() == 0 {
        -1
    } else {
        let before = position(map.drop_last(), key);
        if before >= 0 {
            before
        } else if map.last().0 == key {
            map.len() - 1
        } else {
            -1
        }
    }
}

/// `map` with `value` under `key`: in the place of the value that `key` had,
/// or at the end where it had none.
pub open spec fn put(map: Seq<(Seq<char>, Seq<char>)>, key: Seq<char>, value: Seq<char>) -> Seq<
    (Seq<char>, Seq<char>),
> {
    let i = position(map, key);
    if 0 <= i < map.len() {
        map.update(i, (key, value))
    } else {
        map.push((key, value))
    }
}

/// The value that `map` holds under `key`, where it holds one.
pub open spec fn value_at(map: Seq<(Seq<char>, Seq<char>)>, key: Seq<char>) -> Option<Seq<char>> {
    let i = position(map, key);
    if 0 <= i < map.len() {
        Some(map[i].1)
    } else {
        None
    }
}

/// The index found for a key lies in the table, and the key stands there.
pub proof fn lemma_position(map: Seq<(Seq<char>, Seq<char>)>, key: Seq<char>)
    ensures
        -1 <= position(map, key) < map.len(),
        position(map, key) >= 0 ==> map[position(map, key)].0 == key,
    decreases map.len(),
{
    if map.len() > 0 {
        lemma_position(map.drop_last(), key);
    }
}

/// Puts `value` under `key`: in the place of the value that `key` had, or at
/// the end where it had none.
pub fn insert(map: &mut Vec<(String, String)>, key: String, value: String)
    ensures
        pairs(final(map)@) == put(pairs(old(map)@), key@, value@),
{
    let mut i: usize = 0;
    while i < map.len()
        invariant
            i <= map.len(),
            *map == *old(map),
            position(pairs(map@).take(i as int), key@) == -1,
        decreases map.len() - i,
    {
        if map[i].0 == key {
            proof {
                assert(pairs(map@).take(i + 1).drop_last() =~= pairs(map@).take(i as int));
                assert(position(pairs(map@).take(i + 1), key@) == i);
                lemma_position_take(pairs(map@), key@, i + 1);
            }
            let ghost before = pairs(map@);
            map[i] = (key, value);
            assert(pairs(map@) =~= before.update(i as int, (key@, value@)));
            return ;
        }
        proof {
            assert(pairs(map@).take(i + 1).drop_last() =~= pairs(map@).take(i as int));
        }
        i += 1;
    }
    assert(pairs(map@).take(map.len() as int) =~= pairs(map@));
    let ghost before = pairs(map@);
    map.push((key, value));
    assert(pairs(map@) =~= before.push((key@, value@)));
}

/// A key found among the first `n` entries of `map` is found at the same
/// index in all of `map`.
pub proof fn lemma_position_take(map: Seq<(Seq<char>, Seq<char>)>, key: Seq<char>, n: int)
    requires
        0 <= n <= map.len(),
        position(map.take(n), key) >= 0,
    ensures
        position(map, key) == position(map.take(n), key),
    decreases map.len() - n,
{
    if n < map.len() {
        assert(map.take(n + 1).drop_last() =~= map.take(n));
        lemma_position_take(map, key, n + 1);
    } else {
        assert(map.take(n) =~= map);
    }
}



/// The value under `key`, where `map` holds one.
pub fn get(map: &Vec<(String, String)>, key: &str) -> (r: Option<String>)
    ensures
        match r {
            Some(value) => value_at(pairs(map@), key@) == Some(value@),
            None => value_at(pairs(map@), key@).is_none(),
        },
{
    let wanted = chars_of(key);
    let mut i: usize = 0;
    while i < map.len()
        invariant
            i <= map.len(),
            wanted@ == key@,
            position(pairs(map@).take(i as int), key@) == -1,
        decreases map.len() - i,
    {
        proof {
            assert(pairs(map@).take(i + 1).drop_last() =~= pairs(map@).take(i as int));
        }
        if same(&chars_of(map[i].0.as_str()), &wanted) {
            proof {
                assert(position(pairs(map@).take(i + 1), key@) == i);
                lemma_position_take(pairs(map@), key@, i + 1);
            }
            return Some(map[i].1.clone());
        }
        i += 1;
    }
    proof {
        assert(pairs(map@).take(map.len() as int) =~= pairs(map@));
        lemma_position(pairs(map@), key@);
    }
    None
}


/// The value of the last entry of `list` whose key is `key`, where there is
/// one.
pub open spec fn last_value(list: Seq<(Seq<char>, Seq<char>)>, key: Seq<char>) -> Option<
    Seq<char>,
>
    decreases list.len(),
{
    if list.len() == 0 {
        None
    } else if list.last().0 == key {
        Some(list.last().1)
    } else {
        last_value(list.drop_last(), key)
    }
}


/// A key that no entry has is not found.
pub proof fn lemma_position_none(map: Seq<(Seq<char>, Seq<char>)>, key: Seq<char>)
    requires
        forall|j: int| 0 <= j < map.len() ==> map[j].0 != key,
    ensures
        position(map, key) == -1,
    decreases map.len(),
{
    if map.len() > 0 {
        assert forall|j: int| 0 <= j < map.drop_last().len() implies map.drop_last()[j].0
            != key by {
            assert(map.drop_last()[j] == map[j]);
        }
        lemma_position_none(map.drop_last(), key);
    }
}

/// A key is found at the index of the first entry that has it.
pub proof fn lemma_position_is(map: Seq<(Seq<char>, Seq<char>)>, key: Seq<char>, i: int)
    requires
        0 <= i < map.len(),
        map[i].0 == key,
        forall|j: int| 0 <= j < i ==> map[j].0 != key,
    ensures
        position(map, key) == i,
    decreases map.len(),
{
    if i == map.len() - 1 {
        assert forall|j: int| 0 <= j < map.drop_last().len() implies map.drop_last()[j].0
            != key by {
            assert(map.drop_last()[j] == map[j]);
        }
        lemma_position_none(map.drop_last(), key);
    } else {
        assert(map.drop_last()[i] == map[i]);
        assert forall|j: int| 0 <= j < i implies map.drop_last()[j].0 != key by {
            assert(map.drop_last()[j] == map[j]);
        }
        lemma_position_is(map.drop_last(), key, i);
    }
}

} // verus!
