//! Finding, among keys, the first of each kind.
//!
//! The keys that were kept so far are threaded into chains, one chain per
//! bucket, so that a new key is held against the keys of its own bucket only.

use std::collections::HashMap;
use vstd::prelude::*;

verus! {

/// The rounded coordinates by which two points count as the same point.
pub type PointKey = (i64, i64, i32);

/// Whether no earlier key equals the key at `i`.
pub open spec fn first_occurrence(keys: Seq<PointKey>, i: int) -> bool {
    forall|j: int| 0 <= j < i ==> keys[j] != keys[i]
}

/// The positions in `keys` at which a key stands for the first time, in
/// increasing order.
pub open spec fn first_occurrences(keys: Seq<PointKey>) -> Seq<int> {
    Seq::new(keys.len(), |i: int| i).filter(|i: int| first_occurrence(keys, i))
}

/// Whether one of the positions in `places` holds `key`.
pub open spec fn represented(keys: Seq<PointKey>, places: Seq<usize>, key: PointKey) -> bool {
    exists|m: int| 0 <= m < places.len() && #[trigger] keys[places[m] as int] == key
}

/// The bucket that a key falls into. Equal keys fall into one bucket.
pub open spec fn bucket_of(key: PointKey) -> i64 {
    key.0.wrapping_mul(1_000_003i64).wrapping_add(key.1).wrapping_mul(1_000_003i64).wrapping_add(
        key.2 as i64,
    )
}

/// The key that the slot `slot` of `places` holds.
spec fn key_at(keys: Seq<PointKey>, places: Seq<usize>, slot: int) -> PointKey {
    keys[places[slot] as int]
}

/// Whether `slot` is met when the chain is walked from `from`: every slot names
/// the slot before it in its bucket, which is always an earlier slot.
#[verifier::opaque]
spec fn reaches(previous: Seq<Option<usize>>, from: Option<usize>, slot: int) -> bool
    decreases
            (match from {
                Some(start) => start + 1,
                None => 0,
            }),
{
    match from {
        None => false,
        Some(start) => start == slot || (start < previous.len() && match previous[start as int] {
            Some(before) => before < start && reaches(previous, Some(before), slot),
            None => false,
        }),
    }
}

/// Whether every slot names an earlier slot of its own bucket, or none.
spec fn chained(keys: Seq<PointKey>, places: Seq<usize>, previous: Seq<Option<usize>>) -> bool {
    &&& previous.len() == places.len()
    &&& forall|slot: int|
        0 <= slot < places.len() ==> (#[trigger] previous[slot] matches Some(before) ==> before
            < slot && bucket_of(key_at(keys, places, before as int)) == bucket_of(
            key_at(keys, places, slot),
        ))
}

/// Whether the heads name, for every bucket that is in use, a slot of that
/// bucket from which every slot of the bucket is reached.
spec fn headed(
    keys: Seq<PointKey>,
    places: Seq<usize>,
    previous: Seq<Option<usize>>,
    heads: Map<i64, usize>,
) -> bool {
    &&& forall|bucket: i64| #[trigger]
        heads.contains_key(bucket) ==> heads[bucket] < places.len() && bucket_of(
            key_at(keys, places, heads[bucket] as int),
        ) == bucket
    &&& forall|slot: int|
        0 <= slot < places.len() ==> heads.contains_key(
            #[trigger] bucket_of(key_at(keys, places, slot)),
        ) && reaches(previous, Some(heads[bucket_of(key_at(keys, places, slot))]), slot)
}

/// How a walk goes on: it has met the slot it stands at, or it goes on from the
/// slot that this one names.
proof fn lemma_reaches_unfolds(previous: Seq<Option<usize>>, from: Option<usize>, slot: int)
    ensures
        reaches(previous, from, slot) == match from {
            None => false,
            Some(start) => start == slot || (start < previous.len() && match previous[start as int] {
                Some(before) => before < start && reaches(previous, Some(before), slot),
                None => false,
            }),
        },
{
    reveal(reaches);
}

/// What is reached from a slot that is reached is reached.
proof fn lemma_reaches_onward(
    previous: Seq<Option<usize>>,
    from: Option<usize>,
    through: usize,
    slot: int,
)
    requires
        reaches(previous, from, through as int),
        reaches(previous, Some(through), slot),
    ensures
        reaches(previous, from, slot),
    decreases
            (match from {
                Some(start) => start + 1,
                None => 0,
            }),
{
    reveal(reaches);
    match from {
        None => {},
        Some(start) => {
            if start != through {
                lemma_reaches_onward(previous, previous[start as int], through, slot);
            }
        },
    }
}

/// A chain that grows at its end is walked as before.
proof fn lemma_reaches_in_longer(
    previous: Seq<Option<usize>>,
    added: Option<usize>,
    from: Option<usize>,
    slot: int,
)
    requires
        reaches(previous, from, slot),
        from matches Some(start) ==> start < previous.len(),
    ensures
        reaches(previous.push(added), from, slot),
    decreases
            (match from {
                Some(start) => start + 1,
                None => 0,
            }),
{
    reveal(reaches);
    match from {
        None => {},
        Some(start) => {
            if start != slot {
                lemma_reaches_in_longer(previous, added, previous[start as int], slot);
            }
        },
    }
}

/// Decides `bucket_of`.
fn bucket(key: PointKey) -> (index: i64)
    ensures
        index == bucket_of(key),
{
    key.0.wrapping_mul(1_000_003i64).wrapping_add(key.1).wrapping_mul(1_000_003i64).wrapping_add(
        key.2 as i64,
    )
}

/// Whether two keys are the same key.
fn same_key(left: PointKey, right: PointKey) -> (same: bool)
    ensures
        same == (left == right),
{
    left.0 == right.0 && left.1 == right.1 && left.2 == right.2
}

/// Whether a slot that is reached from `start` holds `key`.
fn chain_holds(
    keys: &Vec<PointKey>,
    places: &Vec<usize>,
    previous: &Vec<Option<usize>>,
    start: Option<usize>,
    key: PointKey,
) -> (found: bool)
    requires
        chained(keys@, places@, previous@),
        forall|m: int| 0 <= m < places@.len() ==> #[trigger] places@[m] < keys@.len(),
        start matches Some(first) ==> first < places@.len(),
    ensures
        found == exists|slot: int|
            0 <= slot < places@.len() && reaches(previous@, start, slot) && #[trigger] key_at(
                keys@,
                places@,
                slot,
            ) == key,
{
    let mut cursor = start;
    proof {
        if start is Some {
            lemma_reaches_unfolds(previous@, start, start.unwrap() as int);
        }
    }
    loop
        invariant
            chained(keys@, places@, previous@),
            forall|m: int| 0 <= m < places@.len() ==> #[trigger] places@[m] < keys@.len(),
            cursor matches Some(at) ==> at < places@.len() && reaches(previous@, start, at as int),
            forall|slot: int|
                0 <= slot < places@.len() && reaches(previous@, start, slot) && #[trigger] key_at(
                    keys@,
                    places@,
                    slot,
                ) == key ==> reaches(previous@, cursor, slot),
        decreases
                (match cursor {
                    Some(at) => at + 1,
                    None => 0,
                }),
    {
        match cursor {
            None => {
                proof {
                    assert forall|slot: int|
                        0 <= slot < places@.len() && reaches(previous@, start, slot) implies
                        #[trigger] key_at(keys@, places@, slot) != key by {
                        lemma_reaches_unfolds(previous@, None, slot);
                    }
                }
                return false;
            },
            Some(at) => {
                if same_key(keys[places[at]], key) {
                    assert(key_at(keys@, places@, at as int) == key);
                    return true;
                }
                let next = previous[at];
                proof {
                    assert(previous@[at as int] == next);
                    if next is Some {
                        let onward = next.unwrap();
                        assert(onward < at);
                        lemma_reaches_unfolds(previous@, Some(onward), onward as int);
                        lemma_reaches_unfolds(previous@, Some(at), onward as int);
                        lemma_reaches_onward(previous@, start, at, onward as int);
                    }
                    assert forall|slot: int|
                        0 <= slot < places@.len() && reaches(previous@, start, slot)
                            && #[trigger] key_at(keys@, places@, slot) == key implies reaches(
                        previous@,
                        next,
                        slot,
                    ) by {
                        assert(reaches(previous@, cursor, slot));
                        assert(slot != at);
                        lemma_reaches_unfolds(previous@, Some(at), slot);
                        lemma_reaches_unfolds(previous@, None, slot);
                    }
                }
                cursor = next;
            },
        }
    }
}

/// The positions at which a key stands for the first time, in increasing order.
pub fn first_occurrence_indices(keys: &Vec<PointKey>) -> (places: Vec<usize>)
    ensures
        places@.len() == first_occurrences(keys@).len(),
        forall|n: int| 0 <= n < places@.len() ==> places@[n] == first_occurrences(keys@)[n],
        forall|n: int| 0 <= n < places@.len() ==> 0 <= #[trigger] places@[n] < keys@.len(),
{
    broadcast use vstd::std_specs::hash::group_hash_axioms;

    let mut places: Vec<usize> = Vec::new();
    let mut previous: Vec<Option<usize>> = Vec::new();
    let mut heads: HashMap<i64, usize> = HashMap::new();
    let ghost positions = Seq::new(keys@.len(), |i: int| i);
    let ghost first = |i: int| first_occurrence(keys@, i);
    let mut i: usize = 0;
    while i < keys.len()
        invariant
            i <= keys@.len(),
            positions == Seq::new(keys@.len(), |i: int| i),
            first == |i: int| first_occurrence(keys@, i),
            places@.len() == positions.take(i as int).filter(first).len(),
            forall|n: int|
                0 <= n < places@.len() ==> #[trigger] places@[n] == positions.take(i as int).filter(
                    first,
                )[n],
            forall|n: int| 0 <= n < places@.len() ==> 0 <= #[trigger] places@[n] < i,
            forall|j: int| 0 <= j < i ==> represented(keys@, places@, #[trigger] keys@[j]),
            chained(keys@, places@, previous@),
            headed(keys@, places@, previous@, heads@),
        decreases keys@.len() - i,
    {
        let key = keys[i];
        let index = bucket(key);
        let start = match heads.get(&index) {
            Some(head) => Some(*head),
            None => None,
        };
        let seen = chain_holds(keys, &places, &previous, start, key);
        let ghost old_places = places@;
        let ghost old_previous = previous@;
        let ghost old_heads = heads@;
        proof {
            assert(seen == represented(keys@, places@, key)) by {
                if represented(keys@, places@, key) {
                    let m = choose|m: int|
                        0 <= m < places@.len() && #[trigger] keys@[places@[m] as int] == key;
                    assert(bucket_of(key_at(keys@, places@, m)) == index);
                    assert(heads@.contains_key(index));
                    assert(start == Some(heads@[index]));
                    assert(reaches(previous@, start, m));
                    assert(key_at(keys@, places@, m) == key);
                }
                if seen {
                    let slot = choose|slot: int|
                        0 <= slot < places@.len() && reaches(previous@, start, slot)
                            && #[trigger] key_at(keys@, places@, slot) == key;
                    assert(keys@[places@[slot] as int] == key);
                }
            }
            let before = positions.take(i as int);
            assert(positions.take(i as int + 1) =~= before.push(i as int));
            before.lemma_filter_push(i as int, first);
            if seen {
                let m = choose|m: int|
                    0 <= m < places@.len() && #[trigger] keys@[places@[m] as int] == key;
                assert(keys@[places@[m] as int] == keys@[i as int]);
                assert(!first_occurrence(keys@, i as int));
            } else {
                assert forall|j: int| 0 <= j < i implies keys@[j] != keys@[i as int] by {
                    assert(represented(keys@, places@, keys@[j]));
                }
                assert(first_occurrence(keys@, i as int));
            }
        }
        if !seen {
            let slot = places.len();
            let displaced = heads.insert(index, slot);
            previous.push(displaced);
            places.push(i);
            proof {
                assert(displaced == start);
                assert forall|at: int| 0 <= at < old_places.len() implies key_at(
                    keys@,
                    places@,
                    at,
                ) == key_at(keys@, old_places, at) by {}
                assert(key_at(keys@, places@, slot as int) == key);
                assert(chained(keys@, places@, previous@)) by {
                    assert forall|at: int| 0 <= at < places@.len() implies (
                    #[trigger] previous@[at] matches Some(earlier) ==> earlier < at && bucket_of(
                        key_at(keys@, places@, earlier as int),
                    ) == bucket_of(key_at(keys@, places@, at))) by {
                        if at < slot {
                            assert(previous@[at] == old_previous[at]);
                        }
                    }
                }
                assert(headed(keys@, places@, previous@, heads@)) by {
                    assert forall|other: i64| #[trigger] heads@.contains_key(other) implies heads@[other]
                        < places@.len() && bucket_of(key_at(keys@, places@, heads@[other] as int))
                        == other by {
                        if other != index {
                            assert(old_heads.contains_key(other));
                        }
                    }
                    assert forall|at: int| 0 <= at < places@.len() implies heads@.contains_key(
                        #[trigger] bucket_of(key_at(keys@, places@, at)),
                    ) && reaches(
                        previous@,
                        Some(heads@[bucket_of(key_at(keys@, places@, at))]),
                        at,
                    ) by {
                        if at < slot {
                            let home = bucket_of(key_at(keys@, old_places, at));
                            assert(old_heads.contains_key(home));
                            lemma_reaches_in_longer(
                                old_previous,
                                displaced,
                                Some(old_heads[home]),
                                at,
                            );
                            if home == index {
                                assert(displaced == Some(old_heads[home]));
                                assert(previous@[slot as int] == displaced);
                                lemma_reaches_unfolds(previous@, Some(slot), at);
                            }
                        } else {
                            lemma_reaches_unfolds(previous@, Some(slot), at);
                        }
                    }
                }
            }
        }
        proof {
            assert forall|j: int| 0 <= j < i + 1 implies represented(
                keys@,
                places@,
                #[trigger] keys@[j],
            ) by {
                if j < i {
                    assert(represented(keys@, old_places, keys@[j]));
                    let m = choose|m: int|
                        0 <= m < old_places.len() && #[trigger] keys@[old_places[m] as int]
                            == keys@[j];
                    assert(keys@[places@[m] as int] == keys@[j]);
                } else if seen {
                    assert(represented(keys@, old_places, key));
                } else {
                    assert(keys@[places@[old_places.len() as int] as int] == keys@[j]);
                }
            }
        }
        i = i + 1;
    }
    proof {
        assert(positions.take(i as int) =~= positions);
    }
    places
}

} // verus!
