//! What holds of every surface model and of every query.

use vstd::prelude::*;

use crate::dem::triangulation::{
    better_offer, is_nearest, lemma_nearest_offer_push, names, nearest_elevation, nearest_offer,
    Candidate, TinView,
};
use crate::dem::unique::{first_occurrence, first_occurrences, PointKey};

verus! {

/// A model of points alone answers every query, provided that the kernel makes
/// an offer for every point.
pub proof fn lemma_point_cloud_always_answers<
    P,
    Q,
    Z,
    FI: Fn(Q, P, P, P) -> Option<Z>,
    FC: Fn(Q, P, P, P) -> Option<Candidate<Z>>,
    FP: Fn(Q, P) -> Option<Candidate<Z>>,
>(model: TinView<P>, inside: FI, centroid: FC, point: FP, query: Q, answer: Option<Z>)
    requires
        model.points.len() > 0,
        model.triangles.len() == 0,
        model.interpolates(inside, centroid, point, query, answer),
        forall|p: P, offer: Option<Candidate<Z>>|
            call_ensures(point, (query, p), offer) ==> offer is Some,
    ensures
        answer is Some,
{
    let offers = choose|offers: Seq<Option<Candidate<Z>>>|
        model.point_offers(point, query, offers) && nearest_elevation(offers, answer);
    assert(offers[0] is Some);
}

/// A model with triangles answers every query, provided that at least one
/// triangle names three points that exist and that the kernel makes an offer
/// for every triangle.
pub proof fn lemma_triangulation_always_answers<
    P,
    Q,
    Z,
    FI: Fn(Q, P, P, P) -> Option<Z>,
    FC: Fn(Q, P, P, P) -> Option<Candidate<Z>>,
    FP: Fn(Q, P) -> Option<Candidate<Z>>,
>(model: TinView<P>, inside: FI, centroid: FC, point: FP, query: Q, answer: Option<Z>)
    requires
        model.triangles.len() > 0,
        exists|j: int| 0 <= j < model.triangles.len() && model.resolve(model.triangles[j]) is Some,
        model.interpolates(inside, centroid, point, query, answer),
        forall|a: P, b: P, c: P, offer: Option<Candidate<Z>>|
            call_ensures(centroid, (query, a, b, c), offer) ==> offer is Some,
    ensures
        answer is Some,
{
    if exists|i: int| model.accepted_at(inside, query, i, answer) {
    } else {
        let offers = choose|offers: Seq<Option<Candidate<Z>>>|
            model.centroid_offers(centroid, query, offers) && nearest_elevation(offers, answer);
        let j = choose|j: int|
            0 <= j < model.triangles.len() && model.resolve(model.triangles[j]) is Some;
        assert(offers[j] is Some);
    }
}

/// A search that is narrowed to candidates gives what the search through all
/// triangles gives, provided that the candidates rise and that every triangle
/// they leave out is one that the kernel turns down.
pub proof fn lemma_narrowed_search_agrees<
    P,
    Q,
    Z,
    FI: Fn(Q, P, P, P) -> Option<Z>,
    FC: Fn(Q, P, P, P) -> Option<Candidate<Z>>,
    FP: Fn(Q, P) -> Option<Candidate<Z>>,
>(
    model: TinView<P>,
    inside: FI,
    centroid: FC,
    point: FP,
    query: Q,
    candidates: Seq<usize>,
    answer: Option<Z>,
)
    requires
        model.narrowed_by(inside, query, candidates),
        model.interpolates_among(inside, centroid, point, query, candidates, answer),
    ensures
        model.interpolates(inside, centroid, point, query, answer),
{
    if model.triangles.len() > 0 {
        if exists|k: int| model.candidate_accepted(inside, query, candidates, k, answer) {
            let k = choose|k: int| model.candidate_accepted(inside, query, candidates, k, answer);
            let i = candidates[k] as int;
            assert forall|j: int| 0 <= j < i implies model.rejected_at(inside, query, j) by {
                if names(candidates, j) {
                    let m = choose|m: int|
                        0 <= m < candidates.len() && #[trigger] candidates[m] == j;
                    if m > k {
                        assert(candidates[k] < candidates[m]);
                    }
                    assert(model.candidate_rejected(inside, query, candidates, m));
                }
            }
            assert(model.accepted_at(inside, query, i, answer));
        } else {
            assert forall|j: int| 0 <= j < model.triangles.len() implies model.rejected_at(
                inside,
                query,
                j,
            ) by {
                if names(candidates, j) {
                    let m = choose|m: int|
                        0 <= m < candidates.len() && #[trigger] candidates[m] == j;
                    assert(model.candidate_rejected(inside, query, candidates, m));
                }
            }
        }
    }
}

/// A triangle that the kernel turns down, whatever the kernel is asked, never
/// gives the answer.
pub proof fn lemma_rejected_triangle_never_answers<P, Q, Z, FI: Fn(Q, P, P, P) -> Option<Z>>(
    model: TinView<P>,
    inside: FI,
    query: Q,
    k: int,
    i: int,
    answer: Option<Z>,
)
    requires
        0 <= k < model.triangles.len(),
        model.resolve(model.triangles[k]) matches Some(corners) ==> forall|given: Option<Z>|
            call_ensures(inside, (query, corners.0, corners.1, corners.2), given)
                ==> given is None,
        model.accepted_at(inside, query, i, answer),
    ensures
        i != k,
{
}

/// A model of one point and no triangle answers with the elevation that the
/// kernel offers for that point, wherever the query lies.
pub proof fn lemma_single_point_answers<
    P,
    Q,
    Z,
    FI: Fn(Q, P, P, P) -> Option<Z>,
    FC: Fn(Q, P, P, P) -> Option<Candidate<Z>>,
    FP: Fn(Q, P) -> Option<Candidate<Z>>,
>(model: TinView<P>, inside: FI, centroid: FC, point: FP, query: Q, answer: Option<Z>)
    requires
        model.points.len() == 1,
        model.triangles.len() == 0,
        model.interpolates(inside, centroid, point, query, answer),
    ensures
        exists|offer: Option<Candidate<Z>>|
            call_ensures(point, (query, model.points[0]), offer) && answer == match offer {
                Some(candidate) => Some(candidate.elevation),
                None => None,
            },
{
    let offers = choose|offers: Seq<Option<Candidate<Z>>>|
        model.point_offers(point, query, offers) && nearest_elevation(offers, answer);
    let offer = offers[0];
    assert(call_ensures(point, (query, model.points[0]), offer));
    if offer is Some {
        let i = choose|i: int|
            is_nearest(offers, i) && answer == Some(offers[i].unwrap().elevation);
        assert(i == 0);
    }
}

/// Among offers of which at least one is there, one is the nearest.
pub proof fn lemma_some_offer_is_nearest<Z>(offers: Seq<Option<Candidate<Z>>>)
    requires
        exists|j: int| 0 <= j < offers.len() && offers[j] is Some,
    ensures
        exists|i: int| is_nearest(offers, i),
    decreases offers.len(),
{
    let shorter = offers.drop_last();
    let last = offers.last();
    assert(offers =~= shorter.push(last));
    if exists|j: int| 0 <= j < shorter.len() && shorter[j] is Some {
        lemma_some_offer_is_nearest(shorter);
        let i = choose|i: int| is_nearest(shorter, i);
        assert(nearest_offer(shorter, shorter[i]));
        lemma_nearest_offer_push(shorter, shorter[i], last);
    } else {
        assert(nearest_offer(shorter, None));
        lemma_nearest_offer_push(shorter, None, last);
    }
    let chosen = better_offer(
        if exists|j: int| 0 <= j < shorter.len() && shorter[j] is Some {
            shorter[choose|i: int| is_nearest(shorter, i)]
        } else {
            None
        },
        last,
    );
    assert(nearest_offer(offers, chosen));
    if chosen is None {
        let j = choose|j: int| 0 <= j < offers.len() && offers[j] is Some;
        assert(offers[j] is None);
    }
}

/// The nearest offer is unique: of two offers that are both the nearest, one is
/// the other.
pub proof fn lemma_nearest_is_unique<Z>(offers: Seq<Option<Candidate<Z>>>, i: int, j: int)
    requires
        is_nearest(offers, i),
        is_nearest(offers, j),
    ensures
        i == j,
{
}

/// Whether the key at `i` is held by a kept position at or before `i`.
pub open spec fn kept_for(keys: Seq<PointKey>, i: int) -> bool {
    exists|n: int|
        0 <= n < first_occurrences(keys).len() && #[trigger] first_occurrences(keys)[n] <= i
            && keys[first_occurrences(keys)[n]] == keys[i]
}

/// Whether the members of `places` rise.
pub open spec fn rising(places: Seq<int>) -> bool {
    forall|m: int, n: int| 0 <= m < n < places.len() ==> places[m] < places[n]
}

/// Whether every member of `places` is a first occurrence below `upto`.
pub open spec fn firsts_below(keys: Seq<PointKey>, places: Seq<int>, upto: int) -> bool {
    forall|n: int|
        0 <= n < places.len() ==> 0 <= #[trigger] places[n] < upto && first_occurrence(
            keys,
            places[n],
        )
}

/// The first occurrences among the first `upto` keys rise and lie below `upto`.
proof fn lemma_first_occurrences_upto(keys: Seq<PointKey>, upto: int)
    requires
        0 <= upto <= keys.len(),
    ensures
        rising(
            Seq::new(keys.len(), |i: int| i).take(upto).filter(|i: int| first_occurrence(keys, i)),
        ),
        firsts_below(
            keys,
            Seq::new(keys.len(), |i: int| i).take(upto).filter(|i: int| first_occurrence(keys, i)),
            upto,
        ),
    decreases upto,
{
    let positions = Seq::new(keys.len(), |i: int| i);
    let first = |i: int| first_occurrence(keys, i);
    if upto == 0 {
        assert(positions.take(0) =~= Seq::<int>::empty());
        positions.take(0).lemma_filter_len(first);
    } else {
        lemma_first_occurrences_upto(keys, upto - 1);
        let before = positions.take(upto - 1);
        let shorter = before.filter(first);
        assert(positions.take(upto) =~= before.push(upto - 1));
        before.lemma_filter_push(upto - 1, first);
        let kept = positions.take(upto).filter(first);
        if first_occurrence(keys, upto - 1) {
            assert(kept == shorter.push(upto - 1));
            assert forall|m: int, n: int| 0 <= m < n < kept.len() implies kept[m] < kept[n] by {
                assert(0 <= shorter[m] < upto - 1);
                if n < shorter.len() {
                    assert(shorter[m] < shorter[n]);
                }
            }
            assert forall|n: int| 0 <= n < kept.len() implies 0 <= #[trigger] kept[n] < upto
                && first_occurrence(keys, kept[n]) by {
                if n < shorter.len() {
                    assert(0 <= shorter[n] < upto - 1);
                }
            }
        } else {
            assert(kept == shorter);
            assert forall|n: int| 0 <= n < kept.len() implies 0 <= #[trigger] kept[n] < upto
                && first_occurrence(keys, kept[n]) by {
                assert(0 <= shorter[n] < upto - 1);
            }
        }
    }
}

/// Every key has a first of its kind at or before it.
proof fn lemma_key_has_first_occurrence(keys: Seq<PointKey>, i: int)
    requires
        0 <= i < keys.len(),
    ensures
        exists|j: int| 0 <= j <= i && first_occurrence(keys, j) && keys[j] == keys[i],
    decreases i,
{
    if first_occurrence(keys, i) {
    } else {
        let j = choose|j: int| 0 <= j < i && keys[j] == keys[i];
        lemma_key_has_first_occurrence(keys, j);
        let first = choose|first: int|
            0 <= first <= j && first_occurrence(keys, first) && keys[first] == keys[j];
        assert(0 <= first <= i && first_occurrence(keys, first) && keys[first] == keys[i]);
    }
}

/// Points with equal keys collapse into the first of them, and what is kept
/// keeps its order: the kept positions rise, no two of them hold the same key,
/// and every key is held by a kept position at or before its own.
pub proof fn lemma_unique_points_keep_first(keys: Seq<PointKey>)
    ensures
        rising(first_occurrences(keys)),
        firsts_below(keys, first_occurrences(keys), keys.len() as int),
        forall|m: int, n: int|
            0 <= m < n < first_occurrences(keys).len() ==> keys[first_occurrences(keys)[m]]
                != keys[first_occurrences(keys)[n]],
        forall|i: int| 0 <= i < keys.len() ==> kept_for(keys, i),
{
    let positions = Seq::new(keys.len(), |i: int| i);
    let first = |i: int| first_occurrence(keys, i);
    lemma_first_occurrences_upto(keys, keys.len() as int);
    assert(positions.take(keys.len() as int) =~= positions);
    let kept = first_occurrences(keys);
    assert forall|m: int, n: int| 0 <= m < n < kept.len() implies keys[kept[m]] != keys[kept[n]] by {
        assert(first_occurrence(keys, kept[n]));
        assert(kept[m] < kept[n]);
    }
    assert forall|i: int| 0 <= i < keys.len() implies kept_for(keys, i) by {
        lemma_key_has_first_occurrence(keys, i);
        let j = choose|j: int| 0 <= j <= i && first_occurrence(keys, j) && keys[j] == keys[i];
        assert(positions[j] == j);
        positions.lemma_filter_contains(first, j);
        assert(kept.contains(j));
        let n = choose|n: int| 0 <= n < kept.len() && kept[n] == j;
        assert(first_occurrences(keys)[n] <= i);
    }
}

/// Where all points have one key, the first point alone is kept.
pub proof fn lemma_coincident_points_collapse<P>(model: TinView<P>, keys: Seq<PointKey>)
    requires
        keys.len() == model.points.len(),
        keys.len() > 0,
        forall|i: int| 0 <= i < keys.len() ==> #[trigger] keys[i] == keys[0],
    ensures
        model.unique_points(keys) == seq![model.points[0]],
{
    lemma_unique_points_keep_first(keys);
    let kept = first_occurrences(keys);
    assert(kept_for(keys, 0));
    let n = choose|n: int|
        0 <= n < kept.len() && #[trigger] kept[n] <= 0 && keys[kept[n]] == keys[0];
    assert(kept[n] == 0);
    if n > 0 {
        assert(kept[0] < kept[n]);
    }
    if kept.len() > 1 {
        assert(keys[kept[1]] == keys[0]);
        assert(keys[kept[0]] != keys[kept[1]]);
    }
    assert(model.unique_points(keys) =~= seq![model.points[0]]);
}

} // verus!
