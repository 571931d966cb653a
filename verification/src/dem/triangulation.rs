use vstd::prelude::*;

use crate::dem::grid::DemGrid;
use crate::dem::unique::{first_occurrence_indices, first_occurrences, PointKey};
use crate::error::LandXMLError;
use crate::surfaces::Triangle;

verus! {

/// What a kernel offers when it is asked how far something lies from a query:
/// an elevation, and a key by which offers are ordered. The smaller key is the
/// nearer offer.
#[derive(Debug, Clone, Copy, PartialEq, Eq)]
pub struct Candidate<Z> {
    /// The key of the distance: of two offers the one with the smaller key is
    /// the nearer.
    pub distance: u64,
    /// The elevation that is offered.
    pub elevation: Z,
}

/// Counts that describe how densely a point set is triangulated.
#[derive(Debug, Clone, Copy, PartialEq, Eq)]
pub struct TriangulationQuality {
    /// The number of points.
    pub point_count: usize,
    /// The number of triangles, those that name missing points included.
    pub triangle_count: usize,
    /// The number of triangles that so many points can have at most.
    pub expected_triangles: usize,
}

/// A surface model: points, and triangles that name them by index. There is
/// always at least one point; there may be no triangle at all.
pub struct TriangulationSource<P> {
    points: Vec<P>,
    triangles: Vec<Triangle>,
}

/// What a surface model holds.
pub struct TinView<P> {
    /// The points, in the order in which they were given.
    pub points: Seq<P>,
    /// The triangles, in the order in which they were given.
    pub triangles: Seq<Triangle>,
}

/// The number of triangles that a planar triangulation of `points` points can
/// have at most.
pub open spec fn expected_triangle_count(points: nat) -> nat {
    if points >= 3 {
        (2 * points - 5) as nat
    } else {
        0
    }
}

/// Whether the offer at `i` is the nearest of `offers`: no offer is nearer, and
/// no offer before it is as near.
pub open spec fn is_nearest<Z>(offers: Seq<Option<Candidate<Z>>>, i: int) -> bool {
    &&& 0 <= i < offers.len()
    &&& offers[i] is Some
    &&& forall|j: int|
        0 <= j < i && offers[j] is Some ==> offers[j].unwrap().distance
            > offers[i].unwrap().distance
    &&& forall|j: int|
        i < j < offers.len() && offers[j] is Some ==> offers[j].unwrap().distance
            >= offers[i].unwrap().distance
}

/// Whether one of the candidates is the triangle at `j`.
pub open spec fn names(candidates: Seq<usize>, j: int) -> bool {
    exists|m: int| 0 <= m < candidates.len() && #[trigger] candidates[m] == j
}

/// Whether `best` is the nearest of `offers`, or nothing where nothing was
/// offered.
pub open spec fn nearest_offer<Z>(
    offers: Seq<Option<Candidate<Z>>>,
    best: Option<Candidate<Z>>,
) -> bool {
    ||| best is None && forall|j: int| 0 <= j < offers.len() ==> offers[j] is None
    ||| exists|i: int| is_nearest(offers, i) && best == offers[i]
}

/// Whether `answer` is the elevation of the nearest of `offers`, or nothing
/// where nothing was offered.
pub open spec fn nearest_elevation<Z>(offers: Seq<Option<Candidate<Z>>>, answer: Option<Z>) -> bool {
    ||| answer is None && forall|j: int| 0 <= j < offers.len() ==> offers[j] is None
    ||| exists|i: int| is_nearest(offers, i) && answer == Some(offers[i].unwrap().elevation)
}

/// The better of the best offer so far and one more offer: the new one wins
/// only where it is strictly nearer.
pub open spec fn better_offer<Z>(best: Option<Candidate<Z>>, offer: Option<Candidate<Z>>) -> Option<
    Candidate<Z>,
> {
    match (best, offer) {
        (_, None) => best,
        (None, Some(_)) => offer,
        (Some(held), Some(new)) => if new.distance < held.distance {
            offer
        } else {
            best
        },
    }
}

/// Taking one more offer into account keeps the best offer the nearest.
pub proof fn lemma_nearest_offer_push<Z>(
    offers: Seq<Option<Candidate<Z>>>,
    best: Option<Candidate<Z>>,
    offer: Option<Candidate<Z>>,
)
    requires
        nearest_offer(offers, best),
    ensures
        nearest_offer(offers.push(offer), better_offer(best, offer)),
{
    let longer = offers.push(offer);
    let chosen = better_offer(best, offer);
    if best is None {
        if offer is Some {
            assert(is_nearest(longer, offers.len() as int));
            assert(chosen == longer[offers.len() as int]);
        }
    } else {
        let i = choose|i: int| is_nearest(offers, i) && best == offers[i];
        if offer is Some && offer.unwrap().distance < best.unwrap().distance {
            assert(is_nearest(longer, offers.len() as int));
            assert(chosen == longer[offers.len() as int]);
        } else {
            assert(is_nearest(longer, i));
            assert(chosen == longer[i]);
        }
    }
}

impl<P> TinView<P> {
    /// The points that a triangle names.
    pub open spec fn corners(self, triangle: Triangle) -> (P, P, P) {
        (
            self.points[triangle.vertices[0] as int],
            self.points[triangle.vertices[1] as int],
            self.points[triangle.vertices[2] as int],
        )
    }

    /// The points that a triangle names, where all three exist.
    pub open spec fn resolve(self, triangle: Triangle) -> Option<(P, P, P)> {
        if triangle.within(self.points.len()) {
            Some(self.corners(triangle))
        } else {
            None
        }
    }

    /// The corners of the triangles whose points all exist, in the order of the
    /// triangles.
    pub open spec fn resolved_triangles(self) -> Seq<(P, P, P)> {
        self.triangles.filter_map(|triangle: Triangle| self.resolve(triangle))
    }

    /// The points that are kept when points with equal keys count as one: of
    /// each key the first point that has it, in the order of the points.
    pub open spec fn unique_points(self, keys: Seq<PointKey>) -> Seq<P> {
        first_occurrences(keys).map_values(|i: int| self.points[i])
    }

    /// Whether `keys` holds, point by point, what `key_of` gave for the point.
    pub open spec fn keyed_by<FK: Fn(P) -> PointKey>(self, key_of: FK, keys: Seq<PointKey>) -> bool {
        &&& keys.len() == self.points.len()
        &&& forall|j: int|
            0 <= j < self.points.len() ==> call_ensures(key_of, (self.points[j],), #[trigger] keys[j])
    }

    /// Whether the kernel `inside` turned the triangle at `j` down, which holds
    /// of every triangle that names a missing point.
    pub open spec fn rejected_at<Q, Z, FI: Fn(Q, P, P, P) -> Option<Z>>(
        self,
        inside: FI,
        query: Q,
        j: int,
    ) -> bool {
        self.resolve(self.triangles[j]) matches Some(corners) ==> call_ensures(
            inside,
            (query, corners.0, corners.1, corners.2),
            None::<Z>,
        )
    }

    /// Whether the triangle at `i` is the first that the kernel `inside`
    /// accepted, and `answer` is what the kernel gave for it.
    pub open spec fn accepted_at<Q, Z, FI: Fn(Q, P, P, P) -> Option<Z>>(
        self,
        inside: FI,
        query: Q,
        i: int,
        answer: Option<Z>,
    ) -> bool {
        &&& 0 <= i < self.triangles.len()
        &&& answer is Some
        &&& self.resolve(self.triangles[i]) matches Some(corners) && call_ensures(
            inside,
            (query, corners.0, corners.1, corners.2),
            answer,
        )
        &&& forall|j: int| 0 <= j < i ==> self.rejected_at(inside, query, j)
    }

    /// Whether `offers` holds, triangle by triangle, what the kernel `centroid`
    /// offered for the triangle, and nothing for a triangle that names a missing
    /// point.
    pub open spec fn centroid_offers<Q, Z, FC: Fn(Q, P, P, P) -> Option<Candidate<Z>>>(
        self,
        centroid: FC,
        query: Q,
        offers: Seq<Option<Candidate<Z>>>,
    ) -> bool {
        &&& offers.len() == self.triangles.len()
        &&& forall|j: int|
            0 <= j < self.triangles.len() ==> match self.resolve(self.triangles[j]) {
                Some(corners) => call_ensures(
                    centroid,
                    (query, corners.0, corners.1, corners.2),
                    #[trigger] offers[j],
                ),
                None => offers[j] is None,
            }
    }

    /// Whether `offers` holds, point by point, what the kernel `point` offered
    /// for the point.
    pub open spec fn point_offers<Q, Z, FP: Fn(Q, P) -> Option<Candidate<Z>>>(
        self,
        point: FP,
        query: Q,
        offers: Seq<Option<Candidate<Z>>>,
    ) -> bool {
        &&& offers.len() == self.points.len()
        &&& forall|j: int|
            0 <= j < self.points.len() ==> call_ensures(
                point,
                (query, self.points[j]),
                #[trigger] offers[j],
            )
    }

    /// Whether the three kernels may be called on everything that the model
    /// would hand them for `query`.
    pub open spec fn admits<
        Q,
        Z,
        FI: Fn(Q, P, P, P) -> Option<Z>,
        FC: Fn(Q, P, P, P) -> Option<Candidate<Z>>,
        FP: Fn(Q, P) -> Option<Candidate<Z>>,
    >(self, inside: FI, centroid: FC, point: FP, query: Q) -> bool {
        &&& forall|j: int|
            0 <= j < self.triangles.len() ==> (#[trigger] self.resolve(
                self.triangles[j],
            ) matches Some(corners) ==> {
                &&& call_requires(inside, (query, corners.0, corners.1, corners.2))
                &&& call_requires(centroid, (query, corners.0, corners.1, corners.2))
            })
        &&& forall|j: int|
            0 <= j < self.points.len() ==> call_requires(point, (query, #[trigger] self.points[j]))
    }

    /// Whether `answer` is the elevation of the model at `query`.
    ///
    /// With triangles: what `inside` gave for the first triangle that it
    /// accepted; where it accepted none, the elevation of the nearest offer of
    /// `centroid`. Without triangles: the elevation of the nearest offer of
    /// `point`. Of two offers that are equally near the earlier one counts.
    pub open spec fn interpolates<
        Q,
        Z,
        FI: Fn(Q, P, P, P) -> Option<Z>,
        FC: Fn(Q, P, P, P) -> Option<Candidate<Z>>,
        FP: Fn(Q, P) -> Option<Candidate<Z>>,
    >(self, inside: FI, centroid: FC, point: FP, query: Q, answer: Option<Z>) -> bool {
        if self.triangles.len() > 0 {
            ||| exists|i: int| self.accepted_at(inside, query, i, answer)
            ||| {
                &&& forall|j: int|
                    0 <= j < self.triangles.len() ==> self.rejected_at(inside, query, j)
                &&& exists|offers: Seq<Option<Candidate<Z>>>|
                    self.centroid_offers(centroid, query, offers) && nearest_elevation(
                        offers,
                        answer,
                    )
            }
        } else {
            exists|offers: Seq<Option<Candidate<Z>>>|
                self.point_offers(point, query, offers) && nearest_elevation(offers, answer)
        }
    }

    /// Whether the candidate at place `k` was turned down: it names no
    /// triangle, or a triangle that was turned down.
    pub open spec fn candidate_rejected<Q, Z, FI: Fn(Q, P, P, P) -> Option<Z>>(
        self,
        inside: FI,
        query: Q,
        candidates: Seq<usize>,
        k: int,
    ) -> bool {
        candidates[k] < self.triangles.len() ==> self.rejected_at(
            inside,
            query,
            candidates[k] as int,
        )
    }

    /// Whether the candidate at place `k` is the first that the kernel `inside`
    /// accepted, and `answer` is what the kernel gave for it.
    pub open spec fn candidate_accepted<Q, Z, FI: Fn(Q, P, P, P) -> Option<Z>>(
        self,
        inside: FI,
        query: Q,
        candidates: Seq<usize>,
        k: int,
        answer: Option<Z>,
    ) -> bool {
        &&& 0 <= k < candidates.len()
        &&& candidates[k] < self.triangles.len()
        &&& answer is Some
        &&& self.resolve(self.triangles[candidates[k] as int]) matches Some(corners)
            && call_ensures(inside, (query, corners.0, corners.1, corners.2), answer)
        &&& forall|m: int| 0 <= m < k ==> self.candidate_rejected(inside, query, candidates, m)
    }

    /// Whether `answer` is the elevation of the model at `query` when only the
    /// triangles that `candidates` names are asked whether the query lies
    /// inside, in the order of the candidates. What follows where none accepts
    /// is as in `interpolates`.
    pub open spec fn interpolates_among<
        Q,
        Z,
        FI: Fn(Q, P, P, P) -> Option<Z>,
        FC: Fn(Q, P, P, P) -> Option<Candidate<Z>>,
        FP: Fn(Q, P) -> Option<Candidate<Z>>,
    >(
        self,
        inside: FI,
        centroid: FC,
        point: FP,
        query: Q,
        candidates: Seq<usize>,
        answer: Option<Z>,
    ) -> bool {
        if self.triangles.len() > 0 {
            ||| exists|k: int| self.candidate_accepted(inside, query, candidates, k, answer)
            ||| {
                &&& forall|m: int|
                    0 <= m < candidates.len() ==> self.candidate_rejected(
                        inside,
                        query,
                        candidates,
                        m,
                    )
                &&& exists|offers: Seq<Option<Candidate<Z>>>|
                    self.centroid_offers(centroid, query, offers) && nearest_elevation(
                        offers,
                        answer,
                    )
            }
        } else {
            exists|offers: Seq<Option<Candidate<Z>>>|
                self.point_offers(point, query, offers) && nearest_elevation(offers, answer)
        }
    }

    /// Whether `candidates` narrows the search without changing its outcome:
    /// the candidates rise, and every triangle that is not among them is one
    /// that the kernel `inside` turns down.
    pub open spec fn narrowed_by<Q, Z, FI: Fn(Q, P, P, P) -> Option<Z>>(
        self,
        inside: FI,
        query: Q,
        candidates: Seq<usize>,
    ) -> bool {
        &&& forall|a: int, b: int|
            0 <= a < b < candidates.len() ==> candidates[a] < candidates[b]
        &&& forall|j: int|
            0 <= j < self.triangles.len() && !names(candidates, j) ==> self.rejected_at(
                inside,
                query,
                j,
            )
    }
}

impl<P> View for TriangulationSource<P> {
    type V = TinView<P>;

    closed spec fn view(&self) -> TinView<P> {
        TinView { points: self.points@, triangles: self.triangles@ }
    }
}

impl<P> TriangulationSource<P> {
    #[verifier::type_invariant]
    spec fn inhabited(self) -> bool {
        self.points@.len() > 0
    }

    /// A model of points and the triangles between them. The triangles are kept
    /// as they come: none is checked, none is reordered.
    pub fn from_surface(points: Vec<P>, triangles: Vec<Triangle>) -> (made: Result<
        Self,
        LandXMLError,
    >)
        ensures
            made is Err <==> points@.len() == 0,
            made matches Err(error) ==> error == LandXMLError::EmptyPointCloud,
            made matches Ok(model) ==> model@.points == points@ && model@.triangles
                == triangles@,
    {
        if points.len() == 0 {
            return Err(LandXMLError::EmptyPointCloud);
        }
        Ok(TriangulationSource { points, triangles })
    }

    /// A model of points alone.
    pub fn from_points(points: Vec<P>) -> (made: Result<Self, LandXMLError>)
        ensures
            made is Err <==> points@.len() == 0,
            made matches Err(error) ==> error == LandXMLError::EmptyPointCloud,
            made matches Ok(model) ==> model@.points == points@ && model@.triangles.len() == 0,
    {
        if points.len() == 0 {
            return Err(LandXMLError::EmptyPointCloud);
        }
        Ok(TriangulationSource { points, triangles: Vec::new() })
    }

    /// The points, of which there is at least one.
    pub fn points(&self) -> (all: &[P])
        ensures
            all@ == self@.points,
            all@.len() > 0,
    {
        proof {
            use_type_invariant(self);
        }
        self.points.as_slice()
    }

    /// The triangles, or nothing for a model of points alone.
    pub fn triangles(&self) -> (all: Option<&[Triangle]>)
        ensures
            all is None <==> self@.triangles.len() == 0,
            all matches Some(slice) ==> slice@ == self@.triangles,
    {
        if self.triangles.len() == 0 {
            None
        } else {
            Some(self.triangles.as_slice())
        }
    }

    /// The points that a triangle names, or nothing where one of them is
    /// missing.
    pub fn resolve(&self, triangle: &Triangle) -> (corners: Option<(P, P, P)>) where P: Copy
        ensures
            corners == self@.resolve(*triangle),
    {
        if triangle.is_within(self.points.len()) {
            Some(
                (
                    self.points[triangle.vertex1()],
                    self.points[triangle.vertex2()],
                    self.points[triangle.vertex3()],
                ),
            )
        } else {
            None
        }
    }

    /// The corners of every triangle whose points all exist, three points per
    /// triangle, in the order of the triangles.
    pub fn extract_triangle_vertices(&self) -> (vertices: Vec<P>) where P: Copy
        ensures
            vertices@.len() == 3 * self@.resolved_triangles().len(),
            forall|k: int|
                0 <= k < self@.resolved_triangles().len() ==> {
                    &&& vertices@[3 * k] == (#[trigger] self@.resolved_triangles()[k]).0
                    &&& vertices@[3 * k + 1] == self@.resolved_triangles()[k].1
                    &&& vertices@[3 * k + 2] == self@.resolved_triangles()[k].2
                },
    {
        let mut vertices: Vec<P> = Vec::new();
        let ghost resolve = |triangle: Triangle| self@.resolve(triangle);
        let mut i: usize = 0;
        while i < self.triangles.len()
            invariant
                i <= self.triangles@.len(),
                resolve == |triangle: Triangle| self@.resolve(triangle),
                self@.triangles == self.triangles@,
                vertices@.len() == 3 * self.triangles@.take(i as int).filter_map(resolve).len(),
                forall|k: int|
                    0 <= k < self.triangles@.take(i as int).filter_map(resolve).len() ==> {
                        &&& vertices@[3 * k] == (#[trigger] self.triangles@.take(
                            i as int,
                        ).filter_map(resolve)[k]).0
                        &&& vertices@[3 * k + 1] == self.triangles@.take(i as int).filter_map(
                            resolve,
                        )[k].1
                        &&& vertices@[3 * k + 2] == self.triangles@.take(i as int).filter_map(
                            resolve,
                        )[k].2
                    },
            decreases self.triangles@.len() - i,
        {
            proof {
                self.triangles@.lemma_filter_map_take_succ(resolve, i as int);
            }
            match self.resolve(&self.triangles[i]) {
                Some((first, second, third)) => {
                    vertices.push(first);
                    vertices.push(second);
                    vertices.push(third);
                },
                None => {},
            }
            i = i + 1;
        }
        proof {
            assert(self.triangles@.take(i as int) =~= self.triangles@);
        }
        vertices
    }

    /// What `centroid_of` gives for the corners of every triangle whose points
    /// all exist, in the order of the triangles.
    pub fn triangle_centroids<C, FC: Fn(P, P, P) -> C>(&self, centroid_of: &FC) -> (centroids: Vec<
        C,
    >) where P: Copy
        requires
            forall|k: int|
                0 <= k < self@.resolved_triangles().len() ==> call_requires(
                    *centroid_of,
                    #[trigger] self@.resolved_triangles()[k],
                ),
        ensures
            centroids@.len() == self@.resolved_triangles().len(),
            forall|k: int|
                0 <= k < centroids@.len() ==> call_ensures(
                    *centroid_of,
                    self@.resolved_triangles()[k],
                    #[trigger] centroids@[k],
                ),
    {
        let mut centroids: Vec<C> = Vec::new();
        let ghost resolve = |triangle: Triangle| self@.resolve(triangle);
        let mut i: usize = 0;
        while i < self.triangles.len()
            invariant
                i <= self.triangles@.len(),
                resolve == |triangle: Triangle| self@.resolve(triangle),
                self@.triangles == self.triangles@,
                forall|k: int|
                    0 <= k < self@.resolved_triangles().len() ==> call_requires(
                        *centroid_of,
                        #[trigger] self@.resolved_triangles()[k],
                    ),
                centroids@.len() == self.triangles@.take(i as int).filter_map(resolve).len(),
                forall|k: int|
                    0 <= k < centroids@.len() ==> call_ensures(
                        *centroid_of,
                        self.triangles@.take(i as int).filter_map(resolve)[k],
                        #[trigger] centroids@[k],
                    ),
                forall|k: int|
                    0 <= k < centroids@.len() ==> self.triangles@.take(i as int).filter_map(
                        resolve,
                    )[k] == self@.resolved_triangles()[k],
                self.triangles@.take(i as int).filter_map(resolve).len()
                    <= self@.resolved_triangles().len(),
            decreases self.triangles@.len() - i,
        {
            proof {
                self.triangles@.lemma_filter_map_take_succ(resolve, i as int);
                lemma_filter_map_prefix(self.triangles@, resolve, i as int + 1);
            }
            match self.resolve(&self.triangles[i]) {
                Some((first, second, third)) => {
                    proof {
                        let k = self.triangles@.take(i as int).filter_map(resolve).len() as int;
                        assert(self.triangles@.take(i as int + 1).filter_map(resolve)[k] == (
                            first,
                            second,
                            third,
                        ));
                        assert(self@.resolved_triangles()[k] == (first, second, third));
                    }
                    let centroid = centroid_of(first, second, third);
                    centroids.push(centroid);
                },
                None => {},
            }
            i = i + 1;
        }
        proof {
            assert(self.triangles@.take(i as int) =~= self.triangles@);
        }
        centroids
    }

    /// The points without repetitions, where two points are the same point when
    /// `key_of` gives the same key for both. Of points with one key the first
    /// stays, and the points that stay keep their order.
    pub fn extract_unique_points<FK: Fn(P) -> PointKey>(&self, key_of: &FK) -> (kept: Vec<P>) where
        P: Copy,

        requires
            forall|j: int|
                0 <= j < self@.points.len() ==> call_requires(*key_of, (#[trigger] self@.points[j],)),
        ensures
            exists|keys: Seq<PointKey>|
                self@.keyed_by(*key_of, keys) && kept@ == self@.unique_points(keys),
    {
        let mut keys: Vec<PointKey> = Vec::new();
        let mut i: usize = 0;
        while i < self.points.len()
            invariant
                i <= self.points@.len(),
                self@.points == self.points@,
                keys@.len() == i,
                forall|j: int|
                    0 <= j < self@.points.len() ==> call_requires(
                        *key_of,
                        (#[trigger] self@.points[j],),
                    ),
                forall|j: int|
                    0 <= j < i ==> call_ensures(*key_of, (self.points@[j],), #[trigger] keys@[j]),
            decreases self.points@.len() - i,
        {
            let key = key_of(self.points[i]);
            keys.push(key);
            i = i + 1;
        }
        let places = first_occurrence_indices(&keys);
        let mut kept: Vec<P> = Vec::new();
        let mut k: usize = 0;
        while k < places.len()
            invariant
                k <= places@.len(),
                self@.points == self.points@,
                keys@.len() == self.points@.len(),
                places@.len() == first_occurrences(keys@).len(),
                forall|n: int| 0 <= n < places@.len() ==> places@[n] == first_occurrences(keys@)[n],
                forall|n: int| 0 <= n < places@.len() ==> 0 <= #[trigger] places@[n] < keys@.len(),
                kept@.len() == k,
                forall|n: int| 0 <= n < k ==> kept@[n] == self.points@[places@[n] as int],
            decreases places@.len() - k,
        {
            kept.push(self.points[places[k]]);
            k = k + 1;
        }
        proof {
            assert(self@.keyed_by(*key_of, keys@));
            assert(kept@ =~= self@.unique_points(keys@));
        }
        kept
    }

    /// The counts by which the density of the triangulation is judged.
    pub fn quality_assessment(&self) -> (quality: TriangulationQuality)
        requires
            expected_triangle_count(self@.points.len()) <= usize::MAX,
        ensures
            quality.point_count == self@.points.len(),
            quality.triangle_count == self@.triangles.len(),
            quality.expected_triangles == expected_triangle_count(self@.points.len()),
    {
        let point_count = self.points.len();
        let triangle_count = self.triangles.len();
        let expected_triangles = if point_count >= 3 {
            (point_count - 3) + (point_count - 2)
        } else {
            0
        };
        TriangulationQuality { point_count, triangle_count, expected_triangles }
    }

    /// The elevation of the model at `query`, as `interpolates` defines it.
    pub fn interpolate_elevation<
        Q: Copy,
        Z,
        FI: Fn(Q, P, P, P) -> Option<Z>,
        FC: Fn(Q, P, P, P) -> Option<Candidate<Z>>,
        FP: Fn(Q, P) -> Option<Candidate<Z>>,
    >(&self, query: Q, inside: &FI, centroid: &FC, point: &FP) -> (answer: Option<Z>) where
        P: Copy,

        requires
            self@.admits(*inside, *centroid, *point, query),
        ensures
            self@.interpolates(*inside, *centroid, *point, query, answer),
    {
        if self.triangles.len() > 0 {
            let accepted = self.first_accepted(query, inside);
            if accepted.is_some() {
                return accepted;
            }
            self.nearest_centroid(query, centroid)
        } else {
            self.nearest_point(query, point)
        }
    }

    /// The elevation of the model at `query` when only the triangles that
    /// `candidates` names are asked whether the query lies inside, as
    /// `interpolates_among` defines it. Where the candidates rise and leave out
    /// no triangle that would accept the query, this is the elevation that
    /// `interpolate_elevation` gives.
    pub fn interpolate_elevation_among<
        Q: Copy,
        Z,
        FI: Fn(Q, P, P, P) -> Option<Z>,
        FC: Fn(Q, P, P, P) -> Option<Candidate<Z>>,
        FP: Fn(Q, P) -> Option<Candidate<Z>>,
    >(
        &self,
        query: Q,
        candidates: &[usize],
        inside: &FI,
        centroid: &FC,
        point: &FP,
    ) -> (answer: Option<Z>) where P: Copy
        requires
            self@.admits(*inside, *centroid, *point, query),
        ensures
            self@.interpolates_among(*inside, *centroid, *point, query, candidates@, answer),
    {
        if self.triangles.len() > 0 {
            let accepted = self.first_accepted_among(query, candidates, inside);
            if accepted.is_some() {
                return accepted;
            }
            self.nearest_centroid(query, centroid)
        } else {
            self.nearest_point(query, point)
        }
    }

    /// What `inside` gave for the first candidate that it accepted, or nothing
    /// where it accepted none.
    fn first_accepted_among<Q: Copy, Z, FI: Fn(Q, P, P, P) -> Option<Z>>(
        &self,
        query: Q,
        candidates: &[usize],
        inside: &FI,
    ) -> (answer: Option<Z>) where P: Copy
        requires
            forall|j: int|
                0 <= j < self@.triangles.len() ==> (#[trigger] self@.resolve(
                    self@.triangles[j],
                ) matches Some(corners) ==> call_requires(
                    *inside,
                    (query, corners.0, corners.1, corners.2),
                )),
        ensures
            answer is Some ==> exists|k: int|
                self@.candidate_accepted(*inside, query, candidates@, k, answer),
            answer is None ==> forall|m: int|
                0 <= m < candidates@.len() ==> self@.candidate_rejected(
                    *inside,
                    query,
                    candidates@,
                    m,
                ),
    {
        let mut k: usize = 0;
        while k < candidates.len()
            invariant
                k <= candidates@.len(),
                self@.triangles == self.triangles@,
                forall|j: int|
                    0 <= j < self@.triangles.len() ==> (#[trigger] self@.resolve(
                        self@.triangles[j],
                    ) matches Some(corners) ==> call_requires(
                        *inside,
                        (query, corners.0, corners.1, corners.2),
                    )),
                forall|m: int|
                    0 <= m < k ==> self@.candidate_rejected(*inside, query, candidates@, m),
            decreases candidates@.len() - k,
        {
            let at = candidates[k];
            if at < self.triangles.len() {
                match self.resolve(&self.triangles[at]) {
                    Some((first, second, third)) => {
                        let answer = inside(query, first, second, third);
                        if answer.is_some() {
                            proof {
                                assert(self@.candidate_accepted(
                                    *inside,
                                    query,
                                    candidates@,
                                    k as int,
                                    answer,
                                ));
                            }
                            return answer;
                        }
                    },
                    None => {},
                }
            }
            k = k + 1;
        }
        None
    }

    /// What `inside` gave for the first triangle that it accepted, or nothing
    /// where it accepted none.
    fn first_accepted<Q: Copy, Z, FI: Fn(Q, P, P, P) -> Option<Z>>(
        &self,
        query: Q,
        inside: &FI,
    ) -> (answer: Option<Z>) where P: Copy
        requires
            forall|j: int|
                0 <= j < self@.triangles.len() ==> (#[trigger] self@.resolve(
                    self@.triangles[j],
                ) matches Some(corners) ==> call_requires(
                    *inside,
                    (query, corners.0, corners.1, corners.2),
                )),
        ensures
            answer is Some ==> exists|i: int| self@.accepted_at(*inside, query, i, answer),
            answer is None ==> forall|j: int|
                0 <= j < self@.triangles.len() ==> self@.rejected_at(*inside, query, j),
    {
        let mut i: usize = 0;
        while i < self.triangles.len()
            invariant
                i <= self.triangles@.len(),
                self@.triangles == self.triangles@,
                forall|j: int|
                    0 <= j < self@.triangles.len() ==> (#[trigger] self@.resolve(
                        self@.triangles[j],
                    ) matches Some(corners) ==> call_requires(
                        *inside,
                        (query, corners.0, corners.1, corners.2),
                    )),
                forall|j: int| 0 <= j < i ==> self@.rejected_at(*inside, query, j),
            decreases self.triangles@.len() - i,
        {
            match self.resolve(&self.triangles[i]) {
                Some((first, second, third)) => {
                    let answer = inside(query, first, second, third);
                    if answer.is_some() {
                        proof {
                            assert(self@.accepted_at(*inside, query, i as int, answer));
                        }
                        return answer;
                    }
                },
                None => {},
            }
            i = i + 1;
        }
        None
    }

    /// The elevation of the nearest offer that `centroid` makes for a triangle.
    fn nearest_centroid<Q: Copy, Z, FC: Fn(Q, P, P, P) -> Option<Candidate<Z>>>(
        &self,
        query: Q,
        centroid: &FC,
    ) -> (answer: Option<Z>) where P: Copy
        requires
            forall|j: int|
                0 <= j < self@.triangles.len() ==> (#[trigger] self@.resolve(
                    self@.triangles[j],
                ) matches Some(corners) ==> call_requires(
                    *centroid,
                    (query, corners.0, corners.1, corners.2),
                )),
        ensures
            exists|offers: Seq<Option<Candidate<Z>>>|
                self@.centroid_offers(*centroid, query, offers) && nearest_elevation(
                    offers,
                    answer,
                ),
    {
        let mut best: Option<Candidate<Z>> = None;
        let ghost mut offers: Seq<Option<Candidate<Z>>> = Seq::empty();
        let mut i: usize = 0;
        while i < self.triangles.len()
            invariant
                i <= self.triangles@.len(),
                self@.triangles == self.triangles@,
                forall|j: int|
                    0 <= j < self@.triangles.len() ==> (#[trigger] self@.resolve(
                        self@.triangles[j],
                    ) matches Some(corners) ==> call_requires(
                        *centroid,
                        (query, corners.0, corners.1, corners.2),
                    )),
                offers.len() == i,
                forall|j: int|
                    0 <= j < i ==> match self@.resolve(self@.triangles[j]) {
                        Some(corners) => call_ensures(
                            *centroid,
                            (query, corners.0, corners.1, corners.2),
                            #[trigger] offers[j],
                        ),
                        None => offers[j] is None,
                    },
                nearest_offer(offers, best),
            decreases self.triangles@.len() - i,
        {
            let offer = match self.resolve(&self.triangles[i]) {
                Some((first, second, third)) => centroid(query, first, second, third),
                None => None,
            };
            proof {
                lemma_nearest_offer_push(offers, best, offer);
                offers = offers.push(offer);
            }
            best = keep_better(best, offer);
            i = i + 1;
        }
        proof {
            assert(self@.centroid_offers(*centroid, query, offers));
        }
        elevation_of(best, Ghost(offers))
    }

    /// The elevation of the nearest offer that `point` makes for a point.
    fn nearest_point<Q: Copy, Z, FP: Fn(Q, P) -> Option<Candidate<Z>>>(
        &self,
        query: Q,
        point: &FP,
    ) -> (answer: Option<Z>) where P: Copy
        requires
            forall|j: int|
                0 <= j < self@.points.len() ==> call_requires(
                    *point,
                    (query, #[trigger] self@.points[j]),
                ),
        ensures
            exists|offers: Seq<Option<Candidate<Z>>>|
                self@.point_offers(*point, query, offers) && nearest_elevation(offers, answer),
    {
        let mut best: Option<Candidate<Z>> = None;
        let ghost mut offers: Seq<Option<Candidate<Z>>> = Seq::empty();
        let mut i: usize = 0;
        while i < self.points.len()
            invariant
                i <= self.points@.len(),
                self@.points == self.points@,
                forall|j: int|
                    0 <= j < self@.points.len() ==> call_requires(
                        *point,
                        (query, #[trigger] self@.points[j]),
                    ),
                offers.len() == i,
                forall|j: int|
                    0 <= j < i ==> call_ensures(
                        *point,
                        (query, self@.points[j]),
                        #[trigger] offers[j],
                    ),
                nearest_offer(offers, best),
            decreases self.points@.len() - i,
        {
            let offer = point(query, self.points[i]);
            proof {
                lemma_nearest_offer_push(offers, best, offer);
                offers = offers.push(offer);
            }
            best = keep_better(best, offer);
            i = i + 1;
        }
        proof {
            assert(self@.point_offers(*point, query, offers));
        }
        elevation_of(best, Ghost(offers))
    }

    /// A raster of `rows` by `cols` cells in which every cell holds the
    /// elevation of the model at the query that `center` names for the cell.
    pub fn generate_grid<
        Q: Copy,
        Z,
        FQ: Fn(usize, usize) -> Q,
        FI: Fn(Q, P, P, P) -> Option<Z>,
        FC: Fn(Q, P, P, P) -> Option<Candidate<Z>>,
        FP: Fn(Q, P) -> Option<Candidate<Z>>,
    >(
        &self,
        rows: usize,
        cols: usize,
        center: &FQ,
        inside: &FI,
        centroid: &FC,
        point: &FP,
    ) -> (grid: DemGrid<Z>) where P: Copy
        requires
            rows * cols <= usize::MAX,
            forall|row: usize, col: usize|
                row < rows && col < cols ==> call_requires(*center, (row, col)),
            forall|row: usize, col: usize, query: Q|
                row < rows && col < cols && call_ensures(*center, (row, col), query)
                    ==> self@.admits(*inside, *centroid, *point, query),
        ensures
            grid.rows == rows,
            grid.cols == cols,
            grid.epsg_code is None,
            grid.well_formed(),
            forall|row: usize, col: usize|
                row < rows && col < cols ==> exists|query: Q|
                    call_ensures(*center, (row, col), query) && self@.interpolates(
                        *inside,
                        *centroid,
                        *point,
                        query,
                        #[trigger] grid.cell(row as int, col as int),
                    ),
    {
        let sample = |row: usize, col: usize| -> (answer: Option<Z>)
            requires
                row < rows && col < cols,
            ensures
                exists|query: Q|
                    call_ensures(*center, (row, col), query) && self@.interpolates(
                        *inside,
                        *centroid,
                        *point,
                        query,
                        answer,
                    ),
            {
                let query = center(row, col);
                self.interpolate_elevation(query, inside, centroid, point)
            };
        DemGrid::generate(rows, cols, &sample)
    }
}

impl TriangulationQuality {
    /// The triangles that count towards completeness, and the number they are
    /// measured against: the first never exceeds the second, and the second is
    /// zero exactly when no triangle is expected.
    pub fn completeness_parts(&self) -> (parts: (usize, usize))
        ensures
            parts.1 == self.expected_triangles,
            parts.0 == if self.triangle_count <= self.expected_triangles {
                self.triangle_count
            } else {
                self.expected_triangles
            },
            parts.0 <= parts.1,
    {
        if self.triangle_count <= self.expected_triangles {
            (self.triangle_count, self.expected_triangles)
        } else {
            (self.expected_triangles, self.expected_triangles)
        }
    }
}

/// A prefix of a sequence yields a prefix of what the whole sequence yields.
proof fn lemma_filter_map_prefix<A, B>(items: Seq<A>, f: spec_fn(A) -> Option<B>, n: int)
    requires
        0 <= n <= items.len(),
    ensures
        items.take(n).filter_map(f).len() <= items.filter_map(f).len(),
        forall|k: int|
            0 <= k < items.take(n).filter_map(f).len() ==> items.take(n).filter_map(f)[k]
                == items.filter_map(f)[k],
    decreases items.len() - n,
{
    if n == items.len() {
        assert(items.take(n) =~= items);
    } else {
        items.lemma_filter_map_take_succ(f, n);
        lemma_filter_map_prefix(items, f, n + 1);
    }
}

/// Decides `better_offer`.
fn keep_better<Z>(best: Option<Candidate<Z>>, offer: Option<Candidate<Z>>) -> (kept: Option<
    Candidate<Z>,
>)
    ensures
        kept == better_offer(best, offer),
{
    match offer {
        None => best,
        Some(new) => match best {
            None => Some(new),
            Some(held) => if new.distance < held.distance {
                Some(new)
            } else {
                Some(held)
            },
        },
    }
}

/// The elevation of the best offer.
fn elevation_of<Z>(best: Option<Candidate<Z>>, Ghost(offers): Ghost<Seq<Option<Candidate<Z>>>>) -> (answer:
    Option<Z>)
    requires
        nearest_offer(offers, best),
    ensures
        nearest_elevation(offers, answer),
{
    match best {
        Some(candidate) => {
            proof {
                let i = choose|i: int| is_nearest(offers, i) && best == offers[i];
                assert(is_nearest(offers, i) && Some(candidate.elevation) == Some(
                    offers[i].unwrap().elevation,
                ));
            }
            Some(candidate.elevation)
        },
        None => None,
    }
}

} // verus!
