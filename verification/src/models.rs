use vstd::prelude::*;

use crate::surfaces::Triangle;
use crate::text::{contains, holds_text, same_text};

verus! {

/// The coordinate system of a document, as plain LandXML states it.
#[derive(Debug, Clone, PartialEq, Eq)]
pub struct CoordinateSystem {
    /// The name of the coordinate system.
    pub name: String,
    /// Its EPSG code, as the document writes it.
    pub epsg_code: Option<String>,
    /// Its PROJ.4 definition.
    pub proj4_string: Option<String>,
}

/// What a surface represents.
#[derive(Debug, Clone, PartialEq, Eq)]
pub enum SurfaceType {
    /// The ground as it is.
    ExistingGround,
    /// The ground as it is designed.
    DesignGround,
    /// Something else, under the description that the document gives.
    Other(String),
}

impl SurfaceType {
    /// Whether `kind` is what the description `text` stands for.
    pub open spec fn described_by(text: Seq<char>, kind: SurfaceType) -> bool {
        if text == "ExistingGround"@ {
            kind == SurfaceType::ExistingGround
        } else if text == "DesignGround"@ {
            kind == SurfaceType::DesignGround
        } else {
            kind matches SurfaceType::Other(other) && other@ == text
        }
    }

    /// What the description of a surface stands for.
    pub fn from_description(text: &str) -> (kind: Self)
        ensures
            Self::described_by(text@, kind),
    {
        if same_text(text, "ExistingGround") {
            SurfaceType::ExistingGround
        } else if same_text(text, "DesignGround") {
            SurfaceType::DesignGround
        } else {
            SurfaceType::Other(String::from_str(text))
        }
    }

    /// The description that stands for the kind of surface.
    pub open spec fn description(self) -> Seq<char> {
        match self {
            SurfaceType::ExistingGround => "ExistingGround"@,
            SurfaceType::DesignGround => "DesignGround"@,
            SurfaceType::Other(other) => other@,
        }
    }

    /// The description that stands for the kind of surface.
    pub fn as_str(&self) -> (text: &str)
        ensures
            text@ == self.description(),
    {
        match self {
            SurfaceType::ExistingGround => "ExistingGround",
            SurfaceType::DesignGround => "DesignGround",
            SurfaceType::Other(other) => other.as_str(),
        }
    }
}

/// What a surface is called and what it represents.
#[derive(Debug, Clone, PartialEq, Eq)]
pub struct SurfaceHeading {
    /// The name of the surface.
    pub name: String,
    /// What the surface represents.
    pub surface_type: SurfaceType,
}

impl SurfaceHeading {
    /// Whether a surface passes a filter: it does when the description of its
    /// kind or its name holds the filter.
    pub open spec fn passes(self, filter: Seq<char>) -> bool {
        holds_text(self.surface_type.description(), filter) || holds_text(self.name@, filter)
    }

    /// Decides `passes`.
    pub fn matches_filter(&self, filter: &str) -> (passed: bool)
        ensures
            passed == self.passes(filter@),
    {
        contains(self.surface_type.as_str(), filter) || contains(self.name.as_str(), filter)
    }
}

/// Whether the surface at `i` is exported: every surface is when all are asked
/// for; else those that pass the filter are; without a filter the first is.
pub open spec fn exported(
    headings: Seq<SurfaceHeading>,
    all_surfaces: bool,
    filter: Option<Seq<char>>,
    i: int,
) -> bool {
    all_surfaces || match filter {
        Some(text) => headings[i].passes(text),
        None => i == 0,
    }
}

/// The places of the surfaces that are exported, in rising order.
pub open spec fn export_targets(
    headings: Seq<SurfaceHeading>,
    all_surfaces: bool,
    filter: Option<Seq<char>>,
) -> Seq<int> {
    Seq::new(headings.len(), |i: int| i).filter(
        |i: int| exported(headings, all_surfaces, filter, i),
    )
}

/// The views of an optional text.
pub open spec fn filter_text(filter: Option<&str>) -> Option<Seq<char>> {
    match filter {
        Some(text) => Some(text@),
        None => None,
    }
}

/// Picks the surfaces that are exported.
pub fn select_export_targets(
    headings: &Vec<SurfaceHeading>,
    all_surfaces: bool,
    filter: Option<&str>,
) -> (targets: Vec<usize>)
    ensures
        targets@.len() == export_targets(headings@, all_surfaces, filter_text(filter)).len(),
        forall|n: int|
            0 <= n < targets@.len() ==> targets@[n] == export_targets(
                headings@,
                all_surfaces,
                filter_text(filter),
            )[n],
        forall|n: int| 0 <= n < targets@.len() ==> #[trigger] targets@[n] < headings@.len(),
{
    let mut targets: Vec<usize> = Vec::new();
    let ghost places = Seq::new(headings@.len(), |i: int| i);
    let ghost chosen = |i: int| exported(headings@, all_surfaces, filter_text(filter), i);
    let mut i: usize = 0;
    while i < headings.len()
        invariant
            i <= headings@.len(),
            places == Seq::new(headings@.len(), |i: int| i),
            chosen == |i: int| exported(headings@, all_surfaces, filter_text(filter), i),
            targets@.len() == places.take(i as int).filter(chosen).len(),
            forall|n: int|
                0 <= n < targets@.len() ==> #[trigger] targets@[n] == places.take(i as int).filter(
                    chosen,
                )[n],
            forall|n: int| 0 <= n < targets@.len() ==> #[trigger] targets@[n] < i,
        decreases headings@.len() - i,
    {
        let picked = all_surfaces || match filter {
            Some(text) => headings[i].matches_filter(text),
            None => i == 0,
        };
        proof {
            let before = places.take(i as int);
            assert(places.take(i as int + 1) =~= before.push(i as int));
            before.lemma_filter_push(i as int, chosen);
        }
        if picked {
            targets.push(i);
        }
        i = i + 1;
    }
    proof {
        assert(places.take(i as int) =~= places);
    }
    targets
}

/// A face of a surface as a document writes it: three indices into the points
/// of the surface, counted from zero.
#[derive(Debug, Clone, Copy, PartialEq, Eq, Structural)]
pub struct Face {
    pub p1: usize,
    pub p2: usize,
    pub p3: usize,
}

impl Face {
    /// The face whose corners a document numbers `first`, `second` and `third`
    /// when it counts the points from one. A document that numbers a corner
    /// zero names no face.
    pub fn from_one_based(first: usize, second: usize, third: usize) -> (face: Option<Self>)
        ensures
            face is Some <==> first >= 1 && second >= 1 && third >= 1,
            face matches Some(made) ==> made.p1 == first - 1 && made.p2 == second - 1 && made.p3
                == third - 1,
    {
        if first >= 1 && second >= 1 && third >= 1 {
            Some(Face { p1: first - 1, p2: second - 1, p3: third - 1 })
        } else {
            None
        }
    }

    /// The face as a triangle of a surface model.
    pub fn to_triangle(&self) -> (triangle: Triangle)
        ensures
            triangle.vertices[0] == self.p1,
            triangle.vertices[1] == self.p2,
            triangle.vertices[2] == self.p3,
    {
        Triangle::new(self.p1, self.p2, self.p3)
    }
}

} // verus!
