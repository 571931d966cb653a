use vstd::prelude::*;

verus! {

/// A face of a triangulated surface: three indices into the surface's points.
///
/// Nothing is promised of the indices. A triangle that names a point which does
/// not exist is skipped wherever it is met.
#[derive(Debug, Clone, Copy, PartialEq, Eq)]
pub struct Triangle {
    pub vertices: [usize; 3],
}

impl Triangle {
    /// Whether all three indices name one of `count` points.
    pub open spec fn within(self, count: nat) -> bool {
        self.vertices[0] < count && self.vertices[1] < count && self.vertices[2] < count
    }

    /// The triangle between the points at three indices.
    pub fn new(first: usize, second: usize, third: usize) -> (t: Self)
        ensures
            t.vertices[0] == first,
            t.vertices[1] == second,
            t.vertices[2] == third,
    {
        Triangle { vertices: [first, second, third] }
    }

    /// The index of the first corner.
    pub fn vertex1(&self) -> (index: usize)
        ensures
            index == self.vertices[0],
    {
        self.vertices[0]
    }

    /// The index of the second corner.
    pub fn vertex2(&self) -> (index: usize)
        ensures
            index == self.vertices[1],
    {
        self.vertices[1]
    }

    /// The index of the third corner.
    pub fn vertex3(&self) -> (index: usize)
        ensures
            index == self.vertices[2],
    {
        self.vertices[2]
    }

    /// Decides `within` for a point count that fits the machine.
    pub fn is_within(&self, count: usize) -> (inside: bool)
        ensures
            inside == self.within(count as nat),
    {
        self.vertices[0] < count && self.vertices[1] < count && self.vertices[2] < count
    }
}

} // verus!
