use vstd::prelude::*;

verus! {

/// The sense in which a curve or a spiral turns.
#[derive(Debug, Clone, Copy, PartialEq, Eq, Structural)]
pub enum RotationDirection {
    /// Clockwise.
    Cw,
    /// Counter-clockwise.
    Ccw,
}

/// The law by which the curvature of a transition curve changes.
#[derive(Debug, Clone, PartialEq, Eq)]
pub enum SpiralType {
    /// Clothoid, the spiral of road design.
    Clothoid,
    Bloss,
    Cubic,
    CubicParabola,
    Sinusoid,
    Cosinoid,
    BiquadraticParabola,
    Radioid,
    /// A spiral of another kind, under its name.
    Other(String),
}

impl Default for SpiralType {
    fn default() -> (kind: Self)
        ensures
            kind == SpiralType::Clothoid,
    {
        SpiralType::Clothoid
    }
}

} // verus!
