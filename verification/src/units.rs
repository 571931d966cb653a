use vstd::prelude::*;

verus! {

/// The unit of lengths.
#[derive(Debug, Clone, Copy, PartialEq, Eq, Structural)]
pub enum LinearUnit {
    Meter,
    Foot,
    UsSurveyFoot,
}

/// The unit of angles.
#[derive(Debug, Clone, Copy, PartialEq, Eq, Structural)]
pub enum AngularUnit {
    DecimalDegrees,
    Gradian,
    Radian,
}

/// The unit of areas.
#[derive(Debug, Clone, Copy, PartialEq, Eq, Structural)]
pub enum AreaUnit {
    SquareMeter,
    SquareFoot,
    Hectare,
    Acre,
}

/// The unit of volumes.
#[derive(Debug, Clone, Copy, PartialEq, Eq, Structural)]
pub enum VolumeUnit {
    CubicMeter,
    CubicFoot,
    CubicYard,
}

/// The units in which a document states its quantities.
#[derive(Debug, Clone, Copy, PartialEq, Eq, Structural)]
pub struct Units {
    pub linear_unit: LinearUnit,
    pub angular_unit: AngularUnit,
    pub area_unit: AreaUnit,
    pub volume_unit: VolumeUnit,
}

impl Default for LinearUnit {
    fn default() -> (unit: Self)
        ensures
            unit == LinearUnit::Meter,
    {
        LinearUnit::Meter
    }
}

impl Default for AngularUnit {
    fn default() -> (unit: Self)
        ensures
            unit == AngularUnit::DecimalDegrees,
    {
        AngularUnit::DecimalDegrees
    }
}

impl Default for AreaUnit {
    fn default() -> (unit: Self)
        ensures
            unit == AreaUnit::SquareMeter,
    {
        AreaUnit::SquareMeter
    }
}

impl Default for VolumeUnit {
    fn default() -> (unit: Self)
        ensures
            unit == VolumeUnit::CubicMeter,
    {
        VolumeUnit::CubicMeter
    }
}

impl Default for Units {
    /// Metres, decimal degrees, square metres and cubic metres.
    fn default() -> (units: Self)
        ensures
            units == (Units {
                linear_unit: LinearUnit::Meter,
                angular_unit: AngularUnit::DecimalDegrees,
                area_unit: AreaUnit::SquareMeter,
                volume_unit: VolumeUnit::CubicMeter,
            }),
    {
        Units {
            linear_unit: LinearUnit::Meter,
            angular_unit: AngularUnit::DecimalDegrees,
            area_unit: AreaUnit::SquareMeter,
            volume_unit: VolumeUnit::CubicMeter,
        }
    }
}

} // verus!
