use vstd::prelude::*;

use crate::text::{decimal, decimal_string};

verus! {

/// A labelled value that J-LandXML attaches to a feature.
#[derive(Debug, Clone, PartialEq, Eq)]
pub struct JLandXmlProperty {
    /// What the value is about.
    pub label: String,
    /// The value, as text.
    pub value: String,
}

impl JLandXmlProperty {
    /// A property with the given label and value.
    pub fn new(label: &str, value: &str) -> (property: Self)
        ensures
            property.label@ == label@,
            property.value@ == value@,
    {
        JLandXmlProperty { label: String::from_str(label), value: String::from_str(value) }
    }

    /// The phase that a project is in.
    pub fn project_phase(phase: &str) -> (property: Self)
        ensures
            property.label@ == "projectPhase"@,
            property.value@ == phase@,
    {
        Self::new("projectPhase", phase)
    }

    /// The standard that an application follows.
    pub fn application_criterion(criterion: &str) -> (property: Self)
        ensures
            property.label@ == "applicationCriterion"@,
            property.value@ == criterion@,
    {
        Self::new("applicationCriterion", criterion)
    }

    /// The class of a road.
    pub fn road_classification(classification: &str) -> (property: Self)
        ensures
            property.label@ == "classification"@,
            property.value@ == classification@,
    {
        Self::new("classification", classification)
    }

    /// The traffic that a road carries, written in decimal.
    pub fn traffic_volume(volume: u32) -> (property: Self)
        ensures
            property.label@ == "trafficVolume"@,
            property.value@ == decimal(volume as nat),
    {
        let written = decimal_string(volume as u64);
        Self::new("trafficVolume", written.as_str())
    }
}

} // verus!
