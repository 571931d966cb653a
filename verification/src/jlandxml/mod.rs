//! What J-LandXML adds to LandXML: the Japanese coordinate systems and the
//! properties that mark a document as J-LandXML.

pub mod coordinate_systems;
pub mod models;
pub mod parser;

pub use coordinate_systems::{
    CoordinateSystemMapper, CoordinateSystemValidator, DeclaredOffset, HorizontalDatum,
    JapanPlaneCoordinateSystem, ValidationWarning, VerticalDatum,
};
pub use models::JLandXmlProperty;
pub use parser::{CoordinateSystemNameParser, ParsingStats};

use vstd::prelude::*;

use crate::error::LandXMLError;
use crate::text::{contains, holds_text};

verus! {

/// The short way to the coordinate systems.
pub struct JLandXml;

impl JLandXml {
    /// The zone that a horizontal coordinate system name cites; nothing for a
    /// name that cites none.
    pub fn parse_coordinate_system_name(name: &str) -> (found: Result<
        Option<JapanPlaneCoordinateSystem>,
        LandXMLError,
    >)
        ensures
            CoordinateSystemMapper::reads(name@, found),
            found matches Ok(zone) ==> zone == CoordinateSystemMapper::zone_cited(name@),
            found is Err ==> CoordinateSystemMapper::zone_cited(name@) is None,
    {
        CoordinateSystemNameParser::parse(name)
    }

    /// The version of J-LandXML that an application criterion declares: 1.6
    /// where the criterion holds `Ver1.6` or `1.6`, and none otherwise.
    pub fn version_of_criterion(criterion: &str) -> (version: Option<String>)
        ensures
            version is Some <==> holds_text(criterion@, "Ver1.6"@) || holds_text(
                criterion@,
                "1.6"@,
            ),
            version matches Some(number) ==> number@ == "1.6"@,
    {
        if contains(criterion, "Ver1.6") || contains(criterion, "1.6") {
            Some(String::from_str("1.6"))
        } else {
            None
        }
    }

    /// Whether a document is J-LandXML: it is when it declares a version of
    /// J-LandXML or an application criterion, or when its coordinate system has
    /// a horizontal coordinate system name that is not empty.
    pub fn is_j_landxml(
        has_version: bool,
        has_criterion: bool,
        coordinate_system_name: Option<&str>,
    ) -> (judged: bool)
        ensures
            judged == (has_version || has_criterion || (coordinate_system_name matches Some(
                name,
            ) && name@.len() > 0)),
    {
        has_version || has_criterion || match coordinate_system_name {
            Some(name) => name.unicode_len() > 0,
            None => false,
        }
    }

    /// Whether a document holds up as J-LandXML: a coordinate system whose
    /// horizontal coordinate system name cites no zone rules it out; otherwise
    /// the document holds up exactly when it is J-LandXML.
    pub fn validate_j_landxml(
        has_version: bool,
        has_criterion: bool,
        coordinate_system_name: Option<&str>,
    ) -> (valid: bool)
        ensures
            valid == match coordinate_system_name {
                Some(name) => CoordinateSystemMapper::zone_cited(name@) is Some && (has_version
                    || has_criterion || name@.len() > 0),
                None => has_version || has_criterion,
            },
    {
        match coordinate_system_name {
            Some(name) => {
                if !CoordinateSystemNameParser::validate(name) {
                    return false;
                }
            },
            None => {},
        }
        if has_version || has_criterion {
            return true;
        }
        Self::is_j_landxml(has_version, has_criterion, coordinate_system_name)
    }

    /// The EPSG code of a zone.
    pub fn get_epsg_code(zone: JapanPlaneCoordinateSystem) -> (code: u32)
        ensures
            code == 6668 + zone.number(),
    {
        zone.epsg_code()
    }

    /// The region that a zone covers.
    pub fn get_zone_description(zone: JapanPlaneCoordinateSystem) -> (text: &'static str)
        ensures
            text@ == zone.region(),
    {
        zone.description()
    }
}

} // verus!
