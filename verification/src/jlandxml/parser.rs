use vstd::prelude::*;

use crate::error::LandXMLError;
use crate::jlandxml::coordinate_systems::{CoordinateSystemMapper, JapanPlaneCoordinateSystem};
use crate::text::{decimal, decimal_string};

verus! {

/// Reads horizontal coordinate system names such as `9(X,Y)`.
pub struct CoordinateSystemNameParser;

impl CoordinateSystemNameParser {
    /// What `get_info` writes about a zone: the zone written out, a dash, and
    /// the region that it covers.
    pub open spec fn info(zone: JapanPlaneCoordinateSystem) -> Seq<char> {
        zone.label() + " - "@ + zone.region()
    }

    /// The zone that a name cites; nothing for a name that cites none.
    pub fn parse(name: &str) -> (found: Result<Option<JapanPlaneCoordinateSystem>, LandXMLError>)
        ensures
            CoordinateSystemMapper::reads(name@, found),
            found matches Ok(zone) ==> zone == CoordinateSystemMapper::zone_cited(name@),
            found is Err ==> CoordinateSystemMapper::zone_cited(name@) is None,
    {
        CoordinateSystemMapper::parse_horizontal_coordinate_system_name(name)
    }

    /// Whether a name cites a zone.
    pub fn validate(name: &str) -> (valid: bool)
        ensures
            valid == CoordinateSystemMapper::zone_cited(name@) is Some,
    {
        match Self::parse(name) {
            Ok(Some(_)) => true,
            _ => false,
        }
    }

    /// A line about the zone that a name cites; nothing for a name that cites
    /// none.
    pub fn get_info(name: &str) -> (line: Result<Option<String>, LandXMLError>)
        ensures
            line is Err <==> CoordinateSystemMapper::unreadable(name@),
            line matches Err(error) ==> error is ParseError,
            line matches Ok(text) ==> match CoordinateSystemMapper::zone_cited(name@) {
                Some(zone) => text matches Some(written) && written@ == Self::info(zone),
                None => text is None,
            },
    {
        match Self::parse(name) {
            Ok(Some(zone)) => {
                let mut text = zone.to_string();
                text.append(" - ");
                text.append(zone.description());
                Ok(Some(text))
            },
            Ok(None) => Ok(None),
            Err(error) => Err(error),
        }
    }
}

/// What reading a document brought to light.
#[derive(Debug, Clone)]
pub struct ParsingStats {
    /// Whether the document is J-LandXML.
    pub is_j_landxml: bool,
    /// The version of J-LandXML that the document declares.
    pub j_landxml_version: Option<String>,
    /// The zone that the document's coordinate system cites.
    pub plane_coordinate_zone: Option<JapanPlaneCoordinateSystem>,
    /// The EPSG code of that zone.
    pub epsg_code: Option<u32>,
    /// The number of alignments in the document.
    pub alignment_count: usize,
}

impl ParsingStats {
    /// The statistics as they are printed: a heading, then one line for each
    /// thing that is known, each line ended by a line feed.
    pub open spec fn report(self) -> Seq<char> {
        "=== J-LandXML Parsing Statistics ===\n"@ + (if self.is_j_landxml {
            "J-LandXML: Yes\n"@
        } else {
            "J-LandXML: No\n"@
        }) + (match self.j_landxml_version {
            Some(version) => "Version: "@ + version@ + "\n"@,
            None => Seq::empty(),
        }) + (match self.plane_coordinate_zone {
            Some(zone) => "Coordinate System: "@ + zone.label() + "\n"@,
            None => Seq::empty(),
        }) + (match self.epsg_code {
            Some(code) => "EPSG Code: "@ + decimal(code as nat) + "\n"@,
            None => Seq::empty(),
        }) + "Alignments: "@ + decimal(self.alignment_count as nat) + "\n"@
    }

    /// The statistics as they are printed.
    pub fn to_string(&self) -> (text: String)
        ensures
            text@ == self.report(),
    {
        let mut text = String::from_str("=== J-LandXML Parsing Statistics ===\n");
        if self.is_j_landxml {
            text.append("J-LandXML: Yes\n");
        } else {
            text.append("J-LandXML: No\n");
        }
        let ghost heading = text@;
        match &self.j_landxml_version {
            Some(version) => {
                text.append("Version: ");
                text.append(version.as_str());
                text.append("\n");
                assert(text@ =~= heading + ("Version: "@ + version@ + "\n"@));
            },
            None => {
                assert(text@ =~= heading + Seq::<char>::empty());
            },
        }
        let ghost versioned = text@;
        match &self.plane_coordinate_zone {
            Some(zone) => {
                text.append("Coordinate System: ");
                let label = zone.to_string();
                text.append(label.as_str());
                text.append("\n");
                assert(text@ =~= versioned + ("Coordinate System: "@ + zone.label() + "\n"@));
            },
            None => {
                assert(text@ =~= versioned + Seq::<char>::empty());
            },
        }
        let ghost zoned = text@;
        match self.epsg_code {
            Some(code) => {
                text.append("EPSG Code: ");
                let written = decimal_string(code as u64);
                text.append(written.as_str());
                text.append("\n");
                assert(text@ =~= zoned + ("EPSG Code: "@ + decimal(code as nat) + "\n"@));
            },
            None => {
                assert(text@ =~= zoned + Seq::<char>::empty());
            },
        }
        let ghost coded = text@;
        text.append("Alignments: ");
        let written = decimal_string(self.alignment_count as u64);
        text.append(written.as_str());
        text.append("\n");
        assert(text@ =~= coded + "Alignments: "@ + decimal(self.alignment_count as nat) + "\n"@);
        text
    }
}

} // verus!
