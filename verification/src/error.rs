use vstd::prelude::*;

use crate::text::{decimal, decimal_string, joined};

verus! {

/// Everything that the library refuses.
#[derive(Debug, Clone, PartialEq, Eq)]
pub enum LandXMLError {
    /// The document is not LandXML.
    InvalidFormat { message: String },
    /// A zone number or a datum name that the catalogue does not hold.
    InvalidCoordinateSystem(String),
    /// A cell outside the raster was addressed.
    InvalidGridIndex { row: usize, col: usize, max_row: usize, max_col: usize },
    /// The number of samples differs from rows times columns.
    InvalidGridSize { expected: usize, actual: usize },
    /// A surface model was asked for without a single point.
    EmptyPointCloud,
    /// A text could not be read as what it stands for.
    ParseError(String),
}

impl LandXMLError {
    /// The error in words.
    pub open spec fn text(self) -> Seq<char> {
        match self {
            LandXMLError::InvalidFormat { message } => "Invalid LandXML format: "@ + message@,
            LandXMLError::InvalidCoordinateSystem(reason) => "Invalid coordinate system: "@
                + reason@,
            LandXMLError::InvalidGridIndex { row, col, max_row, max_col } => "Invalid grid index: row "@
                + decimal(row as nat) + ", col "@ + decimal(col as nat) + " (max: "@ + decimal(
                max_row as nat,
            ) + ", "@ + decimal(max_col as nat) + ")"@,
            LandXMLError::InvalidGridSize { expected, actual } => "Invalid grid size: expected "@
                + decimal(expected as nat) + ", got "@ + decimal(actual as nat),
            LandXMLError::EmptyPointCloud => "Empty point cloud"@,
            LandXMLError::ParseError(reason) => "Parse error: "@ + reason@,
        }
    }

    /// The error in words.
    pub fn to_string(&self) -> (text: String)
        ensures
            text@ == self.text(),
    {
        match self {
            LandXMLError::InvalidFormat { message } => joined(
                "Invalid LandXML format: ",
                message.as_str(),
            ),
            LandXMLError::InvalidCoordinateSystem(reason) => joined(
                "Invalid coordinate system: ",
                reason.as_str(),
            ),
            LandXMLError::InvalidGridIndex { row, col, max_row, max_col } => {
                let mut text = String::from_str("Invalid grid index: row ");
                text.append(decimal_string(*row as u64).as_str());
                text.append(", col ");
                text.append(decimal_string(*col as u64).as_str());
                text.append(" (max: ");
                text.append(decimal_string(*max_row as u64).as_str());
                text.append(", ");
                text.append(decimal_string(*max_col as u64).as_str());
                text.append(")");
                text
            },
            LandXMLError::InvalidGridSize { expected, actual } => {
                let mut text = String::from_str("Invalid grid size: expected ");
                text.append(decimal_string(*expected as u64).as_str());
                text.append(", got ");
                text.append(decimal_string(*actual as u64).as_str());
                text
            },
            LandXMLError::EmptyPointCloud => String::from_str("Empty point cloud"),
            LandXMLError::ParseError(reason) => joined("Parse error: ", reason.as_str()),
        }
    }
}

} // verus!
