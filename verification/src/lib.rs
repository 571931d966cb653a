//! Conversion of surveyed surfaces into regular elevation grids, together with
//! the catalogue of Japanese plane rectangular coordinate systems.
//!
//! The crate never touches a coordinate itself. Everything that needs real
//! arithmetic (barycentric weights, distances, cell centres) is handed in by the
//! caller as a sampling kernel; the crate decides which points a triangle names,
//! which triangle answers a query, which offer is nearest and where a sample
//! lands in the raster. In the same way it never opens a file: a reader hands
//! it the events of a document and is told what to do about each.

pub mod alignments;
pub mod application;
pub mod dem;
pub mod error;
pub mod jlandxml;
pub mod models;
pub mod parser;
pub mod project;
pub mod surfaces;
pub mod text;
pub mod units;

pub use crate::alignments::{RotationDirection, SpiralType};
pub use crate::application::Application;
pub use crate::dem::{
    Candidate, CompressionType, DemGrid, GeoTiffOptions, GeoTiffWriter, GridStatistics,
    TriangulationQuality, TriangulationSource,
};
pub use crate::error::LandXMLError;
pub use crate::jlandxml::{
    CoordinateSystemMapper, CoordinateSystemNameParser, CoordinateSystemValidator,
    DeclaredOffset, HorizontalDatum, JLandXml, JLandXmlProperty, JapanPlaneCoordinateSystem,
    ParsingStats, ValidationWarning, VerticalDatum,
};
pub use crate::models::{CoordinateSystem, Face, SurfaceHeading, SurfaceType};
pub use crate::project::Project;
pub use crate::surfaces::Triangle;
pub use crate::units::{AngularUnit, AreaUnit, LinearUnit, Units, VolumeUnit};
