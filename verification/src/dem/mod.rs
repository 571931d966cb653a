//! From a triangulated surface to a raster of elevations.

pub mod geotiff_writer;
pub mod grid;
pub mod properties;
pub mod triangulation;
pub mod unique;

pub use geotiff_writer::{CompressionType, GeoTiffOptions, GeoTiffWriter};
pub use grid::{DemGrid, GridStatistics};
pub use triangulation::{Candidate, TriangulationQuality, TriangulationSource};
