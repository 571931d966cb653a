use vstd::prelude::*;

use crate::text::{decimal, decimal_string, joined};

verus! {

/// How the samples of a GeoTIFF are compressed.
#[derive(Debug, Clone, Copy, PartialEq, Eq, Structural)]
pub enum CompressionType {
    /// No compression at all.
    Uncompressed,
    Deflate,
    Lzw,
    Jpeg,
}

/// How a GeoTIFF is laid out on disk.
#[derive(Debug, Clone, Copy, PartialEq, Eq)]
pub struct GeoTiffOptions {
    /// The compression of the samples.
    pub compression: CompressionType,
    /// Whether the samples are stored in tiles rather than in strips.
    pub tiled: bool,
    /// The side of a tile, in samples.
    pub tile_size: Option<usize>,
    /// The predictor that precedes compression: 1 for none, 2 for horizontal
    /// differencing, 3 for the one meant for real numbers.
    pub predictor: Option<u8>,
    /// Whether the file may grow beyond four gigabytes.
    pub big_tiff: bool,
}

impl CompressionType {
    /// The value under which the raster backend knows the compression.
    pub open spec fn value(self) -> Seq<char> {
        match self {
            CompressionType::Uncompressed => "NONE"@,
            CompressionType::Deflate => "DEFLATE"@,
            CompressionType::Lzw => "LZW"@,
            CompressionType::Jpeg => "JPEG"@,
        }
    }

    /// The key and the value by which the raster backend is told the
    /// compression.
    pub fn to_gdal_option(&self) -> (option: (&'static str, &'static str))
        ensures
            option.0@ == "COMPRESS"@,
            option.1@ == self.value(),
    {
        match self {
            CompressionType::Uncompressed => ("COMPRESS", "NONE"),
            CompressionType::Deflate => ("COMPRESS", "DEFLATE"),
            CompressionType::Lzw => ("COMPRESS", "LZW"),
            CompressionType::Jpeg => ("COMPRESS", "JPEG"),
        }
    }
}

impl Default for GeoTiffOptions {
    /// Deflate with the predictor for real numbers, in tiles of 256 samples,
    /// and no more than four gigabytes.
    fn default() -> (options: Self)
        ensures
            options.compression == CompressionType::Deflate,
            options.tiled,
            options.tile_size == Some(256usize),
            options.predictor == Some(3u8),
            !options.big_tiff,
    {
        GeoTiffOptions {
            compression: CompressionType::Deflate,
            tiled: true,
            tile_size: Some(256),
            predictor: Some(3),
            big_tiff: false,
        }
    }
}

impl GeoTiffOptions {
    /// The creation options that tell the raster backend of this layout, each
    /// written as `KEY=VALUE`: the compression; the predictor, where one is set;
    /// for a tiled file `TILED=YES` and, where a tile size is set, the width and
    /// the height of a tile; `BIGTIFF=YES` for a file that may grow large.
    pub open spec fn creation_options(self) -> Seq<Seq<char>> {
        let compression = seq!["COMPRESS="@ + self.compression.value()];
        let predictor = match self.predictor {
            Some(kind) => seq!["PREDICTOR="@ + decimal(kind as nat)],
            None => Seq::empty(),
        };
        let tiles = if self.tiled {
            match self.tile_size {
                Some(side) => seq![
                    "TILED=YES"@,
                    "BLOCKXSIZE="@ + decimal(side as nat),
                    "BLOCKYSIZE="@ + decimal(side as nat),
                ],
                None => seq!["TILED=YES"@],
            }
        } else {
            Seq::empty()
        };
        let size = if self.big_tiff {
            seq!["BIGTIFF=YES"@]
        } else {
            Seq::empty()
        };
        compression + predictor + tiles + size
    }
}

/// Writes rasters as GeoTIFF.
#[derive(Debug, Clone, Copy)]
pub struct GeoTiffWriter;

impl GeoTiffWriter {
    /// A writer. It holds nothing.
    pub fn new() -> Self {
        GeoTiffWriter
    }

    /// The creation options for a layout, in the order in which the raster
    /// backend is handed them.
    pub fn creation_options(&self, options: &GeoTiffOptions) -> (list: Vec<String>)
        ensures
            list.deep_view() == options.creation_options(),
    {
        let mut list: Vec<String> = Vec::new();
        let (key, value) = options.compression.to_gdal_option();
        let mut compression = joined(key, "=");
        compression.append(value);
        proof {
            reveal_strlit("COMPRESS");
            reveal_strlit("=");
            reveal_strlit("COMPRESS=");
            assert(compression@ =~= "COMPRESS="@ + options.compression.value());
        }
        list.push(compression);
        match options.predictor {
            Some(kind) => {
                let written = decimal_string(kind as u64);
                list.push(joined("PREDICTOR=", written.as_str()));
            },
            None => {},
        }
        if options.tiled {
            list.push(String::from_str("TILED=YES"));
            match options.tile_size {
                Some(side) => {
                    let written = decimal_string(side as u64);
                    list.push(joined("BLOCKXSIZE=", written.as_str()));
                    list.push(joined("BLOCKYSIZE=", written.as_str()));
                },
                None => {},
            }
        }
        if options.big_tiff {
            list.push(String::from_str("BIGTIFF=YES"));
        }
        proof {
            assert(list.deep_view() =~= options.creation_options());
        }
        list
    }
}

impl Default for GeoTiffWriter {
    fn default() -> Self {
        GeoTiffWriter
    }
}

} // verus!
