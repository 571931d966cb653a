use jp_landxml::dem::geotiff_writer::{CompressionType, GeoTiffOptions, GeoTiffWriter};
use jp_landxml::models::select_export_targets;
use jp_landxml::text::{decimal_string, joined, same_text};
use jp_landxml::units::{AngularUnit, AreaUnit, LinearUnit, Units, VolumeUnit};
use jp_landxml::{
    Application, CoordinateSystem, Face, LandXMLError, Project, RotationDirection, SpiralType,
    SurfaceHeading, SurfaceType, Triangle,
};

#[test]
fn test_application_creation() {
    let app = Application {
        name: Some("TestApp".to_string()),
        version: Some("1.0.0".to_string()),
        ..Default::default()
    };
    assert_eq!(app.name, Some("TestApp".to_string()));
}

#[test]
fn test_project_creation() {
    let project = Project {
        name: Some("Test Project".to_string()),
        desc: Some("A test project".to_string()),
        state: Some("proposed".to_string()),
    };
    assert_eq!(project.name, Some("Test Project".to_string()));
}

#[test]
fn test_default_units() {
    let units = Units::default();
    assert_eq!(units.linear_unit, LinearUnit::Meter);
    assert_eq!(units.angular_unit, AngularUnit::DecimalDegrees);
    assert_eq!(units.area_unit, AreaUnit::SquareMeter);
    assert_eq!(units.volume_unit, VolumeUnit::CubicMeter);
}

#[test]
fn defaults_know_nothing() {
    let application = Application::default();
    assert_eq!(application.name, None);
    assert_eq!(application.manufacturer, None);
    assert_eq!(application.version, None);
    assert_eq!(application.manufacturer_url, None);
    assert_eq!(application.time_stamp, None);
    assert_eq!(Project::default(), Project { name: None, desc: None, state: None });
    assert_eq!(SpiralType::default(), SpiralType::Clothoid);
    assert_eq!(LinearUnit::default(), LinearUnit::Meter);
    assert_eq!(AngularUnit::default(), AngularUnit::DecimalDegrees);
    assert_eq!(AreaUnit::default(), AreaUnit::SquareMeter);
    assert_eq!(VolumeUnit::default(), VolumeUnit::CubicMeter);
    assert_ne!(RotationDirection::Cw, RotationDirection::Ccw);
}

#[test]
fn surface_kinds_are_read_from_their_description() {
    assert_eq!(SurfaceType::from_description("ExistingGround"), SurfaceType::ExistingGround);
    assert_eq!(SurfaceType::from_description("DesignGround"), SurfaceType::DesignGround);
    assert_eq!(
        SurfaceType::from_description("FinishedGrade"),
        SurfaceType::Other("FinishedGrade".to_string())
    );
    assert_eq!(
        SurfaceType::from_description("existingground"),
        SurfaceType::Other("existingground".to_string())
    );
    assert_eq!(SurfaceType::ExistingGround.as_str(), "ExistingGround");
    assert_eq!(SurfaceType::DesignGround.as_str(), "DesignGround");
    assert_eq!(SurfaceType::Other("Unknown".to_string()).as_str(), "Unknown");
}

#[test]
fn faces_are_counted_from_zero() {
    assert_eq!(Face::from_one_based(1, 2, 3), Some(Face { p1: 0, p2: 1, p3: 2 }));
    assert_eq!(Face::from_one_based(7, 7, 9), Some(Face { p1: 6, p2: 6, p3: 8 }));
    assert_eq!(Face::from_one_based(0, 2, 3), None);
    assert_eq!(Face::from_one_based(1, 0, 3), None);
    assert_eq!(Face::from_one_based(1, 2, 0), None);
    let triangle = Face { p1: 4, p2: 5, p3: 6 }.to_triangle();
    assert_eq!(triangle, Triangle { vertices: [4, 5, 6] });
    assert_eq!(triangle.vertex1(), 4);
    assert_eq!(triangle.vertex2(), 5);
    assert_eq!(triangle.vertex3(), 6);
    assert_eq!(Triangle::new(1, 2, 3), Triangle { vertices: [1, 2, 3] });
    assert!(triangle.is_within(7));
    assert!(!triangle.is_within(6));
}

#[test]
fn coordinate_system_holds_what_it_is_given() {
    let system = CoordinateSystem {
        name: "JGD2011 / Zone 9".to_string(),
        epsg_code: Some("6677".to_string()),
        proj4_string: None,
    };
    assert_eq!(system.clone(), system);
}

#[test]
fn numbers_are_written_in_decimal() {
    assert_eq!(decimal_string(0), "0");
    assert_eq!(decimal_string(7), "7");
    assert_eq!(decimal_string(10), "10");
    assert_eq!(decimal_string(256), "256");
    assert_eq!(decimal_string(1_000_000), "1000000");
    assert_eq!(decimal_string(u64::MAX), "18446744073709551615");
}

#[test]
fn texts_are_joined_and_compared() {
    assert_eq!(joined("KEY=", "VALUE"), "KEY=VALUE");
    assert_eq!(joined("", ""), "");
    assert!(same_text("淀川", "淀川"));
    assert!(!same_text("T.P", "T.P.W"));
}

#[test]
fn default_layout_is_told_in_five_options() {
    let writer = GeoTiffWriter::new();
    assert_eq!(
        writer.creation_options(&GeoTiffOptions::default()),
        vec!["COMPRESS=DEFLATE", "PREDICTOR=3", "TILED=YES", "BLOCKXSIZE=256", "BLOCKYSIZE=256"]
    );
}

#[test]
fn layout_options_follow_the_settings() {
    let writer = GeoTiffWriter::default();
    let plain = GeoTiffOptions {
        compression: CompressionType::Uncompressed,
        tiled: false,
        tile_size: Some(512),
        predictor: None,
        big_tiff: false,
    };
    assert_eq!(writer.creation_options(&plain), vec!["COMPRESS=NONE"]);
    let large = GeoTiffOptions {
        compression: CompressionType::Lzw,
        tiled: true,
        tile_size: None,
        predictor: Some(2),
        big_tiff: true,
    };
    assert_eq!(
        writer.creation_options(&large),
        vec!["COMPRESS=LZW", "PREDICTOR=2", "TILED=YES", "BIGTIFF=YES"]
    );
    let photo = GeoTiffOptions {
        compression: CompressionType::Jpeg,
        tiled: true,
        tile_size: Some(1024),
        predictor: Some(255),
        big_tiff: false,
    };
    assert_eq!(
        writer.creation_options(&photo),
        vec![
            "COMPRESS=JPEG",
            "PREDICTOR=255",
            "TILED=YES",
            "BLOCKXSIZE=1024",
            "BLOCKYSIZE=1024"
        ]
    );
}

#[test]
fn compression_is_named_for_the_backend() {
    assert_eq!(CompressionType::Uncompressed.to_gdal_option(), ("COMPRESS", "NONE"));
    assert_eq!(CompressionType::Deflate.to_gdal_option(), ("COMPRESS", "DEFLATE"));
    assert_eq!(CompressionType::Lzw.to_gdal_option(), ("COMPRESS", "LZW"));
    assert_eq!(CompressionType::Jpeg.to_gdal_option(), ("COMPRESS", "JPEG"));
}

#[test]
fn errors_are_put_in_words() {
    assert_eq!(
        LandXMLError::InvalidCoordinateSystem("Unsupported plane coordinate zone: 20".to_string())
            .to_string(),
        "Invalid coordinate system: Unsupported plane coordinate zone: 20"
    );
    assert_eq!(
        LandXMLError::InvalidGridIndex { row: 12, col: 0, max_row: 10, max_col: 7 }.to_string(),
        "Invalid grid index: row 12, col 0 (max: 10, 7)"
    );
    assert_eq!(
        LandXMLError::InvalidGridSize { expected: 100, actual: 99 }.to_string(),
        "Invalid grid size: expected 100, got 99"
    );
    assert_eq!(LandXMLError::EmptyPointCloud.to_string(), "Empty point cloud");
    assert_eq!(
        LandXMLError::ParseError("Invalid zone number: x".to_string()).to_string(),
        "Parse error: Invalid zone number: x"
    );
}

fn headings() -> Vec<SurfaceHeading> {
    let heading = |name: &str, surface_type: SurfaceType| SurfaceHeading {
        name: name.to_string(),
        surface_type,
    };
    vec![
        heading("Existing ground", SurfaceType::ExistingGround),
        heading("Design", SurfaceType::DesignGround),
        heading("Borrow pit", SurfaceType::Other("FinishedGrade".to_string())),
        heading("DesignGround 2", SurfaceType::Other("Unknown".to_string())),
    ]
}

#[test]
fn first_surface_is_exported_unless_told_otherwise() {
    assert_eq!(select_export_targets(&headings(), false, None), vec![0]);
    assert_eq!(select_export_targets(&headings(), true, None), vec![0, 1, 2, 3]);
    assert_eq!(select_export_targets(&headings(), true, Some("nothing")), vec![0, 1, 2, 3]);
    assert_eq!(select_export_targets(&Vec::new(), false, None), Vec::<usize>::new());
    assert_eq!(select_export_targets(&Vec::new(), true, None), Vec::<usize>::new());
}

#[test]
fn filter_is_held_against_kind_and_name() {
    assert_eq!(select_export_targets(&headings(), false, Some("DesignGround")), vec![1, 3]);
    assert_eq!(select_export_targets(&headings(), false, Some("Ground")), vec![0, 1, 3]);
    assert_eq!(select_export_targets(&headings(), false, Some("Grade")), vec![2]);
    assert_eq!(select_export_targets(&headings(), false, Some("pit")), vec![2]);
    assert_eq!(select_export_targets(&headings(), false, Some("ground")), vec![0]);
    assert_eq!(select_export_targets(&headings(), false, Some("")), vec![0, 1, 2, 3]);
    assert_eq!(select_export_targets(&headings(), false, Some("river")), Vec::<usize>::new());
    assert!(headings()[3].matches_filter("Unknown"));
    assert!(!headings()[0].matches_filter("Unknown"));
}
