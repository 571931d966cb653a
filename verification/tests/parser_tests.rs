use jp_landxml::parser::{
    DocumentAction, DocumentScan, Element, Event, ExtensionAction, ExtensionScan, SkipScan,
    SurfaceAction, SurfaceScan,
};
use jp_landxml::LandXMLError;

#[test]
fn elements_are_told_apart_by_name() {
    let known = [
        ("LandXML", Element::LandXML),
        ("CoordinateSystem", Element::CoordinateSystem),
        ("Project", Element::Project),
        ("Surface", Element::Surface),
        ("Definition", Element::Definition),
        ("Pnts", Element::Pnts),
        ("Faces", Element::Faces),
        ("P", Element::P),
        ("F", Element::F),
        ("Alignment", Element::Alignment),
        ("Feature", Element::Feature),
    ];
    for (name, element) in known {
        assert_eq!(Element::from_name(name), element);
    }
    for name in ["", "landxml", "Surfaces", "p", "Pnt", " P", "Units", "\u{fffd}"] {
        assert_eq!(Element::from_name(name), Element::Unknown, "{:?}", name);
    }
}

#[test]
fn nothing_counts_before_the_document_begins() {
    let mut scan = DocumentScan::new();
    assert_eq!(scan.step(Event::Start(Element::Surface)), DocumentAction::Skip);
    assert_eq!(scan.step(Event::Start(Element::CoordinateSystem)), DocumentAction::Skip);
    assert_eq!(scan.step(Event::Start(Element::Alignment)), DocumentAction::Skip);
    assert_eq!(scan.step(Event::Start(Element::Feature)), DocumentAction::Skip);
    assert_eq!(scan.step(Event::Other), DocumentAction::Skip);
    assert!(!scan.in_landxml);
    assert_eq!(scan.step(Event::Start(Element::LandXML)), DocumentAction::ReadVersion);
    assert!(scan.in_landxml);
    assert_eq!(
        scan.step(Event::Start(Element::CoordinateSystem)),
        DocumentAction::ReadCoordinateSystem
    );
    assert_eq!(scan.step(Event::Start(Element::Surface)), DocumentAction::ReadSurface);
    assert_eq!(scan.step(Event::Start(Element::Alignment)), DocumentAction::ReadAlignment);
    assert_eq!(scan.step(Event::Start(Element::Feature)), DocumentAction::ReadFeature);
    assert_eq!(scan.step(Event::Start(Element::Project)), DocumentAction::Skip);
    assert_eq!(scan.step(Event::End(Element::Surface)), DocumentAction::Skip);
    assert_eq!(scan.step(Event::End(Element::LandXML)), DocumentAction::Finish);
    assert!(scan.in_landxml);
    assert_eq!(DocumentScan::new().step(Event::Eof), DocumentAction::Finish);
    assert_eq!(DocumentScan::new().step(Event::End(Element::LandXML)), DocumentAction::Finish);
}

#[test]
fn document_without_version_is_not_landxml() {
    assert_eq!(DocumentScan::finish("1.2"), Ok(()));
    assert_eq!(
        DocumentScan::finish(""),
        Err(LandXMLError::InvalidFormat { message: "No LandXML version found".to_string() })
    );
    assert_eq!(
        DocumentScan::finish("").unwrap_err().to_string(),
        "Invalid LandXML format: No LandXML version found"
    );
}

#[test]
fn points_and_faces_count_inside_their_lists() {
    let mut scan = SurfaceScan::new();
    assert_eq!(scan.step(Event::Start(Element::P)), SurfaceAction::Skip);
    assert_eq!(scan.step(Event::Start(Element::Pnts)), SurfaceAction::Skip);
    assert!(!scan.in_points);
    assert_eq!(scan.step(Event::Start(Element::Definition)), SurfaceAction::Skip);
    assert_eq!(scan.step(Event::Start(Element::Pnts)), SurfaceAction::Skip);
    assert!(scan.in_definition && scan.in_points && !scan.in_faces);
    assert_eq!(scan.step(Event::Start(Element::P)), SurfaceAction::ReadPoint);
    assert_eq!(scan.step(Event::Start(Element::F)), SurfaceAction::Skip);
    assert_eq!(scan.step(Event::End(Element::Pnts)), SurfaceAction::Skip);
    assert_eq!(scan.step(Event::Start(Element::P)), SurfaceAction::Skip);
    assert_eq!(scan.step(Event::Start(Element::Faces)), SurfaceAction::Skip);
    assert_eq!(scan.step(Event::Start(Element::F)), SurfaceAction::ReadFace);
    // A list that was opened stays open when the definition ends before it.
    assert_eq!(scan.step(Event::End(Element::Definition)), SurfaceAction::Skip);
    assert!(!scan.in_definition && scan.in_faces);
    assert_eq!(scan.step(Event::Start(Element::F)), SurfaceAction::ReadFace);
    assert_eq!(scan.step(Event::End(Element::Faces)), SurfaceAction::Skip);
    assert_eq!(scan.step(Event::Start(Element::F)), SurfaceAction::Skip);
    assert_eq!(scan.step(Event::Other), SurfaceAction::Skip);
    assert_eq!(scan.step(Event::End(Element::Surface)), SurfaceAction::Finish);
    assert_eq!(SurfaceScan::new().step(Event::Eof), SurfaceAction::Finish);
}

#[test]
fn element_is_passed_over_with_all_inside_it() {
    let mut scan = SkipScan::new(Element::Alignment);
    assert_eq!(scan.depth, 1);
    assert!(!scan.step(Event::Start(Element::Surface)));
    assert!(!scan.step(Event::End(Element::Surface)));
    assert!(!scan.step(Event::Start(Element::Alignment)));
    assert_eq!(scan.depth, 2);
    assert!(!scan.step(Event::Other));
    assert!(!scan.step(Event::End(Element::Alignment)));
    assert_eq!(scan.depth, 1);
    assert!(scan.step(Event::End(Element::Alignment)));
    assert_eq!(scan.depth, 0);
    assert!(SkipScan::new(Element::Feature).step(Event::Eof));
    assert!(SkipScan::new(Element::Feature).step(Event::End(Element::Feature)));
    assert!(!SkipScan::new(Element::Feature).step(Event::End(Element::Alignment)));
    let mut full = SkipScan { element: Element::Feature, depth: usize::MAX };
    assert!(!full.step(Event::Start(Element::Feature)));
    assert_eq!(full.depth, usize::MAX);
}

#[test]
fn coordinate_system_is_kept_at_its_end() {
    let mut scan = ExtensionScan::new();
    assert_eq!(scan.step(Event::End(Element::CoordinateSystem)), ExtensionAction::Skip);
    assert_eq!(scan.step(Event::Start(Element::Project)), ExtensionAction::ReadProject);
    assert_eq!(
        scan.step(Event::Start(Element::CoordinateSystem)),
        ExtensionAction::BeginCoordinateSystem
    );
    assert!(scan.in_coordinate_system);
    assert_eq!(scan.step(Event::Start(Element::Surface)), ExtensionAction::Skip);
    assert_eq!(
        scan.step(Event::End(Element::CoordinateSystem)),
        ExtensionAction::KeepCoordinateSystem
    );
    assert!(!scan.in_coordinate_system);
    assert_eq!(scan.step(Event::End(Element::CoordinateSystem)), ExtensionAction::Skip);
    assert_eq!(scan.step(Event::Eof), ExtensionAction::Finish);
}
