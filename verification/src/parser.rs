//! What a reader of LandXML decides as the elements of a document go by.
//!
//! The reader itself belongs to the program that owns the file. It hands every
//! event here, together with what it has decided so far, and is told what to do
//! next.

use vstd::prelude::*;

use crate::error::LandXMLError;
use crate::text::same_text;

verus! {

/// The elements that a reader tells apart.
#[derive(Debug, Clone, Copy, PartialEq, Eq, Structural)]
pub enum Element {
    LandXML,
    CoordinateSystem,
    Project,
    Surface,
    Definition,
    Pnts,
    Faces,
    P,
    F,
    Alignment,
    Feature,
    /// Any other element.
    Unknown,
}

/// What a reader meets in a document.
#[derive(Debug, Clone, Copy, PartialEq, Eq, Structural)]
pub enum Event {
    /// The start tag of an element.
    Start(Element),
    /// The end tag of an element.
    End(Element),
    /// The end of the document.
    Eof,
    /// Text, an empty element, a comment and whatever else a document holds.
    Other,
}

impl Element {
    /// The element that a tag names.
    pub open spec fn named(name: Seq<char>) -> Element {
        if name == "LandXML"@ {
            Element::LandXML
        } else if name == "CoordinateSystem"@ {
            Element::CoordinateSystem
        } else if name == "Project"@ {
            Element::Project
        } else if name == "Surface"@ {
            Element::Surface
        } else if name == "Definition"@ {
            Element::Definition
        } else if name == "Pnts"@ {
            Element::Pnts
        } else if name == "Faces"@ {
            Element::Faces
        } else if name == "P"@ {
            Element::P
        } else if name == "F"@ {
            Element::F
        } else if name == "Alignment"@ {
            Element::Alignment
        } else if name == "Feature"@ {
            Element::Feature
        } else {
            Element::Unknown
        }
    }

    /// The element that a tag names. Names are told apart letter by letter,
    /// capitals included.
    pub fn from_name(name: &str) -> (element: Element)
        ensures
            element == Element::named(name@),
    {
        if same_text(name, "LandXML") {
            Element::LandXML
        } else if same_text(name, "CoordinateSystem") {
            Element::CoordinateSystem
        } else if same_text(name, "Project") {
            Element::Project
        } else if same_text(name, "Surface") {
            Element::Surface
        } else if same_text(name, "Definition") {
            Element::Definition
        } else if same_text(name, "Pnts") {
            Element::Pnts
        } else if same_text(name, "Faces") {
            Element::Faces
        } else if same_text(name, "P") {
            Element::P
        } else if same_text(name, "F") {
            Element::F
        } else if same_text(name, "Alignment") {
            Element::Alignment
        } else if same_text(name, "Feature") {
            Element::Feature
        } else {
            Element::Unknown
        }
    }
}

/// What a reader does next at the top of a document.
#[derive(Debug, Clone, Copy, PartialEq, Eq, Structural)]
pub enum DocumentAction {
    /// Nothing; go on with the next event.
    Skip,
    /// Take the version from the attributes of the element.
    ReadVersion,
    /// Take the coordinate system from the attributes of the element.
    ReadCoordinateSystem,
    /// Read a surface up to its end tag.
    ReadSurface,
    /// Read an alignment up to its end tag.
    ReadAlignment,
    /// Read a feature up to its end tag.
    ReadFeature,
    /// The document is over.
    Finish,
}

/// Where a reader stands at the top of a document.
#[derive(Debug, Clone, Copy, PartialEq, Eq, Structural)]
pub struct DocumentScan {
    /// Whether the start tag of the document has gone by.
    pub in_landxml: bool,
}

impl DocumentScan {
    /// Where a reader stands after an event.
    pub open spec fn after(self, event: Event) -> DocumentScan {
        DocumentScan { in_landxml: self.in_landxml || event == Event::Start(Element::LandXML) }
    }

    /// What an event asks for. Nothing counts before the start tag of the
    /// document but that tag itself; the end tag of the document and the end of
    /// the file finish the reading.
    pub open spec fn asks(self, event: Event) -> DocumentAction {
        match event {
            Event::Start(Element::LandXML) => DocumentAction::ReadVersion,
            Event::Start(Element::CoordinateSystem) => if self.in_landxml {
                DocumentAction::ReadCoordinateSystem
            } else {
                DocumentAction::Skip
            },
            Event::Start(Element::Surface) => if self.in_landxml {
                DocumentAction::ReadSurface
            } else {
                DocumentAction::Skip
            },
            Event::Start(Element::Alignment) => if self.in_landxml {
                DocumentAction::ReadAlignment
            } else {
                DocumentAction::Skip
            },
            Event::Start(Element::Feature) => if self.in_landxml {
                DocumentAction::ReadFeature
            } else {
                DocumentAction::Skip
            },
            Event::End(Element::LandXML) => DocumentAction::Finish,
            Event::Eof => DocumentAction::Finish,
            _ => DocumentAction::Skip,
        }
    }

    /// A reader before the first event.
    pub fn new() -> (scan: Self)
        ensures
            !scan.in_landxml,
    {
        DocumentScan { in_landxml: false }
    }

    /// Takes an event in and says what to do about it.
    pub fn step(&mut self, event: Event) -> (action: DocumentAction)
        ensures
            action == old(self).asks(event),
            *final(self) == old(self).after(event),
    {
        let action = match event {
            Event::Start(Element::LandXML) => DocumentAction::ReadVersion,
            Event::Start(Element::CoordinateSystem) => if self.in_landxml {
                DocumentAction::ReadCoordinateSystem
            } else {
                DocumentAction::Skip
            },
            Event::Start(Element::Surface) => if self.in_landxml {
                DocumentAction::ReadSurface
            } else {
                DocumentAction::Skip
            },
            Event::Start(Element::Alignment) => if self.in_landxml {
                DocumentAction::ReadAlignment
            } else {
                DocumentAction::Skip
            },
            Event::Start(Element::Feature) => if self.in_landxml {
                DocumentAction::ReadFeature
            } else {
                DocumentAction::Skip
            },
            Event::End(Element::LandXML) => DocumentAction::Finish,
            Event::Eof => DocumentAction::Finish,
            _ => DocumentAction::Skip,
        };
        match event {
            Event::Start(Element::LandXML) => {
                self.in_landxml = true;
            },
            _ => {},
        }
        action
    }

    /// Whether a document that declared `version` is LandXML at all: it is when
    /// the version is not empty.
    pub fn finish(version: &str) -> (checked: Result<(), LandXMLError>)
        ensures
            checked is Ok <==> version@.len() > 0,
            checked matches Err(error) ==> error matches LandXMLError::InvalidFormat { message }
                && message@ == "No LandXML version found"@,
    {
        if version.unicode_len() == 0 {
            Err(
                LandXMLError::InvalidFormat {
                    message: String::from_str("No LandXML version found"),
                },
            )
        } else {
            Ok(())
        }
    }
}

/// What a reader does next inside a surface.
#[derive(Debug, Clone, Copy, PartialEq, Eq, Structural)]
pub enum SurfaceAction {
    /// Nothing; go on with the next event.
    Skip,
    /// Read a point up to its end tag.
    ReadPoint,
    /// Read a face up to its end tag.
    ReadFace,
    /// The surface is over.
    Finish,
}

/// Where a reader stands inside a surface.
#[derive(Debug, Clone, Copy, PartialEq, Eq, Structural)]
pub struct SurfaceScan {
    /// Whether the reader is inside the definition of the surface.
    pub in_definition: bool,
    /// Whether the reader is inside the list of points.
    pub in_points: bool,
    /// Whether the reader is inside the list of faces.
    pub in_faces: bool,
}

impl SurfaceScan {
    /// Where a reader stands after an event: a start tag opens its list, and
    /// the lists of points and faces open only inside a definition; an end tag
    /// closes its list.
    pub open spec fn after(self, event: Event) -> SurfaceScan {
        match event {
            Event::Start(Element::Definition) => SurfaceScan { in_definition: true, ..self },
            Event::Start(Element::Pnts) => SurfaceScan {
                in_points: self.in_points || self.in_definition,
                ..self
            },
            Event::Start(Element::Faces) => SurfaceScan {
                in_faces: self.in_faces || self.in_definition,
                ..self
            },
            Event::End(Element::Definition) => SurfaceScan { in_definition: false, ..self },
            Event::End(Element::Pnts) => SurfaceScan { in_points: false, ..self },
            Event::End(Element::Faces) => SurfaceScan { in_faces: false, ..self },
            _ => self,
        }
    }

    /// What an event asks for: a point inside the list of points, a face inside
    /// the list of faces, and the end at the end tag of the surface and at the
    /// end of the file.
    pub open spec fn asks(self, event: Event) -> SurfaceAction {
        match event {
            Event::Start(Element::P) => if self.in_points {
                SurfaceAction::ReadPoint
            } else {
                SurfaceAction::Skip
            },
            Event::Start(Element::F) => if self.in_faces {
                SurfaceAction::ReadFace
            } else {
                SurfaceAction::Skip
            },
            Event::End(Element::Surface) => SurfaceAction::Finish,
            Event::Eof => SurfaceAction::Finish,
            _ => SurfaceAction::Skip,
        }
    }

    /// A reader that has just met the start tag of a surface.
    pub fn new() -> (scan: Self)
        ensures
            !scan.in_definition,
            !scan.in_points,
            !scan.in_faces,
    {
        SurfaceScan { in_definition: false, in_points: false, in_faces: false }
    }

    /// Takes an event in and says what to do about it.
    pub fn step(&mut self, event: Event) -> (action: SurfaceAction)
        ensures
            action == old(self).asks(event),
            *final(self) == old(self).after(event),
    {
        match event {
            Event::Start(Element::Definition) => {
                self.in_definition = true;
                SurfaceAction::Skip
            },
            Event::Start(Element::Pnts) => {
                if self.in_definition {
                    self.in_points = true;
                }
                SurfaceAction::Skip
            },
            Event::Start(Element::Faces) => {
                if self.in_definition {
                    self.in_faces = true;
                }
                SurfaceAction::Skip
            },
            Event::Start(Element::P) => if self.in_points {
                SurfaceAction::ReadPoint
            } else {
                SurfaceAction::Skip
            },
            Event::Start(Element::F) => if self.in_faces {
                SurfaceAction::ReadFace
            } else {
                SurfaceAction::Skip
            },
            Event::End(Element::Surface) => SurfaceAction::Finish,
            Event::End(Element::Definition) => {
                self.in_definition = false;
                SurfaceAction::Skip
            },
            Event::End(Element::Pnts) => {
                self.in_points = false;
                SurfaceAction::Skip
            },
            Event::End(Element::Faces) => {
                self.in_faces = false;
                SurfaceAction::Skip
            },
            Event::Eof => SurfaceAction::Finish,
            _ => SurfaceAction::Skip,
        }
    }
}

/// Where a reader stands while it passes over an element and all that is
/// inside it.
#[derive(Debug, Clone, Copy, PartialEq, Eq, Structural)]
pub struct SkipScan {
    /// The element that is passed over.
    pub element: Element,
    /// How many elements of that name are open; never more than the machine
    /// can count.
    pub depth: usize,
}

impl SkipScan {
    /// How many elements of the name are open after an event.
    pub open spec fn depth_after(self, event: Event) -> int {
        if event == Event::Start(self.element) {
            if self.depth < usize::MAX {
                self.depth + 1
            } else {
                self.depth as int
            }
        } else if event == Event::End(self.element) && self.depth > 0 {
            self.depth - 1
        } else {
            self.depth as int
        }
    }

    /// Whether an event ends the passing over: the end tag that closes the
    /// last open element of the name does, and so does the end of the file.
    pub open spec fn ends_at(self, event: Event) -> bool {
        event == Event::Eof || (event == Event::End(self.element) && self.depth <= 1)
    }

    /// A reader that has just met the start tag of `element`.
    pub fn new(element: Element) -> (scan: Self)
        ensures
            scan.element == element,
            scan.depth == 1,
    {
        SkipScan { element, depth: 1 }
    }

    /// Takes an event in and says whether the element is over.
    pub fn step(&mut self, event: Event) -> (over: bool)
        ensures
            over == old(self).ends_at(event),
            final(self).element == old(self).element,
            final(self).depth == old(self).depth_after(event),
    {
        match event {
            Event::Start(element) => {
                if element == self.element && self.depth < usize::MAX {
                    self.depth = self.depth + 1;
                }
                false
            },
            Event::End(element) => {
                if element == self.element {
                    if self.depth > 0 {
                        self.depth = self.depth - 1;
                    }
                    self.depth == 0
                } else {
                    false
                }
            },
            Event::Eof => true,
            Event::Other => false,
        }
    }
}

/// What a reader of the Japanese attributes does next.
#[derive(Debug, Clone, Copy, PartialEq, Eq, Structural)]
pub enum ExtensionAction {
    /// Nothing; go on with the next event.
    Skip,
    /// Begin a coordinate system and take its attributes.
    BeginCoordinateSystem,
    /// Take the attributes of the project.
    ReadProject,
    /// Keep the coordinate system that was begun.
    KeepCoordinateSystem,
    /// The document is over.
    Finish,
}

/// Where a reader of the Japanese attributes stands.
#[derive(Debug, Clone, Copy, PartialEq, Eq, Structural)]
pub struct ExtensionScan {
    /// Whether a coordinate system was begun and is not kept yet.
    pub in_coordinate_system: bool,
}

impl ExtensionScan {
    /// Where a reader stands after an event.
    pub open spec fn after(self, event: Event) -> ExtensionScan {
        match event {
            Event::Start(Element::CoordinateSystem) => ExtensionScan { in_coordinate_system: true },
            Event::End(Element::CoordinateSystem) => ExtensionScan { in_coordinate_system: false },
            _ => self,
        }
    }

    /// What an event asks for. A coordinate system is kept at its end tag, and
    /// only where one was begun.
    pub open spec fn asks(self, event: Event) -> ExtensionAction {
        match event {
            Event::Start(Element::CoordinateSystem) => ExtensionAction::BeginCoordinateSystem,
            Event::Start(Element::Project) => ExtensionAction::ReadProject,
            Event::End(Element::CoordinateSystem) => if self.in_coordinate_system {
                ExtensionAction::KeepCoordinateSystem
            } else {
                ExtensionAction::Skip
            },
            Event::Eof => ExtensionAction::Finish,
            _ => ExtensionAction::Skip,
        }
    }

    /// A reader before the first event.
    pub fn new() -> (scan: Self)
        ensures
            !scan.in_coordinate_system,
    {
        ExtensionScan { in_coordinate_system: false }
    }

    /// Takes an event in and says what to do about it.
    pub fn step(&mut self, event: Event) -> (action: ExtensionAction)
        ensures
            action == old(self).asks(event),
            *final(self) == old(self).after(event),
    {
        match event {
            Event::Start(Element::CoordinateSystem) => {
                self.in_coordinate_system = true;
                ExtensionAction::BeginCoordinateSystem
            },
            Event::Start(Element::Project) => ExtensionAction::ReadProject,
            Event::End(Element::CoordinateSystem) => {
                if self.in_coordinate_system {
                    self.in_coordinate_system = false;
                    ExtensionAction::KeepCoordinateSystem
                } else {
                    ExtensionAction::Skip
                }
            },
            Event::Eof => ExtensionAction::Finish,
            _ => ExtensionAction::Skip,
        }
    }
}

} // verus!
