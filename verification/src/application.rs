use vstd::prelude::*;

verus! {

/// What a document says about the program that wrote it.
#[derive(Debug, Clone, PartialEq, Eq)]
pub struct Application {
    /// The name of the program.
    pub name: Option<String>,
    /// Who makes the program.
    pub manufacturer: Option<String>,
    /// The version of the program.
    pub version: Option<String>,
    /// Where the maker of the program is found.
    pub manufacturer_url: Option<String>,
    /// When the document was written.
    pub time_stamp: Option<String>,
}

impl Default for Application {
    /// A program of which nothing is known.
    fn default() -> (application: Self)
        ensures
            application.name is None,
            application.manufacturer is None,
            application.version is None,
            application.manufacturer_url is None,
            application.time_stamp is None,
    {
        Application {
            name: None,
            manufacturer: None,
            version: None,
            manufacturer_url: None,
            time_stamp: None,
        }
    }
}

} // verus!
