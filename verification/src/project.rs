use vstd::prelude::*;

verus! {

/// What a document says about the project it belongs to.
#[derive(Debug, Clone, PartialEq, Eq)]
pub struct Project {
    /// The name of the project.
    pub name: Option<String>,
    /// A description of the project.
    pub desc: Option<String>,
    /// Whether the project exists or is proposed.
    pub state: Option<String>,
}

impl Default for Project {
    /// A project of which nothing is known.
    fn default() -> (project: Self)
        ensures
            project.name is None,
            project.desc is None,
            project.state is None,
    {
        Project { name: None, desc: None, state: None }
    }
}

} // verus!
