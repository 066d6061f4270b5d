//! Why an action was turned down.

use vstd::prelude::*;
use crate::text::glue;

verus! {

/// The reasons for which an action on the links of a project is refused.
/// Every one of them is found before anything is asked of the file system.
#[derive(Debug, PartialEq, Eq)]
pub enum ActionError {
    /// No file was named.
    NoFiles,
    /// The file at `path` does not exist.
    NotFound { path: String },
    /// A path refers to the variable `name`, which the project does not define.
    UnresolvedVariable { name: String },
    /// A managed copy for one system was asked for while no system is active.
    MissingSystem,
    /// The place asked for at `path` is taken, or the file is managed already.
    DestinationAlreadyExists { path: String },
    /// A link named `name` exists already.
    DuplicateLink { name: String },
    /// `path` does not end in a name that a file could bear.
    NoFileName { path: String },
    /// `path` has no directory above it.
    NoParent { path: String },
    /// No link of the project stands at `path`.
    NoSuchLink { path: String },
    /// The snapshot of the file system says nothing of `path`: it has to be
    /// looked at before the action can be decided.
    Unobserved { path: String },
}

/// An `ActionError` with its texts as sequences of characters.
pub enum ErrorView {
    NoFiles,
    NotFound { path: Seq<char> },
    UnresolvedVariable { name: Seq<char> },
    MissingSystem,
    DestinationAlreadyExists { path: Seq<char> },
    DuplicateLink { name: Seq<char> },
    NoFileName { path: Seq<char> },
    NoParent { path: Seq<char> },
    NoSuchLink { path: Seq<char> },
    Unobserved { path: Seq<char> },
}

impl View for ActionError {
    type V = ErrorView;

    open spec fn view(&self) -> ErrorView {
        match self {
            ActionError::NoFiles => ErrorView::NoFiles,
            ActionError::NotFound { path } => ErrorView::NotFound { path: path@ },
            ActionError::UnresolvedVariable { name } => ErrorView::UnresolvedVariable { name: name@ },
            ActionError::MissingSystem => ErrorView::MissingSystem,
            ActionError::DestinationAlreadyExists { path } => ErrorView::DestinationAlreadyExists {
                path: path@,
            },
            ActionError::DuplicateLink { name } => ErrorView::DuplicateLink { name: name@ },
            ActionError::NoFileName { path } => ErrorView::NoFileName { path: path@ },
            ActionError::NoParent { path } => ErrorView::NoParent { path: path@ },
            ActionError::NoSuchLink { path } => ErrorView::NoSuchLink { path: path@ },
            ActionError::Unobserved { path } => ErrorView::Unobserved { path: path@ },
        }
    }
}

/// A result with its value and its error as values of mathematics.
pub open spec fn outcome<T: View>(r: Result<T, ActionError>) -> Result<T::V, ErrorView> {
    match r {
        Ok(value) => Ok(value@),
        Err(e) => Err(e@),
    }
}

/// The sentence that `describe` gives for an error.
pub open spec fn message_of(e: ErrorView) -> Seq<char> {
    match e {
        ErrorView::NoFiles => "No files defined to link"@,
        ErrorView::NotFound { path } => "file \""@ + path + "\" could not be found"@,
        ErrorView::UnresolvedVariable { name } => "Variable "@ + name + " is not defined"@,
        ErrorView::MissingSystem => "could not get system"@,
        ErrorView::DestinationAlreadyExists { path } => "Destination "@ + path + " already exists"@,
        ErrorView::DuplicateLink { name } => "Links already contain link named "@ + name,
        ErrorView::NoFileName { path } => "Could not get filename for "@ + path,
        ErrorView::NoParent { path } => "Could not get parent folder of "@ + path,
        ErrorView::NoSuchLink { path } => "No link stands at "@ + path,
        ErrorView::Unobserved { path } => "Nothing is known of "@ + path,
    }
}

impl ActionError {
    /// The error as a sentence for the user.
    pub fn describe(&self) -> (text: String)
        ensures
            text@ == message_of(self@),
    {
        match self {
            ActionError::NoFiles => String::from_str("No files defined to link"),
            ActionError::NotFound { path } => {
                let mut text = glue("file \"", path.as_str());
                text.append("\" could not be found");
                text
            },
            ActionError::UnresolvedVariable { name } => {
                let mut text = glue("Variable ", name.as_str());
                text.append(" is not defined");
                text
            },
            ActionError::MissingSystem => String::from_str("could not get system"),
            ActionError::DestinationAlreadyExists { path } => {
                let mut text = glue("Destination ", path.as_str());
                text.append(" already exists");
                text
            },
            ActionError::DuplicateLink { name } => glue(
                "Links already contain link named ",
                name.as_str(),
            ),
            ActionError::NoFileName { path } => glue("Could not get filename for ", path.as_str()),
            ActionError::NoParent { path } => glue(
                "Could not get parent folder of ",
                path.as_str(),
            ),
            ActionError::NoSuchLink { path } => glue("No link stands at ", path.as_str()),
            ActionError::Unobserved { path } => glue("Nothing is known of ", path.as_str()),
        }
    }
}

impl Clone for ActionError {
    fn clone(&self) -> (copy: Self)
        ensures
            copy@ == self@,
    {
        match self {
            ActionError::NoFiles => ActionError::NoFiles,
            ActionError::NotFound { path } => ActionError::NotFound { path: path.clone() },
            ActionError::UnresolvedVariable { name } => ActionError::UnresolvedVariable {
                name: name.clone(),
            },
            ActionError::MissingSystem => ActionError::MissingSystem,
            ActionError::DestinationAlreadyExists { path } => ActionError::DestinationAlreadyExists {
                path: path.clone(),
            },
            ActionError::DuplicateLink { name } => ActionError::DuplicateLink { name: name.clone() },
            ActionError::NoFileName { path } => ActionError::NoFileName { path: path.clone() },
            ActionError::NoParent { path } => ActionError::NoParent { path: path.clone() },
            ActionError::NoSuchLink { path } => ActionError::NoSuchLink { path: path.clone() },
            ActionError::Unobserved { path } => ActionError::Unobserved { path: path.clone() },
        }
    }
}

} // verus!
