use vstd::prelude::*;

verus! {

/// What can go wrong while organizing files or undoing moves. Each variant
/// carries the text that describes the failure.
#[derive(Debug, Clone, PartialEq, Eq)]
pub enum OrganizerError {
    /// A read, write or permission failure of the file system.
    Io(String),
    /// A history or rule file that does not decode.
    Serde(String),
    /// Access to the named path was refused.
    PermissionDenied(String),
    /// A file already stands at the named destination.
    DestinationExists(String),
    /// Any other failure, such as a path without a file name.
    Other(String),
}

impl OrganizerError {
    /// The error is `Other` with the text `msg`.
    pub open spec fn is_other_with(&self, msg: Seq<char>) -> bool {
        match self {
            OrganizerError::Other(m) => m@ == msg,
            _ => false,
        }
    }

    /// The text of the error as shown to a user.
    pub open spec fn spec_message(&self) -> Seq<char> {
        match self {
            OrganizerError::Io(m) => "I/O error: "@ + m@,
            OrganizerError::Serde(m) => "Serde error: "@ + m@,
            OrganizerError::PermissionDenied(p) => "Permission denied for path: "@ + p@,
            OrganizerError::DestinationExists(p) => "File already exists at destination: "@ + p@,
            OrganizerError::Other(m) => "Other error: "@ + m@,
        }
    }

    /// The text of the error as shown to a user.
    pub fn message(&self) -> (r: String)
        ensures
            r@ == self.spec_message(),
    {
        match self {
            OrganizerError::Io(m) => String::from_str("I/O error: ").concat(m.as_str()),
            OrganizerError::Serde(m) => String::from_str("Serde error: ").concat(m.as_str()),
            OrganizerError::PermissionDenied(p) => String::from_str(
                "Permission denied for path: ",
            ).concat(p.as_str()),
            OrganizerError::DestinationExists(p) => String::from_str(
                "File already exists at destination: ",
            ).concat(p.as_str()),
            OrganizerError::Other(m) => String::from_str("Other error: ").concat(m.as_str()),
        }
    }
}

} // verus!
