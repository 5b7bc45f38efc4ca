//! Aggregates the textual content of a source tree into a single,
//! size-bounded bundle suitable for downstream text-generation use.
//!
//! The library holds the policy logic: layered exclusion rules, per-file
//! and cumulative size budgets, deterministic formatting of file content,
//! and classification of user-supplied locations.  Filesystem walking,
//! repository cloning and network transport live outside it and hand the
//! library plain values.
use vstd::prelude::*;
use vstd::string::StringExecFns;

pub mod bundle;
pub mod claude;
pub mod format;
pub mod paths;
pub mod policy;
pub mod resolve;

verus! {

/// The error taxonomy of the library.  Every variant carries a plain
/// message; callers that deal with outside services map their errors into
/// the fitting variant.
#[derive(Debug)]
pub enum TechDocsError {
    /// A filesystem operation failed.
    Io(String),
    /// Acquiring a remote repository failed.
    Git(String),
    /// The text-generation service failed.
    Claude(String),
    /// The location string is a URL that no supported host serves.
    Url(String),
    /// An override pattern was malformed or could not be compiled.
    Ignore(String),
    /// Any other failure.
    Other(String),
}

impl TechDocsError {
    /// What the error's rendered message is, per variant.
    pub open spec fn spec_message(&self) -> Seq<char> {
        match self {
            TechDocsError::Io(m) => "IO error: "@ + m@,
            TechDocsError::Git(m) => "Git error: "@ + m@,
            TechDocsError::Claude(m) => "Generation error: "@ + m@,
            TechDocsError::Url(m) => "Invalid URL: "@ + m@,
            TechDocsError::Ignore(m) => "Ignore error: "@ + m@,
            TechDocsError::Other(m) => m@,
        }
    }

    /// Render the error as one line: a fixed prefix naming the failing
    /// phase, then the carried message.
    pub fn message(&self) -> (r: String)
        ensures
            r@ == self.spec_message(),
    {
        match self {
            TechDocsError::Io(m) => {
                let mut r = String::from_str("IO error: ");
                r.append(m.as_str());
                r
            },
            TechDocsError::Git(m) => {
                let mut r = String::from_str("Git error: ");
                r.append(m.as_str());
                r
            },
            TechDocsError::Claude(m) => {
                let mut r = String::from_str("Generation error: ");
                r.append(m.as_str());
                r
            },
            TechDocsError::Url(m) => {
                let mut r = String::from_str("Invalid URL: ");
                r.append(m.as_str());
                r
            },
            TechDocsError::Ignore(m) => {
                let mut r = String::from_str("Ignore error: ");
                r.append(m.as_str());
                r
            },
            TechDocsError::Other(m) => {
                let mut r = String::new();
                r.append(m.as_str());
                r
            },
        }
    }
}

/// Why a resolved location failed validation before traversal.
#[derive(Clone, Copy, PartialEq, Eq, Debug)]
pub enum ValidationError {
    /// The path does not exist.
    NotFound,
    /// The path exists but is not a directory.
    NotADirectory,
    /// The directory's immediate contents could not be enumerated.
    PermissionDenied,
}

/// Decide whether a resolved location may be traversed, from the three
/// probes made on it.  The checks apply in order: existence, directory
/// kind, readability; the first failing probe names the error.
pub fn validate_directory(exists: bool, is_dir: bool, readable: bool) -> (r: Result<
    (),
    ValidationError,
>)
    ensures
        r is Ok <==> exists && is_dir && readable,
        !exists ==> r == Result::<(), ValidationError>::Err(ValidationError::NotFound),
        exists && !is_dir ==> r == Result::<(), ValidationError>::Err(
            ValidationError::NotADirectory,
        ),
        exists && is_dir && !readable ==> r == Result::<(), ValidationError>::Err(
            ValidationError::PermissionDenied,
        ),
{
    if !exists {
        Err(ValidationError::NotFound)
    } else if !is_dir {
        Err(ValidationError::NotADirectory)
    } else if !readable {
        Err(ValidationError::PermissionDenied)
    } else {
        Ok(())
    }
}

} // verus!
