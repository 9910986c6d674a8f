//! The ways a run can end early.

use vstd::prelude::*;

verus! {

/// Why a run stopped. Every kind is terminal: nothing is retried.
#[derive(Clone, Copy, Debug, PartialEq, Eq, Structural)]
pub enum ErrorKind {
    /// The reference string is not a repository reference.
    ReferenceUnparseable,
    /// No runtime executable was given and none was found.
    RuntimeNotFound,
    /// What an earlier run left in the staging directory could not be removed.
    StaleStagingRemovalFailed,
    /// The repository could not be fetched.
    FetchFailed,
    /// The runtime could not be started.
    RuntimeSpawnFailed,
}

/// The two classes of failure that an exit status tells apart.
#[derive(Clone, Copy, Debug, PartialEq, Eq, Structural)]
pub enum ErrorClass {
    /// The input or the setup is at fault: nothing outside was touched.
    Setup,
    /// An operation on the outside failed: removal, fetch or spawn.
    External,
}

impl ErrorKind {
    /// The class of this kind, as a mathematical value.
    pub open spec fn class_of(self) -> ErrorClass {
        match self {
            ErrorKind::ReferenceUnparseable | ErrorKind::RuntimeNotFound => ErrorClass::Setup,
            ErrorKind::StaleStagingRemovalFailed
            | ErrorKind::FetchFailed
            | ErrorKind::RuntimeSpawnFailed => ErrorClass::External,
        }
    }

    /// Whether the input or setup, or an outside operation, is at fault.
    pub fn class(self) -> (class: ErrorClass)
        ensures
            class == self.class_of(),
    {
        match self {
            ErrorKind::ReferenceUnparseable => ErrorClass::Setup,
            ErrorKind::RuntimeNotFound => ErrorClass::Setup,
            ErrorKind::StaleStagingRemovalFailed => ErrorClass::External,
            ErrorKind::FetchFailed => ErrorClass::External,
            ErrorKind::RuntimeSpawnFailed => ErrorClass::External,
        }
    }

    /// Whether the program just stops on this kind, without crashing: so it
    /// does on an unparseable reference, and on no other kind.
    pub fn stops_quietly(self) -> (quiet: bool)
        ensures
            quiet == (self == ErrorKind::ReferenceUnparseable),
    {
        match self {
            ErrorKind::ReferenceUnparseable => true,
            _ => false,
        }
    }
}

} // verus!
