//! Failures reported by the operating system.

use vstd::prelude::*;

verus! {

/// How the host classifies a failed call.
#[derive(Clone, Copy, Debug, PartialEq, Eq, Hash)]
pub enum FailureKind {
    /// The path does not name an existing entry.
    NotFound,
    /// The caller may not inspect the entry.
    PermissionDenied,
    /// The filesystem or platform has no extended attributes.
    Unsupported,
    /// Any other failure.
    Other,
}

/// A failed listing or fetch, as the operating system reported it.
#[derive(Clone, Copy, Debug, PartialEq, Eq, Hash)]
pub struct Failure {
    /// The class of the failure.
    pub kind: FailureKind,
    /// The raw error number, where the operating system gave one.
    pub os_code: Option<i32>,
}

} // verus!
