//! The binary-locator boundary.  Discovery itself is an external
//! collaborator: the launch depends on it only through the capability to
//! produce an executable path or fail.

use vstd::prelude::*;
use crate::error::ViewerError;

verus! {

/// Locating the viewer binary.  Implemented outside the library — by
/// environment variables, install directories or build layouts — and
/// consulted once per launch; a failure is propagated to the caller
/// unchanged as the user-actionable binary-not-found condition.
pub trait AppLocator {
    /// Produce the path of the viewer binary, or fail.
    fn locate_app_binary(&self) -> Result<String, ViewerError>;
}

} // verus!
