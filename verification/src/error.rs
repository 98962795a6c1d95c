//! The error taxonomy of the reveal operation.
//!
//! Every failure is reported to the caller through one of these variants;
//! nothing is logged or swallowed inside the library.

use vstd::prelude::*;

verus! {

/// Why a reveal request failed.
#[derive(Debug, Clone, PartialEq, Eq)]
pub enum RevealError {
    /// The path could not be resolved to an existing canonical location.
    PathResolutionFailed,
    /// The path cannot be re-expressed in the native wide encoding
    /// (it carries an embedded nul terminator).
    EncodingFailed,
    /// The anchor path yielded no shell item handle; nothing was dispatched.
    ResolveFailed,
    /// A companion path yielded no shell item handle; every handle already
    /// obtained was released and nothing was dispatched.
    CompanionResolveFailed,
    /// The folder-and-select call itself returned a non-success status.
    DispatchFailed { code: i32 },
    /// Neither the file manager nor the generic opener could be started;
    /// both launch errors are carried.
    NoFileManagerAvailable { primary: String, secondary: String },
    /// A launched process ran but exited with a failure status.
    FileManagerExited { status: i32 },
}

} // verus!
