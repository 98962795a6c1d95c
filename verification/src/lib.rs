//! Reveal filesystem paths in the platform's file manager with the chosen
//! entries highlighted.
//!
//! The library is the platform-abstraction core of a "show in folder"
//! action: a path normalizer that produces the nul-terminated wide encoding
//! the shell wants, a dispatcher for platforms with a native
//! open-folder-and-select call, and a dispatcher for platforms that fall
//! back to launching a file-manager process.  The surrounding process
//! performs the actual canonicalization, shell and subprocess calls and
//! feeds their outcomes back in as plain values.

pub mod error;
pub mod fallback;
pub mod helpers;
pub mod native;

pub use crate::error::RevealError;
pub use crate::fallback::that;
pub use crate::fallback::those;
pub use crate::fallback::step;
pub use crate::fallback::Event;
pub use crate::fallback::RevealFlow;
