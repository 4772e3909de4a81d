//! Verified core of a shell-prompt segment renderer.
//!
//! The library renders two kinds of prompt fragments from plain values:
//! a working-directory fragment that keeps only the last few path
//! components, and a repository-state fragment summarizing head, upstream
//! tracking, status flags and stash presence.  All input gathering
//! (environment variables, repository reads) happens outside the library;
//! every function here is verified.
use vstd::prelude::*;

pub mod ansi;
pub mod bytestr;
pub mod cli;
pub mod dir;
pub mod git;
pub mod misc;
pub mod section;

verus! {

/// The byte that separates path components.
pub const SEPARATOR: u8 = 47;

} // verus!
