//! Core of a terminal workspace application.
//!
//! The heart of the crate is the pseudo-terminal session manager
//! ([`session`]): a registry of live terminal sessions with spawn, write,
//! resize, kill and bulk-shutdown operations, a remote bridge that attaches
//! to a persistent multiplexer session over a secure shell ([`cmdline`]),
//! and the transport encoding of the output stream ([`codec`]). Around it
//! stand the exact parsers and decision rules the surrounding application
//! needs: git porcelain output ([`git`]), worktree bookkeeping
//! ([`worktree`]), directory listings ([`dirlist`]), profile import
//! ([`iterm`]) and window labels ([`window`]).
//!
//! Every operation carries a contract; the OS calls themselves — terminals,
//! subprocesses, the filesystem — stay behind the small trusted boundary in
//! [`pty`] or outside the crate altogether.

use vstd::prelude::*;

pub mod cmdline;
pub mod codec;
pub mod dirlist;
pub mod git;
pub mod iterm;
pub mod pty;
pub mod scan;
pub mod session;
pub mod text;
pub mod window;
pub mod worktree;

verus! {

} // verus!
