//! Workspace lockfile synchronization, modelled as a verified transition
//! system.
//!
//! A build workspace keeps one shared root lockfile and, historically, one
//! lockfile per member package.  This library decides every step of the
//! transaction that propagates the root lockfile's resolved versions into
//! each member's own lockfile: the dirty-tree safety gate, the workspace
//! descriptor built from the metadata collaborator's answer, the temporary
//! concealment of the root manifest (which forces the resolver into
//! standalone-package mode), the per-member copy/resolve loop, and the
//! unconditional restoration of the manifest.
//!
//! The library performs no I/O itself.  A thin driver runs the external
//! collaborators (version-control status, the build tool's metadata command,
//! file rename and copy) and feeds each outcome back as an event; the
//! verified [`session`] module maps state and event to the next state and
//! the next action.  The [`laws`] module proves the transaction's guarantees
//! over a model of the filesystem: no mutation before the safety check and the
//! member-count check pass, exact per-member effects on success, crash
//! safety on a mid-loop failure, and idempotence of a repeated run.

pub mod paths;
pub mod outcome;
pub mod descriptor;
pub mod gate;
pub mod session;
pub mod laws;
