//! Branches, remotes, checkouts and rebases of a local git repository.
//!
//! The library decides; the repository is read and written by its caller. It
//! resolves the default remote, lists branches in name order, and drives a
//! checkout and a rebase onto the upstream as state machines whose every failure
//! path rolls the repository back before the error is returned.
pub mod branch;
pub mod checkout;
pub mod error;
pub mod rebase;
pub mod remotes;
pub mod ui;
