//! Forced deletion of files and directory trees that other processes hold
//! open: the decisions of finding the holders, confirming, terminating them
//! and retrying, each a verified step that a driver performs.
pub mod owners;
pub mod removal;
pub mod walk;
pub mod cli;
pub mod menu;
