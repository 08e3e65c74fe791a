//! Keeping the packages that were installed from the Arch User Repository up
//! to date: which of them are out of date, and what to do about it.
//!
//! The heart of the crate is the reconciliation of the installed packages with
//! two sources of metadata, the package-info endpoint of the repository and
//! the recipes on its mirror. [`recipe`] reads a version off the text of a
//! recipe. [`evaluation`] states what a reconciliation comes to, and what holds
//! of it whatever the sources answer. [`reconciler`] carries it out, one
//! question at a time. Around them stand the parsers of what the local tools
//! print ([`package`], [`mirror`]) and the steps of an installation
//! ([`install`]).
//!
//! Nothing here reads a file, runs a command or talks to the network: the
//! functions take what was read and say what is to be done.

pub mod diagnostic;
pub mod evaluation;
pub mod install;
pub mod mirror;
pub mod order;
pub mod package;
pub mod plan;
pub mod prompt;
pub mod recipe;
pub mod reconciler;
pub mod resolution;
pub mod source;
pub mod text;
