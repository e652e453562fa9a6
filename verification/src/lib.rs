//! A wrapper around the `ansible` command line tools: before delegating to the
//! real tool it decides, from a requirements manifest and the locally installed
//! collections and roles, whether `ansible-galaxy install` has to run first.
//!
//! The decision logic is verified; reading files, scanning directories and
//! launching processes live outside this crate.

pub mod constraint;
pub mod galaxy;
pub mod pyproject;
pub mod text;
pub mod wrapper;
