//! The Linux engine of a version manager for side-by-side R installations.
//!
//! Everything here is a pure function of plain values: callers gather what
//! the file system and the package manager report, the functions of this
//! crate decide what has to happen, and callers carry the decisions out.

pub mod action;
pub mod add;
pub mod alias;
pub mod catalog;
pub mod current;
pub mod detect;
pub mod error;
pub mod links;
pub mod package;
pub mod paths;
pub mod pattern;
pub mod profile;
pub mod registry;
pub mod remove;
pub mod rstudio;
pub mod system;
pub mod text;
pub mod workflow;
