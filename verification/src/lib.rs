//! Checks that a tree of artist directories and release directories follows
//! the naming convention for releases.
//!
//! The name of a release directory holds six fields, separated by `" - "`:
//! artist, release name, release id, year, format and source. The library
//! reads such names, collects the releases artist by artist, and writes the
//! diagnostics and the report. It reads no directory itself: whoever walks the
//! tree hands in what the listings gave.

pub mod args;
pub mod check;
pub mod collection;
pub mod config;
pub mod decimal;
pub mod listing;
pub mod models;
pub mod report;
pub mod split;
pub mod text;
pub mod walk;
