//! Turns the textual flags of a package build command into a validated build
//! request: file mappings, dependency constraints and changelog entries are
//! parsed one by one, and the first malformed value stops the whole request.

pub mod error;
pub mod text;
pub mod dependency;
pub mod calendar;
pub mod files;
pub mod changelog;
pub mod request;
