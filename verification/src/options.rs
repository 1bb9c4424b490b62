//! The configuration of a translation run.

use crate::names::NamePattern;
use vstd::prelude::*;

verus! {

/// The configuration of a translation run.
#[derive(Debug, Clone)]
pub struct Options {
    /// The name of the library wrapper class.
    pub class_name: String,
    /// Extra include search directories.
    pub include_paths: Vec<String>,
    /// Whether the system include directories are to be detected.
    pub detect_isystem: bool,
    /// The pattern that a name has to match to be in scope.
    pub names_match: NamePattern,
    /// The template that a name in scope is rewritten by.
    pub names_replace: String,
}

} // verus!
