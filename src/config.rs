//! The three paths of a run.

use std::path::PathBuf;
use vstd::prelude::*;

verus! {

#[verifier::external_type_specification]
#[verifier::external_body]
pub struct ExPathBuf(PathBuf);

/// Parse GB XML files into genome and its peptides.
#[derive(Debug)]
pub struct Config {
    /// Path to input GB XML file
    pub xml: PathBuf,
    /// Path to genome output
    pub genomes: PathBuf,
    /// Path to peptide output
    pub peptides: PathBuf,
}

} // verus!
