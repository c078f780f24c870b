//! Conversion of GenBank XML records into FASTA blocks of genomes and peptides.

pub mod config;
pub mod extract;
pub mod lemmas;
pub mod text;
pub mod xml;

pub use config::Config;
pub use extract::{parse_genomes, parse_peptides, parse_xml, ExtractError};
pub use text::{join_lineage, render_blocks, sanitize, to_ascii_upper};
