//! Bisulfite-sequencing methylation calling: alignment of reads against a
//! reference, CpG site calls, per-read statistics and a tabular report.

pub mod align;
pub mod analysis;
pub mod calling;
pub mod fasta;
pub mod pipeline;
pub mod report;
pub mod scoring;
pub mod sequence;
pub mod text;

pub use analysis::Quma;
pub use pipeline::{AnalysisConfig, ConfigError, Orientation, ReadRecord};
