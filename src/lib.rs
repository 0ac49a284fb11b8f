//! A simulator of Typogenetics: strands of bases are translated into enzymes,
//! which fold, bind to a strand and rewrite it into new strands.
pub mod amino_acid;
pub mod base;
pub mod base_pair;
pub mod enzyme;
pub mod folder;
pub mod orientation;
pub mod rewriter;
pub mod search;
pub mod strand;
pub mod translator;
pub mod turn;

pub use amino_acid::AminoAcid;
pub use base::{Base, BaseType, Duplet};
pub use base_pair::BasePair;
pub use enzyme::Enzyme;
pub use folder::Folder;
pub use orientation::Orientation;
pub use rewriter::Rewriter;
pub use search::{EditType, Editor, SearchAlgos};
pub use strand::Strand;
pub use translator::Translator;
pub use turn::Turn;
