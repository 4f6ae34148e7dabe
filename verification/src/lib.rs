//! Merges independently authored WIT (WebAssembly interface type) documents
//! into one resolved graph, unions a chosen set of worlds into a synthetic
//! target world, and projects every package of the final graph back out as a
//! rendered text file under a collision-free, minimally qualified path.

pub mod errors;
pub mod graph;
pub mod keys;
pub mod naming;
pub mod pipeline;
pub mod strs;

pub use errors::KnitError;
pub use keys::PackageKey;
pub use pipeline::{knit_documents, knitwit, OutputUnit, WitDocument};
