pub mod graph;
pub mod laws;
pub mod manifests;
pub mod names;
pub mod repo;
pub mod scan;
pub mod syntax;

pub use graph::{CodeTriple, CODE_NS, PKG_NS, RDF_TYPE, SEC_NS};
pub use repo::{repo_sources_to_rdf_triples, MAX_FILE_BYTES, MAX_REPO_FILES};
