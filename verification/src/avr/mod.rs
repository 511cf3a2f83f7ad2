pub mod findings;
pub mod ingest;
