//! Endpoint URL builders for ingest pipelines.

pub mod simulate;
