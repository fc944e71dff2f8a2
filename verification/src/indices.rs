//! Endpoint URL builders for index-level operations.

pub mod delete;
pub mod flush_synced;
pub mod get_alias;
pub mod get_aliases;
pub mod get_mapping;
pub mod get_warmer;
pub mod put_mapping;
pub mod refresh;
pub mod stats;
pub mod validate_query;
