//! Endpoint URL builders for snapshots.

pub mod get;
pub mod get_repository;
pub mod verify_repository;
