//! The `ip` field kind.

pub mod mapping;
