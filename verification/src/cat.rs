//! Endpoint URL builders for the compact information interface.

pub mod count;
pub mod health;
pub mod segments;
