//! Shared ownership by reference counting.
//!
//! Records live in an [`Arena`]; an [`Arc`] is a handle to one of them. Each
//! record counts its live handles, is freed when the last of them is dropped,
//! and lends its payload for writing only to a handle that is alone on it.

pub mod arc;
pub mod arcdata;
pub mod laws;
pub mod model;

pub use crate::arc::{Arc, Arena, MAX_REFS};
