//! Terminal handling.

pub mod component;
