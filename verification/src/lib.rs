//! An application microframework: a lock-guarded application cell, components
//! with declared dependencies, a registry that orders them, and the boot
//! lifecycle that drives them.

pub mod application;
pub mod boot;
pub mod commands;
pub mod component;
pub mod config;
pub mod error;
pub mod graph;
pub mod logging;
pub mod order;
pub mod properties;
pub mod registry;
pub mod runtime;
pub mod terminal;
pub mod testing;
