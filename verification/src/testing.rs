//! Support for testing command-line applications.

pub mod runner;
