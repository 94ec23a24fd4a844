//! Access to the configuration of the application.

pub mod reader;
