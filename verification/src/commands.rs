//! Subcommands of the command-line tool.

pub mod new;
