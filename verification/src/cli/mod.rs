//! What the command line shows: the names of subcommands and flags, and the help texts.

pub mod help;
pub mod mapping;
