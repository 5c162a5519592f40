//! Generation of clients for live sessions.

pub mod cli;
pub mod generator;
pub mod program;
pub mod program_lines;
pub mod read_back;
