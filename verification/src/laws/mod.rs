//! What the operations of the library do, said of their calls: each law takes the arguments and the
//! results of calls, and states how they are related.

pub mod bridges;
pub mod equality;
pub mod help;
pub mod module_help;
pub mod names;
pub mod paths;
pub mod plans;
pub mod programs;
pub mod results;
pub mod texts;
