//! Time tracking: a log of start and stop events, queries over intervals of
//! time written as short expressions, and the time spent per project.

pub mod arguments;
pub mod clock;
pub mod decimal;
pub mod error;
pub mod event;
pub mod grammar;
pub mod interval;
pub mod log_file;
pub mod project_map;
pub mod resolve;
pub mod subcommands;
pub mod tally;
pub mod text;
pub mod time;
