//! Support for the runtime's macros: joins and the program entry point.

pub mod join;
pub mod main_args;
pub mod run;
