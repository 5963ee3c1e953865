//! Decision logic of a command-line tool that installs a desktop theme:
//! which appearance variants a request selects, how the command line is
//! read, and in which order the resulting writes are carried out.

pub mod apply;
pub mod cli;
pub mod report;
pub mod resolver;
pub mod session;
