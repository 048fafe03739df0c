//! The decisions of an interactive tool that either prints a text file line by
//! line or appends one line of typed text to it.
//!
//! The tool itself only talks to the console and the file system; everything
//! it decides is decided here: which answers select a mode, which steps follow
//! one another, and with which exit status a run ends.

pub mod mode;
pub mod outcome;
pub mod session;
pub mod text;
pub mod trace;
