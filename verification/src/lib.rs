//! The logic of running a command behind a live box of its output: cutting
//! the two output streams into lines, keeping the log of every line, drawing
//! the box of the last few, and deciding the course of a run from the
//! creation of the child to the report of how it ended.
//!
//! Nothing here touches a process, a terminal or a file. Whoever drives a run
//! does that, and hands the library plain values.

pub mod command;
pub mod display;
pub mod dump;
pub mod error;
pub mod line;
pub mod merger;
pub mod outcome;
pub mod paint;
pub mod reader;
pub mod runner;
pub mod text;
