//! rsfetch: the logic of a small system-information fetcher.
//!
//! The library decides what the program shows: the configuration and its
//! defaults, the ASCII art, which information lines appear and how each
//! value is rendered. Reading the machine, the files and the environment,
//! and printing, are left to the program around it.

pub mod text;
pub mod document;
pub mod config;
pub mod art;
pub mod style;
pub mod report;
