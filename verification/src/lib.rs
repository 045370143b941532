//! A verified interpreter and simulator for a Siemens-style G-code dialect.
//!
//! The crate parses program text into lines of words, groups the lines into
//! main and sub programs, walks the chosen main program while expanding
//! subprogram calls, and feeds the resulting command stream to a milling
//! machine simulator that enforces the machine's safety rules and drives a
//! pluggable renderer.

pub mod errors;
pub mod text;
pub mod types;
pub mod words;
pub mod parser;
pub mod actions;
pub mod file;
pub mod program;
pub mod geometry;
pub mod render;
pub mod mach;
