//! Runs a delimited list of shell commands and turns each outcome into a
//! chat-style transcript record.
//!
//! The verified part of the crate holds the input parser, the step that turns
//! a command string into a program and its arguments, the classification of an
//! exit status, and the construction of the transcript records.

pub mod text;
pub mod parse;
pub mod exec;
pub mod transcript;
