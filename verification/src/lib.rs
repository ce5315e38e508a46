//! A small interactive shell's command-execution engine.
//!
//! A raw input line is parsed into a structured pipeline description
//! ([`pipeline::PipelineSpec`]), and that description is realized as a graph
//! of operating-system processes by stepping an [`engine::Execution`] state
//! machine. The parser and the machine's decisions are verified; the process
//! and file work itself is performed outside the library by an interpreter
//! that carries out each [`engine::Action`] and reports an [`engine::Event`]
//! back.

pub mod engine;
pub mod parser;
pub mod pipeline;
pub mod text;
