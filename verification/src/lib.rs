//! Core of a minimal interactive command interpreter: tokenizing an input
//! line, parsing it into a structured command, classifying builtins,
//! resolving program names against a search path, and deciding the effect
//! of each command. All I/O (prompting, reading lines, changing the working
//! directory, spawning children) is left to the surrounding program, which
//! feeds plain values in and carries the decided actions out.

pub mod command;
pub mod executor;
pub mod parser;
pub mod resolver;
pub mod text;
pub mod tokenizer;
