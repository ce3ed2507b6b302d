//! Indexing and background-processing engine of a viewer for large,
//! possibly still growing, line-oriented log files.

pub mod app;
pub mod cancel;
pub mod chars;
pub mod command;
pub mod config;
pub mod datetime;
pub mod engine;
pub mod filter;
pub mod input;
pub mod log;
pub mod mapped;
pub mod marking;
pub mod matching;
pub mod numbers;
pub mod palette;
pub mod pattern;
pub mod search;
pub mod selection;
pub mod semantic;
pub mod text;
pub mod worker;
