//! The log file's lines: how they are classified and indexed.

pub mod index;
pub mod laws;
pub mod parser;
pub mod reader;
pub mod tail;

pub use index::{IndexChunk, LevelCounts};
pub use parser::{detect_level, LevelClassifier, LogLevel, TimestampFormat, TimestampKind};
pub use reader::LogSource;
