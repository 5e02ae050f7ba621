//! Structural facts about Python sources: functions, classes, docstrings and
//! imports with their positions, grouped per module for reporting.

pub mod docstring;
pub mod error;
pub mod gemini;
pub mod generator;
pub mod grammar;
pub mod module_name;
pub mod order;
pub mod parser;
pub mod position;
pub mod report;
pub mod summary;
pub mod table;
pub mod text;
