//! What can go wrong while a source is parsed.

use crate::generator::{decimal, decimal_text};
use vstd::prelude::*;
use vstd::string::StringExecFns;

verus! {

/// The failures of a parse. Each ends the call that met it: no partial
/// result comes with it.
#[derive(Debug)]
pub enum ParserError {
    /// The content holds nothing but white space.
    EmptyContent,
    /// A triple-quoted literal was opened on the given line, counted from 1,
    /// and never closed.
    UnterminatedDocstring(usize),
    /// The grammar did not match; the text is the matcher's diagnostic.
    SyntaxError(String),
    /// The caller could not read the source; the text says why.
    IoError(String),
}

/// The words in which a failure is reported.
pub open spec fn message_of(e: ParserError) -> Seq<char> {
    match e {
        ParserError::EmptyContent => "File contetnt is empty, nothing to parse"@,
        ParserError::UnterminatedDocstring(line) => "Docstring starting at line "@ + decimal(
            line as nat,
        ) + " is missing a closing triple quote"@,
        ParserError::SyntaxError(text) => "Syntax error while parsing: "@ + text@,
        ParserError::IoError(text) => "Failed to read file: "@ + text@,
    }
}

impl ParserError {
    /// Says in words what went wrong.
    pub fn message(&self) -> (s: String)
        ensures
            s@ == message_of(*self),
    {
        match self {
            ParserError::EmptyContent => "File contetnt is empty, nothing to parse".to_owned(),
            ParserError::UnterminatedDocstring(line) => {
                let mut s = "Docstring starting at line ".to_owned();
                s.append(decimal_text(*line).as_str());
                s.append(" is missing a closing triple quote");
                s
            },
            ParserError::SyntaxError(text) => {
                let mut s = "Syntax error while parsing: ".to_owned();
                s.append(text.as_str());
                s
            },
            ParserError::IoError(text) => {
                let mut s = "Failed to read file: ".to_owned();
                s.append(text.as_str());
                s
            },
        }
    }
}

} // verus!
