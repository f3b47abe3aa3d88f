//! Error vocabulary of the library.
//!
//! Scanning fails with a [`LexError`]; parsing fails with a `ParseError`
//! (defined next to the parser). [`MyError`] is the coarse, caller-facing
//! vocabulary used by command-line drivers around the library.

use vstd::prelude::*;

verus! {

use vstd::string::StringExecFns;

/// Mathematical model of a [`LexError`]: the same variants over `Seq<char>`
/// and unbounded integers.
pub ghost enum LexErrorModel {
    UnexpectedCharacter { character: char, line: int },
    NumberFormatError { lexeme: Seq<char>, line: int },
}

/// An error produced while scanning source text into tokens.
#[derive(Debug, PartialEq)]
pub enum LexError {
    /// A character that no lexical rule matches, with the 1-based source line
    /// it was found on.
    UnexpectedCharacter { character: char, line: u64 },
    /// A numeric lexeme whose decoded integer value does not fit `i64`.
    NumberFormatError { lexeme: String, line: u64 },
}

impl View for LexError {
    type V = LexErrorModel;

    open spec fn view(&self) -> LexErrorModel {
        match *self {
            LexError::UnexpectedCharacter { character, line } => (LexErrorModel::UnexpectedCharacter {
                character: character,
                line: line as int,
            }),
            LexError::NumberFormatError { lexeme, line } => (LexErrorModel::NumberFormatError {
                lexeme: lexeme@,
                line: line as int,
            }),
        }
    }
}

/// Coarse error vocabulary for command-line drivers: a missing argument, a
/// file that could not be read, or a scan/parse failure rendered as text.
#[derive(Debug)]
pub enum MyError {
    CommandLineArgs,
    FileReadError { path: String, error: String },
    ParsingError(String),
}

impl MyError {
    /// The user-facing description of the error.
    pub fn message(&self) -> (r: String)
        ensures
            match *self {
                MyError::CommandLineArgs => r@
                    == "Please provide a file name as a command-line argument."@,
                MyError::FileReadError { path, error } => r@ == "Error reading the file '"@ + path@
                    + "': "@ + error@,
                MyError::ParsingError(msg) => r@ == "Parsing error: "@ + msg@,
            },
    {
        match self {
            MyError::CommandLineArgs => "Please provide a file name as a command-line argument.".to_owned(),
            MyError::FileReadError { path, error } => ("Error reading the file '".to_owned().concat(
                path.as_str(),
            ).concat("': ").concat(error.as_str())),
            MyError::ParsingError(msg) => "Parsing error: ".to_owned().concat(msg.as_str()),
        }
    }
}

} // verus!
