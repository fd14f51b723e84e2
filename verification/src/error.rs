//! Errors reported by the recognizer and the interpreter.

use vstd::prelude::*;
use crate::text::{decimal, decimal_string};

verus! {

/// What the recognizer would have accepted at the position where it stopped.
/// Each variant stands for a set of alternatives.
#[derive(Debug, Clone, Copy, PartialEq, Eq, Structural)]
pub enum Expected {
    /// `DEFINE`, `GET`, `COUNT`, or the end of the input.
    CommandOrEnd,
    /// The keyword `bike`.
    BikeKeyword,
    /// The keyword `BIKES`.
    BikesKeyword,
    /// An opening `"` of a string literal.
    StringLiteral,
    /// The `"` that closes a string literal.
    ClosingQuote,
    /// `{`.
    OpenBrace,
    /// A property (an identifier) or `}`.
    PropertyOrCloseBrace,
    /// A property (an identifier).
    Property,
    /// `:`.
    Colon,
    /// A number, a number with the unit `cc`, a string literal or an identifier.
    Value,
    /// `,` or `}`.
    CommaOrCloseBrace,
    /// The field name of a condition (an identifier).
    Field,
    /// `=`, `>` or `<`.
    Operator,
}

/// The input does not conform to the grammar: the offset (in characters) at
/// which recognition stopped, and what would have been accepted there.
#[derive(Debug, Clone, Copy, PartialEq, Eq, Structural)]
pub struct SyntaxError {
    pub position: usize,
    pub expected: Expected,
}

/// The errors of the library.
#[derive(Debug, Clone, PartialEq)]
pub enum MotoError {
    /// The source text was rejected by the recognizer.
    ParseError(SyntaxError),
    /// A semantic failure during execution.
    InterpreterError(String),
}

impl Expected {
    /// The alternatives, in words.
    pub open spec fn text(self) -> Seq<char> {
        match self {
            Expected::CommandOrEnd => "DEFINE, GET, COUNT or the end of the input"@,
            Expected::BikeKeyword => "the keyword bike"@,
            Expected::BikesKeyword => "the keyword BIKES"@,
            Expected::StringLiteral => "a string literal"@,
            Expected::ClosingQuote => "a closing double quote"@,
            Expected::OpenBrace => "an opening brace"@,
            Expected::PropertyOrCloseBrace => "a property or a closing brace"@,
            Expected::Property => "a property"@,
            Expected::Colon => "a colon"@,
            Expected::Value => "a number, a string literal or an identifier"@,
            Expected::CommaOrCloseBrace => "a comma or a closing brace"@,
            Expected::Field => "a field name"@,
            Expected::Operator => "one of the operators =, > and <"@,
        }
    }

    /// The alternatives, in words.
    pub fn describe(&self) -> (s: &'static str)
        ensures
            s@ == self.text(),
    {
        match self {
            Expected::CommandOrEnd => "DEFINE, GET, COUNT or the end of the input",
            Expected::BikeKeyword => "the keyword bike",
            Expected::BikesKeyword => "the keyword BIKES",
            Expected::StringLiteral => "a string literal",
            Expected::ClosingQuote => "a closing double quote",
            Expected::OpenBrace => "an opening brace",
            Expected::PropertyOrCloseBrace => "a property or a closing brace",
            Expected::Property => "a property",
            Expected::Colon => "a colon",
            Expected::Value => "a number, a string literal or an identifier",
            Expected::CommaOrCloseBrace => "a comma or a closing brace",
            Expected::Field => "a field name",
            Expected::Operator => "one of the operators =, > and <",
        }
    }
}

impl SyntaxError {
    /// The message of the error: the position in decimal and the
    /// alternatives in words.
    pub open spec fn text(self) -> Seq<char> {
        "at character "@ + decimal(self.position as nat) + ": expected "@ + self.expected.text()
    }

    /// The message of the error.
    pub fn message(&self) -> (s: String)
        ensures
            s@ == self.text(),
    {
        let mut s = String::from_str("at character ");
        s.append(decimal_string(self.position).as_str());
        s.append(": expected ");
        s.append(self.expected.describe());
        s
    }
}

impl MotoError {
    /// The message of the error, by kind.
    pub open spec fn text(self) -> Seq<char> {
        match self {
            MotoError::ParseError(e) => "Parsing error: "@ + e.text(),
            MotoError::InterpreterError(m) => "Interp error: "@ + m@,
        }
    }

    /// The message of the error.
    pub fn message(&self) -> (s: String)
        ensures
            s@ == self.text(),
    {
        match self {
            MotoError::ParseError(e) => {
                let mut s = String::from_str("Parsing error: ");
                s.append(e.message().as_str());
                s
            },
            MotoError::InterpreterError(m) => {
                let mut s = String::from_str("Interp error: ");
                s.append(m.as_str());
                s
            },
        }
    }
}

} // verus!
