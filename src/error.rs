//! The parse error, which carries a location and what was expected and found.

use vstd::prelude::*;
use crate::text::{decimal, decimal_string};

verus! {

/// What a `MdParseError` holds.
pub struct ParseErrorModel {
    pub file: Option<Seq<char>>,
    pub line: Option<nat>,
    pub expected: Seq<char>,
    pub got: Seq<char>,
}

/// A grammar error: where it happened, if known, what was expected, and what was found.
#[derive(Debug, PartialEq)]
pub struct MdParseError {
    file: Option<String>,
    line: Option<usize>,
    expected: String,
    got: String,
}

pub open spec fn opt_string_view(o: Option<String>) -> Option<Seq<char>> {
    match o {
        Some(s) => Some(s@),
        None => None,
    }
}

impl View for MdParseError {
    type V = ParseErrorModel;

    closed spec fn view(&self) -> ParseErrorModel {
        ParseErrorModel {
            file: opt_string_view(self.file),
            line: match self.line {
                Some(l) => Some(l as nat),
                None => None,
            },
            expected: self.expected@,
            got: self.got@,
        }
    }
}

/// The model of an error with no location.
pub open spec fn unlocated(expected: Seq<char>, got: Seq<char>) -> ParseErrorModel {
    ParseErrorModel { file: None, line: None, expected, got }
}

/// The model of an error located on `line` of an unnamed input.
pub open spec fn at_line(line: nat, expected: Seq<char>, got: Seq<char>) -> ParseErrorModel {
    ParseErrorModel { file: None, line: Some(line), expected, got }
}

/// `e` with its line number replaced by `line`.
pub open spec fn with_line(e: ParseErrorModel, line: nat) -> ParseErrorModel {
    ParseErrorModel { line: Some(line), ..e }
}

/// `e` with its line number set to `line` unless it already has one.
pub open spec fn locate(e: ParseErrorModel, line: nat) -> ParseErrorModel {
    if e.line is Some { e } else { with_line(e, line) }
}

/// The text that describes an error to a reader.
pub open spec fn error_message(e: ParseErrorModel) -> Seq<char> {
    "Parse error in '"@
        + (match e.file { Some(f) => f, None => "<unknown>"@ })
        + "' on line "@
        + decimal(match e.line { Some(l) => l, None => 0 })
        + ": expected '"@
        + e.expected
        + "', got '"@
        + e.got
        + "'"@
}

impl MdParseError {
    pub fn new(expected: &str, got: &str) -> (r: Self)
        ensures
            r@ == unlocated(expected@, got@),
    {
        MdParseError {
            file: None,
            line: None,
            expected: expected.to_string(),
            got: got.to_string(),
        }
    }

    pub fn from_line(line: usize, expected: &str, got: &str) -> (r: Self)
        ensures
            r@ == at_line(line as nat, expected@, got@),
    {
        MdParseError {
            file: None,
            line: Some(line),
            expected: expected.to_string(),
            got: got.to_string(),
        }
    }

    /// The same error, located on `line`.
    pub fn set_line(self, line: usize) -> (r: Self)
        ensures
            r@ == with_line(self@, line as nat),
    {
        MdParseError { line: Some(line), ..self }
    }

    /// The same error, located in `file`.
    pub fn set_file(self, file: String) -> (r: Self)
        ensures
            r@ == (ParseErrorModel { file: Some(file@), ..self@ }),
    {
        MdParseError { file: Some(file), ..self }
    }

    /// The line the error is located on, if known.
    pub fn line(&self) -> (r: Option<usize>)
        ensures
            r is Some <==> self@.line is Some,
            r is Some ==> self@.line == Some(r->0 as nat),
    {
        self.line
    }

    /// The error as text: `Parse error in '<file>' on line <n>: expected '<e>', got '<g>'`.
    pub fn message(&self) -> (r: String)
        ensures
            r@ == error_message(self@),
    {
        let mut r = "Parse error in '".to_string();
        match &self.file {
            Some(f) => r.append(f.as_str()),
            None => r.append("<unknown>"),
        }
        r.append("' on line ");
        let n: usize = match self.line {
            Some(l) => l,
            None => 0,
        };
        r.append(decimal_string(n).as_str());
        r.append(": expected '");
        r.append(self.expected.as_str());
        r.append("', got '");
        r.append(self.got.as_str());
        r.append("'");
        r
    }
}

/// An error of the whole pipeline: a file system failure or a grammar error.
#[derive(Debug, PartialEq)]
pub enum Error {
    FSError(String),
    Parse(MdParseError),
}

impl From<MdParseError> for Error {
    fn from(value: MdParseError) -> (r: Error) {
        Error::Parse(value)
    }
}

impl vstd::std_specs::convert::FromSpecImpl<MdParseError> for Error {
    open spec fn obeys_from_spec() -> bool {
        true
    }

    open spec fn from_spec(v: MdParseError) -> Error {
        Error::Parse(v)
    }
}

} // verus!
