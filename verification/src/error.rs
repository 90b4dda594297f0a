//! Source spans and the error type shared by the lexer and the evaluator.

use vstd::prelude::*;

verus! {

/// A half-open range of character offsets `[start, end)` into the source text.
#[derive(Clone, Copy, PartialEq, Eq, Structural, Debug)]
pub struct Pos {
    pub start: usize,
    pub end: usize,
}

impl Pos {
    pub fn new(start: usize, end: usize) -> (p: Pos)
        ensures
            p.start == start,
            p.end == end,
    {
        Pos { start, end }
    }
}

/// The three classes of failure the front end can report.
#[derive(Clone, Copy, PartialEq, Eq, Structural, Debug)]
pub enum ErrorType {
    LexError,
    RuntimeError,
    TypeError,
}

/// An error: a human-readable message, an error class, and the span it covers.
#[derive(Debug)]
pub struct Error {
    pub message: String,
    pub error_type: ErrorType,
    pub pos: Pos,
}

/// The mathematical model of an [`Error`].
pub struct ErrorModel {
    pub message: Seq<char>,
    pub error_type: ErrorType,
    pub start: int,
    pub end: int,
}

impl View for Error {
    type V = ErrorModel;

    open spec fn view(&self) -> ErrorModel {
        ErrorModel {
            message: self.message@,
            error_type: self.error_type,
            start: self.pos.start as int,
            end: self.pos.end as int,
        }
    }
}

impl Error {
    pub fn new(message: String, error_type: ErrorType, pos: Pos) -> (e: Error)
        ensures
            e.message == message,
            e.error_type == error_type,
            e.pos == pos,
    {
        Error { message, error_type, pos }
    }
}

} // verus!
