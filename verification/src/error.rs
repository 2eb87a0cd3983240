//! The error type shared by the lexer, the parser and unit conversion.
use vstd::prelude::*;
use crate::text::{concat_str, decimal_string, decimal_text};

verus! {

/// An error with a message and, for lexer and parser errors, the 1-based
/// line and column where it was found (`line == 0` for evaluation errors).
#[derive(Debug)]
pub struct CalcError {
    pub message: String,
    pub line: usize,
    pub col: usize,
}

/// The mathematical content of a `CalcError`.
pub struct CalcErrorV {
    pub message: Seq<char>,
    pub line: nat,
    pub col: nat,
}

impl View for CalcError {
    type V = CalcErrorV;

    open spec fn view(&self) -> CalcErrorV {
        CalcErrorV { message: self.message@, line: self.line as nat, col: self.col as nat }
    }
}

impl CalcErrorV {
    /// The text shown for the error: `[line:col] message` when a position is
    /// known, the bare message otherwise.
    pub open spec fn display_text(self) -> Seq<char> {
        if self.line > 0 {
            "["@ + decimal_text(self.line) + ":"@ + decimal_text(self.col) + "] "@
                + self.message
        } else {
            self.message
        }
    }
}

impl CalcError {
    /// An error found at `line`:`col`.
    pub fn new(message: String, line: usize, col: usize) -> (r: Self)
        ensures
            r == (CalcError { message, line, col }),
    {
        CalcError { message, line, col }
    }

    /// An evaluation error, which carries no position.
    pub fn eval(message: String) -> (r: Self)
        ensures
            r == (CalcError { message, line: 0, col: 0 }),
    {
        CalcError { message, line: 0, col: 0 }
    }

    /// A copy of this error.
    pub fn duplicate(&self) -> (r: Self)
        ensures
            r@ == self@,
    {
        CalcError { message: self.message.clone(), line: self.line, col: self.col }
    }

    /// The text of the error as users see it: `[line:col] message` when the
    /// error has a position, otherwise just the message.
    pub fn to_display_string(&self) -> (r: String)
        ensures
            r@ == self@.display_text(),
    {
        if self.line > 0 {
            let l = decimal_string(self.line);
            let c = decimal_string(self.col);
            let mut s = concat_str("[", l.as_str());
            s.append(":");
            s.append(c.as_str());
            s.append("] ");
            s.append(self.message.as_str());
            s
        } else {
            self.message.clone()
        }
    }
}

} // verus!
