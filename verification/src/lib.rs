//! A notepad calculator's verified core: lexer, parser, units and the editor state machine.
use vstd::prelude::*;

pub mod app;
pub mod ast;
pub mod clipboard;
pub mod editor;
pub mod error;
pub mod functions;
pub mod isolation;
pub mod laws;
pub mod lexer;
pub mod mode;
pub mod motion;
pub mod parser;
pub mod text;
pub mod units;
pub mod view;
pub mod words;

use crate::ast::{Line, lines_view};
use crate::error::CalcError;
use crate::lexer::{Lexer, lex_document, line_count};
use crate::parser::{Parser, parse_document_spec, lemma_document_line_count};

verus! {

/// Lexes and parses a whole document: one `Line` per line, or the lexical
/// error that stops the whole document.
pub fn parse_input(input: &str) -> (r: Result<Vec<Line>, CalcError>)
    requires
        input@.len() < usize::MAX,
    ensures
        match lex_document(input@) {
            Ok(ts) => r matches Ok(lines) && lines_view(lines@) == parse_document_spec(ts),
            Err(e) => r matches Err(x) && x@ == e,
        },
        r matches Ok(lines) ==> lines@.len() == line_count(input@),
{
    let mut lex = Lexer::new(input);
    let tokens = match lex.tokenize() {
        Ok(t) => t,
        Err(e) => {
            return Err(e);
        },
    };
    proof {
        lemma_document_line_count(input@);
    }
    let mut parser = Parser::new(tokens);
    parser.parse_document()
}

} // verus!
