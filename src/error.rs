use vstd::prelude::*;

verus! {

/// Front-end errors, each with the line and column where it arose.
#[derive(Debug, Clone, PartialEq)]
pub enum NomaError {
    LexError { message: String, line: usize, column: usize },
    ParseError { message: String, line: usize, column: usize },
}

} // verus!
