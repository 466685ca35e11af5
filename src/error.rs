use vstd::prelude::*;

use crate::parser::ParserError;
use crate::scanner::ScannerError;
use crate::value::InterpreterError;

verus! {

/// An error of any phase, as the calling layer reports it.
#[derive(Debug)]
pub enum FacingRoxError {
    ParserError(ParserError),
    ScannerError(ScannerError),
    InterpreterError(InterpreterError),
}

/// Each lexical error, in order, as a reported error.
pub fn from_scanner_errors(errors: Vec<ScannerError>) -> (r: Vec<FacingRoxError>)
    ensures
        r@.len() == errors@.len(),
        forall|k: int|
            0 <= k < r@.len() ==> #[trigger] r@[k] == FacingRoxError::ScannerError(errors@[k]),
{
    let mut out: Vec<FacingRoxError> = Vec::new();
    let mut rest = errors;
    let ghost all = rest@;
    let mut taken: usize = 0;
    let total = rest.len();
    while rest.len() > 0
        invariant
            total == all.len(),
            taken + rest@.len() == all.len(),
            out@.len() == taken,
            rest@ == all.subrange(taken as int, all.len() as int),
            forall|k: int|
                0 <= k < taken ==> #[trigger] out@[k] == FacingRoxError::ScannerError(all[k]),
        decreases rest@.len(),
    {
        let e = rest.remove(0);
        out.push(FacingRoxError::ScannerError(e));
        taken = taken + 1;
        assert(rest@ =~= all.subrange(taken as int, all.len() as int));
    }
    out
}

/// Each parse error, in order, as a reported error.
pub fn from_parser_errors(errors: Vec<ParserError>) -> (r: Vec<FacingRoxError>)
    ensures
        r@.len() == errors@.len(),
        forall|k: int|
            0 <= k < r@.len() ==> #[trigger] r@[k] == FacingRoxError::ParserError(errors@[k]),
{
    let mut out: Vec<FacingRoxError> = Vec::new();
    let mut rest = errors;
    let ghost all = rest@;
    let mut taken: usize = 0;
    let total = rest.len();
    while rest.len() > 0
        invariant
            total == all.len(),
            taken + rest@.len() == all.len(),
            out@.len() == taken,
            rest@ == all.subrange(taken as int, all.len() as int),
            forall|k: int|
                0 <= k < taken ==> #[trigger] out@[k] == FacingRoxError::ParserError(all[k]),
        decreases rest@.len(),
    {
        let e = rest.remove(0);
        out.push(FacingRoxError::ParserError(e));
        taken = taken + 1;
        assert(rest@ =~= all.subrange(taken as int, all.len() as int));
    }
    out
}

} // verus!
