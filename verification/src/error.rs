//! The error values shared by every stage of the pipeline.
use vstd::prelude::*;

use crate::lexer::TT;

verus! {

/// The runtime tag of a value, without its payload.
#[derive(Clone, Copy, Debug, PartialEq, Eq, Structural)]
pub enum Kind {
    Null,
    Integer,
    Real,
    Boolean,
    Tuple,
    String,
    Array,
    Object,
    BuiltInFunction,
    Method,
    Function,
}

/// Why a source text could not be tokenized, parsed or evaluated.
#[derive(Clone, Copy, Debug, PartialEq, Eq, Structural)]
pub enum Error {
    /// The character at `position` (counted in characters) starts no token.
    Lex { position: usize, character: char },
    /// The token at index `position`, which is of kind `token`, does not fit
    /// the grammar.
    Parse { position: usize, token: TT },
    /// A name was read or assigned that no enclosing scope holds.
    UndefinedName,
    /// A call handed over `given` arguments where `declared` were asked for.
    Arity { declared: usize, given: usize },
    /// A value of kind `found` stood where one of kind `expected` was
    /// needed; also a string that was to be read as a number of kind
    /// `expected` and spells none.
    TypeMismatch { expected: Kind, found: Kind },
    /// A member access named a field or method that the receiver lacks.
    PropertyNotFound,
    /// An integer result does not fit 64 bits, a remainder by zero was asked
    /// for, or a repetition count was negative.
    Arithmetic,
    /// A declaration, an assignment or a parameter names something that is
    /// no identifier.
    InvalidTarget,
    /// A string was to be split at an empty separator.
    EmptySeparator,
    /// The evaluation nested deeper than the evaluator allows.
    DepthExceeded,
    /// The host answered with an event that the evaluator had not asked for.
    UnexpectedEvent,
}

} // verus!
