use vstd::prelude::*;

verus! {

/// Which kind of node an operation was attempted on.
#[derive(Debug, Clone, Copy, PartialEq, Eq, Structural)]
pub enum NodeKind {
    Heading,
    Image,
}

/// A node operation that a node kind may refuse.
#[derive(Debug, Clone, Copy, PartialEq, Eq, Structural)]
pub enum NodeOperation {
    SetText,
    SetChildren,
}

/// Every failure that scanning source text or editing a document can produce.
#[derive(Debug, PartialEq, Eq)]
pub enum UcreError {
    /// A free-form message built at run time.
    String(String),
    /// A fixed message.
    Str(&'static str),
    /// A `"` was opened on the given line and never closed.
    UnterminatedString { line: usize },
    /// The bytes of a literal are not valid UTF-8.
    InvalidUtf8,
    /// A numeric literal is not a valid decimal floating-point number.
    NumberParseFailure,
    /// `lua` was not followed by `[`.
    InvalidRawBlockSyntax,
    /// A byte that starts no token, with the line it stands on.
    UnknownCharacter { character: char, line: usize },
    /// The input ended where more was required.
    UnexpectedEndOfInput,
    /// A node kind does not support the attempted operation.
    UnsupportedNodeOperation { kind: NodeKind, operation: NodeOperation },
    /// Reading the input failed.
    IoFailure(String),
}

/// The process exit status that reports an error of this kind; each kind has
/// its own.
pub open spec fn exit_code_of(e: UcreError) -> i32 {
    match e {
        UcreError::String(_) => 1,
        UcreError::Str(_) => 2,
        UcreError::UnterminatedString { .. } => 3,
        UcreError::InvalidUtf8 => 4,
        UcreError::NumberParseFailure => 5,
        UcreError::InvalidRawBlockSyntax => 6,
        UcreError::UnknownCharacter { .. } => 7,
        UcreError::UnexpectedEndOfInput => 8,
        UcreError::UnsupportedNodeOperation { .. } => 9,
        UcreError::IoFailure(_) => 10,
    }
}

/// Errors of different kinds report different exit statuses, and none
/// reports success.
pub proof fn lemma_exit_codes_distinct(a: UcreError, b: UcreError)
    ensures
        exit_code_of(a) != 0,
        exit_code_of(a) == exit_code_of(b) ==> a.kind_index() == b.kind_index(),
{
}

impl UcreError {
    /// The position of the variant in the declaration.
    pub open spec fn kind_index(&self) -> int {
        match self {
            UcreError::String(_) => 0,
            UcreError::Str(_) => 1,
            UcreError::UnterminatedString { .. } => 2,
            UcreError::InvalidUtf8 => 3,
            UcreError::NumberParseFailure => 4,
            UcreError::InvalidRawBlockSyntax => 5,
            UcreError::UnknownCharacter { .. } => 6,
            UcreError::UnexpectedEndOfInput => 7,
            UcreError::UnsupportedNodeOperation { .. } => 8,
            UcreError::IoFailure(_) => 9,
        }
    }

    /// The exit status for this error.
    pub fn exit_code(&self) -> (c: i32)
        ensures
            c == exit_code_of(*self),
    {
        match self {
            UcreError::String(_) => 1,
            UcreError::Str(_) => 2,
            UcreError::UnterminatedString { .. } => 3,
            UcreError::InvalidUtf8 => 4,
            UcreError::NumberParseFailure => 5,
            UcreError::InvalidRawBlockSyntax => 6,
            UcreError::UnknownCharacter { .. } => 7,
            UcreError::UnexpectedEndOfInput => 8,
            UcreError::UnsupportedNodeOperation { .. } => 9,
            UcreError::IoFailure(_) => 10,
        }
    }

    pub fn new(s: String) -> (r: Self)
        ensures
            r == UcreError::String(s),
    {
        UcreError::String(s)
    }

    pub fn from_str(s: &'static str) -> (r: Self)
        ensures
            r == UcreError::Str(s),
    {
        UcreError::Str(s)
    }
}

} // verus!
