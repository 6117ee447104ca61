//! Why a parse or a scan fails.

use vstd::prelude::*;

verus! {

/// What the JSON parser reports about malformed text.
#[derive(Debug, PartialEq, Eq)]
pub struct SyntaxError {
    /// The parser's description, with the position.
    pub message: String,
    /// The 1-based line of the fault (0 when the parser gives none).
    pub line: usize,
    /// The 1-based column of the fault (0 when the parser gives none).
    pub column: usize,
}

impl View for SyntaxError {
    type V = (Seq<char>, usize, usize);

    /// The message, line and column.
    open spec fn view(&self) -> (Seq<char>, usize, usize) {
        (self.message@, self.line, self.column)
    }
}

/// Why a parse failed.
///
/// Both violation kinds (`__proto__` and `constructor.prototype`) share the
/// one variant [`Error::ForbiddenProperty`].
#[derive(Debug)]
pub enum Error {
    /// The JSON text was malformed.
    Syntax(SyntaxError),
    /// The value held a forbidden prototype property.
    ForbiddenProperty,
}

impl Error {
    /// The message the error displays.
    pub fn message(&self) -> (s: String)
        ensures
            match self {
                Error::Syntax(e) => s@ == e.message@,
                Error::ForbiddenProperty => s@ == "Object contains forbidden prototype property"@,
            },
    {
        match self {
            Error::Syntax(e) => e.message.clone(),
            Error::ForbiddenProperty => "Object contains forbidden prototype property".to_owned(),
        }
    }
}

} // verus!
