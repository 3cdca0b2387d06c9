//! The one error type of the engine.

use vstd::prelude::*;

verus! {

/// Anything that can go wrong while compiling or running an operator.
///
/// Construction errors are terminal for the definition that caused them.
/// Runtime per-point anomalies are not errors: they are represented by
/// writing the NaN bit pattern into the output coordinate.
#[derive(Debug, Clone, PartialEq, Eq)]
pub enum GeodesyError {
    /// A lower-level read failure, described by the reader.
    Io(String),
    /// A general error with a static message.
    General(&'static str),
    /// A parser-level error, with the offending fragment.
    Syntax(String),
    /// An operator name paired with a message.
    Operator(&'static str, &'static str),
    /// A header did not hold what it should have held.
    InvalidHeader { expected: String, found: String },
    /// A resource or operator name that could not be resolved.
    NotFound(String),
    /// Macro expansion recursed too deeply; holds the offending definition.
    Recursion(String),
    /// Something else.
    Unknown,
}

impl GeodesyError {
    /// A short, stable tag naming the error kind.
    pub fn kind(&self) -> (r: &'static str)
        ensures
            r@ == self.kind_spec(),
    {
        match self {
            GeodesyError::Io(_) => "io",
            GeodesyError::General(_) => "general",
            GeodesyError::Syntax(_) => "syntax",
            GeodesyError::Operator(_, _) => "operator",
            GeodesyError::InvalidHeader { .. } => "invalid header",
            GeodesyError::NotFound(_) => "not found",
            GeodesyError::Recursion(_) => "recursion",
            GeodesyError::Unknown => "unknown",
        }
    }

    /// What `kind` returns, as a sequence of characters.
    pub open spec fn kind_spec(&self) -> Seq<char> {
        match self {
            GeodesyError::Io(_) => "io"@,
            GeodesyError::General(_) => "general"@,
            GeodesyError::Syntax(_) => "syntax"@,
            GeodesyError::Operator(_, _) => "operator"@,
            GeodesyError::InvalidHeader { .. } => "invalid header"@,
            GeodesyError::NotFound(_) => "not found"@,
            GeodesyError::Recursion(_) => "recursion"@,
            GeodesyError::Unknown => "unknown"@,
        }
    }

    /// What `message` returns: the kind tag, and the detail the variant
    /// carries, if any.
    pub open spec fn message_spec(&self) -> Seq<char> {
        match self {
            GeodesyError::Io(detail) => "io"@ + ": "@ + detail@,
            GeodesyError::General(detail) => "general"@ + ": "@ + detail@,
            GeodesyError::Syntax(detail) => "syntax"@ + ": "@ + detail@,
            GeodesyError::Operator(name, detail) => "operator"@ + ": "@ + name@ + ": "@
                + detail@,
            GeodesyError::InvalidHeader { expected, found } => "invalid header"@
                + ": expected "@ + expected@ + ", found "@ + found@,
            GeodesyError::NotFound(detail) => "not found"@ + ": "@ + detail@,
            GeodesyError::Recursion(detail) => "recursion"@ + ": "@ + detail@,
            GeodesyError::Unknown => "unknown"@,
        }
    }

    /// A human-readable message: the kind tag, and the detail the variant
    /// carries, if any.
    pub fn message(&self) -> (r: String)
        ensures
            r@ == self.message_spec(),
    {
        let mut s = String::new();
        s.append(self.kind());
        match self {
            GeodesyError::Io(detail) => {
                s.append(": ");
                s.append(detail.as_str());
            },
            GeodesyError::General(detail) => {
                s.append(": ");
                s.append(detail);
            },
            GeodesyError::Syntax(detail) => {
                s.append(": ");
                s.append(detail.as_str());
            },
            GeodesyError::Operator(name, detail) => {
                s.append(": ");
                s.append(name);
                s.append(": ");
                s.append(detail);
            },
            GeodesyError::InvalidHeader { expected, found } => {
                s.append(": expected ");
                s.append(expected.as_str());
                s.append(", found ");
                s.append(found.as_str());
            },
            GeodesyError::NotFound(detail) => {
                s.append(": ");
                s.append(detail.as_str());
            },
            GeodesyError::Recursion(detail) => {
                s.append(": ");
                s.append(detail.as_str());
            },
            GeodesyError::Unknown => {},
        }
        s
    }
}

} // verus!
