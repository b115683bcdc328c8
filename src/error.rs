use vstd::prelude::*;

verus! {

/// What went wrong while parsing a component tag.
#[derive(Clone, Copy, Debug, PartialEq, Eq, Structural)]
pub enum ErrorKind {
    /// The tag is not of the form `< .. />`.
    MalformedTag,
    /// A property label is the reserved word `type`.
    ReservedLabel,
    /// A property label carries a dashed extension (`a-b`).
    QualifiedLabel,
    /// The tokens ran out where more were needed.
    UnexpectedEndOfInput,
    /// The delegate form does not start with the keyword `with`.
    DelegateKeywordMismatch,
    /// An identifier was expected.
    ExpectedIdent,
    /// A token is left over that no rule takes.
    UnexpectedToken,
    /// The value parser rejected a property value.
    BadValue,
}

/// A diagnostic, anchored to the tokens `lo..=hi` of the tag's stream
/// (`lo == hi` for one token; at the end of the stream, the index past it).
#[derive(Clone, Copy, Debug, PartialEq, Eq, Structural)]
pub struct ParseError {
    pub kind: ErrorKind,
    pub lo: usize,
    pub hi: usize,
}

pub open spec fn err(kind: ErrorKind, lo: int, hi: int) -> ParseError {
    ParseError { kind, lo: lo as usize, hi: hi as usize }
}

/// What the expression parser says of a property value that starts at a given token.
#[derive(Clone, Copy, Debug, PartialEq, Eq, Structural)]
pub enum ValueScan {
    /// The value ends just before this index.
    Ends(usize),
    /// The tokens ran out inside the value.
    EndOfInput,
    /// The tokens do not start a value.
    Invalid,
}

} // verus!
