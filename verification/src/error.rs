//! The errors of parsing and generating media types.
use vstd::prelude::*;
use vstd::string::StringSliceAdditionalSpecFns;
use vstd::utf8::length_of_first_scalar;
use quoted_string::error::CoreError;
use crate::text::{head_to, is_cut, lemma_cut_ends, lemma_str_valid, tail_from};

verus! {

/// The cause that `CoreError::id` numbers `id`; for a number above 6, which
/// it gives no cause, the last one.
pub open spec fn spec_core_error_from_id(id: u8) -> CoreError {
    if id == 0 {
        CoreError::AdvancedFailedAutomaton
    } else if id == 1 {
        CoreError::QuotedStringAlreadyEnded
    } else if id == 2 {
        CoreError::UnquoteableCharQuoted
    } else if id == 3 {
        CoreError::DoesNotStartWithDQuotes
    } else if id == 4 {
        CoreError::DoesNotEndWithDQuotes
    } else if id == 5 {
        CoreError::InvalidChar
    } else {
        CoreError::ZeroSizedValue
    }
}

/// The cause with the number `id`.
pub fn core_error_from_id(id: u8) -> (r: CoreError)
    ensures
        r == spec_core_error_from_id(id),
{
    if id == 0 {
        CoreError::AdvancedFailedAutomaton
    } else if id == 1 {
        CoreError::QuotedStringAlreadyEnded
    } else if id == 2 {
        CoreError::UnquoteableCharQuoted
    } else if id == 3 {
        CoreError::DoesNotStartWithDQuotes
    } else if id == 4 {
        CoreError::DoesNotEndWithDQuotes
    } else if id == 5 {
        CoreError::InvalidChar
    } else {
        CoreError::ZeroSizedValue
    }
}

/// What the parser wanted to see where it found something else.
#[derive(Copy, Clone, Debug, PartialEq, Eq, Hash)]
pub enum ExpectedChar {
    Char(char),
    CharClass(&'static str),
}

/// The kinds of parser errors. Every position is a byte offset into the input
/// that the error carries.
#[derive(Copy, Clone, Debug, PartialEq, Eq, Hash)]
pub enum ParserErrorKind {
    QuotedParamValue { pos: usize, cause: CoreError },
    UnquotedParamValue { pos: usize, cause: CoreError },
    UnexpectedChar { pos: usize, expected: ExpectedChar },
    UnexpectedEof,
    IllegalCrNlSeq { pos: usize },
}

pub type ErrorKind = ParserErrorKind;

pub type Error = ParserError;

impl ParserErrorKind {
    /// Pairs the kind with the input it was found in.
    pub fn with_input(self, input: &str) -> (r: ParserErrorRef<'_>)
        ensures
            r.input == input,
            r.kind == self,
    {
        ParserErrorRef::new(input, self)
    }

    /// A fixed one-line description of the kind.
    pub fn description(&self) -> (r: &'static str)
        ensures
            r@ == self.spec_description()@,
    {
        match *self {
            ParserErrorKind::QuotedParamValue { .. } => "parsing quoted parameter value failed",
            ParserErrorKind::UnquotedParamValue { .. } => "parsing unquoted parameter value failed",
            ParserErrorKind::UnexpectedChar { .. } => "parsing hit an unexpected character",
            ParserErrorKind::UnexpectedEof => "parsing unexpectedly hit eof",
            ParserErrorKind::IllegalCrNlSeq { .. } => "parsing found a illegal \"\\r\\n \"/\"\\r\\n\\t\" seqence",
        }
    }

    pub open spec fn spec_description(&self) -> &'static str {
        match *self {
            ParserErrorKind::QuotedParamValue { .. } => "parsing quoted parameter value failed",
            ParserErrorKind::UnquotedParamValue { .. } => "parsing unquoted parameter value failed",
            ParserErrorKind::UnexpectedChar { .. } => "parsing hit an unexpected character",
            ParserErrorKind::UnexpectedEof => "parsing unexpectedly hit eof",
            ParserErrorKind::IllegalCrNlSeq { .. } => "parsing found a illegal \"\\r\\n \"/\"\\r\\n\\t\" seqence",
        }
    }

    /// The lower-level cause, for the two kinds that wrap one.
    pub fn cause(&self) -> (r: Option<CoreError>)
        ensures
            r == self.spec_cause(),
    {
        match *self {
            ParserErrorKind::QuotedParamValue { cause, .. } => Some(cause),
            ParserErrorKind::UnquotedParamValue { cause, .. } => Some(cause),
            _ => None,
        }
    }

    pub open spec fn spec_cause(&self) -> Option<CoreError> {
        match *self {
            ParserErrorKind::QuotedParamValue { cause, .. } => Some(cause),
            ParserErrorKind::UnquotedParamValue { cause, .. } => Some(cause),
            _ => None,
        }
    }
}

/// A parser error that borrows the input it speaks of.
#[derive(Clone, Debug, PartialEq, Eq, Hash)]
pub struct ParserErrorRef<'a> {
    pub input: &'a str,
    pub kind: ParserErrorKind,
}

impl<'a> ParserErrorRef<'a> {
    pub fn new(input: &'a str, kind: ParserErrorKind) -> (r: Self)
        ensures
            r.input == input,
            r.kind == kind,
    {
        ParserErrorRef { input, kind }
    }

    pub fn input(&self) -> (r: &'a str)
        ensures
            r == self.input,
    {
        self.input
    }

    pub fn kind(&self) -> (r: ParserErrorKind)
        ensures
            r == self.kind,
    {
        self.kind
    }

    /// The same error with a copy of the input.
    pub fn to_owned(&self) -> (r: ParserError)
        ensures
            r.input@ == self.input@,
            r.kind == self.kind,
    {
        ParserError::new(self.input, self.kind)
    }
}

/// A parser error that owns a copy of the input it speaks of.
#[derive(Clone, Debug, PartialEq, Eq, Hash)]
pub struct ParserError {
    pub input: String,
    pub kind: ParserErrorKind,
}

impl ParserError {
    pub fn new(input: &str, kind: ParserErrorKind) -> (r: Self)
        ensures
            r.input@ == input@,
            r.kind == kind,
    {
        ParserError { input: input.to_owned(), kind }
    }

    pub fn input(&self) -> (r: &str)
        ensures
            r@ == self.input@,
    {
        self.input.as_str()
    }

    pub fn kind(&self) -> (r: ParserErrorKind)
        ensures
            r == self.kind,
    {
        self.kind
    }

    pub fn as_ref(&self) -> (r: ParserErrorRef<'_>)
        ensures
            r.input@ == self.input@,
            r.kind == self.kind,
    {
        ParserErrorRef { input: self.input.as_str(), kind: self.kind }
    }
}

/// What [`one_char_str`] gives for an offset at which the text cannot be
/// cut.
pub const INVALID_INDEX: &'static str = "<[BUG] invalid str index in error>";

/// The length of the character that starts at `offset`, none at the end of
/// the text.
pub open spec fn char_len_at(bytes: Seq<u8>, offset: int) -> int {
    if offset >= bytes.len() {
        0
    } else {
        length_of_first_scalar(bytes.subrange(offset, bytes.len() as int))
    }
}

/// The character of `inp` that starts at the byte `offset`, as a text of
/// its own; the empty text at the end of `inp`, and [`INVALID_INDEX`] where
/// no character starts at `offset`.
pub fn one_char_str(inp: &str, offset: usize) -> (r: &str)
    ensures
        is_cut(inp.spec_bytes(), offset as int) ==> r.spec_bytes() == inp.spec_bytes().subrange(
            offset as int,
            offset + char_len_at(inp.spec_bytes(), offset as int),
        ),
        !is_cut(inp.spec_bytes(), offset as int) ==> r == INVALID_INDEX,
{
    let bytes = inp.as_bytes();
    proof {
        lemma_str_valid(inp);
    }
    if offset > bytes.len() || !inp.is_char_boundary(offset) {
        return INVALID_INDEX;
    }
    let rest = tail_from(inp, offset);
    let rest_bytes = rest.as_bytes();
    proof {
        lemma_str_valid(rest);
        lemma_cut_ends(rest.spec_bytes());
    }
    if rest_bytes.len() == 0 {
        let r = head_to(rest, 0);
        assert(r.spec_bytes() == inp.spec_bytes().subrange(offset as int, offset as int));
        return r;
    }
    let first = rest_bytes[0];
    let first_char_len: usize = if first < 0x80 {
        1
    } else if first < 0xe0 {
        2
    } else if first < 0xf0 {
        3
    } else {
        4
    };
    proof {
        reveal_with_fuel(vstd::utf8::is_char_boundary, 2);
        assert(first_char_len == length_of_first_scalar(rest.spec_bytes()));
        assert(is_cut(rest.spec_bytes(), first_char_len as int));
    }
    let r = head_to(rest, first_char_len);
    assert(r.spec_bytes() == inp.spec_bytes().subrange(
        offset as int,
        offset + first_char_len,
    ));
    r
}

} // verus!
