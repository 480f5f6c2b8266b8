//! Single bytes.
use vstd::prelude::*;
use vstd::string::StringSliceAdditionalSpecFns;
use crate::error::{ExpectedChar, ParserErrorKind, ParserErrorRef};
use crate::parse::{outcome_is, Outcome};

verus! {

/// The offset behind the byte `bch` at `pos`, where it stands there.
pub open spec fn spec_ascii_char(bytes: Seq<u8>, pos: int, bch: u8) -> Outcome {
    if 0 <= pos < bytes.len() && bytes[pos] == bch {
        Ok(pos + 1)
    } else {
        Err(
            ParserErrorKind::UnexpectedChar {
                pos: pos as usize,
                expected: ExpectedChar::Char(bch as char),
            },
        )
    }
}

/// Expects the US-ASCII byte `bch` at offset `pos` of `input`.
pub fn parse_ascii_char<'a>(input: &'a str, pos: usize, bch: u8) -> (r: Result<
    usize,
    ParserErrorRef<'a>,
>)
    requires
        bch <= 0x7f,
    ensures
        outcome_is(r, input, spec_ascii_char(input.spec_bytes(), pos as int, bch)),
{
    let bytes = input.as_bytes();
    if pos < bytes.len() && bytes[pos] == bch {
        Ok(pos + 1)
    } else {
        Err(
            ParserErrorKind::UnexpectedChar {
                pos,
                expected: ExpectedChar::Char(bch as char),
            }.with_input(input),
        )
    }
}

} // verus!
