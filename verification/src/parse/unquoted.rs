//! Tokens and values without quotes.
use vstd::prelude::*;
use vstd::string::StringSliceAdditionalSpecFns;
use quoted_string::error::CoreError;
use crate::error::{ParserErrorKind, ParserErrorRef};
use crate::name::{lower_byte, lower_bytes};
use crate::parse::{outcome_is, Outcome};
use crate::quoting::TokenValidator;

verus! {

/// Where `validator` stops taking the bytes from `from` on, and the validator
/// at that point.
pub open spec fn spec_taken<V: TokenValidator>(validator: V, bytes: Seq<u8>, from: int) -> (int, V)
    decreases bytes.len() - from,
{
    if 0 <= from < bytes.len() && validator.takes(bytes[from]) {
        spec_taken(validator.after(bytes[from]), bytes, from + 1)
    } else {
        (from, validator)
    }
}

/// The longest start of `bytes` that `validator` takes: its length, if it is
/// not empty and may end there.
pub open spec fn spec_unquoted_value<V: TokenValidator>(validator: V, bytes: Seq<u8>) -> Outcome {
    let (pos, last) = spec_taken(validator, bytes, 0);
    if pos == 0 {
        Err(ParserErrorKind::UnquotedParamValue { pos: 0, cause: CoreError::ZeroSizedValue })
    } else if last.may_end() {
        Ok(pos)
    } else {
        Err(
            ParserErrorKind::UnquotedParamValue {
                pos: pos as usize,
                cause: CoreError::InvalidChar,
            },
        )
    }
}

/// A validator stops inside the input, and every byte that it took is
/// US-ASCII.
pub proof fn lemma_taken_bounds<V: TokenValidator>(validator: V, bytes: Seq<u8>, from: int)
    requires
        0 <= from <= bytes.len(),
    ensures
        from <= spec_taken(validator, bytes, from).0 <= bytes.len(),
        forall|i: int| from <= i < spec_taken(validator, bytes, from).0 ==> bytes[i] <= 0x7f,
    decreases bytes.len() - from,
{
    if from < bytes.len() && validator.takes(bytes[from]) {
        validator.lemma_takes_ascii(bytes[from]);
        lemma_taken_bounds(validator.after(bytes[from]), bytes, from + 1);
    }
}

/// A validator that does not tell a letter from its lower case form stops
/// at the same place in a text and in its lower case form.
pub proof fn lemma_taken_lower<V: TokenValidator>(validator: V, bytes: Seq<u8>, from: int)
    requires
        0 <= from <= bytes.len(),
        forall|v: V, b: u8| (#[trigger] v.takes(lower_byte(b))) == v.takes(b),
        forall|v: V, b: u8| (#[trigger] v.after(lower_byte(b))) == v.after(b),
    ensures
        spec_taken(validator, lower_bytes(bytes), from) == spec_taken(validator, bytes, from),
    decreases bytes.len() - from,
{
    if from < bytes.len() {
        assert(lower_bytes(bytes)[from] == lower_byte(bytes[from]));
        assert(validator.takes(lower_byte(bytes[from])) == validator.takes(bytes[from]));
        assert(validator.after(lower_byte(bytes[from])) == validator.after(bytes[from]));
        if validator.takes(bytes[from]) {
            lemma_taken_lower(validator.after(bytes[from]), bytes, from + 1);
        }
    }
}

/// A value without quotes is not empty, lies inside the input and is made of
/// US-ASCII bytes.
pub proof fn lemma_unquoted_value_bounds<V: TokenValidator>(validator: V, bytes: Seq<u8>)
    ensures
        spec_unquoted_value(validator, bytes) matches Ok(end) ==> 0 < end <= bytes.len() && (
        forall|i: int| 0 <= i < end ==> bytes[i] <= 0x7f),
{
    lemma_taken_bounds(validator, bytes, 0);
}

/// Takes the longest start of `input` that `validator` takes.
pub fn parse_unquoted_value<'a, V: TokenValidator>(input: &'a str, validator: V) -> (r: Result<
    usize,
    ParserErrorRef<'a>,
>)
    ensures
        outcome_is(r, input, spec_unquoted_value(validator, input.spec_bytes())),
{
    let bytes = input.as_bytes();
    let ghost first = validator;
    let mut validator = validator;
    let mut pos: usize = 0;
    loop
        invariant
            bytes@ == input.spec_bytes(),
            pos <= bytes.len(),
            spec_taken(first, bytes@, 0) == spec_taken(validator, bytes@, pos as int),
        ensures
            spec_taken(first, bytes@, 0) == (pos as int, validator),
        decreases bytes.len() - pos,
    {
        if pos >= bytes.len() {
            break ;
        }
        if !validator.feed(bytes[pos]) {
            break ;
        }
        pos += 1;
    }
    if pos == 0 {
        return Err(
            ParserErrorKind::UnquotedParamValue {
                pos,
                cause: CoreError::ZeroSizedValue,
            }.with_input(input),
        );
    }
    if validator.finish() {
        Ok(pos)
    } else {
        Err(
            ParserErrorKind::UnquotedParamValue { pos, cause: CoreError::InvalidChar }.with_input(
                input,
            ),
        )
    }
}

} // verus!
