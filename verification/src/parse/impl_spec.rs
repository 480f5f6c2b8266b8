//! What each grammar takes as a token, as white space and as a value.
use vstd::prelude::*;
use vstd::string::StringSliceAdditionalSpecFns;
use crate::error::{ExpectedChar, ParserErrorKind, ParserErrorRef};
use crate::parse::cfws::{
    lemma_opt_cfws_bounds, lemma_ws_seq_end_bounds, parse_opt_cfws, parse_opt_ws_seq,
    spec_opt_cfws_from, spec_ws_seq_end,
};
use crate::parse::quoted::{quoted_string_scan, spec_quoted_value};
use crate::parse::unquoted::{
    lemma_taken_lower, lemma_unquoted_value_bounds, parse_unquoted_value, spec_unquoted_value,
};
use crate::name::lower_bytes;
use crate::parse::{located_is, outcome_is, Located, Outcome};
use crate::quoting::{
    HttpTokenValidator, MimeObsParsing, MimeObsParsingUtf8, MimeParsing, MimeParsingUtf8,
    MimeTokenValidator, RestrictedTokenValidator,
};
use crate::spec::{Policy, TokenKind};
use crate::chars::is_ws_byte;

verus! {

/// The token of the given kind at the start of `bytes`: its length.
pub open spec fn spec_token_of(kind: TokenKind, bytes: Seq<u8>) -> Outcome {
    match kind {
        TokenKind::Restricted => spec_unquoted_value(RestrictedTokenValidator { count: 0 }, bytes),
        TokenKind::Http => spec_unquoted_value(HttpTokenValidator, bytes),
        TokenKind::Mime => spec_unquoted_value(MimeTokenValidator { len_valid: false }, bytes),
    }
}

/// The token at the start of `bytes` that names a type, a subtype or a
/// parameter: its length.
pub open spec fn spec_token(policy: Policy, bytes: Seq<u8>) -> Outcome {
    spec_token_of(policy.token_kind(), bytes)
}

/// The value without quotes at the start of `bytes`: its length.
pub open spec fn spec_unquoted(policy: Policy, bytes: Seq<u8>) -> Outcome {
    spec_token_of(policy.value_kind(), bytes)
}

/// The quoted string at the start of `bytes`: its length.
pub open spec fn spec_quoted(policy: Policy, bytes: Seq<u8>) -> Outcome {
    spec_quoted_value(quoted_string_scan(policy.id(), bytes))
}

/// What may stand between the parts of a media type, at the start of
/// `bytes`: spaces and tabs, and in the MIME grammars comments and line folds
/// too. Its length.
pub open spec fn spec_space(policy: Policy, bytes: Seq<u8>) -> Located {
    if policy.uses_cfws() {
        spec_opt_cfws_from(policy.spec_obs(), policy.spec_utf8(), bytes, 0)
    } else {
        Ok(spec_ws_seq_end(bytes, 0))
    }
}

/// That all of `bytes` is one token.
pub open spec fn spec_validate_token(policy: Policy, bytes: Seq<u8>) -> Result<
    (),
    ParserErrorKind,
> {
    match spec_token(policy, bytes) {
        Err(kind) => Err(kind),
        Ok(end) => if end == bytes.len() {
            Ok(())
        } else {
            Err(
                ParserErrorKind::UnexpectedChar {
                    pos: end as usize,
                    expected: ExpectedChar::CharClass("token char"),
                },
            )
        },
    }
}

/// A token is not empty, lies inside the input and is made of US-ASCII
/// bytes.
pub proof fn lemma_token_bounds(kind: TokenKind, bytes: Seq<u8>)
    ensures
        spec_token_of(kind, bytes) matches Ok(end) ==> 0 < end <= bytes.len() && (forall|i: int|
            0 <= i < end ==> bytes[i] <= 0x7f),
{
    match kind {
        TokenKind::Restricted => lemma_unquoted_value_bounds(
            RestrictedTokenValidator { count: 0 },
            bytes,
        ),
        TokenKind::Http => lemma_unquoted_value_bounds(HttpTokenValidator, bytes),
        TokenKind::Mime => lemma_unquoted_value_bounds(
            MimeTokenValidator { len_valid: false },
            bytes,
        ),
    }
}

/// A text is a token exactly if its lower case form is one.
pub proof fn lemma_lower_token(policy: Policy, bytes: Seq<u8>)
    ensures
        spec_token(policy, lower_bytes(bytes)) == spec_token(policy, bytes),
        spec_validate_token(policy, lower_bytes(bytes)) == spec_validate_token(policy, bytes),
{
    match policy.token_kind() {
        TokenKind::Restricted => lemma_taken_lower(RestrictedTokenValidator { count: 0 }, bytes, 0),
        TokenKind::Http => lemma_taken_lower(HttpTokenValidator, bytes, 0),
        TokenKind::Mime => lemma_taken_lower(MimeTokenValidator { len_valid: false }, bytes, 0),
    }
}

/// White space lies inside the input; where there is any, its last byte is
/// a space, a tab or a closing bracket.
pub proof fn lemma_space_bounds(policy: Policy, bytes: Seq<u8>)
    ensures
        spec_space(policy, bytes) matches Ok(end) ==> 0 <= end <= bytes.len() && (0 < end
            ==> is_ws_byte(bytes[end - 1]) || bytes[end - 1] == 0x29),
{
    if policy.uses_cfws() {
        lemma_opt_cfws_bounds(policy.spec_obs(), policy.spec_utf8(), bytes, 0);
    } else {
        lemma_ws_seq_end_bounds(bytes, 0);
    }
}

/// Skips the spaces and tabs at the start of `input`.
pub fn parse_opt_ws(input: &str) -> (r: usize)
    ensures
        r as int == spec_ws_seq_end(input.spec_bytes(), 0),
{
    parse_opt_ws_seq(input, 0)
}

/// The token of the given kind at the start of `input`.
pub fn parse_token_of<'a>(kind: TokenKind, input: &'a str) -> (r: Result<usize, ParserErrorRef<'a>>)
    ensures
        outcome_is(r, input, spec_token_of(kind, input.spec_bytes())),
{
    match kind {
        TokenKind::Restricted => parse_unquoted_value(input, RestrictedTokenValidator::new()),
        TokenKind::Http => parse_unquoted_value(input, HttpTokenValidator::new()),
        TokenKind::Mime => parse_unquoted_value(input, MimeTokenValidator::new()),
    }
}

/// The token at the start of `input` that names a type, a subtype or a
/// parameter under the grammar `policy`.
pub fn parse_token_for<'a>(policy: Policy, input: &'a str) -> (r: Result<
    usize,
    ParserErrorRef<'a>,
>)
    ensures
        outcome_is(r, input, spec_token(policy, input.spec_bytes())),
{
    parse_token_of(policy.token_kind(), input)
}

/// The value without quotes at the start of `input` under the grammar
/// `policy`.
pub fn parse_unquoted_value_for<'a>(policy: Policy, input: &'a str) -> (r: Result<
    usize,
    ParserErrorRef<'a>,
>)
    ensures
        outcome_is(r, input, spec_unquoted(policy, input.spec_bytes())),
{
    parse_token_of(policy.value_kind(), input)
}

/// Skips what may stand between the parts of a media type under the grammar
/// `policy`.
pub fn parse_space_for<'a>(policy: Policy, input: &'a str) -> (r: Result<
    usize,
    ParserErrorRef<'a>,
>)
    ensures
        located_is(r, input, spec_space(policy, input.spec_bytes())),
{
    match policy {
        Policy::Strict | Policy::HttpModern | Policy::HttpObs => Ok(parse_opt_ws(input)),
        Policy::MimeAsciiModern => parse_opt_cfws::<MimeParsing>(input),
        Policy::MimeAsciiObs => parse_opt_cfws::<MimeObsParsing>(input),
        Policy::MimeInternationalizedModern => parse_opt_cfws::<MimeParsingUtf8>(input),
        Policy::MimeInternationalizedObs => parse_opt_cfws::<MimeObsParsingUtf8>(input),
        Policy::Any => parse_opt_cfws::<MimeObsParsingUtf8>(input),
    }
}

/// Checks that all of `input` is one token under the grammar `policy`.
pub fn validate_token_for<'a>(policy: Policy, input: &'a str) -> (r: Result<
    (),
    ParserErrorRef<'a>,
>)
    ensures
        match r {
            Ok(()) => spec_validate_token(policy, input.spec_bytes()) == Ok::<
                (),
                ParserErrorKind,
            >(()),
            Err(e) => spec_validate_token(policy, input.spec_bytes()) == Err::<
                (),
                ParserErrorKind,
            >(e.kind) && e.input == input,
        },
{
    let end = parse_token_for(policy, input)?;
    if end == input.as_bytes().len() {
        Ok(())
    } else {
        Err(
            ParserErrorKind::UnexpectedChar {
                pos: end,
                expected: ExpectedChar::CharClass("token char"),
            }.with_input(input),
        )
    }
}

} // verus!
