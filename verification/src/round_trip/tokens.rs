//! Tokens and white space with more text behind them.
use vstd::prelude::*;
use crate::chars::{is_http_token_byte, is_restricted_token_byte, is_token_byte, is_ws_byte};
use crate::error::ParserErrorKind;
use crate::parse::cfws::{spec_fws_obs, spec_ws_seq_end};
use crate::parse::impl_spec::{spec_space, spec_token_of};
use crate::parse::unquoted::{lemma_taken_bounds, spec_taken};
use crate::quoting::{
    HttpTokenValidator, MimeTokenValidator, RestrictedTokenValidator, TokenValidator,
};
use crate::spec::{Policy, TokenKind};

verus! {

/// Whether a validator takes the same bytes whatever it took before.
pub open spec fn is_stateless<V: TokenValidator>(validator: V) -> bool {
    forall|b: u8| #[trigger] validator.after(b) == validator
}

/// What a validator takes of a text, it takes of the text with more behind
/// it, if it took all of the text and does not take what follows.
pub proof fn lemma_taken_concat<V: TokenValidator>(
    validator: V,
    token: Seq<u8>,
    rest: Seq<u8>,
    from: int,
)
    requires
        0 <= from <= token.len(),
        spec_taken(validator, token, from).0 == token.len(),
        rest.len() > 0 ==> !spec_taken(validator, token, from).1.takes(rest[0]),
    ensures
        spec_taken(validator, token + rest, from) == spec_taken(validator, token, from),
    decreases token.len() - from,
{
    let text = token + rest;
    if from < token.len() {
        assert(text[from] == token[from]);
        lemma_taken_bounds(validator, token, from);
        lemma_taken_concat(validator.after(token[from]), token, rest, from + 1);
    } else {
        if rest.len() > 0 {
            assert(text[from] == rest[0]);
        }
    }
}

/// A validator without state takes a text of bytes that it takes one by
/// one.
pub proof fn lemma_taken_all<V: TokenValidator>(validator: V, bytes: Seq<u8>, from: int)
    requires
        is_stateless(validator),
        0 <= from <= bytes.len(),
        forall|i: int| from <= i < bytes.len() ==> validator.takes(#[trigger] bytes[i]),
    ensures
        spec_taken(validator, bytes, from) == (bytes.len() as int, validator),
    decreases bytes.len() - from,
{
    if from < bytes.len() {
        assert(validator.takes(bytes[from]));
        assert(validator.after(bytes[from]) == validator);
        lemma_taken_all(validator, bytes, from + 1);
    }
}

/// A validator without state that takes all of a text takes each of its
/// bytes.
pub proof fn lemma_taken_each<V: TokenValidator>(validator: V, bytes: Seq<u8>, from: int)
    requires
        is_stateless(validator),
        0 <= from <= bytes.len(),
        spec_taken(validator, bytes, from).0 == bytes.len(),
    ensures
        forall|i: int| from <= i < bytes.len() ==> validator.takes(#[trigger] bytes[i]),
    decreases bytes.len() - from,
{
    if from < bytes.len() {
        lemma_taken_bounds(validator, bytes, from);
        assert(validator.after(bytes[from]) == validator);
        lemma_taken_each(validator, bytes, from + 1);
    }
}

/// Whether `b` can stand in a token of the given kind behind its first
/// byte.
pub open spec fn is_token_byte_of(kind: TokenKind, b: u8) -> bool {
    match kind {
        TokenKind::Restricted => is_restricted_token_byte(b),
        TokenKind::Http => is_http_token_byte(b),
        TokenKind::Mime => is_token_byte(b),
    }
}

/// Behind at least one byte, a validator of registrable names takes the
/// bytes of such names.
pub proof fn lemma_restricted_counts(validator: RestrictedTokenValidator, bytes: Seq<u8>, from: int)
    requires
        0 <= from <= bytes.len(),
    ensures
        spec_taken(validator, bytes, from).1.count >= validator.count,
        spec_taken(validator, bytes, from).0 > from ==> spec_taken(validator, bytes, from).1.count
            > 0,
    decreases bytes.len() - from,
{
    if from < bytes.len() && validator.takes(bytes[from]) {
        lemma_restricted_counts(validator.after(bytes[from]), bytes, from + 1);
    }
}

/// A token with more behind it is found as the same token, if what follows
/// cannot stand in a token.
pub proof fn lemma_token_concat(kind: TokenKind, token: Seq<u8>, rest: Seq<u8>)
    requires
        spec_token_of(kind, token) == Ok::<int, ParserErrorKind>(token.len() as int),
        rest.len() > 0 ==> !is_token_byte_of(kind, rest[0]),
    ensures
        spec_token_of(kind, token + rest) == Ok::<int, ParserErrorKind>(token.len() as int),
{
    match kind {
        TokenKind::Restricted => {
            let first = RestrictedTokenValidator { count: 0 };
            lemma_restricted_counts(first, token, 0);
            lemma_taken_concat(first, token, rest, 0);
        },
        TokenKind::Http => {
            lemma_taken_concat(HttpTokenValidator, token, rest, 0);
        },
        TokenKind::Mime => {
            lemma_taken_concat(MimeTokenValidator { len_valid: false }, token, rest, 0);
        },
    }
}

/// A text of bytes of HTTP or MIME tokens is one such token.
pub proof fn lemma_token_of_bytes(kind: TokenKind, token: Seq<u8>)
    requires
        kind != TokenKind::Restricted,
        token.len() > 0,
        forall|i: int| 0 <= i < token.len() ==> is_token_byte_of(kind, #[trigger] token[i]),
    ensures
        spec_token_of(kind, token) == Ok::<int, ParserErrorKind>(token.len() as int),
{
    match kind {
        TokenKind::Http => {
            assert(is_stateless(HttpTokenValidator));
            assert forall|i: int| 0 <= i < token.len() implies HttpTokenValidator.takes(
                #[trigger] token[i],
            ) by {
                assert(is_token_byte_of(kind, token[i]));
            }
            lemma_taken_all(HttpTokenValidator, token, 0);
        },
        _ => {
            let validator = MimeTokenValidator { len_valid: false };
            assert(is_stateless(validator));
            assert forall|i: int| 0 <= i < token.len() implies validator.takes(
                #[trigger] token[i],
            ) by {
                assert(is_token_byte_of(kind, token[i]));
            }
            lemma_taken_all(validator, token, 0);
        },
    }
}

/// An HTTP or MIME token is made of the bytes of such tokens.
pub proof fn lemma_bytes_of_token(kind: TokenKind, token: Seq<u8>)
    requires
        kind != TokenKind::Restricted,
        spec_token_of(kind, token) == Ok::<int, ParserErrorKind>(token.len() as int),
    ensures
        token.len() > 0,
        forall|i: int| 0 <= i < token.len() ==> is_token_byte_of(kind, #[trigger] token[i]),
{
    match kind {
        TokenKind::Http => {
            assert(is_stateless(HttpTokenValidator));
            lemma_taken_each(HttpTokenValidator, token, 0);
            assert forall|i: int| 0 <= i < token.len() implies is_token_byte_of(
                kind,
                #[trigger] token[i],
            ) by {
                assert(HttpTokenValidator.takes(token[i]));
            }
        },
        _ => {
            let validator = MimeTokenValidator { len_valid: false };
            assert(is_stateless(validator));
            lemma_taken_each(validator, token, 0);
            assert forall|i: int| 0 <= i < token.len() implies is_token_byte_of(
                kind,
                #[trigger] token[i],
            ) by {
                assert(validator.takes(token[i]));
            }
        },
    }
}

/// A token starts with a byte that is no white space and opens neither a
/// line fold nor a comment nor a quoted string.
pub proof fn lemma_token_first(kind: TokenKind, token: Seq<u8>)
    requires
        spec_token_of(kind, token) is Ok,
    ensures
        token.len() > 0,
        !is_ws_byte(token[0]),
        token[0] != 0x0d,
        token[0] != 0x28,
        token[0] != 0x22,
{
    match kind {
        TokenKind::Restricted => {
            let first = RestrictedTokenValidator { count: 0 };
            assert(spec_taken(first, token, 0).0 != 0);
        },
        TokenKind::Http => {
            assert(spec_taken(HttpTokenValidator, token, 0).0 != 0);
        },
        TokenKind::Mime => {
            assert(spec_taken(MimeTokenValidator { len_valid: false }, token, 0).0 != 0);
        },
    }
}

/// Before a byte that is no white space and opens neither a line fold nor a
/// comment, there is no white space to skip.
pub proof fn lemma_no_space(policy: Policy, bytes: Seq<u8>)
    requires
        bytes.len() > 0 ==> !is_ws_byte(bytes[0]) && bytes[0] != 0x0d && bytes[0] != 0x28,
    ensures
        spec_space(policy, bytes) == Ok::<int, (int, ParserErrorKind)>(0),
{
    assert(spec_ws_seq_end(bytes, 0) == 0);
    assert(bytes.subrange(0, bytes.len() as int) == bytes);
}

/// One space before such a byte is all the white space there is.
pub proof fn lemma_one_space(policy: Policy, bytes: Seq<u8>)
    requires
        bytes.len() > 0,
        bytes[0] == 0x20,
        bytes.len() > 1 ==> !is_ws_byte(bytes[1]) && bytes[1] != 0x0d && bytes[1] != 0x28,
    ensures
        spec_space(policy, bytes) == Ok::<int, (int, ParserErrorKind)>(1),
{
    assert(spec_ws_seq_end(bytes, 1) == 1);
    assert(spec_ws_seq_end(bytes, 0) == 1);
    if policy.uses_cfws() {
        let rest = bytes.subrange(1, bytes.len() as int);
        if rest.len() > 0 {
            assert(rest[0] == bytes[1]);
        }
        if policy.spec_obs() {
            assert(spec_fws_obs(bytes, 1) == Ok::<int, ParserErrorKind>(1));
            assert(spec_fws_obs(bytes, 0) == Ok::<int, ParserErrorKind>(1));
        }
    }
}

} // verus!
