//! The byte classes of the media type grammars.
use vstd::prelude::*;
use lut::Table;
use media_type_impl_utils::lookup_tables::{
    CText, DQuoteOrEscape, HttpToken, MediaTypeChars, ObsNoWsCtl, QText, QTextWs, RestrictedToken,
    Token, VCharWs, Ws,
};

verus! {

/// Space and horizontal tab.
pub open spec fn is_ws_byte(b: u8) -> bool {
    b == 0x20 || b == 0x09
}

/// The printable US-ASCII bytes, `!` to `~`.
pub open spec fn is_vchar_byte(b: u8) -> bool {
    0x21 <= b <= 0x7e
}

/// The bytes that MIME keeps out of a token: `( ) < > @ , ; : \ " / [ ] ? =`.
pub open spec fn is_tspecial_byte(b: u8) -> bool {
    b == 0x22 || b == 0x28 || b == 0x29 || b == 0x2c || b == 0x2f || (0x3a <= b <= 0x40)
        || (0x5b <= b <= 0x5d)
}

/// A byte of a MIME token: printable US-ASCII but no tspecial.
pub open spec fn is_token_byte(b: u8) -> bool {
    is_vchar_byte(b) && !is_tspecial_byte(b)
}

/// A byte of an HTTP token: a MIME token byte other than `{` and `}`.
pub open spec fn is_http_token_byte(b: u8) -> bool {
    is_token_byte(b) && b != 0x7b && b != 0x7d
}

/// An ASCII letter or digit.
pub open spec fn is_alphanumeric_byte(b: u8) -> bool {
    (0x30 <= b <= 0x39) || (0x41 <= b <= 0x5a) || (0x61 <= b <= 0x7a)
}

/// A byte of a registrable name: a letter, a digit or one of `! # $ & + - . ^ _`.
pub open spec fn is_restricted_token_byte(b: u8) -> bool {
    is_alphanumeric_byte(b) || b == 0x21 || b == 0x23 || b == 0x24 || b == 0x26 || b == 0x2b
        || b == 0x2d || b == 0x2e || b == 0x5e || b == 0x5f
}

/// Text of a comment: printable US-ASCII but `(`, `)` and `\`.
pub open spec fn is_ctext_byte(b: u8) -> bool {
    is_vchar_byte(b) && b != 0x28 && b != 0x29 && b != 0x5c
}

/// Text of a quoted string: printable US-ASCII but `"` and `\`.
pub open spec fn is_qtext_byte(b: u8) -> bool {
    is_vchar_byte(b) && b != 0x22 && b != 0x5c
}

/// `"` or `\`.
pub open spec fn is_dquote_or_escape_byte(b: u8) -> bool {
    b == 0x22 || b == 0x5c
}

/// The control bytes that the obsolete MIME grammar admits: all of them but
/// NUL, tab, line feed and carriage return, and DEL.
pub open spec fn is_obs_no_ws_ctl_byte(b: u8) -> bool {
    (0x01 <= b <= 0x08) || b == 0x0b || b == 0x0c || (0x0e <= b <= 0x1f) || b == 0x7f
}

/// `MediaTypeChars::check_at` with `Token`: the table marks exactly the MIME
/// token bytes.
#[verifier::external_body]
pub(crate) fn lookup_token(b: u8) -> (r: bool)
    ensures
        r == is_token_byte(b),
{
    MediaTypeChars::check_at(b as usize, Token)
}

/// `MediaTypeChars::check_at` with `HttpToken`: the table marks exactly the
/// HTTP token bytes.
#[verifier::external_body]
pub(crate) fn lookup_http_token(b: u8) -> (r: bool)
    ensures
        r == is_http_token_byte(b),
{
    MediaTypeChars::check_at(b as usize, HttpToken)
}

/// `MediaTypeChars::check_at` with `RestrictedToken`: the table marks exactly
/// the bytes of a registrable name.
#[verifier::external_body]
pub(crate) fn lookup_restricted_token(b: u8) -> (r: bool)
    ensures
        r == is_restricted_token_byte(b),
{
    MediaTypeChars::check_at(b as usize, RestrictedToken)
}

/// `MediaTypeChars::check_at` with `CText`: the table marks exactly the
/// comment text bytes.
#[verifier::external_body]
pub(crate) fn lookup_ctext(b: u8) -> (r: bool)
    ensures
        r == is_ctext_byte(b),
{
    MediaTypeChars::check_at(b as usize, CText)
}

/// `MediaTypeChars::check_at` with `QText`: the table marks exactly the
/// quoted-string text bytes.
#[verifier::external_body]
pub(crate) fn lookup_qtext(b: u8) -> (r: bool)
    ensures
        r == is_qtext_byte(b),
{
    MediaTypeChars::check_at(b as usize, QText)
}

/// `MediaTypeChars::check_at` with `QTextWs`: quoted-string text, space or tab.
#[verifier::external_body]
pub(crate) fn lookup_qtext_ws(b: u8) -> (r: bool)
    ensures
        r == (is_qtext_byte(b) || is_ws_byte(b)),
{
    MediaTypeChars::check_at(b as usize, QTextWs)
}

/// `MediaTypeChars::check_at` with `VCharWs`: printable US-ASCII, space or tab.
#[verifier::external_body]
pub(crate) fn lookup_vchar_ws(b: u8) -> (r: bool)
    ensures
        r == (is_vchar_byte(b) || is_ws_byte(b)),
{
    MediaTypeChars::check_at(b as usize, VCharWs)
}

/// `MediaTypeChars::check_at` with `DQuoteOrEscape`: `"` and `\` only.
#[verifier::external_body]
pub(crate) fn lookup_dquote_or_escape(b: u8) -> (r: bool)
    ensures
        r == is_dquote_or_escape_byte(b),
{
    MediaTypeChars::check_at(b as usize, DQuoteOrEscape)
}

/// `MediaTypeChars::check_at` with `Ws`: space and tab only.
#[verifier::external_body]
pub(crate) fn lookup_ws(b: u8) -> (r: bool)
    ensures
        r == is_ws_byte(b),
{
    MediaTypeChars::check_at(b as usize, Ws)
}

/// `MediaTypeChars::check_at` with `ObsNoWsCtl`: the control bytes of the
/// obsolete grammar.
#[verifier::external_body]
pub(crate) fn lookup_obs_no_ws_ctl(b: u8) -> (r: bool)
    ensures
        r == is_obs_no_ws_ctl_byte(b),
{
    MediaTypeChars::check_at(b as usize, ObsNoWsCtl)
}

} // verus!
