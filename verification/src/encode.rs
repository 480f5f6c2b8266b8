//! Quoting and percent-encoding of parameter values.
use vstd::prelude::*;
use vstd::string::StringSliceAdditionalSpecFns;
use vstd::utf8::{encode_utf8, is_ascii_chars, is_ascii_chars_encode_utf8};
use quoted_string::spec::{GeneralQSSpec, QuotingClass, WithoutQuotingValidator};
use media_type_impl_utils::percent_encoding::{HttpPercentEncodeSet, MimePercentEncodeSet};
use crate::chars::{is_http_token_byte, is_token_byte};
use crate::quoting::{
    any_quoting_class, mime_obs_quoting_class, mime_obs_utf8_quoting_class,
    normal_quoting_class, utf8_quoting_class, HttpTokenValidator, MimeTokenValidator,
    TokenValidator,
};
use crate::spec::{
    AnySpec, Ascii, HttpSpec, Internationalized, MimeSpec, Modern, Obs, Policy, Grammar, StrictSpec,
    TokenKind,
};
use crate::text::{lemma_bytes_concat, lemma_char_range, string_bytes};

verus! {

/// How the grammar `policy` classes a byte for quoting: as text of a quoted
/// string, as a byte that needs a backslash there, or as one that cannot
/// stand in a quoted string.
pub open spec fn quoting_class(policy: Policy, b: u8) -> QuotingClass {
    match policy {
        Policy::Strict | Policy::HttpModern | Policy::MimeAsciiModern => normal_quoting_class(b),
        Policy::HttpObs | Policy::MimeInternationalizedModern => utf8_quoting_class(b),
        Policy::MimeAsciiObs => mime_obs_quoting_class(b),
        Policy::MimeInternationalizedObs => mime_obs_utf8_quoting_class(b),
        Policy::Any => any_quoting_class(b),
    }
}

/// The byte by which quoting judges a character: the character itself in
/// US-ASCII, `0xff` for any other.
pub open spec fn code_point_byte(c: char) -> u8 {
    if c > '\u{7f}' {
        0xff
    } else {
        c as u8
    }
}

/// The characters from `from` on as they stand inside a quoted string of
/// the grammar `policy`: text as it is, a backslash before each character
/// that needs one. None if one of them cannot stand in a quoted string.
pub open spec fn escaped(policy: Policy, chars: Seq<char>, from: int) -> Option<Seq<char>>
    decreases chars.len() - from,
{
    if from < 0 || from >= chars.len() {
        Some(seq![])
    } else {
        match escaped(policy, chars, from + 1) {
            None => None,
            Some(rest) => match quoting_class(policy, code_point_byte(chars[from])) {
                QuotingClass::QText => Some(seq![chars[from]] + rest),
                QuotingClass::NeedsQuoting => Some(seq!['\\', chars[from]] + rest),
                QuotingClass::Invalid => None,
            },
        }
    }
}

/// Whether the validator takes every one of the characters, whatever it
/// took before.
pub open spec fn all_taken<V: TokenValidator>(validator: V, chars: Seq<char>) -> bool {
    forall|i: int| 0 <= i < chars.len() ==> validator.takes(code_point_byte(#[trigger] chars[i]))
}

/// The value `chars` as it is written under the grammar `policy`, where
/// `validator` says what needs no quotes:
/// - as it is, if it is not empty and the validator takes every character
///   of it;
/// - else between quotes, with a backslash before each character that needs
///   one.
///
/// None if a character of it cannot stand in a quoted string.
pub open spec fn quoted_by_need<V: TokenValidator>(
    policy: Policy,
    validator: V,
    chars: Seq<char>,
) -> Option<Seq<char>> {
    if chars.len() > 0 && all_taken(validator, chars) {
        Some(chars)
    } else {
        match escaped(policy, chars, 0) {
            Some(body) => Some(seq!['"'] + body + seq!['"']),
            None => None,
        }
    }
}

/// The value `chars` as a parameter value of the grammar `policy`: a token
/// where it is one, else a quoted string where it can be written as one.
pub open spec fn spec_quote(policy: Policy, chars: Seq<char>) -> Option<Seq<char>> {
    match policy.value_kind() {
        TokenKind::Mime => quoted_by_need(policy, MimeTokenValidator { len_valid: false }, chars),
        _ => quoted_by_need(policy, HttpTokenValidator, chars),
    }
}

/// `quoted_string::quote_if_needed` under the grammar `S`, with `validator`
/// to say what needs no quotes. A text that is not empty and that the
/// validator takes character by character comes back as it is. Any other
/// text comes back between quotes, with a backslash before each character
/// that needs one under the grammar; none comes back where a character
/// cannot stand in a quoted string.
///
/// This is so for a validator that has no state, lets every text end and
/// takes only text of a quoted string of the grammar: what it took then
/// needs no backslash.
#[verifier::external_body]
pub(crate) fn quote_value<S: Grammar + GeneralQSSpec, V: TokenValidator + WithoutQuotingValidator>(
    value: &str,
    validator: V,
) -> (r: Option<String>)
    requires
        forall|b: u8| #[trigger] validator.after(b) == validator,
        validator.may_end(),
        forall|b: u8| #[trigger]
            validator.takes(b) ==> quoting_class(S::policy(), b) == QuotingClass::QText,
    ensures
        match r {
            Some(quoted) => quoted_by_need(S::policy(), validator, value@) == Some(quoted@),
            None => quoted_by_need(S::policy(), validator, value@) is None,
        },
{
    let mut validator = validator;
    match quoted_string::quote_if_needed::<S, V>(value, &mut validator) {
        Ok(quoted) => Some(quoted.into_owned()),
        Err(_) => None,
    }
}

/// Writes `value` as a parameter value of the grammar `policy`: as it is
/// where it is a token, else as a quoted string. None where a character of
/// it cannot stand in a quoted string of the grammar.
pub fn quote_for(policy: Policy, value: &str) -> (r: Option<String>)
    ensures
        match r {
            Some(quoted) => spec_quote(policy, value@) == Some(quoted@),
            None => spec_quote(policy, value@) is None,
        },
{
    match policy {
        Policy::Strict => quote_value::<StrictSpec, HttpTokenValidator>(
            value,
            HttpTokenValidator::new(),
        ),
        Policy::HttpModern => quote_value::<HttpSpec<Modern>, HttpTokenValidator>(
            value,
            HttpTokenValidator::new(),
        ),
        Policy::HttpObs => quote_value::<HttpSpec<Obs>, HttpTokenValidator>(
            value,
            HttpTokenValidator::new(),
        ),
        Policy::MimeAsciiModern => quote_value::<MimeSpec<Ascii, Modern>, MimeTokenValidator>(
            value,
            MimeTokenValidator::new(),
        ),
        Policy::MimeAsciiObs => quote_value::<MimeSpec<Ascii, Obs>, MimeTokenValidator>(
            value,
            MimeTokenValidator::new(),
        ),
        Policy::MimeInternationalizedModern => quote_value::<
            MimeSpec<Internationalized, Modern>,
            MimeTokenValidator,
        >(value, MimeTokenValidator::new()),
        Policy::MimeInternationalizedObs => quote_value::<
            MimeSpec<Internationalized, Obs>,
            MimeTokenValidator,
        >(value, MimeTokenValidator::new()),
        Policy::Any => quote_value::<AnySpec, MimeTokenValidator>(
            value,
            MimeTokenValidator::new(),
        ),
    }
}

/// The set of `media-type-impl-utils` for values under the HTTP grammars:
/// every byte that its lookup table does not mark as a byte of an HTTP
/// token.
#[verifier::external_type_specification]
pub struct ExHttpPercentEncodeSet(media_type_impl_utils::percent_encoding::HttpPercentEncodeSet);

/// The set of `media-type-impl-utils` for values under the MIME grammars:
/// every byte that its lookup table does not mark as a byte of a token.
#[verifier::external_type_specification]
pub struct ExMimePercentEncodeSet(media_type_impl_utils::percent_encoding::MimePercentEncodeSet);

/// What a set of bytes that are written percent-encoded holds.
pub trait PercentEncodeSet: Sized {
    /// Whether `b` is written percent-encoded.
    spec fn encodes(&self, b: u8) -> bool;
}

impl PercentEncodeSet for HttpPercentEncodeSet {
    open spec fn encodes(&self, b: u8) -> bool {
        !is_http_token_byte(b)
    }
}

impl PercentEncodeSet for MimePercentEncodeSet {
    open spec fn encodes(&self, b: u8) -> bool {
        !is_token_byte(b)
    }
}

/// The upper case hexadecimal digit for a number below 16.
pub open spec fn hex_digit(n: u8) -> u8 {
    if n < 10 {
        (0x30 + n) as u8
    } else {
        (0x41 + n - 10) as u8
    }
}

/// The byte `b` percent-encoded: `%` and its two hexadecimal digits.
pub open spec fn percent_byte(b: u8) -> Seq<u8> {
    seq![0x25, hex_digit(b / 16), hex_digit(b % 16)]
}

/// The bytes with each byte of the set percent-encoded and every other byte
/// as it is.
pub open spec fn percent_encoded<E: PercentEncodeSet>(set: E, bytes: Seq<u8>) -> Seq<u8>
    decreases bytes.len(),
{
    if bytes.len() == 0 {
        seq![]
    } else {
        percent_encoded(set, bytes.drop_last()) + (if set.encodes(bytes.last()) {
            percent_byte(bytes.last())
        } else {
            seq![bytes.last()]
        })
    }
}

/// The value `bytes` percent-encoded as the grammar `policy` has it: every
/// byte that is no token byte of the grammar is encoded.
pub open spec fn spec_percent_encode(policy: Policy, bytes: Seq<u8>) -> Seq<u8> {
    match policy.value_kind() {
        TokenKind::Mime => percent_encoded(MimePercentEncodeSet, bytes),
        _ => percent_encoded(HttpPercentEncodeSet, bytes),
    }
}

/// `percent_encoding::percent_encode` on the bytes of `value`, collected
/// into one text: each byte of `set` as `%` and two upper case hexadecimal
/// digits, every other byte as it is. The set is one of the two of
/// `media-type-impl-utils`, and holds what `encodes` says of it: the bytes
/// that the lookup table does not mark as token bytes of its grammar.
///
/// The set must hold every byte above `0x7f`.
#[verifier::external_body]
pub(crate) fn percent_encode_value<E: PercentEncodeSet + percent_encoding::EncodeSet>(
    value: &str,
    set: E,
) -> (r: String)
    requires
        forall|b: u8| b > 0x7f ==> #[trigger] set.encodes(b),
    ensures
        string_bytes(&r) == percent_encoded(set, value.spec_bytes()),
{
    percent_encoding::percent_encode(value.as_bytes(), set).collect()
}

/// Percent-encodes `value` as the grammar `policy` has it.
pub fn percent_encode_for(policy: Policy, value: &str) -> (r: String)
    ensures
        string_bytes(&r) == spec_percent_encode(policy, value.spec_bytes()),
{
    match policy.value_kind() {
        TokenKind::Mime => percent_encode_value(value, MimePercentEncodeSet),
        _ => percent_encode_value(value, HttpPercentEncodeSet),
    }
}

/// Whether every character can stand in a quoted string of the grammar,
/// with or without a backslash.
pub open spec fn all_quotable(policy: Policy, chars: Seq<char>) -> bool {
    forall|i: int|
        0 <= i < chars.len() ==> quoting_class(policy, code_point_byte(#[trigger] chars[i]))
            != QuotingClass::Invalid
}

/// Escaping leaves out no character and fails on the first that cannot
/// stand in a quoted string.
pub proof fn lemma_escaped_some(policy: Policy, chars: Seq<char>, from: int)
    requires
        0 <= from <= chars.len(),
    ensures
        escaped(policy, chars, from) is Some <==> (forall|i: int|
            from <= i < chars.len() ==> quoting_class(
                policy,
                code_point_byte(#[trigger] chars[i]),
            ) != QuotingClass::Invalid),
    decreases chars.len() - from,
{
    if from < chars.len() {
        lemma_escaped_some(policy, chars, from + 1);
        if escaped(policy, chars, from) is Some {
            assert forall|i: int| from <= i < chars.len() implies quoting_class(
                policy,
                code_point_byte(#[trigger] chars[i]),
            ) != QuotingClass::Invalid by {
                if i > from {
                }
            }
        }
    }
}

/// A value can be written as a token or as a quoted string exactly where
/// it is a token or every character of it can stand in a quoted string.
/// Every other value is percent-encoded.
pub proof fn lemma_quoted_or_encoded(policy: Policy, chars: Seq<char>)
    ensures
        spec_quote(policy, chars) is Some <==> spec_quote(policy, chars) == Some(chars)
            || all_quotable(policy, chars),
{
    lemma_escaped_some(policy, chars, 0);
}

/// The bytes of a text that ends in a US-ASCII character end in that
/// character.
pub proof fn lemma_last_byte(chars: Seq<char>)
    requires
        chars.len() > 0,
        chars.last() <= '\u{7f}',
    ensures
        encode_utf8(chars).len() > 0,
        encode_utf8(chars).last() == chars.last() as u8,
        encode_utf8(chars).last() <= 0x7f,
{
    let one = seq![chars.last()];
    lemma_char_range(chars.last());
    assert(chars == chars.drop_last() + one);
    lemma_bytes_concat(chars.drop_last(), one);
    assert(is_ascii_chars(one));
    is_ascii_chars_encode_utf8(one);
}

/// A value as it is written is not empty and ends in a US-ASCII character.
pub proof fn lemma_quoted_by_need<V: TokenValidator>(
    policy: Policy,
    validator: V,
    chars: Seq<char>,
)
    ensures
        quoted_by_need(policy, validator, chars) matches Some(written) ==> written.len() > 0
            && written.last() <= '\u{7f}',
{
    if chars.len() > 0 && all_taken(validator, chars) {
        let last = chars.last();
        assert(validator.takes(code_point_byte(last)));
        validator.lemma_takes_ascii(code_point_byte(last));
        lemma_char_range(last);
    }
}

/// A value as it is written is not empty and ends in a US-ASCII byte.
pub proof fn lemma_spec_quote(policy: Policy, chars: Seq<char>)
    ensures
        spec_quote(policy, chars) matches Some(written) ==> encode_utf8(written).len() > 0
            && encode_utf8(written).last() <= 0x7f,
{
    match policy.value_kind() {
        TokenKind::Mime => lemma_quoted_by_need(
            policy,
            MimeTokenValidator { len_valid: false },
            chars,
        ),
        _ => lemma_quoted_by_need(policy, HttpTokenValidator, chars),
    }
    if let Some(written) = spec_quote(policy, chars) {
        lemma_last_byte(written);
    }
}

/// A percent-encoded value is made of US-ASCII bytes where the set holds
/// every byte above `0x7f`.
pub proof fn lemma_percent_encoded<E: PercentEncodeSet>(set: E, bytes: Seq<u8>)
    requires
        forall|b: u8| b > 0x7f ==> #[trigger] set.encodes(b),
    ensures
        forall|i: int|
            0 <= i < percent_encoded(set, bytes).len() ==> (#[trigger] percent_encoded(
                set,
                bytes,
            )[i]) <= 0x7f,
    decreases bytes.len(),
{
    if bytes.len() > 0 {
        lemma_percent_encoded(set, bytes.drop_last());
        let before = percent_encoded(set, bytes.drop_last());
        let last = bytes.last();
        let piece = if set.encodes(last) {
            percent_byte(last)
        } else {
            seq![last]
        };
        assert(hex_digit(last / 16) <= 0x7f && hex_digit(last % 16) <= 0x7f);
        assert forall|i: int| 0 <= i < piece.len() implies #[trigger] piece[i] <= 0x7f by {}
        assert forall|i: int| 0 <= i < (before + piece).len() implies #[trigger] (before
            + piece)[i] <= 0x7f by {
            if i >= before.len() {
                assert((before + piece)[i] == piece[i - before.len()]);
            }
        }
    }
}

/// A percent-encoded value of a grammar is made of US-ASCII bytes.
pub proof fn lemma_spec_percent_encode(policy: Policy, bytes: Seq<u8>)
    ensures
        forall|i: int|
            0 <= i < spec_percent_encode(policy, bytes).len() ==> (#[trigger] spec_percent_encode(
                policy,
                bytes,
            )[i]) <= 0x7f,
{
    match policy.value_kind() {
        TokenKind::Mime => lemma_percent_encoded(MimePercentEncodeSet, bytes),
        _ => lemma_percent_encoded(HttpPercentEncodeSet, bytes),
    }
}

} // verus!
