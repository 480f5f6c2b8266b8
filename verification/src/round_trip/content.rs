//! What written values stand for, and which of them are tokens.
use vstd::prelude::*;
use vstd::utf8::{
    decode_utf8, encode_utf8, encode_utf8_decode_utf8, is_ascii_chars,
    is_ascii_chars_encode_utf8,
};
use quoted_string::spec::QuotingClass;
use crate::encode::{
    all_taken, code_point_byte, escaped, lemma_spec_percent_encode, percent_byte,
    percent_encoded, quoted_by_need, quoting_class, spec_percent_encode, spec_quote,
    PercentEncodeSet,
};
use media_type_impl_utils::percent_encoding::{HttpPercentEncodeSet, MimePercentEncodeSet};
use crate::error::ParserErrorKind;
use crate::gen::encoded_value_prefix;
use crate::parse::impl_spec::{spec_quoted, spec_token_of, spec_validate_token};
use crate::parse::tail;
use crate::quoting::{HttpTokenValidator, MimeTokenValidator, TokenValidator};
use crate::spec::{Policy, TokenKind};
use crate::text::lemma_char_range;
use crate::value::{content_from, lemma_first_char, value_content};
use crate::round_trip::tokens::{is_token_byte_of, lemma_bytes_of_token, lemma_token_of_bytes};
use crate::round_trip::written::{written_name, written_value};

verus! {

/// Escaping makes a text no shorter.
pub proof fn lemma_escaped_len(policy: Policy, chars: Seq<char>, from: int)
    requires
        0 <= from <= chars.len(),
    ensures
        escaped(policy, chars, from) matches Some(written) ==> written.len() >= chars.len() - from,
    decreases chars.len() - from,
{
    if from < chars.len() {
        lemma_escaped_len(policy, chars, from + 1);
    }
}

/// Characters that were escaped for a quoted string and stand before its
/// closing quote are its content from there on.
pub proof fn lemma_content_escaped(
    policy: Policy,
    chars: Seq<char>,
    from: int,
    repr: Seq<char>,
    at: int,
)
    requires
        0 <= from <= chars.len(),
        escaped(policy, chars, from) is Some,
        0 <= at,
        at + escaped(policy, chars, from)->0.len() + 1 == repr.len(),
        repr.subrange(at, repr.len() - 1) == escaped(policy, chars, from)->0,
        repr[repr.len() - 1] == '"',
    ensures
        content_from(repr, at) == Some(chars.subrange(from, chars.len() as int)),
    decreases chars.len() - from,
{
    let written = escaped(policy, chars, from)->0;
    if from >= chars.len() {
        assert(chars.subrange(from, chars.len() as int) == Seq::<char>::empty());
    } else {
        let c = chars[from];
        let rest = escaped(policy, chars, from + 1)->0;
        lemma_char_range(c);
        assert(repr[at] == written[0]);
        match quoting_class(policy, code_point_byte(c)) {
            QuotingClass::QText => {
                assert(written == seq![c] + rest);
                assert(c != '"' && c != '\\');
                assert(repr.subrange(at + 1, repr.len() - 1) == written.subrange(
                    1,
                    written.len() as int,
                ));
                assert(written.subrange(1, written.len() as int) == rest);
                lemma_content_escaped(policy, chars, from + 1, repr, at + 1);
                assert(seq![c] + chars.subrange(from + 1, chars.len() as int) == chars.subrange(
                    from,
                    chars.len() as int,
                ));
            },
            QuotingClass::NeedsQuoting => {
                assert(written == seq!['\\', c] + rest);
                assert(repr[at + 1] == written[1]);
                assert(repr.subrange(at + 2, repr.len() - 1) == written.subrange(
                    2,
                    written.len() as int,
                ));
                assert(written.subrange(2, written.len() as int) == rest);
                lemma_content_escaped(policy, chars, from + 2 - 1, repr, at + 2);
                assert(seq![c] + chars.subrange(from + 1, chars.len() as int) == chars.subrange(
                    from,
                    chars.len() as int,
                ));
            },
            QuotingClass::Invalid => {},
        }
    }
}

/// A value that is written stands for itself: as a token it is its own
/// content, and as a quoted string it has the value as its content.
pub proof fn lemma_quoted_content<V: TokenValidator>(policy: Policy, validator: V, chars: Seq<char>)
    requires
        quoted_by_need(policy, validator, chars) is Some,
    ensures
        value_content(quoted_by_need(policy, validator, chars)->0) == Some(chars),
{
    let written = quoted_by_need(policy, validator, chars)->0;
    if chars.len() > 0 && all_taken(validator, chars) {
        assert(validator.takes(code_point_byte(chars[0])));
        validator.lemma_takes_ascii(code_point_byte(chars[0]));
        lemma_char_range(chars[0]);
    } else {
        let body = escaped(policy, chars, 0)->0;
        assert(written[0] == '"');
        assert(written[written.len() - 1] == '"');
        assert(written.subrange(1, written.len() - 1) == body);
        lemma_content_escaped(policy, chars, 0, written, 1);
        assert(chars.subrange(0, chars.len() as int) == chars);
    }
}

/// The value of a parameter as it is written stands for something.
pub proof fn lemma_written_value_content(policy: Policy, value: Seq<char>)
    ensures
        value_content(decode_utf8(written_value(policy, value))) is Some,
        spec_quote(policy, value) is Some ==> value_content(
            decode_utf8(written_value(policy, value)),
        ) == Some(value),
{
    match spec_quote(policy, value) {
        Some(written) => {
            encode_utf8_decode_utf8(written);
            match policy.value_kind() {
                TokenKind::Mime => lemma_quoted_content(
                    policy,
                    MimeTokenValidator { len_valid: false },
                    value,
                ),
                _ => lemma_quoted_content(policy, HttpTokenValidator, value),
            }
        },
        None => {
            let bytes = written_value(policy, value);
            let encoded = spec_percent_encode(policy, encode_utf8(value));
            lemma_spec_percent_encode(policy, encode_utf8(value));
            let chars = Seq::new(bytes.len(), |i: int| bytes[i] as char);
            assert forall|i: int| 0 <= i < bytes.len() implies #[trigger] bytes[i] <= 0x7f by {
                if i < 7 {
                    assert(bytes[i] == encoded_value_prefix()[i]);
                } else {
                    assert(bytes[i] == encoded[i - 7]);
                }
            }
            assert(is_ascii_chars(chars));
            is_ascii_chars_encode_utf8(chars);
            assert(encode_utf8(chars) == bytes);
            encode_utf8_decode_utf8(chars);
            assert(bytes[0] == encoded_value_prefix()[0]);
            assert(chars[0] == 'u');
        },
    }
}

/// Whether the value `value` is written without quotes under the grammar
/// `policy`: as a token, or percent-encoded under a grammar in which `*` can
/// stand in a name.
pub open spec fn written_without_quotes(policy: Policy, value: Seq<char>) -> bool {
    match spec_quote(policy, value) {
        Some(written) => written == value,
        None => policy != Policy::Strict,
    }
}

/// Whether the parser takes the value `value`, as the grammar `policy`
/// writes it, where it stands in `text` from `from` on: a value that is
/// written without quotes is taken, and one that is written as a quoted
/// string is taken where the scan of quoted strings takes all of it.
pub open spec fn written_value_taken(
    policy: Policy,
    text: Seq<u8>,
    from: int,
    value: Seq<char>,
) -> bool {
    written_without_quotes(policy, value) || (spec_quote(policy, value) is Some && spec_quoted(
        policy,
        tail(text, from),
    ) == Ok::<int, ParserErrorKind>(written_value(policy, value).len() as int))
}

/// A value that is written in another form than its own is written as a
/// quoted string: it starts with `"`.
pub proof fn lemma_written_in_quotes(policy: Policy, value: Seq<char>)
    requires
        spec_quote(policy, value) is Some,
        !written_without_quotes(policy, value),
    ensures
        written_value(policy, value).len() > 0,
        written_value(policy, value)[0] == 0x22,
{
    let written = spec_quote(policy, value)->0;
    match policy.value_kind() {
        TokenKind::Mime => {
            let body = escaped(policy, value, 0)->0;
            assert(written == seq!['"'] + body + seq!['"']);
        },
        _ => {
            let body = escaped(policy, value, 0)->0;
            assert(written == seq!['"'] + body + seq!['"']);
        },
    }
    assert(written[0] == '"');
    lemma_first_char(written);
}

/// A value that is written as it is, is not empty and one that the
/// validator takes character by character.
pub proof fn lemma_written_as_is<V: TokenValidator>(policy: Policy, validator: V, chars: Seq<char>)
    requires
        quoted_by_need(policy, validator, chars) == Some(chars),
    ensures
        chars.len() > 0,
        all_taken(validator, chars),
{
    lemma_escaped_len(policy, chars, 0);
}

/// A value that a validator takes character by character is a text of
/// US-ASCII characters whose bytes the validator takes.
pub proof fn lemma_token_chars<V: TokenValidator>(validator: V, chars: Seq<char>)
    requires
        all_taken(validator, chars),
    ensures
        encode_utf8(chars).len() == chars.len(),
        forall|i: int|
            0 <= i < chars.len() ==> (#[trigger] encode_utf8(chars)[i]) == code_point_byte(
                chars[i],
            ) && validator.takes(encode_utf8(chars)[i]) && encode_utf8(chars)[i] != 0x22,
{
    assert(is_ascii_chars(chars)) by {
        assert forall|i: int| 0 <= i < chars.len() implies '\0' <= #[trigger] chars[i]
            <= '\u{7f}' by {
            lemma_char_range(chars[i]);
            assert(validator.takes(code_point_byte(chars[i])));
            validator.lemma_takes_ascii(code_point_byte(chars[i]));
        }
    }
    is_ascii_chars_encode_utf8(chars);
    assert forall|i: int| 0 <= i < chars.len() implies (#[trigger] encode_utf8(chars)[i])
        == code_point_byte(chars[i]) && validator.takes(encode_utf8(chars)[i]) && encode_utf8(
        chars,
    )[i] != 0x22 by {
        lemma_char_range(chars[i]);
        assert(validator.takes(code_point_byte(chars[i])));
        validator.lemma_takes_ascii(code_point_byte(chars[i]));
    }
}

/// A text whose bytes are US-ASCII has these bytes as its characters.
pub proof fn lemma_ascii_chars(chars: Seq<char>)
    requires
        forall|i: int| 0 <= i < encode_utf8(chars).len() ==> (#[trigger] encode_utf8(chars)[i])
            <= 0x7f,
    ensures
        chars.len() == encode_utf8(chars).len(),
        forall|i: int|
            0 <= i < chars.len() ==> (#[trigger] chars[i]) <= '\u{7f}' && code_point_byte(
                chars[i],
            ) == encode_utf8(chars)[i],
{
    let bytes = encode_utf8(chars);
    let same = Seq::new(bytes.len(), |i: int| bytes[i] as char);
    assert(is_ascii_chars(same));
    is_ascii_chars_encode_utf8(same);
    assert(encode_utf8(same) == bytes);
    encode_utf8_decode_utf8(same);
    encode_utf8_decode_utf8(chars);
    assert(same == chars);
}

/// A percent-encoded value is made of `%`, hexadecimal digits and bytes
/// that are not in the set.
pub proof fn lemma_percent_encoded_tokens<E: PercentEncodeSet>(set: E, bytes: Seq<u8>)
    ensures
        forall|i: int|
            0 <= i < percent_encoded(set, bytes).len() ==> {
                let b = #[trigger] percent_encoded(set, bytes)[i];
                b == 0x25 || (0x30 <= b <= 0x39) || (0x41 <= b <= 0x46) || !set.encodes(b)
            },
    decreases bytes.len(),
{
    if bytes.len() > 0 {
        lemma_percent_encoded_tokens(set, bytes.drop_last());
        let before = percent_encoded(set, bytes.drop_last());
        let last = bytes.last();
        let piece = if set.encodes(last) {
            percent_byte(last)
        } else {
            seq![last]
        };
        assert forall|i: int| 0 <= i < (before + piece).len() implies {
            let b = #[trigger] (before + piece)[i];
            b == 0x25 || (0x30 <= b <= 0x39) || (0x41 <= b <= 0x46) || !set.encodes(b)
        } by {
            if i >= before.len() {
                assert((before + piece)[i] == piece[i - before.len()]);
            } else {
                assert((before + piece)[i] == before[i]);
            }
        }
    }
}

/// A value that is written without quotes is written as a token for
/// values.
#[verifier::rlimit(40)]
pub proof fn lemma_written_value_is_token(policy: Policy, value: Seq<char>)
    requires
        written_without_quotes(policy, value),
    ensures
        written_value(policy, value).len() > 0,
        written_value(policy, value)[0] != 0x22,
        forall|i: int|
            0 <= i < written_value(policy, value).len() ==> is_token_byte_of(
                policy.value_kind(),
                #[trigger] written_value(policy, value)[i],
            ),
{
    let bytes = written_value(policy, value);
    let kind = policy.value_kind();
    match spec_quote(policy, value) {
        Some(written) => {
            match kind {
                TokenKind::Mime => {
                    let validator = MimeTokenValidator { len_valid: false };
                    lemma_written_as_is(policy, validator, value);
                    lemma_token_chars(validator, value);
                    assert forall|i: int| 0 <= i < bytes.len() implies is_token_byte_of(
                        kind,
                        #[trigger] bytes[i],
                    ) by {
                        assert(validator.takes(bytes[i]));
                    }
                },
                _ => {
                    lemma_written_as_is(policy, HttpTokenValidator, value);
                    lemma_token_chars(HttpTokenValidator, value);
                    assert forall|i: int| 0 <= i < bytes.len() implies is_token_byte_of(
                        kind,
                        #[trigger] bytes[i],
                    ) by {
                        assert(HttpTokenValidator.takes(bytes[i]));
                    }
                },
            }
        },
        None => {
            let encoded = spec_percent_encode(policy, encode_utf8(value));
            match kind {
                TokenKind::Mime => lemma_percent_encoded_tokens(
                    MimePercentEncodeSet,
                    encode_utf8(value),
                ),
                _ => lemma_percent_encoded_tokens(HttpPercentEncodeSet, encode_utf8(value)),
            }
            assert(bytes[0] == encoded_value_prefix()[0]);
            assert forall|i: int| 0 <= i < bytes.len() implies is_token_byte_of(
                kind,
                #[trigger] bytes[i],
            ) by {
                if i < 7 {
                    assert(bytes[i] == encoded_value_prefix()[i]);
                } else {
                    assert(bytes[i] == encoded[i - 7]);
                }
            }
        },
    }
}

/// The name of a parameter as it is written is a token for names, where the
/// name is one and the value is not percent-encoded under the strict
/// grammar.
pub proof fn lemma_written_name_is_token(policy: Policy, name: Seq<u8>, value: Seq<char>)
    requires
        spec_validate_token(policy, name) is Ok,
        spec_quote(policy, value) is Some || policy != Policy::Strict,
    ensures
        spec_token_of(policy.token_kind(), written_name(policy, name, value)) == Ok::<
            int,
            ParserErrorKind,
        >(written_name(policy, name, value).len() as int),
{
    let kind = policy.token_kind();
    let shown = written_name(policy, name, value);
    if spec_quote(policy, value) is None {
        lemma_bytes_of_token(kind, name);
        assert forall|i: int| 0 <= i < shown.len() implies is_token_byte_of(
            kind,
            #[trigger] shown[i],
        ) by {
            if i < name.len() {
                assert(shown[i] == name[i]);
            } else {
                assert(shown[i] == 0x2a);
            }
        }
        lemma_token_of_bytes(kind, shown);
    }
}

/// A value is written as it is exactly where its bytes are a token for
/// values.
#[verifier::rlimit(40)]
pub proof fn lemma_token_value(policy: Policy, chars: Seq<char>)
    ensures
        spec_quote(policy, chars) == Some(chars) <==> spec_token_of(
            policy.value_kind(),
            encode_utf8(chars),
        ) == Ok::<int, ParserErrorKind>(encode_utf8(chars).len() as int),
{
    let kind = policy.value_kind();
    let bytes = encode_utf8(chars);
    if spec_quote(policy, chars) == Some(chars) {
        assert(written_without_quotes(policy, chars));
        lemma_written_value_is_token(policy, chars);
        lemma_token_of_bytes(kind, bytes);
    }
    if spec_token_of(kind, bytes) == Ok::<int, ParserErrorKind>(bytes.len() as int) {
        lemma_bytes_of_token(kind, bytes);
        assert forall|i: int| 0 <= i < bytes.len() implies #[trigger] bytes[i] <= 0x7f by {
            assert(is_token_byte_of(kind, bytes[i]));
        }
        lemma_ascii_chars(chars);
        match kind {
            TokenKind::Mime => {
                let validator = MimeTokenValidator { len_valid: false };
                assert forall|i: int| 0 <= i < chars.len() implies validator.takes(
                    code_point_byte(#[trigger] chars[i]),
                ) by {
                    assert(is_token_byte_of(kind, bytes[i]));
                }
                lemma_escaped_len(policy, chars, 0);
            },
            _ => {
                assert forall|i: int| 0 <= i < chars.len() implies HttpTokenValidator.takes(
                    code_point_byte(#[trigger] chars[i]),
                ) by {
                    assert(is_token_byte_of(kind, bytes[i]));
                }
                lemma_escaped_len(policy, chars, 0);
            },
        }
    }
}

} // verus!
