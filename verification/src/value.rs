//! The value of a parameter.
use vstd::prelude::*;
use vstd::string::StringSliceAdditionalSpecFns;
use std::borrow::Cow;
use vstd::utf8::{
    char_is_scalar, decode_utf8, decode_utf8_encode_utf8, encode_scalar, encode_utf8,
    encode_utf8_decode_utf8, encode_utf8_first_scalar, is_ascii_chars,
    is_ascii_chars_encode_utf8, valid_utf8,
};
use quoted_string::{AsciiCaseInsensitiveEq, ContentChars};
use crate::spec::AnySpec;
use crate::name::bytes_eq_ignore_ascii_case;
use crate::text::{lemma_char_range, lemma_same_but_for_case};

verus! {

/// What stands for the quoted string `repr` from the offset `at` on, behind
/// its opening quote: the characters up to the closing quote, which must be
/// the last one, with a backslash giving the character behind it. None where
/// the closing quote is missing or anything follows it.
pub open spec fn content_from(repr: Seq<char>, at: int) -> Option<Seq<char>>
    decreases repr.len() - at,
{
    if at < 0 || at >= repr.len() {
        None
    } else if repr[at] == '"' {
        if at + 1 == repr.len() {
            Some(seq![])
        } else {
            None
        }
    } else if repr[at] == '\\' {
        if at + 1 < repr.len() {
            match content_from(repr, at + 2) {
                Some(rest) => Some(seq![repr[at + 1]] + rest),
                None => None,
            }
        } else {
            None
        }
    } else {
        match content_from(repr, at + 1) {
            Some(rest) => Some(seq![repr[at]] + rest),
            None => None,
        }
    }
}

/// What the quoted string `repr` stands for, if it is one under the
/// catch-all grammar.
pub open spec fn quoted_content(repr: Seq<char>) -> Option<Seq<char>> {
    if repr.len() > 0 && repr[0] == '"' {
        content_from(repr, 1)
    } else {
        None
    }
}

/// What a value that is written as `repr` stands for: the content of a
/// quoted string, and a token itself.
pub open spec fn value_content(repr: Seq<char>) -> Option<Seq<char>> {
    if repr.len() > 0 && repr[0] == '"' {
        quoted_content(repr)
    } else {
        Some(repr)
    }
}

/// The lower case form of a US-ASCII letter; any other character as it is.
pub open spec fn lower_char(c: char) -> char {
    if 'A' <= c <= 'Z' {
        ((c as u32) + 0x20) as char
    } else {
        c
    }
}

/// The characters with every US-ASCII letter in lower case.
pub open spec fn lower_chars(chars: Seq<char>) -> Seq<char> {
    Seq::new(chars.len(), |i: int| lower_char(chars[i]))
}

/// Whether two values stand for the same content.
pub open spec fn value_eq(a: Seq<char>, b: Seq<char>) -> bool {
    value_content(a) is Some && value_content(a) == value_content(b)
}

/// Whether two values stand for the same content, whatever the case of its
/// US-ASCII letters.
pub open spec fn value_eq_ignore_ascii_case(a: Seq<char>, b: Seq<char>) -> bool {
    value_content(a) is Some && value_content(b) is Some && lower_chars(value_content(a)->0)
        == lower_chars(value_content(b)->0)
}

/// Whether the value `repr` has a content, and that content is `text` but
/// for the case of US-ASCII letters.
pub open spec fn content_eq_ignore_ascii_case(repr: Seq<char>, text: Seq<char>) -> bool {
    value_content(repr) is Some && lower_chars(value_content(repr)->0) == lower_chars(text)
}

/// `==` on two `ContentChars` of the catch-all grammar: both texts are
/// quoted strings and stand for the same characters.
#[verifier::external_body]
pub(crate) fn quoted_eq_quoted(left: &str, right: &str) -> (r: bool)
    ensures
        r == (quoted_content(left@) is Some && quoted_content(left@) == quoted_content(right@)),
{
    ContentChars::<AnySpec>::from_str(left) == ContentChars::<AnySpec>::from_str(right)
}

/// `==` on a `ContentChars` of the catch-all grammar and a `str`: the first
/// text is a quoted string that stands for the characters of the second.
#[verifier::external_body]
pub(crate) fn quoted_eq_plain(quoted: &str, plain: &str) -> (r: bool)
    ensures
        r == (quoted_content(quoted@) == Some(plain@)),
{
    ContentChars::<AnySpec>::from_str(quoted) == plain
}

/// `eq_ignore_ascii_case` on two `ContentChars` of the catch-all grammar:
/// both texts are quoted strings and stand for the same characters but for
/// the case of US-ASCII letters.
#[verifier::external_body]
pub(crate) fn quoted_eq_quoted_ignore_case(left: &str, right: &str) -> (r: bool)
    ensures
        r == (quoted_content(left@) is Some && quoted_content(right@) is Some && lower_chars(
            quoted_content(left@)->0,
        ) == lower_chars(quoted_content(right@)->0)),
{
    ContentChars::<AnySpec>::from_str(left).eq_ignore_ascii_case(
        &ContentChars::<AnySpec>::from_str(right),
    )
}

/// `eq_ignore_ascii_case` on a `ContentChars` of the catch-all grammar and a
/// `str`: the first text is a quoted string that stands for the characters
/// of the second but for the case of US-ASCII letters.
#[verifier::external_body]
pub(crate) fn quoted_eq_plain_ignore_case(quoted: &str, plain: &str) -> (r: bool)
    ensures
        r == (quoted_content(quoted@) is Some && lower_chars(quoted_content(quoted@)->0)
            == lower_chars(plain@)),
{
    ContentChars::<AnySpec>::from_str(quoted).eq_ignore_ascii_case(plain)
}

/// `quoted_string::to_content` for the catch-all grammar: what the quoted
/// string stands for, if it is one. On a text of one byte that is a `"` it
/// does not return.
#[verifier::external_body]
pub(crate) fn quoted_to_content<'a>(quoted: &'a str) -> (r: Option<Cow<'a, str>>)
    requires
        quoted.spec_bytes().len() >= 2,
    ensures
        r is Some <==> quoted_content(quoted@) is Some,
        r matches Some(content) ==> quoted_content(quoted@) == Some(content@),
{
    quoted_string::to_content::<AnySpec>(quoted).ok()
}

/// Whether two texts hold the same characters.
pub fn plain_eq_plain(left: &str, right: &str) -> (r: bool)
    ensures
        r == (left@ == right@),
{
    let a = left.as_bytes();
    let b = right.as_bytes();
    proof {
        encode_utf8_decode_utf8(left@);
        encode_utf8_decode_utf8(right@);
    }
    if a.len() != b.len() {
        return false;
    }
    let mut i: usize = 0;
    while i < a.len()
        invariant
            i <= a.len(),
            a.len() == b.len(),
            a@ == left.spec_bytes(),
            b@ == right.spec_bytes(),
            forall|k: int| 0 <= k < i ==> a@[k] == b@[k],
        decreases a.len() - i,
    {
        if a[i] != b[i] {
            return false;
        }
        i += 1;
    }
    assert(a@ == b@);
    true
}

/// Whether two texts hold the same characters but for the case of US-ASCII
/// letters.
pub fn plain_eq_plain_ignore_case(left: &str, right: &str) -> (r: bool)
    ensures
        r == (lower_chars(left@) == lower_chars(right@)),
{
    proof {
        lemma_same_but_for_case(left@, right@);
    }
    bytes_eq_ignore_ascii_case(left.as_bytes(), right.as_bytes())
}

/// The value of a parameter, as it is written: a token, or a quoted string
/// with its quotes and backslashes.
///
/// Values are compared by what they stand for: a quoted string and a token
/// with the same content are equal, and so are two quoted strings that
/// differ in their backslashes only. The case of letters counts.
#[derive(Clone, Copy, Debug, Hash)]
pub struct Value<'a> {
    pub source: &'a str,
}

impl<'a> Value<'a> {
    /// The value that is written as `source`. Only a token or a well-formed
    /// quoted string is a value: any other text that starts with `"` stands
    /// for nothing and is equal to nothing, not even to itself.
    pub fn new_unchecked(source: &'a str) -> (r: Value<'a>)
        ensures
            r.source == source,
    {
        Value { source }
    }

    /// The value as it is written.
    pub fn as_str_repr(&self) -> (r: &'a str)
        ensures
            r == self.source,
    {
        self.source
    }

    /// Whether the value is written as a quoted string: whether it starts
    /// with `"`.
    pub open spec fn spec_is_quoted(&self) -> bool {
        self.source@.len() > 0 && self.source@[0] == '"'
    }

    /// Whether the value is written as a quoted string: whether it starts
    /// with `"`.
    pub fn is_quoted(&self) -> (r: bool)
        ensures
            r == self.spec_is_quoted(),
    {
        let bytes = self.source.as_bytes();
        proof {
            lemma_first_char(self.source@);
        }
        bytes.len() > 0 && bytes[0] == 0x22
    }

    /// What the value stands for: a token itself, and a quoted string
    /// without its quotes and backslashes.
    pub fn to_content(&self) -> (r: Cow<'a, str>)
        requires
            value_content(self.source@) is Some,
        ensures
            value_content(self.source@) == Some(r@),
    {
        match self.try_to_content() {
            Some(content) => content,
            None => Cow::Borrowed(self.source),
        }
    }

    /// What the value stands for, if it stands for anything.
    pub fn try_to_content(&self) -> (r: Option<Cow<'a, str>>)
        ensures
            match r {
                Some(content) => value_content(self.source@) == Some(content@),
                None => value_content(self.source@) is None,
            },
    {
        if self.is_quoted() {
            if self.source.as_bytes().len() < 2 {
                proof {
                    lemma_lone_quote(self.source@);
                }
                None
            } else {
                quoted_to_content(self.source)
            }
        } else {
            Some(Cow::Borrowed(self.source))
        }
    }

    /// Whether this value and `other` stand for the same content.
    pub fn eq_value(&self, other: &Value<'_>) -> (r: bool)
        ensures
            r == value_eq(self.source@, other.source@),
    {
        let left = self.is_quoted();
        let right = other.is_quoted();
        if left && right {
            quoted_eq_quoted(self.source, other.source)
        } else if left {
            quoted_eq_plain(self.source, other.source)
        } else if right {
            quoted_eq_plain(other.source, self.source)
        } else {
            plain_eq_plain(self.source, other.source)
        }
    }

    /// Whether this value stands for the content `other`.
    pub fn eq_str(&self, other: &str) -> (r: bool)
        ensures
            r == (value_content(self.source@) == Some(other@)),
    {
        if self.is_quoted() {
            quoted_eq_plain(self.source, other)
        } else {
            plain_eq_plain(self.source, other)
        }
    }

    /// Whether this value stands for the content `other`, whatever the case
    /// of its US-ASCII letters.
    pub fn eq_str_ignore_ascii_case(&self, other: &str) -> (r: bool)
        ensures
            r == content_eq_ignore_ascii_case(self.source@, other@),
    {
        if self.is_quoted() {
            quoted_eq_plain_ignore_case(self.source, other)
        } else {
            plain_eq_plain_ignore_case(self.source, other)
        }
    }
}

/// A text that does not start with `"` is a value that stands for itself.
pub proof fn lemma_plain_content(bytes: Seq<u8>)
    requires
        valid_utf8(bytes),
        bytes.len() == 0 || bytes[0] != 0x22,
    ensures
        value_content(decode_utf8(bytes)) == Some(decode_utf8(bytes)),
{
    decode_utf8_encode_utf8(bytes);
    lemma_first_char(decode_utf8(bytes));
}

/// A text of one byte has one character.
pub proof fn lemma_lone_quote(chars: Seq<char>)
    requires
        encode_utf8(chars).len() == 1,
    ensures
        chars.len() == 1,
{
    if chars.len() == 0 {
        assert(encode_utf8(chars).len() == 0);
    } else {
        let rest = chars.drop_first();
        assert(encode_utf8(chars) == encode_scalar(chars[0] as u32) + encode_utf8(rest));
        if rest.len() > 0 {
            assert(encode_utf8(rest) == encode_scalar(rest[0] as u32) + encode_utf8(
                rest.drop_first(),
            ));
        }
    }
}

/// A text starts with the byte `"` where it starts with the character `"`.
pub proof fn lemma_first_char(chars: Seq<char>)
    ensures
        (chars.len() > 0 && chars[0] == '"') <==> (encode_utf8(chars).len() > 0 && encode_utf8(
            chars,
        )[0] == 0x22),
{
    if chars.len() > 0 {
        let first = chars[0];
        let bytes = encode_utf8(chars);
        char_is_scalar(first);
        lemma_char_range(first);
        encode_utf8_first_scalar(chars);
        assert(bytes == encode_scalar(first as u32) + encode_utf8(chars.drop_first()));
        if first <= '\u{7f}' {
            let one = seq![first];
            assert(is_ascii_chars(one));
            is_ascii_chars_encode_utf8(one);
            assert(one.drop_first() =~= Seq::<char>::empty());
            assert(encode_utf8(one) =~= encode_scalar(first as u32));
            assert(bytes[0] == first as u8);
        } else {
            assert(encode_scalar(first as u32).len() >= 2);
        }
    } else {
        assert(encode_utf8(chars).len() == 0);
    }
}

} // verus!
