//! Strings as byte sequences: where a string may be cut, and what the cuts hold.
use vstd::prelude::*;
use vstd::string::{StringExecFns, StringSliceAdditionalSpecFns};
use vstd::utf8::*;
use crate::name::{lower_byte, lower_bytes};
use crate::value::{lower_char, lower_chars};

verus! {

/// The bytes of `s`.
pub open spec fn bytes_of(s: &str) -> Seq<u8> {
    s.spec_bytes()
}

/// An offset of `bytes` at which a string with these bytes may be cut.
pub open spec fn is_cut(bytes: Seq<u8>, index: int) -> bool {
    is_char_boundary(bytes, index)
}

/// A character is a number from 0 to `0x10ffff`.
pub proof fn lemma_char_range(c: char)
    ensures
        '\0' <= c,
        0 <= c as int <= 0x10ffff,
        (c as u32) as int == c as int,
{
}

/// The bytes of a string are valid UTF-8.
pub proof fn lemma_str_valid(s: &str)
    ensures
        valid_utf8(bytes_of(s)),
{
    encode_utf8_valid_utf8(s@);
}

/// A US-ASCII byte starts a character.
pub proof fn lemma_cut_at_ascii(bytes: Seq<u8>, index: int)
    requires
        valid_utf8(bytes),
        0 <= index < bytes.len(),
        bytes[index] <= 0x7f,
    ensures
        is_cut(bytes, index),
{
    is_char_boundary_iff_not_is_continuation_byte(bytes, index);
}

/// A US-ASCII byte ends a character.
pub proof fn lemma_cut_after_ascii(bytes: Seq<u8>, index: int)
    requires
        valid_utf8(bytes),
        0 < index <= bytes.len(),
        bytes[index - 1] <= 0x7f,
    ensures
        is_cut(bytes, index),
    decreases bytes.len(),
{
    let first = length_of_first_scalar(bytes);
    let rest = pop_first_scalar(bytes);
    if index - 1 < first {
        lemma_cut_at_ascii(bytes, index - 1);
        reveal_with_fuel(is_char_boundary, 2);
        assert(index - 1 == 0);
        assert(first == 1);
        assert(is_char_boundary(rest, 0));
    } else {
        assert(rest[index - 1 - first] == bytes[index - 1]);
        lemma_cut_after_ascii(rest, index - first);
    }
}

/// Both ends of a string are cuts.
pub proof fn lemma_cut_ends(bytes: Seq<u8>)
    requires
        valid_utf8(bytes),
    ensures
        is_cut(bytes, 0),
        is_cut(bytes, bytes.len() as int),
{
    is_char_boundary_start_end_of_seq(bytes);
}

/// The bytes of a concatenation are the concatenation of the bytes.
pub proof fn lemma_bytes_concat(a: Seq<char>, b: Seq<char>)
    ensures
        encode_utf8(a + b) == encode_utf8(a) + encode_utf8(b),
    decreases a.len(),
{
    if a.len() == 0 {
        assert(a + b == b);
        assert(encode_utf8(a) + encode_utf8(b) == encode_utf8(b));
    } else {
        lemma_bytes_concat(a.drop_first(), b);
        assert((a + b).drop_first() == a.drop_first() + b);
        assert((a + b)[0] == a[0]);
        assert(encode_utf8(a + b) == encode_scalar(a[0] as u32) + (encode_utf8(a.drop_first())
            + encode_utf8(b)));
    }
}

/// The part of `s` from byte `from` on.
pub(crate) fn tail_from(s: &str, from: usize) -> (r: &str)
    requires
        from <= bytes_of(s).len(),
        is_cut(bytes_of(s), from as int),
    ensures
        bytes_of(r) == bytes_of(s).subrange(from as int, bytes_of(s).len() as int),
{
    let (_, tail) = s.split_at(from);
    tail
}

/// The part of `s` before byte `to`.
pub(crate) fn head_to(s: &str, to: usize) -> (r: &str)
    requires
        to <= bytes_of(s).len(),
        is_cut(bytes_of(s), to as int),
    ensures
        bytes_of(r) == bytes_of(s).subrange(0, to as int),
{
    let (head, _) = s.split_at(to);
    head
}

/// A cut of a string that lies in its head is a cut of the head.
pub proof fn lemma_cut_in_head(bytes: Seq<u8>, from: int, to: int)
    requires
        valid_utf8(bytes),
        0 <= from <= to <= bytes.len(),
        is_cut(bytes, from),
        is_cut(bytes, to),
    ensures
        valid_utf8(bytes.subrange(0, to)),
        is_cut(bytes.subrange(0, to), from),
{
    valid_utf8_split(bytes, to);
    let head = bytes.subrange(0, to);
    if from == 0 {
    } else if from == to {
        is_char_boundary_start_end_of_seq(head);
    } else {
        is_char_boundary_iff_not_is_continuation_byte(bytes, from);
        is_char_boundary_iff_not_is_continuation_byte(head, from);
    }
}

/// What stands between two cuts of a text is a text: the bytes of its
/// characters are its bytes.
pub proof fn lemma_piece_text(bytes: Seq<u8>, from: int, to: int)
    requires
        valid_utf8(bytes),
        0 <= from <= to <= bytes.len(),
        is_cut(bytes, from),
        is_cut(bytes, to),
    ensures
        valid_utf8(bytes.subrange(from, to)),
        encode_utf8(decode_utf8(bytes.subrange(from, to))) == bytes.subrange(from, to),
{
    lemma_cut_in_head(bytes, from, to);
    let head = bytes.subrange(0, to);
    valid_utf8_split(head, from);
    assert(head.subrange(from, head.len() as int) == bytes.subrange(from, to));
    decode_utf8_encode_utf8(bytes.subrange(from, to));
}

/// The part of `s` from byte `from` up to byte `to`.
pub(crate) fn slice_of(s: &str, from: usize, to: usize) -> (r: &str)
    requires
        from <= to <= bytes_of(s).len(),
        is_cut(bytes_of(s), from as int),
        is_cut(bytes_of(s), to as int),
    ensures
        bytes_of(r) == bytes_of(s).subrange(from as int, to as int),
{
    proof {
        lemma_str_valid(s);
        lemma_cut_in_head(bytes_of(s), from as int, to as int);
    }
    let head = head_to(s, to);
    let r = tail_from(head, from);
    assert(bytes_of(r) =~= bytes_of(s).subrange(from as int, to as int));
    r
}

/// The bytes of `s`.
pub open spec fn string_bytes(s: &String) -> Seq<u8> {
    encode_utf8(s@)
}

/// The bytes of a character in lower case are the bytes of the character
/// in lower case.
pub proof fn lemma_lower_scalar(c: char)
    ensures
        encode_scalar(lower_char(c) as u32) == lower_bytes(encode_scalar(c as u32)),
{
    let one = seq![c];
    let bytes = encode_utf8(one);
    lemma_char_range(c);
    assert(one[0] == c);
    assert(one.drop_first() =~= Seq::<char>::empty());
    assert(encode_utf8(one.drop_first()) =~= Seq::<u8>::empty());
    assert(bytes =~= encode_scalar(c as u32) + encode_utf8(one.drop_first()));
    assert(bytes =~= encode_scalar(c as u32));
    encode_utf8_first_scalar(one);
    if c <= '\u{7f}' {
        let lower = seq![lower_char(c)];
        lemma_char_range(lower_char(c));
        assert(lower[0] == lower_char(c));
        assert(lower.drop_first() =~= Seq::<char>::empty());
        assert(encode_utf8(lower.drop_first()) =~= Seq::<u8>::empty());
        assert(encode_utf8(lower) =~= encode_scalar(lower_char(c) as u32) + encode_utf8(
            lower.drop_first(),
        ));
        assert(encode_utf8(lower) =~= encode_scalar(lower_char(c) as u32));
        assert(is_ascii_chars(one));
        assert(is_ascii_chars(lower));
        is_ascii_chars_encode_utf8(one);
        is_ascii_chars_encode_utf8(lower);
        assert(encode_utf8(lower)[0] == lower_byte(bytes[0]));
        assert(encode_utf8(lower) =~= lower_bytes(bytes));
    } else {
        assert(lower_char(c) == c);
        assert(bytes.len() >= 2);
        assert forall|i: int| 0 <= i < bytes.len() implies lower_byte(#[trigger] bytes[i])
            == bytes[i] by {
            assert(bytes[i] >= 0x80);
        }
        assert(lower_bytes(bytes) =~= bytes);
    }
}

/// The bytes of a text in lower case are the bytes of the text in lower
/// case.
pub proof fn lemma_lower_text(chars: Seq<char>)
    ensures
        encode_utf8(lower_chars(chars)) == lower_bytes(encode_utf8(chars)),
    decreases chars.len(),
{
    if chars.len() == 0 {
        assert(lower_chars(chars) =~= chars);
        assert(lower_bytes(encode_utf8(chars)) =~= encode_utf8(chars));
    } else {
        let rest = chars.drop_first();
        lemma_lower_text(rest);
        lemma_lower_scalar(chars[0]);
        assert(lower_chars(chars).drop_first() =~= lower_chars(rest));
        assert(lower_chars(chars)[0] == lower_char(chars[0]));
        assert(lower_bytes(encode_scalar(chars[0] as u32) + encode_utf8(rest)) =~= lower_bytes(
            encode_scalar(chars[0] as u32),
        ) + lower_bytes(encode_utf8(rest)));
    }
}

/// Two texts are the same but for case character by character exactly where
/// they are so byte by byte.
pub proof fn lemma_same_but_for_case(a: Seq<char>, b: Seq<char>)
    ensures
        lower_chars(a) == lower_chars(b) <==> lower_bytes(encode_utf8(a)) == lower_bytes(
            encode_utf8(b),
        ),
{
    lemma_lower_text(a);
    lemma_lower_text(b);
    encode_utf8_decode_utf8(lower_chars(a));
    encode_utf8_decode_utf8(lower_chars(b));
}

/// `str::to_ascii_lowercase`: a copy of `s` in which each US-ASCII letter is
/// in lower case and every other character is as it was.
#[verifier::external_body]
pub(crate) fn to_ascii_lowercase(s: &str) -> (r: String)
    ensures
        r@ == lower_chars(s@),
{
    s.to_ascii_lowercase()
}

/// A copy of `s` in which the US-ASCII letters are in lower case and every
/// other byte is as it was.
pub(crate) fn ascii_lowercase_of(s: &str) -> (r: String)
    ensures
        string_bytes(&r) == lower_bytes(bytes_of(s)),
{
    proof {
        lemma_lower_text(s@);
    }
    to_ascii_lowercase(s)
}

/// Appends `piece` to `buffer`.
pub(crate) fn append_str(buffer: &mut String, piece: &str)
    ensures
        string_bytes(final(buffer)) == string_bytes(old(buffer)) + bytes_of(piece),
{
    proof {
        lemma_bytes_concat(buffer@, piece@);
    }
    buffer.append(piece);
}

/// The number of bytes of `s`.
pub(crate) fn byte_len(s: &String) -> (r: usize)
    ensures
        r == string_bytes(s).len(),
{
    s.as_str().as_bytes().len()
}

} // verus!
