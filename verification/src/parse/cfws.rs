//! Comments and folding white space, as MIME admits them between the parts of
//! a media type.
use vstd::prelude::*;
use vstd::string::StringSliceAdditionalSpecFns;
use crate::chars::{is_ctext_byte, is_vchar_byte, is_ws_byte, lookup_ctext, lookup_vchar_ws};
use crate::error::{ExpectedChar, ParserErrorKind, ParserErrorRef};
use crate::parse::{located_is, outcome_is, Located, Outcome};
use crate::quoting::MimeParsingExt;
use crate::text::{is_cut, lemma_cut_after_ascii, lemma_cut_ends, lemma_str_valid, tail_from};

verus! {

/// The first offset from `offset` on that holds no space or tab.
pub open spec fn spec_ws_seq_end(bytes: Seq<u8>, offset: int) -> int
    decreases bytes.len() - offset,
{
    if 0 <= offset < bytes.len() && is_ws_byte(bytes[offset]) {
        spec_ws_seq_end(bytes, offset + 1)
    } else {
        offset
    }
}

/// A line fold at `offset`: nothing where no carriage return stands there,
/// else a carriage return, a line feed and a space or tab.
pub open spec fn spec_opt_crlf_seq(bytes: Seq<u8>, offset: int) -> Outcome {
    if !(0 <= offset < bytes.len() && bytes[offset] == 0x0d) {
        Ok(offset)
    } else if offset + 2 < bytes.len() && bytes[offset + 1] == 0x0a && is_ws_byte(
        bytes[offset + 2],
    ) {
        Ok(offset + 3)
    } else {
        Err(ParserErrorKind::IllegalCrNlSeq { pos: offset as usize })
    }
}

/// Optional folding white space of the obsolete grammar: any number of
/// optional line folds, each followed by any number of spaces and tabs.
pub open spec fn spec_fws_obs(bytes: Seq<u8>, offset: int) -> Outcome
    decreases bytes.len() - offset,
{
    match spec_opt_crlf_seq(bytes, offset) {
        Err(kind) => Err(kind),
        Ok(folded) => {
            let end = spec_ws_seq_end(bytes, folded);
            if offset < end <= bytes.len() {
                spec_fws_obs(bytes, end)
            } else {
                Ok(offset)
            }
        },
    }
}

/// Optional folding white space of the modern grammar: spaces and tabs, then
/// at most one line fold with the spaces and tabs behind it.
pub open spec fn spec_fws_modern(bytes: Seq<u8>, offset: int) -> Outcome {
    let ws_end = spec_ws_seq_end(bytes, offset);
    match spec_opt_crlf_seq(bytes, ws_end) {
        Err(kind) => Err(kind),
        Ok(folded) => if folded == ws_end {
            Ok(ws_end)
        } else {
            Ok(spec_ws_seq_end(bytes, folded))
        },
    }
}

/// Optional folding white space of either grammar.
pub open spec fn spec_fws(obs: bool, bytes: Seq<u8>, offset: int) -> Outcome {
    if obs {
        spec_fws_obs(bytes, offset)
    } else {
        spec_fws_modern(bytes, offset)
    }
}

/// What an error names as the bytes that may follow a backslash.
pub open spec fn quotable_class(obs: bool) -> &'static str {
    if obs {
        "quotable/obs-quotabe"
    } else {
        "quotable"
    }
}

/// The byte behind a backslash: any US-ASCII byte in the obsolete grammar, a
/// printable one, a space or a tab in the modern one.
pub open spec fn spec_quotable(obs: bool, bytes: Seq<u8>, offset: int) -> Outcome {
    if 0 <= offset < bytes.len() {
        let byte = bytes[offset];
        if (obs && byte <= 0x7f) || (!obs && (is_vchar_byte(byte) || is_ws_byte(byte))) {
            Ok(offset + 1)
        } else {
            Err(
                ParserErrorKind::UnexpectedChar {
                    pos: offset as usize,
                    expected: ExpectedChar::CharClass(quotable_class(obs)),
                },
            )
        }
    } else {
        Err(ParserErrorKind::UnexpectedEof)
    }
}

/// What an error names as the bytes that may stand in a comment.
pub open spec fn comment_class(utf8: bool) -> &'static str {
    if utf8 {
        "ctext / non-ascii-utf8 / '(' / ')' / '\\'"
    } else {
        "ctext / '(' / ')' / '\\'"
    }
}

/// The rest of a comment whose opening bracket stands before `offset`: the
/// offset behind its closing bracket. Between folding white space it holds
/// comment text, a backslash with the byte it quotes, and comments.
pub open spec fn spec_comment(obs: bool, utf8: bool, bytes: Seq<u8>, offset: int) -> Outcome
    decreases bytes.len() - offset,
{
    match spec_fws(obs, bytes, offset) {
        Err(kind) => Err(kind),
        Ok(at) => if !(offset <= at < bytes.len()) {
            Err(ParserErrorKind::UnexpectedEof)
        } else {
            let byte = bytes[at];
            if is_ctext_byte(byte) || (utf8 && byte > 0x7f) {
                spec_comment(obs, utf8, bytes, at + 1)
            } else if byte == 0x28 {
                match spec_comment(obs, utf8, bytes, at + 1) {
                    Err(kind) => Err(kind),
                    Ok(end) => if at < end <= bytes.len() {
                        spec_comment(obs, utf8, bytes, end)
                    } else {
                        Err(ParserErrorKind::UnexpectedEof)
                    },
                }
            } else if byte == 0x5c {
                match spec_quotable(obs, bytes, at + 1) {
                    Err(kind) => Err(kind),
                    Ok(end) => spec_comment(obs, utf8, bytes, at + 2),
                }
            } else if byte == 0x29 {
                Ok(at + 1)
            } else if byte == 0x0d || byte == 0x0a {
                Err(ParserErrorKind::IllegalCrNlSeq { pos: at as usize })
            } else {
                Err(
                    ParserErrorKind::UnexpectedChar {
                        pos: at as usize,
                        expected: ExpectedChar::CharClass(comment_class(utf8)),
                    },
                )
            }
        },
    }
}

/// A comment at the start of `bytes`, where an opening bracket stands there.
pub open spec fn spec_opt_comment(obs: bool, utf8: bool, bytes: Seq<u8>) -> Result<
    Option<int>,
    ParserErrorKind,
> {
    if bytes.len() > 0 && bytes[0] == 0x28 {
        match spec_comment(obs, utf8, bytes, 1) {
            Ok(end) => Ok(Some(end)),
            Err(kind) => Err(kind),
        }
    } else {
        Ok(None)
    }
}

/// Where optional comments and folding white space end, or the error in
/// them. The comments count from the offset at which they start: an error in
/// a comment is `(start, kind)`, with the positions of `kind` counted from
/// `start`; an error in folding white space is `(0, kind)`.
pub open spec fn spec_opt_cfws_from(obs: bool, utf8: bool, bytes: Seq<u8>, offset: int) -> Located
    decreases bytes.len() - offset,
{
    match spec_fws(obs, bytes, offset) {
        Err(kind) => Err((0, kind)),
        Ok(at) => if !(offset <= at <= bytes.len()) {
            Ok(at)
        } else {
            match spec_opt_comment(obs, utf8, bytes.subrange(at, bytes.len() as int)) {
                Err(kind) => Err((at, kind)),
                Ok(None) => Ok(at),
                Ok(Some(len)) => if 0 < len <= bytes.len() - at {
                    spec_opt_cfws_from(obs, utf8, bytes, at + len)
                } else {
                    Ok(at)
                },
            }
        },
    }
}

/// White space ends at or behind its start, and inside the input if it
/// starts there.
pub proof fn lemma_ws_seq_end_bounds(bytes: Seq<u8>, offset: int)
    ensures
        offset <= spec_ws_seq_end(bytes, offset),
        offset <= bytes.len() ==> spec_ws_seq_end(bytes, offset) <= bytes.len(),
        offset >= bytes.len() ==> spec_ws_seq_end(bytes, offset) == offset,
        offset < spec_ws_seq_end(bytes, offset) ==> is_ws_byte(
            bytes[spec_ws_seq_end(bytes, offset) - 1],
        ),
    decreases bytes.len() - offset,
{
    if 0 <= offset < bytes.len() && is_ws_byte(bytes[offset]) {
        lemma_ws_seq_end_bounds(bytes, offset + 1);
    }
}

/// Folding white space ends at or behind its start, and inside the input if
/// it starts there; where it took anything, a space or tab stands before its
/// end.
pub proof fn lemma_fws_bounds(obs: bool, bytes: Seq<u8>, offset: int)
    ensures
        spec_fws(obs, bytes, offset) matches Ok(end) ==> {
            &&& offset <= end
            &&& (offset <= bytes.len() ==> end <= bytes.len())
            &&& (offset >= bytes.len() ==> end == offset)
            &&& (offset < end ==> is_ws_byte(bytes[end - 1]))
        },
    decreases bytes.len() - offset,
{
    if obs {
        if let Ok(folded) = spec_opt_crlf_seq(bytes, offset) {
            lemma_ws_seq_end_bounds(bytes, folded);
            let end = spec_ws_seq_end(bytes, folded);
            if offset < end <= bytes.len() {
                lemma_fws_bounds(obs, bytes, end);
            }
        }
    } else {
        lemma_ws_seq_end_bounds(bytes, offset);
        let ws_end = spec_ws_seq_end(bytes, offset);
        if let Ok(folded) = spec_opt_crlf_seq(bytes, ws_end) {
            lemma_ws_seq_end_bounds(bytes, folded);
        }
    }
}

/// A comment ends behind its start and inside the input, on a closing bracket.
pub proof fn lemma_comment_bounds(obs: bool, utf8: bool, bytes: Seq<u8>, offset: int)
    requires
        0 <= offset,
    ensures
        spec_comment(obs, utf8, bytes, offset) matches Ok(end) ==> offset < end <= bytes.len()
            && bytes[end - 1] == 0x29,
    decreases bytes.len() - offset,
{
    lemma_fws_bounds(obs, bytes, offset);
    if let Ok(at) = spec_fws(obs, bytes, offset) {
        if offset <= at < bytes.len() {
            let byte = bytes[at];
            if is_ctext_byte(byte) || (utf8 && byte > 0x7f) {
                lemma_comment_bounds(obs, utf8, bytes, at + 1);
            } else if byte == 0x28 {
                lemma_comment_bounds(obs, utf8, bytes, at + 1);
                if let Ok(end) = spec_comment(obs, utf8, bytes, at + 1) {
                    lemma_comment_bounds(obs, utf8, bytes, end);
                }
            } else if byte == 0x5c {
                if spec_quotable(obs, bytes, at + 1) is Ok {
                    lemma_comment_bounds(obs, utf8, bytes, at + 2);
                }
            }
        }
    }
}

/// Optional comments and folding white space end at or behind their start
/// and inside the input; where they took anything, a space, a tab or a
/// closing bracket stands before their end.
pub proof fn lemma_opt_cfws_bounds(obs: bool, utf8: bool, bytes: Seq<u8>, offset: int)
    requires
        0 <= offset <= bytes.len(),
    ensures
        spec_opt_cfws_from(obs, utf8, bytes, offset) matches Ok(end) ==> {
            &&& offset <= end <= bytes.len()
            &&& (offset < end ==> is_ws_byte(bytes[end - 1]) || bytes[end - 1] == 0x29)
        },
    decreases bytes.len() - offset,
{
    lemma_fws_bounds(obs, bytes, offset);
    if let Ok(at) = spec_fws(obs, bytes, offset) {
        let tail = bytes.subrange(at, bytes.len() as int);
        if tail.len() > 0 && tail[0] == 0x28 {
            lemma_comment_bounds(obs, utf8, tail, 1);
            if let Ok(len) = spec_comment(obs, utf8, tail, 1) {
                assert(tail[len - 1] == bytes[at + len - 1]);
                lemma_opt_cfws_bounds(obs, utf8, bytes, at + len);
            }
        }
    }
}

/// Whether `bch` is a space or a tab.
pub fn is_ws(bch: u8) -> (r: bool)
    ensures
        r == is_ws_byte(bch),
{
    bch == 0x20 || bch == 0x09
}

/// Skips spaces and tabs from `offset` on.
pub fn parse_opt_ws_seq(input: &str, offset: usize) -> (r: usize)
    ensures
        r as int == spec_ws_seq_end(input.spec_bytes(), offset as int),
{
    let bdata = input.as_bytes();
    let mut at = offset;
    while at < bdata.len() && is_ws(bdata[at])
        invariant
            bdata@ == input.spec_bytes(),
            spec_ws_seq_end(bdata@, offset as int) == spec_ws_seq_end(bdata@, at as int),
        decreases bdata.len() - at,
    {
        at += 1;
    }
    at
}

/// Takes a line fold, `"\r\n "` or `"\r\n\t"`, where a carriage return stands
/// at `offset`.
pub fn parse_opt_crlf_seq<'a>(input: &'a str, offset: usize) -> (r: Result<
    usize,
    ParserErrorRef<'a>,
>)
    ensures
        outcome_is(r, input, spec_opt_crlf_seq(input.spec_bytes(), offset as int)),
{
    let bdata = input.as_bytes();
    if !(offset < bdata.len() && bdata[offset] == 0x0d) {
        Ok(offset)
    } else {
        if offset + 1 < bdata.len() && bdata[offset + 1] == 0x0a {
            if offset + 2 < bdata.len() && is_ws(bdata[offset + 2]) {
                return Ok(offset + 3);
            }
        }
        Err(ParserErrorKind::IllegalCrNlSeq { pos: offset }.with_input(input))
    }
}

/// Optional folding white space of the obsolete grammar.
pub fn _parse_fws_obs<'a>(input: &'a str, offset: usize) -> (r: Result<usize, ParserErrorRef<'a>>)
    ensures
        outcome_is(r, input, spec_fws_obs(input.spec_bytes(), offset as int)),
{
    let ghost bytes = input.spec_bytes();
    let mut at = offset;
    loop
        invariant
            bytes == input.spec_bytes(),
            spec_fws_obs(bytes, offset as int) == spec_fws_obs(bytes, at as int),
        ensures
            spec_fws_obs(bytes, offset as int) == Ok::<int, ParserErrorKind>(at as int),
        decreases bytes.len() - at,
    {
        let folded = parse_opt_crlf_seq(input, at)?;
        let ws_end = parse_opt_ws_seq(input, folded);
        proof {
            lemma_ws_seq_end_bounds(bytes, folded as int);
        }
        if at == ws_end {
            break ;
        } else {
            at = ws_end;
        }
    }
    Ok(at)
}

/// Optional folding white space of the modern grammar.
pub fn _parse_fws_modern<'a>(input: &'a str, offset: usize) -> (r: Result<
    usize,
    ParserErrorRef<'a>,
>)
    ensures
        outcome_is(r, input, spec_fws_modern(input.spec_bytes(), offset as int)),
{
    let ws_end = parse_opt_ws_seq(input, offset);
    let folded = parse_opt_crlf_seq(input, ws_end)?;
    if folded == ws_end {
        Ok(ws_end)
    } else {
        Ok(parse_opt_ws_seq(input, folded))
    }
}

/// Optional folding white space of the grammar `E`.
pub fn parse_opt_fws<'a, E: MimeParsingExt>(input: &'a str, offset: usize) -> (r: Result<
    usize,
    ParserErrorRef<'a>,
>)
    ensures
        outcome_is(r, input, spec_fws(E::obs(), input.spec_bytes(), offset as int)),
{
    if E::is_obs() {
        _parse_fws_obs(input, offset)
    } else {
        _parse_fws_modern(input, offset)
    }
}

/// The byte behind a backslash in a comment.
pub fn parse_quotable<'a, E: MimeParsingExt>(input: &'a str, offset: usize) -> (r: Result<
    usize,
    ParserErrorRef<'a>,
>)
    ensures
        outcome_is(r, input, spec_quotable(E::obs(), input.spec_bytes(), offset as int)),
{
    let bdata = input.as_bytes();
    if offset < bdata.len() {
        let byte = bdata[offset];
        let valid = if E::is_obs() {
            byte <= 0x7f
        } else {
            lookup_vchar_ws(byte)
        };
        if valid {
            Ok(offset + 1)
        } else {
            let charclass = if E::is_obs() {
                "quotable/obs-quotabe"
            } else {
                "quotable"
            };
            Err(
                ParserErrorKind::UnexpectedChar {
                    pos: offset,
                    expected: ExpectedChar::CharClass(charclass),
                }.with_input(input),
            )
        }
    } else {
        Err(ParserErrorKind::UnexpectedEof.with_input(input))
    }
}

/// The rest of a comment, from behind its opening bracket at `offset - 1` to
/// behind the closing bracket that matches it.
pub fn inner_parse_comment<'a, E: MimeParsingExt>(input: &'a str, offset: usize) -> (r: Result<
    usize,
    ParserErrorRef<'a>,
>)
    ensures
        outcome_is(
            r,
            input,
            spec_comment(E::obs(), E::allow_utf8(), input.spec_bytes(), offset as int),
        ),
    decreases input.spec_bytes().len() - offset,
{
    let ghost bytes = input.spec_bytes();
    let ghost whole = spec_comment(E::obs(), E::allow_utf8(), bytes, offset as int);
    let bdata = input.as_bytes();
    let mut at = offset;
    loop
        invariant
            bytes == input.spec_bytes(),
            bdata@ == bytes,
            offset <= at,
            whole == spec_comment(E::obs(), E::allow_utf8(), bytes, offset as int),
            whole == spec_comment(E::obs(), E::allow_utf8(), bytes, at as int),
        decreases bytes.len() - at,
    {
        proof {
            lemma_fws_bounds(E::obs(), bytes, at as int);
        }
        at = parse_opt_fws::<E>(input, at)?;
        if at < bdata.len() {
            let last_byte = bdata[at];
            at += 1;
            if lookup_ctext(last_byte) || (E::is_utf8_allowed() && last_byte > 0x7f) {
                continue ;
            }
            if last_byte == 0x28 {
                proof {
                    lemma_comment_bounds(E::obs(), E::allow_utf8(), bytes, at as int);
                }
                at = inner_parse_comment::<E>(input, at)?;
            } else if last_byte == 0x5c {
                at = parse_quotable::<E>(input, at)?;
            } else if last_byte == 0x29 {
                return Ok(at);
            } else if last_byte == 0x0d || last_byte == 0x0a {
                return Err(ParserErrorKind::IllegalCrNlSeq { pos: at - 1 }.with_input(input));
            } else {
                let charclass = if E::is_utf8_allowed() {
                    "ctext / non-ascii-utf8 / '(' / ')' / '\\'"
                } else {
                    "ctext / '(' / ')' / '\\'"
                };
                return Err(
                    ParserErrorKind::UnexpectedChar {
                        pos: at - 1,
                        expected: ExpectedChar::CharClass(charclass),
                    }.with_input(input),
                );
            }
        } else {
            return Err(ParserErrorKind::UnexpectedEof.with_input(input));
        }
    }
}

/// A comment at the start of `input`, where an opening bracket stands there:
/// the offset behind it.
pub fn opt_parse_comment<'a, E: MimeParsingExt>(input: &'a str) -> (r: Result<
    Option<usize>,
    ParserErrorRef<'a>,
>)
    ensures
        match r {
            Ok(Some(end)) => spec_opt_comment(E::obs(), E::allow_utf8(), input.spec_bytes()) == Ok::<
                Option<int>,
                ParserErrorKind,
            >(Some(end as int)),
            Ok(None) => spec_opt_comment(E::obs(), E::allow_utf8(), input.spec_bytes()) == Ok::<
                Option<int>,
                ParserErrorKind,
            >(None),
            Err(e) => spec_opt_comment(E::obs(), E::allow_utf8(), input.spec_bytes()) == Err::<
                Option<int>,
                ParserErrorKind,
            >(e.kind) && e.input == input,
        },
{
    let bdata = input.as_bytes();
    if bdata.len() > 0 && bdata[0] == 0x28 {
        Ok(Some(inner_parse_comment::<E>(input, 1)?))
    } else {
        Ok(None)
    }
}

/// Skips optional comments and folding white space at the start of `input`.
pub fn parse_opt_cfws<'a, E: MimeParsingExt>(input: &'a str) -> (r: Result<
    usize,
    ParserErrorRef<'a>,
>)
    ensures
        located_is(
            r,
            input,
            spec_opt_cfws_from(E::obs(), E::allow_utf8(), input.spec_bytes(), 0),
        ),
{
    let ghost bytes = input.spec_bytes();
    let ghost whole = spec_opt_cfws_from(E::obs(), E::allow_utf8(), bytes, 0);
    // Learns that the length of the text fits a `usize`.
    let total = input.as_bytes().len();
    let mut offset: usize = 0;
    proof {
        lemma_str_valid(input);
        lemma_cut_ends(bytes);
    }
    loop
        invariant
            bytes == input.spec_bytes(),
            total == bytes.len(),
            vstd::utf8::valid_utf8(bytes),
            offset <= bytes.len(),
            is_cut(bytes, offset as int),
            whole == spec_opt_cfws_from(E::obs(), E::allow_utf8(), bytes, 0),
            whole == spec_opt_cfws_from(E::obs(), E::allow_utf8(), bytes, offset as int),
        decreases bytes.len() - offset,
    {
        proof {
            lemma_fws_bounds(E::obs(), bytes, offset as int);
        }
        let ghost before = offset;
        offset =
        match parse_opt_fws::<E>(input, offset) {
            Ok(end) => end,
            Err(e) => {
                assert(bytes.subrange(0, bytes.len() as int) == bytes);
                return Err(e);
            },
        };
        proof {
            if before < offset {
                lemma_cut_after_ascii(bytes, offset as int);
            }
        }
        let tail = tail_from(input, offset);
        proof {
            lemma_comment_bounds(E::obs(), E::allow_utf8(), tail.spec_bytes(), 1);
        }
        match opt_parse_comment::<E>(tail) {
            Err(e) => {
                return Err(e);
            },
            Ok(Some(len)) => {
                proof {
                    assert(tail.spec_bytes().len() == bytes.len() - offset);
                    assert(tail.spec_bytes()[len - 1] == bytes[offset + len - 1]);
                    lemma_cut_after_ascii(bytes, offset + len);
                }
                offset = offset + len;
            },
            Ok(None) => {
                return Ok(offset);
            },
        }
    }
}

} // verus!
