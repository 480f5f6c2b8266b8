//! The parser: from the text of a media type to the offsets of its parts.
use vstd::prelude::*;
use vstd::string::StringSliceAdditionalSpecFns;
use crate::error::{ParserErrorKind, ParserErrorRef};
use crate::parse::impl_spec::{
    lemma_space_bounds, lemma_token_bounds, parse_space_for, parse_token_for,
    parse_unquoted_value_for, spec_quoted, spec_space, spec_token, spec_unquoted,
};
use crate::parse::quoted::parse_quoted_string_for;
use crate::parse::utils::{parse_ascii_char, spec_ascii_char};
use crate::spec::{Policy, Spec};
use crate::text::{
    is_cut, lemma_cut_after_ascii, lemma_cut_ends, lemma_piece_text, lemma_str_valid, tail_from,
};
use crate::value::{lemma_plain_content, value_content};
use vstd::utf8::decode_utf8;

pub mod cfws;
pub mod impl_spec;
pub mod quoted;
pub mod unquoted;
pub mod utils;
pub use self::impl_spec::parse_opt_ws;

verus! {

/// What a step of the grammar yields on given bytes: the offset behind what
/// it took, or the kind of the error.
pub type Outcome = Result<int, ParserErrorKind>;

/// Whether the result `r` of a parsing function on `input` is what the
/// grammar yields: the same offset, or an error of the same kind that carries
/// `input`.
pub open spec fn outcome_is(
    r: Result<usize, ParserErrorRef<'_>>,
    input: &str,
    expected: Outcome,
) -> bool {
    match r {
        Ok(end) => expected == Ok::<int, ParserErrorKind>(end as int),
        Err(e) => expected == Err::<int, ParserErrorKind>(e.kind) && e.input == input,
    }
}

/// What a step of the grammar yields where its errors may speak of a later
/// part of the input: the offset behind what it took, or the offset from
/// which the error counts and its kind.
pub type Located = Result<int, (int, ParserErrorKind)>;

/// An outcome whose error counts from the start of the input.
pub open spec fn at_start(outcome: Outcome) -> Located {
    match outcome {
        Ok(end) => Ok(end),
        Err(kind) => Err((0, kind)),
    }
}

/// The outcome on the bytes from offset `by` on, counted from the start of
/// the input.
pub open spec fn shifted(outcome: Located, by: int) -> Located {
    match outcome {
        Ok(end) => Ok(end + by),
        Err((start, kind)) => Err((start + by, kind)),
    }
}

/// Whether the result `r` of a parsing function on `input` is what the
/// grammar yields: the same offset, or an error of the same kind that
/// carries the input from the offset on from which the error counts.
pub open spec fn located_is(
    r: Result<usize, ParserErrorRef<'_>>,
    input: &str,
    expected: Located,
) -> bool {
    match r {
        Ok(end) => expected == Ok::<int, (int, ParserErrorKind)>(end as int),
        Err(e) => expected matches Err((start, kind)) && kind == e.kind && 0 <= start
            <= input.spec_bytes().len() && e.input.spec_bytes() == input.spec_bytes().subrange(
            start,
            input.spec_bytes().len() as int,
        ),
    }
}

/// Whether the error `e` of a parsing function on `input` is the one that
/// counts from the offset `start` and has the kind `kind`.
pub open spec fn error_is(
    e: ParserErrorRef<'_>,
    input: &str,
    start: int,
    kind: ParserErrorKind,
) -> bool {
    &&& e.kind == kind
    &&& 0 <= start <= input.spec_bytes().len()
    &&& e.input.spec_bytes() == tail(input.spec_bytes(), start)
}

/// The bytes from offset `from` on.
pub open spec fn tail(bytes: Seq<u8>, from: int) -> Seq<u8> {
    bytes.subrange(from, bytes.len() as int)
}

/// Where a parameter stands in the text of a media type: its name from
/// `start` up to the `=` at `eq_idx`, its value from behind the `=` up to
/// `end`.
#[derive(Debug, Clone, Copy, PartialEq, Eq)]
pub struct ParamIndices {
    pub start: usize,
    pub eq_idx: usize,
    pub end: usize,
}

/// Where the parts of a media type stand in its text.
pub struct Parts {
    /// The offset of the `/` between type and subtype.
    pub slash_idx: int,
    /// The offset behind the subtype.
    pub end_of_type_idx: int,
    /// The parameters in their order.
    pub params: Seq<ParamIndices>,
}

/// Whether type and subtype stand in `bytes` as the offsets say: two parts
/// that are not empty, with a `/` between them, the second ending in a
/// US-ASCII byte.
pub open spec fn head_ok(bytes: Seq<u8>, slash_idx: int, end_of_type_idx: int) -> bool {
    &&& 0 < slash_idx
    &&& slash_idx + 1 < end_of_type_idx <= bytes.len()
    &&& bytes[slash_idx] == 0x2f
    &&& bytes[end_of_type_idx - 1] <= 0x7f
}

/// Whether the parameter `p` stands in `bytes` behind the offset `prev` as
/// its offsets say: at least one byte of separator, a name and a value that
/// are not empty, with a `=` between them, and US-ASCII bytes before the
/// name and at the end of the value.
pub open spec fn param_ok(bytes: Seq<u8>, prev: int, p: ParamIndices) -> bool {
    &&& prev < p.start < p.eq_idx
    &&& p.eq_idx + 1 < p.end <= bytes.len()
    &&& bytes[p.start - 1] <= 0x7f
    &&& bytes[p.eq_idx as int] == 0x3d
    &&& bytes[p.end - 1] <= 0x7f
}

/// The offset behind the parameter before the one numbered `i`, and behind
/// the subtype for the first.
pub open spec fn end_before(end_of_type_idx: int, params: Seq<ParamIndices>, i: int) -> int {
    if i == 0 {
        end_of_type_idx
    } else {
        params[i - 1].end as int
    }
}

/// Whether the parameter numbered `i` stands in `bytes` as its offsets say,
/// behind the one before it.
pub open spec fn param_fits(
    bytes: Seq<u8>,
    end_of_type_idx: int,
    params: Seq<ParamIndices>,
    i: int,
) -> bool {
    param_ok(bytes, end_before(end_of_type_idx, params, i), params[i])
}

/// Whether every parameter stands in `bytes` as its offsets say, each behind
/// the one before it.
pub open spec fn params_ok(
    bytes: Seq<u8>,
    end_of_type_idx: int,
    params: Seq<ParamIndices>,
) -> bool {
    forall|i: int|
        0 <= i < params.len() ==> #[trigger] param_fits(bytes, end_of_type_idx, params, i)
}

/// What is written in `bytes` as the value of the parameter `p`, in
/// characters.
pub open spec fn value_text(bytes: Seq<u8>, p: ParamIndices) -> Seq<char> {
    decode_utf8(bytes.subrange(p.eq_idx + 1, p.end as int))
}

/// Whether the value of each of the parameters stands for a content: it is
/// a token, or a quoted string up to its closing quote.
pub open spec fn values_ok(bytes: Seq<u8>, params: Seq<ParamIndices>) -> bool {
    forall|i: int|
        0 <= i < params.len() ==> value_content(value_text(bytes, #[trigger] params[i])) is Some
}

/// The offsets of a media type in the text `input` that they were found in.
#[derive(Debug, Clone, PartialEq)]
pub struct ParseResult<'a> {
    pub input: &'a str,
    pub slash_idx: usize,
    pub end_of_type_idx: usize,
    pub params: Vec<ParamIndices>,
}

impl<'a> ParseResult<'a> {
    /// The offsets without the input.
    pub open spec fn parts(&self) -> Parts {
        Parts {
            slash_idx: self.slash_idx as int,
            end_of_type_idx: self.end_of_type_idx as int,
            params: self.params@,
        }
    }

    /// Whether the parts stand in the input as the offsets say.
    pub open spec fn wf(&self) -> bool {
        &&& head_ok(self.input.spec_bytes(), self.slash_idx as int, self.end_of_type_idx as int)
        &&& params_ok(self.input.spec_bytes(), self.end_of_type_idx as int, self.params@)
    }

    /// Whether the value of each parameter stands for a content.
    pub open spec fn has_contents(&self) -> bool {
        values_ok(self.input.spec_bytes(), self.params@)
    }

    /// The offset behind the last part.
    pub open spec fn spec_repr_len(&self) -> int {
        if self.params@.len() == 0 {
            self.end_of_type_idx as int
        } else {
            self.params@.last().end as int
        }
    }

    /// The length of the media type without what follows its last part.
    pub fn repr_len(&self) -> (r: usize)
        ensures
            r as int == self.spec_repr_len(),
    {
        let n = self.params.len();
        if n == 0 {
            self.end_of_type_idx
        } else {
            self.params[n - 1].end
        }
    }
}

/// Type and subtype at the start of `bytes`: a token, a `/` and a token. The
/// offsets of the `/` and of the end of the subtype.
pub open spec fn spec_head(policy: Policy, bytes: Seq<u8>) -> Result<
    (int, int),
    (int, ParserErrorKind),
> {
    match spec_token(policy, bytes) {
        Err(kind) => Err((0, kind)),
        Ok(slash_idx) => match spec_ascii_char(bytes, slash_idx, 0x2f) {
            Err(kind) => Err((0, kind)),
            Ok(start_of_subtype) => match spec_token(policy, tail(bytes, start_of_subtype)) {
                Err(kind) => Err((start_of_subtype, kind)),
                Ok(len) => Ok((slash_idx, start_of_subtype + len)),
            },
        },
    }
}

/// The value at the start of `bytes`: a quoted string where a `"` stands
/// there, else a value without quotes. Its length.
pub open spec fn spec_value(policy: Policy, bytes: Seq<u8>) -> Outcome {
    if bytes.len() > 0 && bytes[0] == 0x22 {
        spec_quoted(policy, bytes)
    } else {
        spec_unquoted(policy, bytes)
    }
}

/// The parameter behind `offset`, or none where only white space follows:
/// white space, a `;`, white space, a token, a `=` and a value.
pub open spec fn spec_param(policy: Policy, bytes: Seq<u8>, offset: int) -> Result<
    Option<ParamIndices>,
    (int, ParserErrorKind),
> {
    match shifted(spec_space(policy, tail(bytes, offset)), offset) {
        Err(e) => Err(e),
        Ok(sc_idx) => if sc_idx == bytes.len() {
            Ok(None)
        } else {
            match spec_ascii_char(bytes, sc_idx, 0x3b) {
                Err(kind) => Err((0, kind)),
                Ok(after_sc) => match shifted(
                    spec_space(policy, tail(bytes, after_sc)),
                    after_sc,
                ) {
                    Err(e) => Err(e),
                    Ok(name_start) => match shifted(
                        at_start(spec_token(policy, tail(bytes, name_start))),
                        name_start,
                    ) {
                        Err(e) => Err(e),
                        Ok(eq_idx) => match spec_ascii_char(bytes, eq_idx, 0x3d) {
                            Err(kind) => Err((0, kind)),
                            Ok(value_start) => match shifted(
                                at_start(spec_value(policy, tail(bytes, value_start))),
                                value_start,
                            ) {
                                Err(e) => Err(e),
                                Ok(end) => Ok(
                                    Some(
                                        ParamIndices {
                                            start: name_start as usize,
                                            eq_idx: eq_idx as usize,
                                            end: end as usize,
                                        },
                                    ),
                                ),
                            },
                        },
                    },
                },
            }
        },
    }
}

/// The parameters behind `offset`, up to the end of the input.
pub open spec fn spec_params(policy: Policy, bytes: Seq<u8>, offset: int) -> Result<
    Seq<ParamIndices>,
    (int, ParserErrorKind),
>
    decreases bytes.len() - offset,
{
    match spec_param(policy, bytes, offset) {
        Err(e) => Err(e),
        Ok(None) => Ok(seq![]),
        Ok(Some(p)) => if offset < p.end <= bytes.len() {
            match spec_params(policy, bytes, p.end as int) {
                Err(e) => Err(e),
                Ok(rest) => Ok(seq![p] + rest),
            }
        } else {
            Ok(seq![p])
        },
    }
}

/// The parts of the media type that `bytes` is, or the first error in it.
/// Every byte of a media type belongs to it: type, `/`, subtype, and any
/// number of parameters, each with white space, a `;`, white space, a name,
/// a `=` and a value, with only white space behind the last.
pub open spec fn spec_parse(policy: Policy, bytes: Seq<u8>) -> Result<
    Parts,
    (int, ParserErrorKind),
> {
    match spec_head(policy, bytes) {
        Err(e) => Err(e),
        Ok((slash_idx, end_of_type_idx)) => match spec_params(policy, bytes, end_of_type_idx) {
            Err(e) => Err(e),
            Ok(params) => Ok(Parts { slash_idx, end_of_type_idx, params }),
        },
    }
}

/// White space behind `offset`: the offset behind it.
pub(crate) fn space_at<'a>(policy: Policy, input: &'a str, offset: usize) -> (r: Result<
    usize,
    ParserErrorRef<'a>,
>)
    requires
        offset <= input.spec_bytes().len(),
        is_cut(input.spec_bytes(), offset as int),
    ensures
        located_is(
            r,
            input,
            shifted(spec_space(policy, tail(input.spec_bytes(), offset as int)), offset as int),
        ),
        r matches Ok(end) ==> offset <= end <= input.spec_bytes().len() && (offset < end
            ==> input.spec_bytes()[end - 1] <= 0x7f),
{
    let ghost bytes = input.spec_bytes();
    // Learns that the length of the text fits a `usize`.
    let _total = input.as_bytes().len();
    let rest = tail_from(input, offset);
    proof {
        lemma_space_bounds(policy, rest.spec_bytes());
        assert(rest.spec_bytes().len() == bytes.len() - offset);
    }
    match parse_space_for(policy, rest) {
        Ok(len) => {
            proof {
                if 0 < len {
                    assert(rest.spec_bytes()[len - 1] == bytes[offset + len - 1]);
                }
            }
            Ok(offset + len)
        },
        Err(e) => {
            proof {
                let start = spec_space(policy, tail(bytes, offset as int))->Err_0.0;
                assert(tail(tail(bytes, offset as int), start) == tail(bytes, start + offset));
            }
            Err(e)
        },
    }
}

/// The token behind `offset`: the offset behind it.
pub(crate) fn token_at<'a>(policy: Policy, input: &'a str, offset: usize) -> (r: Result<
    usize,
    ParserErrorRef<'a>,
>)
    requires
        offset <= input.spec_bytes().len(),
        is_cut(input.spec_bytes(), offset as int),
    ensures
        located_is(
            r,
            input,
            shifted(
                at_start(spec_token(policy, tail(input.spec_bytes(), offset as int))),
                offset as int,
            ),
        ),
        r matches Ok(end) ==> offset < end <= input.spec_bytes().len() && input.spec_bytes()[end
            - 1] <= 0x7f,
{
    let ghost bytes = input.spec_bytes();
    // Learns that the length of the text fits a `usize`.
    let _total = input.as_bytes().len();
    let rest = tail_from(input, offset);
    proof {
        lemma_token_bounds(policy.token_kind(), rest.spec_bytes());
        assert(rest.spec_bytes().len() == bytes.len() - offset);
        assert(tail(rest.spec_bytes(), 0) == rest.spec_bytes());
    }
    match parse_token_for(policy, rest) {
        Ok(len) => {
            proof {
                assert(rest.spec_bytes()[len - 1] == bytes[offset + len - 1]);
            }
            Ok(offset + len)
        },
        Err(e) => Err(e),
    }
}

/// The value behind `offset`: the offset behind it.
pub(crate) fn value_at<'a>(policy: Policy, input: &'a str, offset: usize) -> (r: Result<
    usize,
    ParserErrorRef<'a>,
>)
    requires
        offset <= input.spec_bytes().len(),
        is_cut(input.spec_bytes(), offset as int),
    ensures
        located_is(
            r,
            input,
            shifted(
                at_start(spec_value(policy, tail(input.spec_bytes(), offset as int))),
                offset as int,
            ),
        ),
        r matches Ok(end) ==> offset < end <= input.spec_bytes().len() && input.spec_bytes()[end
            - 1] <= 0x7f,
        r matches Ok(end) ==> value_content(
            decode_utf8(input.spec_bytes().subrange(offset as int, end as int)),
        ) is Some,
{
    let ghost bytes = input.spec_bytes();
    let bdata = input.as_bytes();
    let rest = tail_from(input, offset);
    proof {
        lemma_token_bounds(policy.value_kind(), rest.spec_bytes());
        assert(rest.spec_bytes().len() == bytes.len() - offset);
        assert(tail(rest.spec_bytes(), 0) == rest.spec_bytes());
        if offset < bytes.len() {
            assert(rest.spec_bytes()[0] == bytes[offset as int]);
        }
    }
    let scanned = if offset < bdata.len() && bdata[offset] == 0x22 {
        parse_quoted_string_for(policy, rest)
    } else {
        parse_unquoted_value_for(policy, rest)
    };
    match scanned {
        Ok(len) => {
            proof {
                assert(rest.spec_bytes()[len - 1] == bytes[offset + len - 1]);
                let piece = bytes.subrange(offset as int, offset + len);
                assert(rest.spec_bytes().subrange(0, len as int) == piece);
                if bytes[offset as int] == 0x22 {
                    assert(decode_utf8(piece).len() > 0 && decode_utf8(piece)[0] == '"');
                } else {
                    lemma_str_valid(input);
                    lemma_cut_after_ascii(bytes, offset + len);
                    lemma_piece_text(bytes, offset as int, offset + len);
                    lemma_plain_content(piece);
                }
            }
            Ok(offset + len)
        },
        Err(e) => Err(e),
    }
}

/// Type and subtype at the start of `input`.
pub(crate) fn parse_media_type_head<'a>(policy: Policy, input: &'a str) -> (r: Result<
    (usize, usize),
    ParserErrorRef<'a>,
>)
    ensures
        match r {
            Ok((slash_idx, end_of_type_idx)) => spec_head(policy, input.spec_bytes()) == Ok::<
                (int, int),
                (int, ParserErrorKind),
            >((slash_idx as int, end_of_type_idx as int)) && head_ok(
                input.spec_bytes(),
                slash_idx as int,
                end_of_type_idx as int,
            ),
            Err(e) => spec_head(policy, input.spec_bytes()) matches Err((start, kind))
                && error_is(e, input, start, kind),
        },
{
    let ghost bytes = input.spec_bytes();
    proof {
        assert(tail(bytes, 0) == bytes);
        lemma_str_valid(input);
        lemma_cut_ends(bytes);
    }
    let slash_idx = token_at(policy, input, 0)?;
    let start_of_subtype = parse_ascii_char(input, slash_idx, 0x2f)?;
    proof {
        lemma_cut_after_ascii(bytes, start_of_subtype as int);
    }
    let end_of_type_idx = token_at(policy, input, start_of_subtype)?;
    Ok((slash_idx, end_of_type_idx))
}

/// The parameter behind `offset`, or none where only white space follows.
pub(crate) fn parse_media_type_param<'a>(
    policy: Policy,
    input: &'a str,
    offset: usize,
) -> (r: Result<Option<ParamIndices>, ParserErrorRef<'a>>)
    requires
        offset <= input.spec_bytes().len(),
        is_cut(input.spec_bytes(), offset as int),
    ensures
        match r {
            Ok(found) => spec_param(policy, input.spec_bytes(), offset as int) == Ok::<
                Option<ParamIndices>,
                (int, ParserErrorKind),
            >(found) && (found matches Some(p) ==> param_ok(input.spec_bytes(), offset as int, p)
                && value_content(value_text(input.spec_bytes(), p)) is Some),
            Err(e) => spec_param(policy, input.spec_bytes(), offset as int) matches Err(
                (start, kind),
            ) && error_is(e, input, start, kind),
        },
{
    let ghost bytes = input.spec_bytes();
    proof {
        assert(tail(bytes, 0) == bytes);
    }
    let sc_idx = space_at(policy, input, offset)?;
    if sc_idx == input.as_bytes().len() {
        return Ok(None);
    }
    let after_sc_idx = parse_ascii_char(input, sc_idx, 0x3b)?;
    proof {
        lemma_str_valid(input);
        lemma_cut_after_ascii(bytes, after_sc_idx as int);
    }
    let param_name_start = space_at(policy, input, after_sc_idx)?;
    proof {
        lemma_cut_after_ascii(bytes, param_name_start as int);
    }
    let param_eq_idx = token_at(policy, input, param_name_start)?;
    let param_value_start = parse_ascii_char(input, param_eq_idx, 0x3d)?;
    proof {
        lemma_cut_after_ascii(bytes, param_value_start as int);
    }
    let param_end_idx = value_at(policy, input, param_value_start)?;
    Ok(Some(ParamIndices { start: param_name_start, eq_idx: param_eq_idx, end: param_end_idx }))
}

/// The parameters with `done` before them.
pub open spec fn spec_params_after(
    done: Seq<ParamIndices>,
    rest: Result<Seq<ParamIndices>, (int, ParserErrorKind)>,
) -> Result<Seq<ParamIndices>, (int, ParserErrorKind)> {
    match rest {
        Ok(params) => Ok(done + params),
        Err(e) => Err(e),
    }
}

/// The parameters behind `offset`, up to the end of `input`.
#[verifier::rlimit(40)]
pub(crate) fn parse_media_type_params<'a>(
    policy: Policy,
    input: &'a str,
    offset: usize,
) -> (r: Result<Vec<ParamIndices>, ParserErrorRef<'a>>)
    requires
        offset <= input.spec_bytes().len(),
        is_cut(input.spec_bytes(), offset as int),
    ensures
        match r {
            Ok(params) => spec_params(policy, input.spec_bytes(), offset as int) == Ok::<
                Seq<ParamIndices>,
                (int, ParserErrorKind),
            >(params@) && params_ok(input.spec_bytes(), offset as int, params@) && values_ok(
                input.spec_bytes(),
                params@,
            ),
            Err(e) => spec_params(policy, input.spec_bytes(), offset as int) matches Err(
                (start, kind),
            ) && error_is(e, input, start, kind),
        },
{
    let ghost bytes = input.spec_bytes();
    let ghost whole = spec_params(policy, bytes, offset as int);
    let mut out: Vec<ParamIndices> = Vec::new();
    let mut at = offset;
    loop
        invariant
            bytes == input.spec_bytes(),
            whole == spec_params(policy, bytes, offset as int),
            whole == spec_params_after(out@, spec_params(policy, bytes, at as int)),
            at <= bytes.len(),
            is_cut(bytes, at as int),
            at as int == end_before(offset as int, out@, out@.len() as int),
            params_ok(bytes, offset as int, out@),
            values_ok(bytes, out@),
        decreases bytes.len() - at,
    {
        match parse_media_type_param(policy, input, at)? {
            None => {
                assert(out@ + Seq::<ParamIndices>::empty() == out@);
                return Ok(out);
            },
            Some(p) => {
                let ghost before = out@;
                out.push(p);
                proof {
                    let rest = spec_params(policy, bytes, p.end as int);
                    if let Ok(params) = rest {
                        assert(before + (seq![p] + params) == out@ + params);
                    }
                    assert forall|i: int| 0 <= i < out@.len() implies #[trigger] param_fits(
                        bytes,
                        offset as int,
                        out@,
                        i,
                    ) by {
                        if i < before.len() {
                            assert(param_fits(bytes, offset as int, before, i));
                            assert(out@[i] == before[i]);
                            assert(end_before(offset as int, out@, i) == end_before(
                                offset as int,
                                before,
                                i,
                            ));
                        }
                    }
                }
                proof {
                    lemma_str_valid(input);
                    lemma_cut_after_ascii(bytes, p.end as int);
                }
                at = p.end;
            },
        }
    }
}

/// The offsets of the parts of the media type `input` under the grammar `S`.
pub fn parse<'a, S: Spec>(input: &'a str) -> (r: Result<ParseResult<'a>, ParserErrorRef<'a>>)
    ensures
        match r {
            Ok(found) => spec_parse(S::policy(), input.spec_bytes()) == Ok::<
                Parts,
                (int, ParserErrorKind),
            >(found.parts()) && found.input == input && found.wf() && found.has_contents(),
            Err(e) => spec_parse(S::policy(), input.spec_bytes()) matches Err((start, kind))
                && error_is(e, input, start, kind),
        },
{
    let policy = S::exec_policy();
    let (slash_idx, end_of_type_idx) = parse_media_type_head(policy, input)?;
    proof {
        lemma_str_valid(input);
        lemma_cut_after_ascii(input.spec_bytes(), end_of_type_idx as int);
    }
    let params = parse_media_type_params(policy, input, end_of_type_idx)?;
    Ok(ParseResult { input, slash_idx, end_of_type_idx, params })
}

/// Whether `input` is a media type under the grammar `S`.
pub fn validate<S: Spec>(input: &str) -> (r: bool)
    ensures
        r == spec_parse(S::policy(), input.spec_bytes()) is Ok,
{
    parse::<S>(input).is_ok()
}

} // verus!
