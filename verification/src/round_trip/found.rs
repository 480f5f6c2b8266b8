//! What the parser finds in a text whose parts are known.
use vstd::prelude::*;
use vstd::string::StringSliceAdditionalSpecFns;
use crate::chars::is_ws_byte;
use crate::error::ParserErrorKind;
use crate::gen::{name_text, 
    first_bad_name, head_text, lemma_no_bad_name, param_sep, written_indices, written_param,
    written_params, written_params_indices,
};
use crate::parse::impl_spec::{
    spec_quoted, spec_space, spec_token, spec_token_of, spec_validate_token,
};
use crate::parse::utils::spec_ascii_char;
use crate::parse::{
    shifted, spec_head, spec_param, spec_params, spec_parse, spec_value, tail, Located,
    ParamIndices, Parts,
};
use crate::spec::{Policy, TokenKind};
use crate::typed::generated;
use crate::round_trip::content::{
    lemma_written_in_quotes, lemma_written_name_is_token, lemma_written_value_is_token,
    written_value_taken, written_without_quotes,
};
use crate::round_trip::tokens::{
    is_token_byte_of, lemma_no_space, lemma_one_space, lemma_token_concat, lemma_token_first,
    lemma_token_of_bytes,
};
use crate::round_trip::written::{
    lemma_indices_len, lemma_next_param, lemma_piece_at, lemma_stands_at, lemma_written_indices,
    lemma_written_param_parts, lemma_written_param_text, stands_at, written_at, written_name,
    written_value,
};

verus! {

/// What may stand between the parts, behind `offset`: the offset behind it.
pub open spec fn spec_space_at(policy: Policy, bytes: Seq<u8>, offset: int) -> Located {
    shifted(spec_space(policy, tail(bytes, offset)), offset)
}

/// Whether what may stand between the parts reaches from `offset` to `end`.
#[verifier::opaque]
pub open spec fn space_found(policy: Policy, text: Seq<u8>, offset: int, end: int) -> bool {
    spec_space_at(policy, text, offset) == Ok::<int, (int, ParserErrorKind)>(end)
}

/// Whether a name of the length `len` is found at `from`.
#[verifier::opaque]
pub open spec fn name_found(policy: Policy, text: Seq<u8>, from: int, len: int) -> bool {
    spec_token(policy, tail(text, from)) == Ok::<int, ParserErrorKind>(len)
}

/// Whether a value of the length `len` is found at `from`.
#[verifier::opaque]
pub open spec fn value_found(policy: Policy, text: Seq<u8>, from: int, len: int) -> bool {
    spec_value(policy, tail(text, from)) == Ok::<int, ParserErrorKind>(len)
}

/// Whether the parameter `p` is found behind `offset`.
#[verifier::opaque]
pub open spec fn param_found(policy: Policy, text: Seq<u8>, offset: int, p: ParamIndices) -> bool {
    spec_param(policy, text, offset) == Ok::<Option<ParamIndices>, (int, ParserErrorKind)>(Some(p))
}

/// Whether the parameters `found` are found behind `offset`.
#[verifier::opaque]
pub open spec fn params_found(
    policy: Policy,
    text: Seq<u8>,
    offset: int,
    found: Seq<ParamIndices>,
) -> bool {
    spec_params(policy, text, offset) == Ok::<Seq<ParamIndices>, (int, ParserErrorKind)>(found)
}

/// Whether type and subtype are found with the `/` at `slash_idx` and the
/// end at `end_of_type_idx`.
#[verifier::opaque]
pub open spec fn head_found(
    policy: Policy,
    text: Seq<u8>,
    slash_idx: int,
    end_of_type_idx: int,
) -> bool {
    spec_head(policy, text) == Ok::<(int, int), (int, ParserErrorKind)>(
        (slash_idx, end_of_type_idx),
    )
}

/// There is nothing to skip before a byte that is no white space and opens
/// neither a line fold nor a comment, nor at the end of the text.
pub proof fn lemma_no_space_at(policy: Policy, text: Seq<u8>, offset: int)
    requires
        0 <= offset <= text.len(),
        offset < text.len() ==> !is_ws_byte(text[offset]) && text[offset] != 0x0d && text[offset]
            != 0x28,
    ensures
        space_found(policy, text, offset, offset),
{
    reveal(space_found);
    let rest = tail(text, offset);
    if rest.len() > 0 {
        assert(rest[0] == text[offset]);
    }
    lemma_no_space(policy, rest);
}

/// One space before such a byte is all there is to skip.
pub proof fn lemma_one_space_at(policy: Policy, text: Seq<u8>, offset: int)
    requires
        0 <= offset < text.len(),
        text[offset] == 0x20,
        offset + 1 < text.len() ==> !is_ws_byte(text[offset + 1]) && text[offset + 1] != 0x0d
            && text[offset + 1] != 0x28,
    ensures
        space_found(policy, text, offset, offset + 1),
{
    reveal(space_found);
    let rest = tail(text, offset);
    assert(rest[0] == text[offset]);
    if rest.len() > 1 {
        assert(rest[1] == text[offset + 1]);
    }
    lemma_one_space(policy, rest);
}

/// A token that stands in a text before a byte that cannot stand in a
/// token, or at its end, is found there.
pub proof fn lemma_token_at(kind: TokenKind, text: Seq<u8>, from: int, to: int)
    requires
        0 <= from <= to <= text.len(),
        spec_token_of(kind, text.subrange(from, to)) == Ok::<int, ParserErrorKind>(to - from),
        to < text.len() ==> !is_token_byte_of(kind, text[to]),
    ensures
        spec_token_of(kind, tail(text, from)) == Ok::<int, ParserErrorKind>(to - from),
{
    let token = text.subrange(from, to);
    let rest = tail(text, to);
    if rest.len() > 0 {
        assert(rest[0] == text[to]);
    }
    assert(tail(text, from) == token + rest);
    lemma_token_concat(kind, token, rest);
}

/// A name that stands in a text before a `=` is found there.
pub proof fn lemma_name_at(policy: Policy, text: Seq<u8>, from: int, to: int)
    requires
        0 <= from <= to < text.len(),
        spec_token_of(policy.token_kind(), text.subrange(from, to)) == Ok::<int, ParserErrorKind>(
            to - from,
        ),
        text[to] == 0x3d,
    ensures
        name_found(policy, text, from, to - from),
{
    reveal(name_found);
    lemma_token_at(policy.token_kind(), text, from, to);
}

/// A value that is a token and stands in a text before a `;` or at its end
/// is found there.
pub proof fn lemma_value_at(policy: Policy, text: Seq<u8>, from: int, to: int)
    requires
        0 <= from < to <= text.len(),
        spec_token_of(policy.value_kind(), text.subrange(from, to)) == Ok::<int, ParserErrorKind>(
            to - from,
        ),
        text[from] != 0x22,
        to < text.len() ==> text[to] == 0x3b,
    ensures
        value_found(policy, text, from, to - from),
{
    reveal(value_found);
    lemma_token_at(policy.value_kind(), text, from, to);
    assert(tail(text, from)[0] == text[from]);
}

/// Where the steps of a parameter are found one behind the other, the
/// parameter is found.
pub proof fn lemma_param_steps(
    policy: Policy,
    text: Seq<u8>,
    offset: int,
    name_len: int,
    value_len: int,
)
    requires
        0 <= offset,
        0 < name_len,
        0 < value_len,
        offset + 3 + name_len + value_len <= text.len() <= usize::MAX,
        space_found(policy, text, offset, offset),
        text[offset] == 0x3b,
        space_found(policy, text, offset + 1, offset + 2),
        name_found(policy, text, offset + 2, name_len),
        text[offset + 2 + name_len] == 0x3d,
        value_found(policy, text, offset + 3 + name_len, value_len),
    ensures
        param_found(
            policy,
            text,
            offset,
            (ParamIndices {
                start: (offset + 2) as usize,
                eq_idx: (offset + 2 + name_len) as usize,
                end: (offset + 3 + name_len + value_len) as usize,
            }),
        ),
{
    reveal(space_found);
    reveal(name_found);
    reveal(value_found);
    reveal(param_found);
    assert(spec_ascii_char(text, offset, 0x3b) == Ok::<int, ParserErrorKind>(offset + 1));
    assert(spec_ascii_char(text, offset + 2 + name_len, 0x3d) == Ok::<int, ParserErrorKind>(
        offset + 3 + name_len,
    ));
}

/// The text `; name=value` with nothing or a `;` behind it is found as a
/// parameter, where the name is a token for names and the value a token for
/// values.
#[verifier::rlimit(40)]
pub proof fn lemma_param_text_found(
    policy: Policy,
    text: Seq<u8>,
    offset: int,
    name: Seq<u8>,
    value: Seq<u8>,
)
    requires
        text.len() <= usize::MAX,
        stands_at(text, offset, param_sep() + name + seq![0x3du8] + value),
        spec_token_of(policy.token_kind(), name) == Ok::<int, ParserErrorKind>(name.len() as int),
        spec_token_of(policy.value_kind(), value) == Ok::<int, ParserErrorKind>(
            value.len() as int,
        ),
    ensures
        param_found(
            policy,
            text,
            offset,
            (ParamIndices {
                start: (offset + 2) as usize,
                eq_idx: (offset + 2 + name.len()) as usize,
                end: (offset + 3 + name.len() + value.len()) as usize,
            }),
        ),
{
    let w = param_sep() + name + seq![0x3du8] + value;
    let name_len = name.len() as int;
    let value_len = value.len() as int;
    lemma_token_first(policy.token_kind(), name);
    lemma_token_first(policy.value_kind(), value);
    assert(w.len() == 3 + name_len + value_len);
    assert(w[0] == 0x3b && w[1] == 0x20 && w[2] == name[0] && w[2 + name_len] == 0x3d && w[3
        + name_len] == value[0]);
    assert(w.subrange(2, 2 + name_len) == name);
    assert(w.subrange(3 + name_len, w.len() as int) == value);
    lemma_stands_at(text, offset, w, 0);
    lemma_stands_at(text, offset, w, 1);
    lemma_stands_at(text, offset, w, 2);
    lemma_stands_at(text, offset, w, 2 + name_len);
    lemma_stands_at(text, offset, w, 3 + name_len);
    lemma_piece_at(text, offset, w, 2, 2 + name_len);
    lemma_piece_at(text, offset, w, 3 + name_len, w.len() as int);
    lemma_name_at(policy, text, offset + 2, offset + 2 + name_len);
    lemma_value_at(policy, text, offset + 3 + name_len, offset + w.len());
    lemma_no_space_at(policy, text, offset);
    lemma_one_space_at(policy, text, offset + 1);
    lemma_param_steps(policy, text, offset, name_len, value_len);
}

/// The text `; name=value` is found as a parameter, where the name is a
/// token for names and the value a quoted string that the scan of quoted
/// strings takes.
#[verifier::rlimit(40)]
pub proof fn lemma_quoted_param_found(
    policy: Policy,
    text: Seq<u8>,
    offset: int,
    name: Seq<u8>,
    value: Seq<u8>,
)
    requires
        text.len() <= usize::MAX,
        stands_at(text, offset, param_sep() + name + seq![0x3du8] + value),
        spec_token_of(policy.token_kind(), name) == Ok::<int, ParserErrorKind>(name.len() as int),
        value.len() > 0,
        value[0] == 0x22,
        spec_quoted(policy, tail(text, offset + 3 + name.len())) == Ok::<int, ParserErrorKind>(
            value.len() as int,
        ),
    ensures
        param_found(
            policy,
            text,
            offset,
            (ParamIndices {
                start: (offset + 2) as usize,
                eq_idx: (offset + 2 + name.len()) as usize,
                end: (offset + 3 + name.len() + value.len()) as usize,
            }),
        ),
{
    let w = param_sep() + name + seq![0x3du8] + value;
    let name_len = name.len() as int;
    let value_len = value.len() as int;
    lemma_token_first(policy.token_kind(), name);
    assert(w.len() == 3 + name_len + value_len);
    assert(w[0] == 0x3b && w[1] == 0x20 && w[2] == name[0] && w[2 + name_len] == 0x3d && w[3
        + name_len] == value[0]);
    assert(w.subrange(2, 2 + name_len) == name);
    lemma_stands_at(text, offset, w, 0);
    lemma_stands_at(text, offset, w, 1);
    lemma_stands_at(text, offset, w, 2);
    lemma_stands_at(text, offset, w, 2 + name_len);
    lemma_stands_at(text, offset, w, 3 + name_len);
    lemma_piece_at(text, offset, w, 2, 2 + name_len);
    lemma_name_at(policy, text, offset + 2, offset + 2 + name_len);
    assert(value_found(policy, text, offset + 3 + name_len, value_len)) by {
        reveal(value_found);
        assert(tail(text, offset + 3 + name_len)[0] == text[offset + 3 + name_len]);
    }
    lemma_no_space_at(policy, text, offset);
    lemma_one_space_at(policy, text, offset + 1);
    lemma_param_steps(policy, text, offset, name_len, value_len);
}

/// The text of a parameter whose value the parser takes, with nothing or a
/// `;` behind it, is found as the parameter.
#[verifier::rlimit(40)]
pub proof fn lemma_param_found(
    policy: Policy,
    text: Seq<u8>,
    offset: int,
    name: Seq<u8>,
    value: Seq<char>,
)
    requires
        spec_validate_token(policy, name) is Ok,
        0 <= offset,
        text.len() <= usize::MAX,
        stands_at(text, offset, written_param(policy, name, value)),
        written_value_taken(
            policy,
            text,
            written_indices(policy, offset, name, value).eq_idx + 1,
            value,
        ),
    ensures
        param_found(policy, text, offset, written_indices(policy, offset, name, value)),
{
    let shown = written_name(policy, name, value);
    let written = written_value(policy, value);
    lemma_written_param_text(policy, name, value);
    lemma_written_param_parts(policy, name, value);
    lemma_written_indices(policy, offset, name, value);
    lemma_written_name_is_token(policy, name, value);
    if written_without_quotes(policy, value) {
        lemma_written_value_is_token(policy, value);
        lemma_token_of_bytes(policy.value_kind(), written);
        lemma_param_text_found(policy, text, offset, shown, written);
    } else {
        lemma_written_in_quotes(policy, value);
        lemma_quoted_param_found(policy, text, offset, shown, written);
    }
}

/// At the end of the text no parameters are found.
pub proof fn lemma_params_end(policy: Policy, text: Seq<u8>)
    requires
        space_found(policy, text, text.len() as int, text.len() as int),
    ensures
        params_found(policy, text, text.len() as int, Seq::<ParamIndices>::empty()),
{
    reveal(space_found);
    reveal(params_found);
}

/// A parameter that is found, and the parameters that are found behind it,
/// are the parameters that are found from it on.
pub proof fn lemma_params_step(
    policy: Policy,
    text: Seq<u8>,
    offset: int,
    p: ParamIndices,
    rest: Seq<ParamIndices>,
)
    requires
        param_found(policy, text, offset, p),
        offset < p.end <= text.len(),
        params_found(policy, text, p.end as int, rest),
    ensures
        params_found(policy, text, offset, seq![p] + rest),
{
    reveal(param_found);
    reveal(params_found);
}

/// The parameters of a generated text are found from each of them on, where
/// the parser takes every value.
#[verifier::rlimit(40)]
pub proof fn lemma_params_found(
    policy: Policy,
    head: Seq<u8>,
    params: Seq<(&str, &str)>,
    k: int,
)
    requires
        0 <= k <= params.len(),
        first_bad_name(policy, params, 0) is None,
        forall|i: int|
            0 <= i < params.len() ==> written_value_taken(
                policy,
                head + written_params(policy, params, params.len() as int),
                written_params_indices(policy, head.len() as int, params, params.len() as int)[i].eq_idx
                    + 1,
                (#[trigger] params[i]).1@,
            ),
        (head + written_params(policy, params, params.len() as int)).len() <= usize::MAX,
    ensures
        params_found(
            policy,
            head + written_params(policy, params, params.len() as int),
            written_at(policy, head, params, k),
            written_params_indices(
                policy,
                head.len() as int,
                params,
                params.len() as int,
            ).subrange(k, params.len() as int),
        ),
    decreases params.len() - k,
{
    let n = params.len() as int;
    let text = head + written_params(policy, params, n);
    let indices = written_params_indices(policy, head.len() as int, params, n);
    let at = written_at(policy, head, params, k);
    lemma_indices_len(policy, head.len() as int, params, n);
    if k == n {
        lemma_no_space_at(policy, text, at);
        lemma_params_end(policy, text);
        assert(indices.subrange(k, n) == Seq::<ParamIndices>::empty());
    } else {
        let name = name_text(params[k].0);
        let value = params[k].1@;
        let p = written_indices(policy, at, name, value);
        assert(written_value_taken(policy, text, indices[k].eq_idx + 1, params[k].1@));
        lemma_no_bad_name(policy, params, 0, k);
        lemma_next_param(policy, head, params, k);
        lemma_param_found(policy, text, at, name, value);
        lemma_written_indices(policy, at, name, value);
        lemma_params_found(policy, head, params, k + 1);
        assert(seq![p] + indices.subrange(k + 1, n) == indices.subrange(k, n));
        lemma_params_step(policy, text, at, p, indices.subrange(k + 1, n));
    }
}

/// A type, `/` and a subtype with nothing or a `;` behind them are found as
/// type and subtype.
pub proof fn lemma_head_found(policy: Policy, type_: Seq<u8>, subtype: Seq<u8>, after: Seq<u8>)
    requires
        spec_validate_token(policy, type_) is Ok,
        spec_validate_token(policy, subtype) is Ok,
        after.len() > 0 ==> after[0] == 0x3b,
    ensures
        spec_head(policy, head_text(type_, subtype) + after) == Ok::<
            (int, int),
            (int, ParserErrorKind),
        >((type_.len() as int, (type_.len() + 1 + subtype.len()) as int)),
{
    let text = head_text(type_, subtype) + after;
    let kind = policy.token_kind();
    let slash = type_.len() as int;
    let rest = tail(text, slash);
    assert(rest[0] == 0x2f);
    assert(text == type_ + rest);
    lemma_token_concat(kind, type_, rest);
    assert(text[slash] == 0x2f);
    let behind = tail(text, slash + 1 + subtype.len());
    if behind.len() > 0 {
        assert(behind[0] == after[0]);
    }
    assert(tail(text, slash + 1) == subtype + behind);
    lemma_token_concat(kind, subtype, behind);
}

/// Type and subtype of a generated text are found.
#[verifier::rlimit(40)]
pub proof fn lemma_generated_head_found(
    policy: Policy,
    type_: Seq<u8>,
    subtype: Seq<u8>,
    params: Seq<(&str, &str)>,
)
    requires
        spec_validate_token(policy, type_) is Ok,
        spec_validate_token(policy, subtype) is Ok,
    ensures
        head_found(
            policy,
            head_text(type_, subtype) + written_params(policy, params, params.len() as int),
            type_.len() as int,
            (type_.len() + 1 + subtype.len()) as int,
        ),
{
    reveal(head_found);
    let head = head_text(type_, subtype);
    let n = params.len() as int;
    let after = written_params(policy, params, n);
    let text = head + after;
    if n > 0 {
        lemma_next_param(policy, head, params, 0);
        lemma_written_param_parts(policy, name_text(params[0].0), params[0].1@);
        let first = written_param(policy, name_text(params[0].0), params[0].1@);
        assert(written_params(policy, params, 0).len() == 0);
        lemma_stands_at(text, head.len() as int, first, 0);
        assert(after[0] == text[head.len() as int]);
    } else {
        assert(after.len() == 0);
    }
    lemma_head_found(policy, type_, subtype, after);
}

/// Where type and subtype are found and the parameters behind them, the
/// media type is found.
pub proof fn lemma_parts_found(policy: Policy, text: Seq<u8>, parts: Parts)
    requires
        head_found(policy, text, parts.slash_idx, parts.end_of_type_idx),
        params_found(policy, text, parts.end_of_type_idx, parts.params),
    ensures
        spec_parse(policy, text) == Ok::<Parts, (int, ParserErrorKind)>(parts),
{
    reveal(head_found);
    reveal(params_found);
}

} // verus!
