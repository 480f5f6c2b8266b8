//! The text of a generated media type: what stands where.
use vstd::prelude::*;
use vstd::string::StringSliceAdditionalSpecFns;
use vstd::utf8::encode_utf8;
use crate::encode::{spec_percent_encode, spec_quote};
use crate::gen::{name_text, 
    encoded_param_text, encoded_value_prefix, first_bad_name, head_text, lemma_written_params,
    param_sep, written_indices, written_param, written_params, written_params_indices,
};
use crate::media_type::MediaTypeView;
use crate::parse::impl_spec::{lemma_lower_token, spec_validate_token};
use crate::parse::Parts;
use crate::spec::Policy;
use crate::typed::{generated, lemma_generated_head, GenError};

verus! {

/// The offsets of a media type.
pub open spec fn parts_of(view: MediaTypeView) -> Parts {
    Parts {
        slash_idx: view.slash_idx,
        end_of_type_idx: view.end_of_type,
        params: view.params,
    }
}

/// The name of a parameter as it is written: with `*` behind it where the
/// value is percent-encoded.
pub open spec fn written_name(policy: Policy, name: Seq<u8>, value: Seq<char>) -> Seq<u8> {
    match spec_quote(policy, value) {
        Some(_) => name,
        None => name + seq![0x2au8],
    }
}

/// The value of a parameter as it is written: a token, a quoted string, or
/// `utf-8''` and the percent-encoded value.
pub open spec fn written_value(policy: Policy, value: Seq<char>) -> Seq<u8> {
    match spec_quote(policy, value) {
        Some(written) => encode_utf8(written),
        None => encoded_value_prefix() + spec_percent_encode(policy, encode_utf8(value)),
    }
}

/// The text of a parameter is `; `, its name as it is written, `=` and its
/// value as it is written.
pub proof fn lemma_written_param_text(policy: Policy, name: Seq<u8>, value: Seq<char>)
    ensures
        written_param(policy, name, value) == param_sep() + written_name(policy, name, value)
            + seq![0x3du8] + written_value(policy, value),
{
    match spec_quote(policy, value) {
        Some(written) => {},
        None => {
            let encoded = spec_percent_encode(policy, encode_utf8(value));
            assert(encoded_param_text(name, encoded) == param_sep() + (name + seq![0x2au8])
                + seq![0x3du8] + (encoded_value_prefix() + encoded));
        },
    }
}

/// The offset at which the parameter `k` was added to the text `head`.
pub open spec fn written_at(
    policy: Policy,
    head: Seq<u8>,
    params: Seq<(&str, &str)>,
    k: int,
) -> int {
    (head.len() + written_params(policy, params, k).len()) as int
}

/// The length of the text of the parameter `k`.
pub open spec fn written_len(policy: Policy, params: Seq<(&str, &str)>, k: int) -> int {
    written_param(policy, name_text(params[k].0), params[k].1@).len() as int
}

/// There are as many offsets as parameters.
pub proof fn lemma_indices_len(policy: Policy, at: int, params: Seq<(&str, &str)>, upto: int)
    requires
        0 <= upto <= params.len(),
    ensures
        written_params_indices(policy, at, params, upto).len() == upto,
    decreases upto,
{
    if upto > 0 {
        lemma_indices_len(policy, at, params, upto - 1);
    }
}

/// Each of the parameters that were added to a text stands where its
/// offsets say.
#[verifier::rlimit(40)]
pub proof fn lemma_written_at(
    policy: Policy,
    head: Seq<u8>,
    params: Seq<(&str, &str)>,
    upto: int,
    k: int,
)
    requires
        0 <= k < upto <= params.len(),
    ensures
        written_params_indices(policy, head.len() as int, params, upto).len() == upto,
        written_params_indices(policy, head.len() as int, params, upto)[k] == written_indices(
            policy,
            written_at(policy, head, params, k),
            name_text(params[k].0),
            params[k].1@,
        ),
        written_at(policy, head, params, k) + written_len(policy, params, k) <= (head
            + written_params(policy, params, upto)).len(),
        (head + written_params(policy, params, upto)).subrange(
            written_at(policy, head, params, k),
            written_at(policy, head, params, k) + written_len(policy, params, k),
        ) == written_param(policy, name_text(params[k].0), params[k].1@),
    decreases upto,
{
    let text = head + written_params(policy, params, upto);
    let before = head + written_params(policy, params, upto - 1);
    let last = written_param(policy, name_text(params[upto - 1].0), params[upto - 1].1@);
    assert(text == before + last);
    lemma_indices_len(policy, head.len() as int, params, upto - 1);
    if k < upto - 1 {
        lemma_written_at(policy, head, params, upto - 1, k);
        let at = written_at(policy, head, params, k);
        let len = written_len(policy, params, k);
        assert(text.subrange(at, at + len) == before.subrange(at, at + len));
    } else {
        assert(text.subrange(before.len() as int, (before.len() + last.len()) as int) == last);
    }
}

/// The name and the value of a parameter stand in its text behind `; ` and
/// behind `=`.
pub proof fn lemma_written_param_parts(policy: Policy, name: Seq<u8>, value: Seq<char>)
    ensures
        written_param(policy, name, value).len() == 3 + written_name(policy, name, value).len()
            + written_value(policy, value).len(),
        written_param(policy, name, value).subrange(
            2,
            2 + written_name(policy, name, value).len() as int,
        ) == written_name(policy, name, value),
        written_param(policy, name, value).subrange(
            3 + written_name(policy, name, value).len() as int,
            written_param(policy, name, value).len() as int,
        ) == written_value(policy, value),
        written_param(policy, name, value)[0] == 0x3b,
        written_param(policy, name, value)[1] == 0x20,
        written_param(policy, name, value)[2 + written_name(policy, name, value).len() as int]
            == 0x3d,
{
    lemma_written_param_text(policy, name, value);
}

/// The offsets of a parameter that was written at `at`, by the lengths of
/// its name and its value as they are written.
pub proof fn lemma_written_indices(policy: Policy, at: int, name: Seq<u8>, value: Seq<char>)
    requires
        0 <= at,
        at + written_param(policy, name, value).len() <= usize::MAX,
    ensures
        written_indices(policy, at, name, value).start == at + 2,
        written_indices(policy, at, name, value).eq_idx == at + 2 + written_name(
            policy,
            name,
            value,
        ).len(),
        written_indices(policy, at, name, value).end == at + written_param(
            policy,
            name,
            value,
        ).len(),
{
    lemma_written_param_parts(policy, name, value);
}

/// Whether the text `part` stands in `text` at `offset`, with nothing or a
/// `;` behind it.
pub open spec fn stands_at(text: Seq<u8>, offset: int, part: Seq<u8>) -> bool {
    &&& 0 <= offset
    &&& offset + part.len() <= text.len()
    &&& text.subrange(offset, offset + part.len()) == part
    &&& (offset + part.len() < text.len() ==> text[offset + part.len()] == 0x3b)
}

/// The bytes of a part that stands in a text are bytes of the text.
pub proof fn lemma_stands_at(text: Seq<u8>, offset: int, part: Seq<u8>, i: int)
    requires
        stands_at(text, offset, part),
        0 <= i < part.len(),
    ensures
        text[offset + i] == part[i],
{
    assert(text.subrange(offset, offset + part.len())[i] == text[offset + i]);
}

/// A piece of a part that stands in a text stands in the text.
pub proof fn lemma_piece_at(text: Seq<u8>, offset: int, part: Seq<u8>, from: int, to: int)
    requires
        stands_at(text, offset, part),
        0 <= from <= to <= part.len(),
    ensures
        text.subrange(offset + from, offset + to) == part.subrange(from, to),
{
    assert(text.subrange(offset + from, offset + to) == text.subrange(
        offset,
        offset + part.len(),
    ).subrange(from, to));
}

/// A parameter of a generated text stands in it where it was written, with
/// the next one, which starts with `;`, or nothing behind it.
pub proof fn lemma_next_param(policy: Policy, head: Seq<u8>, params: Seq<(&str, &str)>, k: int)
    requires
        0 <= k < params.len(),
    ensures
        written_at(policy, head, params, k + 1) == written_at(policy, head, params, k)
            + written_len(policy, params, k),
        stands_at(
            head + written_params(policy, params, params.len() as int),
            written_at(policy, head, params, k),
            written_param(policy, name_text(params[k].0), params[k].1@),
        ),
        written_params_indices(policy, head.len() as int, params, params.len() as int)[k]
            == written_indices(
            policy,
            written_at(policy, head, params, k),
            name_text(params[k].0),
            params[k].1@,
        ),
{
    let n = params.len() as int;
    let text = head + written_params(policy, params, n);
    let next = written_at(policy, head, params, k + 1);
    lemma_written_at(policy, head, params, n, k);
    if k + 1 < n {
        lemma_written_at(policy, head, params, n, k + 1);
        let following = written_param(policy, name_text(params[k + 1].0), params[k + 1].1@);
        lemma_written_param_parts(policy, name_text(params[k + 1].0), params[k + 1].1@);
        assert(text[next] == text.subrange(next, next + following.len() as int)[0]);
    } else {
        assert(next == text.len());
    }
}

/// What a generated media type is made of: the text of type and subtype
/// with the texts of the parameters behind it, and the offsets at which they
/// were written.
pub proof fn lemma_generated_text(
    policy: Policy,
    type_: &str,
    subtype: &str,
    params: Seq<(&str, &str)>,
    view: MediaTypeView,
)
    requires
        generated(policy, type_, subtype, params) == Ok::<MediaTypeView, GenError>(view),
    ensures
        spec_validate_token(policy, name_text(type_)) is Ok,
        spec_validate_token(policy, name_text(subtype)) is Ok,
        first_bad_name(policy, params, 0) is None,
        view.bytes == head_text(name_text(type_), name_text(subtype)) + written_params(
            policy,
            params,
            params.len() as int,
        ),
        view.slash_idx == name_text(type_).len(),
        view.end_of_type == head_text(name_text(type_), name_text(subtype)).len(),
        view.params == written_params_indices(
            policy,
            head_text(name_text(type_), name_text(subtype)).len() as int,
            params,
            params.len() as int,
        ),
        view.params.len() == params.len(),
{
    let head = head_text(name_text(type_), name_text(subtype));
    lemma_lower_token(policy, type_.spec_bytes());
    lemma_lower_token(policy, subtype.spec_bytes());
    assert(head.len() == name_text(type_).len() + 1 + name_text(subtype).len());
    lemma_indices_len(policy, head.len() as int, params, params.len() as int);
}

/// A generated media type fits its text.
pub proof fn lemma_generated_fits(
    policy: Policy,
    type_: &str,
    subtype: &str,
    params: Seq<(&str, &str)>,
    view: MediaTypeView,
)
    requires
        generated(policy, type_, subtype, params) == Ok::<MediaTypeView, GenError>(view),
        view.bytes.len() <= usize::MAX,
    ensures
        crate::parse::head_ok(view.bytes, view.slash_idx, view.end_of_type),
        crate::parse::params_ok(view.bytes, view.end_of_type, view.params),
        view.params.len() == params.len(),
{
    let head = head_text(name_text(type_), name_text(subtype));
    lemma_generated_text(policy, type_, subtype, params, view);
    lemma_generated_head(policy, name_text(type_), name_text(subtype));
    lemma_written_params(policy, head, params, params.len() as int);
    assert(view.bytes[view.slash_idx] == head[view.slash_idx]);
    assert(view.bytes[view.end_of_type - 1] == head[view.end_of_type - 1]);
}

/// In a generated media type, each parameter has its name and its value as
/// they are written.
#[verifier::rlimit(40)]
pub proof fn lemma_generated_param(
    policy: Policy,
    type_: &str,
    subtype: &str,
    params: Seq<(&str, &str)>,
    view: MediaTypeView,
    k: int,
)
    requires
        generated(policy, type_, subtype, params) == Ok::<MediaTypeView, GenError>(view),
        view.bytes.len() <= usize::MAX,
        0 <= k < params.len(),
    ensures
        view.params.len() == params.len(),
        view.param_name(k) == written_name(policy, name_text(params[k].0), params[k].1@),
        view.param_value_bytes(k) == written_value(policy, params[k].1@),
{
    let head = head_text(name_text(type_), name_text(subtype));
    let name = name_text(params[k].0);
    let value = params[k].1@;
    let at = written_at(policy, head, params, k);
    let w = written_param(policy, name, value);
    let shown_len = written_name(policy, name, value).len() as int;
    lemma_generated_text(policy, type_, subtype, params, view);
    lemma_next_param(policy, head, params, k);
    lemma_written_param_parts(policy, name, value);
    lemma_written_indices(policy, at, name, value);
    lemma_piece_at(view.bytes, at, w, 2, 2 + shown_len);
    lemma_piece_at(view.bytes, at, w, 3 + shown_len, w.len() as int);
}

} // verus!
