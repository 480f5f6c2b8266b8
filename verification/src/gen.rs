//! From the parts of a media type to its text.
use vstd::prelude::*;
use vstd::string::StringSliceAdditionalSpecFns;
use vstd::utf8::{encode_utf8, is_ascii_chars, is_ascii_chars_encode_utf8};
use crate::encode::{
    lemma_spec_percent_encode, lemma_spec_quote, percent_encode_for, quote_for,
    spec_percent_encode, spec_quote,
};
use crate::error::{ParserError, ParserErrorKind};
use crate::name::lower_bytes;
use crate::parse::impl_spec::{
    lemma_lower_token, lemma_token_bounds, spec_validate_token, validate_token_for,
};
use crate::parse::{end_before, param_fits, param_ok, params_ok, ParamIndices};
use crate::spec::{Policy, Spec};
use crate::text::{append_str, ascii_lowercase_of, byte_len, string_bytes};

verus! {

/// The bytes of `; `, which stands before each parameter.
pub open spec fn param_sep() -> Seq<u8> {
    seq![0x3b, 0x20]
}

/// The bytes of `utf-8''`, which stands before a percent-encoded value.
pub open spec fn encoded_value_prefix() -> Seq<u8> {
    seq![0x75, 0x74, 0x66, 0x2d, 0x38, 0x27, 0x27]
}

/// The bytes that are written for a name: its bytes, with the US-ASCII
/// letters in lower case.
pub open spec fn name_text(name: &str) -> Seq<u8> {
    lower_bytes(name.spec_bytes())
}

/// The text of a type and a subtype: `type/subtype`.
pub open spec fn head_text(type_: Seq<u8>, subtype: Seq<u8>) -> Seq<u8> {
    type_ + seq![0x2f] + subtype
}

/// The text of a parameter whose value is written as `value`:
/// `; name=value`.
pub open spec fn param_text(name: Seq<u8>, value: Seq<u8>) -> Seq<u8> {
    param_sep() + name + seq![0x3d] + value
}

/// The text of a parameter whose value is percent-encoded as `encoded`:
/// `; name*=utf-8''encoded`.
pub open spec fn encoded_param_text(name: Seq<u8>, encoded: Seq<u8>) -> Seq<u8> {
    param_sep() + name + seq![0x2a] + seq![0x3d] + encoded_value_prefix() + encoded
}

/// The text of the parameter `name` with the value `value` under the
/// grammar `policy`: the value as a token where it is one; else as a quoted
/// string where it can be written as one; else percent-encoded, with `*`
/// behind the name.
pub open spec fn written_param(policy: Policy, name: Seq<u8>, value: Seq<char>) -> Seq<u8> {
    match spec_quote(policy, value) {
        Some(written) => param_text(name, encode_utf8(written)),
        None => encoded_param_text(name, spec_percent_encode(policy, encode_utf8(value))),
    }
}

/// Where the parameter `name` with the value `value` stands in a text to
/// which it was added at the offset `at`.
pub open spec fn written_indices(
    policy: Policy,
    at: int,
    name: Seq<u8>,
    value: Seq<char>,
) -> ParamIndices {
    ParamIndices {
        start: (at + 2) as usize,
        eq_idx: match spec_quote(policy, value) {
            Some(_) => (at + 2 + name.len()) as usize,
            None => (at + 2 + name.len() + 1) as usize,
        },
        end: (at + written_param(policy, name, value).len()) as usize,
    }
}

/// The bytes of a text of US-ASCII characters are its characters.
pub proof fn lemma_ascii_text(s: &str, expected: Seq<u8>)
    requires
        s@.len() == expected.len(),
        forall|i: int|
            0 <= i < s@.len() ==> (#[trigger] s@[i]) <= '\u{7f}' && s@[i] as u8 == expected[i],
    ensures
        s.spec_bytes() == expected,
{
    assert(is_ascii_chars(s@)) by {
        assert forall|i: int| 0 <= i < s@.len() implies '\0' <= #[trigger] s@[i] <= '\u{7f}' by {
            crate::text::lemma_char_range(s@[i]);
        }
    }
    is_ascii_chars_encode_utf8(s@);
    assert(s.spec_bytes() =~= expected);
}

/// Appends `; ` to `buffer`.
fn push_param_sep(buffer: &mut String)
    ensures
        string_bytes(final(buffer)) == string_bytes(old(buffer)) + param_sep(),
{
    proof {
        reveal_strlit("; ");
        lemma_ascii_text("; ", param_sep());
    }
    append_str(buffer, "; ");
}

/// Appends `=` to `buffer`.
fn push_kv_sep(buffer: &mut String)
    ensures
        string_bytes(final(buffer)) == string_bytes(old(buffer)) + seq![0x3du8],
{
    proof {
        reveal_strlit("=");
        lemma_ascii_text("=", seq![0x3du8]);
    }
    append_str(buffer, "=");
}

/// Appends `/` to `buffer`.
fn push_type_sep(buffer: &mut String)
    ensures
        string_bytes(final(buffer)) == string_bytes(old(buffer)) + seq![0x2fu8],
{
    proof {
        reveal_strlit("/");
        lemma_ascii_text("/", seq![0x2fu8]);
    }
    append_str(buffer, "/");
}

/// Appends `*` to `buffer`.
fn push_enc_name_suffix(buffer: &mut String)
    ensures
        string_bytes(final(buffer)) == string_bytes(old(buffer)) + seq![0x2au8],
{
    proof {
        reveal_strlit("*");
        lemma_ascii_text("*", seq![0x2au8]);
    }
    append_str(buffer, "*");
}

/// Appends `utf-8''` to `buffer`.
fn push_enc_value_prefix(buffer: &mut String)
    ensures
        string_bytes(final(buffer)) == string_bytes(old(buffer)) + encoded_value_prefix(),
{
    proof {
        reveal_strlit("utf-8''");
        lemma_ascii_text("utf-8''", encoded_value_prefix());
    }
    append_str(buffer, "utf-8''");
}

/// The text `type/subtype` in lower case, with the offsets of the `/` and
/// of the end, where both are tokens of the grammar `S`; else the error in
/// the first that is none.
pub fn create_buffer_from<S: Spec>(type_: &str, subtype: &str) -> (r: Result<
    (String, usize, usize),
    ParserError,
>)
    ensures
        match r {
            Ok((buffer, slash_idx, end_of_type)) => {
                &&& spec_validate_token(S::policy(), type_.spec_bytes()) is Ok
                &&& spec_validate_token(S::policy(), subtype.spec_bytes()) is Ok
                &&& string_bytes(&buffer) == head_text(name_text(type_), name_text(subtype))
                &&& slash_idx == name_text(type_).len()
                &&& end_of_type == string_bytes(&buffer).len()
            },
            Err(e) => match spec_validate_token(S::policy(), type_.spec_bytes()) {
                Err(kind) => e.kind == kind && e.input@ == type_@,
                Ok(_) => spec_validate_token(S::policy(), subtype.spec_bytes()) == Err::<
                    (),
                    ParserErrorKind,
                >(e.kind) && e.input@ == subtype@,
            },
        },
{
    let policy = S::exec_policy();
    match validate_token_for(policy, type_) {
        Err(e) => {
            return Err(e.to_owned());
        },
        Ok(_) => {},
    }
    match validate_token_for(policy, subtype) {
        Err(e) => {
            return Err(e.to_owned());
        },
        Ok(_) => {},
    }
    let mut buffer = String::new();
    proof {
        assert(string_bytes(&buffer) == Seq::<u8>::empty());
    }
    let type_text = ascii_lowercase_of(type_);
    let subtype_text = ascii_lowercase_of(subtype);
    append_str(&mut buffer, type_text.as_str());
    let slash_idx = byte_len(&buffer);
    push_type_sep(&mut buffer);
    append_str(&mut buffer, subtype_text.as_str());
    let end_of_type = byte_len(&buffer);
    proof {
        assert(string_bytes(&buffer) == head_text(name_text(type_), name_text(subtype)));
    }
    Ok((buffer, slash_idx, end_of_type))
}

/// Appends `; name=value` to `buffer`.
pub fn _buffer_push_param(buffer: &mut String, name: &str, value: &str) -> (r: ParamIndices)
    ensures
        string_bytes(final(buffer)) == string_bytes(old(buffer)) + param_text(
            name.spec_bytes(),
            value.spec_bytes(),
        ),
        r.start == string_bytes(old(buffer)).len() + 2,
        r.eq_idx == r.start + name.spec_bytes().len(),
        r.end == string_bytes(final(buffer)).len(),
{
    push_param_sep(buffer);
    let start = byte_len(buffer);
    append_str(buffer, name);
    let eq_idx = byte_len(buffer);
    push_kv_sep(buffer);
    append_str(buffer, value);
    let end = byte_len(buffer);
    proof {
        assert(string_bytes(buffer) == string_bytes(old(buffer)) + param_text(
            name.spec_bytes(),
            value.spec_bytes(),
        ));
    }
    ParamIndices { start, eq_idx, end }
}

/// Appends `; name*=utf-8''` and the percent-encoded `value` to `buffer`.
pub fn _buffer_encode_and_push_param<S: Spec>(buffer: &mut String, name: &str, value: &str) -> (r:
    ParamIndices)
    ensures
        string_bytes(final(buffer)) == string_bytes(old(buffer)) + encoded_param_text(
            name.spec_bytes(),
            spec_percent_encode(S::policy(), value.spec_bytes()),
        ),
        r.start == string_bytes(old(buffer)).len() + 2,
        r.eq_idx == r.start + name.spec_bytes().len() + 1,
        r.end == string_bytes(final(buffer)).len(),
{
    let encoded = percent_encode_for(S::exec_policy(), value);
    push_param_sep(buffer);
    let start = byte_len(buffer);
    append_str(buffer, name);
    push_enc_name_suffix(buffer);
    let eq_idx = byte_len(buffer);
    push_kv_sep(buffer);
    push_enc_value_prefix(buffer);
    append_str(buffer, encoded.as_str());
    let end = byte_len(buffer);
    proof {
        assert(string_bytes(buffer) == string_bytes(old(buffer)) + encoded_param_text(
            name.spec_bytes(),
            spec_percent_encode(S::policy(), value.spec_bytes()),
        ));
    }
    ParamIndices { start, eq_idx, end }
}

/// A parameter stands in a text to which it was added as its offsets say.
pub proof fn lemma_written_param(policy: Policy, before: Seq<u8>, name: Seq<u8>, value: Seq<char>)
    requires
        spec_validate_token(policy, name) is Ok,
        (before + written_param(policy, name, value)).len() <= usize::MAX,
    ensures
        param_ok(
            before + written_param(policy, name, value),
            before.len() as int,
            written_indices(policy, before.len() as int, name, value),
        ),
        forall|i: int|
            before.len() <= i < (before + written_param(policy, name, value)).len() ==> (
            #[trigger] (before + written_param(policy, name, value))[i]) <= 0x7f || spec_quote(
                policy,
                value,
            ) is Some,
{
    let text = before + written_param(policy, name, value);
    let p = written_indices(policy, before.len() as int, name, value);
    lemma_token_bounds(policy.token_kind(), name);
    lemma_spec_quote(policy, value);
    lemma_spec_percent_encode(policy, encode_utf8(value));
    match spec_quote(policy, value) {
        Some(written) => {
            let bytes = encode_utf8(written);
            assert(text[p.start - 1] == param_sep()[1]);
            assert(text[p.eq_idx as int] == 0x3d);
            assert(text[p.end - 1] == bytes.last());
        },
        None => {
            let encoded = spec_percent_encode(policy, encode_utf8(value));
            let tail = encoded_value_prefix() + encoded;
            assert(text[p.start - 1] == param_sep()[1]);
            assert(text[p.eq_idx as int] == 0x3d);
            assert(text[p.end - 1] == tail.last());
            if encoded.len() > 0 {
                assert(tail.last() == encoded.last());
            } else {
                assert(tail.last() == encoded_value_prefix()[6]);
            }
            assert forall|i: int| before.len() <= i < text.len() implies #[trigger] text[i]
                <= 0x7f by {
                let k = i - before.len();
                let w = written_param(policy, name, value);
                assert(text[i] == w[k]);
                if k < 2 {
                    assert(w[k] == param_sep()[k]);
                } else if k < 2 + name.len() {
                    assert(w[k] == name[k - 2]);
                } else if k == 2 + name.len() {
                    assert(w[k] == 0x2a);
                } else if k == 3 + name.len() {
                    assert(w[k] == 0x3d);
                } else if k < 4 + name.len() + 7 {
                    assert(w[k] == encoded_value_prefix()[k - 4 - name.len()]);
                } else {
                    assert(w[k] == encoded[k - 11 - name.len()]);
                }
            }
        },
    }
}

/// Appends the parameter `name`, which is a token of the grammar `S`, in
/// lower case and with the value `value` to `buffer`.
fn push_valid_param<S: Spec>(buffer: &mut String, name: &str, value: &str) -> (indices:
    ParamIndices)
    requires
        spec_validate_token(S::policy(), name.spec_bytes()) is Ok,
    ensures
        string_bytes(final(buffer)) == string_bytes(old(buffer)) + written_param(
            S::policy(),
            name_text(name),
            value@,
        ),
        indices == written_indices(
            S::policy(),
            string_bytes(old(buffer)).len() as int,
            name_text(name),
            value@,
        ),
        param_ok(string_bytes(final(buffer)), string_bytes(old(buffer)).len() as int, indices),
{
    let written_name = ascii_lowercase_of(name);
    let indices = match quote_for(S::exec_policy(), value) {
        Some(quoted_if_needed) => _buffer_push_param(
            buffer,
            written_name.as_str(),
            quoted_if_needed.as_str(),
        ),
        None => _buffer_encode_and_push_param::<S>(buffer, written_name.as_str(), value),
    };
    proof {
        lemma_lower_token(S::policy(), name.spec_bytes());
        lemma_written_param(S::policy(), string_bytes(old(buffer)), name_text(name), value@);
    }
    indices
}

/// Appends the parameter `name` with the value `value` to `buffer`, as the
/// grammar `S` writes it: `; `, the name in lower case, `=` and the value as
/// a token, as a quoted string or, with `*` behind the name,
/// percent-encoded.
///
/// Where `name` is no token of the grammar, the buffer stays as it is.
pub fn push_param_to_buffer<S: Spec>(buffer: &mut String, name: &str, value: &str) -> (r: Result<
    ParamIndices,
    ParserError,
>)
    ensures
        match r {
            Ok(indices) => {
                &&& spec_validate_token(S::policy(), name.spec_bytes()) is Ok
                &&& string_bytes(final(buffer)) == string_bytes(old(buffer)) + written_param(
                    S::policy(),
                    name_text(name),
                    value@,
                )
                &&& indices == written_indices(
                    S::policy(),
                    string_bytes(old(buffer)).len() as int,
                    name_text(name),
                    value@,
                )
                &&& param_ok(
                    string_bytes(final(buffer)),
                    string_bytes(old(buffer)).len() as int,
                    indices,
                )
            },
            Err(e) => {
                &&& spec_validate_token(S::policy(), name.spec_bytes()) == Err::<
                    (),
                    ParserErrorKind,
                >(e.kind)
                &&& e.input@ == name@
                &&& final(buffer)@ == old(buffer)@
            },
        },
{
    match validate_token_for(S::exec_policy(), name) {
        Err(e) => {
            return Err(e.to_owned());
        },
        Ok(_) => {},
    }
    Ok(push_valid_param::<S>(buffer, name, value))
}

/// The text of the first `upto` of the parameters.
pub open spec fn written_params(policy: Policy, params: Seq<(&str, &str)>, upto: int) -> Seq<u8>
    decreases upto,
{
    if upto <= 0 {
        seq![]
    } else {
        written_params(policy, params, upto - 1) + written_param(
            policy,
            name_text(params[upto - 1].0),
            params[upto - 1].1@,
        )
    }
}

/// Where the first `upto` of the parameters stand in a text to which they
/// were added at the offset `at`.
pub open spec fn written_params_indices(
    policy: Policy,
    at: int,
    params: Seq<(&str, &str)>,
    upto: int,
) -> Seq<ParamIndices>
    decreases upto,
{
    if upto <= 0 {
        seq![]
    } else {
        written_params_indices(policy, at, params, upto - 1).push(
            written_indices(
                policy,
                at + written_params(policy, params, upto - 1).len(),
                name_text(params[upto - 1].0),
                params[upto - 1].1@,
            ),
        )
    }
}

/// The number of the first parameter from `from` on whose name is no token
/// of the grammar.
pub open spec fn first_bad_name(policy: Policy, params: Seq<(&str, &str)>, from: int) -> Option<int>
    decreases params.len() - from,
{
    if from < 0 || from >= params.len() {
        None
    } else if spec_validate_token(policy, params[from].0.spec_bytes()) is Err {
        Some(from)
    } else {
        first_bad_name(policy, params, from + 1)
    }
}

/// Checks that the name of every parameter is a token of the grammar `S`.
fn validate_names<S: Spec>(params: &Vec<(&str, &str)>) -> (r: Result<(), ParserError>)
    ensures
        match r {
            Ok(()) => first_bad_name(S::policy(), params@, 0) is None,
            Err(e) => {
                &&& first_bad_name(S::policy(), params@, 0) matches Some(k)
                &&& spec_validate_token(S::policy(), params@[k].0.spec_bytes()) == Err::<
                    (),
                    ParserErrorKind,
                >(e.kind)
                &&& e.input@ == params@[k].0@
            },
        },
{
    let mut i: usize = 0;
    while i < params.len()
        invariant
            i <= params.len(),
            first_bad_name(S::policy(), params@, 0) == first_bad_name(
                S::policy(),
                params@,
                i as int,
            ),
        decreases params.len() - i,
    {
        let (name, _) = params[i];
        match validate_token_for(S::exec_policy(), name) {
            Err(e) => {
                proof {
                    assert(first_bad_name(S::policy(), params@, i as int) == Some(i as int));
                }
                return Err(e.to_owned());
            },
            Ok(_) => {},
        }
        i += 1;
    }
    Ok(())
}

/// Appends the parameters to `buffer`, each as [`push_param_to_buffer`]
/// writes it.
///
/// Where the name of a parameter is no token of the grammar `S`, the buffer
/// stays as it is, and the error is that of the first such name.
pub fn push_params_to_buffer<S: Spec>(buffer: &mut String, params: Vec<(&str, &str)>) -> (r: Result<
    Vec<ParamIndices>,
    ParserError,
>)
    ensures
        match r {
            Ok(indices) => {
                &&& first_bad_name(S::policy(), params@, 0) is None
                &&& string_bytes(final(buffer)) == string_bytes(old(buffer)) + written_params(
                    S::policy(),
                    params@,
                    params@.len() as int,
                )
                &&& indices@ == written_params_indices(
                    S::policy(),
                    string_bytes(old(buffer)).len() as int,
                    params@,
                    params@.len() as int,
                )
            },
            Err(e) => {
                &&& first_bad_name(S::policy(), params@, 0) matches Some(k)
                &&& spec_validate_token(S::policy(), params@[k].0.spec_bytes()) == Err::<
                    (),
                    ParserErrorKind,
                >(e.kind)
                &&& e.input@ == params@[k].0@
                &&& final(buffer)@ == old(buffer)@
            },
        },
{
    validate_names::<S>(&params)?;
    let ghost start = string_bytes(buffer);
    let mut param_indices: Vec<ParamIndices> = Vec::new();
    let mut i: usize = 0;
    while i < params.len()
        invariant
            i <= params.len(),
            start == string_bytes(old(buffer)),
            first_bad_name(S::policy(), params@, 0) is None,
            string_bytes(buffer) == start + written_params(S::policy(), params@, i as int),
            param_indices@ == written_params_indices(
                S::policy(),
                start.len() as int,
                params@,
                i as int,
            ),
        decreases params.len() - i,
    {
        let (name, value) = params[i];
        proof {
            lemma_no_bad_name(S::policy(), params@, 0, i as int);
        }
        let indices = push_valid_param::<S>(buffer, name, value);
        param_indices.push(indices);
        proof {
            assert(string_bytes(buffer) == start + written_params(S::policy(), params@, i + 1));
        }
        i += 1;
    }
    Ok(param_indices)
}

/// Where no name is bad, every name is a token, in lower case too.
pub proof fn lemma_no_bad_name(policy: Policy, params: Seq<(&str, &str)>, from: int, k: int)
    requires
        0 <= from <= k < params.len(),
        first_bad_name(policy, params, from) is None,
    ensures
        spec_validate_token(policy, params[k].0.spec_bytes()) is Ok,
        spec_validate_token(policy, name_text(params[k].0)) is Ok,
    decreases k - from,
{
    if from < k {
        lemma_no_bad_name(policy, params, from + 1, k);
    }
    lemma_lower_token(policy, params[k].0.spec_bytes());
}

/// Parameters that were added to a text stand in it as their offsets say,
/// one behind the other, up to its end.
pub proof fn lemma_written_params(
    policy: Policy,
    head: Seq<u8>,
    params: Seq<(&str, &str)>,
    upto: int,
)
    requires
        0 <= upto <= params.len(),
        first_bad_name(policy, params, 0) is None,
        (head + written_params(policy, params, upto)).len() <= usize::MAX,
    ensures
        written_params_indices(policy, head.len() as int, params, upto).len() == upto,
        params_ok(
            head + written_params(policy, params, upto),
            head.len() as int,
            written_params_indices(policy, head.len() as int, params, upto),
        ),
        end_before(
            head.len() as int,
            written_params_indices(policy, head.len() as int, params, upto),
            upto,
        ) == (head + written_params(policy, params, upto)).len(),
    decreases upto,
{
    let at = head.len() as int;
    let text = head + written_params(policy, params, upto);
    let indices = written_params_indices(policy, at, params, upto);
    if upto > 0 {
        let before = head + written_params(policy, params, upto - 1);
        let earlier = written_params_indices(policy, at, params, upto - 1);
        let name = name_text(params[upto - 1].0);
        let value = params[upto - 1].1@;
        assert(text == before + written_param(policy, name, value));
        lemma_written_params(policy, head, params, upto - 1);
        lemma_no_bad_name(policy, params, 0, upto - 1);
        lemma_written_param(policy, before, name, value);
        assert(before.len() == at + written_params(policy, params, upto - 1).len());
        assert forall|i: int| 0 <= i < indices.len() implies #[trigger] param_fits(
            text,
            at,
            indices,
            i,
        ) by {
            if i < upto - 1 {
                assert(param_fits(before, at, earlier, i));
                assert(indices[i] == earlier[i]);
                assert(end_before(at, indices, i) == end_before(at, earlier, i));
                let p = indices[i];
                assert(text[p.start - 1] == before[p.start - 1]);
                assert(text[p.eq_idx as int] == before[p.eq_idx as int]);
                assert(text[p.end - 1] == before[p.end - 1]);
            }
        }
    }
}

} // verus!
