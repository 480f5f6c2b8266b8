//! A media type together with the grammar that it was held to.
use vstd::prelude::*;
use vstd::string::StringSliceAdditionalSpecFns;
use std::marker::PhantomData;
use std::ops::Deref;
use crate::conversions::converts_to;
use crate::error::{ParserError, ParserErrorKind, ParserErrorRef};
use crate::gen::{name_text, 
    create_buffer_from, first_bad_name, head_text, lemma_written_params, push_params_to_buffer,
    written_params, written_params_indices,
};
use crate::parse::impl_spec::{lemma_lower_token, lemma_token_bounds, spec_validate_token};
use crate::parse::{head_ok, value_text};
use crate::round_trip::content::lemma_written_value_content;
use crate::round_trip::written::lemma_generated_param;
use crate::value::value_content;
use crate::text::{byte_len, string_bytes};
use crate::media_type::{canonical, AnyMediaType, MediaTypeView};
use crate::parse::{error_is, parse, spec_parse, validate};
use crate::spec::{Policy, Spec};

verus! {

/// An error of generating a media type: the text that is no token, and why.
pub struct GenError {
    pub input: Seq<char>,
    pub kind: ParserErrorKind,
}

/// The media type `type_/subtype` of the grammar `policy`, in lower case, or
/// the error in the first of the two that is no token.
pub open spec fn generated_head(policy: Policy, type_: &str, subtype: &str) -> Result<
    MediaTypeView,
    GenError,
> {
    match spec_validate_token(policy, type_.spec_bytes()) {
        Err(kind) => Err(GenError { input: type_@, kind }),
        Ok(_) => match spec_validate_token(policy, subtype.spec_bytes()) {
            Err(kind) => Err(GenError { input: subtype@, kind }),
            Ok(_) => Ok(
                MediaTypeView {
                    bytes: head_text(name_text(type_), name_text(subtype)),
                    slash_idx: name_text(type_).len() as int,
                    end_of_type: (name_text(type_).len() + 1 + name_text(subtype).len()) as int,
                    params: seq![],
                },
            ),
        },
    }
}

/// The media type `type_/subtype` with the given parameters, as the grammar
/// `policy` writes it, with type, subtype and the names of the parameters in
/// lower case; or the error in the first of type, subtype and the names of
/// the parameters that is no token.
pub open spec fn generated(
    policy: Policy,
    type_: &str,
    subtype: &str,
    params: Seq<(&str, &str)>,
) -> Result<MediaTypeView, GenError> {
    match generated_head(policy, type_, subtype) {
        Err(e) => Err(e),
        Ok(head) => match first_bad_name(policy, params, 0) {
            Some(k) => Err(
                GenError {
                    input: params[k].0@,
                    kind: spec_validate_token(policy, params[k].0.spec_bytes())->Err_0,
                },
            ),
            None => Ok(
                MediaTypeView {
                    bytes: head.bytes + written_params(policy, params, params.len() as int),
                    slash_idx: head.slash_idx,
                    end_of_type: head.end_of_type,
                    params: written_params_indices(
                        policy,
                        head.end_of_type,
                        params,
                        params.len() as int,
                    ),
                },
            ),
        },
    }
}

/// Whether the result `r` of generating a media type is `expected`.
pub open spec fn generated_is<S: Spec>(
    r: Result<MediaType<S>, ParserError>,
    expected: Result<MediaTypeView, GenError>,
) -> bool {
    match r {
        Ok(media_type) => expected == Ok::<MediaTypeView, GenError>(media_type@)
            && media_type@.wf() && media_type@.has_contents(),
        Err(e) => expected == Err::<MediaTypeView, GenError>(
            GenError { input: e.input@, kind: e.kind },
        ),
    }
}

/// A type and a subtype that are tokens stand in `type/subtype` as the
/// offsets say.
pub proof fn lemma_generated_head(policy: Policy, type_: Seq<u8>, subtype: Seq<u8>)
    requires
        spec_validate_token(policy, type_) is Ok,
        spec_validate_token(policy, subtype) is Ok,
    ensures
        head_ok(
            head_text(type_, subtype),
            type_.len() as int,
            (type_.len() + 1 + subtype.len()) as int,
        ),
{
    lemma_token_bounds(policy.token_kind(), type_);
    lemma_token_bounds(policy.token_kind(), subtype);
    let text = head_text(type_, subtype);
    assert(text[type_.len() as int] == 0x2f);
    assert(text[text.len() - 1] == subtype[subtype.len() - 1]);
}

/// A media type that is known to be one under the grammar `S`.
#[derive(Debug)]
pub struct MediaType<S: Spec> {
    inner: AnyMediaType,
    _spec: PhantomData<S>,
}

impl<S: Spec> View for MediaType<S> {
    type V = MediaTypeView;

    closed spec fn view(&self) -> MediaTypeView {
        self.inner@
    }
}

impl<S: Spec> Clone for MediaType<S> {
    fn clone(&self) -> (r: Self)
        ensures
            r@ == self@,
    {
        MediaType { inner: self.inner.clone(), _spec: PhantomData }
    }
}

impl<S: Spec> Deref for MediaType<S> {
    type Target = AnyMediaType;

    fn deref(&self) -> (r: &AnyMediaType)
        ensures
            r@ == self@,
    {
        &self.inner
    }
}

impl<S: Spec> MediaType<S> {
    /// Parses `input` under the grammar `S` and keeps what was found: the
    /// text up to the end of the last part, with type, subtype and the
    /// names of the parameters in lower case.
    pub fn parse(input: &str) -> (r: Result<Self, ParserErrorRef<'_>>)
        ensures
            match r {
                Ok(media_type) => spec_parse(S::policy(), input.spec_bytes()) matches Ok(parts)
                    && media_type@ == canonical(input.spec_bytes(), parts) && media_type@.wf()
                    && media_type@.has_contents(),
                Err(e) => spec_parse(S::policy(), input.spec_bytes()) matches Err((start, kind))
                    && error_is(e, input, start, kind),
            },
    {
        let parse_result = parse::<S>(input)?;
        let media_type = AnyMediaType::from_parse_result(parse_result);
        Ok(MediaType { inner: media_type, _spec: PhantomData })
    }

    /// Whether `input` is a media type under the grammar `S`: whether
    /// [`MediaType::parse`] succeeds on it.
    pub fn validate(input: &str) -> (r: bool)
        ensures
            r == spec_parse(S::policy(), input.spec_bytes()) is Ok,
    {
        validate::<S>(input)
    }

    /// The media type `type_/subtype` without parameters and in lower case,
    /// where both are tokens of the grammar `S`.
    pub fn new(type_: &str, subtype: &str) -> (r: Result<Self, ParserError>)
        ensures
            generated_is(r, generated_head(S::policy(), type_, subtype)),
    {
        let (buffer, slash_idx, end_of_type) = create_buffer_from::<S>(type_, subtype)?;
        proof {
            lemma_lower_token(S::policy(), type_.spec_bytes());
            lemma_lower_token(S::policy(), subtype.spec_bytes());
            lemma_generated_head(S::policy(), name_text(type_), name_text(subtype));
            vstd::utf8::encode_utf8_valid_utf8(buffer@);
        }
        let inner = AnyMediaType::from_parts(buffer, slash_idx, end_of_type, Vec::new());
        Ok(MediaType { inner, _spec: PhantomData })
    }

    /// The media type `type_/subtype` with the given parameters, where
    /// type, subtype and the names of the parameters are tokens of the
    /// grammar `S`. They are kept in lower case. Each value is written as a
    /// token where it is one, else as a quoted string where it can be, else
    /// percent-encoded.
    pub fn new_with_params(type_: &str, subtype: &str, params: Vec<(&str, &str)>) -> (r: Result<
        Self,
        ParserError,
    >)
        ensures
            generated_is(r, generated(S::policy(), type_, subtype, params@)),
    {
        let (mut buffer, slash_idx, end_of_type) = create_buffer_from::<S>(type_, subtype)?;
        let ghost head = string_bytes(&buffer);
        let param_indices = push_params_to_buffer::<S>(&mut buffer, params)?;
        // Learns that the length of the text fits a `usize`.
        let _total = byte_len(&buffer);
        proof {
            lemma_lower_token(S::policy(), type_.spec_bytes());
            lemma_lower_token(S::policy(), subtype.spec_bytes());
            lemma_generated_head(S::policy(), name_text(type_), name_text(subtype));
            lemma_written_params(S::policy(), head, params@, params@.len() as int);
            vstd::utf8::encode_utf8_valid_utf8(buffer@);
            let text = string_bytes(&buffer);
            assert(text[slash_idx as int] == head[slash_idx as int]);
            assert(text[end_of_type - 1] == head[end_of_type - 1]);
            let view = generated(S::policy(), type_, subtype, params@)->Ok_0;
            assert forall|i: int| 0 <= i < param_indices@.len() implies value_content(
                value_text(text, #[trigger] param_indices@[i]),
            ) is Some by {
                lemma_generated_param(S::policy(), type_, subtype, params@, view, i);
                lemma_written_value_content(S::policy(), params@[i].1@);
                assert(value_text(text, param_indices@[i]) == view.param_value(i));
            }
        }
        let inner = AnyMediaType::from_parts(buffer, slash_idx, end_of_type, param_indices);
        Ok(MediaType { inner, _spec: PhantomData })
    }

    /// The media type without its grammar.
    pub closed spec fn spec_into_any(self) -> AnyMediaType {
        self.inner
    }

    /// The same media type as one of the grammar `S2`.
    pub closed spec fn spec_convert<S2: Spec>(self) -> MediaType<S2> {
        MediaType { inner: self.inner, _spec: PhantomData }
    }

    /// Takes the media type as one of the grammar `S2`, which accepts
    /// whatever `S` accepts.
    pub(crate) fn convert<S2: Spec>(self) -> (r: MediaType<S2>)
        requires
            converts_to(S::policy(), S2::policy()),
        ensures
            r == self.spec_convert::<S2>(),
            r@ == self@,
    {
        MediaType { inner: self.inner, _spec: PhantomData }
    }

    /// The media type without its grammar.
    pub fn as_any(&self) -> (r: &AnyMediaType)
        ensures
            r@ == self@,
    {
        &self.inner
    }

    /// The media type without its grammar.
    pub fn into_any(self) -> (r: AnyMediaType)
        ensures
            r == self.spec_into_any(),
            r@ == self@,
    {
        self.inner
    }
}

} // verus!
