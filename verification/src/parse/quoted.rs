//! Quoted strings: scanned by the `quoted_string` crate, under the rules that
//! this crate has for each grammar.
use vstd::prelude::*;
use vstd::string::StringSliceAdditionalSpecFns;
use vstd::utf8::decode_utf8;
use crate::value::quoted_content;
use quoted_string::spec::GeneralQSSpec;
use crate::error::{
    core_error_from_id, spec_core_error_from_id, ParserErrorKind, ParserErrorRef,
};
use crate::quoting::{
    AnyParsingImpl, AnyQuoting, HttpObsParsingImpl, HttpObsQuoting, MimeObsParsing,
    MimeObsParsingUtf8, MimeObsQuoting, MimeObsUtf8Quoting, MimeParsing, MimeParsingUtf8,
    NormalParsingImpl, NormalQuoting, StrictParsingImpl,
};
use crate::parse::{outcome_is, Outcome};
use crate::spec::{
    AnySpec, Ascii, HttpSpec, Internationalized, MimeSpec, Modern, Obs, Policy, Grammar, StrictSpec,
};

verus! {

/// The rules of the catch-all grammar for quoted strings.
impl GeneralQSSpec for AnySpec {
    type Quoting = AnyQuoting;

    type Parsing = AnyParsingImpl;
}

/// The rules of the strict grammar for quoted strings.
impl GeneralQSSpec for StrictSpec {
    type Quoting = NormalQuoting;

    type Parsing = StrictParsingImpl;
}

/// The rules of modern HTTP for quoted strings.
impl GeneralQSSpec for HttpSpec<Modern> {
    type Quoting = NormalQuoting;

    type Parsing = NormalParsingImpl;
}

/// The rules of obsolete HTTP for quoted strings.
impl GeneralQSSpec for HttpSpec<Obs> {
    type Quoting = HttpObsQuoting;

    type Parsing = HttpObsParsingImpl;
}

/// The rules of modern US-ASCII MIME for quoted strings.
impl GeneralQSSpec for MimeSpec<Ascii, Modern> {
    type Quoting = NormalQuoting;

    type Parsing = MimeParsing;
}

/// The rules of obsolete US-ASCII MIME for quoted strings.
impl GeneralQSSpec for MimeSpec<Ascii, Obs> {
    type Quoting = MimeObsQuoting;

    type Parsing = MimeObsParsing;
}

/// The rules of modern internationalized MIME for quoted strings.
impl GeneralQSSpec for MimeSpec<Internationalized, Modern> {
    type Quoting = HttpObsQuoting;

    type Parsing = MimeParsingUtf8;
}

/// The rules of obsolete internationalized MIME for quoted strings.
impl GeneralQSSpec for MimeSpec<Internationalized, Obs> {
    type Quoting = MimeObsUtf8Quoting;

    type Parsing = MimeObsParsingUtf8;
}

/// What `quoted_string::parse` finds at the start of `input` when it scans
/// under the rules of the grammar numbered `policy`: the length of the quoted
/// string there, or the offset at which the scan failed and the number that
/// `CoreError::id` gives the cause.
pub uninterp spec fn quoted_string_scan(policy: u8, input: Seq<u8>) -> Result<usize, (usize, u8)>;

/// `quoted_string::parse` for the grammar `S`, with `CoreError::id` on the
/// cause of a failure. The scan starts on a `"`, takes a backslash together
/// with the byte behind it, and succeeds only on the first `"` that no
/// backslash stands before: a quoted string that it finds ends in one and
/// has a content. The causes are numbered from 0 to 6.
#[verifier::external_body]
pub(crate) fn scan_quoted_string<S: Grammar + GeneralQSSpec>(input: &str) -> (r: Result<
    usize,
    (usize, u8),
>)
    ensures
        r == quoted_string_scan(S::policy().id(), input.spec_bytes()),
        r matches Ok(len) ==> 0 < len <= input.spec_bytes().len() && input.spec_bytes()[len - 1]
            == 0x22,
        r matches Ok(len) ==> quoted_content(
            decode_utf8(input.spec_bytes().subrange(0, len as int)),
        ) is Some,
        r matches Err((pos, id)) ==> id <= 6,
{
    match quoted_string::parse::<S>(input) {
        Ok(parsed) => Ok(parsed.quoted_string.len()),
        Err((pos, cause)) => Err((pos, cause.id())),
    }
}

/// What `scanned`, the result of a scan for a quoted string, means for the
/// parser: the length of the quoted string, or the error of a quoted
/// parameter value with the offset and the cause of the failure.
pub open spec fn spec_quoted_value(scanned: Result<usize, (usize, u8)>) -> Outcome {
    match scanned {
        Ok(len) => Ok(len as int),
        Err((pos, id)) => Err(
            ParserErrorKind::QuotedParamValue { pos, cause: spec_core_error_from_id(id) },
        ),
    }
}

/// Turns what the scan of a quoted string found at the start of `input` into
/// the offset behind the quoted string, or into the error of a quoted
/// parameter value.
pub fn quoted_value_end<'a>(input: &'a str, scanned: Result<usize, (usize, u8)>) -> (r: Result<
    usize,
    ParserErrorRef<'a>,
>)
    ensures
        outcome_is(r, input, spec_quoted_value(scanned)),
{
    match scanned {
        Ok(len) => Ok(len),
        Err((pos, id)) => Err(
            ParserErrorKind::QuotedParamValue { pos, cause: core_error_from_id(id) }.with_input(
                input,
            ),
        ),
    }
}

/// Scans the quoted string at the start of `input` under the grammar
/// `policy`.
pub fn scan_quoted_for(policy: Policy, input: &str) -> (r: Result<usize, (usize, u8)>)
    ensures
        r == quoted_string_scan(policy.id(), input.spec_bytes()),
        r matches Ok(len) ==> 0 < len <= input.spec_bytes().len() && input.spec_bytes()[len - 1]
            == 0x22,
        r matches Ok(len) ==> quoted_content(
            decode_utf8(input.spec_bytes().subrange(0, len as int)),
        ) is Some,
        r matches Err((pos, id)) ==> id <= 6,
{
    match policy {
        Policy::Strict => scan_quoted_string::<StrictSpec>(input),
        Policy::HttpModern => scan_quoted_string::<HttpSpec<Modern>>(input),
        Policy::HttpObs => scan_quoted_string::<HttpSpec<Obs>>(input),
        Policy::MimeAsciiModern => scan_quoted_string::<MimeSpec<Ascii, Modern>>(input),
        Policy::MimeAsciiObs => scan_quoted_string::<MimeSpec<Ascii, Obs>>(input),
        Policy::MimeInternationalizedModern => scan_quoted_string::<
            MimeSpec<Internationalized, Modern>,
        >(input),
        Policy::MimeInternationalizedObs => scan_quoted_string::<MimeSpec<Internationalized, Obs>>(
            input,
        ),
        Policy::Any => scan_quoted_string::<AnySpec>(input),
    }
}

/// The quoted string at the start of `input` under the grammar `policy`: the
/// offset behind it.
pub fn parse_quoted_string_for<'a>(policy: Policy, input: &'a str) -> (r: Result<
    usize,
    ParserErrorRef<'a>,
>)
    ensures
        outcome_is(
            r,
            input,
            spec_quoted_value(quoted_string_scan(policy.id(), input.spec_bytes())),
        ),
        r matches Ok(len) ==> 0 < len <= input.spec_bytes().len() && input.spec_bytes()[len - 1]
            == 0x22,
        r matches Ok(len) ==> quoted_content(
            decode_utf8(input.spec_bytes().subrange(0, len as int)),
        ) is Some,
{
    quoted_value_end(input, scan_quoted_for(policy, input))
}

} // verus!
