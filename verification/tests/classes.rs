use media_type_impl_utils::percent_encoding::{HttpPercentEncodeSet, MimePercentEncodeSet};
use percent_encoding::EncodeSet;
use media_type::parse::cfws::{inner_parse_comment, is_ws};
use media_type::quoting::{
    mime_normal_state, AnyParsingImpl, AnyQuoting, FWSState, HttpObsParsingImpl, HttpObsQuoting,
    HttpTokenValidator, MimeObsParsing, MimeObsParsingUtf8, MimeObsQuoting, MimeObsUtf8Quoting,
    MimeParsing, MimeParsingUtf8, MimeTokenValidator, NormalParsingImpl, NormalQuoting,
    RestrictedTokenValidator, StrictParsingImpl, TokenValidator,
};
use quoted_string::error::CoreError;
use quoted_string::spec::{QuotingClass, State};

const TSPECIALS: &[u8] = b"()<>@,;:\\\"/[]?=";

fn token(b: u8) -> bool {
    b > 0x20 && b < 0x7f && !TSPECIALS.contains(&b)
}

fn http_token(b: u8) -> bool {
    token(b) && b != b'{' && b != b'}'
}

fn restricted(b: u8) -> bool {
    b.is_ascii_alphanumeric() || b"!#$&+-.^_".contains(&b)
}

fn qtext_ws(b: u8) -> bool {
    b == b'\t' || (b >= 0x20 && b < 0x7f && b != b'"' && b != b'\\')
}

fn vchar_ws(b: u8) -> bool {
    b == b'\t' || (b >= 0x20 && b < 0x7f)
}

fn obs_ctl(b: u8) -> bool {
    (b >= 1 && b < 0x20 && b != b'\t' && b != b'\n' && b != b'\r') || b == 0x7f
}

#[test]
fn ws_is_space_and_tab_only() {
    for b in 0..=255u8 {
        assert_eq!(is_ws(b), b == b' ' || b == b'\t', "byte {}", b);
    }
}

#[test]
fn http_validator_takes_http_token_bytes() {
    for b in 0..=255u8 {
        let mut v = HttpTokenValidator::new();
        assert_eq!(v.feed(b), http_token(b), "byte {}", b);
        assert!(v.finish());
    }
}

#[test]
fn mime_validator_takes_token_bytes() {
    for b in 0..=255u8 {
        let mut v = MimeTokenValidator::new();
        assert_eq!(v.feed(b), token(b), "byte {}", b);
        assert!(v.finish());
    }
    let mut v = MimeTokenValidator::new();
    assert!(v.feed(b'{'));
    assert!(v.feed(b'}'));
}

#[test]
fn restricted_validator_first_and_later_bytes() {
    for b in 0..=255u8 {
        let mut first = RestrictedTokenValidator::new();
        assert_eq!(first.feed(b), b.is_ascii_alphanumeric(), "first byte {}", b);
        let mut later = RestrictedTokenValidator::new();
        assert!(later.feed(b'a'));
        assert_eq!(later.feed(b), restricted(b), "later byte {}", b);
    }
}

#[test]
fn restricted_validator_counts_what_it_takes() {
    let mut v = RestrictedTokenValidator::new();
    assert!(!v.finish());
    assert!(!v.feed(b'~'));
    assert_eq!(v.count, 0);
    for _ in 0..127 {
        assert!(v.feed(b'a'));
    }
    assert_eq!(v.count, 127);
    assert!(v.finish());
    assert!(v.feed(b'a'));
    assert!(!v.finish());
}

#[test]
fn quoting_classes() {
    for b in 0..=255u8 {
        let any = if b == b'"' || b == b'\\' {
            QuotingClass::NeedsQuoting
        } else {
            QuotingClass::QText
        };
        assert_eq!(AnyQuoting::classify(b), any, "byte {}", b);

        let normal = if qtext_ws(b) {
            QuotingClass::QText
        } else if b == b'"' || b == b'\\' {
            QuotingClass::NeedsQuoting
        } else {
            QuotingClass::Invalid
        };
        assert_eq!(NormalQuoting::classify(b), normal, "byte {}", b);

        let utf8 = if b > 0x7f { QuotingClass::QText } else { normal.clone() };
        assert_eq!(HttpObsQuoting::classify(b), utf8, "byte {}", b);

        let mime_obs = if qtext_ws(b) {
            QuotingClass::QText
        } else if b <= 0x7f {
            QuotingClass::NeedsQuoting
        } else {
            QuotingClass::Invalid
        };
        assert_eq!(MimeObsQuoting::classify(b), mime_obs, "byte {}", b);

        let mime_obs_utf8 = if b > 0x7f || qtext_ws(b) {
            QuotingClass::QText
        } else {
            QuotingClass::NeedsQuoting
        };
        assert_eq!(MimeObsUtf8Quoting::classify(b), mime_obs_utf8, "byte {}", b);
    }
}

#[test]
fn what_may_follow_a_backslash() {
    for b in 0..=255u8 {
        assert!(AnyParsingImpl::quotable(b));
        assert_eq!(NormalParsingImpl::quotable(b), vchar_ws(b), "byte {}", b);
        assert_eq!(StrictParsingImpl::quotable(b), b == b'"' || b == b'\\', "byte {}", b);
        assert_eq!(HttpObsParsingImpl::quotable(b), b > 0x7f || qtext_ws(b), "byte {}", b);
        assert_eq!(MimeObsParsing::quotable(b), b <= 0x7f, "byte {}", b);
        assert_eq!(MimeObsParsingUtf8::quotable(b), b <= 0x7f, "byte {}", b);
        assert_eq!(MimeParsing::quotable(b), vchar_ws(b), "byte {}", b);
        assert_eq!(MimeParsingUtf8::quotable(b), vchar_ws(b), "byte {}", b);
    }
}

#[test]
fn text_of_a_quoted_string() {
    for b in 0..=255u8 {
        assert_eq!(AnyParsingImpl::normal_state(b), Ok((State::Normal, true)));
        let plain =
            if qtext_ws(b) { Ok((State::Normal, true)) } else { Err(CoreError::InvalidChar) };
        assert_eq!(NormalParsingImpl::normal_state(b), plain, "byte {}", b);
        let strict =
            if qtext_ws(b) { Ok((State::Normal, true)) } else { Err(CoreError::InvalidChar) };
        assert_eq!(StrictParsingImpl::normal_state(b), strict, "byte {}", b);
        let obs = if b > 0x7f || qtext_ws(b) {
            Ok((State::Normal, true))
        } else {
            Err(CoreError::InvalidChar)
        };
        assert_eq!(HttpObsParsingImpl::normal_state(b), obs, "byte {}", b);
    }
}

#[test]
fn text_of_a_quoted_string_in_mime() {
    for b in 0..=255u8 {
        let modern = if qtext_ws(b) {
            Ok((State::Normal, true))
        } else if b == b'\r' {
            Ok((State::Custom(MimeParsing(FWSState::HitCr)), false))
        } else {
            Err(CoreError::InvalidChar)
        };
        assert_eq!(mime_normal_state::<MimeParsing>(b), modern, "byte {}", b);

        let obs_utf8 = if b > 0x7f || qtext_ws(b) || obs_ctl(b) {
            Ok((State::Normal, true))
        } else if b == b'\r' {
            Ok((State::Custom(MimeObsParsingUtf8(FWSState::HitCr)), false))
        } else {
            Err(CoreError::InvalidChar)
        };
        assert_eq!(mime_normal_state::<MimeObsParsingUtf8>(b), obs_utf8, "byte {}", b);
    }
}

#[test]
fn steps_inside_a_line_fold() {
    assert_eq!(
        FWSState::HitCr.advance::<MimeParsing>(b'\n'),
        Ok((State::Custom(MimeParsing(FWSState::HitNl)), false))
    );
    assert_eq!(FWSState::HitCr.advance::<MimeParsing>(b' '), Err(CoreError::InvalidChar));
    assert_eq!(
        FWSState::HitNl.advance::<MimeParsing>(b' '),
        Ok((State::Custom(MimeParsing(FWSState::HadFws)), true))
    );
    assert_eq!(FWSState::HitNl.advance::<MimeObsParsing>(b'\t'), Ok((State::Normal, true)));
    assert_eq!(FWSState::HitNl.advance::<MimeObsParsing>(b'a'), Err(CoreError::InvalidChar));
    assert_eq!(FWSState::HadFws.advance::<MimeParsing>(b'a'), Ok((State::Normal, true)));
    assert_eq!(
        FWSState::HadFws.advance::<MimeParsing>(b' '),
        Ok((State::Custom(MimeParsing(FWSState::HadFws)), true))
    );
    assert_eq!(FWSState::HadFws.advance::<MimeParsing>(b'"'), Ok((State::End, false)));
    assert_eq!(FWSState::HadFws.advance::<MimeParsing>(b'\\'), Ok((State::QPStart, false)));
    assert_eq!(FWSState::HadFws.advance::<MimeParsing>(b'\r'), Err(CoreError::InvalidChar));
    assert_eq!(FWSState::HadFws.advance::<MimeParsing>(0xc3), Err(CoreError::InvalidChar));
    assert_eq!(FWSState::HadFws.advance::<MimeParsingUtf8>(0xc3), Ok((State::Normal, true)));
}

#[test]
fn encode_sets_hold_what_is_no_token_byte() {
    for b in 0..=255u8 {
        assert_eq!(HttpPercentEncodeSet.contains(b), !http_token(b), "byte {}", b);
        assert_eq!(MimePercentEncodeSet.contains(b), !token(b), "byte {}", b);
    }
}

#[test]
fn text_of_a_comment() {
    for b in 0..=0x7fu8 {
        let text = format!("({})", b as char);
        let res = inner_parse_comment::<MimeParsing>(&text, 1);
        let ctext = b > 0x20 && b < 0x7f && b != b'(' && b != b')' && b != b'\\';
        if ctext || b == b' ' || b == b'\t' {
            assert_eq!(res, Ok(3), "byte {}", b);
        } else if b == b')' {
            assert_eq!(res, Ok(2), "byte {}", b);
        } else {
            assert!(res.is_err(), "byte {}", b);
        }
    }
}

#[test]
fn bytes_behind_a_line_fold() {
    for b in 0..=255u8 {
        let modern = FWSState::HadFws.advance::<MimeParsing>(b);
        let qtext = b > 0x20 && b < 0x7f && b != b'"' && b != b'\\';
        let expected = if qtext || obs_ctl(b) {
            Ok((State::Normal, true))
        } else if b == b' ' || b == b'\t' {
            Ok((State::Custom(MimeParsing(FWSState::HadFws)), true))
        } else if b == b'"' {
            Ok((State::End, false))
        } else if b == b'\\' {
            Ok((State::QPStart, false))
        } else {
            Err(CoreError::InvalidChar)
        };
        assert_eq!(modern, expected, "byte {}", b);

        let obs = FWSState::HadFws.advance::<MimeObsParsingUtf8>(b);
        let expected = if qtext || b > 0x7f {
            Ok((State::Normal, true))
        } else if b == b' ' || b == b'\t' {
            Ok((State::Custom(MimeObsParsingUtf8(FWSState::HadFws)), true))
        } else if b == b'"' {
            Ok((State::End, false))
        } else if b == b'\\' {
            Ok((State::QPStart, false))
        } else {
            Err(CoreError::InvalidChar)
        };
        assert_eq!(obs, expected, "byte {}", b);
    }
}
