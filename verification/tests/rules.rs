use media_type::encode::percent_encode_for;
use media_type::spec::Policy;
use media_type::quoting::{
    mime_normal_state, AnyParsingImpl, AnyQuoting, FWSState, HttpObsParsingImpl, HttpObsQuoting,
    HttpTokenValidator, MimeObsParsing, MimeObsParsingUtf8, MimeObsQuoting, MimeObsUtf8Quoting,
    MimeParsing, MimeParsingUtf8, MimeTokenValidator, NormalParsingImpl, NormalQuoting,
    RestrictedTokenValidator, StrictParsingImpl, TokenValidator,
};
use media_type::{AsciiCaseInsensitiveEq, Value};
use quoted_string::spec::{
    ParsingImpl, PartialCodePoint, QuotingClassifier, WithoutQuotingValidator,
};

/// Every byte that a scan can be handed, with the value that holds it.
fn held() -> Vec<(u8, PartialCodePoint)> {
    let mut all = Vec::new();
    for b in 0u8..0xff {
        all.push((b, PartialCodePoint::from_utf8_byte(b)));
    }
    all.push((0xff, PartialCodePoint::from_code_point(0x2603)));
    all
}

#[test]
fn held_bytes_are_handed_on() {
    for (b, pcp) in held() {
        assert_eq!(pcp.as_u8(), b);
    }
}

#[test]
fn classifiers_go_by_the_held_byte() {
    for (b, pcp) in held() {
        assert_eq!(AnyQuoting::classify_for_quoting(pcp), AnyQuoting::classify(b), "byte {}", b);
        assert_eq!(
            NormalQuoting::classify_for_quoting(pcp),
            NormalQuoting::classify(b),
            "byte {}",
            b
        );
        assert_eq!(
            HttpObsQuoting::classify_for_quoting(pcp),
            HttpObsQuoting::classify(b),
            "byte {}",
            b
        );
        assert_eq!(
            MimeObsQuoting::classify_for_quoting(pcp),
            MimeObsQuoting::classify(b),
            "byte {}",
            b
        );
        assert_eq!(
            MimeObsUtf8Quoting::classify_for_quoting(pcp),
            MimeObsUtf8Quoting::classify(b),
            "byte {}",
            b
        );
    }
}

#[test]
fn quotable_bytes_go_by_the_held_byte() {
    for (b, pcp) in held() {
        assert!(AnyParsingImpl::can_be_quoted(pcp));
        assert_eq!(NormalParsingImpl::can_be_quoted(pcp), NormalParsingImpl::quotable(b));
        assert_eq!(StrictParsingImpl::can_be_quoted(pcp), b == b'"' || b == b'\\');
        assert_eq!(HttpObsParsingImpl::can_be_quoted(pcp), HttpObsParsingImpl::quotable(b));
        assert_eq!(MimeObsParsing::can_be_quoted(pcp), b <= 0x7f);
        assert_eq!(MimeObsParsingUtf8::can_be_quoted(pcp), b <= 0x7f);
        assert_eq!(MimeParsing::can_be_quoted(pcp), MimeParsing::quotable(b));
        assert_eq!(MimeParsingUtf8::can_be_quoted(pcp), MimeParsingUtf8::quotable(b));
    }
}

#[test]
fn normal_steps_go_by_the_held_byte() {
    for (b, pcp) in held() {
        assert_eq!(AnyParsingImpl::handle_normal_state(pcp), AnyParsingImpl::normal_state(b));
        assert_eq!(
            NormalParsingImpl::handle_normal_state(pcp),
            NormalParsingImpl::normal_state(b)
        );
        assert_eq!(
            StrictParsingImpl::handle_normal_state(pcp),
            StrictParsingImpl::normal_state(b)
        );
        assert_eq!(
            HttpObsParsingImpl::handle_normal_state(pcp),
            HttpObsParsingImpl::normal_state(b)
        );
        assert_eq!(
            MimeObsParsing::handle_normal_state(pcp),
            mime_normal_state::<MimeObsParsing>(b)
        );
        assert_eq!(
            MimeObsParsingUtf8::handle_normal_state(pcp),
            mime_normal_state::<MimeObsParsingUtf8>(b)
        );
        assert_eq!(MimeParsing::handle_normal_state(pcp), mime_normal_state::<MimeParsing>(b));
        assert_eq!(
            MimeParsingUtf8::handle_normal_state(pcp),
            mime_normal_state::<MimeParsingUtf8>(b)
        );
    }
}

#[test]
fn fold_steps_go_by_the_held_byte() {
    for state in [FWSState::HitCr, FWSState::HitNl, FWSState::HadFws] {
        for (b, pcp) in held() {
            assert_eq!(MimeObsParsing(state).advance(pcp), state.advance::<MimeObsParsing>(b));
            assert_eq!(
                MimeObsParsingUtf8(state).advance(pcp),
                state.advance::<MimeObsParsingUtf8>(b)
            );
            assert_eq!(MimeParsing(state).advance(pcp), state.advance::<MimeParsing>(b));
            assert_eq!(MimeParsingUtf8(state).advance(pcp), state.advance::<MimeParsingUtf8>(b));
        }
    }
}

#[test]
fn validators_go_by_the_held_byte() {
    for (b, pcp) in held() {
        let mut by_trait = HttpTokenValidator::new();
        let mut by_byte = HttpTokenValidator::new();
        assert_eq!(by_trait.next(pcp), by_byte.feed(b), "byte {}", b);
        assert_eq!(by_trait.end(), by_byte.finish());

        let mut by_trait = MimeTokenValidator::new();
        let mut by_byte = MimeTokenValidator::new();
        assert_eq!(by_trait.next(pcp), by_byte.feed(b), "byte {}", b);
        assert_eq!(by_trait, by_byte);
        assert_eq!(by_trait.end(), by_byte.finish());

        for count in [0usize, 1, 126, 127, 128, usize::MAX] {
            let mut by_trait = RestrictedTokenValidator { count };
            let mut by_byte = RestrictedTokenValidator { count };
            assert_eq!(by_trait.end(), 0 < count && count < 128);
            assert_eq!(by_trait.next(pcp), by_byte.feed(b), "byte {} after {}", b, count);
            assert_eq!(by_trait, by_byte);
        }
    }
}

#[test]
fn a_restricted_token_is_counted() {
    let mut validator = RestrictedTokenValidator::new();
    assert!(!validator.end());
    assert!(!validator.next(PartialCodePoint::from_utf8_byte(b'-')));
    assert_eq!(validator.count, 0);
    assert!(validator.next(PartialCodePoint::from_utf8_byte(b'a')));
    assert_eq!(validator.count, 1);
    assert!(validator.next(PartialCodePoint::from_utf8_byte(b'-')));
    assert_eq!(validator.count, 2);
    assert!(!validator.next(PartialCodePoint::from_utf8_byte(b'*')));
    assert_eq!(validator.count, 2);
    assert!(validator.end());
}

#[test]
fn values_are_encoded_by_the_set_of_the_grammar() {
    assert_eq!(percent_encode_for(Policy::HttpObs, "a{b} c"), "a%7Bb%7D%20c");
    assert_eq!(percent_encode_for(Policy::Strict, "a{b} c"), "a%7Bb%7D%20c");
    assert_eq!(percent_encode_for(Policy::MimeAsciiObs, "a{b} c"), "a{b}%20c");
    assert_eq!(percent_encode_for(Policy::Any, "a{b}\u{e4}"), "a{b}%C3%A4");
    assert_eq!(percent_encode_for(Policy::HttpModern, "\0\u{7f}%"), "%00%7F%");
}

#[test]
fn values_compare_without_case_in_every_pairing() {
    let quoted = Value { source: "\"a\\Bc\"" };
    let plain = Value { source: "AbC" };
    let other = Value { source: "abd" };
    assert!(AsciiCaseInsensitiveEq::eq_ignore_ascii_case(&quoted, &plain));
    assert!(!AsciiCaseInsensitiveEq::eq_ignore_ascii_case(&quoted, &other));
    assert!(<Value as AsciiCaseInsensitiveEq<str>>::eq_ignore_ascii_case(&quoted, "ABC"));
    assert!(!<Value as AsciiCaseInsensitiveEq<str>>::eq_ignore_ascii_case(&quoted, "\"abc\""));
    assert!(<str as AsciiCaseInsensitiveEq<Value>>::eq_ignore_ascii_case("abC", &quoted));
    assert!(!<str as AsciiCaseInsensitiveEq<Value>>::eq_ignore_ascii_case("abd", &quoted));
    assert!(<Value as AsciiCaseInsensitiveEq<&str>>::eq_ignore_ascii_case(&plain, &"abc"));
    assert!(!<Value as AsciiCaseInsensitiveEq<&str>>::eq_ignore_ascii_case(&plain, &"ab"));
    assert!(<&str as AsciiCaseInsensitiveEq<Value>>::eq_ignore_ascii_case(&"ABC", &plain));
    assert!(!<&str as AsciiCaseInsensitiveEq<Value>>::eq_ignore_ascii_case(&"", &plain));
}

/// The steps of the scan of a MIME grammar, as `media-type-impl-utils` has
/// them and as this crate has them, written out for comparison.
fn shown<T: std::fmt::Debug>(step: T) -> String {
    format!("{:?}", step)
}

#[test]
fn fold_steps_are_those_of_the_outside_rules() {
    let places = [
        (FWSState::HitCr, media_type_impl_utils::quoted_string::FWSState::HitCr),
        (FWSState::HitNl, media_type_impl_utils::quoted_string::FWSState::HitNl),
        (FWSState::HadFws, media_type_impl_utils::quoted_string::FWSState::HadFws),
    ];
    for (own, outside) in places {
        for (b, pcp) in held() {
            assert_eq!(
                shown(own.advance::<MimeObsParsing>(b)),
                shown(outside.advance::<media_type_impl_utils::quoted_string::MimeObsParsing>(pcp)),
                "byte {}",
                b
            );
            assert_eq!(
                shown(own.advance::<MimeObsParsingUtf8>(b)),
                shown(
                    outside
                        .advance::<media_type_impl_utils::quoted_string::MimeObsParsingUtf8>(pcp)
                ),
                "byte {}",
                b
            );
            assert_eq!(
                shown(own.advance::<MimeParsing>(b)),
                shown(outside.advance::<media_type_impl_utils::quoted_string::MimeParsing>(pcp)),
                "byte {}",
                b
            );
            assert_eq!(
                shown(own.advance::<MimeParsingUtf8>(b)),
                shown(outside.advance::<media_type_impl_utils::quoted_string::MimeParsingUtf8>(pcp)),
                "byte {}",
                b
            );
        }
    }
}

#[test]
fn normal_steps_are_those_of_the_outside_rules_but_for_white_space() {
    for (b, pcp) in held() {
        let white = b == b' ' || b == b'\t';
        let taken = "Ok((Normal, true))";
        let refused = "Err(InvalidChar)";

        let own = shown(mime_normal_state::<MimeObsParsing>(b));
        let outside = shown(
            <media_type_impl_utils::quoted_string::MimeObsParsing as ParsingImpl>::handle_normal_state(
                pcp,
            ),
        );
        if white {
            assert_eq!(own, taken);
            assert_eq!(outside, refused);
        } else {
            assert_eq!(own, outside, "byte {}", b);
        }

        let own = shown(mime_normal_state::<MimeObsParsingUtf8>(b));
        let outside = shown(
            <media_type_impl_utils::quoted_string::MimeObsParsingUtf8 as ParsingImpl>::handle_normal_state(
                pcp,
            ),
        );
        if white {
            assert_eq!(own, taken);
            assert_eq!(outside, refused);
        } else {
            assert_eq!(own, outside, "byte {}", b);
        }

        assert_eq!(
            shown(mime_normal_state::<MimeParsing>(b)),
            shown(
                <media_type_impl_utils::quoted_string::MimeParsing as ParsingImpl>::handle_normal_state(
                    pcp
                )
            ),
            "byte {}",
            b
        );
        assert_eq!(
            shown(mime_normal_state::<MimeParsingUtf8>(b)),
            shown(
                <media_type_impl_utils::quoted_string::MimeParsingUtf8 as ParsingImpl>::handle_normal_state(
                    pcp
                )
            ),
            "byte {}",
            b
        );
    }
}

#[test]
fn quotable_bytes_are_those_of_the_outside_rules() {
    for (b, pcp) in held() {
        assert_eq!(
            MimeObsParsing::can_be_quoted(pcp),
            media_type_impl_utils::quoted_string::MimeObsParsing::can_be_quoted(pcp)
        );
        assert_eq!(
            MimeObsParsingUtf8::can_be_quoted(pcp),
            media_type_impl_utils::quoted_string::MimeObsParsingUtf8::can_be_quoted(pcp)
        );
        assert_eq!(
            MimeParsing::can_be_quoted(pcp),
            media_type_impl_utils::quoted_string::MimeParsing::can_be_quoted(pcp),
            "byte {}",
            b
        );
        assert_eq!(
            MimeParsingUtf8::can_be_quoted(pcp),
            media_type_impl_utils::quoted_string::MimeParsingUtf8::can_be_quoted(pcp)
        );
    }
}
