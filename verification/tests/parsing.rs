use media_type::error::{ExpectedChar, ParserErrorKind};
use media_type::parse::cfws::{
    _parse_fws_obs, inner_parse_comment, parse_opt_cfws, parse_opt_fws, parse_quotable,
};
use media_type::parse::impl_spec::parse_opt_ws;
use media_type::parse::utils::parse_ascii_char;
use media_type::parse::{parse, validate};
use media_type::quoting::{MimeObsParsing, MimeObsParsingUtf8, MimeParsing, MimeParsingUtf8};
use media_type::spec::{
    AnySpec, Ascii, HttpSpec, Internationalized, MimeSpec, Modern, Obs, Spec, StrictSpec,
};
use media_type::MediaType;
use quoted_string::error::CoreError;

fn kind_of<S: Spec>(input: &str) -> ParserErrorKind {
    match parse::<S>(input) {
        Ok(_) => panic!("{:?} was accepted", input),
        Err(e) => e.kind(),
    }
}

#[test]
fn ascii_char_found_and_missing() {
    assert_eq!(parse_ascii_char("a/b", 1, b'/'), Ok(2));
    assert_eq!(
        parse_ascii_char("a/b", 0, b'/'),
        Err(ParserErrorKind::UnexpectedChar { pos: 0, expected: ExpectedChar::Char('/') }
            .with_input("a/b"))
    );
    assert_eq!(
        parse_ascii_char("a/b", 3, b'/'),
        Err(ParserErrorKind::UnexpectedChar { pos: 3, expected: ExpectedChar::Char('/') }
            .with_input("a/b"))
    );
}

#[test]
fn leading_white_space() {
    assert_eq!(parse_opt_ws(""), 0);
    assert_eq!(parse_opt_ws(" \t x "), 3);
    assert_eq!(parse_opt_ws("x "), 0);
}

#[test]
fn obsolete_folding_white_space() {
    assert_eq!(_parse_fws_obs("", 0), Ok(0));
    assert_eq!(_parse_fws_obs("   x", 0), Ok(3));
    assert_eq!(_parse_fws_obs("\r\n \r\n\t\r\n  x", 0), Ok(10));
    assert_eq!(_parse_fws_obs(" \r\n \r\n x", 0), Ok(7));
    assert_eq!(
        _parse_fws_obs(" \r\nx", 0),
        Err(ParserErrorKind::IllegalCrNlSeq { pos: 1 }.with_input(" \r\nx"))
    );
    assert_eq!(
        _parse_fws_obs("\r", 0),
        Err(ParserErrorKind::IllegalCrNlSeq { pos: 0 }.with_input("\r"))
    );
    assert_eq!(parse_opt_fws::<MimeObsParsing>("  \r\n x", 0), Ok(5));
    assert_eq!(parse_opt_fws::<MimeParsing>("  \r\n  x", 0), Ok(6));
}

#[test]
fn folds_repeated_in_a_comment_of_the_obsolete_grammar() {
    for n in 0..6 {
        for ws in [" ", "\t"] {
            let text = format!("({})", format!("\r\n{}", ws).repeat(n));
            assert_eq!(inner_parse_comment::<MimeObsParsing>(&text, 1), Ok(text.len()));
            assert_eq!(inner_parse_comment::<MimeObsParsingUtf8>(&text, 1), Ok(text.len()));
        }
    }
    let mixed = "(\r\n \r\n\t\r\n )";
    assert_eq!(inner_parse_comment::<MimeObsParsing>(mixed, 1), Ok(mixed.len()));
    assert_eq!(
        inner_parse_comment::<MimeParsing>(mixed, 1),
        Err(ParserErrorKind::IllegalCrNlSeq { pos: 4 }.with_input(mixed))
    );
}

#[test]
fn bare_line_feed_in_a_comment() {
    for text in ["(\n)", "(ab\n cd)", "(ab \n)"] {
        let pos = text.find('\n').unwrap();
        assert_eq!(
            inner_parse_comment::<MimeObsParsing>(text, 1),
            Err(ParserErrorKind::IllegalCrNlSeq { pos }.with_input(text))
        );
        assert_eq!(
            inner_parse_comment::<MimeParsing>(text, 1),
            Err(ParserErrorKind::IllegalCrNlSeq { pos }.with_input(text))
        );
    }
}

#[test]
fn comment_errors() {
    assert_eq!(
        inner_parse_comment::<MimeParsing>("(abc", 1),
        Err(ParserErrorKind::UnexpectedEof.with_input("(abc"))
    );
    assert_eq!(
        inner_parse_comment::<MimeParsing>("(a(b)", 1),
        Err(ParserErrorKind::UnexpectedEof.with_input("(a(b)"))
    );
    assert_eq!(
        inner_parse_comment::<MimeParsing>("(a\\", 1),
        Err(ParserErrorKind::UnexpectedEof.with_input("(a\\"))
    );
    assert_eq!(
        inner_parse_comment::<MimeParsing>("(a\u{0}b)", 1),
        Err(ParserErrorKind::UnexpectedChar {
            pos: 2,
            expected: ExpectedChar::CharClass("ctext / '(' / ')' / '\\'")
        }
        .with_input("(a\u{0}b)"))
    );
    assert_eq!(
        inner_parse_comment::<MimeParsingUtf8>("(a\u{0}b)", 1),
        Err(ParserErrorKind::UnexpectedChar {
            pos: 2,
            expected: ExpectedChar::CharClass("ctext / non-ascii-utf8 / '(' / ')' / '\\'")
        }
        .with_input("(a\u{0}b)"))
    );
    assert_eq!(
        inner_parse_comment::<MimeParsing>("(a\u{e4}b)", 1),
        Err(ParserErrorKind::UnexpectedChar {
            pos: 2,
            expected: ExpectedChar::CharClass("ctext / '(' / ')' / '\\'")
        }
        .with_input("(a\u{e4}b)"))
    );
    assert_eq!(inner_parse_comment::<MimeParsingUtf8>("(a\u{e4}b)", 1), Ok(6));
}

#[test]
fn quoted_pairs_in_comments() {
    assert_eq!(parse_quotable::<MimeParsing>("a", 0), Ok(1));
    assert_eq!(parse_quotable::<MimeObsParsing>("\u{1}", 0), Ok(1));
    assert_eq!(
        parse_quotable::<MimeParsing>("\u{1}", 0),
        Err(ParserErrorKind::UnexpectedChar {
            pos: 0,
            expected: ExpectedChar::CharClass("quotable")
        }
        .with_input("\u{1}"))
    );
    assert_eq!(
        parse_quotable::<MimeObsParsing>("\u{e4}", 0),
        Err(ParserErrorKind::UnexpectedChar {
            pos: 0,
            expected: ExpectedChar::CharClass("quotable/obs-quotabe")
        }
        .with_input("\u{e4}"))
    );
    assert_eq!(
        parse_quotable::<MimeParsing>("a", 1),
        Err(ParserErrorKind::UnexpectedEof.with_input("a"))
    );
}

#[test]
fn comments_and_white_space_between_parts() {
    assert_eq!(parse_opt_cfws::<MimeObsParsing>(""), Ok(0));
    assert_eq!(parse_opt_cfws::<MimeObsParsing>("x"), Ok(0));
    assert_eq!(parse_opt_cfws::<MimeObsParsing>("(c)x"), Ok(3));
    assert_eq!(parse_opt_cfws::<MimeObsParsing>(" (comment) x"), Ok(11));
    assert_eq!(parse_opt_cfws::<MimeParsing>(" (a) (b(c)) \r\n x"), Ok(15));
    assert_eq!(
        parse_opt_cfws::<MimeParsing>("  (ab"),
        Err(ParserErrorKind::UnexpectedEof.with_input("(ab"))
    );
    assert_eq!(
        parse_opt_cfws::<MimeParsing>(" \r x"),
        Err(ParserErrorKind::IllegalCrNlSeq { pos: 1 }.with_input(" \r x"))
    );
}

#[test]
fn media_type_with_comments() {
    let mt =
        MediaType::<MimeSpec<Ascii, Modern>>::parse("text/plain (a comment) ; (b) charset=utf-8")
            .unwrap();
    assert_eq!(mt.as_str_repr(), "text/plain (a comment) ; (b) charset=utf-8");
    assert_eq!(mt.get_param("charset").unwrap().as_str_repr(), "utf-8");
    assert!(MediaType::<HttpSpec<Obs>>::parse("text/plain (a comment) ; charset=utf-8").is_err());
}

#[test]
fn malformed_inputs_are_rejected() {
    assert_eq!(
        kind_of::<AnySpec>("f o o / bar"),
        ParserErrorKind::UnexpectedChar { pos: 1, expected: ExpectedChar::Char('/') }
    );
    assert_eq!(
        kind_of::<AnySpec>("text\n/plain"),
        ParserErrorKind::UnexpectedChar { pos: 4, expected: ExpectedChar::Char('/') }
    );
    assert_eq!(
        kind_of::<HttpSpec<Obs>>("text/plain; a=\"b"),
        ParserErrorKind::QuotedParamValue { pos: 2, cause: CoreError::DoesNotEndWithDQuotes }
    );
    assert_eq!(
        kind_of::<HttpSpec<Modern>>("text/plain; a=\"b\\\""),
        ParserErrorKind::QuotedParamValue { pos: 4, cause: CoreError::DoesNotEndWithDQuotes }
    );
    assert_eq!(
        kind_of::<HttpSpec<Obs>>("text/plain; a=\"b\\\""),
        ParserErrorKind::QuotedParamValue { pos: 3, cause: CoreError::UnquoteableCharQuoted }
    );
    assert_eq!(
        kind_of::<HttpSpec<Obs>>("text/plain; a=\"b\"c"),
        ParserErrorKind::UnexpectedChar { pos: 17, expected: ExpectedChar::Char(';') }
    );
    assert_eq!(
        kind_of::<HttpSpec<Obs>>("text/plain; a=b\""),
        ParserErrorKind::UnexpectedChar { pos: 15, expected: ExpectedChar::Char(';') }
    );
    assert_eq!(
        kind_of::<HttpSpec<Obs>>("text/plain; a="),
        ParserErrorKind::UnquotedParamValue { pos: 0, cause: CoreError::ZeroSizedValue }
    );
    assert_eq!(
        kind_of::<HttpSpec<Obs>>(""),
        ParserErrorKind::UnquotedParamValue { pos: 0, cause: CoreError::ZeroSizedValue }
    );
    assert_eq!(
        kind_of::<HttpSpec<Obs>>("text/"),
        ParserErrorKind::UnquotedParamValue { pos: 0, cause: CoreError::ZeroSizedValue }
    );
    assert_eq!(
        kind_of::<HttpSpec<Obs>>("text/plain;"),
        ParserErrorKind::UnquotedParamValue { pos: 0, cause: CoreError::ZeroSizedValue }
    );
    assert_eq!(
        kind_of::<HttpSpec<Obs>>("text/plain; a"),
        ParserErrorKind::UnexpectedChar { pos: 13, expected: ExpectedChar::Char('=') }
    );
    assert_eq!(
        kind_of::<MimeSpec<Ascii, Obs>>("text/plain (open"),
        ParserErrorKind::UnexpectedEof
    );
    assert_eq!(
        kind_of::<MimeSpec<Ascii, Obs>>("text/plain \r\nx"),
        ParserErrorKind::IllegalCrNlSeq { pos: 1 }
    );
}

#[test]
fn errors_carry_the_part_they_count_from() {
    let e = parse::<HttpSpec<Obs>>("text/plain; a=\"b").unwrap_err();
    assert_eq!(e.input(), "\"b");
    let e = parse::<HttpSpec<Obs>>("text/pl[ain").unwrap_err();
    assert_eq!(e.input(), "text/pl[ain");
    assert_eq!(
        e.kind(),
        ParserErrorKind::UnexpectedChar { pos: 7, expected: ExpectedChar::Char(';') }
    );
    let e = parse::<MimeSpec<Ascii, Obs>>("text/plain \r\nx").unwrap_err();
    assert_eq!(e.input(), " \r\nx");
    let e = parse::<MimeSpec<Ascii, Obs>>("text/plain (a\n)").unwrap_err();
    assert_eq!(e.input(), "(a\n)");
    assert_eq!(e.kind(), ParserErrorKind::IllegalCrNlSeq { pos: 2 });
}

#[test]
fn strict_names_are_at_most_127_bytes_and_start_with_a_letter_or_digit() {
    let long = "a".repeat(127);
    let too_long = "a".repeat(128);
    assert!(validate::<StrictSpec>(&format!("{}/{}", long, long)));
    assert_eq!(
        kind_of::<StrictSpec>(&format!("{}/plain", too_long)),
        ParserErrorKind::UnquotedParamValue { pos: 128, cause: CoreError::InvalidChar }
    );
    assert!(validate::<HttpSpec<Modern>>(&format!("{}/plain", too_long)));
    assert!(!validate::<StrictSpec>("+a/plain"));
    assert!(validate::<HttpSpec<Modern>>("+a/plain"));
    assert!(validate::<StrictSpec>("a+b/x.y"));
    assert!(!validate::<StrictSpec>("a*b/x"));
    assert!(validate::<StrictSpec>("text/plain; a=b*c"));
    assert!(!validate::<HttpSpec<Obs>>("a{b/x"));
    assert!(validate::<MimeSpec<Ascii, Obs>>("a{b/x"));
}

#[test]
fn quoted_strings_under_each_grammar() {
    let plain = "text/plain; a=\"b c\"";
    assert!(validate::<StrictSpec>(plain));
    assert!(validate::<HttpSpec<Modern>>(plain));
    assert!(validate::<HttpSpec<Obs>>(plain));
    assert!(validate::<MimeSpec<Ascii, Modern>>(plain));
    assert!(validate::<MimeSpec<Ascii, Obs>>(plain));
    assert!(validate::<MimeSpec<Internationalized, Modern>>(plain));
    assert!(validate::<MimeSpec<Internationalized, Obs>>(plain));
    assert!(validate::<AnySpec>(plain));

    let escaped_letter = "text/plain; a=\"b\\c\"";
    assert!(!validate::<StrictSpec>(escaped_letter));
    assert_eq!(
        kind_of::<StrictSpec>(escaped_letter),
        ParserErrorKind::QuotedParamValue { pos: 3, cause: CoreError::UnquoteableCharQuoted }
    );
    assert!(validate::<HttpSpec<Modern>>(escaped_letter));
    assert!(validate::<AnySpec>(escaped_letter));

    let non_ascii = "text/plain; a=\"b\u{e4}c\"";
    assert!(!validate::<StrictSpec>(non_ascii));
    assert!(!validate::<HttpSpec<Modern>>(non_ascii));
    assert!(validate::<HttpSpec<Obs>>(non_ascii));
    assert!(!validate::<MimeSpec<Ascii, Modern>>(non_ascii));
    assert!(!validate::<MimeSpec<Ascii, Obs>>(non_ascii));
    assert!(validate::<MimeSpec<Internationalized, Modern>>(non_ascii));
    assert!(validate::<MimeSpec<Internationalized, Obs>>(non_ascii));
    assert!(validate::<AnySpec>(non_ascii));

    let folded = "text/plain; a=\"b\r\n c\"";
    assert!(!validate::<HttpSpec<Obs>>(folded));
    assert!(validate::<MimeSpec<Ascii, Modern>>(folded));
    assert!(validate::<MimeSpec<Ascii, Obs>>(folded));
    assert_eq!(
        kind_of::<MimeSpec<Ascii, Modern>>("text/plain; a=\"b\r\nc\""),
        ParserErrorKind::QuotedParamValue { pos: 4, cause: CoreError::InvalidChar }
    );
    assert_eq!(
        kind_of::<HttpSpec<Obs>>("text/plain; a=\"b\u{0}\""),
        ParserErrorKind::QuotedParamValue { pos: 2, cause: CoreError::InvalidChar }
    );
}

#[test]
fn validate_is_parse_is_ok() {
    let inputs = [
        "",
        "text/plain",
        "TEXT/PLAIN",
        "text/plain; charset=utf-8",
        "text/plain;charset=\"utf-8\"",
        "text/plain ; a=b ; c=d  ",
        "text/plain (comment); a=b",
        "text/plain; a=\"b",
        "text/plain; a=b\u{e4}",
        "text/plain; a=\"\u{e4}\"",
        "f o o / bar",
        "text\n/plain",
        "a{/b}",
        "+/+",
        "text/plain;\r\n a=b",
    ];
    for input in inputs {
        assert_eq!(validate::<StrictSpec>(input), parse::<StrictSpec>(input).is_ok());
        assert_eq!(validate::<HttpSpec<Modern>>(input), parse::<HttpSpec<Modern>>(input).is_ok());
        assert_eq!(validate::<HttpSpec<Obs>>(input), parse::<HttpSpec<Obs>>(input).is_ok());
        assert_eq!(
            validate::<MimeSpec<Ascii, Modern>>(input),
            parse::<MimeSpec<Ascii, Modern>>(input).is_ok()
        );
        assert_eq!(
            validate::<MimeSpec<Ascii, Obs>>(input),
            parse::<MimeSpec<Ascii, Obs>>(input).is_ok()
        );
        assert_eq!(
            validate::<MimeSpec<Internationalized, Modern>>(input),
            parse::<MimeSpec<Internationalized, Modern>>(input).is_ok()
        );
        assert_eq!(
            validate::<MimeSpec<Internationalized, Obs>>(input),
            parse::<MimeSpec<Internationalized, Obs>>(input).is_ok()
        );
        assert_eq!(validate::<AnySpec>(input), parse::<AnySpec>(input).is_ok());
        assert_eq!(
            MediaType::<AnySpec>::validate(input),
            MediaType::<AnySpec>::parse(input).is_ok()
        );
    }
    assert!(validate::<AnySpec>("text/plain;\r\n a=b"));
    assert!(!validate::<HttpSpec<Obs>>("text/plain;\r\n a=b"));
    assert!(validate::<AnySpec>("text/plain ; a=b ; c=d  "));
}

#[test]
fn trailing_white_space_is_not_kept() {
    let pres = parse::<HttpSpec<Obs>>("text/plain; a=b  ").unwrap();
    assert_eq!(pres.repr_len(), 15);
    let pres = parse::<HttpSpec<Obs>>("text/plain  ").unwrap();
    assert_eq!(pres.repr_len(), 10);
    let mt = MediaType::<HttpSpec<Obs>>::parse("Text/Plain; A=B  ").unwrap();
    assert_eq!(mt.as_str_repr(), "text/plain; a=B");
}

#[test]
fn policy_methods() {
    assert_eq!(<HttpSpec<Obs> as Spec>::parse_token("abc/def"), Ok(3));
    assert_eq!(<HttpSpec<Obs> as Spec>::parse_space("  \tabc"), Ok(3));
    assert_eq!(<MimeSpec<Ascii, Obs> as Spec>::parse_space(" (c) abc"), Ok(5));
    assert_eq!(<HttpSpec<Obs> as Spec>::validate_token("abc"), Ok(()));
    assert_eq!(
        <HttpSpec<Obs> as Spec>::validate_token("ab/c"),
        Err(ParserErrorKind::UnexpectedChar {
            pos: 2,
            expected: ExpectedChar::CharClass("token char")
        }
        .with_input("ab/c"))
    );
    assert_eq!(<StrictSpec as Spec>::parse_unquoted_value("+a;"), Ok(2));
    assert_eq!(<StrictSpec as Spec>::parse_quoted_string("\"a b\"; c"), Ok(5));
    assert_eq!(
        <StrictSpec as Spec>::parse_quoted_string("a"),
        Err(ParserErrorKind::QuotedParamValue {
            pos: 0,
            cause: CoreError::DoesNotStartWithDQuotes
        }
        .with_input("a"))
    );
}

#[test]
fn any_number_of_folds_is_taken_whole() {
    for k in 0..40usize {
        let mut folds = String::new();
        for i in 0..k {
            folds.push_str(if i % 2 == 0 { "\r\n " } else { "\r\n\t" });
        }
        assert_eq!(_parse_fws_obs(&folds, 0), Ok(3 * k));
        let followed = format!("{}x", folds);
        assert_eq!(_parse_fws_obs(&followed, 0), Ok(3 * k));
        let in_comment = format!("({})", folds);
        assert_eq!(_parse_fws_obs(&in_comment, 1), Ok(1 + 3 * k));
    }
}
