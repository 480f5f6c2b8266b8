use media_type::compare::{hash_name, NameIndex, HASH_SEED};
use media_type::encode::{percent_encode_for, quote_for};
use media_type::error::{
    core_error_from_id, one_char_str, ExpectedChar, ParserError, ParserErrorKind, INVALID_INDEX,
};
use media_type::gen::{_buffer_encode_and_push_param, _buffer_push_param, create_buffer_from};
use media_type::spec::{
    AnySpec, Ascii, Grammar, HttpSpec, Internationalized, MimeSpec, Modern, Obs, Policy,
    StrictSpec, TokenKind,
};
use media_type::{AsciiCaseInsensitiveEq, push_param_to_buffer, AnyMediaType, MediaType, Name, ParamIndices, Value};
use quoted_string::error::CoreError;

fn any(input: &str) -> AnyMediaType {
    MediaType::<AnySpec>::parse(input).unwrap().into_any()
}

#[test]
fn parameter_order_does_not_count() {
    let one = "text/a;first=x;second=y";
    let other = "text/a;second=y;first=x";
    assert_eq!(
        MediaType::<StrictSpec>::parse(one).unwrap(),
        MediaType::<StrictSpec>::parse(other).unwrap()
    );
    assert_eq!(
        MediaType::<HttpSpec<Modern>>::parse(one).unwrap(),
        MediaType::<HttpSpec<Modern>>::parse(other).unwrap()
    );
    assert_eq!(
        MediaType::<HttpSpec<Obs>>::parse(one).unwrap(),
        MediaType::<HttpSpec<Obs>>::parse(other).unwrap()
    );
    assert_eq!(
        MediaType::<MimeSpec<Ascii, Modern>>::parse(one).unwrap(),
        MediaType::<MimeSpec<Ascii, Modern>>::parse(other).unwrap()
    );
    assert_eq!(
        MediaType::<MimeSpec<Ascii, Obs>>::parse(one).unwrap(),
        MediaType::<MimeSpec<Ascii, Obs>>::parse(other).unwrap()
    );
    assert_eq!(
        MediaType::<MimeSpec<Internationalized, Modern>>::parse(one).unwrap(),
        MediaType::<MimeSpec<Internationalized, Modern>>::parse(other).unwrap()
    );
    assert_eq!(
        MediaType::<MimeSpec<Internationalized, Obs>>::parse(one).unwrap(),
        MediaType::<MimeSpec<Internationalized, Obs>>::parse(other).unwrap()
    );
    assert_eq!(
        MediaType::<AnySpec>::parse(one).unwrap(),
        MediaType::<AnySpec>::parse(other).unwrap()
    );
}

#[test]
fn equality_by_number_of_parameters() {
    assert_eq!(any("text/plain"), any("TEXT/Plain"));
    assert_ne!(any("text/plain"), any("text/html"));
    assert_ne!(any("text/plain"), any("image/plain"));
    assert_ne!(any("text/plain"), any("text/plain; a=b"));

    assert_eq!(any("text/plain; a=b"), any("text/plain; A=\"b\""));
    assert_ne!(any("text/plain; a=b"), any("text/plain; a=B"));
    assert_ne!(any("text/plain; a=b"), any("text/plain; c=b"));

    assert_eq!(any("text/plain; a=b; c=d"), any("text/plain; c=d; a=b"));
    assert_ne!(any("text/plain; a=b; c=d"), any("text/plain; c=b; a=d"));
    assert_ne!(any("text/plain; a=b; c=d"), any("text/plain; a=b; c=e"));

    assert_eq!(
        any("text/plain; a=1; b=2; c=3; d=4"),
        any("text/plain; D=4; b=\"2\"; a=1; C=3")
    );
    assert_ne!(any("text/plain; a=1; b=2; c=3; d=4"), any("text/plain; d=4; b=2; a=1; c=5"));
    assert_ne!(any("text/plain; a=1; b=2; c=3; d=4"), any("text/plain; d=4; b=2; a=1; e=3"));
    assert_ne!(any("text/plain; a=1; b=2; c=3"), any("text/plain; a=1; b=2; c=3; d=4"));
}

#[test]
fn a_name_that_occurs_twice() {
    assert_eq!(any("x/y; a=1; a=2"), any("x/y; a=2; a=1"));
    assert_eq!(any("text/plain; p=1; p=2"), any("text/plain; p=2; p=1"));
    assert_eq!(any("text/plain; p=2; p=1"), any("text/plain; p=1; p=2"));
    assert_eq!(any("text/plain; p=1; p=2"), any("text/plain; p=1; p=2"));
    assert_ne!(any("text/plain; p=1; p=2"), any("text/plain; p=1; p=1"));
    assert_ne!(any("text/plain; p=1; p=2"), any("text/plain; p=2; q=1"));
    assert_eq!(any("text/plain; p=1; q=2"), any("text/plain; Q=2; P=\"1\""));
    assert_eq!(any("text/plain; p=1; p=2; q=3"), any("text/plain; p=1; p=2; q=3"));
    assert_ne!(any("text/plain; p=1; p=2; q=3"), any("text/plain; p=2; p=2; q=3"));
    assert_ne!(any("text/plain; p=2; p=2; q=3"), any("text/plain; p=1; p=2; q=3"));
    assert_eq!(any("text/plain; p=1; p=2; q=3"), any("text/plain; q=3; p=2; p=1"));
    assert_eq!(any("text/plain; P=\"2\"; q=3; p=1"), any("text/plain; p=1; p=2; q=3"));
    assert_ne!(any("x/y; a=1; a=1; b=2"), any("x/y; a=1; b=2; b=2"));
    assert_ne!(any("x/y; a=1; b=2; b=2"), any("x/y; a=1; a=1; b=2"));
    assert_eq!(any("x/y; a=1; a=1; b=2"), any("x/y; b=2; a=1; a=1"));
    assert_ne!(any("x/y; a=1; a=1; b=2"), any("x/y; a=1; a=2; b=2"));
    assert_ne!(any("x/y; a=1; a=1; a=1; b=2"), any("x/y; a=1; a=1; b=2; b=2"));
    assert_eq!(any("x/y; a=1; b=1; a=2; b=2"), any("x/y; b=2; a=2; b=1; a=1"));
    assert_ne!(any("x/y; a=1; b=1; a=2; b=2"), any("x/y; b=2; a=2; b=2; a=1"));
    assert_eq!(any("text/plain; p=1; p=2; q=3").get_param("p").unwrap(), "1");
}

#[test]
fn names_without_case_values_with_case() {
    let mt = any("Text/Plain; ChArSeT=Utf-8; Other=AbC");
    assert_eq!(mt.as_str_repr(), "text/plain; charset=Utf-8; other=AbC");
    assert_eq!(mt.type_(), "TEXT");
    assert_eq!(mt.subtype(), "pLAIN");
    assert_eq!(mt.full_type(), "TEXT/plain");
    assert_eq!(mt.type_().as_str(), "text");
    assert_eq!(mt.get_param("OTHER").unwrap(), "AbC");
    assert_ne!(mt.get_param("other").unwrap(), "abc");
    assert!(mt.get_param("missing").is_none());
    assert!(Name::new_unchecked("Charset").eq_name(&Name::new_unchecked("cHARSET")));
    assert!(!Name::new_unchecked("charset").eq_name(&Name::new_unchecked("charse")));
    assert!(!Value::new_unchecked("abc").eq_value(&Value::new_unchecked("ABC")));
}

#[test]
fn utf8_charset_whatever_case_and_quotes() {
    assert!(any("text/plain; charset=UTF-8").has_utf8_charset());
    assert!(any("text/plain; charset=\"utf-8\"").has_utf8_charset());
    assert!(any("text/plain; charset=utf8").has_utf8_charset());
    assert!(any("text/plain; CHARSET=\"U\\TF8\"").has_utf8_charset());
    assert!(!any("text/plain; charset=latin1").has_utf8_charset());
    assert!(!any("text/plain; charset=utf-16").has_utf8_charset());
    assert!(!any("text/plain; a=utf-8").has_utf8_charset());
    assert!(!any("text/plain").has_utf8_charset());
    assert!(!any("text/plain; charset=latin1; charset=utf-8").has_utf8_charset());
    assert!(any("text/plain; charset=utf-8; charset=latin1").has_utf8_charset());
    assert!(any("Multipart/mixed; boundary=x").is_multipart());
}

#[test]
fn generated_media_types_parse_to_equal_ones() {
    let cases: Vec<(&str, &str, Vec<(&str, &str)>)> = vec![
        ("text", "plain", vec![]),
        ("TEXT", "PLAIN", vec![]),
        ("text", "plain", vec![("charset", "utf-8")]),
        ("Text", "x.y+z", vec![("A", "b"), ("c", "d e"), ("f", "g\"h")]),
        ("text", "plain", vec![("key", "va\0lue"), ("k2", "\u{e4}"), ("k3", "")]),
    ];
    for (type_, subtype, params) in cases {
        let made = MediaType::<HttpSpec<Modern>>::new_with_params(type_, subtype, params.clone())
            .unwrap();
        let parsed = MediaType::<HttpSpec<Modern>>::parse(made.as_str_repr()).unwrap();
        assert_eq!(parsed, made);
        assert_eq!(made, parsed);
        assert_eq!(parsed.as_str_repr().len(), made.as_str_repr().len());

        let made = MediaType::<MimeSpec<Ascii, Modern>>::new_with_params(type_, subtype, params)
            .unwrap();
        let parsed = MediaType::<MimeSpec<Ascii, Modern>>::parse(made.as_str_repr()).unwrap();
        assert_eq!(parsed, made);
    }
    let made =
        MediaType::<HttpSpec<Obs>>::new_with_params("a", "b", vec![("c", "it\"has")]).unwrap();
    assert_eq!(made.as_str_repr(), "a/b; c=\"it\\\"has\"");
    assert!(MediaType::<HttpSpec<Obs>>::parse(made.as_str_repr()).is_err());
    assert_eq!(MediaType::<HttpSpec<Modern>>::parse(made.as_str_repr()).unwrap(), made);
    assert_eq!(
        MediaType::<AnySpec>::parse("TEXT/PLAIN").unwrap(),
        MediaType::<AnySpec>::parse("text/plain").unwrap()
    );
    assert_eq!(MediaType::<AnySpec>::parse("TEXT/PLAIN").unwrap().as_str_repr(), "text/plain");
}

#[test]
fn values_as_each_grammar_writes_them() {
    assert_eq!(quote_for(Policy::HttpObs, "abc").as_deref(), Some("abc"));
    assert_eq!(quote_for(Policy::HttpObs, "").as_deref(), Some("\"\""));
    assert_eq!(quote_for(Policy::HttpObs, "dat file").as_deref(), Some("\"dat file\""));
    assert_eq!(quote_for(Policy::HttpObs, "it\"has").as_deref(), Some("\"it\\\"has\""));
    assert_eq!(quote_for(Policy::HttpObs, "a\\b").as_deref(), Some("\"a\\\\b\""));
    assert_eq!(quote_for(Policy::HttpObs, "a{b").as_deref(), Some("\"a{b\""));
    assert_eq!(quote_for(Policy::MimeAsciiObs, "a{b").as_deref(), Some("a{b"));
    assert_eq!(quote_for(Policy::HttpObs, "\u{e4}").as_deref(), Some("\"\u{e4}\""));
    assert_eq!(quote_for(Policy::HttpModern, "\u{e4}"), None);
    assert_eq!(quote_for(Policy::Strict, "va\0lue"), None);
    assert_eq!(quote_for(Policy::MimeAsciiObs, "b\0r").as_deref(), Some("\"b\\\0r\""));
    assert_eq!(quote_for(Policy::MimeAsciiObs, "\u{e4}"), None);
    assert_eq!(
        quote_for(Policy::MimeInternationalizedObs, "\u{e4}\r").as_deref(),
        Some("\"\u{e4}\\\r\"")
    );
    assert_eq!(quote_for(Policy::MimeInternationalizedModern, "a\rb"), None);
    assert_eq!(quote_for(Policy::Any, "a\0\"b").as_deref(), Some("\"a\0\\\"b\""));
}

#[test]
fn percent_encoding_in_upper_case_hex() {
    assert_eq!(percent_encode_for(Policy::HttpObs, "va\0lue"), "va%00lue");
    assert_eq!(percent_encode_for(Policy::HttpObs, ""), "");
    assert_eq!(percent_encode_for(Policy::HttpObs, "a b/c"), "a%20b%2Fc");
    assert_eq!(percent_encode_for(Policy::HttpObs, "\u{e4}\u{7f}"), "%C3%A4%7F");
    assert_eq!(percent_encode_for(Policy::HttpObs, "{}"), "%7B%7D");
    assert_eq!(percent_encode_for(Policy::MimeAsciiModern, "{}"), "{}");
    assert_eq!(percent_encode_for(Policy::Strict, "a\u{1f}\u{ff}"), "a%1F%C3%BF");
}

#[test]
fn buffers_and_offsets_of_generated_parts() {
    let (buffer, slash_idx, end_of_type) =
        create_buffer_from::<HttpSpec<Obs>>("text", "plain").unwrap();
    assert_eq!((buffer.as_str(), slash_idx, end_of_type), ("text/plain", 4, 10));
    assert_eq!(
        create_buffer_from::<HttpSpec<Obs>>("", "plain"),
        Err(ParserError::new(
            "",
            ParserErrorKind::UnquotedParamValue { pos: 0, cause: CoreError::ZeroSizedValue }
        ))
    );

    let mut buffer = String::from("a/b");
    assert_eq!(
        _buffer_push_param(&mut buffer, "name", "value"),
        ParamIndices { start: 5, eq_idx: 9, end: 15 }
    );
    assert_eq!(buffer, "a/b; name=value");
    assert_eq!(
        _buffer_encode_and_push_param::<HttpSpec<Obs>>(&mut buffer, "k", "a b"),
        ParamIndices { start: 17, eq_idx: 19, end: 32 }
    );
    assert_eq!(buffer, "a/b; name=value; k*=utf-8''a%20b");

    let mut buffer = String::from("a/b");
    assert_eq!(
        push_param_to_buffer::<HttpSpec<Obs>>(&mut buffer, "n", "x y"),
        Ok(ParamIndices { start: 5, eq_idx: 6, end: 12 })
    );
    assert_eq!(buffer, "a/b; n=\"x y\"");
    assert_eq!(
        push_param_to_buffer::<HttpSpec<Obs>>(&mut buffer, "b d", "x"),
        Err(ParserError::new(
            "b d",
            ParserErrorKind::UnexpectedChar {
                pos: 1,
                expected: ExpectedChar::CharClass("token char")
            }
        ))
    );
    assert_eq!(buffer, "a/b; n=\"x y\"");
}

#[test]
fn parameters_one_after_the_other() {
    let mt = any("a/b; x=1; y=\"2 3\"; z=4");
    assert_eq!(mt.param_count(), 3);
    let (name, value) = mt.param_at(1);
    assert_eq!(name.as_str(), "y");
    assert_eq!(value.as_str_repr(), "\"2 3\"");
    assert!(value.is_quoted());
    assert_eq!(value.to_content(), "2 3");
    let mut params = mt.params();
    let mut seen = Vec::new();
    while let Some((name, value)) = params.next() {
        seen.push((name.as_str(), value.as_str_repr()));
    }
    assert_eq!(seen, vec![("x", "1"), ("y", "\"2 3\""), ("z", "4")]);
    assert_eq!(params.len(), 0);
    let copy = mt.clone();
    assert_eq!(copy.as_str_repr(), mt.as_str_repr());
    assert_eq!(copy, mt);
}

#[test]
fn values_that_stand_for_nothing() {
    let open = Value::new_unchecked("\"abc");
    assert_ne!(open, open);
    assert!(open.try_to_content().is_none());
    assert!(!open.eq_ignore_ascii_case(&open));
    let more = Value::new_unchecked("\"a\"b\"");
    assert!(more.try_to_content().is_none());
    assert_ne!(more, "a");
    assert_eq!(Value::new_unchecked("\"\"").try_to_content().unwrap(), "");
    assert_eq!(Value::new_unchecked("").try_to_content().unwrap(), "");
    assert!(!Value::new_unchecked("").is_quoted());
    assert_eq!(Value::new_unchecked("\"\u{e4}\\\u{f6}\"").to_content(), "\u{e4}\u{f6}");
}

#[test]
fn index_of_names() {
    assert_eq!(hash_name(b""), HASH_SEED);
    assert_eq!(hash_name(b"a"), (HASH_SEED << 5) ^ (HASH_SEED >> 59) ^ 0x61);
    assert_eq!(hash_name(b"Charset"), hash_name(b"cHARSET"));
    assert_ne!(hash_name(b"charset"), hash_name(b"charse"));
    let mt = any("a/b; x=1; y=2; X=3; z=4");
    let index = NameIndex::build(&mt);
    assert_eq!(index.prev.len(), 4);
    assert_eq!(index.prev[0], usize::MAX);
    assert_eq!(index.prev[1], usize::MAX);
    assert_eq!(index.prev[2], 0);
    assert_eq!(index.heads.get(&hash_name(b"x")), Some(&2));
    assert_eq!(index.heads.get(&hash_name(b"w")), None);
    let probe = any("c/d; X=1; x=3; y=3; w=4; x=\"1\"");
    assert_eq!(index.count_like(&mt, &probe, 0), 1);
    assert_eq!(index.count_like(&mt, &probe, 1), 1);
    assert_eq!(index.count_like(&mt, &probe, 2), 0);
    assert_eq!(index.count_like(&mt, &probe, 3), 0);
    assert_eq!(index.count_like(&mt, &probe, 4), 1);
    let own = NameIndex::build(&probe);
    assert_eq!(own.count_like(&probe, &probe, 0), 2);
    assert_eq!(own.count_like(&probe, &probe, 1), 1);
    assert_eq!(own.count_like(&probe, &mt, 0), 2);
    assert_eq!(own.count_like(&probe, &mt, 3), 0);
}

#[test]
fn one_character_of_a_text() {
    assert_eq!(one_char_str("abc", 1), "b");
    assert_eq!(one_char_str("a\u{e4}c", 1), "\u{e4}");
    assert_eq!(one_char_str("a\u{20ac}c", 1), "\u{20ac}");
    assert_eq!(one_char_str("a\u{1f600}c", 1), "\u{1f600}");
    assert_eq!(one_char_str("abc", 3), "");
    assert_eq!(one_char_str("abc", 4), INVALID_INDEX);
    assert_eq!(one_char_str("a\u{e4}c", 2), INVALID_INDEX);
}

#[test]
fn kinds_of_errors() {
    let quoted = ParserErrorKind::QuotedParamValue { pos: 1, cause: CoreError::InvalidChar };
    let unquoted = ParserErrorKind::UnquotedParamValue { pos: 0, cause: CoreError::ZeroSizedValue };
    let unexpected = ParserErrorKind::UnexpectedChar { pos: 2, expected: ExpectedChar::Char('/') };
    assert_eq!(quoted.description(), "parsing quoted parameter value failed");
    assert_eq!(unquoted.description(), "parsing unquoted parameter value failed");
    assert_eq!(unexpected.description(), "parsing hit an unexpected character");
    assert_eq!(ParserErrorKind::UnexpectedEof.description(), "parsing unexpectedly hit eof");
    assert_eq!(
        ParserErrorKind::IllegalCrNlSeq { pos: 0 }.description(),
        "parsing found a illegal \"\\r\\n \"/\"\\r\\n\\t\" seqence"
    );
    assert_eq!(quoted.cause(), Some(CoreError::InvalidChar));
    assert_eq!(unquoted.cause(), Some(CoreError::ZeroSizedValue));
    assert_eq!(unexpected.cause(), None);
    let borrowed = unexpected.with_input("ab");
    assert_eq!(borrowed.input(), "ab");
    assert_eq!(borrowed.kind(), unexpected);
    let owned = borrowed.to_owned();
    assert_eq!(owned.input(), "ab");
    assert_eq!(owned.kind(), unexpected);
    assert_eq!(owned.as_ref(), borrowed);
    for id in 0..=6u8 {
        assert_eq!(core_error_from_id(id).id(), id);
    }
    assert_eq!(core_error_from_id(7), CoreError::ZeroSizedValue);
}

#[test]
fn grammars_of_the_policy_types() {
    assert_eq!(StrictSpec::exec_policy(), Policy::Strict);
    assert_eq!(AnySpec::exec_policy(), Policy::Any);
    assert_eq!(HttpSpec::<Modern>::exec_policy(), Policy::HttpModern);
    assert_eq!(HttpSpec::<Obs>::exec_policy(), Policy::HttpObs);
    assert_eq!(MimeSpec::<Ascii, Modern>::exec_policy(), Policy::MimeAsciiModern);
    assert_eq!(MimeSpec::<Ascii, Obs>::exec_policy(), Policy::MimeAsciiObs);
    assert_eq!(
        MimeSpec::<Internationalized, Modern>::exec_policy(),
        Policy::MimeInternationalizedModern
    );
    assert_eq!(MimeSpec::<Internationalized, Obs>::exec_policy(), Policy::MimeInternationalizedObs);
    assert_eq!(Policy::Strict.token_kind(), TokenKind::Restricted);
    assert_eq!(Policy::Strict.value_kind(), TokenKind::Http);
    assert_eq!(Policy::HttpObs.token_kind(), TokenKind::Http);
    assert_eq!(Policy::Any.token_kind(), TokenKind::Mime);
    assert!(!Policy::HttpObs.uses_cfws());
    assert!(Policy::MimeAsciiModern.uses_cfws());
    let converted: MediaType<AnySpec> = MediaType::<StrictSpec>::parse("a/b; c=d").unwrap().into();
    assert_eq!(converted.as_str_repr(), "a/b; c=d");
    let http: HttpSpec<Obs> = StrictSpec.into();
    let _any: AnySpec = http.into();
}

#[test]
fn a_quote_alone() {
    let lone = Value::new_unchecked("\"");
    assert!(lone.is_quoted());
    assert!(lone.try_to_content().is_none());
    assert_ne!(lone, lone);
    assert_ne!(lone, "");
    assert!(!lone.eq_ignore_ascii_case(&Value::new_unchecked("\"\"")));
}

#[test]
fn a_bad_name_leaves_the_buffer_as_it_is() {
    let mut buffer = String::from("a/b");
    let res = media_type::push_params_to_buffer::<HttpSpec<Obs>>(
        &mut buffer,
        vec![("good", "value"), ("b[ad]", "key"), ("wor se", "x")],
    );
    assert_eq!(
        res,
        Err(ParserError::new(
            "b[ad]",
            ParserErrorKind::UnexpectedChar {
                pos: 1,
                expected: ExpectedChar::CharClass("token char")
            }
        ))
    );
    assert_eq!(buffer, "a/b");
    let res = media_type::push_params_to_buffer::<HttpSpec<Obs>>(
        &mut buffer,
        vec![("good", "value"), ("better", "a b")],
    );
    assert_eq!(
        res,
        Ok(vec![
            ParamIndices { start: 5, eq_idx: 9, end: 15 },
            ParamIndices { start: 17, eq_idx: 23, end: 29 }
        ])
    );
    assert_eq!(buffer, "a/b; good=value; better=\"a b\"");
}

#[test]
fn generated_media_types_are_in_lower_case() {
    let made = MediaType::<HttpSpec<Obs>>::new("TEXT", "PLAIN").unwrap();
    assert_eq!(made.as_str_repr(), "text/plain");
    assert_eq!(made.params().len(), 0);
    assert_eq!(made.type_().as_str(), "text");
    assert_eq!(made.subtype().as_str(), "plain");

    let made = MediaType::<HttpSpec<Modern>>::new_with_params(
        "Text",
        "X.Y+Z",
        vec![("ChArSeT", "UTF-8"), ("Other", "Ab C"), ("KEY", "va\0LUE")],
    )
    .unwrap();
    assert_eq!(
        made.as_str_repr(),
        "text/x.y+z; charset=UTF-8; other=\"Ab C\"; key*=utf-8''va%00LUE"
    );
    let (name, value) = made.params().next().unwrap();
    assert_eq!(name.as_str(), "charset");
    assert_eq!(value.as_str_repr(), "UTF-8");

    let (buffer, slash_idx, end_of_type) =
        create_buffer_from::<MimeSpec<Ascii, Modern>>("Multipart", "Form-Data").unwrap();
    assert_eq!(buffer, "multipart/form-data");
    assert_eq!((slash_idx, end_of_type), (9, 19));

    let mut buffer = String::from("a/b");
    let indices = push_param_to_buffer::<HttpSpec<Obs>>(&mut buffer, "NaMe", "VaLuE").unwrap();
    assert_eq!(buffer, "a/b; name=VaLuE");
    assert_eq!(indices, ParamIndices { start: 5, eq_idx: 9, end: 15 });

    let mut buffer = String::from("a/b");
    media_type::push_params_to_buffer::<HttpSpec<Obs>>(&mut buffer, vec![("A", "B"), ("C", "D")])
        .unwrap();
    assert_eq!(buffer, "a/b; a=B; c=D");

    let bad = MediaType::<HttpSpec<Obs>>::new("TE XT", "PLAIN").unwrap_err();
    assert_eq!(bad.input, "TE XT");
}

#[test]
fn white_space_in_a_quoted_value_of_obsolete_mime() {
    let mt = MediaType::<MimeSpec<Ascii, Obs>>::parse("text/plain; a=\"b c\td\"").unwrap();
    assert_eq!(mt.as_str_repr(), "text/plain; a=\"b c\td\"");
    assert_eq!(mt.get_param("a").unwrap().to_content(), "b c\td");
    assert!(MediaType::<MimeSpec<Internationalized, Obs>>::validate("a/b; c=\"d e\""));
    assert!(MediaType::<MimeSpec<Ascii, Modern>>::validate("a/b; c=\"d e\""));
    let made =
        MediaType::<MimeSpec<Ascii, Obs>>::new_with_params("a", "b", vec![("c", "d e")]).unwrap();
    assert_eq!(made.as_str_repr(), "a/b; c=\"d e\"");
    assert_eq!(MediaType::<MimeSpec<Ascii, Obs>>::parse(made.as_str_repr()).unwrap(), made);
}

#[test]
fn equality_either_way_and_carried_over() {
    let a = any("x/y; a=1; b=\"2\"; c=3");
    let b = any("X/Y; c=3; a=\"1\"; B=2");
    let c = any("x/y; b=2; c=\"3\"; a=1");
    assert_eq!(a, a);
    assert_eq!(a, b);
    assert_eq!(b, a);
    assert_eq!(b, c);
    assert_eq!(a, c);
    assert_ne!(a, any("x/y; a=1; b=2"));
    assert_ne!(any("x/y; a=1; b=2"), a);
    let twice = any("x/y; p=1; p=2; q=3");
    assert_eq!(twice, twice);
    assert_ne!(twice, any("x/y; p=2; p=2; q=3"));
    assert_ne!(any("x/y; p=2; p=2; q=3"), twice);
}
