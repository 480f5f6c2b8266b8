use media_type::error::{Error, ErrorKind, ExpectedChar};
use media_type::spec::{
    AnySpec, Ascii, HttpSpec, Internationalized, MimeSpec, Modern, Obs, StrictSpec,
};
use media_type::{push_params_to_buffer, AnyMediaType, MediaType, PLAIN, TEXT};

fn no_params() -> Vec<(&'static str, &'static str)> {
    Vec::new()
}

#[test]
fn simple_parse() {
    let mt: MediaType<_> = MediaType::<AnySpec>::parse("text/plain; charset=utf-8").unwrap();
    assert!(mt.has_utf8_charset());
    assert_eq!(mt.as_str_repr(), "text/plain; charset=utf-8");
}

#[test]
fn parsing_does_not_normalizes_whitespaces() {
    let mt: MediaType<_> = MediaType::<AnySpec>::parse("text/plain   ;charset=utf-8").unwrap();
    assert!(mt.has_utf8_charset());
    assert_eq!(mt.as_str_repr(), "text/plain   ;charset=utf-8");
}

#[test]
fn parsing_does_not_normalized_utf8() {
    let mt: MediaType<_> = MediaType::<AnySpec>::parse("text/plain; charset=utf8").unwrap();
    assert!(mt.has_utf8_charset());
    assert_eq!(mt.as_str_repr(), "text/plain; charset=utf8");
}

#[test]
fn params_iter_behaviour() {
    let mt: MediaType<AnySpec> = MediaType::parse("test/plain; c1=abc; c2=def").unwrap();
    let mut iter = mt.params();
    assert_eq!(iter.len(), 2);
    assert_eq!(iter.size_hint(), (2, Some(2)));

    let p1 = iter.next().unwrap();
    assert_eq!(p1.0, "c1");
    assert_eq!(p1.1, "abc");
    assert_eq!(iter.len(), 1);
    assert_eq!(iter.size_hint(), (1, Some(1)));

    let p1 = iter.next().unwrap();
    assert_eq!(p1.0, "c2");
    assert_eq!(p1.1, "def");
    assert_eq!(iter.len(), 0);
    assert_eq!(iter.size_hint(), (0, Some(0)));

    assert_eq!(iter.next(), None);
}

#[test]
fn any_media_type_eq() {
    let mt1: AnyMediaType =
        MediaType::<AnySpec>::parse("text/plain; p1=\"a\"; p2=b").unwrap().into();
    let mt2: AnyMediaType =
        MediaType::<AnySpec>::parse("text/plain; p2=\"b\"; p1=a").unwrap().into();

    assert_eq!(mt1, mt2);
}

#[test]
fn media_type_eq_different_spec() {
    let mt1 = MediaType::<AnySpec>::parse("text/plain; p1=\"a\"; p2=b").unwrap();
    let mt2 = MediaType::<StrictSpec>::parse("text/plain; p2=\"b\"; p1=a").unwrap();

    assert_eq!(mt1, mt2);
}

#[test]
fn accepts_name_struct() {
    let mt = MediaType::<HttpSpec>::new(TEXT, PLAIN).unwrap();
    assert_eq!(mt.as_str_repr(), "text/plain");
}

#[test]
fn media_type_validates_type() {
    let mt = MediaType::<HttpSpec>::new("ba{d", "ok");
    assert_eq!(
        mt,
        Err(Error::new(
            "ba{d",
            ErrorKind::UnexpectedChar { pos: 2, expected: ExpectedChar::CharClass("token char") }
        ))
    )
}

#[test]
fn media_type_validates_subtype() {
    let mt = MediaType::<HttpSpec>::new("text", "n[k");
    assert_eq!(
        mt,
        Err(Error::new(
            "n[k",
            ErrorKind::UnexpectedChar { pos: 1, expected: ExpectedChar::CharClass("token char") }
        ))
    );
}

#[test]
fn parses_typical_type() {
    let mt = MediaType::<HttpSpec>::new("text", "x.example.imagination.rawtext+xml").unwrap();
    assert_eq!(mt.as_str_repr(), "text/x.example.imagination.rawtext+xml")
}

#[test]
fn new_with_params_validates_type() {
    let mt = MediaType::<HttpSpec>::new_with_params("ba{d", "ok", no_params());
    assert_eq!(
        mt,
        Err(Error::new(
            "ba{d",
            ErrorKind::UnexpectedChar { pos: 2, expected: ExpectedChar::CharClass("token char") }
        ))
    )
}

#[test]
fn new_with_params_validates_subtype() {
    let mt = MediaType::<HttpSpec>::new_with_params("text", "n[k", no_params());
    assert_eq!(
        mt,
        Err(Error::new(
            "n[k",
            ErrorKind::UnexpectedChar { pos: 1, expected: ExpectedChar::CharClass("token char") }
        ))
    );
}

#[test]
fn validates_parameter_names() {
    let mt = MediaType::<HttpSpec>::new_with_params(
        "text",
        "x.my",
        vec![("good", "value"), ("b[ad]", "key")],
    );
    assert_eq!(
        mt,
        Err(Error::new(
            "b[ad]",
            ErrorKind::UnexpectedChar { pos: 1, expected: ExpectedChar::CharClass("token char") }
        ))
    )
}

#[test]
fn simple_creation_works() {
    let mt = MediaType::<HttpSpec>::new_with_params("text", "plain", no_params());
    assert_eq!(mt.unwrap().as_str_repr(), "text/plain")
}

#[test]
fn creation_with_parameters_works() {
    let mt = MediaType::<HttpSpec>::new_with_params("text", "plain", vec![("charset", "utf-8")]);
    assert_eq!(mt.unwrap().as_str_repr(), "text/plain; charset=utf-8");
}

#[test]
fn use_quoting_if_needed() {
    let mt = MediaType::<HttpSpec>::new_with_params(
        "text",
        "x.plain",
        vec![("charset", "utf-8"), ("source", "dat file")],
    );
    assert_eq!(mt.unwrap().as_str_repr(), "text/x.plain; charset=utf-8; source=\"dat file\"");
}

#[test]
fn use_quoted_pair_if_needed() {
    let mt =
        MediaType::<HttpSpec>::new_with_params("text", "x.mage", vec![("comment", "it\"has")]);
    assert_eq!(mt.unwrap().as_str_repr(), r#"text/x.mage; comment="it\"has""#);
}

#[test]
fn use_perc_encode_for_values_if_needed() {
    let mt = MediaType::<HttpSpec>::new_with_params("text", "x.my", vec![("key", "va\0lue")]);
    assert_eq!(mt.unwrap().as_str_repr(), "text/x.my; key*=utf-8''va%00lue")
}

#[test]
fn in_mime_obs_0_is_quoted() {
    let mt = MediaType::<MimeSpec>::new_with_params("text", "x.my", vec![("foo", "b\0r")]);
    assert_eq!(mt.unwrap().as_str_repr(), "text/x.my; foo=\"b\\\0r\"");
}

#[test]
fn in_mime_modern_0_is_pencoded() {
    let mt = MediaType::<MimeSpec<Ascii, Modern>>::new_with_params(
        "text",
        "x.my",
        vec![("foo", "b\0r")],
    );
    assert_eq!(mt.unwrap().as_str_repr(), "text/x.my; foo*=utf-8''b%00r");
}

#[test]
fn media_type_conversion_mime() {
    let top = MediaType::<StrictSpec>::parse("text/plain").unwrap();

    let m_mam: MediaType<MimeSpec<Ascii, Modern>> = top.clone().into();
    assert_eq!(m_mam.as_str_repr(), "text/plain");
    let m_mao: MediaType<MimeSpec<Ascii, Obs>> = top.clone().into();
    assert_eq!(m_mao.as_str_repr(), "text/plain");
    let m_mim: MediaType<MimeSpec<Internationalized, Modern>> = m_mam.clone().into();
    assert_eq!(m_mim.as_str_repr(), "text/plain");
    let m_mio1: MediaType<MimeSpec<Internationalized, Obs>> = m_mao.clone().into();
    assert_eq!(m_mio1.as_str_repr(), "text/plain");
    let m_mio2: MediaType<MimeSpec<Internationalized, Obs>> = m_mim.clone().into();
    assert_eq!(m_mio2.as_str_repr(), "text/plain");
    let m_mio3: MediaType<MimeSpec<Internationalized, Obs>> = m_mam.clone().into();
    assert_eq!(m_mio3.as_str_repr(), "text/plain");

    let m_mim2: MediaType<MimeSpec<Internationalized, Modern>> = top.clone().into();
    assert_eq!(m_mam.as_str_repr(), "text/plain");
    let m_mio4: MediaType<MimeSpec<Internationalized, Obs>> = top.clone().into();
    assert_eq!(m_mao.as_str_repr(), "text/plain");

    let m_as: &[MediaType<AnySpec>] = &[
        m_mam.into(),
        m_mao.into(),
        m_mim.into(),
        m_mim2.into(),
        m_mio1.into(),
        m_mio2.into(),
        m_mio3.into(),
        m_mio4.into(),
    ];
    for m_a in m_as.iter() {
        assert_eq!(m_a.as_str_repr(), "text/plain");
    }
}

#[test]
fn media_type_conversion_http() {
    let top = MediaType::<StrictSpec>::parse("text/plain").unwrap();

    let m_o: MediaType<HttpSpec<Obs>> = top.clone().into();
    assert_eq!(m_o.as_str_repr(), "text/plain");
    let m_m: MediaType<HttpSpec<Modern>> = top.clone().into();
    assert_eq!(m_m.as_str_repr(), "text/plain");
    let m_o2: MediaType<HttpSpec<Obs>> = m_m.clone().into();
    assert_eq!(m_o2.as_str_repr(), "text/plain");

    let m_as: &[MediaType<AnySpec>] = &[m_m.into(), m_o.into(), m_o2.into()];
    for m_a in m_as.iter() {
        assert_eq!(m_a.as_str_repr(), "text/plain");
    }
}

#[test]
fn is_multipart() {
    let mt = MediaType::<HttpSpec>::new("multipart", "mixed").unwrap();
    assert_eq!(mt.is_multipart(), true);
    let mt = MediaType::<HttpSpec>::new("application", "text").unwrap();
    assert_eq!(mt.is_multipart(), false);
}

#[test]
fn see_if_everything_needed_is_exposed() {
    let mut buffer = String::new();

    let res = push_params_to_buffer::<MimeSpec<Ascii, Modern>>(
        &mut buffer,
        vec![("key", "value"), ("key2", "va\x01ue")],
    )
    .unwrap();

    let out = res
        .iter()
        .map(|indices| {
            let key = &buffer[indices.start..indices.eq_idx];
            let val = &buffer[indices.eq_idx + 1..indices.end];
            (key, val)
        })
        .collect::<Vec<_>>();

    assert_eq!(out, vec![("key", "value"), ("key2*", "utf-8''va%01ue")]);
}
