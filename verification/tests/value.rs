use std::borrow::Cow;
use std::fmt::Debug;

use media_type::AsciiCaseInsensitiveEq;
use media_type::Value;

fn bidi_eq<A: Debug + PartialEq<B>, B: Debug + PartialEq<A>>(left: A, right: B) {
    assert_eq!(left, right);
    assert_eq!(right, left);
}

fn bidi_eq_iac<A: Debug + AsciiCaseInsensitiveEq<B>, B: Debug + AsciiCaseInsensitiveEq<A>>(
    left: A,
    right: B,
) {
    assert!(left.eq_ignore_ascii_case(&right));
    assert!(right.eq_ignore_ascii_case(&left));
}

fn bidi_ne_iac<A: Debug + AsciiCaseInsensitiveEq<B>, B: Debug + AsciiCaseInsensitiveEq<A>>(
    left: A,
    right: B,
) {
    assert!(!left.eq_ignore_ascii_case(&right));
    assert!(!right.eq_ignore_ascii_case(&left));
}

fn bidi_ne<A: Debug + PartialEq<B>, B: Debug + PartialEq<A>>(left: A, right: B) {
    assert_ne!(left, right);
    assert_ne!(right, left);
}

#[test]
fn test_value_eq_str() {
    let value = Value { source: "abc" };
    let value_quoted = Value { source: "\"abc\"" };
    let value_quoted_with_esacpes = Value { source: "\"a\\bc\"" };

    bidi_eq(value, "abc");
    bidi_ne(value, "\"abc\"");
    bidi_ne(value, "\"a\\bc\"");

    bidi_eq(value_quoted, "abc");
    bidi_ne(value_quoted, "\"abc\"");
    bidi_ne(value_quoted, "\"a\\bc\"");

    bidi_eq(value_quoted_with_esacpes, "abc");
    bidi_ne(value_quoted_with_esacpes, "\"abc\"");
    bidi_ne(value_quoted_with_esacpes, "\"a\\bc\"");

    assert_ne!(value, "aBc");
    assert_ne!(value_quoted, "aBc");
    assert_ne!(value_quoted_with_esacpes, "aBc");
}

#[test]
fn test_value_eq_value() {
    let value = Value { source: "abc" };
    let value_quoted = Value { source: "\"abc\"" };
    let value_quoted_with_esacpes = Value { source: "\"a\\bc\"" };
    assert_eq!(value, value);
    assert_eq!(value_quoted, value_quoted);
    assert_eq!(value_quoted_with_esacpes, value_quoted_with_esacpes);

    bidi_eq(value, value_quoted);
    bidi_eq(value, value_quoted_with_esacpes);
    bidi_eq(value_quoted, value_quoted_with_esacpes);
}

#[test]
fn as_str_repr() {
    let value = Value { source: "\"ab cd\"" };
    assert_eq!(value, "ab cd");
    assert_eq!(value.as_str_repr(), "\"ab cd\"");
}

#[test]
fn to_content_not_quoted() {
    let value = Value { source: "abc" };
    assert_eq!(value.to_content(), Cow::Borrowed("abc"));
}

#[test]
fn to_content_quoted_simple() {
    let value = Value { source: "\"ab cd\"" };
    assert_eq!(value.to_content(), Cow::Borrowed("ab cd"));
}

#[test]
fn to_content_with_quoted_pair() {
    let value = Value { source: "\"ab\\\"cd\"" };
    assert_eq!(value, "ab\"cd");
    let expected: Cow<'static, str> = Cow::Owned("ab\"cd".into());
    assert_eq!(value.to_content(), expected);
}

#[test]
fn value_eq_value_ignore_ascii_case() {
    let l = Value::new_unchecked("abc");
    let lq = Value::new_unchecked("\"abc\"");
    let c = Value::new_unchecked("ABC");
    let cq = Value::new_unchecked("\"ABC\"");

    assert!(l.eq_ignore_ascii_case(&l));
    assert!(c.eq_ignore_ascii_case(&c));
    assert!(lq.eq_ignore_ascii_case(&lq));
    assert!(cq.eq_ignore_ascii_case(&cq));
    bidi_eq_iac(l, lq);
    bidi_eq_iac(l, c);
    bidi_eq_iac(l, cq);
    bidi_eq_iac(lq, c);
    bidi_eq_iac(lq, cq);
    bidi_eq_iac(c, cq);
}

#[test]
fn value_eq_str() {
    let val = Value::new_unchecked("abc");

    bidi_eq(val, "abc");
    bidi_ne(val, "\"abc\"");
    bidi_eq_iac(val, "aBc");
    bidi_ne_iac(val, "\"aBc\"");

    assert_eq!(&val, "abc");
    assert_eq!("abc", &val);
    assert!(<str as AsciiCaseInsensitiveEq<Value>>::eq_ignore_ascii_case("aBc", &val));
    assert!(<Value as AsciiCaseInsensitiveEq<str>>::eq_ignore_ascii_case(&val, "aBc"));
}
