//! `==` for media types, names and values.
use vstd::prelude::*;
use vstd::std_specs::cmp::PartialEqSpecImpl;
use vstd::string::StringSliceAdditionalSpecFns;
use quoted_string::AsciiCaseInsensitiveEq;
use crate::media_type::AnyMediaType;
use crate::name::{name_eq, Name};
use crate::spec::Spec;
use crate::typed::MediaType;
use crate::value::{
    content_eq_ignore_ascii_case, plain_eq_plain_ignore_case, quoted_eq_plain_ignore_case,
    quoted_eq_quoted_ignore_case, value_content, value_eq, value_eq_ignore_ascii_case, Value,
};

verus! {

impl PartialEq for AnyMediaType {
    fn eq(&self, other: &AnyMediaType) -> (r: bool) {
        self.eq_media_type(other)
    }
}

impl PartialEqSpecImpl for AnyMediaType {
    open spec fn obeys_eq_spec() -> bool {
        true
    }

    open spec fn eq_spec(&self, other: &AnyMediaType) -> bool {
        self@.media_type_eq(other@)
    }
}

/// The grammar says which texts are media types, not what they mean: media
/// types of different grammars are compared like any others.
impl<S1: Spec, S2: Spec> PartialEq<MediaType<S2>> for MediaType<S1> {
    fn eq(&self, other: &MediaType<S2>) -> (r: bool) {
        self.as_any().eq_media_type(other.as_any())
    }
}

impl<S1: Spec, S2: Spec> PartialEqSpecImpl<MediaType<S2>> for MediaType<S1> {
    open spec fn obeys_eq_spec() -> bool {
        true
    }

    open spec fn eq_spec(&self, other: &MediaType<S2>) -> bool {
        self@.media_type_eq(other@)
    }
}

impl<'a, 'b> PartialEq<Name<'b>> for Name<'a> {
    fn eq(&self, other: &Name<'b>) -> (r: bool) {
        self.eq_name(other)
    }
}

impl<'a, 'b> PartialEqSpecImpl<Name<'b>> for Name<'a> {
    open spec fn obeys_eq_spec() -> bool {
        true
    }

    open spec fn eq_spec(&self, other: &Name<'b>) -> bool {
        name_eq(self.bytes(), other.bytes())
    }
}

impl<'a, 'b> PartialEq<&'b str> for Name<'a> {
    fn eq(&self, other: &&'b str) -> (r: bool) {
        self.eq_str(*other)
    }
}

impl<'a, 'b> PartialEqSpecImpl<&'b str> for Name<'a> {
    open spec fn obeys_eq_spec() -> bool {
        true
    }

    open spec fn eq_spec(&self, other: &&'b str) -> bool {
        name_eq(self.bytes(), other.spec_bytes())
    }
}

impl<'a, 'b> PartialEq<Value<'b>> for Value<'a> {
    fn eq(&self, other: &Value<'b>) -> (r: bool) {
        self.eq_value(other)
    }
}

impl<'a, 'b> PartialEqSpecImpl<Value<'b>> for Value<'a> {
    open spec fn obeys_eq_spec() -> bool {
        true
    }

    open spec fn eq_spec(&self, other: &Value<'b>) -> bool {
        value_eq(self.source@, other.source@)
    }
}

impl<'a> PartialEq<str> for Value<'a> {
    fn eq(&self, other: &str) -> (r: bool) {
        self.eq_str(other)
    }
}

impl<'a> PartialEqSpecImpl<str> for Value<'a> {
    open spec fn obeys_eq_spec() -> bool {
        true
    }

    open spec fn eq_spec(&self, other: &str) -> bool {
        value_content(self.source@) == Some(other@)
    }
}

impl<'a, 'b> PartialEq<&'b str> for Value<'a> {
    fn eq(&self, other: &&'b str) -> (r: bool) {
        self.eq_str(*other)
    }
}

impl<'a, 'b> PartialEqSpecImpl<&'b str> for Value<'a> {
    open spec fn obeys_eq_spec() -> bool {
        true
    }

    open spec fn eq_spec(&self, other: &&'b str) -> bool {
        value_content(self.source@) == Some(other@)
    }
}

impl<'a, 'b> PartialEq<Value<'b>> for &'a str {
    fn eq(&self, other: &Value<'b>) -> (r: bool) {
        other.eq_str(*self)
    }
}

impl<'a, 'b> PartialEqSpecImpl<Value<'b>> for &'a str {
    open spec fn obeys_eq_spec() -> bool {
        true
    }

    open spec fn eq_spec(&self, other: &Value<'b>) -> bool {
        value_content(other.source@) == Some(self@)
    }
}

impl<'a> PartialEq<Value<'a>> for str {
    fn eq(&self, other: &Value<'a>) -> (r: bool) {
        other.eq_str(self)
    }
}

impl<'a> PartialEqSpecImpl<Value<'a>> for str {
    open spec fn obeys_eq_spec() -> bool {
        true
    }

    open spec fn eq_spec(&self, other: &Value<'a>) -> bool {
        value_content(other.source@) == Some(self@)
    }
}

impl<'a> Eq for Value<'a> {
}

impl<'a, 'b> AsciiCaseInsensitiveEq<Value<'b>> for Value<'a> {
    /// Whether this value and `other` stand for the same content, whatever
    /// the case of its US-ASCII letters.
    fn eq_ignore_ascii_case(&self, other: &Value<'b>) -> (r: bool)
        ensures
            r == value_eq_ignore_ascii_case(self.source@, other.source@),
    {
        let left = self.is_quoted();
        let right = other.is_quoted();
        if left && right {
            quoted_eq_quoted_ignore_case(self.source, other.source)
        } else if left {
            quoted_eq_plain_ignore_case(self.source, other.source)
        } else if right {
            quoted_eq_plain_ignore_case(other.source, self.source)
        } else {
            plain_eq_plain_ignore_case(self.source, other.source)
        }
    }
}

impl<'a> AsciiCaseInsensitiveEq<str> for Value<'a> {
    fn eq_ignore_ascii_case(&self, other: &str) -> (r: bool)
        ensures
            r == content_eq_ignore_ascii_case(self.source@, other@),
    {
        self.eq_str_ignore_ascii_case(other)
    }
}

impl<'a> AsciiCaseInsensitiveEq<Value<'a>> for str {
    fn eq_ignore_ascii_case(&self, other: &Value<'a>) -> (r: bool)
        returns
            content_eq_ignore_ascii_case(other.source@, self@),
    {
        other.eq_str_ignore_ascii_case(self)
    }
}

impl<'a, 'b> AsciiCaseInsensitiveEq<&'b str> for Value<'a> {
    fn eq_ignore_ascii_case(&self, other: &&'b str) -> (r: bool)
        ensures
            r == content_eq_ignore_ascii_case(self.source@, other@),
    {
        self.eq_str_ignore_ascii_case(*other)
    }
}

impl<'a, 'b> AsciiCaseInsensitiveEq<Value<'a>> for &'b str {
    fn eq_ignore_ascii_case(&self, other: &Value<'a>) -> (r: bool)
        returns
            content_eq_ignore_ascii_case(other.source@, self@),
    {
        other.eq_str_ignore_ascii_case(*self)
    }
}

} // verus!
