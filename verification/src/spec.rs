//! The grammar policies: which grammar a media type is held to.
//!
//! A policy is a type without values of interest. It stands for one of the
//! eight values of [`Policy`], by which the parser and the generator choose
//! the byte classes and the white space they admit.
use vstd::prelude::*;
use std::fmt::Debug;
use std::marker::PhantomData;
use vstd::string::StringSliceAdditionalSpecFns;
use crate::error::{ParserErrorKind, ParserErrorRef};
use crate::parse::impl_spec::{
    parse_space_for, parse_token_for, parse_unquoted_value_for, spec_quoted, spec_space,
    spec_token, spec_unquoted, spec_validate_token, validate_token_for,
};
use crate::parse::quoted::parse_quoted_string_for;
use crate::parse::{located_is, outcome_is};
use crate::seal::Seal;

verus! {

/// The grammars.
#[derive(Copy, Clone, Debug, PartialEq, Eq, Hash, Structural)]
pub enum Policy {
    /// What every other grammar accepts: names as they can be registered.
    Strict,
    /// HTTP, without its obsolete forms.
    HttpModern,
    /// HTTP, with its obsolete forms.
    HttpObs,
    /// MIME in US-ASCII, without its obsolete forms.
    MimeAsciiModern,
    /// MIME in US-ASCII, with its obsolete forms.
    MimeAsciiObs,
    /// Internationalized MIME, without its obsolete forms.
    MimeInternationalizedModern,
    /// Internationalized MIME, with its obsolete forms.
    MimeInternationalizedObs,
    /// What any of the other grammars accepts.
    Any,
}

/// The three kinds of token.
#[derive(Copy, Clone, Debug, PartialEq, Eq, Hash, Structural)]
pub enum TokenKind {
    /// A registrable name: at most 127 bytes, the first a letter or digit.
    Restricted,
    /// An HTTP token.
    Http,
    /// A MIME token.
    Mime,
}

impl Policy {
    /// The kind of token that names a type, a subtype or a parameter.
    pub open spec fn spec_token_kind(self) -> TokenKind {
        match self {
            Policy::Strict => TokenKind::Restricted,
            Policy::HttpModern | Policy::HttpObs => TokenKind::Http,
            _ => TokenKind::Mime,
        }
    }

    /// The kind of token that a parameter value without quotes is, and that
    /// needs no percent-encoding.
    pub open spec fn spec_value_kind(self) -> TokenKind {
        match self {
            Policy::Strict | Policy::HttpModern | Policy::HttpObs => TokenKind::Http,
            _ => TokenKind::Mime,
        }
    }

    /// Whether comments and line folds may stand between the parts.
    pub open spec fn spec_uses_cfws(self) -> bool {
        match self {
            Policy::Strict | Policy::HttpModern | Policy::HttpObs => false,
            _ => true,
        }
    }

    /// Whether comments and white space follow the obsolete grammar.
    pub open spec fn spec_obs(self) -> bool {
        match self {
            Policy::MimeAsciiObs | Policy::MimeInternationalizedObs | Policy::Any => true,
            _ => false,
        }
    }

    /// Whether bytes above `0x7f` count as comment text.
    pub open spec fn spec_utf8(self) -> bool {
        match self {
            Policy::MimeInternationalizedModern
            | Policy::MimeInternationalizedObs
            | Policy::Any => true,
            _ => false,
        }
    }

    /// A number for each grammar, from 0 for `Strict` to 7 for `Any`.
    pub open spec fn id(self) -> u8 {
        match self {
            Policy::Strict => 0,
            Policy::HttpModern => 1,
            Policy::HttpObs => 2,
            Policy::MimeAsciiModern => 3,
            Policy::MimeAsciiObs => 4,
            Policy::MimeInternationalizedModern => 5,
            Policy::MimeInternationalizedObs => 6,
            Policy::Any => 7,
        }
    }

    #[verifier::when_used_as_spec(spec_token_kind)]
    pub fn token_kind(self) -> (r: TokenKind)
        ensures
            r == self.spec_token_kind(),
    {
        match self {
            Policy::Strict => TokenKind::Restricted,
            Policy::HttpModern | Policy::HttpObs => TokenKind::Http,
            _ => TokenKind::Mime,
        }
    }

    #[verifier::when_used_as_spec(spec_value_kind)]
    pub fn value_kind(self) -> (r: TokenKind)
        ensures
            r == self.spec_value_kind(),
    {
        match self {
            Policy::Strict | Policy::HttpModern | Policy::HttpObs => TokenKind::Http,
            _ => TokenKind::Mime,
        }
    }

    #[verifier::when_used_as_spec(spec_uses_cfws)]
    pub fn uses_cfws(self) -> (r: bool)
        ensures
            r == self.spec_uses_cfws(),
    {
        match self {
            Policy::Strict | Policy::HttpModern | Policy::HttpObs => false,
            _ => true,
        }
    }
}

/// Chooses between the obsolete and the modern form of a grammar.
pub trait ObsNormalSwitch: Seal + Copy + Clone + Debug {
    /// Whether the obsolete forms are admitted.
    spec fn obs() -> bool;

    /// Whether the obsolete forms are admitted.
    fn is_obs() -> (r: bool)
        ensures
            r == Self::obs(),
    ;
}

/// Chooses between the US-ASCII and the internationalized form of a grammar.
pub trait InternationalizedSwitch: Seal + Copy + Clone + Debug {
    /// Whether bytes above `0x7f` are admitted.
    spec fn utf8() -> bool;

    /// Whether bytes above `0x7f` are admitted.
    fn is_utf8() -> (r: bool)
        ensures
            r == Self::utf8(),
    ;
}

/// With the obsolete forms.
#[derive(Copy, Clone, Debug, Default)]
pub struct Obs;

/// Without the obsolete forms.
#[derive(Copy, Clone, Debug, Default)]
pub struct Modern;

/// US-ASCII only.
#[derive(Copy, Clone, Debug, Default)]
pub struct Ascii;

/// With bytes above `0x7f`.
#[derive(Copy, Clone, Debug, Default)]
pub struct Internationalized;

impl Seal for Obs {
}

impl Seal for Modern {
}

impl Seal for Ascii {
}

impl Seal for Internationalized {
}

impl ObsNormalSwitch for Obs {
    open spec fn obs() -> bool {
        true
    }

    fn is_obs() -> (r: bool) {
        true
    }
}

impl ObsNormalSwitch for Modern {
    open spec fn obs() -> bool {
        false
    }

    fn is_obs() -> (r: bool) {
        false
    }
}

impl InternationalizedSwitch for Ascii {
    open spec fn utf8() -> bool {
        false
    }

    fn is_utf8() -> (r: bool) {
        false
    }
}

impl InternationalizedSwitch for Internationalized {
    open spec fn utf8() -> bool {
        true
    }

    fn is_utf8() -> (r: bool) {
        true
    }
}

/// The MIME grammars.
#[derive(Copy, Debug, Default)]
pub struct MimeSpec<TP: InternationalizedSwitch = Internationalized, O: ObsNormalSwitch = Obs>(
    pub PhantomData<(TP, O)>,
);

/// The HTTP grammars.
#[derive(Copy, Debug, Default)]
pub struct HttpSpec<O: ObsNormalSwitch = Obs>(pub PhantomData<O>);

impl<TP: InternationalizedSwitch, O: ObsNormalSwitch> Clone for MimeSpec<TP, O> {
    fn clone(&self) -> (r: Self)
        ensures
            r == *self,
    {
        MimeSpec(PhantomData)
    }
}

impl<O: ObsNormalSwitch> Clone for HttpSpec<O> {
    fn clone(&self) -> (r: Self)
        ensures
            r == *self,
    {
        HttpSpec(PhantomData)
    }
}

/// The grammar that every other grammar accepts.
#[derive(Copy, Clone, Debug, Default)]
pub struct StrictSpec;

/// The grammar that accepts what any other grammar accepts. It has to handle
/// the line folds and comments of MIME, which makes it slower than the HTTP
/// grammars.
#[derive(Copy, Clone, Debug, Default)]
pub struct AnySpec;

impl<T: InternationalizedSwitch, O: ObsNormalSwitch> Seal for MimeSpec<T, O> {
}

impl<O: ObsNormalSwitch> Seal for HttpSpec<O> {
}

impl Seal for StrictSpec {
}

impl Seal for AnySpec {
}

/// A type that stands for a grammar.
pub trait Grammar: Seal + Sized {
    /// The grammar that the type stands for.
    spec fn policy() -> Policy;

    /// The grammar that the type stands for.
    fn exec_policy() -> (p: Policy)
        ensures
            p == Self::policy(),
    ;
}

/// A grammar policy: what the grammar takes as a token, as white space and
/// as a value.
pub trait Spec: Grammar {

    /// The token at the start of `input` that names a type, a subtype or a
    /// parameter: its length.
    fn parse_token(input: &str) -> (r: Result<usize, ParserErrorRef<'_>>)
        ensures
            outcome_is(r, input, spec_token(Self::policy(), input.spec_bytes())),
    {
        parse_token_for(Self::exec_policy(), input)
    }

    /// What may stand between the parts of a media type, at the start of
    /// `input`: its length.
    fn parse_space(input: &str) -> (r: Result<usize, ParserErrorRef<'_>>)
        ensures
            located_is(r, input, spec_space(Self::policy(), input.spec_bytes())),
    {
        parse_space_for(Self::exec_policy(), input)
    }

    /// Checks that all of `input` is one token.
    fn validate_token(input: &str) -> (r: Result<(), ParserErrorRef<'_>>)
        ensures
            match r {
                Ok(()) => spec_validate_token(Self::policy(), input.spec_bytes()) == Ok::<
                    (),
                    ParserErrorKind,
                >(()),
                Err(e) => spec_validate_token(Self::policy(), input.spec_bytes()) == Err::<
                    (),
                    ParserErrorKind,
                >(e.kind) && e.input == input,
            },
    {
        validate_token_for(Self::exec_policy(), input)
    }

    /// The value without quotes at the start of `input`: its length.
    fn parse_unquoted_value(input: &str) -> (r: Result<usize, ParserErrorRef<'_>>)
        ensures
            outcome_is(r, input, spec_unquoted(Self::policy(), input.spec_bytes())),
    {
        parse_unquoted_value_for(Self::exec_policy(), input)
    }

    /// The quoted string at the start of `input`: its length.
    fn parse_quoted_string(input: &str) -> (r: Result<usize, ParserErrorRef<'_>>)
        ensures
            outcome_is(r, input, spec_quoted(Self::policy(), input.spec_bytes())),
    {
        parse_quoted_string_for(Self::exec_policy(), input)
    }
}

impl Spec for StrictSpec {
}

impl Grammar for StrictSpec {
    open spec fn policy() -> Policy {
        Policy::Strict
    }

    fn exec_policy() -> (p: Policy) {
        Policy::Strict
    }
}

impl Spec for AnySpec {
}

impl Grammar for AnySpec {
    open spec fn policy() -> Policy {
        Policy::Any
    }

    fn exec_policy() -> (p: Policy) {
        Policy::Any
    }
}

impl<O: ObsNormalSwitch> Spec for HttpSpec<O> {
}

impl<O: ObsNormalSwitch> Grammar for HttpSpec<O> {
    open spec fn policy() -> Policy {
        if O::obs() {
            Policy::HttpObs
        } else {
            Policy::HttpModern
        }
    }

    fn exec_policy() -> (p: Policy) {
        if O::is_obs() {
            Policy::HttpObs
        } else {
            Policy::HttpModern
        }
    }
}

impl<I: InternationalizedSwitch, O: ObsNormalSwitch> Spec for MimeSpec<I, O> {
}

impl<I: InternationalizedSwitch, O: ObsNormalSwitch> Grammar for MimeSpec<I, O> {
    open spec fn policy() -> Policy {
        if I::utf8() {
            if O::obs() {
                Policy::MimeInternationalizedObs
            } else {
                Policy::MimeInternationalizedModern
            }
        } else {
            if O::obs() {
                Policy::MimeAsciiObs
            } else {
                Policy::MimeAsciiModern
            }
        }
    }

    fn exec_policy() -> (p: Policy) {
        if I::is_utf8() {
            if O::is_obs() {
                Policy::MimeInternationalizedObs
            } else {
                Policy::MimeInternationalizedModern
            }
        } else {
            if O::is_obs() {
                Policy::MimeAsciiObs
            } else {
                Policy::MimeAsciiModern
            }
        }
    }
}

} // verus!
