//! What each grammar admits inside and outside of a quoted string.
//!
//! The types of this module are the rules that the `quoted_string` crate is
//! run with: which bytes may stand in a quoted string, which of them need a
//! backslash, and which values need no quotes at all.
use vstd::prelude::*;
use std::fmt::Debug;
use quoted_string::error::CoreError;
use quoted_string::spec::{
    ParsingImpl, PartialCodePoint, QuotingClass, QuotingClassifier, State, WithoutQuotingValidator,
};
use crate::chars::{
    is_alphanumeric_byte, is_dquote_or_escape_byte, is_http_token_byte, is_obs_no_ws_ctl_byte,
    is_qtext_byte, is_restricted_token_byte, is_token_byte, is_vchar_byte, is_ws_byte,
    lookup_dquote_or_escape, lookup_http_token, lookup_obs_no_ws_ctl, lookup_qtext,
    lookup_qtext_ws, lookup_restricted_token, lookup_token, lookup_vchar_ws, lookup_ws,
};

verus! {

/// The byte that `quoted_string` hands to the rules of a scan. What it holds
/// is [`held_byte`], read with [`byte_of`].
#[verifier::external_type_specification]
#[verifier::external_body]
pub struct ExPartialCodePoint(quoted_string::spec::PartialCodePoint);

/// The classes of `quoted_string` for quoting, with their variants: text,
/// in need of a backslash, or not to be had in a quoted string.
#[verifier::external_type_specification]
pub struct ExQuotingClass(quoted_string::spec::QuotingClass);

/// The causes of `quoted_string` for refusing a value, with their variants.
#[verifier::external_type_specification]
pub struct ExCoreError(quoted_string::error::CoreError);

/// The states of the scan of `quoted_string`, with their variants.
#[verifier::external_type_specification]
#[verifier::reject_recursive_types(T)]
pub struct ExState<T: Copy + Eq + std::fmt::Debug>(quoted_string::spec::State<T>);

/// The byte that a `PartialCodePoint` holds: a byte of the text that the
/// scan is looking at, or `0xff` for a character outside US-ASCII where the
/// scan goes by characters.
pub uninterp spec fn held_byte(pcp: PartialCodePoint) -> u8;

/// `PartialCodePoint::as_u8`: hands out the byte that the value holds.
#[verifier::external_body]
pub(crate) fn byte_of(pcp: PartialCodePoint) -> (b: u8)
    ensures
        b == held_byte(pcp),
{
    pcp.as_u8()
}

/// Decides byte by byte whether a value can stand without quotes.
///
/// A validator is fed the bytes of a value in order. It refuses a byte
/// without changing, and says at the end whether what it took may stand.
pub trait TokenValidator: Sized {
    /// Whether the validator takes `b` next.
    spec fn takes(&self, b: u8) -> bool;

    /// The validator after it took `b`.
    spec fn after(&self, b: u8) -> Self;

    /// Whether the bytes taken so far may stand as they are. That there is
    /// at least one byte is for the caller to see.
    spec fn may_end(&self) -> bool;

    /// Feeds `b`: takes it and moves on, or refuses it and stays.
    fn feed(&mut self, b: u8) -> (r: bool)
        ensures
            r == old(self).takes(b),
            *final(self) == (if r {
                old(self).after(b)
            } else {
                *old(self)
            }),
    ;

    /// Whether the bytes taken so far may stand as they are.
    fn finish(&self) -> (r: bool)
        ensures
            r == self.may_end(),
    ;

    /// A validator takes US-ASCII bytes only, and neither `"` nor `\`.
    proof fn lemma_takes_ascii(&self, b: u8)
        requires
            self.takes(b),
        ensures
            b <= 0x7f,
            b != 0x22,
            b != 0x5c,
    ;
}

/// Takes the bytes of a registrable name: a letter or digit first, then
/// restricted token bytes, at most 127 in all.
#[derive(Copy, Clone, Debug, PartialEq, Eq, Hash)]
pub struct RestrictedTokenValidator {
    /// How many bytes were taken, as far as a `usize` counts.
    pub count: usize,
}

impl RestrictedTokenValidator {
    /// A validator that took nothing yet.
    pub fn new() -> (r: Self)
        ensures
            r.count == 0,
    {
        RestrictedTokenValidator { count: 0 }
    }
}

impl TokenValidator for RestrictedTokenValidator {
    open spec fn takes(&self, b: u8) -> bool {
        if self.count == 0 {
            is_alphanumeric_byte(b)
        } else {
            is_restricted_token_byte(b)
        }
    }

    open spec fn after(&self, b: u8) -> Self {
        RestrictedTokenValidator {
            count: if self.count < usize::MAX {
                (self.count + 1) as usize
            } else {
                self.count
            },
        }
    }

    open spec fn may_end(&self) -> bool {
        0 < self.count < 128
    }

    fn feed(&mut self, b: u8) -> (r: bool) {
        let res = if self.count == 0 {
            (0x30 <= b && b <= 0x39) || (0x41 <= b && b <= 0x5a) || (0x61 <= b && b <= 0x7a)
        } else {
            lookup_restricted_token(b)
        };
        if res && self.count < usize::MAX {
            self.count += 1;
        }
        res
    }

    fn finish(&self) -> (r: bool) {
        0 < self.count && self.count < 128
    }

    proof fn lemma_takes_ascii(&self, b: u8) {
    }
}

/// Hands the validator to `quoted_string`.
impl WithoutQuotingValidator for RestrictedTokenValidator {
    fn next(&mut self, pcp: PartialCodePoint) -> (r: bool)
        ensures
            r == old(self).takes(held_byte(pcp)),
            *final(self) == (if r {
                old(self).after(held_byte(pcp))
            } else {
                *old(self)
            }),
    {
        self.feed(byte_of(pcp))
    }

    fn end(&self) -> (r: bool)
        ensures
            r == self.may_end(),
    {
        self.finish()
    }
}

/// Takes the bytes of an HTTP token.
#[derive(Copy, Clone, Debug, PartialEq, Eq, Hash)]
pub struct HttpTokenValidator;

impl HttpTokenValidator {
    /// The validator, which has no state.
    pub fn new() -> (r: Self)
        ensures
            r == HttpTokenValidator,
    {
        HttpTokenValidator
    }
}

impl TokenValidator for HttpTokenValidator {
    open spec fn takes(&self, b: u8) -> bool {
        is_http_token_byte(b)
    }

    open spec fn after(&self, b: u8) -> Self {
        *self
    }

    open spec fn may_end(&self) -> bool {
        true
    }

    fn feed(&mut self, b: u8) -> (r: bool) {
        lookup_http_token(b)
    }

    fn finish(&self) -> (r: bool) {
        true
    }

    proof fn lemma_takes_ascii(&self, b: u8) {
    }
}

/// Hands the validator to `quoted_string`.
impl WithoutQuotingValidator for HttpTokenValidator {
    fn next(&mut self, pcp: PartialCodePoint) -> (r: bool)
        ensures
            r == old(self).takes(held_byte(pcp)),
            *final(self) == (if r {
                old(self).after(held_byte(pcp))
            } else {
                *old(self)
            }),
    {
        self.feed(byte_of(pcp))
    }

    fn end(&self) -> (r: bool)
        ensures
            r == self.may_end(),
    {
        self.finish()
    }
}

/// Takes the bytes of a MIME token.
#[derive(Copy, Clone, Debug, PartialEq, Eq, Hash)]
pub struct MimeTokenValidator {
    pub len_valid: bool,
}

impl MimeTokenValidator {
    /// A validator that took nothing yet.
    pub fn new() -> (r: Self)
        ensures
            r == (MimeTokenValidator { len_valid: false }),
    {
        MimeTokenValidator { len_valid: false }
    }
}

impl TokenValidator for MimeTokenValidator {
    open spec fn takes(&self, b: u8) -> bool {
        is_token_byte(b)
    }

    open spec fn after(&self, b: u8) -> Self {
        *self
    }

    open spec fn may_end(&self) -> bool {
        true
    }

    fn feed(&mut self, b: u8) -> (r: bool) {
        lookup_token(b)
    }

    fn finish(&self) -> (r: bool) {
        true
    }

    proof fn lemma_takes_ascii(&self, b: u8) {
    }
}

/// Hands the validator to `quoted_string`.
impl WithoutQuotingValidator for MimeTokenValidator {
    fn next(&mut self, pcp: PartialCodePoint) -> (r: bool)
        ensures
            r == old(self).takes(held_byte(pcp)),
            *final(self) == (if r {
                old(self).after(held_byte(pcp))
            } else {
                *old(self)
            }),
    {
        self.feed(byte_of(pcp))
    }

    fn end(&self) -> (r: bool)
        ensures
            r == self.may_end(),
    {
        self.finish()
    }
}

/// How the catch-all grammar classes a byte for quoting: `"` and `\` need a
/// backslash, every other byte is text.
pub open spec fn any_quoting_class(b: u8) -> QuotingClass {
    if is_dquote_or_escape_byte(b) {
        QuotingClass::NeedsQuoting
    } else {
        QuotingClass::QText
    }
}

/// How the modern US-ASCII grammars class a byte for quoting: quoted-string
/// text, space and tab are text, `"` and `\` need a backslash, and no other
/// byte can stand in a quoted string.
pub open spec fn normal_quoting_class(b: u8) -> QuotingClass {
    if is_qtext_byte(b) || is_ws_byte(b) {
        QuotingClass::QText
    } else if is_dquote_or_escape_byte(b) {
        QuotingClass::NeedsQuoting
    } else {
        QuotingClass::Invalid
    }
}

/// As [`normal_quoting_class`], with every byte above `0x7f` as text.
pub open spec fn utf8_quoting_class(b: u8) -> QuotingClass {
    if b > 0x7f {
        QuotingClass::QText
    } else {
        normal_quoting_class(b)
    }
}

/// How obsolete US-ASCII MIME classes a byte for quoting: quoted-string
/// text, space and tab are text, every other US-ASCII byte needs a
/// backslash, and no byte above `0x7f` can stand in a quoted string.
pub open spec fn mime_obs_quoting_class(b: u8) -> QuotingClass {
    if is_qtext_byte(b) || is_ws_byte(b) {
        QuotingClass::QText
    } else if b <= 0x7f {
        QuotingClass::NeedsQuoting
    } else {
        QuotingClass::Invalid
    }
}

/// How obsolete internationalized MIME classes a byte for quoting: as
/// [`mime_obs_quoting_class`], with every byte above `0x7f` as text.
pub open spec fn mime_obs_utf8_quoting_class(b: u8) -> QuotingClass {
    if b > 0x7f || is_qtext_byte(b) || is_ws_byte(b) {
        QuotingClass::QText
    } else {
        QuotingClass::NeedsQuoting
    }
}

/// The quoting of the catch-all grammar.
#[derive(Copy, Clone, Debug, PartialEq, Eq, Hash)]
pub struct AnyQuoting;

impl AnyQuoting {
    pub fn classify(b: u8) -> (r: QuotingClass)
        ensures
            r == any_quoting_class(b),
    {
        if b == 0x22 || b == 0x5c {
            QuotingClass::NeedsQuoting
        } else {
            QuotingClass::QText
        }
    }
}

/// Hands the classes to `quoted_string`.
impl QuotingClassifier for AnyQuoting {
    fn classify_for_quoting(pcp: PartialCodePoint) -> (r: QuotingClass)
        ensures
            r == any_quoting_class(held_byte(pcp)),
    {
        AnyQuoting::classify(byte_of(pcp))
    }
}

/// The quoting of the modern US-ASCII grammars.
#[derive(Copy, Clone, Debug, PartialEq, Eq, Hash)]
pub struct NormalQuoting;

impl NormalQuoting {
    pub fn classify(b: u8) -> (r: QuotingClass)
        ensures
            r == normal_quoting_class(b),
    {
        if lookup_qtext_ws(b) {
            QuotingClass::QText
        } else if lookup_dquote_or_escape(b) && b <= 0x7f {
            QuotingClass::NeedsQuoting
        } else {
            QuotingClass::Invalid
        }
    }
}

/// Hands the classes to `quoted_string`.
impl QuotingClassifier for NormalQuoting {
    fn classify_for_quoting(pcp: PartialCodePoint) -> (r: QuotingClass)
        ensures
            r == normal_quoting_class(held_byte(pcp)),
    {
        NormalQuoting::classify(byte_of(pcp))
    }
}

/// The quoting of obsolete HTTP and of modern internationalized MIME.
#[derive(Copy, Clone, Debug, PartialEq, Eq, Hash)]
pub struct HttpObsQuoting;

impl HttpObsQuoting {
    pub fn classify(b: u8) -> (r: QuotingClass)
        ensures
            r == utf8_quoting_class(b),
    {
        if b > 0x7f || lookup_qtext_ws(b) {
            QuotingClass::QText
        } else if lookup_dquote_or_escape(b) {
            QuotingClass::NeedsQuoting
        } else {
            QuotingClass::Invalid
        }
    }
}

/// Hands the classes to `quoted_string`.
impl QuotingClassifier for HttpObsQuoting {
    fn classify_for_quoting(pcp: PartialCodePoint) -> (r: QuotingClass)
        ensures
            r == utf8_quoting_class(held_byte(pcp)),
    {
        HttpObsQuoting::classify(byte_of(pcp))
    }
}

/// The quoting of obsolete US-ASCII MIME.
#[derive(Copy, Clone, Debug, PartialEq, Eq, Hash)]
pub struct MimeObsQuoting;

impl MimeObsQuoting {
    pub fn classify(b: u8) -> (r: QuotingClass)
        ensures
            r == mime_obs_quoting_class(b),
    {
        if lookup_qtext_ws(b) {
            QuotingClass::QText
        } else if b <= 0x7f {
            QuotingClass::NeedsQuoting
        } else {
            QuotingClass::Invalid
        }
    }
}

/// Hands the classes to `quoted_string`.
impl QuotingClassifier for MimeObsQuoting {
    fn classify_for_quoting(pcp: PartialCodePoint) -> (r: QuotingClass)
        ensures
            r == mime_obs_quoting_class(held_byte(pcp)),
    {
        MimeObsQuoting::classify(byte_of(pcp))
    }
}

/// The quoting of obsolete internationalized MIME.
#[derive(Copy, Clone, Debug, PartialEq, Eq, Hash)]
pub struct MimeObsUtf8Quoting;

impl MimeObsUtf8Quoting {
    pub fn classify(b: u8) -> (r: QuotingClass)
        ensures
            r == mime_obs_utf8_quoting_class(b),
    {
        if b > 0x7f || lookup_qtext_ws(b) {
            QuotingClass::QText
        } else {
            QuotingClass::NeedsQuoting
        }
    }
}

/// Hands the classes to `quoted_string`.
impl QuotingClassifier for MimeObsUtf8Quoting {
    fn classify_for_quoting(pcp: PartialCodePoint) -> (r: QuotingClass)
        ensures
            r == mime_obs_utf8_quoting_class(held_byte(pcp)),
    {
        MimeObsUtf8Quoting::classify(byte_of(pcp))
    }
}

/// What a scan in its normal state does with a byte that is neither `"` nor
/// `\`: it stays and takes the byte as text, or fails on it.
pub open spec fn text_step<T: Copy + Eq + Debug>(is_text: bool) -> Result<
    (State<T>, bool),
    CoreError,
> {
    if is_text {
        Ok((State::Normal, true))
    } else {
        Err(CoreError::InvalidChar)
    }
}

/// The scan of the catch-all grammar: every byte is text, every byte may
/// follow a backslash.
#[derive(Copy, Clone, Debug, PartialEq, Eq, Hash)]
pub struct AnyParsingImpl;

impl AnyParsingImpl {
    pub fn quotable(b: u8) -> (r: bool)
        ensures
            r,
    {
        true
    }

    pub fn normal_state(b: u8) -> (r: Result<(State<Self>, bool), CoreError>)
        ensures
            r == text_step::<Self>(true),
    {
        Ok((State::Normal, true))
    }
}

/// Hands the rules of the scan to `quoted_string`.
impl ParsingImpl for AnyParsingImpl {
    fn can_be_quoted(bch: PartialCodePoint) -> (r: bool)
        ensures
            r,
    {
        AnyParsingImpl::quotable(byte_of(bch))
    }

    fn handle_normal_state(bch: PartialCodePoint) -> (r: Result<(State<Self>, bool), CoreError>)
        ensures
            r == text_step::<Self>(true),
    {
        AnyParsingImpl::normal_state(byte_of(bch))
    }
}

/// The scan of modern HTTP: quoted-string text, space and tab are text; any
/// printable US-ASCII byte, a space or a tab may follow a backslash.
#[derive(Copy, Clone, Debug, PartialEq, Eq, Hash)]
pub struct NormalParsingImpl;

impl NormalParsingImpl {
    pub fn quotable(b: u8) -> (r: bool)
        ensures
            r == (is_vchar_byte(b) || is_ws_byte(b)),
    {
        lookup_vchar_ws(b)
    }

    pub fn normal_state(b: u8) -> (r: Result<(State<Self>, bool), CoreError>)
        ensures
            r == text_step::<Self>(is_qtext_byte(b) || is_ws_byte(b)),
    {
        if lookup_qtext_ws(b) {
            Ok((State::Normal, true))
        } else {
            Err(CoreError::InvalidChar)
        }
    }
}

/// Hands the rules of the scan to `quoted_string`.
impl ParsingImpl for NormalParsingImpl {
    fn can_be_quoted(bch: PartialCodePoint) -> (r: bool)
        ensures
            r == (is_vchar_byte(held_byte(bch)) || is_ws_byte(held_byte(bch))),
    {
        NormalParsingImpl::quotable(byte_of(bch))
    }

    fn handle_normal_state(bch: PartialCodePoint) -> (r: Result<(State<Self>, bool), CoreError>)
        ensures
            r == text_step::<Self>(is_qtext_byte(held_byte(bch)) || is_ws_byte(held_byte(bch))),
    {
        NormalParsingImpl::normal_state(byte_of(bch))
    }
}

/// The scan of the strict grammar: quoted-string text, space and tab are
/// text; only `"` and `\` may follow a backslash.
#[derive(Copy, Clone, Debug, PartialEq, Eq, Hash)]
pub struct StrictParsingImpl;

impl StrictParsingImpl {
    pub fn quotable(b: u8) -> (r: bool)
        ensures
            r == is_dquote_or_escape_byte(b),
    {
        b == 0x22 || b == 0x5c
    }

    pub fn normal_state(b: u8) -> (r: Result<(State<Self>, bool), CoreError>)
        ensures
            r == text_step::<Self>(is_qtext_byte(b) || is_ws_byte(b)),
    {
        if lookup_qtext_ws(b) {
            Ok((State::Normal, true))
        } else {
            Err(CoreError::InvalidChar)
        }
    }
}

/// Hands the rules of the scan to `quoted_string`.
impl ParsingImpl for StrictParsingImpl {
    fn can_be_quoted(bch: PartialCodePoint) -> (r: bool)
        ensures
            r == is_dquote_or_escape_byte(held_byte(bch)),
    {
        StrictParsingImpl::quotable(byte_of(bch))
    }

    fn handle_normal_state(bch: PartialCodePoint) -> (r: Result<(State<Self>, bool), CoreError>)
        ensures
            r == text_step::<Self>(is_qtext_byte(held_byte(bch)) || is_ws_byte(held_byte(bch))),
    {
        StrictParsingImpl::normal_state(byte_of(bch))
    }
}

/// The scan of obsolete HTTP: quoted-string text, space, tab and every byte
/// above `0x7f` are text, and the same bytes may follow a backslash.
#[derive(Copy, Clone, Debug, PartialEq, Eq, Hash)]
pub struct HttpObsParsingImpl;

impl HttpObsParsingImpl {
    pub fn quotable(b: u8) -> (r: bool)
        ensures
            r == (b > 0x7f || is_qtext_byte(b) || is_ws_byte(b)),
    {
        b > 0x7f || lookup_qtext_ws(b)
    }

    pub fn normal_state(b: u8) -> (r: Result<(State<Self>, bool), CoreError>)
        ensures
            r == text_step::<Self>(b > 0x7f || is_qtext_byte(b) || is_ws_byte(b)),
    {
        if b > 0x7f || lookup_qtext_ws(b) {
            Ok((State::Normal, true))
        } else {
            Err(CoreError::InvalidChar)
        }
    }
}

/// Hands the rules of the scan to `quoted_string`.
impl ParsingImpl for HttpObsParsingImpl {
    fn can_be_quoted(bch: PartialCodePoint) -> (r: bool)
        ensures
            r == (held_byte(bch) > 0x7f || is_qtext_byte(held_byte(bch)) || is_ws_byte(held_byte(bch))),
    {
        HttpObsParsingImpl::quotable(byte_of(bch))
    }

    fn handle_normal_state(bch: PartialCodePoint) -> (r: Result<(State<Self>, bool), CoreError>)
        ensures
            r == text_step::<Self>(
                held_byte(bch) > 0x7f || is_qtext_byte(held_byte(bch)) || is_ws_byte(held_byte(bch)),
            ),
    {
        HttpObsParsingImpl::normal_state(byte_of(bch))
    }
}

/// Where a scan stands inside folding white space.
#[derive(Copy, Clone, Debug, PartialEq, Eq, Hash, Structural)]
pub enum FWSState {
    /// After a carriage return.
    HitCr,
    /// After a carriage return and a line feed.
    HitNl,
    /// After a complete fold and any white space behind it.
    HadFws,
}

/// The two switches of a MIME grammar, and how its scan holds a place inside
/// folding white space.
pub trait MimeParsingExt: Copy + Eq + Debug + Sized {
    /// Whether bytes above `0x7f` count as text.
    spec fn allow_utf8() -> bool;

    /// Whether the obsolete forms are admitted.
    spec fn obs() -> bool;

    /// Whether bytes above `0x7f` count as text.
    fn is_utf8_allowed() -> (r: bool)
        ensures
            r == Self::allow_utf8(),
    ;

    /// Whether the obsolete forms are admitted.
    fn is_obs() -> (r: bool)
        ensures
            r == Self::obs(),
    ;

    /// The scan at the place `state` of folding white space, paired with
    /// `emit`.
    spec fn spec_custom_state(state: FWSState, emit: bool) -> (State<Self>, bool);

    /// The scan at the place `state` of folding white space, paired with
    /// `emit`.
    fn custom_state(state: FWSState, emit: bool) -> (r: (State<Self>, bool))
        ensures
            r == Self::spec_custom_state(state, emit),
    ;
}

/// Text of a quoted string in MIME: quoted-string text, space and tab, with
/// the control bytes of the obsolete grammar where `obs` is set, and with
/// the bytes above `0x7f` where `utf8` is set.
///
/// Space and tab are text under the obsolete grammars as under the modern
/// ones: the obsolete grammars add to what the modern ones take and leave
/// nothing out. The entry `ObsQTextWs` of the lookup table of
/// `media-type-impl-utils` does not mark them, so the step asks the table
/// for the text with white space and for the obsolete control bytes, one
/// after the other.
pub open spec fn is_mime_text(obs: bool, utf8: bool, b: u8) -> bool {
    (utf8 && b > 0x7f) || is_qtext_byte(b) || is_ws_byte(b) || (obs && is_obs_no_ws_ctl_byte(b))
}

/// What a MIME scan in its normal state does with a byte that is neither `"`
/// nor `\`: text is taken, a carriage return opens a line fold, and the scan
/// fails on any other byte.
pub open spec fn spec_mime_normal_state<E: MimeParsingExt>(b: u8) -> Result<
    (State<E>, bool),
    CoreError,
> {
    if is_mime_text(E::obs(), E::allow_utf8(), b) {
        Ok((State::Normal, true))
    } else if b == 0x0d {
        Ok(E::spec_custom_state(FWSState::HitCr, false))
    } else {
        Err(CoreError::InvalidChar)
    }
}

/// What a MIME scan does with a byte at the place `state` of folding white
/// space. A carriage return wants a line feed, a line feed wants a space or
/// a tab. Behind the fold the obsolete grammar goes on as before; the modern
/// one takes more white space, text, a closing `"` or a backslash, but no
/// second fold.
pub open spec fn spec_fws_advance<E: MimeParsingExt>(state: FWSState, b: u8) -> Result<
    (State<E>, bool),
    CoreError,
> {
    match state {
        FWSState::HitCr => if b == 0x0a {
            Ok(E::spec_custom_state(FWSState::HitNl, false))
        } else {
            Err(CoreError::InvalidChar)
        },
        FWSState::HitNl => if is_ws_byte(b) {
            if E::obs() {
                Ok((State::Normal, true))
            } else {
                Ok(E::spec_custom_state(FWSState::HadFws, true))
            }
        } else {
            Err(CoreError::InvalidChar)
        },
        FWSState::HadFws => if (E::allow_utf8() && b > 0x7f) || is_qtext_byte(b) || (!E::obs()
            && is_obs_no_ws_ctl_byte(b)) {
            Ok((State::Normal, true))
        } else if is_ws_byte(b) {
            Ok(E::spec_custom_state(FWSState::HadFws, true))
        } else if b == 0x22 {
            Ok((State::End, false))
        } else if b == 0x5c {
            Ok((State::QPStart, false))
        } else {
            Err(CoreError::InvalidChar)
        },
    }
}

/// The step of a MIME scan in its normal state.
pub fn mime_normal_state<E: MimeParsingExt>(b: u8) -> (r: Result<(State<E>, bool), CoreError>)
    ensures
        r == spec_mime_normal_state::<E>(b),
{
    let is_qtext_ws = if E::is_obs() {
        lookup_qtext_ws(b) || lookup_obs_no_ws_ctl(b)
    } else {
        lookup_qtext_ws(b)
    };
    if is_qtext_ws || (E::is_utf8_allowed() && b > 0x7f) {
        Ok((State::Normal, true))
    } else if b == 0x0d {
        Ok(E::custom_state(FWSState::HitCr, false))
    } else {
        Err(CoreError::InvalidChar)
    }
}

impl FWSState {
    /// The step of a MIME scan inside folding white space.
    pub fn advance<E: MimeParsingExt>(self, b: u8) -> (r: Result<(State<E>, bool), CoreError>)
        ensures
            r == spec_fws_advance::<E>(self, b),
    {
        match self {
            FWSState::HitCr => {
                if b == 0x0a {
                    Ok(E::custom_state(FWSState::HitNl, false))
                } else {
                    Err(CoreError::InvalidChar)
                }
            },
            FWSState::HitNl => {
                if b == 0x20 || b == 0x09 {
                    if E::is_obs() {
                        Ok((State::Normal, true))
                    } else {
                        Ok(E::custom_state(FWSState::HadFws, true))
                    }
                } else {
                    Err(CoreError::InvalidChar)
                }
            },
            FWSState::HadFws => {
                let is_qtext = if E::is_obs() {
                    lookup_qtext(b)
                } else {
                    lookup_qtext(b) || lookup_obs_no_ws_ctl(b)
                };
                if is_qtext || (E::is_utf8_allowed() && b > 0x7f) {
                    Ok((State::Normal, true))
                } else if lookup_ws(b) {
                    Ok(E::custom_state(FWSState::HadFws, true))
                } else if b == 0x22 {
                    Ok((State::End, false))
                } else if b == 0x5c {
                    Ok((State::QPStart, false))
                } else {
                    Err(CoreError::InvalidChar)
                }
            },
        }
    }
}

/// The scan of obsolete US-ASCII MIME. Any US-ASCII byte may follow a
/// backslash.
#[derive(Copy, Clone, Debug, PartialEq, Eq, Hash)]
pub struct MimeObsParsing(pub FWSState);

/// The scan of obsolete internationalized MIME. Any US-ASCII byte may follow
/// a backslash.
#[derive(Copy, Clone, Debug, PartialEq, Eq, Hash)]
pub struct MimeObsParsingUtf8(pub FWSState);

/// The scan of modern US-ASCII MIME. Any printable US-ASCII byte, a space or
/// a tab may follow a backslash.
#[derive(Copy, Clone, Debug, PartialEq, Eq, Hash)]
pub struct MimeParsing(pub FWSState);

/// The scan of modern internationalized MIME. Any printable US-ASCII byte, a
/// space or a tab may follow a backslash.
#[derive(Copy, Clone, Debug, PartialEq, Eq, Hash)]
pub struct MimeParsingUtf8(pub FWSState);

impl MimeParsingExt for MimeObsParsing {
    open spec fn allow_utf8() -> bool {
        false
    }

    open spec fn obs() -> bool {
        true
    }

    fn is_utf8_allowed() -> (r: bool) {
        false
    }

    fn is_obs() -> (r: bool) {
        true
    }

    open spec fn spec_custom_state(state: FWSState, emit: bool) -> (State<Self>, bool) {
        (State::Custom(MimeObsParsing(state)), emit)
    }

    fn custom_state(state: FWSState, emit: bool) -> (r: (State<Self>, bool)) {
        (State::Custom(MimeObsParsing(state)), emit)
    }
}

impl MimeObsParsing {
    pub fn quotable(b: u8) -> (r: bool)
        ensures
            r == (b <= 0x7f),
    {
        b <= 0x7f
    }
}

/// Hands the rules of the scan to `quoted_string`.
impl ParsingImpl for MimeObsParsing {
    fn can_be_quoted(bch: PartialCodePoint) -> (r: bool)
        ensures
            r == (held_byte(bch) <= 0x7f),
    {
        MimeObsParsing::quotable(byte_of(bch))
    }

    fn handle_normal_state(bch: PartialCodePoint) -> (r: Result<(State<Self>, bool), CoreError>)
        ensures
            r == spec_mime_normal_state::<Self>(held_byte(bch)),
    {
        mime_normal_state::<Self>(byte_of(bch))
    }

    fn advance(&self, bch: PartialCodePoint) -> (r: Result<(State<Self>, bool), CoreError>)
        ensures
            r == spec_fws_advance::<Self>(self.0, held_byte(bch)),
    {
        self.0.advance(byte_of(bch))
    }
}

impl MimeParsingExt for MimeObsParsingUtf8 {
    open spec fn allow_utf8() -> bool {
        true
    }

    open spec fn obs() -> bool {
        true
    }

    fn is_utf8_allowed() -> (r: bool) {
        true
    }

    fn is_obs() -> (r: bool) {
        true
    }

    open spec fn spec_custom_state(state: FWSState, emit: bool) -> (State<Self>, bool) {
        (State::Custom(MimeObsParsingUtf8(state)), emit)
    }

    fn custom_state(state: FWSState, emit: bool) -> (r: (State<Self>, bool)) {
        (State::Custom(MimeObsParsingUtf8(state)), emit)
    }
}

impl MimeObsParsingUtf8 {
    pub fn quotable(b: u8) -> (r: bool)
        ensures
            r == (b <= 0x7f),
    {
        b <= 0x7f
    }
}

/// Hands the rules of the scan to `quoted_string`.
impl ParsingImpl for MimeObsParsingUtf8 {
    fn can_be_quoted(bch: PartialCodePoint) -> (r: bool)
        ensures
            r == (held_byte(bch) <= 0x7f),
    {
        MimeObsParsingUtf8::quotable(byte_of(bch))
    }

    fn handle_normal_state(bch: PartialCodePoint) -> (r: Result<(State<Self>, bool), CoreError>)
        ensures
            r == spec_mime_normal_state::<Self>(held_byte(bch)),
    {
        mime_normal_state::<Self>(byte_of(bch))
    }

    fn advance(&self, bch: PartialCodePoint) -> (r: Result<(State<Self>, bool), CoreError>)
        ensures
            r == spec_fws_advance::<Self>(self.0, held_byte(bch)),
    {
        self.0.advance(byte_of(bch))
    }
}

impl MimeParsingExt for MimeParsing {
    open spec fn allow_utf8() -> bool {
        false
    }

    open spec fn obs() -> bool {
        false
    }

    fn is_utf8_allowed() -> (r: bool) {
        false
    }

    fn is_obs() -> (r: bool) {
        false
    }

    open spec fn spec_custom_state(state: FWSState, emit: bool) -> (State<Self>, bool) {
        (State::Custom(MimeParsing(state)), emit)
    }

    fn custom_state(state: FWSState, emit: bool) -> (r: (State<Self>, bool)) {
        (State::Custom(MimeParsing(state)), emit)
    }
}

impl MimeParsing {
    pub fn quotable(b: u8) -> (r: bool)
        ensures
            r == (is_vchar_byte(b) || is_ws_byte(b)),
    {
        lookup_vchar_ws(b)
    }
}

/// Hands the rules of the scan to `quoted_string`.
impl ParsingImpl for MimeParsing {
    fn can_be_quoted(bch: PartialCodePoint) -> (r: bool)
        ensures
            r == (is_vchar_byte(held_byte(bch)) || is_ws_byte(held_byte(bch))),
    {
        MimeParsing::quotable(byte_of(bch))
    }

    fn handle_normal_state(bch: PartialCodePoint) -> (r: Result<(State<Self>, bool), CoreError>)
        ensures
            r == spec_mime_normal_state::<Self>(held_byte(bch)),
    {
        mime_normal_state::<Self>(byte_of(bch))
    }

    fn advance(&self, bch: PartialCodePoint) -> (r: Result<(State<Self>, bool), CoreError>)
        ensures
            r == spec_fws_advance::<Self>(self.0, held_byte(bch)),
    {
        self.0.advance(byte_of(bch))
    }
}

impl MimeParsingExt for MimeParsingUtf8 {
    open spec fn allow_utf8() -> bool {
        true
    }

    open spec fn obs() -> bool {
        false
    }

    fn is_utf8_allowed() -> (r: bool) {
        true
    }

    fn is_obs() -> (r: bool) {
        false
    }

    open spec fn spec_custom_state(state: FWSState, emit: bool) -> (State<Self>, bool) {
        (State::Custom(MimeParsingUtf8(state)), emit)
    }

    fn custom_state(state: FWSState, emit: bool) -> (r: (State<Self>, bool)) {
        (State::Custom(MimeParsingUtf8(state)), emit)
    }
}

impl MimeParsingUtf8 {
    pub fn quotable(b: u8) -> (r: bool)
        ensures
            r == (is_vchar_byte(b) || is_ws_byte(b)),
    {
        lookup_vchar_ws(b)
    }
}

/// Hands the rules of the scan to `quoted_string`.
impl ParsingImpl for MimeParsingUtf8 {
    fn can_be_quoted(bch: PartialCodePoint) -> (r: bool)
        ensures
            r == (is_vchar_byte(held_byte(bch)) || is_ws_byte(held_byte(bch))),
    {
        MimeParsingUtf8::quotable(byte_of(bch))
    }

    fn handle_normal_state(bch: PartialCodePoint) -> (r: Result<(State<Self>, bool), CoreError>)
        ensures
            r == spec_mime_normal_state::<Self>(held_byte(bch)),
    {
        mime_normal_state::<Self>(byte_of(bch))
    }

    fn advance(&self, bch: PartialCodePoint) -> (r: Result<(State<Self>, bool), CoreError>)
        ensures
            r == spec_fws_advance::<Self>(self.0, held_byte(bch)),
    {
        self.0.advance(byte_of(bch))
    }
}

} // verus!
