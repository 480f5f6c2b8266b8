//! The media type as it is kept: one text and the offsets of its parts.
use vstd::prelude::*;
use vstd::string::StringSliceAdditionalSpecFns;
use vstd::utf8::{decode_utf8, encode_utf8_decode_utf8, valid_utf8};
use crate::name::{lower_byte, lower_bytes, name_eq, Name, CHARSET, MULTIPART};
use crate::parse::{
    end_before, head_ok, param_fits, param_ok, params_ok, ParamIndices, ParseResult, Parts,
    value_text, values_ok,
};
use crate::text::{
    append_str, ascii_lowercase_of, byte_len, head_to, is_cut, lemma_cut_after_ascii,
    lemma_cut_at_ascii, lemma_cut_ends, lemma_str_valid, slice_of, string_bytes,
};
use crate::value::{lower_chars, value_content, Value};

verus! {

/// A media type as a value of mathematics: the bytes of its text and the
/// offsets of its parts.
pub struct MediaTypeView {
    /// The text: `type/subtype`, then for each parameter a separator, the
    /// name, `=` and the value.
    pub bytes: Seq<u8>,
    /// The offset of the `/`.
    pub slash_idx: int,
    /// The offset behind the subtype.
    pub end_of_type: int,
    /// Where the parameters stand, in their order.
    pub params: Seq<ParamIndices>,
}

impl MediaTypeView {
    /// Whether the offsets fit the text: the text is valid UTF-8, holds the
    /// parts at the offsets, and ends with the last part.
    pub open spec fn wf(self) -> bool {
        &&& valid_utf8(self.bytes)
        &&& head_ok(self.bytes, self.slash_idx, self.end_of_type)
        &&& params_ok(self.bytes, self.end_of_type, self.params)
        &&& end_before(self.end_of_type, self.params, self.params.len() as int)
            == self.bytes.len()
    }

    /// Whether the value of each parameter stands for a content: it is a
    /// token, or a quoted string up to its closing quote.
    pub open spec fn has_contents(self) -> bool {
        values_ok(self.bytes, self.params)
    }

    /// The type.
    pub open spec fn type_bytes(self) -> Seq<u8> {
        self.bytes.subrange(0, self.slash_idx)
    }

    /// The subtype, with its suffix.
    pub open spec fn subtype_bytes(self) -> Seq<u8> {
        self.bytes.subrange(self.slash_idx + 1, self.end_of_type)
    }

    /// Type, `/` and subtype.
    pub open spec fn full_type_bytes(self) -> Seq<u8> {
        self.bytes.subrange(0, self.end_of_type)
    }

    /// The name of the parameter numbered `i`.
    pub open spec fn param_name(self, i: int) -> Seq<u8> {
        self.bytes.subrange(self.params[i].start as int, self.params[i].eq_idx as int)
    }

    /// The value of the parameter numbered `i`, as it is written.
    pub open spec fn param_value_bytes(self, i: int) -> Seq<u8> {
        self.bytes.subrange(self.params[i].eq_idx + 1, self.params[i].end as int)
    }

    /// The value of the parameter numbered `i`, as it is written, in
    /// characters.
    pub open spec fn param_value(self, i: int) -> Seq<char> {
        decode_utf8(self.param_value_bytes(i))
    }

    /// The number of the first parameter from `from` on whose name is `name`,
    /// whatever the case.
    pub open spec fn first_named(self, name: Seq<u8>, from: int) -> Option<int>
        decreases self.params.len() - from,
    {
        if from < 0 || from >= self.params.len() {
            None
        } else if name_eq(name, self.param_name(from)) {
            Some(from)
        } else {
            self.first_named(name, from + 1)
        }
    }

    /// Whether the first parameter named `charset` stands for `utf-8` or
    /// `utf8`, whatever the case and whether quoted or not.
    pub open spec fn has_utf8_charset(self) -> bool {
        match self.first_named(CHARSET.spec_bytes(), 0) {
            None => false,
            Some(i) => value_content(self.param_value(i)) matches Some(content) && (lower_chars(
                content,
            ) == lower_chars("utf-8"@) || lower_chars(content) == lower_chars("utf8"@)),
        }
    }

    /// Whether the type is `multipart`, whatever the case.
    pub open spec fn is_multipart(self) -> bool {
        name_eq(self.type_bytes(), MULTIPART.spec_bytes())
    }
}

/// Whether the parameter `p` stands in `bytes`: a name and a value that are
/// not empty, with a `=` between them, a US-ASCII byte before the name and
/// one at the end of the value.
pub open spec fn param_in(bytes: Seq<u8>, p: ParamIndices) -> bool {
    &&& 0 < p.start < p.eq_idx
    &&& p.eq_idx + 1 < p.end <= bytes.len()
    &&& bytes[p.start - 1] <= 0x7f
    &&& bytes[p.eq_idx as int] == 0x3d
    &&& bytes[p.end - 1] <= 0x7f
}

/// The text of the media type that was found in `bytes`, up to the end of
/// its first `n` parameters, as it is kept: type, subtype and the names of
/// the parameters in lower case, everything else as it was.
pub open spec fn canonical_upto(bytes: Seq<u8>, parts: Parts, n: nat) -> Seq<u8>
    decreases n,
{
    if n == 0 {
        lower_bytes(bytes.subrange(0, parts.end_of_type_idx))
    } else {
        let p = parts.params[n - 1];
        canonical_upto(bytes, parts, (n - 1) as nat) + bytes.subrange(
            end_before(parts.end_of_type_idx, parts.params, n - 1),
            p.start as int,
        ) + lower_bytes(bytes.subrange(p.start as int, p.eq_idx as int)) + bytes.subrange(
            p.eq_idx as int,
            p.end as int,
        )
    }
}

/// The media type that was found in `bytes` at the offsets `parts`, as it is
/// kept.
pub open spec fn canonical(bytes: Seq<u8>, parts: Parts) -> MediaTypeView {
    MediaTypeView {
        bytes: canonical_upto(bytes, parts, parts.params.len()),
        slash_idx: parts.slash_idx,
        end_of_type: parts.end_of_type_idx,
        params: parts.params,
    }
}

/// The kept text is as long as the text it was made from, and holds at each
/// offset the byte that stood there or its lower case form.
pub proof fn lemma_canonical_bytes(bytes: Seq<u8>, parts: Parts, n: nat)
    requires
        head_ok(bytes, parts.slash_idx, parts.end_of_type_idx),
        params_ok(bytes, parts.end_of_type_idx, parts.params),
        n <= parts.params.len(),
    ensures
        canonical_upto(bytes, parts, n).len() == end_before(
            parts.end_of_type_idx,
            parts.params,
            n as int,
        ),
        parts.end_of_type_idx <= canonical_upto(bytes, parts, n).len() <= bytes.len(),
        forall|i: int|
            0 <= i < canonical_upto(bytes, parts, n).len() ==> (#[trigger] canonical_upto(
                bytes,
                parts,
                n,
            )[i]) == bytes[i] || canonical_upto(bytes, parts, n)[i] == lower_byte(bytes[i]),
    decreases n,
{
    if n > 0 {
        lemma_canonical_bytes(bytes, parts, (n - 1) as nat);
        assert(param_fits(bytes, parts.end_of_type_idx, parts.params, n - 1));
    }
}

/// The kept text holds type and subtype in lower case, of each of the first
/// `n` parameters the name in lower case, and `=` and the value as they
/// were.
pub proof fn lemma_canonical_keeps(bytes: Seq<u8>, parts: Parts, n: nat)
    requires
        head_ok(bytes, parts.slash_idx, parts.end_of_type_idx),
        params_ok(bytes, parts.end_of_type_idx, parts.params),
        n <= parts.params.len(),
    ensures
        canonical_upto(bytes, parts, n).subrange(0, parts.end_of_type_idx) == lower_bytes(
            bytes.subrange(0, parts.end_of_type_idx),
        ),
        forall|k: int|
            0 <= k < n ==> {
                let p = #[trigger] parts.params[k];
                &&& canonical_upto(bytes, parts, n).subrange(p.start as int, p.eq_idx as int)
                    == lower_bytes(bytes.subrange(p.start as int, p.eq_idx as int))
                &&& canonical_upto(bytes, parts, n).subrange(p.eq_idx as int, p.end as int)
                    == bytes.subrange(p.eq_idx as int, p.end as int)
            },
    decreases n,
{
    let kept = canonical_upto(bytes, parts, n);
    lemma_canonical_bytes(bytes, parts, n);
    if n == 0 {
        assert(kept.subrange(0, parts.end_of_type_idx) == kept);
    } else {
        let before = canonical_upto(bytes, parts, (n - 1) as nat);
        let last = parts.params[n - 1];
        lemma_canonical_keeps(bytes, parts, (n - 1) as nat);
        lemma_canonical_bytes(bytes, parts, (n - 1) as nat);
        lemma_params_ordered(bytes, parts.end_of_type_idx, parts.params, n - 1);
        assert(param_fits(bytes, parts.end_of_type_idx, parts.params, n - 1));
        assert(kept.subrange(0, parts.end_of_type_idx) == before.subrange(
            0,
            parts.end_of_type_idx,
        ));
        assert forall|k: int| 0 <= k < n implies {
            let p = #[trigger] parts.params[k];
            &&& kept.subrange(p.start as int, p.eq_idx as int) == lower_bytes(
                bytes.subrange(p.start as int, p.eq_idx as int),
            )
            &&& kept.subrange(p.eq_idx as int, p.end as int) == bytes.subrange(
                p.eq_idx as int,
                p.end as int,
            )
        } by {
            let p = parts.params[k];
            if k < n - 1 {
                assert(param_fits(bytes, parts.end_of_type_idx, parts.params, k));
                assert(kept.subrange(p.start as int, p.eq_idx as int) == before.subrange(
                    p.start as int,
                    p.eq_idx as int,
                ));
                assert(kept.subrange(p.eq_idx as int, p.end as int) == before.subrange(
                    p.eq_idx as int,
                    p.end as int,
                ));
            } else {
                assert(kept.subrange(p.start as int, p.eq_idx as int) == lower_bytes(
                    bytes.subrange(p.start as int, p.eq_idx as int),
                ));
                assert(kept.subrange(p.eq_idx as int, p.end as int) == bytes.subrange(
                    p.eq_idx as int,
                    p.end as int,
                ));
            }
        }
    }
}

/// A media type is kept with type and subtype in lower case.
pub proof fn lemma_canonical_head(bytes: Seq<u8>, parts: Parts)
    requires
        head_ok(bytes, parts.slash_idx, parts.end_of_type_idx),
        params_ok(bytes, parts.end_of_type_idx, parts.params),
    ensures
        canonical(bytes, parts).type_bytes() == lower_bytes(bytes.subrange(0, parts.slash_idx)),
        canonical(bytes, parts).subtype_bytes() == lower_bytes(
            bytes.subrange(parts.slash_idx + 1, parts.end_of_type_idx),
        ),
{
    let kept = canonical(bytes, parts).bytes;
    let head = kept.subrange(0, parts.end_of_type_idx);
    lemma_canonical_keeps(bytes, parts, parts.params.len());
    lemma_canonical_bytes(bytes, parts, parts.params.len());
    assert(kept.subrange(0, parts.slash_idx) == head.subrange(0, parts.slash_idx));
    assert(kept.subrange(parts.slash_idx + 1, parts.end_of_type_idx) == head.subrange(
        parts.slash_idx + 1,
        parts.end_of_type_idx,
    ));
    assert(canonical(bytes, parts).type_bytes() == lower_bytes(bytes.subrange(0, parts.slash_idx)));
    assert(canonical(bytes, parts).subtype_bytes() == lower_bytes(
        bytes.subrange(parts.slash_idx + 1, parts.end_of_type_idx),
    ));
}

/// A media type is kept with the name of each parameter in lower case and
/// with its value as it was.
pub proof fn lemma_canonical_param(bytes: Seq<u8>, parts: Parts, k: int)
    requires
        head_ok(bytes, parts.slash_idx, parts.end_of_type_idx),
        params_ok(bytes, parts.end_of_type_idx, parts.params),
        0 <= k < parts.params.len(),
    ensures
        canonical(bytes, parts).param_name(k) == lower_bytes(
            bytes.subrange(parts.params[k].start as int, parts.params[k].eq_idx as int),
        ),
        canonical(bytes, parts).param_value_bytes(k) == bytes.subrange(
            parts.params[k].eq_idx + 1,
            parts.params[k].end as int,
        ),
{
    let kept = canonical(bytes, parts).bytes;
    lemma_canonical_keeps(bytes, parts, parts.params.len());
    lemma_canonical_bytes(bytes, parts, parts.params.len());
    let p = parts.params[k];
    assert(param_fits(bytes, parts.end_of_type_idx, parts.params, k));
    lemma_params_ordered(bytes, parts.end_of_type_idx, parts.params, parts.params.len() as int);
    let tail = kept.subrange(p.eq_idx as int, p.end as int);
    assert(kept.subrange(p.eq_idx + 1, p.end as int) == tail.subrange(1, p.end - p.eq_idx));
    assert(bytes.subrange(p.eq_idx + 1, p.end as int) == bytes.subrange(
        p.eq_idx as int,
        p.end as int,
    ).subrange(1, p.end - p.eq_idx));
}

/// A media type that was found in a text is kept with offsets that fit the
/// kept text.
pub proof fn lemma_canonical_fits(bytes: Seq<u8>, parts: Parts)
    requires
        head_ok(bytes, parts.slash_idx, parts.end_of_type_idx),
        params_ok(bytes, parts.end_of_type_idx, parts.params),
    ensures
        head_ok(canonical(bytes, parts).bytes, parts.slash_idx, parts.end_of_type_idx),
        params_ok(canonical(bytes, parts).bytes, parts.end_of_type_idx, parts.params),
        end_before(parts.end_of_type_idx, parts.params, parts.params.len() as int) == canonical(
            bytes,
            parts,
        ).bytes.len(),
{
    let kept = canonical(bytes, parts).bytes;
    lemma_canonical_bytes(bytes, parts, parts.params.len());
    lemma_params_ordered(bytes, parts.end_of_type_idx, parts.params, parts.params.len() as int);
    assert forall|i: int| 0 <= i < parts.params.len() implies #[trigger] param_fits(
        kept,
        parts.end_of_type_idx,
        parts.params,
        i,
    ) by {
        assert(param_fits(bytes, parts.end_of_type_idx, parts.params, i));
        lemma_params_ordered(bytes, parts.end_of_type_idx, parts.params, i + 1);
        lemma_params_upto(bytes, parts.end_of_type_idx, parts.params, i + 1);
    }
}

/// Every parameter ends at or before the end of the last one.
pub proof fn lemma_params_upto(
    bytes: Seq<u8>,
    end_of_type_idx: int,
    params: Seq<ParamIndices>,
    n: int,
)
    requires
        params_ok(bytes, end_of_type_idx, params),
        0 <= n <= params.len(),
    ensures
        end_before(end_of_type_idx, params, n) <= end_before(
            end_of_type_idx,
            params,
            params.len() as int,
        ),
    decreases params.len() - n,
{
    if n < params.len() {
        assert(param_fits(bytes, end_of_type_idx, params, n));
        lemma_params_upto(bytes, end_of_type_idx, params, n + 1);
    }
}

/// The parameters stand one behind the other, behind the subtype.
pub proof fn lemma_params_ordered(
    bytes: Seq<u8>,
    end_of_type_idx: int,
    params: Seq<ParamIndices>,
    n: int,
)
    requires
        params_ok(bytes, end_of_type_idx, params),
        0 <= n <= params.len(),
    ensures
        end_of_type_idx <= end_before(end_of_type_idx, params, n),
        forall|i: int|
            0 <= i < n ==> (#[trigger] params[i]).end <= end_before(end_of_type_idx, params, n),
    decreases n,
{
    if n > 0 {
        lemma_params_ordered(bytes, end_of_type_idx, params, n - 1);
        assert(param_fits(bytes, end_of_type_idx, params, n - 1));
    }
}

/// The first `n` parameters end at least `n` bytes behind the subtype.
pub proof fn lemma_few_params(view: MediaTypeView, n: int)
    requires
        view.wf(),
        0 <= n <= view.params.len(),
    ensures
        view.end_of_type + n <= end_before(view.end_of_type, view.params, n) <= view.bytes.len(),
    decreases n,
{
    lemma_params_upto(view.bytes, view.end_of_type, view.params, n);
    if n > 0 {
        lemma_few_params(view, n - 1);
        assert(param_fits(view.bytes, view.end_of_type, view.params, n - 1));
    }
}

/// A text may be cut around the name and the value of a parameter that
/// stands in it.
pub proof fn lemma_param_cuts(bytes: Seq<u8>, p: ParamIndices)
    requires
        valid_utf8(bytes),
        param_in(bytes, p),
    ensures
        is_cut(bytes, p.start as int),
        is_cut(bytes, p.eq_idx as int),
        is_cut(bytes, p.eq_idx + 1),
        is_cut(bytes, p.end as int),
{
    lemma_cut_after_ascii(bytes, p.start as int);
    lemma_cut_at_ascii(bytes, p.eq_idx as int);
    lemma_cut_after_ascii(bytes, p.eq_idx + 1);
    lemma_cut_after_ascii(bytes, p.end as int);
}

/// Every parameter of a media type whose offsets fit its text stands in the
/// text, behind the subtype.
pub proof fn lemma_param_in(view: MediaTypeView, i: int)
    requires
        view.wf(),
        0 <= i < view.params.len(),
    ensures
        param_in(view.bytes, view.params[i]),
        param_ok(view.bytes, end_before(view.end_of_type, view.params, i), view.params[i]),
        view.end_of_type <= end_before(view.end_of_type, view.params, i),
{
    lemma_params_ordered(view.bytes, view.end_of_type, view.params, i);
    assert(param_fits(view.bytes, view.end_of_type, view.params, i));
}

/// Appends to `buffer` what stands in `input` from `prev` up to the end of
/// the parameter `p`, with the name of the parameter in lower case.
fn append_param(buffer: &mut String, input: &str, prev: usize, p: ParamIndices)
    requires
        0 < prev,
        input.spec_bytes()[prev - 1] <= 0x7f,
        param_ok(input.spec_bytes(), prev as int, p),
    ensures
        string_bytes(final(buffer)) == string_bytes(old(buffer)) + input.spec_bytes().subrange(
            prev as int,
            p.start as int,
        ) + lower_bytes(input.spec_bytes().subrange(p.start as int, p.eq_idx as int))
            + input.spec_bytes().subrange(p.eq_idx as int, p.end as int),
{
    let ghost bytes = input.spec_bytes();
    proof {
        lemma_str_valid(input);
        lemma_cut_after_ascii(bytes, prev as int);
        lemma_param_cuts(bytes, p);
    }
    append_str(buffer, slice_of(input, prev, p.start));
    let name = ascii_lowercase_of(slice_of(input, p.start, p.eq_idx));
    append_str(buffer, name.as_str());
    append_str(buffer, slice_of(input, p.eq_idx, p.end));
}

/// The start of `input` up to `end`, in lower case.
fn lowercase_head(input: &str, end: usize) -> (r: String)
    requires
        0 < end <= input.spec_bytes().len(),
        input.spec_bytes()[end - 1] <= 0x7f,
    ensures
        string_bytes(&r) == lower_bytes(input.spec_bytes().subrange(0, end as int)),
{
    proof {
        lemma_str_valid(input);
        lemma_cut_after_ascii(input.spec_bytes(), end as int);
    }
    ascii_lowercase_of(head_to(input, end))
}

/// The text of the media type that the parser found, as it is kept.
fn canonical_text(pres: &ParseResult<'_>) -> (buffer: String)
    requires
        pres.wf(),
    ensures
        string_bytes(&buffer) == canonical(pres.input.spec_bytes(), pres.parts()).bytes,
{
    let input = pres.input;
    let ghost bytes = input.spec_bytes();
    let ghost parts = pres.parts();
    let end_of_type = pres.end_of_type_idx;
    let mut buffer = lowercase_head(input, end_of_type);
    let mut prev = end_of_type;
    let mut i: usize = 0;
    while i < pres.params.len()
        invariant
            bytes == input.spec_bytes(),
            parts == pres.parts(),
            params_ok(bytes, parts.end_of_type_idx, parts.params),
            i <= pres.params.len(),
            prev as int == end_before(parts.end_of_type_idx, parts.params, i as int),
            0 < prev <= bytes.len(),
            bytes[prev - 1] <= 0x7f,
            string_bytes(&buffer) == canonical_upto(bytes, parts, i as nat),
        decreases pres.params.len() - i,
    {
        let p = pres.params[i];
        proof {
            assert(param_fits(bytes, parts.end_of_type_idx, parts.params, i as int));
        }
        append_param(&mut buffer, input, prev, p);
        prev = p.end;
        i += 1;
    }
    buffer
}

/// A media type: one text, in which type, subtype and the names of the
/// parameters are in lower case where it came from the parser, and the
/// offsets of its parts.
#[derive(Debug)]
pub struct AnyMediaType {
    buffer: String,
    slash_idx: usize,
    end_of_type: usize,
    params: Vec<ParamIndices>,
}

impl View for AnyMediaType {
    type V = MediaTypeView;

    closed spec fn view(&self) -> MediaTypeView {
        MediaTypeView {
            bytes: string_bytes(&self.buffer),
            slash_idx: self.slash_idx as int,
            end_of_type: self.end_of_type as int,
            params: self.params@,
        }
    }
}

impl AnyMediaType {
    #[verifier::type_invariant]
    closed spec fn inv(&self) -> bool {
        self@.wf() && self@.has_contents()
    }

    /// Keeps the media type that the parser found.
    pub(crate) fn from_parse_result(pres: ParseResult<'_>) -> (r: AnyMediaType)
        requires
            pres.wf(),
            pres.has_contents(),
        ensures
            r@ == canonical(pres.input.spec_bytes(), pres.parts()),
            r@.wf(),
            r@.has_contents(),
    {
        let buffer = canonical_text(&pres);
        proof {
            lemma_canonical_fits(pres.input.spec_bytes(), pres.parts());
            vstd::utf8::encode_utf8_valid_utf8(buffer@);
            let kept = canonical(pres.input.spec_bytes(), pres.parts());
            assert forall|i: int| 0 <= i < kept.params.len() implies value_content(
                value_text(kept.bytes, #[trigger] kept.params[i]),
            ) is Some by {
                lemma_canonical_param(pres.input.spec_bytes(), pres.parts(), i);
                assert(value_text(kept.bytes, kept.params[i]) == value_text(
                    pres.input.spec_bytes(),
                    pres.params@[i],
                ));
            }
        }
        AnyMediaType {
            buffer,
            slash_idx: pres.slash_idx,
            end_of_type: pres.end_of_type_idx,
            params: pres.params,
        }
    }

    /// The type.
    pub fn type_(&self) -> (r: Name<'_>)
        ensures
            r.bytes() == self@.type_bytes(),
    {
        proof {
            use_type_invariant(self);
            lemma_cut_ends(self@.bytes);
            lemma_cut_at_ascii(self@.bytes, self.slash_idx as int);
        }
        Name::new_unchecked(slice_of(self.buffer.as_str(), 0, self.slash_idx))
    }

    /// The subtype, with its suffix.
    pub fn subtype(&self) -> (r: Name<'_>)
        ensures
            r.bytes() == self@.subtype_bytes(),
    {
        proof {
            use_type_invariant(self);
            lemma_cut_after_ascii(self@.bytes, self.slash_idx + 1);
            lemma_cut_after_ascii(self@.bytes, self.end_of_type as int);
        }
        Name::new_unchecked(slice_of(self.buffer.as_str(), self.slash_idx + 1, self.end_of_type))
    }

    /// Type, `/` and subtype as one name.
    pub fn full_type(&self) -> (r: Name<'_>)
        ensures
            r.bytes() == self@.full_type_bytes(),
    {
        proof {
            use_type_invariant(self);
            lemma_cut_ends(self@.bytes);
            lemma_cut_after_ascii(self@.bytes, self.end_of_type as int);
        }
        Name::new_unchecked(slice_of(self.buffer.as_str(), 0, self.end_of_type))
    }

    /// The text of the media type.
    pub fn as_str_repr(&self) -> (r: &str)
        ensures
            r.spec_bytes() == self@.bytes,
    {
        self.buffer.as_str()
    }

    /// How many parameters there are: fewer than the text has bytes.
    pub fn param_count(&self) -> (r: usize)
        ensures
            r == self@.params.len(),
            r < usize::MAX,
            self@.wf(),
            self@.has_contents(),
    {
        proof {
            use_type_invariant(self);
            lemma_few_params(self@, self@.params.len() as int);
        }
        // Learns that the length of the text fits a `usize`.
        let _total = byte_len(&self.buffer);
        self.params.len()
    }

    /// Name and value of the parameter numbered `i`.
    pub fn param_at(&self, i: usize) -> (r: (Name<'_>, Value<'_>))
        requires
            i < self@.params.len(),
        ensures
            r.0.bytes() == self@.param_name(i as int),
            r.1.source.spec_bytes() == self@.param_value_bytes(i as int),
            r.1.source@ == self@.param_value(i as int),
            value_content(r.1.source@) is Some,
    {
        proof {
            use_type_invariant(self);
            lemma_param_in(self@, i as int);
            lemma_param_cuts(self@.bytes, self@.params[i as int]);
            assert(self@.param_value(i as int) == value_text(self@.bytes, self@.params[i as int]));
        }
        let p = self.params[i];
        let name = slice_of(self.buffer.as_str(), p.start, p.eq_idx);
        let value = slice_of(self.buffer.as_str(), p.eq_idx + 1, p.end);
        proof {
            encode_utf8_decode_utf8(value@);
        }
        (Name::new_unchecked(name), Value::new_unchecked(value))
    }

    /// The value of the first parameter named `attr`, whatever the case of
    /// the name.
    pub fn get_param(&self, attr: &str) -> (r: Option<Value<'_>>)
        ensures
            match r {
                Some(value) => self@.first_named(attr.spec_bytes(), 0) matches Some(i)
                    && value.source@ == self@.param_value(i) && value_content(value.source@) is Some,
                None => self@.first_named(attr.spec_bytes(), 0) is None,
            },
    {
        let mut i: usize = 0;
        while i < self.params.len()
            invariant
                i <= self@.params.len(),
                self@.first_named(attr.spec_bytes(), 0) == self@.first_named(
                    attr.spec_bytes(),
                    i as int,
                ),
            decreases self.params.len() - i,
        {
            let (name, value) = self.param_at(i);
            if bytes_eq(attr, &name) {
                return Some(value);
            }
            i += 1;
        }
        None
    }

    /// Whether the parameter `charset` stands for `utf-8` or `utf8`,
    /// whatever the case of the letters and whether quoted or not.
    pub fn has_utf8_charset(&self) -> (r: bool)
        ensures
            r == self@.has_utf8_charset(),
    {
        match self.get_param(CHARSET) {
            Some(cs_param) => cs_param.eq_str_ignore_ascii_case("utf-8")
                || cs_param.eq_str_ignore_ascii_case("utf8"),
            None => false,
        }
    }

    /// Whether the type is `multipart`.
    pub fn is_multipart(&self) -> (r: bool)
        ensures
            r == self@.is_multipart(),
    {
        self.type_().eq_str(MULTIPART)
    }
}

impl Clone for AnyMediaType {
    fn clone(&self) -> (r: Self)
        ensures
            r@ == self@,
    {
        proof {
            use_type_invariant(self);
        }
        let mut params: Vec<ParamIndices> = Vec::new();
        let mut i: usize = 0;
        while i < self.params.len()
            invariant
                i <= self.params.len(),
                params@ == self.params@.subrange(0, i as int),
            decreases self.params.len() - i,
        {
            params.push(self.params[i]);
            proof {
                assert(params@ == self.params@.subrange(0, i + 1));
            }
            i += 1;
        }
        proof {
            assert(params@ == self.params@);
        }
        AnyMediaType {
            buffer: self.buffer.clone(),
            slash_idx: self.slash_idx,
            end_of_type: self.end_of_type,
            params,
        }
    }
}

/// The parameters of a media type, one after the other.
#[derive(Clone, Copy, Debug)]
pub struct Params<'a> {
    media_type: &'a AnyMediaType,
    pos: usize,
}

impl<'a> Params<'a> {
    #[verifier::type_invariant]
    closed spec fn inv(&self) -> bool {
        self.pos <= self.media_type@.params.len()
    }

    /// The media type whose parameters these are.
    pub closed spec fn media_type(&self) -> MediaTypeView {
        self.media_type@
    }

    /// The number of the parameter that comes next.
    pub closed spec fn position(&self) -> int {
        self.pos as int
    }

    /// The next parameter, if any is left: its name and its value.
    pub fn next(&mut self) -> (r: Option<(Name<'a>, Value<'a>)>)
        ensures
            final(self).media_type() == old(self).media_type(),
            0 <= old(self).position() <= old(self).media_type().params.len(),
            match r {
                Some((name, value)) => {
                    &&& old(self).position() < old(self).media_type().params.len()
                    &&& final(self).position() == old(self).position() + 1
                    &&& name.bytes() == old(self).media_type().param_name(old(self).position())
                    &&& value.source@ == old(self).media_type().param_value(
                        old(self).position(),
                    )
                    &&& value_content(value.source@) is Some
                },
                None => {
                    &&& old(self).position() == old(self).media_type().params.len()
                    &&& final(self).position() == old(self).position()
                },
            },
    {
        proof {
            use_type_invariant(&*self);
        }
        if self.pos < self.media_type.param_count() {
            let found = self.media_type.param_at(self.pos);
            self.pos = self.pos + 1;
            Some(found)
        } else {
            None
        }
    }

    /// How many parameters are left.
    pub fn len(&self) -> (r: usize)
        ensures
            r == self.media_type().params.len() - self.position(),
    {
        proof {
            use_type_invariant(self);
        }
        self.media_type.param_count() - self.pos
    }

    /// How many parameters are left, as the least and the greatest number
    /// of them.
    pub fn size_hint(&self) -> (r: (usize, Option<usize>))
        ensures
            r.0 == self.media_type().params.len() - self.position(),
            r.1 == Some(r.0),
    {
        let left = self.len();
        (left, Some(left))
    }
}

impl AnyMediaType {
    /// The parameters, from the first on.
    pub fn params(&self) -> (r: Params<'_>)
        ensures
            r.media_type() == self@,
            r.position() == 0,
    {
        Params { media_type: self, pos: 0 }
    }

    /// The media type with the text `buffer` and the parts at the given
    /// offsets.
    pub(crate) fn from_parts(
        buffer: String,
        slash_idx: usize,
        end_of_type: usize,
        params: Vec<ParamIndices>,
    ) -> (r: AnyMediaType)
        requires
            (MediaTypeView {
                bytes: string_bytes(&buffer),
                slash_idx: slash_idx as int,
                end_of_type: end_of_type as int,
                params: params@,
            }).wf(),
            values_ok(string_bytes(&buffer), params@),
        ensures
            r@ == (MediaTypeView {
                bytes: string_bytes(&buffer),
                slash_idx: slash_idx as int,
                end_of_type: end_of_type as int,
                params: params@,
            }),
    {
        AnyMediaType { buffer, slash_idx, end_of_type, params }
    }
}

/// Whether `attr` names `name`, whatever the case.
fn bytes_eq(attr: &str, name: &Name<'_>) -> (r: bool)
    ensures
        r == name_eq(attr.spec_bytes(), name.bytes()),
{
    crate::name::bytes_eq_ignore_ascii_case(attr.as_bytes(), name.source.as_bytes())
}

} // verus!
