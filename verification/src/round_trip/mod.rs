//! From parts to text and back: what generating a media type and parsing its
//! text have to do with each other.
use vstd::prelude::*;
use vstd::string::StringSliceAdditionalSpecFns;
use crate::error::ParserErrorKind;
use crate::gen::{head_text, name_text, written_params};
use crate::laws::lemma_param_order;
use crate::media_type::{canonical, lemma_canonical_head, lemma_canonical_param, MediaTypeView};
use crate::name::lemma_lower_is_same_name;
use crate::parse::{spec_parse, Parts};
use crate::spec::Policy;
use crate::typed::{generated, GenError};
use crate::round_trip::content::{lemma_written_value_content, written_value_taken};
use crate::round_trip::found::{lemma_generated_head_found, lemma_params_found, lemma_parts_found};
use crate::round_trip::written::{
    lemma_generated_fits, lemma_generated_param, lemma_generated_text, lemma_indices_len,
    parts_of,
};

pub mod content;
pub mod found;
pub mod tokens;
pub mod written;

verus! {

/// The numbers from 0 up to `n`.
pub open spec fn identity(n: nat) -> Seq<int> {
    Seq::new(n, |i: int| i)
}

/// The text of a generated media type, parsed at the offsets at which its
/// parts were written and kept as the parser keeps it, is a media type equal
/// to the generated one.
#[verifier::rlimit(40)]
pub proof fn lemma_generated_kept_equal(
    policy: Policy,
    type_: &str,
    subtype: &str,
    params: Seq<(&str, &str)>,
    view: MediaTypeView,
)
    requires
        generated(policy, type_, subtype, params) == Ok::<MediaTypeView, GenError>(view),
        view.bytes.len() <= usize::MAX,
    ensures
        canonical(view.bytes, parts_of(view)).media_type_eq(view),
{
    let parts = parts_of(view);
    let kept = canonical(view.bytes, parts);
    let n = view.params.len();
    lemma_generated_fits(policy, type_, subtype, params, view);
    lemma_canonical_head(view.bytes, parts);
    lemma_lower_is_same_name(view.type_bytes());
    lemma_lower_is_same_name(view.subtype_bytes());
    assert forall|i: int| 0 <= i < n implies kept.pair_eq(i, view, i) by {
        lemma_canonical_param(view.bytes, parts, i);
        lemma_lower_is_same_name(view.param_name(i));
        lemma_generated_param(policy, type_, subtype, params, view, i);
        lemma_written_value_content(policy, params[i].1@);
    }
    let same = identity(n);
    assert forall|i: int| 0 <= i < same.len() implies 0 <= #[trigger] same[i] < same.len()
        && same[same[i]] == i && kept.pair_eq(i, view, same[i]) by {
        assert(kept.pair_eq(i, view, i));
    }
    lemma_param_order(kept, view, same, same);
}

/// The parser finds in the text of a generated media type the parts at the
/// offsets at which they were written, where it takes every value: one that
/// is written as a token, or percent-encoded under a grammar other than the
/// strict one, is taken; one that is written as a quoted string is taken
/// where the scan of quoted strings takes all of it.
#[verifier::rlimit(40)]
pub proof fn lemma_generated_is_found(
    policy: Policy,
    type_: &str,
    subtype: &str,
    params: Seq<(&str, &str)>,
    view: MediaTypeView,
)
    requires
        generated(policy, type_, subtype, params) == Ok::<MediaTypeView, GenError>(view),
        view.bytes.len() <= usize::MAX,
        forall|i: int|
            0 <= i < params.len() ==> written_value_taken(
                policy,
                view.bytes,
                view.params[i].eq_idx + 1,
                (#[trigger] params[i]).1@,
            ),
    ensures
        spec_parse(policy, view.bytes) == Ok::<Parts, (int, ParserErrorKind)>(parts_of(view)),
{
    let head = head_text(name_text(type_), name_text(subtype));
    let n = params.len() as int;
    lemma_generated_text(policy, type_, subtype, params, view);
    assert(written_params(policy, params, 0).len() == 0);
    lemma_generated_head_found(policy, name_text(type_), name_text(subtype), params);
    lemma_params_found(policy, head, params, 0);
    lemma_indices_len(policy, head.len() as int, params, n);
    assert(view.params.subrange(0, n) == view.params);
    lemma_parts_found(policy, view.bytes, parts_of(view));
}

/// A generated media type comes back from its text: the parser finds its
/// parts, and what it keeps of them is a media type equal to the generated
/// one. This holds where the parser takes every value. A value that is
/// written as a token, or percent-encoded under a grammar other than the
/// strict one, is always taken.
pub proof fn lemma_round_trip(
    policy: Policy,
    type_: &str,
    subtype: &str,
    params: Seq<(&str, &str)>,
    view: MediaTypeView,
)
    requires
        generated(policy, type_, subtype, params) == Ok::<MediaTypeView, GenError>(view),
        view.bytes.len() <= usize::MAX,
        forall|i: int|
            0 <= i < params.len() ==> written_value_taken(
                policy,
                view.bytes,
                view.params[i].eq_idx + 1,
                (#[trigger] params[i]).1@,
            ),
    ensures
        spec_parse(policy, view.bytes) matches Ok(parts) && canonical(
            view.bytes,
            parts,
        ).media_type_eq(view),
{
    lemma_generated_is_found(policy, type_, subtype, params, view);
    lemma_generated_kept_equal(policy, type_, subtype, params, view);
}

} // verus!
