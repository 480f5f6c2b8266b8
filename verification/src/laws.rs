//! What holds of the library as a whole.
use vstd::prelude::*;
use crate::chars::is_ws_byte;
use crate::error::ParserErrorKind;
use crate::media_type::MediaTypeView;
use vstd::string::StringSliceAdditionalSpecFns;
use crate::name::{lemma_lower_is_same_name, lower_bytes, name_eq, CHARSET};
use crate::parse::cfws::{
    spec_comment, spec_fws, spec_fws_obs, spec_opt_comment, spec_opt_crlf_seq, spec_ws_seq_end,
};
use crate::parse::impl_spec::spec_space;
use crate::parse::{
    end_before, head_ok, param_fits, params_ok, shifted, spec_param, spec_params, spec_parse,
    tail, ParamIndices, Parts,
    value_text,
};
use crate::spec::Policy;
use vstd::relations::injective_on;
use vstd::set_lib::lemma_map_size;
use crate::value::{value_content, value_eq, value_eq_ignore_ascii_case};

verus! {

/// Names are compared without regard to case: a name in lower case is the
/// same name, and names are the same if and only if they are as long as each
/// other and agree byte by byte in lower case.
pub proof fn lemma_names_without_case(a: Seq<u8>, b: Seq<u8>)
    ensures
        name_eq(lower_bytes(a), a),
        name_eq(a, b) <==> a.len() == b.len() && (forall|i: int|
            0 <= i < a.len() ==> lower_bytes(a)[i] == lower_bytes(b)[i]),
{
    lemma_lower_is_same_name(a);
    if a.len() == b.len() && (forall|i: int|
        0 <= i < a.len() ==> lower_bytes(a)[i] == lower_bytes(b)[i]) {
        assert(lower_bytes(a) == lower_bytes(b));
    }
    if name_eq(a, b) {
        assert(lower_bytes(a).len() == lower_bytes(b).len());
    }
}

/// Values are compared with regard to case: equal values stand for the same
/// characters.
pub proof fn lemma_values_with_case(a: Seq<char>, b: Seq<char>)
    requires
        value_eq(a, b),
    ensures
        value_content(a) is Some,
        value_content(a) == value_content(b),
        value_eq_ignore_ascii_case(a, b),
{
}

/// Whether the parameter `charset` counts as UTF-8 depends on what its value
/// stands for, not on the case of its letters and not on quotes: two media
/// types whose first parameters `charset` have the same content but for
/// case agree on it.
pub proof fn lemma_utf8_charset_by_content(a: MediaTypeView, b: MediaTypeView, i: int, j: int)
    requires
        a.first_named(CHARSET.spec_bytes(), 0) == Some(i),
        b.first_named(CHARSET.spec_bytes(), 0) == Some(j),
        value_eq_ignore_ascii_case(a.param_value(i), b.param_value(j)),
    ensures
        a.has_utf8_charset() == b.has_utf8_charset(),
{
}

/// Whether the parameters of `b` are those of `a` in another order: `to`
/// gives for each parameter of `a` the number of a parameter of `b` with the
/// same name and content, `back` gives the way back.
pub open spec fn rearranged(
    a: MediaTypeView,
    b: MediaTypeView,
    to: Seq<int>,
    back: Seq<int>,
) -> bool {
    &&& a.params.len() == b.params.len()
    &&& to.len() == a.params.len()
    &&& back.len() == a.params.len()
    &&& forall|i: int|
        0 <= i < to.len() ==> 0 <= #[trigger] to[i] < to.len() && back[to[i]] == i && a.pair_eq(
            i,
            b,
            to[i],
        )
    &&& forall|j: int|
        0 <= j < back.len() ==> 0 <= #[trigger] back[j] < to.len() && to[back[j]] == j
}

/// Two values with the same content are equal either way round.
pub proof fn lemma_value_eq_symmetric(a: Seq<char>, b: Seq<char>)
    ensures
        value_eq(a, b) == value_eq(b, a),
{
}

/// The parameters among the first `upto` of `a` that have the name and the
/// content of the parameter `i` of `x`.
pub open spec fn alike(x: MediaTypeView, i: int, a: MediaTypeView, upto: int) -> Set<int> {
    Set::new(|k: int| 0 <= k < upto && x.pair_eq(i, a, k))
}

/// A count of parameters is the number of the parameters counted.
pub proof fn lemma_count_is_len(x: MediaTypeView, i: int, a: MediaTypeView, upto: int)
    requires
        0 <= upto,
    ensures
        alike(x, i, a, upto).finite(),
        alike(x, i, a, upto).len() == x.count_like(i, a, upto),
    decreases upto,
{
    if upto == 0 {
        assert(alike(x, i, a, upto) =~= Set::<int>::empty());
    } else {
        lemma_count_is_len(x, i, a, upto - 1);
        let before = alike(x, i, a, upto - 1);
        if x.pair_eq(i, a, upto - 1) {
            assert(alike(x, i, a, upto) =~= before.insert(upto - 1));
        } else {
            assert(alike(x, i, a, upto) =~= before);
        }
    }
}

/// Parameters with the same name and content are counted alike: each is
/// like what the other is like.
pub proof fn lemma_count_same(
    a: MediaTypeView,
    i: int,
    b: MediaTypeView,
    j: int,
    c: MediaTypeView,
    upto: int,
)
    requires
        a.pair_eq(i, b, j),
    ensures
        a.count_like(i, c, upto) == b.count_like(j, c, upto),
    decreases upto,
{
    if upto > 0 {
        lemma_count_same(a, i, b, j, c, upto - 1);
        assert(a.pair_eq(i, c, upto - 1) == b.pair_eq(j, c, upto - 1));
    }
}

/// A parameter is counted at least once exactly where one is like it.
pub proof fn lemma_count_some(a: MediaTypeView, i: int, b: MediaTypeView, upto: int)
    ensures
        a.count_like(i, b, upto) >= 0,
        a.count_like(i, b, upto) > 0 <==> exists|k: int| 0 <= k < upto && a.pair_eq(i, b, k),
    decreases upto,
{
    if upto > 0 {
        lemma_count_some(a, i, b, upto - 1);
        if a.count_like(i, b, upto) > 0 {
            if a.pair_eq(i, b, upto - 1) {
            } else {
                let k = choose|k: int| 0 <= k < upto - 1 && a.pair_eq(i, b, k);
                assert(0 <= k < upto && a.pair_eq(i, b, k));
            }
        }
        if exists|k: int| 0 <= k < upto && a.pair_eq(i, b, k) {
            let k = choose|k: int| 0 <= k < upto && a.pair_eq(i, b, k);
            if k < upto - 1 {
                assert(0 <= k < upto - 1 && a.pair_eq(i, b, k));
            }
        }
    }
}

/// What is like a parameter is counted as often in a media type as in one
/// that has the same parameters in another order.
pub proof fn lemma_count_rearranged(
    a: MediaTypeView,
    b: MediaTypeView,
    to: Seq<int>,
    back: Seq<int>,
    x: MediaTypeView,
    i: int,
)
    requires
        rearranged(a, b, to, back),
    ensures
        x.count_like(i, a, a.params.len() as int) == x.count_like(i, b, b.params.len() as int),
{
    let n = a.params.len() as int;
    let in_a = alike(x, i, a, n);
    let in_b = alike(x, i, b, n);
    let step = |k: int| if 0 <= k < n { to[k] } else { k };
    lemma_count_is_len(x, i, a, n);
    lemma_count_is_len(x, i, b, n);
    assert(injective_on(step, in_a)) by {
        assert forall|k: int, m: int|
            in_a.contains(k) && in_a.contains(m) && #[trigger] step(k) == #[trigger] step(
                m,
            ) implies k == m by {
            assert(back[to[k]] == k && back[to[m]] == m);
        }
    }
    assert(in_a.map(step) =~= in_b) by {
        assert forall|j: int| in_b.contains(j) implies in_a.map(step).contains(j) by {
            let k = back[j];
            assert(to[k] == j);
            assert(a.pair_eq(k, b, to[k]));
            assert(x.pair_eq(i, a, k));
            assert(in_a.contains(k) && step(k) == j);
        }
        assert forall|j: int| in_a.map(step).contains(j) implies in_b.contains(j) by {
            let k = choose|k: int| in_a.contains(k) && j == step(k);
            assert(a.pair_eq(k, b, to[k]));
            assert(x.pair_eq(i, b, j));
        }
    }
    lemma_map_size(in_a, in_b, step);
}

/// The order of the parameters does not count: two media types with the
/// same type and subtype are equal if the parameters of the one are those
/// of the other in another order.
pub proof fn lemma_param_order(a: MediaTypeView, b: MediaTypeView, to: Seq<int>, back: Seq<int>)
    requires
        name_eq(a.type_bytes(), b.type_bytes()),
        name_eq(a.subtype_bytes(), b.subtype_bytes()),
        rearranged(a, b, to, back),
    ensures
        a.media_type_eq(b),
        b.media_type_eq(a),
{
    assert forall|i: int| 0 <= i < a.params.len() implies #[trigger] a.as_often(i, b) by {
        lemma_count_rearranged(a, b, to, back, a, i);
    }
    assert forall|j: int| 0 <= j < b.params.len() implies #[trigger] b.as_often(j, a) by {
        lemma_count_rearranged(a, b, to, back, b, j);
    }
}

/// A media type equals itself.
pub proof fn lemma_eq_reflexive(a: MediaTypeView)
    ensures
        a.media_type_eq(a),
{
    assert forall|i: int| 0 <= i < a.params.len() implies #[trigger] a.as_often(i, a) by {}
}

/// Equality of media types holds either way round.
pub proof fn lemma_eq_symmetric(a: MediaTypeView, b: MediaTypeView)
    requires
        a.media_type_eq(b),
    ensures
        b.media_type_eq(a),
{
}

/// What occurs as often in a second media type as in the first, and as often
/// in a third as in the second, occurs as often in the third as in the
/// first.
pub proof fn lemma_params_in_transitive(a: MediaTypeView, b: MediaTypeView, c: MediaTypeView)
    requires
        a.params_in(b),
        b.params_in(c),
    ensures
        a.params_in(c),
{
    let n = a.params.len() as int;
    let m = b.params.len() as int;
    let l = c.params.len() as int;
    assert forall|i: int| 0 <= i < n implies #[trigger] a.as_often(i, c) by {
        assert(a.as_often(i, b));
        lemma_count_some(a, i, b, m);
        lemma_count_some(a, i, c, l);
        lemma_count_some(a, i, a, n);
        if a.count_like(i, b, m) > 0 {
            let j = choose|j: int| 0 <= j < m && a.pair_eq(i, b, j);
            assert(b.as_often(j, c));
            lemma_count_same(a, i, b, j, b, m);
            lemma_count_same(a, i, b, j, c, l);
        } else {
            if a.count_like(i, c, l) > 0 {
                let k = choose|k: int| 0 <= k < l && a.pair_eq(i, c, k);
                assert(a.pair_eq(i, a, i));
            }
        }
    }
}

/// Equality of media types carries over: if the first equals the second and
/// the second the third, the first equals the third.
pub proof fn lemma_eq_transitive(a: MediaTypeView, b: MediaTypeView, c: MediaTypeView)
    requires
        a.media_type_eq(b),
        b.media_type_eq(c),
    ensures
        a.media_type_eq(c),
{
    assert(name_eq(a.type_bytes(), c.type_bytes()));
    assert(name_eq(a.subtype_bytes(), c.subtype_bytes()));
    lemma_params_in_transitive(a, b, c);
    lemma_params_in_transitive(c, b, a);
}

/// Media types in which a pair of a name and a content occurs a different
/// number of times are not equal.
pub proof fn lemma_counts_decide(a: MediaTypeView, b: MediaTypeView, i: int)
    requires
        0 <= i < a.params.len(),
        a.count_like(i, a, a.params.len() as int) != a.count_like(i, b, b.params.len() as int),
    ensures
        !a.media_type_eq(b),
        !b.media_type_eq(a),
{
    assert(!a.as_often(i, b));
}

/// The order of the parameters does not count in what was kept: where the
/// value of each parameter stands for a content, two media types with the
/// same type and subtype whose parameters are the same names and values in
/// another order are equal, either way round.
pub proof fn lemma_permuted_equal(
    a: MediaTypeView,
    b: MediaTypeView,
    to: Seq<int>,
    back: Seq<int>,
)
    requires
        a.has_contents(),
        name_eq(a.type_bytes(), b.type_bytes()),
        name_eq(a.subtype_bytes(), b.subtype_bytes()),
        a.params.len() == b.params.len(),
        to.len() == a.params.len(),
        back.len() == a.params.len(),
        forall|i: int|
            0 <= i < to.len() ==> 0 <= #[trigger] to[i] < to.len() && back[to[i]] == i && name_eq(
                a.param_name(i),
                b.param_name(to[i]),
            ) && a.param_value(i) == b.param_value(to[i]),
        forall|j: int| 0 <= j < back.len() ==> 0 <= #[trigger] back[j] < to.len() && to[back[j]] == j,
    ensures
        a.media_type_eq(b),
        b.media_type_eq(a),
{
    let n = a.params.len() as int;
    assert forall|i: int| 0 <= i < n implies a.pair_eq(i, b, #[trigger] to[i]) by {
        assert(a.param_value(i) == value_text(a.bytes, a.params[i]));
    }
    lemma_param_order(a, b, to, back);
}

/// Line folds one after the other: for each byte of `ws` a carriage
/// return, a line feed and that byte.
pub open spec fn folds_of(ws: Seq<u8>) -> Seq<u8> {
    Seq::new(
        3 * ws.len(),
        |i: int|
            if i % 3 == 0 {
                0x0du8
            } else if i % 3 == 1 {
                0x0au8
            } else {
                ws[i / 3]
            },
    )
}

/// From each of its folds on, the folding white space of the obsolete
/// grammar in a text of line folds reaches to the end of the folds, where
/// nothing or a byte other than a space, a tab and a carriage return
/// follows them.
proof fn lemma_folds_taken_from(ws: Seq<u8>, after: Seq<u8>, k: int)
    requires
        forall|i: int| 0 <= i < ws.len() ==> is_ws_byte(#[trigger] ws[i]),
        after.len() > 0 ==> !is_ws_byte(after[0]) && after[0] != 0x0d,
        0 <= k <= ws.len(),
    ensures
        spec_fws_obs(folds_of(ws) + after, 3 * k) == Ok::<int, ParserErrorKind>(
            (3 * ws.len()) as int,
        ),
    decreases ws.len() - k,
{
    let bytes = folds_of(ws) + after;
    let offset = 3 * k;
    assert(bytes.len() == 3 * ws.len() + after.len());
    if k < ws.len() {
        assert(bytes[offset] == folds_of(ws)[3 * k]);
        assert(bytes[offset + 1] == folds_of(ws)[3 * k + 1]);
        assert(bytes[offset + 2] == folds_of(ws)[3 * k + 2]);
        assert(bytes[offset + 2] == ws[k]);
        if k + 1 < ws.len() {
            assert(bytes[offset + 3] == folds_of(ws)[3 * (k + 1)]);
        } else if after.len() > 0 {
            assert(bytes[offset + 3] == after[0]);
        }
        assert(spec_opt_crlf_seq(bytes, offset) == Ok::<int, ParserErrorKind>(offset + 3));
        assert(spec_ws_seq_end(bytes, offset + 3) == offset + 3);
        lemma_folds_taken_from(ws, after, k + 1);
    } else {
        if after.len() > 0 {
            assert(bytes[offset] == after[0]);
        }
        assert(spec_ws_seq_end(bytes, offset) == offset);
    }
}

/// The obsolete grammar takes any number of line folds one after the other,
/// each a carriage return, a line feed and a space or a tab, as one folding
/// white space: all of them, where nothing or a byte other than a space, a
/// tab and a carriage return follows.
pub proof fn lemma_folds_taken(ws: Seq<u8>, after: Seq<u8>)
    requires
        forall|i: int| 0 <= i < ws.len() ==> is_ws_byte(#[trigger] ws[i]),
        after.len() > 0 ==> !is_ws_byte(after[0]) && after[0] != 0x0d,
    ensures
        spec_fws_obs(folds_of(ws) + after, 0) == Ok::<int, ParserErrorKind>(
            (3 * ws.len()) as int,
        ),
        spec_fws(true, folds_of(ws) + after, 0) == Ok::<int, ParserErrorKind>(
            (3 * ws.len()) as int,
        ),
{
    lemma_folds_taken_from(ws, after, 0);
}

/// A comment that holds line folds only.
pub open spec fn folded_comment(ws: Seq<u8>) -> Seq<u8> {
    seq![0x28u8] + folds_of(ws) + seq![0x29u8]
}

/// From each of its folds on, the folding white space in a comment of folds
/// reaches to the closing bracket.
proof fn lemma_folds_skipped(ws: Seq<u8>, k: int)
    requires
        forall|i: int| 0 <= i < ws.len() ==> is_ws_byte(#[trigger] ws[i]),
        0 <= k <= ws.len(),
    ensures
        spec_fws_obs(folded_comment(ws), 1 + 3 * k) == Ok::<int, ParserErrorKind>(
            (1 + 3 * ws.len()) as int,
        ),
    decreases ws.len() - k,
{
    let bytes = folded_comment(ws);
    let offset = 1 + 3 * k;
    assert(bytes.len() == 2 + 3 * ws.len());
    if k < ws.len() {
        assert(bytes[offset] == folds_of(ws)[3 * k]);
        assert(bytes[offset + 1] == folds_of(ws)[3 * k + 1]);
        assert(bytes[offset + 2] == folds_of(ws)[3 * k + 2]);
        assert(bytes[offset + 2] == ws[k]);
        if k + 1 < ws.len() {
            assert(bytes[offset + 3] == folds_of(ws)[3 * (k + 1)]);
        } else {
            assert(bytes[offset + 3] == 0x29);
        }
        assert(spec_opt_crlf_seq(bytes, offset) == Ok::<int, ParserErrorKind>(offset + 3));
        assert(spec_ws_seq_end(bytes, offset + 3) == offset + 3);
        lemma_folds_skipped(ws, k + 1);
    } else {
        assert(bytes[offset] == 0x29);
        assert(spec_ws_seq_end(bytes, offset) == offset);
    }
}

/// The obsolete grammar takes any number of line folds in a comment, each
/// a carriage return, a line feed and a space or a tab.
pub proof fn lemma_folds_in_comment(utf8: bool, ws: Seq<u8>)
    requires
        forall|i: int| 0 <= i < ws.len() ==> is_ws_byte(#[trigger] ws[i]),
    ensures
        spec_opt_comment(true, utf8, folded_comment(ws)) == Ok::<Option<int>, ParserErrorKind>(
            Some(folded_comment(ws).len() as int),
        ),
{
    let bytes = folded_comment(ws);
    lemma_folds_skipped(ws, 0);
    assert(bytes.len() == 2 + 3 * ws.len());
    assert(bytes[0] == 0x28);
    assert(bytes[(1 + 3 * ws.len()) as int] == 0x29);
}

/// A line feed that no line fold holds is refused in a comment, in either
/// grammar, at its own offset.
pub proof fn lemma_bare_line_feed(obs: bool, utf8: bool, bytes: Seq<u8>, offset: int, at: int)
    requires
        spec_fws(obs, bytes, offset) == Ok::<int, ParserErrorKind>(at),
        0 <= offset <= at < bytes.len(),
        bytes[at] == 0x0a,
    ensures
        spec_comment(obs, utf8, bytes, offset) == Err::<int, ParserErrorKind>(
            ParserErrorKind::IllegalCrNlSeq { pos: at as usize },
        ),
{
}

/// Parameters that the parser found reach to the white space at the end of
/// the text.
pub proof fn lemma_params_take_all(
    policy: Policy,
    bytes: Seq<u8>,
    offset: int,
    params: Seq<ParamIndices>,
)
    requires
        spec_params(policy, bytes, offset) == Ok::<Seq<ParamIndices>, (int, ParserErrorKind)>(
            params,
        ),
        params_ok(bytes, offset, params),
    ensures
        shifted(
            spec_space(
                policy,
                tail(bytes, end_before(offset, params, params.len() as int)),
            ),
            end_before(offset, params, params.len() as int),
        ) == Ok::<int, (int, ParserErrorKind)>(bytes.len() as int),
    decreases params.len(),
{
    match spec_param(policy, bytes, offset) {
        Ok(Some(p)) => {
            assert(params.len() > 0);
            assert(params[0] == p);
            assert(param_fits(bytes, offset, params, 0));
            let rest = spec_params(policy, bytes, p.end as int)->Ok_0;
            assert(params == seq![p] + rest);
            assert(rest == params.drop_first());
            assert forall|i: int| 0 <= i < rest.len() implies #[trigger] param_fits(
                bytes,
                p.end as int,
                rest,
                i,
            ) by {
                assert(param_fits(bytes, offset, params, i + 1));
                assert(rest[i] == params[i + 1]);
                if i > 0 {
                    assert(rest[i - 1] == params[i]);
                }
            }
            lemma_params_take_all(policy, bytes, p.end as int, rest);
            if rest.len() > 0 {
                assert(rest[rest.len() - 1] == params[params.len() - 1]);
            }
        },
        _ => {},
    }
}

/// Nothing of a media type is left out: behind the last part that the
/// parser found there is only white space, up to the end of the text.
pub proof fn lemma_parse_takes_all(policy: Policy, bytes: Seq<u8>, parts: Parts)
    requires
        spec_parse(policy, bytes) == Ok::<Parts, (int, ParserErrorKind)>(parts),
        head_ok(bytes, parts.slash_idx, parts.end_of_type_idx),
        params_ok(bytes, parts.end_of_type_idx, parts.params),
    ensures
        shifted(
            spec_space(
                policy,
                tail(
                    bytes,
                    end_before(parts.end_of_type_idx, parts.params, parts.params.len() as int),
                ),
            ),
            end_before(parts.end_of_type_idx, parts.params, parts.params.len() as int),
        ) == Ok::<int, (int, ParserErrorKind)>(bytes.len() as int),
{
    lemma_params_take_all(policy, bytes, parts.end_of_type_idx, parts.params);
}

} // verus!
