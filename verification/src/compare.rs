//! Equality of media types: type and subtype without regard to case, and the
//! parameters without regard to their order. Two media types have the same
//! parameters where each pair of a name and a content occurs in the one as
//! often as in the other.
use vstd::prelude::*;
use std::collections::HashMap;
use crate::media_type::{AnyMediaType, MediaTypeView};
use crate::name::{lower_bytes, name_eq, to_lower};
use crate::parse::value_text;
use crate::value::value_eq;

verus! {

broadcast use vstd::std_specs::hash::group_hash_axioms;

impl MediaTypeView {
    /// Whether the parameter `i` of this media type and the parameter `j` of
    /// `other` have the same name, whatever the case, and the same content.
    pub open spec fn pair_eq(self, i: int, other: MediaTypeView, j: int) -> bool {
        name_eq(self.param_name(i), other.param_name(j)) && value_eq(
            self.param_value(i),
            other.param_value(j),
        )
    }

    /// How many of the first `upto` parameters of `other` have the name and
    /// the content of the parameter `i` of this media type.
    pub open spec fn count_like(self, i: int, other: MediaTypeView, upto: int) -> int
        decreases upto,
    {
        if upto <= 0 {
            0
        } else {
            self.count_like(i, other, upto - 1) + if self.pair_eq(i, other, upto - 1) {
                1int
            } else {
                0int
            }
        }
    }

    /// Whether the name and content of the parameter `i` of this media type
    /// occur in `other` as often as in this media type.
    pub open spec fn as_often(self, i: int, other: MediaTypeView) -> bool {
        self.count_like(i, self, self.params.len() as int) == self.count_like(
            i,
            other,
            other.params.len() as int,
        )
    }

    /// Whether the name and content of each parameter of this media type
    /// occur in `other` as often as in this media type.
    pub open spec fn params_in(self, other: MediaTypeView) -> bool {
        forall|i: int| 0 <= i < self.params.len() ==> #[trigger] self.as_often(i, other)
    }

    /// Whether the two media types have the same parameters, whatever their
    /// order: they have as many, and each pair of a name and a content
    /// occurs in the one as often as in the other.
    pub open spec fn params_eq(self, other: MediaTypeView) -> bool {
        &&& self.params.len() == other.params.len()
        &&& self.params_in(other)
        &&& other.params_in(self)
    }

    /// Whether the two media types are equal: the same type and subtype,
    /// whatever the case, and the same parameters.
    pub open spec fn media_type_eq(self, other: MediaTypeView) -> bool {
        &&& name_eq(self.type_bytes(), other.type_bytes())
        &&& name_eq(self.subtype_bytes(), other.subtype_bytes())
        &&& self.params_eq(other)
    }

    /// The number under which the name of the parameter `i` is filed.
    pub open spec fn param_hash(self, i: int) -> u64 {
        name_hash(self.param_name(i))
    }

    /// The number of the last parameter before `upto` that is filed under
    /// `hash`.
    pub open spec fn last_filed(self, hash: u64, upto: int) -> Option<int>
        decreases upto,
    {
        if upto <= 0 {
            None
        } else if self.param_hash(upto - 1) == hash {
            Some(upto - 1)
        } else {
            self.last_filed(hash, upto - 1)
        }
    }
}

/// The number that stands for "no parameter" in an index of names.
pub const NO_PARAM: usize = usize::MAX;

/// The number from which the filing of a name starts.
pub const HASH_SEED: u64 = 0xcbf29ce484222325;

/// One step of filing a name: the number so far, mixed with the next byte.
pub open spec fn mix(hash: u64, b: u8) -> u64 {
    (hash << 5) ^ (hash >> 59) ^ (b as u64)
}

/// The number under which the bytes are filed as they are.
pub open spec fn bytes_hash(bytes: Seq<u8>) -> u64
    decreases bytes.len(),
{
    if bytes.len() == 0 {
        HASH_SEED
    } else {
        mix(bytes_hash(bytes.drop_last()), bytes.last())
    }
}

/// The number under which a name is filed. Names that differ in case only
/// are filed under the same number.
pub open spec fn name_hash(name: Seq<u8>) -> u64 {
    bytes_hash(lower_bytes(name))
}

/// Computes the number under which `name` is filed.
pub fn hash_name(name: &[u8]) -> (hash: u64)
    ensures
        hash == name_hash(name@),
{
    let mut hash: u64 = HASH_SEED;
    let mut i: usize = 0;
    while i < name.len()
        invariant
            i <= name.len(),
            hash == bytes_hash(lower_bytes(name@).subrange(0, i as int)),
        decreases name.len() - i,
    {
        let b = to_lower(name[i]);
        proof {
            let upto = lower_bytes(name@).subrange(0, i + 1);
            assert(upto.drop_last() == lower_bytes(name@).subrange(0, i as int));
            assert(upto.last() == b);
        }
        hash = (hash << 5) ^ (hash >> 59) ^ (b as u64);
        i += 1;
    }
    assert(lower_bytes(name@).subrange(0, i as int) == lower_bytes(name@));
    hash
}

/// The last parameter filed under a number has that number, and none
/// behind it has.
pub proof fn lemma_last_filed(view: MediaTypeView, hash: u64, upto: int)
    ensures
        match view.last_filed(hash, upto) {
            Some(k) => 0 <= k < upto && view.param_hash(k) == hash && forall|m: int|
                k < m < upto ==> view.param_hash(m) != hash,
            None => forall|m: int| 0 <= m < upto ==> view.param_hash(m) != hash,
        },
    decreases upto,
{
    if upto > 0 && view.param_hash(upto - 1) != hash {
        lemma_last_filed(view, hash, upto - 1);
    }
}

/// A parameter is like none of those that are filed under another number
/// than its name.
pub proof fn lemma_count_skips(
    a: MediaTypeView,
    i: int,
    b: MediaTypeView,
    from: int,
    upto: int,
)
    requires
        from <= upto,
        forall|m: int| from <= m < upto ==> b.param_hash(m) != name_hash(a.param_name(i)),
    ensures
        a.count_like(i, b, upto) == a.count_like(i, b, from),
    decreases upto - from,
{
    if from < upto {
        lemma_count_skips(a, i, b, from, upto - 1);
        if upto > 0 && a.pair_eq(i, b, upto - 1) {
            assert(b.param_hash(upto - 1) == name_hash(a.param_name(i)));
        }
    }
}

/// With up to two parameters each, two media types whose values stand for
/// contents have the same parameters exactly if the parameters are the same
/// one by one, in this order or, for two, in the other.
pub proof fn lemma_few_params_eq(a: MediaTypeView, b: MediaTypeView)
    requires
        a.has_contents(),
        b.has_contents(),
        a.params.len() == b.params.len(),
        a.params.len() <= 2,
    ensures
        a.params.len() == 0 ==> a.params_eq(b),
        a.params.len() == 1 ==> a.params_eq(b) == a.pair_eq(0, b, 0),
        a.params.len() == 2 ==> a.params_eq(b) == ((a.pair_eq(0, b, 0) && a.pair_eq(1, b, 1)) || (
        a.pair_eq(0, b, 1) && a.pair_eq(1, b, 0))),
{
    reveal_with_fuel(MediaTypeView::count_like, 3);
    let n = a.params.len() as int;
    assert forall|i: int| 0 <= i < n implies a.pair_eq(i, a, i) && b.pair_eq(i, b, i) by {
        assert(a.param_value(i) == value_text(a.bytes, a.params[i]));
        assert(b.param_value(i) == value_text(b.bytes, b.params[i]));
    }
    if n == 1 {
        assert(a.pair_eq(0, a, 0) && b.pair_eq(0, b, 0));
        assert(a.pair_eq(0, b, 0) == b.pair_eq(0, a, 0));
        if a.pair_eq(0, b, 0) {
            assert(a.as_often(0, b));
            assert(b.as_often(0, a));
        } else {
            assert(!a.as_often(0, b));
        }
    } else if n == 2 {
        assert(a.pair_eq(0, a, 0) && b.pair_eq(0, b, 0));
        assert(a.pair_eq(1, a, 1) && b.pair_eq(1, b, 1));
        let same = a.pair_eq(0, b, 0) && a.pair_eq(1, b, 1);
        let swapped = a.pair_eq(0, b, 1) && a.pair_eq(1, b, 0);
        if same || swapped {
            assert(a.as_often(0, b));
            assert(a.as_often(1, b));
            assert(b.as_often(0, a));
            assert(b.as_often(1, a));
        } else if a.params_in(b) && b.params_in(a) {
            assert(a.as_often(0, b));
            assert(a.as_often(1, b));
            assert(b.as_often(0, a));
            assert(b.as_often(1, a));
        }
    }
}

/// An index of the names of the parameters of a media type: for each number
/// the last parameter that is filed under it, and for each parameter the one
/// before it that is filed under the same number.
pub struct NameIndex {
    pub heads: HashMap<u64, usize>,
    pub prev: Vec<usize>,
}

/// What an index holds for "the parameter `found`, if any".
pub open spec fn link(found: Option<int>) -> int {
    match found {
        Some(k) => k,
        None => NO_PARAM as int,
    }
}

impl NameIndex {
    /// Whether this is the index of the first `n` parameters of `view`.
    pub open spec fn indexes(&self, view: MediaTypeView, n: int) -> bool {
        &&& 0 <= n <= view.params.len()
        &&& n < NO_PARAM
        &&& self.prev@.len() == n
        &&& forall|i: int|
            0 <= i < n ==> (#[trigger] self.prev@[i]) as int == link(
                view.last_filed(view.param_hash(i), i),
            )
        &&& forall|hash: u64| #[trigger]
            self.heads@.contains_key(hash) <==> view.last_filed(hash, n) is Some
        &&& forall|hash: u64| #[trigger]
            self.heads@.contains_key(hash) ==> self.heads@[hash] as int == link(
                view.last_filed(hash, n),
            )
    }

    /// The index of the parameters of `media_type`.
    pub fn build(media_type: &AnyMediaType) -> (index: NameIndex)
        requires
            media_type@.params.len() < NO_PARAM,
        ensures
            index.indexes(media_type@, media_type@.params.len() as int),
    {
        let n = media_type.param_count();
        let mut index = NameIndex { heads: HashMap::new(), prev: Vec::new() };
        let mut i: usize = 0;
        while i < n
            invariant
                n == media_type@.params.len(),
                n < NO_PARAM,
                i <= n,
                index.indexes(media_type@, i as int),
            decreases n - i,
        {
            let (name, _) = media_type.param_at(i);
            let hash = hash_name(name.source.as_bytes());
            let ghost before = index;
            let before_it = match index.heads.get(&hash) {
                Some(k) => *k,
                None => NO_PARAM,
            };
            index.prev.push(before_it);
            index.heads.insert(hash, i);
            proof {
                let view = media_type@;
                assert(view.param_hash(i as int) == hash);
                assert forall|k: int| 0 <= k < i + 1 implies (#[trigger] index.prev@[k]) as int
                    == link(view.last_filed(view.param_hash(k), k)) by {
                    if k < i {
                        assert(index.prev@[k] == before.prev@[k]);
                    }
                }
                assert forall|other: u64| #[trigger]
                    index.heads@.contains_key(other) <==> view.last_filed(
                        other,
                        i + 1,
                    ) is Some by {
                    if other != hash {
                        assert(before.heads@.contains_key(other) <==> view.last_filed(
                            other,
                            i as int,
                        ) is Some);
                    }
                }
                assert forall|other: u64| #[trigger]
                    index.heads@.contains_key(other) implies index.heads@[other] as int == link(
                    view.last_filed(other, i + 1),
                ) by {
                    if other != hash {
                        assert(before.heads@.contains_key(other));
                    }
                }
            }
            i += 1;
        }
        index
    }

    /// How many parameters of `target`, whose index this is, have the name
    /// and the content of the parameter `i` of `probe`. Only the parameters
    /// that are filed under the number of that name are looked at.
    pub fn count_like(&self, target: &AnyMediaType, probe: &AnyMediaType, i: usize) -> (count:
        usize)
        requires
            self.indexes(target@, target@.params.len() as int),
            i < probe@.params.len(),
        ensures
            count == probe@.count_like(i as int, target@, target@.params.len() as int),
    {
        let ghost view = target@;
        let ghost n = view.params.len() as int;
        let (name, _) = probe.param_at(i);
        let hash = hash_name(name.source.as_bytes());
        let mut at = match self.heads.get(&hash) {
            Some(k) => *k,
            None => NO_PARAM,
        };
        let ghost upto = n;
        let mut count: usize = 0;
        proof {
            lemma_last_filed(view, hash, n);
        }
        loop
            invariant
                view == target@,
                n == view.params.len(),
                i < probe@.params.len(),
                hash == name_hash(probe@.param_name(i as int)),
                self.indexes(view, n),
                0 <= upto <= n,
                at as int == link(view.last_filed(hash, upto)),
                count <= n - upto,
                count + probe@.count_like(i as int, view, upto) == probe@.count_like(
                    i as int,
                    view,
                    n,
                ),
            decreases upto,
        {
            proof {
                lemma_last_filed(view, hash, upto);
            }
            if at == NO_PARAM {
                proof {
                    lemma_count_skips(probe@, i as int, view, 0, upto);
                }
                return count;
            }
            proof {
                lemma_count_skips(probe@, i as int, view, at + 1, upto);
            }
            if probe.same_pair(i, target, at) {
                count += 1;
            }
            proof {
                upto = at as int;
            }
            at = self.prev[at];
        }
    }
}

impl AnyMediaType {
    /// Whether the parameter `i` of this media type and the parameter `j` of
    /// `other` have the same name.
    fn same_name(&self, i: usize, other: &AnyMediaType, j: usize) -> (r: bool)
        requires
            i < self@.params.len(),
            j < other@.params.len(),
        ensures
            r == name_eq(self@.param_name(i as int), other@.param_name(j as int)),
    {
        let (name, _) = self.param_at(i);
        let (other_name, _) = other.param_at(j);
        name.eq_name(&other_name)
    }

    /// Whether the parameter `i` of this media type and the parameter `j` of
    /// `other` have the same content.
    fn same_value(&self, i: usize, other: &AnyMediaType, j: usize) -> (r: bool)
        requires
            i < self@.params.len(),
            j < other@.params.len(),
        ensures
            r == value_eq(self@.param_value(i as int), other@.param_value(j as int)),
    {
        let (_, value) = self.param_at(i);
        let (_, other_value) = other.param_at(j);
        value.eq_value(&other_value)
    }

    /// Whether the parameter `i` of this media type and the parameter `j` of
    /// `other` have the same name and the same content.
    fn same_pair(&self, i: usize, other: &AnyMediaType, j: usize) -> (r: bool)
        requires
            i < self@.params.len(),
            j < other@.params.len(),
        ensures
            r == self@.pair_eq(i as int, other@, j as int),
    {
        self.same_name(i, other, j) && self.same_value(i, other, j)
    }

    /// Whether the name and content of each parameter of this media type
    /// occur in `other` as often as in this media type, by the indexes of
    /// the names of the two.
    fn occurs_as_often(&self, own: &NameIndex, other: &AnyMediaType, theirs: &NameIndex) -> (r:
        bool)
        requires
            own.indexes(self@, self@.params.len() as int),
            theirs.indexes(other@, other@.params.len() as int),
        ensures
            r == self@.params_in(other@),
    {
        let n = self.param_count();
        let mut i: usize = 0;
        while i < n
            invariant
                n == self@.params.len(),
                i <= n,
                own.indexes(self@, self@.params.len() as int),
                theirs.indexes(other@, other@.params.len() as int),
                forall|k: int| 0 <= k < i ==> #[trigger] self@.as_often(k, other@),
            decreases n - i,
        {
            let here = own.count_like(self, self, i);
            let there = theirs.count_like(other, self, i);
            if here != there {
                assert(!self@.as_often(i as int, other@));
                return false;
            }
            i += 1;
        }
        true
    }

    /// Whether the two media types are equal: the same type and subtype,
    /// whatever the case, and the same parameters, whatever their order.
    ///
    /// Media types with up to two parameters are compared pair by pair.
    /// With more, the names of both are indexed, and each parameter is
    /// counted on both sides among the parameters that are filed with it.
    pub fn eq_media_type(&self, other: &AnyMediaType) -> (r: bool)
        ensures
            r == self@.media_type_eq(other@),
    {
        if !self.type_().eq_name(&other.type_()) || !self.subtype().eq_name(&other.subtype()) {
            return false;
        }
        let len = self.param_count();
        let other_len = other.param_count();
        if len != other_len {
            return false;
        }
        if len <= 2 {
            proof {
                lemma_few_params_eq(self@, other@);
            }
            if len == 0 {
                true
            } else if len == 1 {
                self.same_pair(0, other, 0)
            } else {
                (self.same_pair(0, other, 0) && self.same_pair(1, other, 1)) || (self.same_pair(
                    0,
                    other,
                    1,
                ) && self.same_pair(1, other, 0))
            }
        } else {
            let own = NameIndex::build(self);
            let theirs = NameIndex::build(other);
            self.occurs_as_often(&own, other, &theirs) && other.occurs_as_often(&theirs, self, &own)
        }
    }
}

} // verus!
