//! Names: of a type, a subtype, a parameter.
use vstd::prelude::*;
use vstd::string::StringSliceAdditionalSpecFns;

verus! {

/// The lower case form of a US-ASCII letter; any other byte as it is.
pub open spec fn lower_byte(b: u8) -> u8 {
    if 0x41 <= b <= 0x5a {
        (b + 0x20) as u8
    } else {
        b
    }
}

/// The bytes with every US-ASCII letter in lower case.
pub open spec fn lower_bytes(bytes: Seq<u8>) -> Seq<u8> {
    Seq::new(bytes.len(), |i: int| lower_byte(bytes[i]))
}

/// Whether two names are the same, whatever the case of their US-ASCII
/// letters.
pub open spec fn name_eq(a: Seq<u8>, b: Seq<u8>) -> bool {
    lower_bytes(a) == lower_bytes(b)
}

/// The lower case form of `b`.
pub fn to_lower(b: u8) -> (r: u8)
    ensures
        r == lower_byte(b),
{
    if 0x41 <= b && b <= 0x5a {
        b + 0x20
    } else {
        b
    }
}

/// Whether `a` and `b` hold the same bytes, whatever the case of their
/// US-ASCII letters.
pub fn bytes_eq_ignore_ascii_case(a: &[u8], b: &[u8]) -> (r: bool)
    ensures
        r == name_eq(a@, b@),
{
    if a.len() != b.len() {
        assert(lower_bytes(a@).len() != lower_bytes(b@).len());
        return false;
    }
    let mut i: usize = 0;
    while i < a.len()
        invariant
            i <= a.len(),
            a.len() == b.len(),
            forall|k: int| 0 <= k < i ==> lower_byte(a@[k]) == lower_byte(b@[k]),
        decreases a.len() - i,
    {
        if to_lower(a[i]) != to_lower(b[i]) {
            assert(lower_bytes(a@)[i as int] != lower_bytes(b@)[i as int]);
            return false;
        }
        i += 1;
    }
    assert(lower_bytes(a@) =~= lower_bytes(b@));
    true
}

/// Lower case is idempotent: the lower case form of a name is the same name.
pub proof fn lemma_lower_is_same_name(name: Seq<u8>)
    ensures
        name_eq(lower_bytes(name), name),
        lower_bytes(lower_bytes(name)) == lower_bytes(name),
{
    assert(lower_bytes(lower_bytes(name)) == lower_bytes(name));
}

/// The name of a type, a subtype or a parameter. Names are compared without
/// regard to the case of their US-ASCII letters.
#[derive(Clone, Copy, Debug)]
pub struct Name<'a> {
    pub source: &'a str,
}

/// The type `text`.
pub const TEXT: &'static str = "text";

/// The subtype `plain`.
pub const PLAIN: &'static str = "plain";

/// The type `multipart`.
pub const MULTIPART: &'static str = "multipart";

/// The parameter `charset`.
pub const CHARSET: &'static str = "charset";

impl<'a> Name<'a> {
    /// The name that is written as `source`.
    pub fn new_unchecked(source: &'a str) -> (r: Name<'a>)
        ensures
            r.source == source,
    {
        Name { source }
    }

    /// The name as it is written.
    pub fn as_str(&self) -> (r: &'a str)
        ensures
            r == self.source,
    {
        self.source
    }

    /// The bytes of the name.
    pub open spec fn bytes(&self) -> Seq<u8> {
        self.source.spec_bytes()
    }

    /// Whether this is the name `other`, whatever the case.
    pub fn eq_name(&self, other: &Name<'_>) -> (r: bool)
        ensures
            r == name_eq(self.bytes(), other.bytes()),
    {
        bytes_eq_ignore_ascii_case(self.source.as_bytes(), other.source.as_bytes())
    }

    /// Whether this is the name that is written as `other`, whatever the
    /// case.
    pub fn eq_str(&self, other: &str) -> (r: bool)
        ensures
            r == name_eq(self.bytes(), other.spec_bytes()),
    {
        bytes_eq_ignore_ascii_case(self.source.as_bytes(), other.as_bytes())
    }
}

} // verus!
