//! Identities: the opaque byte strings that name accounts and credentials.

use vstd::prelude::*;

verus! {

/// Width in bytes of an identity on the wire.
pub const WIRE_IDENTITY_LEN: usize = 32;

/// The unique key of an account, also used as a caller's credential.
/// Its view is the byte string itself; two identities are the same
/// exactly when their views are equal.
#[derive(Debug)]
pub struct Identity {
    bytes: Vec<u8>,
}

impl View for Identity {
    type V = Seq<u8>;

    closed spec fn view(&self) -> Seq<u8> {
        self.bytes@
    }
}

impl Identity {
    /// The identity with the given bytes.
    pub fn from_slice(bytes: &[u8]) -> (r: Identity)
        ensures
            r@ == bytes@,
    {
        Identity { bytes: vstd::slice::slice_to_vec(bytes) }
    }

    /// The identity that owns the given bytes.
    pub fn from_vec(bytes: Vec<u8>) -> (r: Identity)
        ensures
            r@ == bytes@,
    {
        Identity { bytes }
    }

    /// The bytes of the identity.
    pub fn as_bytes(&self) -> (r: &[u8])
        ensures
            r@ == self@,
    {
        self.bytes.as_slice()
    }

    /// Number of bytes in the identity.
    pub fn len(&self) -> (r: usize)
        ensures
            r == self@.len(),
    {
        self.bytes.len()
    }

    /// Whether both identities hold the same bytes.
    pub fn same(&self, other: &Identity) -> (r: bool)
        ensures
            r == (self@ == other@),
    {
        let r = self.bytes == other.bytes;
        proof {
            if r {
                assert(self.bytes@ =~= other.bytes@);
            }
        }
        r
    }
}

impl Clone for Identity {
    fn clone(&self) -> (r: Identity)
        ensures
            r@ == self@,
    {
        Identity { bytes: self.bytes.clone() }
    }
}

impl PartialEq for Identity {
    fn eq(&self, other: &Identity) -> (r: bool) {
        self.same(other)
    }
}

impl Eq for Identity {}

impl vstd::std_specs::cmp::PartialEqSpecImpl for Identity {
    open spec fn obeys_eq_spec() -> bool {
        true
    }

    open spec fn eq_spec(&self, other: &Identity) -> bool {
        self@ == other@
    }
}

/// The byte strings of a sequence of identities, in the same order.
pub open spec fn keys_of(identities: Seq<Identity>) -> Seq<Seq<u8>> {
    identities.map_values(|identity: Identity| identity@)
}

/// Whether `wanted` is among `identities`.
pub fn contains_identity(identities: &Vec<Identity>, wanted: &Identity) -> (r: bool)
    ensures
        r == keys_of(identities@).contains(wanted@),
{
    let mut i: usize = 0;
    while i < identities.len()
        invariant
            i <= identities.len(),
            forall|j: int| 0 <= j < i ==> keys_of(identities@)[j] != wanted@,
        decreases identities.len() - i,
    {
        if identities[i].same(wanted) {
            assert(keys_of(identities@)[i as int] == wanted@);
            return true;
        }
        i += 1;
    }
    false
}

/// Whether no identity occurs twice in `identities`.
pub fn all_distinct(identities: &Vec<Identity>) -> (r: bool)
    ensures
        r == keys_of(identities@).no_duplicates(),
{
    let ghost keys = keys_of(identities@);
    let mut i: usize = 0;
    while i < identities.len()
        invariant
            i <= identities.len(),
            keys == keys_of(identities@),
            forall|a: int, b: int| 0 <= a < b < i ==> keys[a] != keys[b],
        decreases identities.len() - i,
    {
        let mut j: usize = 0;
        while j < i
            invariant
                j <= i < identities.len(),
                keys == keys_of(identities@),
                forall|a: int| 0 <= a < j ==> keys[a] != keys[i as int],
            decreases i - j,
        {
            if identities[j].same(&identities[i]) {
                assert(keys[j as int] == keys[i as int]);
                return false;
            }
            j += 1;
        }
        i += 1;
    }
    assert forall|a: int, b: int| 0 <= a < keys.len() && 0 <= b < keys.len() && a != b implies keys[a]
        != keys[b] by {
        if a < b {
            assert(keys[a] != keys[b]);
        } else {
            assert(keys[b] != keys[a]);
        }
    }
    true
}

} // verus!
