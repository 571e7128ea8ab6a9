//! Identities: opaque 32-byte public identifiers.

use vstd::prelude::*;

verus! {

/// Number of bytes in an identity.
pub const IDENTITY_BYTES: usize = 32;

/// An opaque 32-byte public identifier. Addresses of records are identities too.
#[derive(Clone, Copy, Debug, Eq)]
pub struct Identity {
    pub bytes: [u8; 32],
}

impl View for Identity {
    type V = Seq<u8>;

    open spec fn view(&self) -> Seq<u8> {
        self.bytes@
    }
}

impl DeepView for Identity {
    type V = Seq<u8>;

    open spec fn deep_view(&self) -> Seq<u8> {
        self.bytes@
    }
}

impl Identity {
    /// The identity made of the given bytes.
    pub fn new_from_array(bytes: [u8; 32]) -> (id: Identity)
        ensures
            id.bytes == bytes,
            id@ == bytes@,
    {
        Identity { bytes }
    }

    /// The bytes of the identity.
    pub fn to_bytes(&self) -> (bytes: [u8; 32])
        ensures
            bytes == self.bytes,
            bytes@ == self@,
    {
        self.bytes
    }

    /// Whether two identities are the same, byte for byte.
    pub fn same(&self, other: &Identity) -> (r: bool)
        ensures
            r == (*self == *other),
            r == (self@ == other@),
    {
        let mut i: usize = 0;
        while i < 32
            invariant
                i <= 32,
                forall|j: int| 0 <= j < i ==> self.bytes@[j] == other.bytes@[j],
            decreases 32 - i,
        {
            if self.bytes[i] != other.bytes[i] {
                return false;
            }
            i += 1;
        }
        assert(self.bytes@ =~= other.bytes@);
        assert(self.bytes == other.bytes);
        true
    }
}

impl PartialEq for Identity {
    fn eq(&self, other: &Identity) -> (r: bool) {
        self.same(other)
    }
}

impl vstd::std_specs::cmp::PartialEqSpecImpl for Identity {
    open spec fn obeys_eq_spec() -> bool {
        true
    }

    open spec fn eq_spec(&self, other: &Identity) -> bool {
        *self == *other
    }
}

/// Two identities with the same bytes are the same identity.
pub proof fn identity_ext(a: Identity, b: Identity)
    ensures
        (a@ == b@) == (a == b),
{
    if a@ == b@ {
        assert(a.bytes@ =~= b.bytes@);
        assert(a.bytes == b.bytes);
    }
}

} // verus!
