//! Derived addresses: where the records of an identity are stored.
//!
//! The address of a record is derived from the identity that owns it, the
//! namespace of the record and, for a post, the sequence number of the post.
//! The derivation itself is the host ledger's: a search for the nonce that
//! puts the hash of the seeds outside the space of addresses that have a
//! signing key.

use solana_program::pubkey::Pubkey;
use vstd::prelude::*;
use vstd::slice::slice_to_vec;
use vstd::string::StringSliceAdditionalSpecFns;

use crate::identity::Identity;

verus! {

/// The name of the namespace of follow lists.
pub const PROFILE_SEED: &'static str = "profile";

/// The name of the namespace of post counters and posts.
pub const POST_SEED: &'static str = "post";

/// The kind of record that an address is derived for.
#[derive(Clone, Copy, Debug, PartialEq, Eq, Structural)]
pub enum Namespace {
    /// The follow list of an identity.
    Profile,
    /// The post counter of an identity, and its posts.
    Post,
}

impl Namespace {
    /// The name by which a request selects the namespace.
    pub open spec fn name(self) -> Seq<char> {
        match self {
            Namespace::Profile => PROFILE_SEED@,
            Namespace::Post => POST_SEED@,
        }
    }

    /// The salt that the namespace adds to a derivation: its name in UTF-8.
    pub open spec fn salt(self) -> Seq<u8> {
        match self {
            Namespace::Profile => PROFILE_SEED.spec_bytes(),
            Namespace::Post => POST_SEED.spec_bytes(),
        }
    }

    /// The namespace with the given name, if there is one.
    pub fn from_name(name: &str) -> (r: Option<Namespace>)
        ensures
            r == Namespace::named(name@),
    {
        if str_equal(name, PROFILE_SEED) {
            Some(Namespace::Profile)
        } else if str_equal(name, POST_SEED) {
            Some(Namespace::Post)
        } else {
            None
        }
    }

    /// The namespace that a name selects.
    pub open spec fn named(name: Seq<char>) -> Option<Namespace> {
        if name == Namespace::Profile.name() {
            Some(Namespace::Profile)
        } else if name == Namespace::Post.name() {
            Some(Namespace::Post)
        } else {
            None
        }
    }

    /// The bytes of the salt.
    pub fn salt_bytes(self) -> (salt: Vec<u8>)
        ensures
            salt@ == self.salt(),
    {
        match self {
            Namespace::Profile => slice_to_vec(PROFILE_SEED.as_bytes()),
            Namespace::Post => slice_to_vec(POST_SEED.as_bytes()),
        }
    }
}

/// Whether two strings hold the same text.
pub fn str_equal(a: &str, b: &str) -> (r: bool)
    ensures
        r == (a@ == b@),
{
    let x = a.as_bytes();
    let y = b.as_bytes();
    proof {
        // Texts with the same encoding are the same text.
        vstd::utf8::encode_utf8_decode_utf8(a@);
        vstd::utf8::encode_utf8_decode_utf8(b@);
    }
    if x.len() != y.len() {
        return false;
    }
    let mut i: usize = 0;
    while i < x.len()
        invariant
            i <= x@.len(),
            x@.len() == y@.len(),
            x@ == a.spec_bytes(),
            y@ == b.spec_bytes(),
            forall|j: int| 0 <= j < i ==> x@[j] == y@[j],
        decreases x@.len() - i,
    {
        if x[i] != y[i] {
            return false;
        }
        i += 1;
    }
    assert(x@ =~= y@);
    true
}

/// A derived address with the nonce that the derivation found.
#[derive(Clone, Copy, Debug, PartialEq, Eq)]
pub struct DerivedAddress {
    pub address: Identity,
    pub nonce: u8,
}

impl View for DerivedAddress {
    type V = (Seq<u8>, u8);

    open spec fn view(&self) -> (Seq<u8>, u8) {
        (self.address@, self.nonce)
    }
}

/// The bytes and the nonce of a derivation's outcome.
pub open spec fn outcome_view(outcome: Option<DerivedAddress>) -> Option<(Seq<u8>, u8)> {
    match outcome {
        Some(derived) => Some(derived@),
        None => None,
    }
}

/// The nonce of a derivation's outcome; 0 where it found none.
pub open spec fn nonce_of(outcome: Option<(Seq<u8>, u8)>) -> u8 {
    match outcome {
        Some(found) => found.1,
        None => 0,
    }
}

/// The address and nonce that the host ledger derives for a program from a
/// list of seeds: what `Pubkey::try_find_program_address` of solana_program
/// returns for them, with the address as its 32 bytes. It is `None` where no
/// nonce gives an address.
pub uninterp spec fn program_address(seeds: Seq<Seq<u8>>, program_id: Seq<u8>) -> Option<(Seq<u8>, u8)>;

/// Calls `Pubkey::try_find_program_address` of solana_program on the seeds
/// and the program's identity. Nothing is proved of the call: the contract
/// only names its result, which depends on the arguments alone.
#[verifier::external_body]
fn find_program_address(seeds: &Vec<Vec<u8>>, program_id: &Identity) -> (r: Option<DerivedAddress>)
    ensures
        outcome_view(r) == program_address(seeds.deep_view(), program_id@),
{
    let parts: Vec<&[u8]> = seeds.iter().map(|seed| seed.as_slice()).collect();
    let program = Pubkey::new_from_array(program_id.bytes);
    Pubkey::try_find_program_address(&parts, &program).map(
        |(address, nonce)| DerivedAddress { address: Identity { bytes: address.to_bytes() }, nonce },
    )
}

/// The seeds of a derivation: the owner's bytes, the salt of the namespace
/// and, for a post, the one byte of its sequence number.
pub open spec fn derivation_seeds(owner: Seq<u8>, namespace: Namespace, sequence: Option<u8>) -> Seq<Seq<u8>> {
    match sequence {
        None => seq![owner, namespace.salt()],
        Some(number) => seq![owner, namespace.salt(), seq![number]],
    }
}

/// The address and nonce derived for a record of `owner` under `program_id`.
pub open spec fn derived_address(
    owner: Seq<u8>,
    namespace: Namespace,
    sequence: Option<u8>,
    program_id: Seq<u8>,
) -> Option<(Seq<u8>, u8)> {
    program_address(derivation_seeds(owner, namespace, sequence), program_id)
}

/// The seeds of a derivation.
pub fn seeds_of(owner: &Identity, namespace: Namespace, sequence: Option<u8>) -> (seeds: Vec<Vec<u8>>)
    ensures
        seeds.deep_view() == derivation_seeds(owner@, namespace, sequence),
{
    let mut seeds: Vec<Vec<u8>> = Vec::new();
    seeds.push(slice_to_vec(owner.bytes.as_slice()));
    seeds.push(namespace.salt_bytes());
    match sequence {
        Some(number) => {
            let mut last: Vec<u8> = Vec::new();
            last.push(number);
            seeds.push(last);
            assert(seeds@[2]@ =~= seq![number]);
        },
        None => {},
    }
    assert(seeds.deep_view() =~~= derivation_seeds(owner@, namespace, sequence));
    seeds
}

/// Derives the address of a record of `owner` under `program_id`. The result
/// depends on the four arguments alone. It is `None` where the derivation
/// finds no nonce.
pub fn derive(owner: &Identity, namespace: Namespace, sequence: Option<u8>, program_id: &Identity) -> (r: Option<DerivedAddress>)
    ensures
        outcome_view(r) == derived_address(owner@, namespace, sequence, program_id@),
{
    let seeds = seeds_of(owner, namespace, sequence);
    find_program_address(&seeds, program_id)
}

} // verus!
