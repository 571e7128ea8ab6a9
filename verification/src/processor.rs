//! The processor: the six operations on the records.
//!
//! Each operation is given the accounts that it works on, in a fixed order,
//! and returns what it did or why it did nothing. What an operation does is
//! stated as a function from the accounts before it to the accounts after it
//! and its result.

use vstd::prelude::*;
use vstd::slice::slice_subrange;

use crate::address::{
    derivation_seeds, derived_address, nonce_of, outcome_view, seeds_of, DerivedAddress, Namespace,
};
use crate::bytes::{decode_le, le_value, lemma_le_bytes_len, lemma_le_value_bound, lemma_pow256_values};
use crate::codec::{
    counter_layout, counter_record, identities_at, post_layout, post_record, profile_layout,
    profile_record, storable, PUB_KEY_SIZE, U16_SIZE, USER_POST_SIZE, USER_PROFILE_SIZE,
};
use crate::error::SocialError;
use crate::identity::Identity;
use crate::instruction::{InstructionView, SocialInstruction};
use crate::laws::{
    lemma_follow_appends, lemma_init_then_query, lemma_post_advances, lemma_unfollow_absent,
    lemma_unfollow_removes,
};
use crate::state::{other_than, without, Post, UserPost, UserProfile, MAX_FOLLOWER_COUNT};
use crate::store::{creation, zeroes, Account, AccountView};

verus! {

/// The processor of the requests.
pub struct Processor;

/// The accounts handed to an operation, as the rules see them.
pub type Ledger = Seq<AccountView>;

impl AccountView {
    /// The account after a record was written over the front of its region.
    pub open spec fn stored(self, record: Seq<u8>) -> AccountView {
        AccountView { key: self.key, data: record + self.data.skip(record.len() as int) }
    }
}

/// A record that an operation allocated: for whom, under which namespace and
/// sequence number, at which address, with which nonce, and of how many
/// bytes. These are what the host ledger needs to allocate the same region.
#[derive(Clone, Copy, Debug, PartialEq, Eq)]
pub struct Creation {
    pub owner: Identity,
    pub namespace: Namespace,
    pub sequence: Option<u8>,
    pub address: Identity,
    pub nonce: u8,
    pub space: usize,
}

/// What an allocation is to the rules.
pub ghost struct CreationView {
    pub owner: Seq<u8>,
    pub namespace: Namespace,
    pub sequence: Option<u8>,
    pub address: Seq<u8>,
    pub nonce: u8,
    pub space: nat,
}

impl View for Creation {
    type V = CreationView;

    open spec fn view(&self) -> CreationView {
        CreationView {
            owner: self.owner@,
            namespace: self.namespace,
            sequence: self.sequence,
            address: self.address@,
            nonce: self.nonce,
            space: self.space as nat,
        }
    }
}

impl Creation {
    /// The seeds with which the program signs for the allocation on the host
    /// ledger: the seeds of the derivation, and the nonce after them.
    pub fn signer_seeds(&self) -> (seeds: Vec<Vec<u8>>)
        ensures
            seeds.deep_view() == derivation_seeds(self.owner@, self.namespace, self.sequence).push(
                seq![self.nonce],
            ),
    {
        let mut seeds = seeds_of(&self.owner, self.namespace, self.sequence);
        let ghost derivation = seeds.deep_view();
        let mut last: Vec<u8> = Vec::new();
        last.push(self.nonce);
        assert(last@ =~= seq![self.nonce]);
        seeds.push(last);
        assert(seeds.deep_view() =~~= derivation.push(seq![self.nonce]));
        seeds
    }
}

/// The allocation that an operation reports, or the error.
pub open spec fn creation_view(r: Result<Creation, SocialError>) -> Result<CreationView, SocialError> {
    match r {
        Ok(created) => Ok(created@),
        Err(e) => Err(e),
    }
}

/// The bytes of the region that Init allocates for a namespace: room for a
/// full follow list, or for a post counter.
pub open spec fn record_space(namespace: Namespace) -> nat {
    match namespace {
        Namespace::Profile => (USER_PROFILE_SIZE + PUB_KEY_SIZE * MAX_FOLLOWER_COUNT) as nat,
        Namespace::Post => USER_POST_SIZE as nat,
    }
}

/// The record that Init writes: an empty follow list, or a counter of no posts.
pub open spec fn zero_record(namespace: Namespace) -> Seq<u8> {
    match namespace {
        Namespace::Profile => profile_layout(Seq::empty()),
        Namespace::Post => counter_layout(0),
    }
}

/// The region that Init leaves: the zero record, and zero bytes after it.
pub open spec fn initial_region(namespace: Namespace) -> Seq<u8> {
    zero_record(namespace) + zeroes(record_space(namespace)).skip(zero_record(namespace).len() as int)
}

/// What Init does once the namespace is known and the address derived. It
/// needs three accounts: the owner, the target and the allocation authority.
/// The target must be at the derived address, with nothing allocated. Then
/// the region is allocated and the zero record written.
pub open spec fn init_at_step(ledger: Ledger, namespace: Namespace, derived: Option<(Seq<u8>, u8)>) -> (
    Ledger,
    Result<CreationView, SocialError>,
) {
    if ledger.len() < 3 {
        (ledger, Err(SocialError::InvalidArgument))
    } else {
        match creation(ledger[1], derived, record_space(namespace)) {
            Err(e) => (ledger, Err(e)),
            Ok(()) => (
                ledger.update(1, AccountView { key: ledger[1].key, data: initial_region(namespace) }),
                Ok(
                    CreationView {
                        owner: ledger[0].key,
                        namespace,
                        sequence: None,
                        address: ledger[1].key,
                        nonce: nonce_of(derived),
                        space: record_space(namespace),
                    },
                ),
            ),
        }
    }
}

/// What Init does. The namespace must be one of the two, and the address is
/// derived from the owner, who is the first account.
pub open spec fn init_step(program_id: Seq<u8>, ledger: Ledger, seed_type: Seq<char>) -> (
    Ledger,
    Result<CreationView, SocialError>,
) {
    if ledger.len() < 3 {
        (ledger, Err(SocialError::InvalidArgument))
    } else {
        match Namespace::named(seed_type) {
            None => (ledger, Err(SocialError::InvalidArgument)),
            Some(namespace) => init_at_step(
                ledger,
                namespace,
                derived_address(ledger[0].key, namespace, None, program_id),
            ),
        }
    }
}

/// How many sequence numbers there are. The address of a post is derived
/// from its sequence number, so posts whose counts differ by a multiple of
/// this are derived to the same address.
pub const POST_SEQUENCES: u64 = 256;

/// The sequence number of a post in the derivation of its address: the low
/// byte of the post count.
pub open spec fn sequence_byte(count: u64) -> u8 {
    (count % POST_SEQUENCES) as u8
}

/// What Post does once the address of the post is derived. It needs four
/// accounts: the owner, the post counter, the target and the allocation
/// authority. The counter must be readable and not at its end, the target at
/// the derived address, and the text storable: else nothing happens. Then
/// the counter is advanced. If something is allocated at the target already,
/// the operation fails there, and the counter stays advanced. Else the post
/// is stored in a region of its own size.
pub open spec fn post_at_step(ledger: Ledger, content: Seq<char>, time: u64, derived: Option<(Seq<u8>, u8)>) -> (
    Ledger,
    Result<CreationView, SocialError>,
) {
    if ledger.len() < 4 {
        (ledger, Err(SocialError::InvalidArgument))
    } else {
        match counter_record(ledger[1].data) {
            Err(e) => (ledger, Err(e)),
            Ok(count) => {
                if count == u64::MAX {
                    (ledger, Err(SocialError::CapacityExceeded))
                } else if !(derived matches Some(found) && found.0 == ledger[2].key) {
                    (ledger, Err(SocialError::InvalidTarget))
                } else if !storable(content) {
                    (ledger, Err(SocialError::InvalidArgument))
                } else {
                    let next = (count + 1) as u64;
                    let advanced = ledger.update(1, ledger[1].stored(counter_layout(next)));
                    if ledger[2].allocated() {
                        (advanced, Err(SocialError::AlreadyInitialized))
                    } else {
                        (
                            advanced.update(
                                2,
                                AccountView { key: ledger[2].key, data: post_layout(content, time) },
                            ),
                            Ok(
                                CreationView {
                                    owner: ledger[0].key,
                                    namespace: Namespace::Post,
                                    sequence: Some(sequence_byte(next)),
                                    address: ledger[2].key,
                                    nonce: nonce_of(derived),
                                    space: post_layout(content, time).len(),
                                },
                            ),
                        )
                    }
                }
            },
        }
    }
}

/// What Post does. The address of the post is derived from the owner, who is
/// the first account, and the sequence number of the post: the count that
/// the counter will hold once the post is made.
pub open spec fn post_step(program_id: Seq<u8>, ledger: Ledger, content: Seq<char>, time: u64) -> (
    Ledger,
    Result<CreationView, SocialError>,
) {
    if ledger.len() < 4 {
        (ledger, Err(SocialError::InvalidArgument))
    } else {
        match counter_record(ledger[1].data) {
            Err(e) => (ledger, Err(e)),
            Ok(count) => {
                if count == u64::MAX {
                    (ledger, Err(SocialError::CapacityExceeded))
                } else {
                    post_at_step(
                        ledger,
                        content,
                        time,
                        derived_address(
                            ledger[0].key,
                            Namespace::Post,
                            Some(sequence_byte((count + 1) as u64)),
                            program_id,
                        ),
                    )
                }
            },
        }
    }
}

/// What QueryPosts returns: the count stored in the first account and the
/// post stored in the second.
pub open spec fn query_posts(ledger: Ledger) -> Result<(u64, (Seq<char>, u64)), SocialError> {
    if ledger.len() < 2 {
        Err(SocialError::InvalidArgument)
    } else {
        match counter_record(ledger[0].data) {
            Err(e) => Err(e),
            Ok(count) => match post_record(ledger[1].data) {
                Err(e) => Err(e),
                Ok(post) => Ok((count, post)),
            },
        }
    }
}

/// The count and the post that were read, or the error.
pub open spec fn posts_view(r: Result<(UserPost, Post), SocialError>) -> Result<
    (u64, (Seq<char>, u64)),
    SocialError,
> {
    match r {
        Ok((counter, post)) => Ok((counter.post_count, post@)),
        Err(e) => Err(e),
    }
}

/// What Follow does. It needs the account of the follow list. The list must
/// be readable and not full, and the region must have room for one more
/// identity. Then the identity is appended.
pub open spec fn follow_step(ledger: Ledger, user: Seq<u8>) -> (Ledger, Result<(), SocialError>) {
    if ledger.len() < 1 {
        (ledger, Err(SocialError::InvalidArgument))
    } else {
        match profile_record(ledger[0].data) {
            Err(e) => (ledger, Err(e)),
            Ok(list) => {
                if list.len() >= MAX_FOLLOWER_COUNT || ledger[0].data.len() < USER_PROFILE_SIZE + PUB_KEY_SIZE
                    * (list.len() + 1) {
                    (ledger, Err(SocialError::CapacityExceeded))
                } else {
                    (ledger.update(0, ledger[0].stored(profile_layout(list.push(user)))), Ok(()))
                }
            },
        }
    }
}

/// What Unfollow does. It needs the account of the follow list, which must
/// be readable. Then every occurrence of the identity leaves the list.
pub open spec fn unfollow_step(ledger: Ledger, user: Seq<u8>) -> (Ledger, Result<(), SocialError>) {
    if ledger.len() < 1 {
        (ledger, Err(SocialError::InvalidArgument))
    } else {
        match profile_record(ledger[0].data) {
            Err(e) => (ledger, Err(e)),
            Ok(list) => (ledger.update(0, ledger[0].stored(profile_layout(without(list, user)))), Ok(())),
        }
    }
}

/// What QueryFollows returns: the follow list stored in the first account.
pub open spec fn query_follows(ledger: Ledger) -> Result<Seq<Seq<u8>>, SocialError> {
    if ledger.len() < 1 {
        Err(SocialError::InvalidArgument)
    } else {
        profile_record(ledger[0].data)
    }
}

/// The list of a profile that was read, or the error.
pub open spec fn profile_view(r: Result<UserProfile, SocialError>) -> Result<Seq<Seq<u8>>, SocialError> {
    match r {
        Ok(profile) => Ok(profile@),
        Err(e) => Err(e),
    }
}

/// What an operation did.
#[derive(Clone, Debug, PartialEq, Eq)]
pub enum Outcome {
    /// Init or Post allocated a record.
    Created(Creation),
    /// Follow or Unfollow rewrote the follow list.
    Updated,
    /// QueryFollows read the follow list.
    Follows(UserProfile),
    /// QueryPosts read the post counter and a post.
    Posts(UserPost, Post),
}

/// What an outcome is to the rules.
pub ghost enum OutcomeView {
    Created(CreationView),
    Updated,
    Follows(Seq<Seq<u8>>),
    Posts(u64, (Seq<char>, u64)),
}

impl View for Outcome {
    type V = OutcomeView;

    open spec fn view(&self) -> OutcomeView {
        match *self {
            Outcome::Created(created) => OutcomeView::Created(created@),
            Outcome::Updated => OutcomeView::Updated,
            Outcome::Follows(profile) => OutcomeView::Follows(profile@),
            Outcome::Posts(counter, post) => OutcomeView::Posts(counter.post_count, post@),
        }
    }
}

/// The outcome that the processor reports, or the error.
pub open spec fn report_view(r: Result<Outcome, SocialError>) -> Result<OutcomeView, SocialError> {
    match r {
        Ok(outcome) => Ok(outcome@),
        Err(e) => Err(e),
    }
}

/// What the processor does with a request: what the operation that the
/// request names does, on the same accounts. The time is that of the
/// request, and only Post reads it.
pub open spec fn process_step(program_id: Seq<u8>, ledger: Ledger, instruction: InstructionView, time: u64) -> (
    Ledger,
    Result<OutcomeView, SocialError>,
) {
    match instruction {
        InstructionView::Init { seed_type } => {
            let step = init_step(program_id, ledger, seed_type);
            (
                step.0,
                match step.1 {
                    Ok(created) => Ok(OutcomeView::Created(created)),
                    Err(e) => Err(e),
                },
            )
        },
        InstructionView::Follow(user) => {
            let step = follow_step(ledger, user);
            (
                step.0,
                match step.1 {
                    Ok(()) => Ok(OutcomeView::Updated),
                    Err(e) => Err(e),
                },
            )
        },
        InstructionView::Unfollow(user) => {
            let step = unfollow_step(ledger, user);
            (
                step.0,
                match step.1 {
                    Ok(()) => Ok(OutcomeView::Updated),
                    Err(e) => Err(e),
                },
            )
        },
        InstructionView::QueryFollows => (
            ledger,
            match query_follows(ledger) {
                Ok(list) => Ok(OutcomeView::Follows(list)),
                Err(e) => Err(e),
            },
        ),
        InstructionView::Post(content) => {
            let step = post_step(program_id, ledger, content, time);
            (
                step.0,
                match step.1 {
                    Ok(created) => Ok(OutcomeView::Created(created)),
                    Err(e) => Err(e),
                },
            )
        },
        InstructionView::QueryPosts => (
            ledger,
            match query_posts(ledger) {
                Ok(read) => Ok(OutcomeView::Posts(read.0, read.1)),
                Err(e) => Err(e),
            },
        ),
    }
}

/// A follow list is read from the bytes that its count announces alone.
pub proof fn lemma_profile_frame(data: Seq<u8>)
    requires
        data.len() >= 2,
    ensures
        ({
            let size = 6 + 32 * le_value(data.subrange(0, 2));
            if data.len() < size {
                profile_record(data) == Err::<Seq<Seq<u8>>, SocialError>(SocialError::CorruptRecord)
            } else {
                profile_record(data) == profile_record(data.subrange(0, size as int))
            }
        }),
{
    let size = 6 + 32 * le_value(data.subrange(0, 2));
    if data.len() >= size {
        let frame = data.subrange(0, size as int);
        assert(frame.subrange(0, 2) =~= data.subrange(0, 2));
        assert(frame.subrange(2, 6) =~= data.subrange(2, 6));
        let length = le_value(data.subrange(2, 6));
        if profile_record(data) is Ok {
            let read = identities_at(frame, 6, length);
            assert forall|i: int| 0 <= i < length implies #[trigger] read[i] == identities_at(data, 6, length)[i] by {
                assert(frame.subrange(6 + 32 * i, 6 + 32 * i + 32) =~= data.subrange(
                    6 + 32 * i,
                    6 + 32 * i + 32,
                ));
            }
            assert(read =~= identities_at(data, 6, length));
        }
    }
}

impl Processor {
    /// Applies a request to the accounts that came with it. `time` is the
    /// time of the request, in seconds of Unix time.
    pub fn process_instruction(
        program_id: &Identity,
        accounts: &mut Vec<Account>,
        instruction: SocialInstruction,
        time: u64,
    ) -> (r: Result<Outcome, SocialError>)
        ensures
            (final(accounts).deep_view(), report_view(r)) == process_step(
                program_id@,
                old(accounts).deep_view(),
                instruction@,
                time,
            ),
            r matches Ok(Outcome::Follows(profile)) ==> profile.wf(),
    {
        match instruction {
            SocialInstruction::Init { seed_type } => {
                match Processor::init(program_id, accounts, seed_type.as_str()) {
                    Ok(created) => Ok(Outcome::Created(created)),
                    Err(e) => Err(e),
                }
            },
            SocialInstruction::Follow(user) => {
                match Processor::follow(accounts, user) {
                    Ok(()) => Ok(Outcome::Updated),
                    Err(e) => Err(e),
                }
            },
            SocialInstruction::Unfollow(user) => {
                match Processor::unfollow(accounts, user) {
                    Ok(()) => Ok(Outcome::Updated),
                    Err(e) => Err(e),
                }
            },
            SocialInstruction::QueryFollows => {
                match Processor::query_followers(accounts) {
                    Ok(profile) => Ok(Outcome::Follows(profile)),
                    Err(e) => Err(e),
                }
            },
            SocialInstruction::Post(content) => {
                match Processor::post(program_id, accounts, content, time) {
                    Ok(created) => Ok(Outcome::Created(created)),
                    Err(e) => Err(e),
                }
            },
            SocialInstruction::QueryPosts => {
                match Processor::query_post(accounts) {
                    Ok((counter, post)) => Ok(Outcome::Posts(counter, post)),
                    Err(e) => Err(e),
                }
            },
        }
    }

    /// The size of a stored follow list of `pub_key_count` identities.
    pub fn cal_user_profile_size(pub_key_count: usize) -> (size: usize)
        requires
            32 * pub_key_count + 6 <= usize::MAX,
        ensures
            size == 32 * pub_key_count + 6,
    {
        PUB_KEY_SIZE * pub_key_count + USER_PROFILE_SIZE
    }

    /// The count that two bytes spell, least significant byte first; nothing
    /// for any other number of bytes.
    pub fn cal_bytes_to_u16(bytes: &[u8]) -> (count: Option<u16>)
        ensures
            bytes@.len() == 2 ==> count == Some(le_value(bytes@) as u16) && le_value(bytes@) <= u16::MAX,
            bytes@.len() != 2 ==> count is None,
    {
        if bytes.len() != 2 {
            return None;
        }
        proof {
            lemma_le_value_bound(bytes@);
            lemma_pow256_values();
        }
        Some(decode_le(bytes) as u16)
    }

    /// Reads the follow list at the front of a region. The count at the
    /// front says how many bytes the list takes, and no byte after those is
    /// read.
    pub fn load_profile(data: &[u8]) -> (r: Result<UserProfile, SocialError>)
        ensures
            profile_view(r) == profile_record(data@),
            r matches Ok(profile) ==> profile.wf(),
    {
        if data.len() == 0 {
            return Err(SocialError::RecordAbsent);
        }
        if data.len() < U16_SIZE {
            return Err(SocialError::CorruptRecord);
        }
        let count = match Processor::cal_bytes_to_u16(slice_subrange(data, 0, U16_SIZE)) {
            Some(count) => count,
            None => {
                return Err(SocialError::CorruptRecord);
            },
        };
        let size = Processor::cal_user_profile_size(count as usize);
        proof {
            lemma_profile_frame(data@);
        }
        if data.len() < size {
            return Err(SocialError::CorruptRecord);
        }
        UserProfile::from_bytes(slice_subrange(data, 0, size))
    }

    /// Follow: appends `user` to the follow list stored in the first account.
    pub fn follow(accounts: &mut Vec<Account>, user: Identity) -> (r: Result<(), SocialError>)
        ensures
            (final(accounts).deep_view(), r) == follow_step(old(accounts).deep_view(), user@),
            r is Ok ==> query_follows(old(accounts).deep_view()) is Ok && query_follows(
                final(accounts).deep_view(),
            ) == Ok::<Seq<Seq<u8>>, SocialError>(query_follows(old(accounts).deep_view())->Ok_0.push(user@)),
            r is Err ==> final(accounts).deep_view() == old(accounts).deep_view(),
            query_follows(old(accounts).deep_view()) matches Ok(list) && list.len() >= MAX_FOLLOWER_COUNT ==> r
                == Err::<(), SocialError>(SocialError::CapacityExceeded),
    {
        if accounts.len() < 1 {
            return Err(SocialError::InvalidArgument);
        }
        let mut profile = match Processor::load_profile(accounts[0].read()) {
            Ok(profile) => profile,
            Err(e) => {
                return Err(e);
            },
        };
        match profile.follow(user) {
            Ok(()) => {},
            Err(e) => {
                return Err(e);
            },
        }
        let record = profile.to_bytes();
        let target = &mut accounts[0];
        let r = target.write(record.as_slice());
        proof {
            let ledger = old(accounts).deep_view();
            if r is Ok {
                assert(accounts.deep_view() =~= follow_step(ledger, user@).0);
                lemma_follow_appends(ledger, user@);
            } else {
                assert(accounts.deep_view() =~= ledger);
            }
        }
        r
    }

    /// Unfollow: removes every occurrence of `user` from the follow list
    /// stored in the first account.
    pub fn unfollow(accounts: &mut Vec<Account>, user: Identity) -> (r: Result<(), SocialError>)
        ensures
            (final(accounts).deep_view(), r) == unfollow_step(old(accounts).deep_view(), user@),
            r is Ok <==> query_follows(old(accounts).deep_view()) is Ok,
            r is Ok ==> query_follows(final(accounts).deep_view()) == Ok::<Seq<Seq<u8>>, SocialError>(
                without(query_follows(old(accounts).deep_view())->Ok_0, user@),
            ),
            r is Err ==> final(accounts).deep_view() == old(accounts).deep_view(),
            query_follows(old(accounts).deep_view()) matches Ok(list) && !list.contains(user@)
                ==> final(accounts).deep_view() == old(accounts).deep_view(),
    {
        if accounts.len() < 1 {
            return Err(SocialError::InvalidArgument);
        }
        let mut profile = match Processor::load_profile(accounts[0].read()) {
            Ok(profile) => profile,
            Err(e) => {
                return Err(e);
            },
        };
        let ghost before = profile@;
        profile.unfollow(user);
        let record = profile.to_bytes();
        proof {
            before.lemma_filter_len(other_than(user@));
        }
        let target = &mut accounts[0];
        let r = target.write(record.as_slice());
        proof {
            let ledger = old(accounts).deep_view();
            assert(r is Ok);
            assert(accounts.deep_view() =~= unfollow_step(ledger, user@).0);
            lemma_unfollow_removes(ledger, user@);
            if !before.contains(user@) {
                lemma_unfollow_absent(ledger, user@);
            }
        }
        r
    }

    /// QueryFollows: reads the follow list stored in the first account.
    pub fn query_followers(accounts: &Vec<Account>) -> (r: Result<UserProfile, SocialError>)
        ensures
            profile_view(r) == query_follows(accounts.deep_view()),
            r matches Ok(profile) ==> profile.wf(),
    {
        if accounts.len() < 1 {
            return Err(SocialError::InvalidArgument);
        }
        Processor::load_profile(accounts[0].read())
    }

    /// The bytes of the region that Init allocates for a namespace.
    pub fn record_size(namespace: Namespace) -> (size: usize)
        ensures
            size == record_space(namespace),
    {
        match namespace {
            Namespace::Profile => Processor::cal_user_profile_size(MAX_FOLLOWER_COUNT),
            Namespace::Post => USER_POST_SIZE,
        }
    }

    /// Init, for a namespace that is known and an address that was derived:
    /// allocates the region of the second account and writes the zero record.
    pub fn init_at(accounts: &mut Vec<Account>, namespace: Namespace, derived: Option<DerivedAddress>) -> (r:
        Result<Creation, SocialError>)
        ensures
            (final(accounts).deep_view(), creation_view(r)) == init_at_step(
                old(accounts).deep_view(),
                namespace,
                outcome_view(derived),
            ),
    {
        if accounts.len() < 3 {
            return Err(SocialError::InvalidArgument);
        }
        let space = Processor::record_size(namespace);
        let owner = accounts[0].key;
        let target = &mut accounts[1];
        match target.create_record(derived, space) {
            Ok(()) => {},
            Err(e) => {
                return Err(e);
            },
        }
        let record = match namespace {
            Namespace::Profile => UserProfile::new().to_bytes(),
            Namespace::Post => UserPost::new().to_bytes(),
        };
        let address = target.key;
        let written = target.write(record.as_slice());
        let nonce = match derived {
            Some(found) => found.nonce,
            None => 0,
        };
        proof {
            let ledger = old(accounts).deep_view();
            assert(written is Ok);
            assert(accounts.deep_view() =~= init_at_step(ledger, namespace, outcome_view(derived)).0);
        }
        match written {
            Ok(()) => Ok(Creation { owner, namespace, sequence: None, address, nonce, space }),
            Err(e) => Err(e),
        }
    }

    /// Init: creates the record of the namespace that `seed_type` names, for
    /// the owner, who is the first account, in the second account.
    pub fn init(program_id: &Identity, accounts: &mut Vec<Account>, seed_type: &str) -> (r: Result<
        Creation,
        SocialError,
    >)
        ensures
            (final(accounts).deep_view(), creation_view(r)) == init_step(
                program_id@,
                old(accounts).deep_view(),
                seed_type@,
            ),
            r is Ok && Namespace::named(seed_type@) == Some(Namespace::Profile) ==> profile_record(
                final(accounts).deep_view()[1].data,
            ) == Ok::<Seq<Seq<u8>>, SocialError>(Seq::empty()),
            r is Ok && Namespace::named(seed_type@) == Some(Namespace::Post) ==> counter_record(
                final(accounts).deep_view()[1].data,
            ) == Ok::<u64, SocialError>(0),
            r is Err ==> final(accounts).deep_view() == old(accounts).deep_view(),
    {
        if accounts.len() < 3 {
            return Err(SocialError::InvalidArgument);
        }
        let namespace = match Namespace::from_name(seed_type) {
            Some(namespace) => namespace,
            None => {
                return Err(SocialError::InvalidArgument);
            },
        };
        let derived = crate::address::derive(&accounts[0].key, namespace, None, program_id);
        let r = Processor::init_at(accounts, namespace, derived);
        proof {
            if r is Ok {
                lemma_init_then_query(program_id@, old(accounts).deep_view(), seed_type@);
            }
        }
        r
    }

    /// The sequence number of the post that brings the count to `count`.
    pub fn post_sequence(count: u64) -> (sequence: u8)
        ensures
            sequence == sequence_byte(count),
    {
        (count % POST_SEQUENCES) as u8
    }

    /// Post, for an address that was derived: advances the counter in the
    /// second account and stores the post in the third.
    pub fn post_at(accounts: &mut Vec<Account>, content: String, time: u64, derived: Option<DerivedAddress>) -> (r:
        Result<Creation, SocialError>)
        ensures
            (final(accounts).deep_view(), creation_view(r)) == post_at_step(
                old(accounts).deep_view(),
                content@,
                time,
                outcome_view(derived),
            ),
    {
        if accounts.len() < 4 {
            return Err(SocialError::InvalidArgument);
        }
        let mut counter = match UserPost::from_bytes(accounts[1].read()) {
            Ok(counter) => counter,
            Err(e) => {
                return Err(e);
            },
        };
        if counter.get_count() == u64::MAX {
            return Err(SocialError::CapacityExceeded);
        }
        counter.add_post();
        let nonce = match derived {
            Some(found) => {
                if !found.address.same(&accounts[2].key) {
                    return Err(SocialError::InvalidTarget);
                }
                found.nonce
            },
            None => {
                return Err(SocialError::InvalidTarget);
            },
        };
        let post = Post::new(content, time);
        let record = match post.to_bytes() {
            Ok(record) => record,
            Err(e) => {
                return Err(e);
            },
        };
        let owner = accounts[0].key;
        let count_bytes = counter.to_bytes();
        let ghost ledger = old(accounts).deep_view();
        let ghost advanced = ledger.update(1, ledger[1].stored(counter_layout(counter.post_count)));
        let holder = &mut accounts[1];
        let kept = holder.write(count_bytes.as_slice());
        proof {
            assert(kept is Ok);
            assert(accounts.deep_view() =~= advanced);
        }
        let space = record.len();
        let target = &mut accounts[2];
        let address = target.key;
        match target.create_record(derived, space) {
            Ok(()) => {},
            Err(e) => {
                proof {
                    lemma_le_bytes_len(vstd::utf8::encode_utf8(content@).len(), 4);
                    lemma_le_bytes_len(time as nat, 8);
                    assert(accounts.deep_view() =~= advanced);
                }
                return Err(e);
            },
        }
        let written = target.write(record.as_slice());
        proof {
            assert(written is Ok);
            assert(accounts.deep_view() =~= post_at_step(ledger, content@, time, outcome_view(derived)).0);
        }
        match written {
            Ok(()) => Ok(
                Creation {
                    owner,
                    namespace: Namespace::Post,
                    sequence: Some(Processor::post_sequence(counter.get_count())),
                    address,
                    nonce,
                    space,
                },
            ),
            Err(e) => Err(e),
        }
    }

    /// Post: stores a post of the owner, who is the first account, with the
    /// given text and time.
    pub fn post(program_id: &Identity, accounts: &mut Vec<Account>, content: String, time: u64) -> (r: Result<
        Creation,
        SocialError,
    >)
        ensures
            (final(accounts).deep_view(), creation_view(r)) == post_step(
                program_id@,
                old(accounts).deep_view(),
                content@,
                time,
            ),
            r is Ok ==> counter_record(old(accounts).deep_view()[1].data) is Ok && query_posts(
                seq![final(accounts).deep_view()[1], final(accounts).deep_view()[2]],
            ) == Ok::<(u64, (Seq<char>, u64)), SocialError>(
                ((counter_record(old(accounts).deep_view()[1].data)->Ok_0 + 1) as u64, (content@, time)),
            ),
            r is Err && r != Err::<Creation, SocialError>(SocialError::AlreadyInitialized)
                ==> final(accounts).deep_view() == old(accounts).deep_view(),
    {
        if accounts.len() < 4 {
            return Err(SocialError::InvalidArgument);
        }
        let counter = match UserPost::from_bytes(accounts[1].read()) {
            Ok(counter) => counter,
            Err(e) => {
                return Err(e);
            },
        };
        if counter.get_count() == u64::MAX {
            return Err(SocialError::CapacityExceeded);
        }
        let sequence = Processor::post_sequence(counter.get_count() + 1);
        let derived = crate::address::derive(&accounts[0].key, Namespace::Post, Some(sequence), program_id);
        let ghost text = content@;
        let r = Processor::post_at(accounts, content, time, derived);
        proof {
            if r is Ok {
                lemma_post_advances(program_id@, old(accounts).deep_view(), text, time);
            }
        }
        r
    }

    /// QueryPosts: reads the post counter stored in the first account and
    /// the post stored in the second.
    pub fn query_post(accounts: &Vec<Account>) -> (r: Result<(UserPost, Post), SocialError>)
        ensures
            posts_view(r) == query_posts(accounts.deep_view()),
    {
        if accounts.len() < 2 {
            return Err(SocialError::InvalidArgument);
        }
        let counter = match UserPost::from_bytes(accounts[0].read()) {
            Ok(counter) => counter,
            Err(e) => {
                return Err(e);
            },
        };
        match Post::from_bytes(accounts[1].read()) {
            Ok(post) => Ok((counter, post)),
            Err(e) => Err(e),
        }
    }
}

} // verus!
