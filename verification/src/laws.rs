//! What holds of the operations, one after another.

use vstd::prelude::*;

use crate::address::{derivation_seeds, derived_address, outcome_view, DerivedAddress, Namespace};
use crate::bytes::lemma_le_bytes_len;
use crate::codec::{
    all_identities, counter_record, lemma_counter_round_trip, lemma_post_round_trip,
    lemma_profile_canonical, lemma_profile_round_trip, post_layout, profile_layout, profile_record,
};
use crate::error::SocialError;
use crate::identity::{identity_ext, Identity};
use crate::processor::{
    follow_step, init_step, post_at_step, post_step, query_follows, query_posts, record_space,
    sequence_byte, unfollow_step, zero_record, CreationView, Ledger,
};
use crate::state::{lemma_without_absent, other_than, without, MAX_FOLLOWER_COUNT};
use crate::store::zeroes;

verus! {

/// Derivation is deterministic: whatever `derive` returns for the same owner,
/// namespace, sequence number and program is the same address and nonce.
pub proof fn lemma_derive_deterministic(
    owner: Identity,
    namespace: Namespace,
    sequence: Option<u8>,
    program_id: Identity,
    first: Option<DerivedAddress>,
    second: Option<DerivedAddress>,
)
    requires
        outcome_view(first) == derived_address(owner@, namespace, sequence, program_id@),
        outcome_view(second) == derived_address(owner@, namespace, sequence, program_id@),
    ensures
        first == second,
{
    if first is Some {
        identity_ext(first->0.address, second->0.address);
    }
}

/// Derivations for different owners, namespaces or sequence numbers start
/// from different seeds: two records are derived to one address only where
/// the host ledger's hash of different seeds collides.
pub proof fn lemma_seeds_distinct(
    owner: Seq<u8>,
    namespace: Namespace,
    sequence: Option<u8>,
    other_owner: Seq<u8>,
    other_namespace: Namespace,
    other_sequence: Option<u8>,
)
    requires
        (owner, namespace, sequence) != (other_owner, other_namespace, other_sequence),
    ensures
        derivation_seeds(owner, namespace, sequence) != derivation_seeds(
            other_owner,
            other_namespace,
            other_sequence,
        ),
{
    let seeds = derivation_seeds(owner, namespace, sequence);
    let others = derivation_seeds(other_owner, other_namespace, other_sequence);
    if seeds == others {
        assert(seeds[0] == others[0]);
        assert(seeds[1] == others[1]);
        assert(seeds.len() == others.len());
        if namespace != other_namespace {
            // The two names differ in length, and so do their encodings.
            reveal_strlit("profile");
            reveal_strlit("post");
            vstd::utf8::encode_utf8_decode_utf8("profile"@);
            vstd::utf8::encode_utf8_decode_utf8("post"@);
            assert(false);
        }
        if sequence != other_sequence {
            assert(seeds[2] == others[2]);
            assert(seeds[2][0] == others[2][0]);
            assert(false);
        }
    }
}

/// After a successful Init of the profile namespace, QueryFollows on the new
/// record returns an empty follow list. After one of the post namespace, the
/// new record counts no posts.
pub proof fn lemma_init_then_query(program_id: Seq<u8>, ledger: Ledger, seed_type: Seq<char>)
    requires
        init_step(program_id, ledger, seed_type).1 is Ok,
    ensures
        ({
            let after = init_step(program_id, ledger, seed_type).0;
            &&& Namespace::named(seed_type) == Some(Namespace::Profile) ==> query_follows(seq![after[1]])
                == Ok::<Seq<Seq<u8>>, SocialError>(Seq::empty())
            &&& Namespace::named(seed_type) == Some(Namespace::Post) ==> counter_record(after[1].data)
                == Ok::<u64, SocialError>(0)
        }),
{
    let after = init_step(program_id, ledger, seed_type).0;
    match Namespace::named(seed_type) {
        Some(Namespace::Profile) => {
            let padding = zeroes(record_space(Namespace::Profile)).skip(
                zero_record(Namespace::Profile).len() as int,
            );
            lemma_profile_round_trip(Seq::empty(), padding);
        },
        Some(Namespace::Post) => {
            let padding = zeroes(record_space(Namespace::Post)).skip(
                zero_record(Namespace::Post).len() as int,
            );
            lemma_counter_round_trip(0, padding);
        },
        None => {},
    }
}

/// After a successful Follow, the follow list is the list as it was with
/// the followed identity at its end.
pub proof fn lemma_follow_appends(ledger: Ledger, user: Seq<u8>)
    requires
        user.len() == 32,
        follow_step(ledger, user).1 is Ok,
    ensures
        query_follows(ledger) is Ok,
        query_follows(follow_step(ledger, user).0) == Ok::<Seq<Seq<u8>>, SocialError>(
            query_follows(ledger)->Ok_0.push(user),
        ),
{
    let data = ledger[0].data;
    let list = profile_record(data)->Ok_0;
    lemma_profile_canonical(data);
    let grown = list.push(user);
    lemma_le_bytes_len(grown.len(), 2);
    lemma_le_bytes_len(grown.len(), 4);
    lemma_profile_round_trip(grown, data.skip(profile_layout(grown).len() as int));
}

/// Follow of one identity and then of another, on an empty follow list,
/// leaves a list of exactly the two, in that order.
pub proof fn lemma_follow_twice(ledger: Ledger, first: Seq<u8>, second: Seq<u8>)
    requires
        first.len() == 32,
        second.len() == 32,
        query_follows(ledger) == Ok::<Seq<Seq<u8>>, SocialError>(Seq::empty()),
        follow_step(ledger, first).1 is Ok,
        follow_step(follow_step(ledger, first).0, second).1 is Ok,
    ensures
        query_follows(follow_step(follow_step(ledger, first).0, second).0) == Ok::<Seq<Seq<u8>>, SocialError>(
            seq![first, second],
        ),
{
    lemma_follow_appends(ledger, first);
    lemma_follow_appends(follow_step(ledger, first).0, second);
    assert(Seq::<Seq<u8>>::empty().push(first).push(second) =~= seq![first, second]);
}

/// Unfollow succeeds on every follow list that can be read, and leaves the
/// list without the identity.
pub proof fn lemma_unfollow_removes(ledger: Ledger, user: Seq<u8>)
    requires
        query_follows(ledger) is Ok,
    ensures
        unfollow_step(ledger, user).1 is Ok,
        query_follows(unfollow_step(ledger, user).0) == Ok::<Seq<Seq<u8>>, SocialError>(
            without(query_follows(ledger)->Ok_0, user),
        ),
{
    let data = ledger[0].data;
    let list = profile_record(data)->Ok_0;
    lemma_profile_canonical(data);
    let kept = without(list, user);
    list.lemma_filter_len(other_than(user));
    assert(all_identities(kept)) by {
        assert forall|i: int| 0 <= i < kept.len() implies (#[trigger] kept[i]).len() == 32 by {
            assert(kept.contains(kept[i]));
            list.lemma_filter_contains_rev(other_than(user), kept[i]);
            let k = choose|k: int| 0 <= k < list.len() && list[k] == kept[i];
            assert(list[k].len() == 32);
        }
    }
    lemma_profile_round_trip(kept, data.skip(profile_layout(kept).len() as int));
}

/// Follow of an identity and then Unfollow of it leaves the follow list
/// without the identity: empty, if it was empty before the two.
pub proof fn lemma_follow_then_unfollow(ledger: Ledger, user: Seq<u8>)
    requires
        user.len() == 32,
        follow_step(ledger, user).1 is Ok,
    ensures
        query_follows(ledger) is Ok,
        unfollow_step(follow_step(ledger, user).0, user).1 is Ok,
        query_follows(unfollow_step(follow_step(ledger, user).0, user).0) == Ok::<Seq<Seq<u8>>, SocialError>(
            without(query_follows(ledger)->Ok_0, user),
        ),
        query_follows(ledger)->Ok_0.len() == 0 ==> query_follows(
            unfollow_step(follow_step(ledger, user).0, user).0,
        ) == Ok::<Seq<Seq<u8>>, SocialError>(Seq::empty()),
{
    lemma_follow_appends(ledger, user);
    let list = query_follows(ledger)->Ok_0;
    let followed = follow_step(ledger, user).0;
    lemma_unfollow_removes(followed, user);
    assert(without(list.push(user), user) == without(list, user)) by {
        reveal(Seq::filter);
        assert(list.push(user).drop_last() =~= list);
    }
    if list.len() == 0 {
        list.lemma_filter_len(other_than(user));
        assert(without(list, user) =~= Seq::<Seq<u8>>::empty());
    }
}

/// Unfollow of an identity that the follow list does not hold succeeds and
/// leaves every account as it was.
pub proof fn lemma_unfollow_absent(ledger: Ledger, user: Seq<u8>)
    requires
        query_follows(ledger) is Ok,
        !query_follows(ledger)->Ok_0.contains(user),
    ensures
        unfollow_step(ledger, user) == (ledger, Ok::<(), SocialError>(())),
{
    let data = ledger[0].data;
    let list = profile_record(data)->Ok_0;
    lemma_profile_canonical(data);
    lemma_without_absent(list, user);
    assert(ledger[0].stored(profile_layout(list)) == ledger[0]);
    assert(ledger.update(0, ledger[0]) =~= ledger);
}

/// Follow on a full follow list fails with `CapacityExceeded` and leaves
/// every account as it was: the stored count stays at the capacity.
pub proof fn lemma_follow_full(ledger: Ledger, user: Seq<u8>)
    requires
        query_follows(ledger) is Ok,
        query_follows(ledger)->Ok_0.len() == MAX_FOLLOWER_COUNT,
    ensures
        follow_step(ledger, user) == (ledger, Err::<(), SocialError>(SocialError::CapacityExceeded)),
{
}

/// After a successful Post the counter holds one more than before, the new
/// record holds the post, and the address of the post was derived with the
/// low byte of the new count as its sequence number.
pub proof fn lemma_post_advances(program_id: Seq<u8>, ledger: Ledger, content: Seq<char>, time: u64)
    requires
        post_step(program_id, ledger, content, time).1 is Ok,
    ensures
        ({
            let step = post_step(program_id, ledger, content, time);
            let count = counter_record(ledger[1].data)->Ok_0;
            &&& counter_record(ledger[1].data) is Ok
            &&& count < u64::MAX
            &&& query_posts(seq![step.0[1], step.0[2]]) == Ok::<(u64, (Seq<char>, u64)), SocialError>(
                ((count + 1) as u64, (content, time)),
            )
            &&& step.1->Ok_0.sequence == Some(sequence_byte((count + 1) as u64))
            &&& derived_address(ledger[0].key, Namespace::Post, step.1->Ok_0.sequence, program_id) == Some(
                (ledger[2].key, step.1->Ok_0.nonce),
            )
        }),
{
    let count = counter_record(ledger[1].data)->Ok_0;
    let next = (count + 1) as u64;
    lemma_le_bytes_len(next as nat, 8);
    lemma_counter_round_trip(next, ledger[1].data.skip(8));
    lemma_post_round_trip(content, time, Seq::empty());
    assert(post_layout(content, time) + Seq::<u8>::empty() =~= post_layout(content, time));
}

/// Init of a record that a first Init created fails with
/// `AlreadyInitialized`, and leaves every account as the first Init left it.
pub proof fn lemma_init_twice(program_id: Seq<u8>, ledger: Ledger, seed_type: Seq<char>)
    requires
        init_step(program_id, ledger, seed_type).1 is Ok,
    ensures
        ({
            let after = init_step(program_id, ledger, seed_type).0;
            init_step(program_id, after, seed_type) == (
                after,
                Err::<CreationView, SocialError>(SocialError::AlreadyInitialized),
            )
        }),
{
    lemma_le_bytes_len(0, 2);
    lemma_le_bytes_len(0, 8);
}

/// Init with a target that is not at the derived address fails with
/// `InvalidTarget` and leaves every account as it was.
pub proof fn lemma_init_wrong_target(program_id: Seq<u8>, ledger: Ledger, seed_type: Seq<char>)
    requires
        ledger.len() >= 3,
        Namespace::named(seed_type) is Some,
        !(derived_address(ledger[0].key, Namespace::named(seed_type)->0, None, program_id) matches Some(found)
            && found.0 == ledger[1].key),
    ensures
        init_step(program_id, ledger, seed_type) == (
            ledger,
            Err::<CreationView, SocialError>(SocialError::InvalidTarget),
        ),
{
}

/// Post with a target that is not at the derived address fails with
/// `InvalidTarget` and leaves every account as it was, the counter too.
pub proof fn lemma_post_wrong_target(program_id: Seq<u8>, ledger: Ledger, content: Seq<char>, time: u64)
    requires
        ledger.len() >= 4,
        counter_record(ledger[1].data) is Ok,
        counter_record(ledger[1].data)->Ok_0 < u64::MAX,
        !(derived_address(
            ledger[0].key,
            Namespace::Post,
            Some(sequence_byte((counter_record(ledger[1].data)->Ok_0 + 1) as u64)),
            program_id,
        ) matches Some(found) && found.0 == ledger[2].key),
    ensures
        post_step(program_id, ledger, content, time) == (
            ledger,
            Err::<CreationView, SocialError>(SocialError::InvalidTarget),
        ),
{
}

/// Post to an address where something is allocated already fails with
/// `AlreadyInitialized`. The counter is advanced all the same, and nothing
/// else changes.
pub proof fn lemma_post_occupied(ledger: Ledger, content: Seq<char>, time: u64, derived: Option<(Seq<u8>, u8)>)
    requires
        post_at_step(ledger, content, time, derived).1 == Err::<CreationView, SocialError>(
            SocialError::AlreadyInitialized,
        ),
    ensures
        ({
            let after = post_at_step(ledger, content, time, derived).0;
            &&& counter_record(ledger[1].data) is Ok
            &&& counter_record(after[1].data) == Ok::<u64, SocialError>(
                (counter_record(ledger[1].data)->Ok_0 + 1) as u64,
            )
            &&& forall|i: int| 0 <= i < ledger.len() && i != 1 ==> after[i] == ledger[i]
        }),
{
    let count = counter_record(ledger[1].data)->Ok_0;
    let next = (count + 1) as u64;
    lemma_le_bytes_len(next as nat, 8);
    lemma_counter_round_trip(next, ledger[1].data.skip(8));
}

} // verus!
