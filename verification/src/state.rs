//! The three kinds of record: the follow list of an identity, its post
//! counter, and a post.

use vstd::prelude::*;

use crate::error::SocialError;
use crate::identity::Identity;

verus! {

/// The most identities that a follow list can hold.
pub const MAX_FOLLOWER_COUNT: usize = 200;

/// The follow list of an identity, in the order in which the identities were
/// followed. An identity that was followed twice is listed twice.
#[derive(Clone, Debug, PartialEq, Eq)]
pub struct UserProfile {
    /// How many identities are followed.
    pub data_len: u16,
    /// The identities that are followed.
    pub followers: Vec<Identity>,
}

impl View for UserProfile {
    type V = Seq<Seq<u8>>;

    /// The followed identities, each as its bytes.
    open spec fn view(&self) -> Seq<Seq<u8>> {
        self.followers.deep_view()
    }
}

/// Whether an entry of a list is another identity than `identity`.
pub open spec fn other_than(identity: Seq<u8>) -> spec_fn(Seq<u8>) -> bool {
    |entry: Seq<u8>| entry != identity
}

/// `list` without every occurrence of `identity`.
pub open spec fn without(list: Seq<Seq<u8>>, identity: Seq<u8>) -> Seq<Seq<u8>> {
    list.filter(other_than(identity))
}

impl UserProfile {
    /// The count is the length of the list, and the list is within capacity.
    pub open spec fn wf(&self) -> bool {
        &&& self.data_len == self.followers@.len()
        &&& self.followers@.len() <= MAX_FOLLOWER_COUNT
    }

    /// A profile that follows nobody.
    pub fn new() -> (profile: UserProfile)
        ensures
            profile.wf(),
            profile@ == Seq::<Seq<u8>>::empty(),
            profile.data_len == 0,
    {
        let profile = UserProfile { data_len: 0, followers: Vec::new() };
        assert(profile@ =~= Seq::<Seq<u8>>::empty());
        profile
    }

    /// Appends `follower` to the list, unless the list is full: then the
    /// profile stays as it is.
    pub fn follow(&mut self, follower: Identity) -> (r: Result<(), SocialError>)
        ensures
            old(self)@.len() < MAX_FOLLOWER_COUNT ==> r is Ok && final(self).wf() && final(self)@
                == old(self)@.push(follower@),
            old(self)@.len() >= MAX_FOLLOWER_COUNT ==> r == Err::<(), SocialError>(
                SocialError::CapacityExceeded,
            ) && *final(self) == *old(self),
    {
        if self.followers.len() >= MAX_FOLLOWER_COUNT {
            return Err(SocialError::CapacityExceeded);
        }
        self.followers.push(follower);
        self.data_len = self.followers.len() as u16;
        assert(self@ =~= old(self)@.push(follower@));
        Ok(())
    }

    /// Removes every occurrence of `follower` from the list. A profile that
    /// does not follow it stays as it is.
    pub fn unfollow(&mut self, follower: Identity)
        requires
            old(self).wf(),
        ensures
            final(self).wf(),
            final(self)@ == without(old(self)@, follower@),
            !old(self)@.contains(follower@) ==> final(self)@ == old(self)@ && final(self).data_len
                == old(self).data_len,
    {
        let mut kept: Vec<Identity> = Vec::new();
        let mut i: usize = 0;
        proof {
            reveal(Seq::filter);
            assert(old(self)@.take(0) =~= Seq::<Seq<u8>>::empty());
            assert(kept.deep_view() =~= Seq::<Seq<u8>>::empty());
        }
        while i < self.followers.len()
            invariant
                i <= self.followers@.len(),
                *self == *old(self),
                kept@.len() <= i,
                kept.deep_view() == without(self@.take(i as int), follower@),
            decreases self.followers@.len() - i,
        {
            let entry = self.followers[i];
            let ghost before = kept.deep_view();
            proof {
                reveal(Seq::filter);
                assert(self@.take(i + 1).drop_last() =~= self@.take(i as int));
                assert(self@.take(i + 1).last() == entry@);
            }
            if !entry.same(&follower) {
                kept.push(entry);
                assert(kept.deep_view() =~= before.push(entry@));
            }
            i += 1;
        }
        proof {
            assert(self@.take(i as int) =~= self@);
            lemma_without_absent(old(self)@, follower@);
        }
        self.data_len = kept.len() as u16;
        self.followers = kept;
    }
}

/// Removing an identity from a list that does not hold it changes nothing.
pub proof fn lemma_without_absent(list: Seq<Seq<u8>>, identity: Seq<u8>)
    ensures
        !list.contains(identity) ==> without(list, identity) == list,
    decreases list.len(),
{
    reveal(Seq::filter);
    if list.len() > 0 && !list.contains(identity) {
        let front = list.drop_last();
        assert forall|e: Seq<u8>| front.contains(e) implies list.contains(e) by {
            let k = choose|k: int| 0 <= k < front.len() && front[k] == e;
            assert(list[k] == e);
        }
        lemma_without_absent(front, identity);
        assert(list.last() == list[list.len() - 1]);
        assert(list.contains(list.last()));
        assert(front.push(list.last()) =~= list);
    }
}

/// How many posts an identity has made.
#[derive(Clone, Copy, Debug, PartialEq, Eq, Structural)]
pub struct UserPost {
    pub post_count: u64,
}

impl UserPost {
    /// The counter of an identity that has not posted.
    pub fn new() -> (counter: UserPost)
        ensures
            counter.post_count == 0,
    {
        UserPost { post_count: 0 }
    }

    /// Counts one more post.
    pub fn add_post(&mut self)
        requires
            old(self).post_count < u64::MAX,
        ensures
            final(self).post_count == old(self).post_count + 1,
    {
        self.post_count += 1;
    }

    /// The number of posts counted.
    pub fn get_count(&self) -> (count: u64)
        ensures
            count == self.post_count,
    {
        self.post_count
    }
}

/// A post: its text and the time at which it was made, in seconds of Unix time.
#[derive(Clone, Debug, PartialEq, Eq)]
pub struct Post {
    pub content: String,
    pub time: u64,
}

impl View for Post {
    type V = (Seq<char>, u64);

    open spec fn view(&self) -> (Seq<char>, u64) {
        (self.content@, self.time)
    }
}

impl Post {
    /// The post with the given text and time.
    pub fn new(content: String, time: u64) -> (post: Post)
        ensures
            post.content == content,
            post.time == time,
            post@ == (content@, time),
    {
        Post { content, time }
    }
}

} // verus!
