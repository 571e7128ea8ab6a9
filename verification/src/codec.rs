//! The byte layout of the stored records.
//!
//! A follow list is stored as its count in two bytes, followed by the list:
//! its length in four bytes and its identities, 32 bytes each. The region
//! that holds it is allocated once, for a full list, so the record is read
//! from the front of a region that may be longer than the record.
//! A post counter is stored in eight bytes. A post is stored as its text, the
//! length in four bytes and the text in UTF-8, followed by its time in eight
//! bytes. All integers are little-endian.

use vstd::prelude::*;
use vstd::slice::{slice_subrange, slice_to_vec};
use vstd::utf8::{decode_utf8, encode_utf8, valid_utf8};

use crate::bytes::{
    decode_le, encode_le, le_bytes, le_value, lemma_le_bytes_len, lemma_le_bytes_of_value,
    lemma_le_value_bound, lemma_le_value_of_bytes,
    lemma_pow256_values,
};
use crate::error::SocialError;
use crate::identity::Identity;
use crate::state::{Post, UserPost, UserProfile, MAX_FOLLOWER_COUNT};

verus! {

/// Bytes of a stored identity.
pub const PUB_KEY_SIZE: usize = 32;

/// Bytes of the count at the front of a stored follow list.
pub const U16_SIZE: usize = 2;

/// Bytes in front of the identities of a stored follow list: the count and
/// the length of the list.
pub const USER_PROFILE_SIZE: usize = 6;

/// Bytes of a stored post counter.
pub const USER_POST_SIZE: usize = 8;

/// The listed identities, one after the other.
pub open spec fn identities_layout(list: Seq<Seq<u8>>) -> Seq<u8> {
    Seq::new((PUB_KEY_SIZE * list.len()) as nat, |k: int| list[k / 32][k % 32])
}

/// The stored form of a follow list.
pub open spec fn profile_layout(list: Seq<Seq<u8>>) -> Seq<u8> {
    le_bytes(list.len(), 2) + le_bytes(list.len(), 4) + identities_layout(list)
}

/// The `count` identities stored in `data` from `start` on.
pub open spec fn identities_at(data: Seq<u8>, start: int, count: nat) -> Seq<Seq<u8>> {
    Seq::new(count, |i: int| data.subrange(start + 32 * i, start + 32 * i + PUB_KEY_SIZE))
}

/// The follow list stored at the front of a region, or why there is none:
/// an empty region holds no record, and a region is corrupt where it is
/// shorter than its header or than the list it announces, where count and
/// length differ, or where the list is over capacity.
pub open spec fn profile_record(data: Seq<u8>) -> Result<Seq<Seq<u8>>, SocialError> {
    if data.len() == 0 {
        Err(SocialError::RecordAbsent)
    } else if data.len() < USER_PROFILE_SIZE {
        Err(SocialError::CorruptRecord)
    } else {
        let count = le_value(data.subrange(0, 2));
        let length = le_value(data.subrange(2, 6));
        if count != length || length > MAX_FOLLOWER_COUNT || data.len() < USER_PROFILE_SIZE + PUB_KEY_SIZE
            * length {
            Err(SocialError::CorruptRecord)
        } else {
            Ok(identities_at(data, 6, length))
        }
    }
}

/// Every entry of a list of identities has 32 bytes.
pub open spec fn all_identities(list: Seq<Seq<u8>>) -> bool {
    forall|i: int| 0 <= i < list.len() ==> (#[trigger] list[i]).len() == PUB_KEY_SIZE
}

/// The identity stored in `data` at `at`.
pub fn read_identity(data: &[u8], at: usize) -> (id: Identity)
    requires
        at + 32 <= data@.len(),
    ensures
        id@ == data@.subrange(at as int, at + 32),
{
    let len = data.len();
    let mut bytes: [u8; 32] = [0u8; 32];
    let mut j: usize = 0;
    while j < 32
        invariant
            j <= 32,
            at + 32 <= len == data@.len(),
            forall|k: int| 0 <= k < j ==> bytes@[k] == data@[at + k],
        decreases 32 - j,
    {
        bytes[j] = data[at + j];
        j += 1;
    }
    let id = Identity { bytes };
    assert(id@ =~= data@.subrange(at as int, at + 32));
    id
}

impl UserProfile {
    /// The stored form of the profile.
    pub fn to_bytes(&self) -> (out: Vec<u8>)
        requires
            self.wf(),
        ensures
            out@ == profile_layout(self@),
            out@.len() == 6 + 32 * self@.len(),
    {
        let count = self.followers.len();
        let mut out = encode_le(self.data_len as u64, 2);
        let mut length = encode_le(count as u64, 4);
        out.append(&mut length);
        let ghost header = out@;
        let mut i: usize = 0;
        proof {
            assert(identities_layout(self@.take(0)) =~= Seq::<u8>::empty());
            assert(header + Seq::<u8>::empty() =~= header);
        }
        while i < count
            invariant
                i <= count,
                count == self.followers@.len(),
                header.len() == 6,
                out@ == header + identities_layout(self@.take(i as int)),
            decreases count - i,
        {
            let ghost before = identities_layout(self@.take(i as int));
            out.extend_from_slice(self.followers[i].bytes.as_slice());
            proof {
                let entry = self.followers[i as int]@;
                assert(entry.len() == 32);
                let after = identities_layout(self@.take(i + 1));
                assert(after =~= before + entry) by {
                    assert forall|k: int| 0 <= k < after.len() implies after[k] == (before + entry)[k] by {
                        if k < 32 * i {
                            assert(self@.take(i + 1)[k / 32] == self@.take(i as int)[k / 32]);
                        } else {
                            assert(k / 32 == i);
                            assert(k % 32 == k - 32 * i);
                        }
                    }
                }
                assert(out@ =~= header + after);
            }
            i += 1;
        }
        proof {
            assert(self@.take(count as int) =~= self@);
        }
        out
    }

    /// Reads the follow list stored at the front of a region.
    pub fn from_bytes(data: &[u8]) -> (r: Result<UserProfile, SocialError>)
        ensures
            match r {
                Ok(profile) => profile.wf() && profile_record(data@) == Ok::<Seq<Seq<u8>>, SocialError>(
                    profile@,
                ),
                Err(e) => profile_record(data@) == Err::<Seq<Seq<u8>>, SocialError>(e),
            },
    {
        if data.len() == 0 {
            return Err(SocialError::RecordAbsent);
        }
        if data.len() < USER_PROFILE_SIZE {
            return Err(SocialError::CorruptRecord);
        }
        let count = decode_le(slice_subrange(data, 0, 2));
        let length = decode_le(slice_subrange(data, 2, 6));
        if count != length || length > MAX_FOLLOWER_COUNT as u64 {
            return Err(SocialError::CorruptRecord);
        }
        let n = length as usize;
        if data.len() < USER_PROFILE_SIZE + PUB_KEY_SIZE * n {
            return Err(SocialError::CorruptRecord);
        }
        let mut followers: Vec<Identity> = Vec::new();
        let mut i: usize = 0;
        while i < n
            invariant
                i <= n <= MAX_FOLLOWER_COUNT,
                data@.len() >= 6 + 32 * n,
                followers@.len() == i,
                forall|k: int| 0 <= k < i ==> followers@[k]@ == data@.subrange(6 + 32 * k, 6 + 32 * k + 32),
            decreases n - i,
        {
            followers.push(read_identity(data, USER_PROFILE_SIZE + PUB_KEY_SIZE * i));
            i += 1;
        }
        let profile = UserProfile { data_len: n as u16, followers };
        assert(profile@ =~= identities_at(data@, 6, n as nat));
        Ok(profile)
    }
}

/// A follow list within capacity is read back from its stored form, whatever
/// follows it in the region.
pub proof fn lemma_profile_round_trip(list: Seq<Seq<u8>>, rest: Seq<u8>)
    requires
        list.len() <= MAX_FOLLOWER_COUNT,
        all_identities(list),
    ensures
        profile_record(profile_layout(list) + rest) == Ok::<Seq<Seq<u8>>, SocialError>(list),
{
    let n = list.len();
    let data = profile_layout(list) + rest;
    lemma_le_bytes_len(n, 2);
    lemma_le_bytes_len(n, 4);
    lemma_pow256_values();
    lemma_le_value_of_bytes(n, 2);
    lemma_le_value_of_bytes(n, 4);
    assert(data.subrange(0, 2) =~= le_bytes(n, 2));
    assert(data.subrange(2, 6) =~= le_bytes(n, 4));
    let read = identities_at(data, 6, n);
    assert forall|i: int| 0 <= i < n implies read[i] == list[i] by {
        assert forall|j: int| 0 <= j < 32 implies read[i][j] == list[i][j] by {
            let k = 32 * i + j;
            assert(data[6 + k] == identities_layout(list)[k]);
            assert(k / 32 == i);
            assert(k % 32 == j);
        }
        assert(read[i] =~= list[i]);
    }
    assert(read =~= list);
}

/// A follow list that was read is made of identities, and its stored form is
/// the front of the region it was read from.
pub proof fn lemma_profile_canonical(data: Seq<u8>)
    requires
        profile_record(data) is Ok,
    ensures
        ({
            let list = profile_record(data)->Ok_0;
            &&& all_identities(list)
            &&& list.len() <= MAX_FOLLOWER_COUNT
            &&& profile_layout(list).len() == 6 + 32 * list.len()
            &&& profile_layout(list) + data.skip(6 + 32 * (list.len() as int)) == data
        }),
{
    let list = profile_record(data)->Ok_0;
    let n = list.len() as int;
    assert(list == identities_at(data, 6, list.len()));
    lemma_le_bytes_len(list.len(), 2);
    lemma_le_bytes_len(list.len(), 4);
    lemma_le_bytes_of_value(data.subrange(0, 2));
    lemma_le_bytes_of_value(data.subrange(2, 6));
    let stored = identities_layout(list);
    let layout = profile_layout(list);
    assert forall|k: int| 0 <= k < 32 * n implies stored[k] == data[6 + k] by {
        let i = k / 32;
        let j = k % 32;
        assert(list[i] == data.subrange(6 + 32 * i, 6 + 32 * i + 32));
        assert(list[i][j] == data[6 + 32 * i + j]);
    }
    assert(layout + data.skip(6 + 32 * n) =~= data) by {
        assert forall|k: int| 0 <= k < data.len() implies (layout + data.skip(6 + 32 * n))[k] == data[k] by {
            if k < 2 {
                assert(layout[k] == le_bytes(list.len(), 2)[k]);
                assert(data.subrange(0, 2)[k] == data[k]);
            } else if k < 6 {
                assert(layout[k] == le_bytes(list.len(), 4)[k - 2]);
                assert(data.subrange(2, 6)[k - 2] == data[k]);
            } else if k < 6 + 32 * n {
                assert(layout[k] == stored[k - 6]);
            }
        }
    }
}

/// The stored form of a post counter.
pub open spec fn counter_layout(count: u64) -> Seq<u8> {
    le_bytes(count as nat, 8)
}

/// The post count stored at the front of a region, or why there is none: an
/// empty region holds no record, and one of fewer than eight bytes is corrupt.
pub open spec fn counter_record(data: Seq<u8>) -> Result<u64, SocialError> {
    if data.len() == 0 {
        Err(SocialError::RecordAbsent)
    } else if data.len() < USER_POST_SIZE {
        Err(SocialError::CorruptRecord)
    } else {
        Ok(le_value(data.subrange(0, 8)) as u64)
    }
}

impl UserPost {
    /// The stored form of the counter.
    pub fn to_bytes(&self) -> (out: Vec<u8>)
        ensures
            out@ == counter_layout(self.post_count),
            out@.len() == 8,
    {
        encode_le(self.post_count, USER_POST_SIZE)
    }

    /// Reads the post counter stored at the front of a region.
    pub fn from_bytes(data: &[u8]) -> (r: Result<UserPost, SocialError>)
        ensures
            match r {
                Ok(counter) => counter_record(data@) == Ok::<u64, SocialError>(counter.post_count),
                Err(e) => counter_record(data@) == Err::<u64, SocialError>(e),
            },
    {
        if data.len() == 0 {
            return Err(SocialError::RecordAbsent);
        }
        if data.len() < USER_POST_SIZE {
            return Err(SocialError::CorruptRecord);
        }
        Ok(UserPost { post_count: decode_le(slice_subrange(data, 0, USER_POST_SIZE)) })
    }
}

/// A post count is read back from its stored form, whatever follows it in
/// the region.
pub proof fn lemma_counter_round_trip(count: u64, rest: Seq<u8>)
    ensures
        counter_record(counter_layout(count) + rest) == Ok::<u64, SocialError>(count),
{
    let data = counter_layout(count) + rest;
    lemma_le_bytes_len(count as nat, 8);
    lemma_pow256_values();
    lemma_le_value_of_bytes(count as nat, 8);
    assert(data.subrange(0, 8) =~= le_bytes(count as nat, 8));
}

/// The stored form of a post.
pub open spec fn post_layout(content: Seq<char>, time: u64) -> Seq<u8> {
    let text = encode_utf8(content);
    le_bytes(text.len(), 4) + text + le_bytes(time as nat, 8)
}

/// Whether a text can be stored: its UTF-8 form has a length of four bytes.
pub open spec fn storable(content: Seq<char>) -> bool {
    encode_utf8(content).len() <= u32::MAX
}

/// The post stored at the front of a region, or why there is none: an empty
/// region holds no record, and a region is corrupt where it is shorter than
/// the post it announces, or where the text is not UTF-8.
pub open spec fn post_record(data: Seq<u8>) -> Result<(Seq<char>, u64), SocialError> {
    if data.len() == 0 {
        Err(SocialError::RecordAbsent)
    } else if data.len() < 4 {
        Err(SocialError::CorruptRecord)
    } else {
        let length = le_value(data.subrange(0, 4)) as int;
        if data.len() < 4 + length + 8 || !valid_utf8(data.subrange(4, 4 + length)) {
            Err(SocialError::CorruptRecord)
        } else {
            Ok(
                (
                    decode_utf8(data.subrange(4, 4 + length)),
                    le_value(data.subrange(4 + length, 4 + length + 8)) as u64,
                ),
            )
        }
    }
}

/// Calls `String::from_utf8` of std, which gives the text that the bytes
/// encode if they are valid UTF-8, and an error if not. Nothing is proved of
/// the call: the contract states this over the definition of UTF-8 in vstd.
#[verifier::external_body]
fn string_from_utf8(bytes: Vec<u8>) -> (r: Option<String>)
    ensures
        r is Some <==> valid_utf8(bytes@),
        r matches Some(text) ==> text@ == decode_utf8(bytes@),
{
    String::from_utf8(bytes).ok()
}

impl Post {
    /// The stored form of the post. A text too long for its length to be
    /// stored is refused.
    pub fn to_bytes(&self) -> (r: Result<Vec<u8>, SocialError>)
        ensures
            match r {
                Ok(out) => storable(self.content@) && out@ == post_layout(self.content@, self.time),
                Err(e) => !storable(self.content@) && e == SocialError::InvalidArgument,
            },
    {
        let text = self.content.as_str().as_bytes();
        if text.len() as u64 > u32::MAX as u64 {
            return Err(SocialError::InvalidArgument);
        }
        let mut out = encode_le(text.len() as u64, 4);
        out.extend_from_slice(text);
        let mut time = encode_le(self.time, 8);
        out.append(&mut time);
        Ok(out)
    }

    /// Reads the post stored at the front of a region.
    pub fn from_bytes(data: &[u8]) -> (r: Result<Post, SocialError>)
        ensures
            match r {
                Ok(post) => post_record(data@) == Ok::<(Seq<char>, u64), SocialError>(post@),
                Err(e) => post_record(data@) == Err::<(Seq<char>, u64), SocialError>(e),
            },
    {
        if data.len() == 0 {
            return Err(SocialError::RecordAbsent);
        }
        if data.len() < 4 {
            return Err(SocialError::CorruptRecord);
        }
        let length = decode_le(slice_subrange(data, 0, 4));
        proof {
            lemma_le_value_bound(data@.subrange(0, 4));
            lemma_pow256_values();
        }
        if (data.len() as u64) < 12 + length {
            return Err(SocialError::CorruptRecord);
        }
        let end = 4 + length as usize;
        let text = string_from_utf8(slice_to_vec(slice_subrange(data, 4, end)));
        match text {
            None => Err(SocialError::CorruptRecord),
            Some(content) => {
                let time = decode_le(slice_subrange(data, end, end + 8));
                Ok(Post { content, time })
            },
        }
    }
}

/// A post that can be stored is read back from its stored form, whatever
/// follows it in the region.
pub proof fn lemma_post_round_trip(content: Seq<char>, time: u64, rest: Seq<u8>)
    requires
        storable(content),
    ensures
        post_record(post_layout(content, time) + rest) == Ok::<(Seq<char>, u64), SocialError>(
            (content, time),
        ),
{
    let text = encode_utf8(content);
    let length = text.len() as int;
    let data = post_layout(content, time) + rest;
    lemma_le_bytes_len(text.len(), 4);
    lemma_le_bytes_len(time as nat, 8);
    lemma_pow256_values();
    lemma_le_value_of_bytes(text.len(), 4);
    lemma_le_value_of_bytes(time as nat, 8);
    vstd::utf8::encode_utf8_valid_utf8(content);
    vstd::utf8::encode_utf8_decode_utf8(content);
    assert(data.subrange(0, 4) =~= le_bytes(text.len(), 4));
    assert(data.subrange(4, 4 + length) =~= text);
    assert(data.subrange(4 + length, 4 + length + 8) =~= le_bytes(time as nat, 8));
}

} // verus!
