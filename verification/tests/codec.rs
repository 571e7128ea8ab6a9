use social_ledger::codec::{
    read_identity, PUB_KEY_SIZE, U16_SIZE, USER_POST_SIZE, USER_PROFILE_SIZE,
};
use social_ledger::error::SocialError;
use social_ledger::identity::Identity;
use social_ledger::state::{Post, UserPost, UserProfile};

fn member(byte: u8) -> Identity {
    Identity::new_from_array([byte; 32])
}

fn profile_of(bytes: &[u8]) -> UserProfile {
    let mut profile = UserProfile::new();
    for b in bytes {
        profile.follow(member(*b)).unwrap();
    }
    profile
}

#[test]
fn layout_sizes() {
    assert_eq!(PUB_KEY_SIZE, 32);
    assert_eq!(U16_SIZE, 2);
    assert_eq!(USER_PROFILE_SIZE, 6);
    assert_eq!(USER_POST_SIZE, 8);
}

#[test]
fn empty_profile_is_six_zero_bytes() {
    assert_eq!(UserProfile::new().to_bytes(), vec![0u8; 6]);
}

#[test]
fn profile_is_count_length_and_identities() {
    let bytes = profile_of(&[7, 9]).to_bytes();
    let mut expected = vec![2u8, 0, 2, 0, 0, 0];
    expected.extend_from_slice(&[7u8; 32]);
    expected.extend_from_slice(&[9u8; 32]);
    assert_eq!(bytes, expected);
    assert_eq!(bytes.len(), 6 + 32 * 2);
}

#[test]
fn profile_layout_is_that_of_borsh() {
    for count in [0usize, 1, 2, 17, 200] {
        let ids: Vec<u8> = (0..count).map(|i| i as u8).collect();
        let profile = profile_of(&ids);
        let plain: Vec<[u8; 32]> = ids.iter().map(|b| [*b; 32]).collect();
        let expected = borsh::to_vec(&(count as u16, plain)).unwrap();
        assert_eq!(profile.to_bytes(), expected);
    }
}

#[test]
fn profile_is_read_back() {
    for count in [0usize, 1, 2, 17, 200] {
        let ids: Vec<u8> = (0..count).map(|i| (i * 3) as u8).collect();
        let profile = profile_of(&ids);
        assert_eq!(UserProfile::from_bytes(&profile.to_bytes()), Ok(profile));
    }
}

#[test]
fn profile_is_read_from_the_front_of_a_longer_region() {
    let profile = profile_of(&[4, 5]);
    let mut region = profile.to_bytes();
    region.extend_from_slice(&[0xaa; 100]);
    assert_eq!(UserProfile::from_bytes(&region), Ok(profile));
    assert_eq!(UserProfile::from_bytes(&vec![0u8; 6406]), Ok(UserProfile::new()));
}

#[test]
fn profile_read_by_borsh_is_the_same() {
    let profile = profile_of(&[4, 5, 6]);
    let read: (u16, Vec<[u8; 32]>) = borsh::from_slice(&profile.to_bytes()).unwrap();
    assert_eq!(read.0, 3);
    assert_eq!(read.1, vec![[4u8; 32], [5u8; 32], [6u8; 32]]);
}

#[test]
fn empty_region_holds_no_profile() {
    assert_eq!(UserProfile::from_bytes(&[]), Err(SocialError::RecordAbsent));
}

#[test]
fn short_region_is_a_corrupt_profile() {
    for len in 1..6usize {
        assert_eq!(UserProfile::from_bytes(&vec![0u8; len]), Err(SocialError::CorruptRecord));
    }
}

#[test]
fn profile_whose_count_and_length_differ_is_corrupt() {
    let mut region = vec![1u8, 0, 2, 0, 0, 0];
    region.extend_from_slice(&[0u8; 64]);
    assert_eq!(UserProfile::from_bytes(&region), Err(SocialError::CorruptRecord));
    // A count read with the high byte first would be 256 here.
    let mut region = vec![0u8, 1, 0, 1, 0, 0];
    region.extend_from_slice(&vec![0u8; 32 * 256]);
    assert_eq!(UserProfile::from_bytes(&region), Err(SocialError::CorruptRecord));
}

#[test]
fn profile_over_capacity_is_corrupt() {
    let mut region = vec![201u8, 0, 201, 0, 0, 0];
    region.extend_from_slice(&vec![1u8; 32 * 201]);
    assert_eq!(UserProfile::from_bytes(&region), Err(SocialError::CorruptRecord));
    let mut region = vec![200u8, 0, 200, 0, 0, 0];
    region.extend_from_slice(&vec![1u8; 32 * 200]);
    assert_eq!(UserProfile::from_bytes(&region).map(|p| p.data_len), Ok(200));
}

#[test]
fn profile_cut_short_is_corrupt() {
    let bytes = profile_of(&[1, 2, 3]).to_bytes();
    assert_eq!(UserProfile::from_bytes(&bytes[..bytes.len() - 1]), Err(SocialError::CorruptRecord));
    assert_eq!(UserProfile::from_bytes(&bytes[..6]), Err(SocialError::CorruptRecord));
    assert_eq!(UserProfile::from_bytes(&bytes[..6 + 64]), Err(SocialError::CorruptRecord));
}

#[test]
fn identity_is_read_where_it_stands() {
    let mut data = vec![0u8; 10];
    data.extend((1..=32u8).collect::<Vec<u8>>());
    data.extend_from_slice(&[0xff; 5]);
    let mut expected = [0u8; 32];
    for (i, b) in expected.iter_mut().enumerate() {
        *b = i as u8 + 1;
    }
    assert_eq!(read_identity(&data, 10), Identity::new_from_array(expected));
    assert_eq!(read_identity(&data, 15).to_bytes()[26], 32);
    assert_eq!(read_identity(&data, 15).to_bytes()[27], 0xff);
}

#[test]
fn counter_is_eight_bytes_low_byte_first() {
    assert_eq!(UserPost::new().to_bytes(), vec![0u8; 8]);
    assert_eq!(UserPost { post_count: 1 }.to_bytes(), vec![1, 0, 0, 0, 0, 0, 0, 0]);
    assert_eq!(UserPost { post_count: 0x0102 }.to_bytes(), vec![2, 1, 0, 0, 0, 0, 0, 0]);
    assert_eq!(UserPost { post_count: u64::MAX }.to_bytes(), vec![0xff; 8]);
}

#[test]
fn counter_layout_is_that_of_borsh() {
    for count in [0u64, 1, 255, 256, 1 << 40, u64::MAX] {
        assert_eq!(UserPost { post_count: count }.to_bytes(), borsh::to_vec(&count).unwrap());
    }
}

#[test]
fn counter_is_read_back() {
    for count in [0u64, 1, 255, 256, 1 << 40, u64::MAX] {
        let counter = UserPost { post_count: count };
        assert_eq!(UserPost::from_bytes(&counter.to_bytes()), Ok(counter));
    }
    assert_eq!(UserPost::from_bytes(&[3, 0, 0, 0, 0, 0, 0, 0, 9, 9]), Ok(UserPost { post_count: 3 }));
}

#[test]
fn counter_errors() {
    assert_eq!(UserPost::from_bytes(&[]), Err(SocialError::RecordAbsent));
    for len in 1..8usize {
        assert_eq!(UserPost::from_bytes(&vec![1u8; len]), Err(SocialError::CorruptRecord));
    }
}

#[test]
fn post_is_length_text_and_time() {
    let post = Post::new(String::from("hello"), 0x0102);
    let expected = vec![5u8, 0, 0, 0, b'h', b'e', b'l', b'l', b'o', 2, 1, 0, 0, 0, 0, 0, 0];
    assert_eq!(post.to_bytes(), Ok(expected));
    let empty = Post::new(String::new(), 0);
    assert_eq!(empty.to_bytes(), Ok(vec![0u8; 12]));
}

#[test]
fn post_length_counts_bytes_not_characters() {
    let post = Post::new(String::from("h\u{00e9}"), 1);
    assert_eq!(post.to_bytes(), Ok(vec![3u8, 0, 0, 0, b'h', 0xc3, 0xa9, 1, 0, 0, 0, 0, 0, 0, 0]));
}

#[test]
fn post_layout_is_that_of_borsh() {
    for (text, time) in [("", 0u64), ("hello", 1_700_000_000), ("h\u{00e9}llo w\u{00f6}rld \u{2713}", u64::MAX)] {
        let post = Post::new(String::from(text), time);
        let expected = borsh::to_vec(&(String::from(text), time)).unwrap();
        assert_eq!(post.to_bytes(), Ok(expected));
    }
}

#[test]
fn post_is_read_back() {
    for (text, time) in [("", 0u64), ("hello", 1_700_000_000), ("h\u{00e9}llo w\u{00f6}rld \u{2713}", u64::MAX)] {
        let post = Post::new(String::from(text), time);
        let bytes = post.to_bytes().unwrap();
        assert_eq!(Post::from_bytes(&bytes), Ok(post.clone()));
        let mut longer = bytes.clone();
        longer.extend_from_slice(&[1, 2, 3]);
        assert_eq!(Post::from_bytes(&longer), Ok(post));
    }
}

#[test]
fn post_read_by_borsh_is_the_same() {
    let bytes = Post::new(String::from("world"), 77).to_bytes().unwrap();
    let read: (String, u64) = borsh::from_slice(&bytes).unwrap();
    assert_eq!(read, (String::from("world"), 77));
}

#[test]
fn post_errors() {
    assert_eq!(Post::from_bytes(&[]), Err(SocialError::RecordAbsent));
    assert_eq!(Post::from_bytes(&[0, 0, 0]), Err(SocialError::CorruptRecord));
    // No room for the time.
    assert_eq!(Post::from_bytes(&[0, 0, 0, 0, 1, 2, 3, 4, 5, 6, 7]), Err(SocialError::CorruptRecord));
    // Announces more text than there is.
    assert_eq!(
        Post::from_bytes(&[2, 0, 0, 0, b'a', 1, 0, 0, 0, 0, 0, 0, 0]),
        Err(SocialError::CorruptRecord)
    );
    assert_eq!(
        Post::from_bytes(&[0xff, 0xff, 0xff, 0xff, b'a', 1, 0, 0, 0, 0, 0, 0, 0]),
        Err(SocialError::CorruptRecord)
    );
}

#[test]
fn post_whose_text_is_not_utf8_is_corrupt() {
    let bytes = vec![2u8, 0, 0, 0, 0xc3, 0x28, 1, 0, 0, 0, 0, 0, 0, 0];
    assert_eq!(Post::from_bytes(&bytes), Err(SocialError::CorruptRecord));
    let bytes = vec![1u8, 0, 0, 0, 0xff, 1, 0, 0, 0, 0, 0, 0, 0];
    assert_eq!(Post::from_bytes(&bytes), Err(SocialError::CorruptRecord));
    let bytes = vec![2u8, 0, 0, 0, 0xc3, 0xa9, 1, 0, 0, 0, 0, 0, 0, 0];
    assert_eq!(Post::from_bytes(&bytes), Ok(Post::new(String::from("\u{00e9}"), 1)));
}
