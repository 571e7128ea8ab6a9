use std::collections::HashSet;

use social_ledger::address::{seeds_of, str_equal, DerivedAddress, Namespace};
use social_ledger::identity::Identity;
use solana_program::pubkey::Pubkey;

fn id(byte: u8) -> Identity {
    Identity::new_from_array([byte; 32])
}

#[test]
fn identity_keeps_its_bytes() {
    let mut bytes = [0u8; 32];
    for (i, b) in bytes.iter_mut().enumerate() {
        *b = i as u8;
    }
    let identity = Identity::new_from_array(bytes);
    assert_eq!(identity.to_bytes(), bytes);
    assert_eq!(identity.bytes, bytes);
}

#[test]
fn identities_are_compared_byte_for_byte() {
    let mut bytes = [7u8; 32];
    let a = Identity::new_from_array(bytes);
    assert!(a.same(&Identity::new_from_array(bytes)));
    assert!(a == Identity::new_from_array(bytes));
    bytes[31] = 8;
    assert!(!a.same(&Identity::new_from_array(bytes)));
    assert!(a != Identity::new_from_array(bytes));
    bytes[31] = 7;
    bytes[0] = 6;
    assert!(!a.same(&Identity::new_from_array(bytes)));
}

#[test]
fn namespace_is_selected_by_its_name() {
    assert_eq!(Namespace::from_name("profile"), Some(Namespace::Profile));
    assert_eq!(Namespace::from_name("post"), Some(Namespace::Post));
}

#[test]
fn unknown_names_select_no_namespace() {
    assert_eq!(Namespace::from_name(""), None);
    assert_eq!(Namespace::from_name("Profile"), None);
    assert_eq!(Namespace::from_name("posts"), None);
    assert_eq!(Namespace::from_name("pos"), None);
    assert_eq!(Namespace::from_name("profile "), None);
    assert_eq!(Namespace::from_name("p\u{00f6}st"), None);
}

#[test]
fn salt_is_the_name_in_utf8() {
    assert_eq!(Namespace::Profile.salt_bytes(), b"profile".to_vec());
    assert_eq!(Namespace::Post.salt_bytes(), b"post".to_vec());
}

#[test]
fn strings_are_compared_by_their_text() {
    assert!(str_equal("", ""));
    assert!(str_equal("post", "post"));
    assert!(!str_equal("post", "posT"));
    assert!(!str_equal("post", "pos"));
    assert!(!str_equal("", "a"));
    assert!(str_equal("h\u{00e9}llo", "h\u{00e9}llo"));
    assert!(!str_equal("h\u{00e9}llo", "hello"));
}

#[test]
fn seeds_are_owner_salt_and_sequence() {
    let owner = id(3);
    assert_eq!(seeds_of(&owner, Namespace::Profile, None), vec![vec![3u8; 32], b"profile".to_vec()]);
    assert_eq!(seeds_of(&owner, Namespace::Post, None), vec![vec![3u8; 32], b"post".to_vec()]);
    assert_eq!(
        seeds_of(&owner, Namespace::Post, Some(9)),
        vec![vec![3u8; 32], b"post".to_vec(), vec![9u8]]
    );
    assert_eq!(
        seeds_of(&owner, Namespace::Post, Some(0)),
        vec![vec![3u8; 32], b"post".to_vec(), vec![0u8]]
    );
}

#[test]
fn derive_is_deterministic() {
    let program = id(200);
    for byte in 0..20u8 {
        let owner = id(byte);
        for namespace in [Namespace::Profile, Namespace::Post] {
            let first = social_ledger::address::derive(&owner, namespace, None, &program);
            let second = social_ledger::address::derive(&owner, namespace, None, &program);
            assert!(first.is_some());
            assert_eq!(first, second);
        }
        let first = social_ledger::address::derive(&owner, Namespace::Post, Some(byte), &program);
        let second = social_ledger::address::derive(&owner, Namespace::Post, Some(byte), &program);
        assert!(first.is_some());
        assert_eq!(first, second);
    }
}

#[test]
fn derive_gives_the_address_of_the_host_ledger() {
    let owner = id(11);
    let program = id(42);
    let (address, nonce) =
        Pubkey::find_program_address(&[&[11u8; 32], b"profile"], &Pubkey::new_from_array([42u8; 32]));
    let derived = social_ledger::address::derive(&owner, Namespace::Profile, None, &program).unwrap();
    assert_eq!(derived, DerivedAddress { address: Identity::new_from_array(address.to_bytes()), nonce });

    let (address, nonce) =
        Pubkey::find_program_address(&[&[11u8; 32], b"post"], &Pubkey::new_from_array([42u8; 32]));
    let derived = social_ledger::address::derive(&owner, Namespace::Post, None, &program).unwrap();
    assert_eq!(derived.address.to_bytes(), address.to_bytes());
    assert_eq!(derived.nonce, nonce);
}

#[test]
fn derive_of_a_post_takes_its_sequence_number_as_a_seed() {
    let owner = id(11);
    let program = id(42);
    for sequence in [0u8, 1, 2, 255] {
        let (address, nonce) = Pubkey::find_program_address(
            &[&[11u8; 32], b"post", &[sequence]],
            &Pubkey::new_from_array([42u8; 32]),
        );
        let derived = social_ledger::address::derive(&owner, Namespace::Post, Some(sequence), &program).unwrap();
        assert_eq!(derived.address.to_bytes(), address.to_bytes());
        assert_eq!(derived.nonce, nonce);
    }
}

#[test]
fn derived_address_is_neither_owner_nor_program_and_has_no_signing_key() {
    let owner = id(5);
    let program = id(6);
    let derived = social_ledger::address::derive(&owner, Namespace::Profile, None, &program).unwrap();
    assert_ne!(derived.address, owner);
    assert_ne!(derived.address, program);
    assert!(!Pubkey::new_from_array(derived.address.to_bytes()).is_on_curve());
    // The nonce with the seeds gives the address back.
    let again = Pubkey::create_program_address(
        &[&[5u8; 32], b"profile", &[derived.nonce]],
        &Pubkey::new_from_array([6u8; 32]),
    )
    .unwrap();
    assert_eq!(again.to_bytes(), derived.address.to_bytes());
}

#[test]
fn derived_addresses_are_distinct() {
    let programs = [id(250), id(251)];
    let mut seen: HashSet<[u8; 32]> = HashSet::new();
    let mut count = 0usize;
    for program in programs.iter() {
        for byte in 0..24u8 {
            let owner = id(byte);
            for namespace in [Namespace::Profile, Namespace::Post] {
                let derived = social_ledger::address::derive(&owner, namespace, None, program).unwrap();
                assert!(seen.insert(derived.address.to_bytes()));
                count += 1;
            }
            for sequence in 0..6u8 {
                let derived = social_ledger::address::derive(&owner, Namespace::Post, Some(sequence), program).unwrap();
                assert!(seen.insert(derived.address.to_bytes()));
                count += 1;
            }
        }
    }
    assert_eq!(seen.len(), count);
    assert_eq!(count, 2 * 24 * 8);
}
