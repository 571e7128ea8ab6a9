use social_ledger::address::DerivedAddress;
use social_ledger::error::SocialError;
use social_ledger::identity::Identity;
use social_ledger::store::Account;

fn at(byte: u8) -> Identity {
    Identity::new_from_array([byte; 32])
}

fn found(byte: u8) -> Option<DerivedAddress> {
    Some(DerivedAddress { address: at(byte), nonce: 254 })
}

#[test]
fn new_account_has_nothing_allocated() {
    let account = Account::new(at(1));
    assert_eq!(account.key, at(1));
    assert!(account.data.is_empty());
}

#[test]
fn create_record_allocates_zero_bytes() {
    let mut account = Account::new(at(1));
    assert_eq!(account.create_record(found(1), 8), Ok(()));
    assert_eq!(account.key, at(1));
    assert_eq!(account.data, vec![0u8; 8]);
    let mut large = Account::new(at(2));
    assert_eq!(large.create_record(found(2), 6406), Ok(()));
    assert_eq!(large.data, vec![0u8; 6406]);
}

#[test]
fn create_record_refuses_another_address() {
    let mut account = Account::new(at(1));
    assert_eq!(account.create_record(found(2), 8), Err(SocialError::InvalidTarget));
    assert_eq!(account, Account::new(at(1)));
    assert_eq!(account.create_record(None, 8), Err(SocialError::InvalidTarget));
    assert_eq!(account, Account::new(at(1)));
    let mut near = [1u8; 32];
    near[31] = 2;
    let almost = Some(DerivedAddress { address: Identity::new_from_array(near), nonce: 255 });
    assert_eq!(account.create_record(almost, 8), Err(SocialError::InvalidTarget));
    assert_eq!(account, Account::new(at(1)));
}

#[test]
fn create_record_refuses_a_second_allocation() {
    let mut account = Account::new(at(1));
    assert_eq!(account.create_record(found(1), 8), Ok(()));
    assert_eq!(account.write(&[5, 0, 0, 0, 0, 0, 0, 0]), Ok(()));
    let before = account.clone();
    assert_eq!(account.create_record(found(1), 8), Err(SocialError::AlreadyInitialized));
    assert_eq!(account, before);
    assert_eq!(account.create_record(found(1), 16), Err(SocialError::AlreadyInitialized));
    assert_eq!(account, before);
}

#[test]
fn create_record_checks_the_address_first() {
    let mut account = Account { key: at(1), data: vec![1, 2, 3] };
    assert_eq!(account.create_record(found(9), 0), Err(SocialError::InvalidTarget));
    assert_eq!(account.create_record(found(1), 0), Err(SocialError::AlreadyInitialized));
}

#[test]
fn create_record_refuses_no_bytes() {
    let mut account = Account::new(at(1));
    assert_eq!(account.create_record(found(1), 0), Err(SocialError::InvalidArgument));
    assert_eq!(account, Account::new(at(1)));
}

#[test]
fn write_covers_the_front_of_the_region() {
    let mut account = Account { key: at(1), data: vec![9u8; 6] };
    assert_eq!(account.write(&[1, 2, 3]), Ok(()));
    assert_eq!(account.data, vec![1, 2, 3, 9, 9, 9]);
    assert_eq!(account.write(&[]), Ok(()));
    assert_eq!(account.data, vec![1, 2, 3, 9, 9, 9]);
    assert_eq!(account.write(&[6, 5, 4, 3, 2, 1]), Ok(()));
    assert_eq!(account.data, vec![6, 5, 4, 3, 2, 1]);
    assert_eq!(account.key, at(1));
}

#[test]
fn write_refuses_a_record_longer_than_the_region() {
    let mut account = Account { key: at(1), data: vec![9u8; 3] };
    assert_eq!(account.write(&[1, 2, 3, 4]), Err(SocialError::CapacityExceeded));
    assert_eq!(account.data, vec![9u8; 3]);
}

#[test]
fn write_needs_an_allocated_region() {
    let mut account = Account::new(at(1));
    assert_eq!(account.write(&[1]), Err(SocialError::RecordAbsent));
    assert_eq!(account.write(&[]), Err(SocialError::RecordAbsent));
    assert!(account.data.is_empty());
}
