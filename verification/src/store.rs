//! The accounts of the host ledger, as far as the processor reads them, and
//! the allocation of the regions that hold the records.

use vstd::prelude::*;

use crate::address::{outcome_view, DerivedAddress};
use crate::error::SocialError;
use crate::identity::Identity;

verus! {

/// An account of the host ledger: an address and the region of bytes stored
/// at it. Nothing is allocated at the address while the region is empty.
#[derive(Clone, Debug, PartialEq, Eq)]
pub struct Account {
    pub key: Identity,
    pub data: Vec<u8>,
}

/// What an account is to the rules: the bytes of its address and the bytes
/// of its region.
pub ghost struct AccountView {
    pub key: Seq<u8>,
    pub data: Seq<u8>,
}

impl View for Account {
    type V = AccountView;

    open spec fn view(&self) -> AccountView {
        AccountView { key: self.key@, data: self.data@ }
    }
}

impl DeepView for Account {
    type V = AccountView;

    open spec fn deep_view(&self) -> AccountView {
        self@
    }
}

impl AccountView {
    /// Whether a region is allocated at the address.
    pub open spec fn allocated(self) -> bool {
        self.data.len() > 0
    }
}

/// A region of `len` zero bytes.
pub open spec fn zeroes(len: nat) -> Seq<u8> {
    Seq::new(len, |i: int| 0u8)
}

impl Account {
    /// Whether a region is allocated at the account's address.
    pub open spec fn allocated(&self) -> bool {
        self.data@.len() > 0
    }

    /// The account at `key`, with nothing allocated.
    pub fn new(key: Identity) -> (account: Account)
        ensures
            account.key == key,
            !account.allocated(),
    {
        Account { key, data: Vec::new() }
    }

    /// Allocates a region of `byte_size` zero bytes at the account's address,
    /// which must be the derived one. An address can be allocated once.
    pub fn create_record(&mut self, derived: Option<DerivedAddress>, byte_size: usize) -> (r: Result<
        (),
        SocialError,
    >)
        ensures
            final(self).key == old(self).key,
            r == creation(old(self)@, outcome_view(derived), byte_size as nat),
            r is Ok ==> final(self).data@ == zeroes(byte_size as nat),
            r is Err ==> *final(self) == *old(self),
    {
        match derived {
            None => {
                return Err(SocialError::InvalidTarget);
            },
            Some(found) => {
                if !found.address.same(&self.key) {
                    return Err(SocialError::InvalidTarget);
                }
            },
        }
        if self.data.len() > 0 {
            return Err(SocialError::AlreadyInitialized);
        }
        if byte_size == 0 {
            return Err(SocialError::InvalidArgument);
        }
        self.data = vec![0u8; byte_size];
        assert(self.data@ =~= zeroes(byte_size as nat));
        Ok(())
    }

    /// The bytes of the account's region.
    pub fn read(&self) -> (bytes: &[u8])
        ensures
            bytes@ == self.data@,
    {
        self.data.as_slice()
    }

    /// Writes a record over the front of the account's region. The rest of
    /// the region stays as it is. A record longer than the region is refused,
    /// and nothing is written of it.
    pub fn write(&mut self, record: &[u8]) -> (r: Result<(), SocialError>)
        ensures
            final(self).key == old(self).key,
            r == admission(old(self)@, record@),
            r is Ok ==> final(self).data@ == record@ + old(self).data@.skip(record@.len() as int),
            r is Err ==> *final(self) == *old(self),
    {
        if self.data.len() == 0 {
            return Err(SocialError::RecordAbsent);
        }
        if record.len() > self.data.len() {
            return Err(SocialError::CapacityExceeded);
        }
        let mut i: usize = 0;
        while i < record.len()
            invariant
                i <= record@.len() <= self.data@.len(),
                self.key == old(self).key,
                self.data@.len() == old(self).data@.len(),
                forall|k: int| 0 <= k < i ==> self.data@[k] == record@[k],
                forall|k: int| i <= k < self.data@.len() ==> self.data@[k] == old(self).data@[k],
            decreases record@.len() - i,
        {
            self.data.set(i, record[i]);
            i += 1;
        }
        assert(self.data@ =~= record@ + old(self).data@.skip(record@.len() as int));
        Ok(())
    }

}

/// Whether an allocation is granted. It is refused for an address other than
/// the derived one, then for an address that is allocated already, then for
/// a region of no bytes.
pub open spec fn creation(account: AccountView, derived: Option<(Seq<u8>, u8)>, byte_size: nat) -> Result<
    (),
    SocialError,
> {
    if !(derived matches Some(found) && found.0 == account.key) {
        Err(SocialError::InvalidTarget)
    } else if account.allocated() {
        Err(SocialError::AlreadyInitialized)
    } else if byte_size == 0 {
        Err(SocialError::InvalidArgument)
    } else {
        Ok(())
    }
}

/// Whether a record is admitted to an account's region: not where nothing is
/// allocated, and not where the region is shorter than the record.
pub open spec fn admission(account: AccountView, record: Seq<u8>) -> Result<(), SocialError> {
    if !account.allocated() {
        Err(SocialError::RecordAbsent)
    } else if record.len() > account.data.len() {
        Err(SocialError::CapacityExceeded)
    } else {
        Ok(())
    }
}

} // verus!
