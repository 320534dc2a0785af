use vstd::prelude::*;

verus! {

/// An account of the registry.
pub type AccountId = u64;

/// The identifier of a collection.
pub type CollectionId = u32;

/// The identifier of an item inside its collection.
pub type ItemId = u32;

/// An amount of funds.
pub type Balance = u64;

/// Who owns, and so may write, an attribute.
#[derive(Clone, Copy, Debug, PartialEq, Eq, Structural)]
pub enum AttributeNamespace {
    /// Reserved for the registry itself; never writable by an ordinary caller.
    Pallet,
    /// The owner of the collection.
    CollectionOwner,
    /// The owner of the item.
    ItemOwner,
    /// An account that the item's owner has approved as a delegate.
    Account(AccountId),
}

/// Who paid the deposit of an attribute, and how much.
#[derive(Clone, Copy, Debug, PartialEq, Eq, Structural)]
pub struct AttributeDeposit {
    pub account: Option<AccountId>,
    pub amount: Balance,
}

/// Every way in which an operation of the store can fail.
#[derive(Clone, Copy, Debug, PartialEq, Eq, Structural)]
pub enum Error {
    MethodDisabled,
    UnknownCollection,
    UnknownItem,
    NoPermission,
    LockedCollectionAttributes,
    LockedItemAttributes,
    AttributeNotFound,
    ReachedApprovalLimit,
    BadWitness,
    IncorrectData,
    InsufficientFunds,
}

/// The largest value of a balance.
pub const MAX_BALANCE: u64 = 0xffff_ffff_ffff_ffff;

/// `x` clamped to the range of a balance.
pub open spec fn clamp(x: int) -> u64 {
    if x > MAX_BALANCE {
        MAX_BALANCE
    } else if x < 0 {
        0
    } else {
        x as u64
    }
}

/// A product clamped at the largest balance instead of overflowing.
pub fn saturating_mul(a: u64, b: u64) -> (r: u64)
    ensures
        r == clamp(a * b),
{
    match a.checked_mul(b) {
        Some(p) => p,
        None => MAX_BALANCE,
    }
}

} // verus!
