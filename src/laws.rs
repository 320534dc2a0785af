use vstd::prelude::*;
use crate::types::{AccountId, AttributeDeposit, AttributeNamespace, Balance, CollectionId, ItemId};
use crate::ledger::{AccountBalance, balance_in, balances_fit};
use crate::store::Pallet;
use crate::attributes::{can_settle, payer_changes, settled};
use crate::reads::NamespacePrecedence;

verus! {

/// Deposit accounting of a write: when an attribute's deposit `old` is
/// replaced by `dep` paid by `origin`, the funds reserved against the
/// payers change by exactly the change of the record's amount. A former
/// payer gets back exactly its old deposit and `origin` reserves the whole
/// new one; when `origin` already paid (or nothing was paid), its reserve
/// moves by the difference. No other account is touched.
pub proof fn lemma_write_moves_deposit_difference(
    m: Map<AccountId, AccountBalance>,
    origin: AccountId,
    old: AttributeDeposit,
    dep: Balance,
)
    requires
        balances_fit(m),
        can_settle(m, origin, old, dep),
        old.account == Some(origin) || old.amount == 0 || payer_changes(old, origin),
        old.account is Some ==> balance_in(m, old.account->0).reserved >= old.amount,
    ensures
        ({
            let after = settled(m, origin, old, dep);
            &&& payer_changes(old, origin) ==> {
                &&& balance_in(after, old.account->0).reserved == balance_in(m, old.account->0).reserved
                    - old.amount
                &&& balance_in(after, origin).reserved == balance_in(m, origin).reserved + dep
            }
            &&& !payer_changes(old, origin) ==> balance_in(after, origin).reserved == balance_in(
                m,
                origin,
            ).reserved - old.amount + dep
            &&& forall|a: AccountId|
                a != origin && old.account != Some(a) ==> #[trigger] balance_in(after, a) == balance_in(
                    m,
                    a,
                )
        }),
{
}

/// Deposit accounting of a clear: clearing a record paid by `p` (outside
/// the collection owner's namespace) gives back to `p` exactly the record's
/// amount, and touches no other account.
pub proof fn lemma_clear_returns_deposit(
    m: Map<AccountId, AccountBalance>,
    namespace: AttributeNamespace,
    owner: AccountId,
    p: AccountId,
    amount: Balance,
)
    requires
        balances_fit(m),
        namespace != AttributeNamespace::CollectionOwner,
        balance_in(m, p).reserved >= amount,
    ensures
        ({
            let after = Pallet::released(m, namespace, owner, AttributeDeposit { account: Some(p), amount });
            &&& balance_in(after, p).reserved == balance_in(m, p).reserved - amount
            &&& balance_in(after, p).free == balance_in(m, p).free + amount
            &&& forall|a: AccountId| a != p ==> #[trigger] balance_in(after, a) == balance_in(m, a)
        }),
{
}

/// A caller that is neither the collection's owner, nor the item's owner,
/// nor an approved delegate of the item, may write or clear in no
/// namespace: the store answers `NoPermission`.
pub proof fn lemma_outsider_has_no_permission(
    store: Pallet,
    origin: AccountId,
    c: CollectionId,
    maybe_item: Option<ItemId>,
    namespace: AttributeNamespace,
    key: Seq<u8>,
    value: Seq<u8>,
)
    requires
        store.config.attributes_enabled,
        store.collection_of(c) is Some,
        store.collection_of(c)->0.owner != origin,
        maybe_item is Some ==> {
            &&& store.item_owner_of(c, maybe_item->0) is Some
            &&& store.item_owner_of(c, maybe_item->0) != Some(origin)
            &&& !store.approvals_of(c, maybe_item->0).contains(origin)
        },
    ensures
        store.set_outcome(origin, c, maybe_item, namespace, key, value) == Err::<(), crate::types::Error>(
            crate::types::Error::NoPermission,
        ),
        store.attribute_of((c, maybe_item, namespace, key)) is Some && crate::attributes::old_deposit(
            store.attribute_of((c, maybe_item, namespace, key)),
        ).account != Some(origin) ==> store.clear_outcome(Some(origin), c, maybe_item, namespace, key)
            == Err::<(), crate::types::Error>(crate::types::Error::NoPermission),
{
}

/// While an item's settings lock its attributes, the collection owner can
/// neither set nor clear (a record it did not pay for) an attribute in its
/// own namespace of that item: the store answers `LockedItemAttributes`.
pub proof fn lemma_locked_item_refuses_owner(
    store: Pallet,
    origin: AccountId,
    c: CollectionId,
    i: ItemId,
    key: Seq<u8>,
    value: Seq<u8>,
)
    requires
        store.config.attributes_enabled,
        store.collection_of(c) is Some,
        store.collection_of(c)->0.owner == origin,
        store.item_config_of(c, i) is Some,
        !store.item_config_of(c, i)->0.unlocked_attributes,
    ensures
        store.set_outcome(origin, c, Some(i), AttributeNamespace::CollectionOwner, key, value)
            == Err::<(), crate::types::Error>(crate::types::Error::LockedItemAttributes),
        store.attribute_of((c, Some(i), AttributeNamespace::CollectionOwner, key)) is Some
            && crate::attributes::old_deposit(
            store.attribute_of((c, Some(i), AttributeNamespace::CollectionOwner, key)),
        ).account != Some(origin) ==> store.clear_outcome(
            Some(origin),
            c,
            Some(i),
            AttributeNamespace::CollectionOwner,
            key,
        ) == Err::<(), crate::types::Error>(crate::types::Error::LockedItemAttributes),
{
}

/// A read that names the namespace returns exactly the value stored there,
/// and nothing once it is cleared; for any precedence.
pub proof fn lemma_read_returns_stored<P: NamespacePrecedence>(
    store: Pallet,
    c: CollectionId,
    i: ItemId,
    namespace: AttributeNamespace,
    key: Seq<u8>,
)
    requires
        0 < key.len() <= store.config.key_limit,
    ensures
        store.item_attribute_view::<P>(c, i, key, Some(namespace)) == match store.attribute_of(
            (c, Some(i), namespace, key),
        ) {
            Some(rec) => Some(rec.0),
            None => None::<Seq<u8>>,
        },
        store.collection_attribute_view(c, key) == match store.attribute_of(
            (c, None, AttributeNamespace::CollectionOwner, key),
        ) {
            Some(rec) => Some(rec.0),
            None => None::<Seq<u8>>,
        },
{
}

/// Approving one more delegate on an item that has as many as allowed
/// fails with `ReachedApprovalLimit`.
pub proof fn lemma_approval_limit(store: Pallet, owner: AccountId, c: CollectionId, i: ItemId, delegate: AccountId)
    requires
        store.config.attributes_enabled,
        store.item_owner_of(c, i) == Some(owner),
        store.approvals_of(c, i).len() == store.config.approvals_limit,
        !store.approvals_of(c, i).contains(delegate),
    ensures
        store.approve_outcome(owner, c, i, delegate) == Err::<(), crate::types::Error>(
            crate::types::Error::ReachedApprovalLimit,
        ),
{
}

/// No item ever has more delegates than allowed in a well-formed store.
pub proof fn lemma_approvals_bounded(store: Pallet, c: CollectionId, i: ItemId)
    requires
        store.wf(),
    ensures
        store.approvals_of(c, i).len() <= store.config.approvals_limit,
{
}

} // verus!
