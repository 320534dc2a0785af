use vstd::prelude::*;
use crate::types::{
    AccountId, AttributeDeposit, AttributeNamespace, Balance, CollectionId, Error, ItemId, clamp,
    saturating_mul,
};
use crate::ledger::{AccountBalance, can_reserve, reserved_map, unreserved_map};
use crate::reads::copy_bytes;
use crate::store::{
    AttrKey, AttributeEntry, CollectionDetails, Event, Pallet, keys_unique, lemma_lookup_at,
    lemma_lookup_push, lemma_lookup_remove, lemma_lookup_update,
};

verus! {

broadcast use vstd::std_specs::hash::group_hash_axioms;

/// Whether two byte strings are equal.
pub fn bytes_eq(a: &Vec<u8>, b: &Vec<u8>) -> (r: bool)
    ensures
        r == (a@ == b@),
{
    if a.len() != b.len() {
        return false;
    }
    let mut k: usize = 0;
    while k < a.len()
        invariant
            a@.len() == b@.len(),
            0 <= k <= a.len(),
            forall|j: int| 0 <= j < k ==> a@[j] == b@[j],
        decreases a.len() - k,
    {
        if a[k] != b[k] {
            return false;
        }
        k += 1;
    }
    assert(a@ =~= b@);
    true
}

fn option_item_eq(a: Option<ItemId>, b: Option<ItemId>) -> (r: bool)
    ensures
        r == (a == b),
{
    match (a, b) {
        (Some(x), Some(y)) => x == y,
        (None, None) => true,
        _ => false,
    }
}

fn option_account_eq(a: Option<AccountId>, b: Option<AccountId>) -> (r: bool)
    ensures
        r == (a == b),
{
    match (a, b) {
        (Some(x), Some(y)) => x == y,
        (None, None) => true,
        _ => false,
    }
}

/// The deposit that an attribute stands on, or none for an absent one.
pub open spec fn old_deposit(rec: Option<(Seq<u8>, AttributeDeposit)>) -> AttributeDeposit {
    match rec {
        Some(r) => r.1,
        None => AttributeDeposit { account: None, amount: 0 },
    }
}

/// Whether the deposit changes hands: a payer other than `origin` held it.
pub open spec fn payer_changes(old: AttributeDeposit, origin: AccountId) -> bool {
    old.account is Some && old.account != Some(origin)
}

/// Whether `origin` can cover the new deposit `dep` of an attribute whose
/// deposit was `old`.
pub open spec fn can_settle(
    m: Map<AccountId, AccountBalance>,
    origin: AccountId,
    old: AttributeDeposit,
    dep: Balance,
) -> bool {
    if payer_changes(old, origin) {
        can_reserve(unreserved_map(m, old.account->0, old.amount), origin, dep)
    } else if dep > old.amount {
        can_reserve(m, origin, (dep - old.amount) as u64)
    } else {
        true
    }
}

/// The balances after the deposit `old` of an attribute is replaced by `dep`
/// paid by `origin`: a former payer gets the old deposit back and `origin`
/// pays the whole new one; otherwise `origin` pays or gets back the difference.
pub open spec fn settled(
    m: Map<AccountId, AccountBalance>,
    origin: AccountId,
    old: AttributeDeposit,
    dep: Balance,
) -> Map<AccountId, AccountBalance> {
    if payer_changes(old, origin) {
        reserved_map(unreserved_map(m, old.account->0, old.amount), origin, dep)
    } else if dep > old.amount {
        reserved_map(m, origin, (dep - old.amount) as u64)
    } else if dep < old.amount {
        unreserved_map(m, origin, (old.amount - dep) as u64)
    } else {
        m
    }
}

/// A count one higher, held at its largest value.
pub open spec fn inc_count(n: u32) -> u32 {
    if n < u32::MAX {
        (n + 1) as u32
    } else {
        n
    }
}

/// A count one lower, held at zero.
pub open spec fn dec_count(n: u32) -> u32 {
    if n > 0 {
        (n - 1) as u32
    } else {
        0
    }
}

impl Pallet {
    /// Whether `origin` may write or clear attributes in `namespace`.
    pub open spec fn namespace_permits(
        &self,
        origin: AccountId,
        namespace: AttributeNamespace,
        c: CollectionId,
        collection_owner: AccountId,
        maybe_item: Option<ItemId>,
    ) -> Result<bool, Error> {
        match namespace {
            AttributeNamespace::CollectionOwner => Ok(origin == collection_owner),
            AttributeNamespace::ItemOwner => match maybe_item {
                Some(i) => match self.item_owner_of(c, i) {
                    Some(o) => Ok(origin == o),
                    None => Err(Error::UnknownItem),
                },
                None => Ok(false),
            },
            AttributeNamespace::Account(d) => match maybe_item {
                Some(i) => Ok(d == origin && self.approvals_of(c, i).contains(origin)),
                None => Ok(false),
            },
            AttributeNamespace::Pallet => Ok(false),
        }
    }

    /// The lock settings that forbid changing the collection owner's
    /// attributes; an item with no settings is treated as unlocked.
    pub open spec fn lock_check(
        &self,
        namespace: AttributeNamespace,
        c: CollectionId,
        details: CollectionDetails,
        maybe_item: Option<ItemId>,
    ) -> Result<(), Error> {
        if namespace == AttributeNamespace::CollectionOwner {
            match maybe_item {
                None => if details.unlocked_attributes {
                    Ok(())
                } else {
                    Err(Error::LockedCollectionAttributes)
                },
                Some(i) => match self.item_config_of(c, i) {
                    Some(cfg) => if cfg.unlocked_attributes {
                        Ok(())
                    } else {
                        Err(Error::LockedItemAttributes)
                    },
                    None => Ok(()),
                },
            }
        } else {
            Ok(())
        }
    }

    /// Whether the permission check and then the lock check pass.
    pub open spec fn may_write(
        &self,
        origin: AccountId,
        namespace: AttributeNamespace,
        c: CollectionId,
        details: CollectionDetails,
        maybe_item: Option<ItemId>,
    ) -> Result<(), Error> {
        match self.namespace_permits(origin, namespace, c, details.owner, maybe_item) {
            Err(e) => Err(e),
            Ok(false) => Err(Error::NoPermission),
            Ok(true) => self.lock_check(namespace, c, details, maybe_item),
        }
    }

    /// The deposit of an attribute with a key and value of the given lengths.
    pub open spec fn deposit_for(
        &self,
        details: CollectionDetails,
        namespace: AttributeNamespace,
        len: nat,
    ) -> Balance {
        if details.deposit_required || namespace != AttributeNamespace::CollectionOwner {
            clamp(self.config.deposit_per_byte * len + self.config.attribute_deposit_base)
        } else {
            0
        }
    }

    /// How `set_attribute` ends.
    pub open spec fn set_outcome(
        &self,
        origin: AccountId,
        c: CollectionId,
        maybe_item: Option<ItemId>,
        namespace: AttributeNamespace,
        key: Seq<u8>,
        value: Seq<u8>,
    ) -> Result<(), Error> {
        if !self.config.attributes_enabled {
            Err(Error::MethodDisabled)
        } else if self.collection_of(c) is None {
            Err(Error::UnknownCollection)
        } else {
            let details = self.collection_of(c)->0;
            match self.may_write(origin, namespace, c, details, maybe_item) {
                Err(e) => Err(e),
                Ok(()) => {
                    let old = old_deposit(self.attribute_of((c, maybe_item, namespace, key)));
                    let dep = self.deposit_for(details, namespace, key.len() + value.len());
                    if can_settle(self.ledger@, origin, old, dep) {
                        Ok(())
                    } else {
                        Err(Error::InsufficientFunds)
                    }
                },
            }
        }
    }

    /// The collection after a set of an attribute: one more record if the
    /// key was new, and the owner's deposit adjusted in its own namespace.
    pub open spec fn details_after_set(
        details: CollectionDetails,
        was_present: bool,
        namespace: AttributeNamespace,
        old: AttributeDeposit,
        dep: Balance,
    ) -> CollectionDetails {
        CollectionDetails {
            attributes: if was_present {
                details.attributes
            } else {
                inc_count(details.attributes)
            },
            owner_deposit: if namespace == AttributeNamespace::CollectionOwner {
                clamp(clamp(details.owner_deposit + dep) - old.amount)
            } else {
                details.owner_deposit
            },
            ..details
        }
    }

    /// Everything but the attributes, the collections and the ledger is as
    /// in `other`.
    pub open spec fn same_registry(&self, other: &Pallet) -> bool {
        &&& self.config == other.config
        &&& self.items@ == other.items@
        &&& self.item_configs@ == other.item_configs@
        &&& self.approvals@ == other.approvals@
        &&& self.item_metadata@ == other.item_metadata@
        &&& self.collection_metadata@ == other.collection_metadata@
    }

    /// The position of the attribute with the given key, if there is one.
    pub fn find_attribute(
        &self,
        c: CollectionId,
        maybe_item: Option<ItemId>,
        namespace: AttributeNamespace,
        key: &Vec<u8>,
    ) -> (r: Option<usize>)
        requires
            keys_unique(self.attributes@),
        ensures
            match r {
                Some(i) => i < self.attributes@.len() && self.attributes@[i as int].key_view() == (
                    c,
                    maybe_item,
                    namespace,
                    key@,
                ) && self.attribute_of((c, maybe_item, namespace, key@)) == Some(
                    self.attributes@[i as int].record_view(),
                ),
                None => self.attribute_of((c, maybe_item, namespace, key@)) is None,
            },
    {
        let ghost k = (c, maybe_item, namespace, key@);
        let mut i: usize = 0;
        while i < self.attributes.len()
            invariant
                keys_unique(self.attributes@),
                k == (c, maybe_item, namespace, key@),
                0 <= i <= self.attributes@.len(),
                forall|j: int| 0 <= j < i ==> #[trigger] self.attributes@[j].key_view() != k,
            decreases self.attributes.len() - i,
        {
            let e = &self.attributes[i];
            if e.collection == c && option_item_eq(e.maybe_item, maybe_item) && e.namespace
                == namespace && bytes_eq(&e.key, key) {
                proof {
                    lemma_lookup_at(self.attributes@, i as int);
                }
                return Some(i);
            }
            i += 1;
        }
        None
    }

    /// Decides whether `origin` may write or clear attributes in `namespace`.
    pub fn is_valid_namespace(
        &self,
        origin: AccountId,
        namespace: AttributeNamespace,
        c: CollectionId,
        collection_owner: AccountId,
        maybe_item: Option<ItemId>,
    ) -> (r: Result<bool, Error>)
        ensures
            r == self.namespace_permits(origin, namespace, c, collection_owner, maybe_item),
    {
        match namespace {
            AttributeNamespace::CollectionOwner => Ok(origin == collection_owner),
            AttributeNamespace::ItemOwner => match maybe_item {
                Some(i) => match self.get_item_owner(c, i) {
                    Some(o) => Ok(origin == o),
                    None => Err(Error::UnknownItem),
                },
                None => Ok(false),
            },
            AttributeNamespace::Account(d) => match maybe_item {
                Some(i) => Ok(d == origin && self.is_approved(c, i, origin)),
                None => Ok(false),
            },
            AttributeNamespace::Pallet => Ok(false),
        }
    }

    /// Checks the lock settings that guard the collection owner's attributes.
    pub fn check_lock(
        &self,
        namespace: AttributeNamespace,
        c: CollectionId,
        details: CollectionDetails,
        maybe_item: Option<ItemId>,
    ) -> (r: Result<(), Error>)
        ensures
            r == self.lock_check(namespace, c, details, maybe_item),
    {
        if namespace == AttributeNamespace::CollectionOwner {
            match maybe_item {
                None => if details.unlocked_attributes {
                    Ok(())
                } else {
                    Err(Error::LockedCollectionAttributes)
                },
                Some(i) => match self.get_item_config(c, i) {
                    Some(cfg) => if cfg.unlocked_attributes {
                        Ok(())
                    } else {
                        Err(Error::LockedItemAttributes)
                    },
                    None => Ok(()),
                },
            }
        } else {
            Ok(())
        }
    }

    fn check_write(
        &self,
        origin: AccountId,
        namespace: AttributeNamespace,
        c: CollectionId,
        details: CollectionDetails,
        maybe_item: Option<ItemId>,
    ) -> (r: Result<(), Error>)
        ensures
            r == self.may_write(origin, namespace, c, details, maybe_item),
    {
        match self.is_valid_namespace(origin, namespace, c, details.owner, maybe_item) {
            Err(e) => Err(e),
            Ok(false) => Err(Error::NoPermission),
            Ok(true) => self.check_lock(namespace, c, details, maybe_item),
        }
    }

    /// The deposit of an attribute whose key and value are `len` bytes long.
    pub fn attribute_deposit(
        &self,
        details: CollectionDetails,
        namespace: AttributeNamespace,
        len: u64,
    ) -> (r: Balance)
        ensures
            r == self.deposit_for(details, namespace, len as nat),
    {
        if details.deposit_required || namespace != AttributeNamespace::CollectionOwner {
            saturating_mul(self.config.deposit_per_byte, len).saturating_add(
                self.config.attribute_deposit_base,
            )
        } else {
            0
        }
    }

    /// Stores `e` at the position `found` that `find_attribute` gave for its key.
    fn put_attribute(&mut self, found: Option<usize>, e: AttributeEntry)
        requires
            keys_unique(old(self).attributes@),
            match found {
                Some(i) => i < old(self).attributes@.len() && old(self).attributes@[i as int].key_view()
                    == e.key_view(),
                None => old(self).attribute_of(e.key_view()) is None,
            },
        ensures
            keys_unique(final(self).attributes@),
            forall|k: AttrKey|
                #[trigger] final(self).attribute_of(k) == if k == e.key_view() {
                    Some(e.record_view())
                } else {
                    old(self).attribute_of(k)
                },
            final(self).config == old(self).config,
            final(self).collections == old(self).collections,
            final(self).items == old(self).items,
            final(self).item_configs == old(self).item_configs,
            final(self).approvals == old(self).approvals,
            final(self).item_metadata == old(self).item_metadata,
            final(self).collection_metadata == old(self).collection_metadata,
            final(self).ledger == old(self).ledger,
            final(self).events == old(self).events,
    {
        match found {
            Some(i) => {
                proof {
                    lemma_lookup_update(self.attributes@, i as int, e);
                }
                self.attributes[i] = e;
            },
            None => {
                proof {
                    lemma_lookup_push(self.attributes@, e);
                }
                self.attributes.push(e);
            },
        }
    }

    /// Sets `key` to `value` in `namespace` of an item (or of the collection
    /// when `maybe_item` is none) on behalf of `origin`, charging the deposit
    /// to `origin`.
    ///
    /// Fails, changing nothing, when attributes are disabled, the collection
    /// is unknown, `origin` may not write in `namespace`, the collection
    /// owner's attributes are locked, or `origin` cannot cover the deposit.
    pub fn set_attribute(
        &mut self,
        origin: AccountId,
        c: CollectionId,
        maybe_item: Option<ItemId>,
        namespace: AttributeNamespace,
        key: Vec<u8>,
        value: Vec<u8>,
    ) -> (r: Result<(), Error>)
        requires
            old(self).wf(),
            key@.len() <= old(self).config.key_limit,
            value@.len() <= old(self).config.value_limit,
        ensures
            final(self).wf(),
            r == old(self).set_outcome(origin, c, maybe_item, namespace, key@, value@),
            r is Err ==> *final(self) == *old(self),
            r is Ok ==> final(self).collection_of(c)->0.attributes == if old(self).attribute_of(
                (c, maybe_item, namespace, key@),
            ) is Some {
                old(self).collection_of(c)->0.attributes
            } else {
                inc_count(old(self).collection_of(c)->0.attributes)
            },
            r is Ok ==> {
                let k = (c, maybe_item, namespace, key@);
                let before = old(self).attribute_of(k);
                let details = old(self).collection_of(c)->0;
                let old_dep = old_deposit(before);
                let dep = old(self).deposit_for(details, namespace, key@.len() + value@.len());
                let payer = if namespace == AttributeNamespace::CollectionOwner {
                    None
                } else {
                    Some(origin)
                };
                &&& final(self).attribute_of(k) == Some(
                    (value@, AttributeDeposit { account: payer, amount: dep }),
                )
                &&& forall|k2: AttrKey|
                    k2 != k ==> #[trigger] final(self).attribute_of(k2) == old(self).attribute_of(k2)
                &&& final(self).collections@ == old(self).collections@.insert(
                    c,
                    Pallet::details_after_set(details, before is Some, namespace, old_dep, dep),
                )
                &&& final(self).ledger@ == settled(old(self).ledger@, origin, old_dep, dep)
                &&& final(self).same_registry(old(self))
                &&& final(self).events@ == old(self).events@.push(final(self).events@.last())
                &&& final(self).events@.last().is_set(c, maybe_item, namespace, key@, value@)
            },
    {
        if !self.config.attributes_enabled {
            return Err(Error::MethodDisabled);
        }
        let mut details = match self.get_collection(c) {
            Some(d) => d,
            None => return Err(Error::UnknownCollection),
        };
        match self.check_write(origin, namespace, c, details, maybe_item) {
            Err(e) => return Err(e),
            Ok(()) => {},
        }
        let found = self.find_attribute(c, maybe_item, namespace, &key);
        let old_dep = match found {
            Some(i) => self.attributes[i].deposit,
            None => AttributeDeposit { account: None, amount: 0 },
        };
        let dep = self.attribute_deposit(details, namespace, key.len() as u64 + value.len() as u64);
        let ghost ledger0 = self.ledger@;
        if old_dep.account.is_some() && !option_account_eq(old_dep.account, Some(origin)) {
            if self.ledger.balance(origin).free < dep {
                return Err(Error::InsufficientFunds);
            }
            let payer = old_dep.account.unwrap();
            self.ledger.unreserve(payer, old_dep.amount);
            let reserved = self.ledger.reserve(origin, dep);
            assert(reserved is Ok);
        } else if dep > old_dep.amount {
            if self.ledger.balance(origin).free < dep - old_dep.amount {
                return Err(Error::InsufficientFunds);
            }
            let reserved = self.ledger.reserve(origin, dep - old_dep.amount);
            assert(reserved is Ok);
        } else if dep < old_dep.amount {
            self.ledger.unreserve(origin, old_dep.amount - dep);
        }
        assert(self.ledger@ == settled(ledger0, origin, old_dep, dep));
        if found.is_none() {
            details.attributes = details.attributes.saturating_add(1);
        }
        let payer = match namespace {
            AttributeNamespace::CollectionOwner => {
                details.owner_deposit = details.owner_deposit.saturating_add(dep).saturating_sub(
                    old_dep.amount,
                );
                None
            },
            _ => Some(origin),
        };
        let event = Event::AttributeSet {
            collection: c,
            maybe_item,
            key: copy_bytes(&key),
            value: copy_bytes(&value),
            namespace,
        };
        let entry = AttributeEntry {
            collection: c,
            maybe_item,
            namespace,
            key,
            value,
            deposit: AttributeDeposit { account: payer, amount: dep },
        };
        self.collections.insert(c, details);
        self.events.push(event);
        self.put_attribute(found, entry);
        Ok(())
    }

    /// Removes the attribute at position `i`.
    fn take_attribute(&mut self, i: usize) -> (e: AttributeEntry)
        requires
            keys_unique(old(self).attributes@),
            i < old(self).attributes@.len(),
        ensures
            e == old(self).attributes@[i as int],
            old(self).attribute_of(e.key_view()) == Some(e.record_view()),
            keys_unique(final(self).attributes@),
            forall|k: AttrKey|
                #[trigger] final(self).attribute_of(k) == if k == e.key_view() {
                    None
                } else {
                    old(self).attribute_of(k)
                },
            final(self).config == old(self).config,
            final(self).collections == old(self).collections,
            final(self).items == old(self).items,
            final(self).item_configs == old(self).item_configs,
            final(self).approvals == old(self).approvals,
            final(self).item_metadata == old(self).item_metadata,
            final(self).collection_metadata == old(self).collection_metadata,
            final(self).ledger == old(self).ledger,
            final(self).events == old(self).events,
    {
        proof {
            lemma_lookup_at(self.attributes@, i as int);
            lemma_lookup_remove(self.attributes@, i as int);
        }
        self.attributes.remove(i)
    }

    /// Sets `key` to `value` in `namespace` with no permission or lock check
    /// and no deposit; the attribute is recorded as paid by `set_as`. A
    /// deposit that another payer held on the old record is returned to it.
    ///
    /// Fails, changing nothing, only when the collection is unknown.
    pub fn force_set_attribute(
        &mut self,
        set_as: Option<AccountId>,
        c: CollectionId,
        maybe_item: Option<ItemId>,
        namespace: AttributeNamespace,
        key: Vec<u8>,
        value: Vec<u8>,
    ) -> (r: Result<(), Error>)
        requires
            old(self).wf(),
        ensures
            final(self).wf(),
            r is Err <==> old(self).collection_of(c) is None,
            r is Err ==> r == Err::<(), Error>(Error::UnknownCollection) && *final(self) == *old(self),
            r is Ok ==> {
                let k = (c, maybe_item, namespace, key@);
                let before = old(self).attribute_of(k);
                let details = old(self).collection_of(c)->0;
                let old_dep = old_deposit(before);
                &&& final(self).attribute_of(k) == Some(
                    (value@, AttributeDeposit { account: set_as, amount: 0 }),
                )
                &&& forall|k2: AttrKey|
                    k2 != k ==> #[trigger] final(self).attribute_of(k2) == old(self).attribute_of(k2)
                &&& final(self).collections@ == old(self).collections@.insert(
                    c,
                    CollectionDetails {
                        attributes: if before is Some {
                            details.attributes
                        } else {
                            inc_count(details.attributes)
                        },
                        ..details
                    },
                )
                &&& final(self).ledger@ == if before is Some && old_dep.account != set_as
                    && old_dep.amount != 0 && old_dep.account is Some {
                    unreserved_map(old(self).ledger@, old_dep.account->0, old_dep.amount)
                } else {
                    old(self).ledger@
                }
                &&& final(self).same_registry(old(self))
                &&& final(self).events@ == old(self).events@.push(final(self).events@.last())
                &&& final(self).events@.last().is_set(c, maybe_item, namespace, key@, value@)
            },
    {
        let mut details = match self.get_collection(c) {
            Some(d) => d,
            None => return Err(Error::UnknownCollection),
        };
        let found = self.find_attribute(c, maybe_item, namespace, &key);
        match found {
            Some(i) => {
                let dep = self.attributes[i].deposit;
                if !option_account_eq(dep.account, set_as) && dep.amount != 0 {
                    match dep.account {
                        Some(payer) => {
                            self.ledger.unreserve(payer, dep.amount);
                        },
                        None => {},
                    }
                }
            },
            None => {
                details.attributes = details.attributes.saturating_add(1);
            },
        }
        let event = Event::AttributeSet {
            collection: c,
            maybe_item,
            key: copy_bytes(&key),
            value: copy_bytes(&value),
            namespace,
        };
        let entry = AttributeEntry {
            collection: c,
            maybe_item,
            namespace,
            key,
            value,
            deposit: AttributeDeposit { account: set_as, amount: 0 },
        };
        self.collections.insert(c, details);
        self.events.push(event);
        self.put_attribute(found, entry);
        Ok(())
    }

    /// How `clear_attribute` ends.
    pub open spec fn clear_outcome(
        &self,
        maybe_check_owner: Option<AccountId>,
        c: CollectionId,
        maybe_item: Option<ItemId>,
        namespace: AttributeNamespace,
        key: Seq<u8>,
    ) -> Result<(), Error> {
        let rec = self.attribute_of((c, maybe_item, namespace, key));
        if rec is None {
            Err(Error::AttributeNotFound)
        } else if self.collection_of(c) is None {
            Err(Error::UnknownCollection)
        } else {
            match maybe_check_owner {
                Some(o) => if old_deposit(rec).account != Some(o) {
                    self.may_write(o, namespace, c, self.collection_of(c)->0, maybe_item)
                } else {
                    Ok(())
                },
                None => Ok(()),
            }
        }
    }

    /// The balances after a cleared record's deposit `dep` is released: from
    /// the collection owner in its own namespace, and from the payer named on
    /// the record.
    pub open spec fn released(
        m: Map<AccountId, AccountBalance>,
        namespace: AttributeNamespace,
        owner: AccountId,
        dep: AttributeDeposit,
    ) -> Map<AccountId, AccountBalance> {
        let m1 = if namespace == AttributeNamespace::CollectionOwner {
            unreserved_map(m, owner, dep.amount)
        } else {
            m
        };
        match dep.account {
            Some(p) => unreserved_map(m1, p, dep.amount),
            None => m1,
        }
    }

    /// Removes the attribute `key` in `namespace`, on behalf of
    /// `maybe_check_owner` (none for the root), and releases its deposit.
    ///
    /// Fails with `AttributeNotFound`, changing nothing, when there is no such
    /// attribute. When the collection is unknown the attribute is removed
    /// all the same and `UnknownCollection` is returned. A caller other than
    /// the record's payer must pass the permission and lock checks; if it
    /// fails them, nothing changes.
    pub fn clear_attribute(
        &mut self,
        maybe_check_owner: Option<AccountId>,
        c: CollectionId,
        maybe_item: Option<ItemId>,
        namespace: AttributeNamespace,
        key: Vec<u8>,
    ) -> (r: Result<(), Error>)
        requires
            old(self).wf(),
        ensures
            final(self).wf(),
            r == old(self).clear_outcome(maybe_check_owner, c, maybe_item, namespace, key@),
            old(self).attribute_of((c, maybe_item, namespace, key@)) is None ==> r == Err::<(), Error>(
                Error::AttributeNotFound,
            ) && *final(self) == *old(self),
            r is Err && r != Err::<(), Error>(Error::UnknownCollection) ==> *final(self) == *old(self),
            r == Err::<(), Error>(Error::UnknownCollection) ==> {
                &&& forall|k2: AttrKey|
                    #[trigger] final(self).attribute_of(k2) == if k2 == (c, maybe_item, namespace, key@) {
                        None
                    } else {
                        old(self).attribute_of(k2)
                    }
                &&& final(self).collections@ == old(self).collections@
                &&& final(self).ledger@ == old(self).ledger@
                &&& final(self).same_registry(old(self))
            },
            r is Ok ==> {
                let k = (c, maybe_item, namespace, key@);
                let dep = old_deposit(old(self).attribute_of(k));
                let details = old(self).collection_of(c)->0;
                &&& forall|k2: AttrKey|
                    #[trigger] final(self).attribute_of(k2) == if k2 == k {
                        None
                    } else {
                        old(self).attribute_of(k2)
                    }
                &&& final(self).collections@ == old(self).collections@.insert(
                    c,
                    CollectionDetails {
                        attributes: dec_count(details.attributes),
                        owner_deposit: if namespace == AttributeNamespace::CollectionOwner {
                            clamp(details.owner_deposit - dep.amount)
                        } else {
                            details.owner_deposit
                        },
                        ..details
                    },
                )
                &&& final(self).ledger@ == Pallet::released(
                    old(self).ledger@,
                    namespace,
                    details.owner,
                    dep,
                )
                &&& final(self).same_registry(old(self))
                &&& final(self).events@ == old(self).events@.push(final(self).events@.last())
                &&& final(self).events@.last().is_cleared(c, maybe_item, namespace, key@)
            },
    {
        let i = match self.find_attribute(c, maybe_item, namespace, &key) {
            Some(i) => i,
            None => return Err(Error::AttributeNotFound),
        };
        let mut details = match self.get_collection(c) {
            Some(d) => d,
            None => {
                self.take_attribute(i);
                return Err(Error::UnknownCollection);
            },
        };
        let dep = self.attributes[i].deposit;
        match maybe_check_owner {
            Some(o) => {
                if !option_account_eq(dep.account, Some(o)) {
                    match self.check_write(o, namespace, c, details, maybe_item) {
                        Err(e) => return Err(e),
                        Ok(()) => {},
                    }
                }
            },
            None => {},
        }
        details.attributes = details.attributes.saturating_sub(1);
        match namespace {
            AttributeNamespace::CollectionOwner => {
                details.owner_deposit = details.owner_deposit.saturating_sub(dep.amount);
                self.ledger.unreserve(details.owner, dep.amount);
            },
            _ => {},
        }
        match dep.account {
            Some(payer) => {
                self.ledger.unreserve(payer, dep.amount);
            },
            None => {},
        }
        self.collections.insert(c, details);
        self.events.push(Event::AttributeCleared { collection: c, maybe_item, key, namespace });
        self.take_attribute(i);
        Ok(())
    }
}

} // verus!
