use vstd::prelude::*;
use std::collections::HashMap;
use crate::types::{AccountId, AttributeDeposit, AttributeNamespace, Balance, CollectionId, ItemId};
use crate::ledger::Ledger;

verus! {

broadcast use vstd::std_specs::hash::group_hash_axioms;

/// The registry-wide settings of the attribute store.
#[derive(Clone, Copy, Debug, PartialEq, Eq, Structural)]
pub struct PalletConfig {
    /// Whether attributes may be written or delegated at all.
    pub attributes_enabled: bool,
    /// The longest attribute key, in bytes.
    pub key_limit: u32,
    /// The longest attribute value, in bytes.
    pub value_limit: u32,
    /// The most delegates an item may have.
    pub approvals_limit: u32,
    /// Deposit charged per byte of key and value.
    pub deposit_per_byte: Balance,
    /// Deposit charged once per attribute.
    pub attribute_deposit_base: Balance,
}

/// What the attribute store reads and writes of a collection.
#[derive(Clone, Copy, Debug, PartialEq, Eq, Structural)]
pub struct CollectionDetails {
    pub owner: AccountId,
    /// The number of live attribute records of the collection.
    pub attributes: u32,
    /// The deposit held for the collection owner's attributes.
    pub owner_deposit: Balance,
    /// Whether the collection owner's collection-level attributes may change.
    pub unlocked_attributes: bool,
    /// Whether the collection owner pays deposits too.
    pub deposit_required: bool,
}

/// The per-item settings.
#[derive(Clone, Copy, Debug, PartialEq, Eq, Structural)]
pub struct ItemConfig {
    /// Whether the collection owner's attributes of this item may change.
    pub unlocked_attributes: bool,
}

/// The full key of an attribute, as a value: collection, item (none for a
/// collection-level attribute), namespace and key bytes.
pub type AttrKey = (CollectionId, Option<ItemId>, AttributeNamespace, Seq<u8>);

/// One stored attribute.
pub struct AttributeEntry {
    pub collection: CollectionId,
    pub maybe_item: Option<ItemId>,
    pub namespace: AttributeNamespace,
    pub key: Vec<u8>,
    pub value: Vec<u8>,
    pub deposit: AttributeDeposit,
}

impl AttributeEntry {
    pub open spec fn key_view(&self) -> AttrKey {
        (self.collection, self.maybe_item, self.namespace, self.key@)
    }

    pub open spec fn record_view(&self) -> (Seq<u8>, AttributeDeposit) {
        (self.value@, self.deposit)
    }
}

/// The slot of item `i` of collection `c` in the per-item tables.
pub open spec fn slot(c: CollectionId, i: ItemId) -> u64 {
    (c as int * 0x1_0000_0000 + i as int) as u64
}

/// Distinct items have distinct slots.
pub proof fn lemma_slot_injective(c1: CollectionId, i1: ItemId, c2: CollectionId, i2: ItemId)
    ensures
        slot(c1, i1) == slot(c2, i2) ==> c1 == c2 && i1 == i2,
{
    assert(0 <= c1 as int * 0x1_0000_0000 + i1 as int <= u64::MAX) by (nonlinear_arith);
    assert(0 <= c2 as int * 0x1_0000_0000 + i2 as int <= u64::MAX) by (nonlinear_arith);
    if c1 as int * 0x1_0000_0000 + i1 as int == c2 as int * 0x1_0000_0000 + i2 as int {
        assert(c1 == c2 && i1 == i2) by (nonlinear_arith)
            requires
                c1 as int * 0x1_0000_0000 + i1 as int == c2 as int * 0x1_0000_0000 + i2 as int,
                0 <= i1 < 0x1_0000_0000,
                0 <= i2 < 0x1_0000_0000,
        ;
    }
}

/// The slot of item `i` of collection `c`, computed.
pub fn item_slot(c: CollectionId, i: ItemId) -> (r: u64)
    ensures
        r == slot(c, i),
{
    assert(0 <= c as int * 0x1_0000_0000 + i as int <= u64::MAX) by (nonlinear_arith);
    (c as u64) * 0x1_0000_0000 + (i as u64)
}

/// No two entries share a key.
pub open spec fn keys_unique(s: Seq<AttributeEntry>) -> bool {
    forall|i: int, j: int|
        0 <= i < s.len() && 0 <= j < s.len() && #[trigger] s[i].key_view() == #[trigger] s[j].key_view()
            ==> i == j
}

/// Whether some entry has key `k`.
pub open spec fn has_key(s: Seq<AttributeEntry>, k: AttrKey) -> bool {
    exists|i: int| 0 <= i < s.len() && #[trigger] s[i].key_view() == k
}

/// The value and deposit stored under `k`, if any.
pub open spec fn lookup(s: Seq<AttributeEntry>, k: AttrKey) -> Option<(Seq<u8>, AttributeDeposit)> {
    if has_key(s, k) {
        let i = choose|i: int| 0 <= i < s.len() && #[trigger] s[i].key_view() == k;
        Some(s[i].record_view())
    } else {
        None
    }
}

/// The entry at `i` is what its key maps to.
pub proof fn lemma_lookup_at(s: Seq<AttributeEntry>, i: int)
    requires
        keys_unique(s),
        0 <= i < s.len(),
    ensures
        lookup(s, s[i].key_view()) == Some(s[i].record_view()),
{
    assert(has_key(s, s[i].key_view()));
}

/// Replacing the entry at `i` by one with the same key changes what that key
/// maps to, and nothing else.
pub proof fn lemma_lookup_update(s: Seq<AttributeEntry>, i: int, e: AttributeEntry)
    requires
        keys_unique(s),
        0 <= i < s.len(),
        s[i].key_view() == e.key_view(),
    ensures
        keys_unique(s.update(i, e)),
        forall|k: AttrKey|
            #[trigger] lookup(s.update(i, e), k) == if k == e.key_view() {
                Some(e.record_view())
            } else {
                lookup(s, k)
            },
{
    let t = s.update(i, e);
    assert(keys_unique(t)) by {
        assert forall|a: int, b: int|
            0 <= a < t.len() && 0 <= b < t.len() && #[trigger] t[a].key_view()
                == #[trigger] t[b].key_view() implies a == b by {
            assert(t[a].key_view() == s[a].key_view());
            assert(t[b].key_view() == s[b].key_view());
        }
    }
    assert forall|k: AttrKey|
        #[trigger] lookup(t, k) == if k == e.key_view() {
            Some(e.record_view())
        } else {
            lookup(s, k)
        } by {
        if k == e.key_view() {
            lemma_lookup_at(t, i);
        } else if has_key(s, k) {
            let j = choose|j: int| 0 <= j < s.len() && #[trigger] s[j].key_view() == k;
            assert(t[j] == s[j]);
            lemma_lookup_at(t, j);
            lemma_lookup_at(s, j);
        } else {
            if has_key(t, k) {
                let j = choose|j: int| 0 <= j < t.len() && #[trigger] t[j].key_view() == k;
                assert(t[j] == s[j]);
            }
        }
    }
}

/// Appending an entry with a new key maps that key, and nothing else changes.
pub proof fn lemma_lookup_push(s: Seq<AttributeEntry>, e: AttributeEntry)
    requires
        keys_unique(s),
        !has_key(s, e.key_view()),
    ensures
        keys_unique(s.push(e)),
        forall|k: AttrKey|
            #[trigger] lookup(s.push(e), k) == if k == e.key_view() {
                Some(e.record_view())
            } else {
                lookup(s, k)
            },
{
    let t = s.push(e);
    assert(keys_unique(t)) by {
        assert forall|a: int, b: int|
            0 <= a < t.len() && 0 <= b < t.len() && #[trigger] t[a].key_view()
                == #[trigger] t[b].key_view() implies a == b by {
            if a < s.len() {
                assert(t[a] == s[a]);
            }
            if b < s.len() {
                assert(t[b] == s[b]);
            }
        }
    }
    assert forall|k: AttrKey|
        #[trigger] lookup(t, k) == if k == e.key_view() {
            Some(e.record_view())
        } else {
            lookup(s, k)
        } by {
        if k == e.key_view() {
            lemma_lookup_at(t, s.len() as int);
        } else if has_key(s, k) {
            let j = choose|j: int| 0 <= j < s.len() && #[trigger] s[j].key_view() == k;
            assert(t[j] == s[j]);
            lemma_lookup_at(t, j);
            lemma_lookup_at(s, j);
        } else {
            if has_key(t, k) {
                let j = choose|j: int| 0 <= j < t.len() && #[trigger] t[j].key_view() == k;
                assert(t[j] == s[j]);
            }
        }
    }
}

/// Removing the entry at `i` unmaps its key, and nothing else changes.
pub proof fn lemma_lookup_remove(s: Seq<AttributeEntry>, i: int)
    requires
        keys_unique(s),
        0 <= i < s.len(),
    ensures
        keys_unique(s.remove(i)),
        forall|k: AttrKey|
            #[trigger] lookup(s.remove(i), k) == if k == s[i].key_view() {
                None
            } else {
                lookup(s, k)
            },
{
    let t = s.remove(i);
    assert forall|a: int| 0 <= a < t.len() implies #[trigger] t[a] == if a < i {
        s[a]
    } else {
        s[a + 1]
    } by {}
    assert(keys_unique(t)) by {
        assert forall|a: int, b: int|
            0 <= a < t.len() && 0 <= b < t.len() && #[trigger] t[a].key_view()
                == #[trigger] t[b].key_view() implies a == b by {
            let a2 = if a < i { a } else { a + 1 };
            let b2 = if b < i { b } else { b + 1 };
            assert(s[a2].key_view() == s[b2].key_view());
        }
    }
    assert forall|k: AttrKey|
        #[trigger] lookup(t, k) == if k == s[i].key_view() {
            None
        } else {
            lookup(s, k)
        } by {
        if has_key(t, k) {
            let j = choose|j: int| 0 <= j < t.len() && #[trigger] t[j].key_view() == k;
            let j2 = if j < i { j } else { j + 1 };
            assert(s[j2].key_view() == k);
            if k == s[i].key_view() {
                assert(false);
            }
            lemma_lookup_at(t, j);
            lemma_lookup_at(s, j2);
        } else if has_key(s, k) {
            let j = choose|j: int| 0 <= j < s.len() && #[trigger] s[j].key_view() == k;
            if j < i {
                assert(t[j] == s[j]);
            } else if j > i {
                assert(t[j - 1] == s[j]);
            }
        }
    }
}

/// A notification of a change to the attribute store.
#[derive(Clone, Debug)]
pub enum Event {
    AttributeSet {
        collection: CollectionId,
        maybe_item: Option<ItemId>,
        key: Vec<u8>,
        value: Vec<u8>,
        namespace: AttributeNamespace,
    },
    AttributeCleared {
        collection: CollectionId,
        maybe_item: Option<ItemId>,
        key: Vec<u8>,
        namespace: AttributeNamespace,
    },
    ItemAttributesApprovalAdded { collection: CollectionId, item: ItemId, delegate: AccountId },
    ItemAttributesApprovalRemoved { collection: CollectionId, item: ItemId, delegate: AccountId },
}

impl Event {
    /// Whether this is the notice that `key` was set to `value`.
    pub open spec fn is_set(
        &self,
        c: CollectionId,
        maybe_item: Option<ItemId>,
        namespace: AttributeNamespace,
        key: Seq<u8>,
        value: Seq<u8>,
    ) -> bool {
        match self {
            Event::AttributeSet { collection, maybe_item: mi, key: k, value: v, namespace: ns } => {
                *collection == c && *mi == maybe_item && *ns == namespace && k@ == key && v@ == value
            },
            _ => false,
        }
    }

    /// Whether this is the notice that `key` was cleared.
    pub open spec fn is_cleared(
        &self,
        c: CollectionId,
        maybe_item: Option<ItemId>,
        namespace: AttributeNamespace,
        key: Seq<u8>,
    ) -> bool {
        match self {
            Event::AttributeCleared { collection, maybe_item: mi, key: k, namespace: ns } => {
                *collection == c && *mi == maybe_item && *ns == namespace && k@ == key
            },
            _ => false,
        }
    }
}

/// The attribute store, with the registry tables that it reads and the
/// ledger that holds the deposits.
pub struct Pallet {
    pub config: PalletConfig,
    pub collections: HashMap<CollectionId, CollectionDetails>,
    /// Item owners, by slot.
    pub items: HashMap<u64, AccountId>,
    pub item_configs: HashMap<u64, ItemConfig>,
    /// The delegates approved on each item, by slot.
    pub approvals: HashMap<u64, Vec<AccountId>>,
    pub item_metadata: HashMap<u64, Vec<u8>>,
    pub collection_metadata: HashMap<CollectionId, Vec<u8>>,
    pub attributes: Vec<AttributeEntry>,
    pub ledger: Ledger,
    /// Every notification emitted, oldest first.
    pub events: Vec<Event>,
}

impl Pallet {
    /// Attribute keys are unique, every item's delegates are distinct and
    /// within the limit, and every account's funds fit in a balance.
    pub open spec fn wf(&self) -> bool {
        &&& self.ledger.wf()
        &&& keys_unique(self.attributes@)
        &&& forall|s: u64| #[trigger]
            self.approvals@.contains_key(s) ==> self.approvals@[s]@.no_duplicates()
                && self.approvals@[s]@.len() <= self.config.approvals_limit
    }

    /// The record of collection `c`, if it exists.
    pub open spec fn collection_of(&self, c: CollectionId) -> Option<CollectionDetails> {
        if self.collections@.contains_key(c) {
            Some(self.collections@[c])
        } else {
            None
        }
    }

    /// The owner of item `i` of collection `c`, if the item exists.
    pub open spec fn item_owner_of(&self, c: CollectionId, i: ItemId) -> Option<AccountId> {
        if self.items@.contains_key(slot(c, i)) {
            Some(self.items@[slot(c, i)])
        } else {
            None
        }
    }

    /// The settings of item `i` of collection `c`, if it has any.
    pub open spec fn item_config_of(&self, c: CollectionId, i: ItemId) -> Option<ItemConfig> {
        if self.item_configs@.contains_key(slot(c, i)) {
            Some(self.item_configs@[slot(c, i)])
        } else {
            None
        }
    }

    /// The delegates approved on item `i` of collection `c`.
    pub open spec fn approvals_of(&self, c: CollectionId, i: ItemId) -> Seq<AccountId> {
        if self.approvals@.contains_key(slot(c, i)) {
            self.approvals@[slot(c, i)]@
        } else {
            Seq::empty()
        }
    }

    /// The value and deposit stored under `k`, if any.
    pub open spec fn attribute_of(&self, k: AttrKey) -> Option<(Seq<u8>, AttributeDeposit)> {
        lookup(self.attributes@, k)
    }

    /// An empty store with the given settings.
    pub fn new(config: PalletConfig) -> (r: Pallet)
        ensures
            r.wf(),
            r.config == config,
            r.collections@ == Map::<CollectionId, CollectionDetails>::empty(),
            r.items@ == Map::<u64, AccountId>::empty(),
            r.item_configs@ == Map::<u64, ItemConfig>::empty(),
            r.approvals@ == Map::<u64, Vec<AccountId>>::empty(),
            r.attributes@ == Seq::<AttributeEntry>::empty(),
            r.ledger@ == Map::<AccountId, crate::ledger::AccountBalance>::empty(),
            r.events@ == Seq::<Event>::empty(),
    {
        Pallet {
            config,
            collections: HashMap::new(),
            items: HashMap::new(),
            item_configs: HashMap::new(),
            approvals: HashMap::new(),
            item_metadata: HashMap::new(),
            collection_metadata: HashMap::new(),
            attributes: Vec::new(),
            ledger: Ledger::new(),
            events: Vec::new(),
        }
    }

    /// The record of collection `c`.
    pub fn get_collection(&self, c: CollectionId) -> (r: Option<CollectionDetails>)
        ensures
            r == self.collection_of(c),
    {
        match self.collections.get(&c) {
            Some(d) => Some(*d),
            None => None,
        }
    }

    /// The owner of item `i` of collection `c`.
    pub fn get_item_owner(&self, c: CollectionId, i: ItemId) -> (r: Option<AccountId>)
        ensures
            r == self.item_owner_of(c, i),
    {
        match self.items.get(&item_slot(c, i)) {
            Some(o) => Some(*o),
            None => None,
        }
    }

    /// The settings of item `i` of collection `c`.
    pub fn get_item_config(&self, c: CollectionId, i: ItemId) -> (r: Option<ItemConfig>)
        ensures
            r == self.item_config_of(c, i),
    {
        match self.item_configs.get(&item_slot(c, i)) {
            Some(cfg) => Some(*cfg),
            None => None,
        }
    }

    /// Whether `who` is among the delegates of item `i` of collection `c`.
    pub fn is_approved(&self, c: CollectionId, i: ItemId, who: AccountId) -> (r: bool)
        ensures
            r == self.approvals_of(c, i).contains(who),
    {
        match self.approvals.get(&item_slot(c, i)) {
            Some(v) => {
                let mut k: usize = 0;
                while k < v.len()
                    invariant
                        v@ == self.approvals_of(c, i),
                        0 <= k <= v.len(),
                        forall|j: int| 0 <= j < k ==> v@[j] != who,
                    decreases v.len() - k,
                {
                    if v[k] == who {
                        return true;
                    }
                    k += 1;
                }
                false
            },
            None => false,
        }
    }

    /// Registers collection `c` with no attributes and no owner deposit,
    /// replacing any earlier record of it.
    pub fn create_collection(
        &mut self,
        c: CollectionId,
        owner: AccountId,
        unlocked_attributes: bool,
        deposit_required: bool,
    )
        requires
            old(self).wf(),
        ensures
            final(self).wf(),
            final(self).collections@ == old(self).collections@.insert(
                c,
                CollectionDetails {
                    owner,
                    attributes: 0,
                    owner_deposit: 0,
                    unlocked_attributes,
                    deposit_required,
                },
            ),
            final(self).attributes@ == old(self).attributes@,
            final(self).items@ == old(self).items@,
            final(self).item_configs@ == old(self).item_configs@,
            final(self).approvals@ == old(self).approvals@,
            final(self).ledger@ == old(self).ledger@,
            final(self).config == old(self).config,
    {
        self.collections.insert(
            c,
            CollectionDetails {
                owner,
                attributes: 0,
                owner_deposit: 0,
                unlocked_attributes,
                deposit_required,
            },
        );
    }

    /// Registers item `i` of collection `c` as owned by `owner`, with the
    /// given settings, or with none (as for an item whose settings are gone).
    pub fn create_item(
        &mut self,
        c: CollectionId,
        i: ItemId,
        owner: AccountId,
        config: Option<ItemConfig>,
    )
        requires
            old(self).wf(),
        ensures
            final(self).wf(),
            final(self).items@ == old(self).items@.insert(slot(c, i), owner),
            final(self).item_configs@ == match config {
                Some(cfg) => old(self).item_configs@.insert(slot(c, i), cfg),
                None => old(self).item_configs@.remove(slot(c, i)),
            },
            final(self).attributes@ == old(self).attributes@,
            final(self).collections@ == old(self).collections@,
            final(self).approvals@ == old(self).approvals@,
            final(self).ledger@ == old(self).ledger@,
            final(self).config == old(self).config,
    {
        let s = item_slot(c, i);
        self.items.insert(s, owner);
        match config {
            Some(cfg) => {
                self.item_configs.insert(s, cfg);
            },
            None => {
                self.item_configs.remove(&s);
            },
        }
    }

    /// Sets the metadata that a read of the empty key of item `i` returns.
    pub fn set_item_metadata(&mut self, c: CollectionId, i: ItemId, data: Vec<u8>)
        requires
            old(self).wf(),
        ensures
            final(self).wf(),
            final(self).item_metadata@ == old(self).item_metadata@.insert(slot(c, i), data),
            final(self).attributes@ == old(self).attributes@,
            final(self).collections@ == old(self).collections@,
            final(self).ledger@ == old(self).ledger@,
    {
        self.item_metadata.insert(item_slot(c, i), data);
    }

    /// Sets the metadata that a read of the empty key of collection `c` returns.
    pub fn set_collection_metadata(&mut self, c: CollectionId, data: Vec<u8>)
        requires
            old(self).wf(),
        ensures
            final(self).wf(),
            final(self).collection_metadata@ == old(self).collection_metadata@.insert(c, data),
            final(self).attributes@ == old(self).attributes@,
            final(self).collections@ == old(self).collections@,
            final(self).ledger@ == old(self).ledger@,
    {
        self.collection_metadata.insert(c, data);
    }

    /// Credits free funds to `a`; see `Ledger::deposit`.
    pub fn fund(&mut self, a: AccountId, amount: crate::types::Balance)
        requires
            old(self).wf(),
        ensures
            final(self).wf(),
            final(self).ledger@ == old(self).ledger@.insert(
                a,
                crate::ledger::AccountBalance {
                    free: crate::ledger::credited(crate::ledger::balance_in(old(self).ledger@, a), amount),
                    reserved: crate::ledger::balance_in(old(self).ledger@, a).reserved,
                },
            ),
            final(self).attributes@ == old(self).attributes@,
            final(self).collections@ == old(self).collections@,
            final(self).same_registry(old(self)),
    {
        self.ledger.deposit(a, amount);
    }
}

} // verus!
