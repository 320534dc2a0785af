use vstd::prelude::*;
use crate::types::{AccountId, AttributeNamespace, CollectionId, Error, ItemId, clamp};
use crate::ledger::unreserved_map;
use crate::store::{
    AttrKey, AttributeEntry, Event, Pallet, item_slot, keys_unique, lemma_lookup_remove,
    lemma_slot_injective, lookup,
};

verus! {

broadcast use vstd::std_specs::hash::group_hash_axioms;

/// Whether an entry lies in delegate `d`'s namespace of item `i` of collection `c`.
pub open spec fn in_delegate_space(e: AttributeEntry, c: CollectionId, i: ItemId, d: AccountId) -> bool {
    e.collection == c && e.maybe_item == Some(i) && e.namespace == AttributeNamespace::Account(d)
}

/// Whether a key lies in delegate `d`'s namespace of item `i` of collection `c`.
pub open spec fn key_in_delegate_space(k: AttrKey, c: CollectionId, i: ItemId, d: AccountId) -> bool {
    k.0 == c && k.1 == Some(i) && k.2 == AttributeNamespace::Account(d)
}

/// The number of entries in delegate `d`'s namespace of the item.
pub open spec fn delegate_count(s: Seq<AttributeEntry>, c: CollectionId, i: ItemId, d: AccountId) -> nat
    decreases s.len(),
{
    if s.len() == 0 {
        0
    } else {
        (if in_delegate_space(s[0], c, i, d) {
            1nat
        } else {
            0nat
        }) + delegate_count(s.subrange(1, s.len() as int), c, i, d)
    }
}

/// The deposits of the entries in delegate `d`'s namespace of the item, summed.
pub open spec fn delegate_deposit(s: Seq<AttributeEntry>, c: CollectionId, i: ItemId, d: AccountId) -> nat
    decreases s.len(),
{
    if s.len() == 0 {
        0
    } else {
        (if in_delegate_space(s[0], c, i, d) {
            s[0].deposit.amount as nat
        } else {
            0nat
        }) + delegate_deposit(s.subrange(1, s.len() as int), c, i, d)
    }
}

/// A count held at the largest `u32`.
pub open spec fn saturated_count(n: nat) -> u32 {
    if n > u32::MAX {
        u32::MAX
    } else {
        n as u32
    }
}

/// The decomposition of a suffix at its first element.
proof fn lemma_suffix_step(s: Seq<AttributeEntry>, j: int)
    requires
        0 <= j < s.len(),
    ensures
        s.subrange(j, s.len() as int).subrange(1, s.subrange(j, s.len() as int).len() as int)
            == s.subrange(j + 1, s.len() as int),
        s.subrange(j, s.len() as int)[0] == s[j],
{
    assert(s.subrange(j, s.len() as int).subrange(1, s.subrange(j, s.len() as int).len() as int)
        =~= s.subrange(j + 1, s.len() as int));
}

/// The first position of `x` in `v`, or the length of `v` if it is absent.
pub fn position_of(v: &Vec<AccountId>, x: AccountId) -> (r: usize)
    ensures
        r <= v@.len(),
        r < v@.len() ==> v@[r as int] == x,
        forall|j: int| 0 <= j < r ==> v@[j] != x,
{
    let mut k: usize = 0;
    while k < v.len()
        invariant
            0 <= k <= v.len(),
            forall|j: int| 0 <= j < k ==> v@[j] != x,
        decreases v.len() - k,
    {
        if v[k] == x {
            return k;
        }
        k += 1;
    }
    k
}

impl Pallet {
    /// How `approve_item_attributes` ends.
    pub open spec fn approve_outcome(
        &self,
        check_origin: AccountId,
        c: CollectionId,
        i: ItemId,
        delegate: AccountId,
    ) -> Result<(), Error> {
        if !self.config.attributes_enabled {
            Err(Error::MethodDisabled)
        } else if self.item_owner_of(c, i) is None {
            Err(Error::UnknownItem)
        } else if self.item_owner_of(c, i) != Some(check_origin) {
            Err(Error::NoPermission)
        } else if !self.approvals_of(c, i).contains(delegate) && self.approvals_of(c, i).len()
            >= self.config.approvals_limit {
            Err(Error::ReachedApprovalLimit)
        } else {
            Ok(())
        }
    }

    /// The approvals of every item but item `i` of collection `c` are as in `other`.
    pub open spec fn other_approvals_kept(&self, other: &Pallet, c: CollectionId, i: ItemId) -> bool {
        forall|c2: CollectionId, i2: ItemId|
            (c2, i2) != (c, i) ==> #[trigger] self.approvals_of(c2, i2) == other.approvals_of(c2, i2)
    }

    /// The number of delegates of item `i` of collection `c`.
    pub fn approvals_len(&self, c: CollectionId, i: ItemId) -> (r: usize)
        ensures
            r == self.approvals_of(c, i).len(),
    {
        match self.approvals.get(&item_slot(c, i)) {
            Some(v) => v.len(),
            None => 0,
        }
    }

    /// Lets `delegate` write under its own namespace of item `i`; only the
    /// item's owner may grant this. Approving a delegate twice changes nothing.
    ///
    /// Fails, changing nothing, when attributes are disabled, the item is
    /// unknown, `check_origin` does not own it, or the item already has as
    /// many delegates as allowed.
    pub fn approve_item_attributes(
        &mut self,
        check_origin: AccountId,
        c: CollectionId,
        i: ItemId,
        delegate: AccountId,
    ) -> (r: Result<(), Error>)
        requires
            old(self).wf(),
        ensures
            final(self).wf(),
            r == old(self).approve_outcome(check_origin, c, i, delegate),
            r is Err ==> *final(self) == *old(self),
            r is Ok ==> {
                &&& forall|a: AccountId|
                    #[trigger] final(self).approvals_of(c, i).contains(a) <==> old(self).approvals_of(
                        c,
                        i,
                    ).contains(a) || a == delegate
                &&& final(self).other_approvals_kept(old(self), c, i)
                &&& final(self).attributes@ == old(self).attributes@
                &&& final(self).collections@ == old(self).collections@
                &&& final(self).items@ == old(self).items@
                &&& final(self).item_configs@ == old(self).item_configs@
                &&& final(self).ledger@ == old(self).ledger@
                &&& final(self).config == old(self).config
                &&& final(self).events@ == old(self).events@.push(
                    Event::ItemAttributesApprovalAdded { collection: c, item: i, delegate },
                )
            },
    {
        if !self.config.attributes_enabled {
            return Err(Error::MethodDisabled);
        }
        let owner = match self.get_item_owner(c, i) {
            Some(o) => o,
            None => return Err(Error::UnknownItem),
        };
        if check_origin != owner {
            return Err(Error::NoPermission);
        }
        if self.is_approved(c, i, delegate) {
            self.events.push(Event::ItemAttributesApprovalAdded { collection: c, item: i, delegate });
            return Ok(());
        }
        if self.approvals_len(c, i) >= self.config.approvals_limit as usize {
            return Err(Error::ReachedApprovalLimit);
        }
        self.events.push(Event::ItemAttributesApprovalAdded { collection: c, item: i, delegate });
        let s = item_slot(c, i);
        let mut v = match self.approvals.remove(&s) {
            Some(v) => v,
            None => Vec::new(),
        };
        let ghost before = v@;
        v.push(delegate);
        assert(v@.no_duplicates()) by {
            assert forall|x: int, y: int|
                0 <= x < v@.len() && 0 <= y < v@.len() && x != y implies v@[x] != v@[y] by {
                if x < before.len() && y < before.len() {
                } else if x == before.len() {
                    assert(before.contains(v@[y]) || y == x);
                } else {
                    assert(before.contains(v@[x]) || y == x);
                }
            }
        }
        self.approvals.insert(s, v);
        proof {
            assert forall|c2: CollectionId, i2: ItemId|
                (c2, i2) != (c, i) implies #[trigger] self.approvals_of(c2, i2) == old(
                    self,
                ).approvals_of(c2, i2) by {
                lemma_slot_injective(c, i, c2, i2);
            }
            assert forall|a: AccountId|
                #[trigger] self.approvals_of(c, i).contains(a) <==> old(self).approvals_of(
                    c,
                    i,
                ).contains(a) || a == delegate by {
                if a != delegate && self.approvals_of(c, i).contains(a) {
                    let x = choose|x: int| 0 <= x < v@.len() && v@[x] == a;
                    assert(before[x] == a);
                }
                if old(self).approvals_of(c, i).contains(a) {
                    let x = choose|x: int| 0 <= x < before.len() && before[x] == a;
                    assert(v@[x] == a);
                }
                if a == delegate {
                    assert(v@[before.len() as int] == a);
                }
            }
        }
        Ok(())
    }

    /// The number of attributes in delegate `d`'s namespace of item `i`,
    /// held at the largest count.
    pub fn count_delegate_attributes(&self, c: CollectionId, i: ItemId, d: AccountId) -> (r: u32)
        ensures
            r == saturated_count(delegate_count(self.attributes@, c, i, d)),
    {
        let ghost s = self.attributes@;
        let n = self.attributes.len();
        let mut j: usize = n;
        let mut count: u32 = 0;
        while j > 0
            invariant
                s == self.attributes@,
                n == s.len(),
                0 <= j <= n,
                count == saturated_count(delegate_count(s.subrange(j as int, n as int), c, i, d)),
            decreases j,
        {
            j -= 1;
            proof {
                lemma_suffix_step(s, j as int);
            }
            let e = &self.attributes[j];
            if e.collection == c && e.maybe_item == Some(i) && e.namespace == AttributeNamespace::Account(
                d,
            ) {
                count = count.saturating_add(1);
            }
        }
        assert(s.subrange(0, n as int) =~= s);
        count
    }

    /// Removes every attribute in delegate `d`'s namespace of item `i` and
    /// returns their deposits summed, held at the largest balance.
    fn drain_delegate_attributes(&mut self, c: CollectionId, i: ItemId, d: AccountId) -> (r: u64)
        requires
            keys_unique(old(self).attributes@),
        ensures
            r == clamp(delegate_deposit(old(self).attributes@, c, i, d) as int),
            keys_unique(final(self).attributes@),
            forall|k: AttrKey|
                #[trigger] final(self).attribute_of(k) == if key_in_delegate_space(k, c, i, d) {
                    None
                } else {
                    old(self).attribute_of(k)
                },
            final(self).config == old(self).config,
            final(self).collections == old(self).collections,
            final(self).items == old(self).items,
            final(self).item_configs == old(self).item_configs,
            final(self).approvals == old(self).approvals,
            final(self).item_metadata == old(self).item_metadata,
            final(self).collection_metadata == old(self).collection_metadata,
            final(self).ledger == old(self).ledger,
            final(self).events == old(self).events,
    {
        let ghost s = self.attributes@;
        let n = self.attributes.len();
        let mut j: usize = n;
        let mut sum: u64 = 0;
        while j > 0
            invariant
                s == old(self).attributes@,
                n == s.len(),
                0 <= j <= n,
                j <= self.attributes@.len(),
                self.attributes@.subrange(0, j as int) == s.subrange(0, j as int),
                keys_unique(self.attributes@),
                forall|x: int|
                    j <= x < self.attributes@.len() ==> !in_delegate_space(
                        #[trigger] self.attributes@[x],
                        c,
                        i,
                        d,
                    ),
                forall|k: AttrKey|
                    !key_in_delegate_space(k, c, i, d) ==> #[trigger] lookup(self.attributes@, k)
                        == lookup(s, k),
                sum == clamp(delegate_deposit(s.subrange(j as int, n as int), c, i, d) as int),
                self.config == old(self).config,
                self.collections == old(self).collections,
                self.items == old(self).items,
                self.item_configs == old(self).item_configs,
                self.approvals == old(self).approvals,
                self.item_metadata == old(self).item_metadata,
                self.collection_metadata == old(self).collection_metadata,
                self.ledger == old(self).ledger,
                self.events == old(self).events,
            decreases j,
        {
            j -= 1;
            proof {
                lemma_suffix_step(s, j as int);
                assert(self.attributes@[j as int] == self.attributes@.subrange(0, j as int + 1)[j as int]);
                assert(s[j as int] == s.subrange(0, j as int + 1)[j as int]);
                assert(self.attributes@.subrange(0, j as int + 1)[j as int] == s.subrange(0, j as int + 1)[j as int]);
            }
            let e = &self.attributes[j];
            if e.collection == c && e.maybe_item == Some(i) && e.namespace == AttributeNamespace::Account(
                d,
            ) {
                sum = sum.saturating_add(e.deposit.amount);
                let ghost before = self.attributes@;
                proof {
                    lemma_lookup_remove(before, j as int);
                }
                self.attributes.remove(j);
                proof {
                    assert(self.attributes@.subrange(0, j as int) =~= before.subrange(0, j as int));
                    assert(before.subrange(0, j as int) =~= before.subrange(0, j as int + 1).subrange(0, j as int));
                    assert(s.subrange(0, j as int) =~= s.subrange(0, j as int + 1).subrange(0, j as int));
                    assert forall|x: int|
                        j <= x < self.attributes@.len() implies !in_delegate_space(
                            #[trigger] self.attributes@[x],
                            c,
                            i,
                            d,
                        ) by {
                        assert(self.attributes@[x] == before[x + 1]);
                    }
                }
            } else {
                proof {
                    assert(self.attributes@.subrange(0, j as int) =~= self.attributes@.subrange(0, j as int + 1).subrange(0, j as int));
                    assert(s.subrange(0, j as int) =~= s.subrange(0, j as int + 1).subrange(0, j as int));
                }
            }
        }
        proof {
            assert(s.subrange(0, n as int) =~= s);
            assert forall|k: AttrKey|
                #[trigger] lookup(self.attributes@, k) == if key_in_delegate_space(k, c, i, d) {
                    None
                } else {
                    lookup(s, k)
                } by {
                if key_in_delegate_space(k, c, i, d) && crate::store::has_key(self.attributes@, k) {
                    let x = choose|x: int|
                        0 <= x < self.attributes@.len() && #[trigger] self.attributes@[x].key_view() == k;
                    assert(in_delegate_space(self.attributes@[x], c, i, d));
                }
            }
        }
        sum
    }

    /// How `cancel_item_attributes_approval` ends.
    pub open spec fn cancel_outcome(
        &self,
        check_origin: AccountId,
        c: CollectionId,
        i: ItemId,
        delegate: AccountId,
        witness: u32,
    ) -> Result<(), Error> {
        if !self.config.attributes_enabled {
            Err(Error::MethodDisabled)
        } else if self.item_owner_of(c, i) is None {
            Err(Error::UnknownItem)
        } else if self.item_owner_of(c, i) != Some(check_origin) {
            Err(Error::NoPermission)
        } else if saturated_count(delegate_count(self.attributes@, c, i, delegate)) > witness {
            Err(Error::BadWitness)
        } else {
            Ok(())
        }
    }

    /// Withdraws `delegate`'s approval on item `i`, removes every attribute
    /// in its namespace of the item and returns their deposits to it. Only
    /// the item's owner may do this; `witness` bounds how many attributes
    /// may be removed.
    ///
    /// Fails, changing nothing, when attributes are disabled, the item is
    /// unknown, `check_origin` does not own it, or the delegate holds more
    /// attributes on the item than `witness`. The witness is checked before
    /// anything is removed, so an overrun leaves the state as it was.
    pub fn cancel_item_attributes_approval(
        &mut self,
        check_origin: AccountId,
        c: CollectionId,
        i: ItemId,
        delegate: AccountId,
        witness: u32,
    ) -> (r: Result<(), Error>)
        requires
            old(self).wf(),
        ensures
            final(self).wf(),
            r == old(self).cancel_outcome(check_origin, c, i, delegate, witness),
            r is Err ==> *final(self) == *old(self),
            r is Ok ==> {
                let total = clamp(delegate_deposit(old(self).attributes@, c, i, delegate) as int);
                &&& forall|a: AccountId|
                    #[trigger] final(self).approvals_of(c, i).contains(a) <==> old(self).approvals_of(
                        c,
                        i,
                    ).contains(a) && a != delegate
                &&& final(self).other_approvals_kept(old(self), c, i)
                &&& forall|k: AttrKey|
                    #[trigger] final(self).attribute_of(k) == if key_in_delegate_space(
                        k,
                        c,
                        i,
                        delegate,
                    ) {
                        None
                    } else {
                        old(self).attribute_of(k)
                    }
                &&& final(self).ledger@ == if total != 0 {
                    unreserved_map(old(self).ledger@, delegate, total)
                } else {
                    old(self).ledger@
                }
                &&& final(self).collections@ == old(self).collections@
                &&& final(self).items@ == old(self).items@
                &&& final(self).item_configs@ == old(self).item_configs@
                &&& final(self).config == old(self).config
                &&& final(self).events@ == old(self).events@.push(
                    Event::ItemAttributesApprovalRemoved { collection: c, item: i, delegate },
                )
            },
    {
        if !self.config.attributes_enabled {
            return Err(Error::MethodDisabled);
        }
        let owner = match self.get_item_owner(c, i) {
            Some(o) => o,
            None => return Err(Error::UnknownItem),
        };
        if check_origin != owner {
            return Err(Error::NoPermission);
        }
        if self.count_delegate_attributes(c, i, delegate) > witness {
            return Err(Error::BadWitness);
        }
        self.events.push(Event::ItemAttributesApprovalRemoved { collection: c, item: i, delegate });
        self.remove_approval(c, i, delegate);
        let ghost unapproved = *self;
        let deposited = self.drain_delegate_attributes(c, i, delegate);
        let ghost drained = *self;
        if deposited != 0 {
            self.ledger.unreserve(delegate, deposited);
        }
        proof {
            assert forall|k: AttrKey|
                #[trigger] self.attribute_of(k) == if key_in_delegate_space(k, c, i, delegate) {
                    None
                } else {
                    old(self).attribute_of(k)
                } by {
                assert(self.attribute_of(k) == drained.attribute_of(k));
                assert(unapproved.attribute_of(k) == old(self).attribute_of(k));
            }
            assert forall|a: AccountId|
                #[trigger] self.approvals_of(c, i).contains(a) <==> old(self).approvals_of(
                    c,
                    i,
                ).contains(a) && a != delegate by {
                assert(self.approvals_of(c, i) == unapproved.approvals_of(c, i));
            }
            assert forall|c2: CollectionId, i2: ItemId|
                (c2, i2) != (c, i) implies #[trigger] self.approvals_of(c2, i2) == old(
                    self,
                ).approvals_of(c2, i2) by {
                assert(self.approvals_of(c2, i2) == unapproved.approvals_of(c2, i2));
            }
        }
        Ok(())
    }

    /// Takes `delegate` out of the delegates of item `i`; nothing happens if
    /// it is not among them.
    fn remove_approval(&mut self, c: CollectionId, i: ItemId, delegate: AccountId)
        requires
            old(self).wf(),
        ensures
            final(self).wf(),
            forall|a: AccountId|
                #[trigger] final(self).approvals_of(c, i).contains(a) <==> old(self).approvals_of(
                    c,
                    i,
                ).contains(a) && a != delegate,
            final(self).other_approvals_kept(old(self), c, i),
            final(self).config == old(self).config,
            final(self).collections == old(self).collections,
            final(self).items == old(self).items,
            final(self).item_configs == old(self).item_configs,
            final(self).attributes == old(self).attributes,
            final(self).item_metadata == old(self).item_metadata,
            final(self).collection_metadata == old(self).collection_metadata,
            final(self).ledger == old(self).ledger,
            final(self).events == old(self).events,
    {
        let s = item_slot(c, i);
        let mut v = match self.approvals.remove(&s) {
            Some(v) => v,
            None => Vec::new(),
        };
        let ghost before = v@;
        let k = position_of(&v, delegate);
        if k < v.len() {
            v.remove(k);
        }
        proof {
            assert(before.no_duplicates());
            assert forall|a: AccountId| #[trigger] v@.contains(a) <==> before.contains(a) && a != delegate by {
                if k < before.len() {
                    if v@.contains(a) {
                        let x = choose|x: int| 0 <= x < v@.len() && v@[x] == a;
                        if x < k {
                            assert(before[x] == a);
                        } else {
                            assert(before[x + 1] == a);
                        }
                    }
                    if before.contains(a) && a != delegate {
                        let x = choose|x: int| 0 <= x < before.len() && before[x] == a;
                        if x < k {
                            assert(v@[x] == a);
                        } else {
                            assert(x != k);
                            assert(v@[x - 1] == a);
                        }
                    }
                }
            }
            assert(v@.no_duplicates()) by {
                if k < before.len() {
                    assert forall|x: int, y: int|
                        0 <= x < v@.len() && 0 <= y < v@.len() && x != y implies v@[x] != v@[y] by {
                        let x2 = if x < k { x } else { x + 1 };
                        let y2 = if y < k { y } else { y + 1 };
                        assert(v@[x] == before[x2]);
                        assert(v@[y] == before[y2]);
                    }
                }
            }
        }
        self.approvals.insert(s, v);
        proof {
            assert forall|c2: CollectionId, i2: ItemId|
                (c2, i2) != (c, i) implies #[trigger] self.approvals_of(c2, i2) == old(
                    self,
                ).approvals_of(c2, i2) by {
                lemma_slot_injective(c, i, c2, i2);
            }
        }
    }
}

} // verus!
