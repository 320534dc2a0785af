use vstd::prelude::*;
use crate::types::{AttributeNamespace, CollectionId, Error, ItemId};
use crate::store::{Pallet, keys_unique};

verus! {

broadcast use vstd::std_specs::hash::group_hash_axioms;

/// A byte-for-byte copy of `v`.
pub fn copy_bytes(v: &Vec<u8>) -> (r: Vec<u8>)
    ensures
        r@ == v@,
{
    let mut r: Vec<u8> = Vec::new();
    let mut k: usize = 0;
    while k < v.len()
        invariant
            0 <= k <= v.len(),
            r@ == v@.subrange(0, k as int),
        decreases v.len() - k,
    {
        r.push(v[k]);
        k += 1;
    }
    assert(v@.subrange(0, v@.len() as int) =~= v@);
    r
}

/// Chooses which namespace answers a read of an item attribute that names
/// none.
pub trait NamespacePrecedence {
    /// The namespace chosen for `key` of item `i` of collection `c`.
    spec fn precedence(store: &Pallet, c: CollectionId, i: ItemId, key: Seq<u8>) -> AttributeNamespace;

    /// Returns the most authoritative namespace for `key` of item `i`.
    fn namespace_precedence(store: &Pallet, c: CollectionId, i: ItemId, key: &Vec<u8>) -> (r:
        AttributeNamespace)
        requires
            keys_unique(store.attributes@),
        ensures
            r == Self::precedence(store, c, i, key@),
    ;
}

/// The collection owner's namespace first, then the item owner's, then the
/// registry's; a delegate's namespace is never chosen. With no attribute
/// in any of them, the collection owner's.
pub struct DefaultNamespacePrecedence;

impl NamespacePrecedence for DefaultNamespacePrecedence {
    open spec fn precedence(store: &Pallet, c: CollectionId, i: ItemId, key: Seq<u8>) -> AttributeNamespace {
        if store.attribute_of((c, Some(i), AttributeNamespace::CollectionOwner, key)) is Some {
            AttributeNamespace::CollectionOwner
        } else if store.attribute_of((c, Some(i), AttributeNamespace::ItemOwner, key)) is Some {
            AttributeNamespace::ItemOwner
        } else if store.attribute_of((c, Some(i), AttributeNamespace::Pallet, key)) is Some {
            AttributeNamespace::Pallet
        } else {
            AttributeNamespace::CollectionOwner
        }
    }

    fn namespace_precedence(store: &Pallet, c: CollectionId, i: ItemId, key: &Vec<u8>) -> (r:
        AttributeNamespace) {
        if store.find_attribute(c, Some(i), AttributeNamespace::CollectionOwner, key).is_some() {
            AttributeNamespace::CollectionOwner
        } else if store.find_attribute(c, Some(i), AttributeNamespace::ItemOwner, key).is_some() {
            AttributeNamespace::ItemOwner
        } else if store.find_attribute(c, Some(i), AttributeNamespace::Pallet, key).is_some() {
            AttributeNamespace::Pallet
        } else {
            AttributeNamespace::CollectionOwner
        }
    }
}

impl Pallet {
    pub open spec fn item_metadata_of(&self, c: CollectionId, i: ItemId) -> Option<Seq<u8>> {
        if self.item_metadata@.contains_key(crate::store::slot(c, i)) {
            Some(self.item_metadata@[crate::store::slot(c, i)]@)
        } else {
            None
        }
    }

    pub open spec fn collection_metadata_of(&self, c: CollectionId) -> Option<Seq<u8>> {
        if self.collection_metadata@.contains_key(c) {
            Some(self.collection_metadata@[c]@)
        } else {
            None
        }
    }

    /// The value stored under `k`, if any.
    pub open spec fn value_of(&self, k: crate::store::AttrKey) -> Option<Seq<u8>> {
        match self.attribute_of(k) {
            Some(rec) => Some(rec.0),
            None => None,
        }
    }

    /// What a read of `key` of item `i` returns: the item's metadata for the
    /// empty key, nothing for a key longer than allowed, and otherwise the
    /// value in `namespace`, or in the namespace that `P` picks.
    pub open spec fn item_attribute_view<P: NamespacePrecedence>(
        &self,
        c: CollectionId,
        i: ItemId,
        key: Seq<u8>,
        namespace: Option<AttributeNamespace>,
    ) -> Option<Seq<u8>> {
        if key.len() == 0 {
            self.item_metadata_of(c, i)
        } else if key.len() > self.config.key_limit {
            None
        } else {
            let ns = match namespace {
                Some(ns) => ns,
                None => P::precedence(self, c, i, key),
            };
            self.value_of((c, Some(i), ns, key))
        }
    }

    /// What a read of `key` of collection `c` returns: the collection's
    /// metadata for the empty key, and otherwise the collection owner's
    /// collection-level value.
    pub open spec fn collection_attribute_view(&self, c: CollectionId, key: Seq<u8>) -> Option<Seq<u8>> {
        if key.len() == 0 {
            self.collection_metadata_of(c)
        } else if key.len() > self.config.key_limit {
            None
        } else {
            self.value_of((c, None, AttributeNamespace::CollectionOwner, key))
        }
    }

    /// Checks that `key` fits the key limit.
    pub fn construct_attribute_key(&self, key: Vec<u8>) -> (r: Result<Vec<u8>, Error>)
        ensures
            key@.len() <= self.config.key_limit ==> r is Ok && r->Ok_0@ == key@,
            key@.len() > self.config.key_limit ==> r == Err::<Vec<u8>, Error>(Error::IncorrectData),
    {
        if key.len() > self.config.key_limit as usize {
            Err(Error::IncorrectData)
        } else {
            Ok(key)
        }
    }

    /// Checks that `value` fits the value limit.
    pub fn construct_attribute_value(&self, value: Vec<u8>) -> (r: Result<Vec<u8>, Error>)
        ensures
            value@.len() <= self.config.value_limit ==> r is Ok && r->Ok_0@ == value@,
            value@.len() > self.config.value_limit ==> r == Err::<Vec<u8>, Error>(Error::IncorrectData),
    {
        if value.len() > self.config.value_limit as usize {
            Err(Error::IncorrectData)
        } else {
            Ok(value)
        }
    }

    /// Reads `key` of item `i`; see `item_attribute_view`. The deposit is
    /// never returned.
    pub fn attribute<P: NamespacePrecedence>(
        &self,
        c: CollectionId,
        i: ItemId,
        key: &Vec<u8>,
        namespace: Option<AttributeNamespace>,
    ) -> (r: Option<Vec<u8>>)
        requires
            self.wf(),
        ensures
            match r {
                Some(v) => self.item_attribute_view::<P>(c, i, key@, namespace) == Some(v@),
                None => self.item_attribute_view::<P>(c, i, key@, namespace) is None,
            },
    {
        if key.len() == 0 {
            match self.item_metadata.get(&crate::store::item_slot(c, i)) {
                Some(m) => Some(copy_bytes(m)),
                None => None,
            }
        } else if key.len() > self.config.key_limit as usize {
            None
        } else {
            let ns = match namespace {
                Some(ns) => ns,
                None => P::namespace_precedence(self, c, i, key),
            };
            match self.find_attribute(c, Some(i), ns, key) {
                Some(idx) => Some(copy_bytes(&self.attributes[idx].value)),
                None => None,
            }
        }
    }

    /// Reads `key` of collection `c`; see `collection_attribute_view`.
    pub fn collection_attribute(&self, c: CollectionId, key: &Vec<u8>) -> (r: Option<Vec<u8>>)
        requires
            self.wf(),
        ensures
            match r {
                Some(v) => self.collection_attribute_view(c, key@) == Some(v@),
                None => self.collection_attribute_view(c, key@) is None,
            },
    {
        if key.len() == 0 {
            match self.collection_metadata.get(&c) {
                Some(m) => Some(copy_bytes(m)),
                None => None,
            }
        } else if key.len() > self.config.key_limit as usize {
            None
        } else {
            match self.find_attribute(c, None, AttributeNamespace::CollectionOwner, key) {
                Some(idx) => Some(copy_bytes(&self.attributes[idx].value)),
                None => None,
            }
        }
    }
}

} // verus!
