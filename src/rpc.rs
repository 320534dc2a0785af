use vstd::prelude::*;
use std::marker::PhantomData;
use std::sync::Arc;
use crate::types::{AccountId, AttributeNamespace, CollectionId, ItemId};
use crate::store::Pallet;
use crate::reads::DefaultNamespacePrecedence;

verus! {

/// The read-only query layer over a shared store `C`, for blocks of kind `P`.
pub struct Nfts<C, P> {
    pub client: Arc<C>,
    pub marker: PhantomData<P>,
}

impl<C, P> Nfts<C, P> {
    /// A query layer over `client`.
    pub fn new(client: Arc<C>) -> (r: Self)
        ensures
            r.client == client,
    {
        Nfts { client, marker: PhantomData }
    }
}

impl<P> Nfts<Pallet, P> {
    /// The owner of item `i` of collection `c`.
    pub fn item_owner(&self, c: CollectionId, i: ItemId) -> (r: Option<AccountId>)
        ensures
            r == (*self.client).item_owner_of(c, i),
    {
        let store: &Pallet = &self.client;
        store.get_item_owner(c, i)
    }

    /// The owner of collection `c`.
    pub fn collection_owner(&self, c: CollectionId) -> (r: Option<AccountId>)
        ensures
            r == match (*self.client).collection_of(c) {
                Some(d) => Some(d.owner),
                None => None::<AccountId>,
            },
    {
        let store: &Pallet = &self.client;
        match store.get_collection(c) {
            Some(d) => Some(d.owner),
            None => None,
        }
    }

    /// The value of `key` of item `i`, in `namespace` or in the one that the
    /// default precedence picks.
    pub fn item_attribute(
        &self,
        c: CollectionId,
        i: ItemId,
        key: Vec<u8>,
        namespace: Option<AttributeNamespace>,
    ) -> (r: Option<Vec<u8>>)
        requires
            (*self.client).wf(),
        ensures
            match r {
                Some(v) => (*self.client).item_attribute_view::<DefaultNamespacePrecedence>(
                    c,
                    i,
                    key@,
                    namespace,
                ) == Some(v@),
                None => (*self.client).item_attribute_view::<DefaultNamespacePrecedence>(
                    c,
                    i,
                    key@,
                    namespace,
                ) is None,
            },
    {
        let store: &Pallet = &self.client;
        store.attribute::<DefaultNamespacePrecedence>(c, i, &key, namespace)
    }

    /// The value of `key` of collection `c`.
    pub fn collection_attribute(&self, c: CollectionId, key: Vec<u8>) -> (r: Option<Vec<u8>>)
        requires
            (*self.client).wf(),
        ensures
            match r {
                Some(v) => (*self.client).collection_attribute_view(c, key@) == Some(v@),
                None => (*self.client).collection_attribute_view(c, key@) is None,
            },
    {
        let store: &Pallet = &self.client;
        store.collection_attribute(c, &key)
    }
}

} // verus!
