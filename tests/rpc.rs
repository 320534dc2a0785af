use std::sync::Arc;
use pallet_nfts::rpc::Nfts;
use pallet_nfts::store::{Pallet, PalletConfig};
use pallet_nfts::types::AttributeNamespace;

fn store() -> Pallet {
    let mut p = Pallet::new(PalletConfig {
        attributes_enabled: true,
        key_limit: 8,
        value_limit: 8,
        approvals_limit: 1,
        deposit_per_byte: 1,
        attribute_deposit_base: 1,
    });
    p.create_collection(1, 10, true, false);
    p.create_item(1, 2, 20, None);
    p.set_attribute(10, 1, Some(2), AttributeNamespace::CollectionOwner, b"k".to_vec(), b"v".to_vec())
        .unwrap();
    p.set_attribute(10, 1, None, AttributeNamespace::CollectionOwner, b"c".to_vec(), b"w".to_vec())
        .unwrap();
    p
}

#[test]
fn query_layer_forwards_reads() {
    let api: Nfts<Pallet, ()> = Nfts::new(Arc::new(store()));
    assert_eq!(api.item_owner(1, 2), Some(20));
    assert_eq!(api.item_owner(1, 3), None);
    assert_eq!(api.collection_owner(1), Some(10));
    assert_eq!(api.collection_owner(2), None);
    assert_eq!(api.item_attribute(1, 2, b"k".to_vec(), None), Some(b"v".to_vec()));
    assert_eq!(api.item_attribute(1, 2, b"k".to_vec(), Some(AttributeNamespace::ItemOwner)), None);
    assert_eq!(api.item_attribute(1, 2, b"toolongkey".to_vec(), None), None);
    assert_eq!(api.collection_attribute(1, b"c".to_vec()), Some(b"w".to_vec()));
    assert_eq!(api.collection_attribute(1, b"k".to_vec()), None);
}
