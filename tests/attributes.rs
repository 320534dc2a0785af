use pallet_nfts::ledger::AccountBalance;
use pallet_nfts::reads::DefaultNamespacePrecedence;
use pallet_nfts::store::{Event, ItemConfig, Pallet, PalletConfig};
use pallet_nfts::types::{AttributeNamespace, Error};

const COLLECTION: u32 = 0;
const ITEM: u32 = 7;
const OWNER: u64 = 1;
const STRANGER: u64 = 2;
const ITEM_OWNER: u64 = 3;
const DELEGATE: u64 = 4;

fn config() -> PalletConfig {
    PalletConfig {
        attributes_enabled: true,
        key_limit: 64,
        value_limit: 256,
        approvals_limit: 2,
        deposit_per_byte: 10,
        attribute_deposit_base: 100,
    }
}

fn store_with(deposit_required: bool, item_unlocked: bool) -> Pallet {
    let mut p = Pallet::new(config());
    p.create_collection(COLLECTION, OWNER, true, deposit_required);
    p.create_item(COLLECTION, ITEM, ITEM_OWNER, Some(ItemConfig { unlocked_attributes: item_unlocked }));
    p.fund(OWNER, 10_000);
    p.fund(STRANGER, 10_000);
    p.fund(ITEM_OWNER, 10_000);
    p.fund(DELEGATE, 1_000);
    p
}

fn b(s: &str) -> Vec<u8> {
    s.as_bytes().to_vec()
}

fn read(p: &Pallet, ns: AttributeNamespace, key: &str) -> Option<Vec<u8>> {
    p.attribute::<DefaultNamespacePrecedence>(COLLECTION, ITEM, &b(key), Some(ns))
}

#[test]
fn owner_attribute_deposit_tracked_on_collection() {
    let mut p = store_with(true, true);
    let ns = AttributeNamespace::CollectionOwner;
    assert_eq!(p.set_attribute(OWNER, COLLECTION, Some(ITEM), ns, b("color"), b("red")), Ok(()));
    // 10 per byte for 8 bytes, plus 100.
    let d = p.get_collection(COLLECTION).unwrap();
    assert_eq!(d.owner_deposit, 180);
    assert_eq!(d.attributes, 1);
    assert_eq!(p.ledger.balance(OWNER), AccountBalance { free: 9_820, reserved: 180 });

    assert_eq!(p.set_attribute(OWNER, COLLECTION, Some(ITEM), ns, b("color"), b("blue")), Ok(()));
    let d = p.get_collection(COLLECTION).unwrap();
    assert_eq!(d.owner_deposit, 190);
    assert_eq!(d.attributes, 1);
    assert_eq!(p.ledger.balance(OWNER), AccountBalance { free: 9_810, reserved: 190 });
    assert_eq!(p.attributes.len(), 1);
    assert_eq!(read(&p, ns, "color"), Some(b("blue")));

    assert_eq!(
        p.set_attribute(STRANGER, COLLECTION, Some(ITEM), ns, b("color"), b("green")),
        Err(Error::NoPermission)
    );
    assert_eq!(read(&p, ns, "color"), Some(b("blue")));
}

#[test]
fn owner_attribute_without_required_deposit_is_free() {
    let mut p = store_with(false, true);
    let ns = AttributeNamespace::CollectionOwner;
    assert_eq!(p.set_attribute(OWNER, COLLECTION, Some(ITEM), ns, b("color"), b("red")), Ok(()));
    assert_eq!(p.get_collection(COLLECTION).unwrap().owner_deposit, 0);
    assert_eq!(p.ledger.balance(OWNER), AccountBalance { free: 10_000, reserved: 0 });
}

#[test]
fn delegate_attribute_released_on_cancel() {
    let mut p = store_with(false, true);
    let ns = AttributeNamespace::Account(DELEGATE);
    assert_eq!(p.approve_item_attributes(ITEM_OWNER, COLLECTION, ITEM, DELEGATE), Ok(()));
    assert_eq!(p.set_attribute(DELEGATE, COLLECTION, Some(ITEM), ns, b("k"), b("v")), Ok(()));
    assert_eq!(p.ledger.balance(DELEGATE), AccountBalance { free: 880, reserved: 120 });
    assert_eq!(read(&p, ns, "k"), Some(b("v")));

    assert_eq!(p.cancel_item_attributes_approval(ITEM_OWNER, COLLECTION, ITEM, DELEGATE, 1), Ok(()));
    assert_eq!(p.ledger.balance(DELEGATE), AccountBalance { free: 1_000, reserved: 0 });
    assert_eq!(read(&p, ns, "k"), None);
    assert!(!p.is_approved(COLLECTION, ITEM, DELEGATE));
    assert_eq!(
        p.set_attribute(DELEGATE, COLLECTION, Some(ITEM), ns, b("k"), b("v")),
        Err(Error::NoPermission)
    );
}

#[test]
fn cancel_with_short_witness_changes_nothing() {
    let mut p = store_with(false, true);
    let ns = AttributeNamespace::Account(DELEGATE);
    p.approve_item_attributes(ITEM_OWNER, COLLECTION, ITEM, DELEGATE).unwrap();
    p.set_attribute(DELEGATE, COLLECTION, Some(ITEM), ns, b("a"), b("1")).unwrap();
    p.set_attribute(DELEGATE, COLLECTION, Some(ITEM), ns, b("b"), b("2")).unwrap();
    assert_eq!(
        p.cancel_item_attributes_approval(ITEM_OWNER, COLLECTION, ITEM, DELEGATE, 1),
        Err(Error::BadWitness)
    );
    assert_eq!(read(&p, ns, "a"), Some(b("1")));
    assert!(p.is_approved(COLLECTION, ITEM, DELEGATE));
    assert_eq!(p.ledger.balance(DELEGATE).reserved, 240);
    assert_eq!(p.cancel_item_attributes_approval(ITEM_OWNER, COLLECTION, ITEM, DELEGATE, 5), Ok(()));
    assert_eq!(p.ledger.balance(DELEGATE).reserved, 0);
}

#[test]
fn new_key_counts_once() {
    let mut p = store_with(false, true);
    let ns = AttributeNamespace::ItemOwner;
    p.set_attribute(ITEM_OWNER, COLLECTION, Some(ITEM), ns, b("a"), b("1")).unwrap();
    assert_eq!(p.get_collection(COLLECTION).unwrap().attributes, 1);
    p.set_attribute(ITEM_OWNER, COLLECTION, Some(ITEM), ns, b("a"), b("2")).unwrap();
    assert_eq!(p.get_collection(COLLECTION).unwrap().attributes, 1);
    p.set_attribute(ITEM_OWNER, COLLECTION, Some(ITEM), ns, b("b"), b("2")).unwrap();
    assert_eq!(p.get_collection(COLLECTION).unwrap().attributes, 2);
}

#[test]
fn item_owner_deposit_follows_value_size() {
    let mut p = store_with(false, true);
    let ns = AttributeNamespace::ItemOwner;
    p.set_attribute(ITEM_OWNER, COLLECTION, Some(ITEM), ns, b("ab"), b("12345678")).unwrap();
    assert_eq!(p.ledger.balance(ITEM_OWNER), AccountBalance { free: 9_800, reserved: 200 });
    p.set_attribute(ITEM_OWNER, COLLECTION, Some(ITEM), ns, b("ab"), b("1")).unwrap();
    assert_eq!(p.ledger.balance(ITEM_OWNER), AccountBalance { free: 9_870, reserved: 130 });
    p.clear_attribute(Some(ITEM_OWNER), COLLECTION, Some(ITEM), ns, b("ab")).unwrap();
    assert_eq!(p.ledger.balance(ITEM_OWNER), AccountBalance { free: 10_000, reserved: 0 });
}

#[test]
fn new_item_owner_takes_over_deposit() {
    let mut p = store_with(false, true);
    let ns = AttributeNamespace::ItemOwner;
    p.set_attribute(ITEM_OWNER, COLLECTION, Some(ITEM), ns, b("a"), b("1")).unwrap();
    p.create_item(COLLECTION, ITEM, STRANGER, Some(ItemConfig { unlocked_attributes: true }));
    p.set_attribute(STRANGER, COLLECTION, Some(ITEM), ns, b("a"), b("22")).unwrap();
    assert_eq!(p.ledger.balance(ITEM_OWNER), AccountBalance { free: 10_000, reserved: 0 });
    assert_eq!(p.ledger.balance(STRANGER), AccountBalance { free: 9_870, reserved: 130 });
}

#[test]
fn clear_missing_key_fails_and_changes_nothing() {
    let mut p = store_with(false, true);
    let ns = AttributeNamespace::ItemOwner;
    p.set_attribute(ITEM_OWNER, COLLECTION, Some(ITEM), ns, b("a"), b("1")).unwrap();
    assert_eq!(
        p.clear_attribute(Some(ITEM_OWNER), COLLECTION, Some(ITEM), ns, b("zz")),
        Err(Error::AttributeNotFound)
    );
    assert_eq!(p.get_collection(COLLECTION).unwrap().attributes, 1);
    assert_eq!(p.ledger.balance(ITEM_OWNER).reserved, 120);
    assert_eq!(p.clear_attribute(None, COLLECTION, Some(ITEM), ns, b("a")), Ok(()));
    assert_eq!(p.clear_attribute(None, COLLECTION, Some(ITEM), ns, b("a")), Err(Error::AttributeNotFound));
}

#[test]
fn outsider_is_refused_in_every_namespace() {
    let mut p = store_with(false, true);
    for ns in [
        AttributeNamespace::CollectionOwner,
        AttributeNamespace::ItemOwner,
        AttributeNamespace::Account(DELEGATE),
        AttributeNamespace::Account(STRANGER),
        AttributeNamespace::Pallet,
    ] {
        assert_eq!(
            p.set_attribute(STRANGER, COLLECTION, Some(ITEM), ns, b("a"), b("1")),
            Err(Error::NoPermission)
        );
    }
    p.set_attribute(ITEM_OWNER, COLLECTION, Some(ITEM), AttributeNamespace::ItemOwner, b("a"), b("1"))
        .unwrap();
    assert_eq!(
        p.clear_attribute(Some(STRANGER), COLLECTION, Some(ITEM), AttributeNamespace::ItemOwner, b("a")),
        Err(Error::NoPermission)
    );
    assert_eq!(read(&p, AttributeNamespace::ItemOwner, "a"), Some(b("1")));
}

#[test]
fn locked_item_refuses_owner_attributes() {
    let mut p = store_with(false, true);
    let ns = AttributeNamespace::CollectionOwner;
    p.set_attribute(OWNER, COLLECTION, Some(ITEM), ns, b("a"), b("1")).unwrap();
    p.create_item(COLLECTION, ITEM, ITEM_OWNER, Some(ItemConfig { unlocked_attributes: false }));
    assert_eq!(
        p.set_attribute(OWNER, COLLECTION, Some(ITEM), ns, b("a"), b("2")),
        Err(Error::LockedItemAttributes)
    );
    assert_eq!(
        p.clear_attribute(Some(OWNER), COLLECTION, Some(ITEM), ns, b("a")),
        Err(Error::LockedItemAttributes)
    );
    // Other namespaces are not locked.
    assert_eq!(
        p.set_attribute(ITEM_OWNER, COLLECTION, Some(ITEM), AttributeNamespace::ItemOwner, b("a"), b("2")),
        Ok(())
    );
    // An item whose settings are gone is treated as unlocked.
    p.create_item(COLLECTION, ITEM, ITEM_OWNER, None);
    assert_eq!(p.set_attribute(OWNER, COLLECTION, Some(ITEM), ns, b("a"), b("3")), Ok(()));
    assert_eq!(p.clear_attribute(Some(OWNER), COLLECTION, Some(ITEM), ns, b("a")), Ok(()));
}

#[test]
fn locked_collection_refuses_owner_attributes() {
    let mut p = Pallet::new(config());
    p.create_collection(COLLECTION, OWNER, false, false);
    assert_eq!(
        p.set_attribute(OWNER, COLLECTION, None, AttributeNamespace::CollectionOwner, b("a"), b("1")),
        Err(Error::LockedCollectionAttributes)
    );
}

#[test]
fn set_then_read_then_clear_round_trip() {
    let mut p = store_with(false, true);
    let ns = AttributeNamespace::ItemOwner;
    p.set_attribute(ITEM_OWNER, COLLECTION, Some(ITEM), ns, b("k"), b("value")).unwrap();
    assert_eq!(read(&p, ns, "k"), Some(b("value")));
    p.clear_attribute(Some(ITEM_OWNER), COLLECTION, Some(ITEM), ns, b("k")).unwrap();
    assert_eq!(read(&p, ns, "k"), None);
    assert_eq!(p.get_collection(COLLECTION).unwrap().attributes, 0);
}

#[test]
fn collection_level_round_trip() {
    let mut p = store_with(false, true);
    let ns = AttributeNamespace::CollectionOwner;
    p.set_attribute(OWNER, COLLECTION, None, ns, b("k"), b("v")).unwrap();
    assert_eq!(p.collection_attribute(COLLECTION, &b("k")), Some(b("v")));
    p.clear_attribute(Some(OWNER), COLLECTION, None, ns, b("k")).unwrap();
    assert_eq!(p.collection_attribute(COLLECTION, &b("k")), None);
}

#[test]
fn approval_limit_boundary() {
    let mut p = store_with(false, true);
    assert_eq!(p.approve_item_attributes(ITEM_OWNER, COLLECTION, ITEM, 10), Ok(()));
    assert_eq!(p.approve_item_attributes(ITEM_OWNER, COLLECTION, ITEM, 11), Ok(()));
    assert_eq!(p.approve_item_attributes(ITEM_OWNER, COLLECTION, ITEM, 11), Ok(()));
    assert_eq!(
        p.approve_item_attributes(ITEM_OWNER, COLLECTION, ITEM, 12),
        Err(Error::ReachedApprovalLimit)
    );
    assert_eq!(p.approvals_len(COLLECTION, ITEM), 2);
    assert!(!p.is_approved(COLLECTION, ITEM, 12));
}

#[test]
fn approve_checks_item_and_owner() {
    let mut p = store_with(false, true);
    assert_eq!(p.approve_item_attributes(STRANGER, COLLECTION, ITEM, DELEGATE), Err(Error::NoPermission));
    assert_eq!(p.approve_item_attributes(ITEM_OWNER, COLLECTION, 99, DELEGATE), Err(Error::UnknownItem));
    assert_eq!(
        p.cancel_item_attributes_approval(STRANGER, COLLECTION, ITEM, DELEGATE, 0),
        Err(Error::NoPermission)
    );
}

#[test]
fn disabled_attributes_refuse_writes() {
    let mut cfg = config();
    cfg.attributes_enabled = false;
    let mut p = Pallet::new(cfg);
    p.create_collection(COLLECTION, OWNER, true, false);
    p.create_item(COLLECTION, ITEM, ITEM_OWNER, None);
    assert_eq!(
        p.set_attribute(OWNER, COLLECTION, None, AttributeNamespace::CollectionOwner, b("a"), b("1")),
        Err(Error::MethodDisabled)
    );
    assert_eq!(p.approve_item_attributes(ITEM_OWNER, COLLECTION, ITEM, DELEGATE), Err(Error::MethodDisabled));
}

#[test]
fn unknown_collection_and_item() {
    let mut p = store_with(false, true);
    assert_eq!(
        p.set_attribute(OWNER, 5, None, AttributeNamespace::CollectionOwner, b("a"), b("1")),
        Err(Error::UnknownCollection)
    );
    assert_eq!(
        p.set_attribute(ITEM_OWNER, COLLECTION, Some(99), AttributeNamespace::ItemOwner, b("a"), b("1")),
        Err(Error::UnknownItem)
    );
    assert_eq!(p.force_set_attribute(None, 5, None, AttributeNamespace::Pallet, b("a"), b("1")), Err(Error::UnknownCollection));
}

#[test]
fn insufficient_funds_changes_nothing() {
    let mut p = store_with(false, true);
    let ns = AttributeNamespace::Account(DELEGATE);
    p.approve_item_attributes(ITEM_OWNER, COLLECTION, ITEM, DELEGATE).unwrap();
    let big = vec![0u8; 200];
    assert_eq!(
        p.set_attribute(DELEGATE, COLLECTION, Some(ITEM), ns, b("k"), big),
        Err(Error::InsufficientFunds)
    );
    assert_eq!(p.ledger.balance(DELEGATE), AccountBalance { free: 1_000, reserved: 0 });
    assert_eq!(read(&p, ns, "k"), None);
    assert_eq!(p.get_collection(COLLECTION).unwrap().attributes, 0);
}

#[test]
fn construct_checks_limits() {
    let p = Pallet::new(config());
    assert_eq!(p.construct_attribute_key(vec![1u8; 64]), Ok(vec![1u8; 64]));
    assert_eq!(p.construct_attribute_key(vec![1u8; 65]), Err(Error::IncorrectData));
    assert_eq!(p.construct_attribute_value(vec![2u8; 256]), Ok(vec![2u8; 256]));
    assert_eq!(p.construct_attribute_value(vec![2u8; 257]), Err(Error::IncorrectData));
}

#[test]
fn force_set_returns_other_payers_deposit() {
    let mut p = store_with(false, true);
    let ns = AttributeNamespace::ItemOwner;
    p.set_attribute(ITEM_OWNER, COLLECTION, Some(ITEM), ns, b("a"), b("1")).unwrap();
    assert_eq!(p.ledger.balance(ITEM_OWNER).reserved, 120);
    assert_eq!(p.force_set_attribute(None, COLLECTION, Some(ITEM), ns, b("a"), b("forced")), Ok(()));
    assert_eq!(p.ledger.balance(ITEM_OWNER), AccountBalance { free: 10_000, reserved: 0 });
    assert_eq!(read(&p, ns, "a"), Some(b("forced")));
    assert_eq!(p.get_collection(COLLECTION).unwrap().attributes, 1);
    assert_eq!(p.force_set_attribute(None, COLLECTION, Some(ITEM), AttributeNamespace::Pallet, b("p"), b("x")), Ok(()));
    assert_eq!(p.get_collection(COLLECTION).unwrap().attributes, 2);
}

#[test]
fn default_precedence_prefers_collection_owner() {
    let mut p = store_with(false, true);
    let key = b("k");
    assert_eq!(p.attribute::<DefaultNamespacePrecedence>(COLLECTION, ITEM, &key, None), None);
    p.force_set_attribute(None, COLLECTION, Some(ITEM), AttributeNamespace::Pallet, b("k"), b("pallet")).unwrap();
    assert_eq!(p.attribute::<DefaultNamespacePrecedence>(COLLECTION, ITEM, &key, None), Some(b("pallet")));
    p.set_attribute(ITEM_OWNER, COLLECTION, Some(ITEM), AttributeNamespace::ItemOwner, b("k"), b("item")).unwrap();
    assert_eq!(p.attribute::<DefaultNamespacePrecedence>(COLLECTION, ITEM, &key, None), Some(b("item")));
    p.set_attribute(OWNER, COLLECTION, Some(ITEM), AttributeNamespace::CollectionOwner, b("k"), b("owner")).unwrap();
    assert_eq!(p.attribute::<DefaultNamespacePrecedence>(COLLECTION, ITEM, &key, None), Some(b("owner")));
    p.approve_item_attributes(ITEM_OWNER, COLLECTION, ITEM, DELEGATE).unwrap();
    p.set_attribute(DELEGATE, COLLECTION, Some(ITEM), AttributeNamespace::Account(DELEGATE), b("d"), b("x")).unwrap();
    assert_eq!(p.attribute::<DefaultNamespacePrecedence>(COLLECTION, ITEM, &b("d"), None), None);
}

#[test]
fn empty_key_reads_metadata() {
    let mut p = store_with(false, true);
    assert_eq!(p.attribute::<DefaultNamespacePrecedence>(COLLECTION, ITEM, &Vec::new(), None), None);
    p.set_item_metadata(COLLECTION, ITEM, b("item meta"));
    p.set_collection_metadata(COLLECTION, b("coll meta"));
    assert_eq!(p.attribute::<DefaultNamespacePrecedence>(COLLECTION, ITEM, &Vec::new(), None), Some(b("item meta")));
    assert_eq!(p.collection_attribute(COLLECTION, &Vec::new()), Some(b("coll meta")));
}

#[test]
fn clear_by_root_releases_owner_deposit() {
    let mut p = store_with(true, true);
    let ns = AttributeNamespace::CollectionOwner;
    p.set_attribute(OWNER, COLLECTION, None, ns, b("k"), b("v")).unwrap();
    assert_eq!(p.get_collection(COLLECTION).unwrap().owner_deposit, 120);
    p.clear_attribute(None, COLLECTION, None, ns, b("k")).unwrap();
    assert_eq!(p.get_collection(COLLECTION).unwrap().owner_deposit, 0);
    assert_eq!(p.ledger.balance(OWNER), AccountBalance { free: 10_000, reserved: 0 });
}

#[test]
fn unreserve_releases_no_more_than_held() {
    let mut p = Pallet::new(config());
    p.fund(OWNER, 50);
    assert_eq!(p.ledger.reserve(OWNER, 30), Ok(()));
    assert_eq!(p.ledger.reserve(OWNER, 30), Err(Error::InsufficientFunds));
    assert_eq!(p.ledger.unreserve(OWNER, 40), 10);
    assert_eq!(p.ledger.balance(OWNER), AccountBalance { free: 50, reserved: 0 });
}

#[test]
fn deposit_saturates() {
    let mut cfg = config();
    cfg.deposit_per_byte = u64::MAX / 2;
    let mut p = Pallet::new(cfg);
    p.create_collection(COLLECTION, OWNER, true, true);
    p.fund(OWNER, u64::MAX);
    let d = p.get_collection(COLLECTION).unwrap();
    assert_eq!(p.attribute_deposit(d, AttributeNamespace::CollectionOwner, 4), u64::MAX);
    assert_eq!(p.attribute_deposit(d, AttributeNamespace::CollectionOwner, 1), u64::MAX / 2 + 100);
}

#[test]
fn mutations_emit_events() {
    let mut p = store_with(false, true);
    let ns = AttributeNamespace::ItemOwner;
    p.set_attribute(ITEM_OWNER, COLLECTION, Some(ITEM), ns, b("k"), b("v")).unwrap();
    assert!(matches!(
        p.events.last(),
        Some(Event::AttributeSet { collection: 0, maybe_item: Some(7), key, value, namespace: AttributeNamespace::ItemOwner })
            if *key == b("k") && *value == b("v")
    ));
    p.clear_attribute(None, COLLECTION, Some(ITEM), ns, b("k")).unwrap();
    assert!(matches!(
        p.events.last(),
        Some(Event::AttributeCleared { collection: 0, maybe_item: Some(7), key, namespace: AttributeNamespace::ItemOwner })
            if *key == b("k")
    ));
    p.approve_item_attributes(ITEM_OWNER, COLLECTION, ITEM, DELEGATE).unwrap();
    assert!(matches!(
        p.events.last(),
        Some(Event::ItemAttributesApprovalAdded { collection: 0, item: 7, delegate: DELEGATE })
    ));
    p.cancel_item_attributes_approval(ITEM_OWNER, COLLECTION, ITEM, DELEGATE, 0).unwrap();
    assert!(matches!(
        p.events.last(),
        Some(Event::ItemAttributesApprovalRemoved { collection: 0, item: 7, delegate: DELEGATE })
    ));
    assert_eq!(p.events.len(), 4);
    assert_eq!(
        p.clear_attribute(None, COLLECTION, Some(ITEM), ns, b("k")),
        Err(Error::AttributeNotFound)
    );
    assert_eq!(p.events.len(), 4);
}
