use bellhop::models::{Asset, AssetType, Lease};
use bellhop::store::{contains_id, Store, StoreError};

#[test]
fn inserts_check_keys() {
    let mut store = Store::new(Some(0));
    assert_eq!(store.insert_asset_type(AssetType::new(1, "laptop".to_string())), Ok(()));
    assert_eq!(
        store.insert_asset_type(AssetType::new(1, "phone".to_string())),
        Err(StoreError::DuplicateKey)
    );
    assert_eq!(store.insert_asset(Asset::new(10, 2, None, "x".to_string())), Err(StoreError::MissingAssetType));
    assert_eq!(store.insert_asset(Asset::new(10, 1, None, "x".to_string())), Ok(()));
    assert_eq!(store.insert_asset(Asset::new(10, 1, None, "y".to_string())), Err(StoreError::DuplicateKey));
    assert_eq!(store.insert_lease(Lease::new(3, 1, 0, None)), Ok(()));
    assert_eq!(store.insert_lease(Lease::new(3, 2, 5, Some(9))), Err(StoreError::DuplicateKey));
    assert_eq!(store.leases.len(), 1);
    assert_eq!(store.assets.len(), 1);
    assert_eq!(store.asset_types.len(), 1);
}

#[test]
fn scans_and_updates() {
    let mut store = Store::new(Some(0));
    store.insert_lease(Lease::new(1, 1, 0, Some(10))).unwrap();
    store.insert_lease(Lease::new(2, 1, 0, Some(30))).unwrap();
    store.insert_lease(Lease::new(3, 1, 0, None)).unwrap();
    let due: Vec<i32> = store.leases_due_for_eviction(20).iter().map(|l| l.id).collect();
    assert_eq!(due, vec![1]);
    store.mark_notified(2, 25);
    store.mark_notified(2, 25);
    assert_eq!(store.leases[1].last_notified(), Some(25));
    let unwarned: Vec<i32> = store.leases_due_for_notification().iter().map(|l| l.id).collect();
    assert_eq!(unwarned, vec![1]);
    assert_eq!(store.delete_leases(&vec![1, 3, 42]), 2);
    assert_eq!(store.leases.len(), 1);
    assert_eq!(store.leases[0].id(), 2);
    assert!(contains_id(&vec![4, 5], 5));
    assert!(!contains_id(&vec![], 5));
}

#[test]
fn finds_rows_by_key() {
    let mut store = Store::new(Some(0));
    store.insert_asset_type(AssetType::new(4, "t".to_string())).unwrap();
    store.insert_asset(Asset::new(1, 4, None, "a".to_string())).unwrap();
    store.insert_asset(Asset::new(2, 4, Some(9), "b".to_string())).unwrap();
    store.insert_lease(Lease::new(9, 1, 0, None)).unwrap();
    assert_eq!(store.find_asset_of_lease(9), Some(1));
    assert_eq!(store.find_asset_of_lease(8), None);
    assert_eq!(store.find_asset_type(4), Some(0));
    assert_eq!(store.find_asset(2), Some(1));
    assert_eq!(store.find_lease(9), Some(0));
    assert_eq!(store.find_lease(1), None);
}

#[test]
fn well_formedness_check() {
    let mut store = Store::new(Some(0));
    store.insert_asset_type(AssetType::new(1, "t".to_string())).unwrap();
    store.insert_asset(Asset::new(1, 1, None, "a".to_string())).unwrap();
    store.insert_lease(Lease::new(1, 1, 0, None)).unwrap();
    assert!(store.is_wf());
    store.leases.push(Lease::new(1, 2, 0, None));
    assert!(!store.is_wf());
    store.leases.pop();
    store.assets.push(Asset::new(2, 9, None, "b".to_string()));
    assert!(!store.is_wf());
}
