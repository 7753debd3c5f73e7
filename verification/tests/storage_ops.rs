use asset_core::event::AssetEventKind;
use asset_core::path::RelPath;
use asset_core::value::{AssetTable, TableStrength};
use asset_core::id::WeakAssetId;
use asset_core::path::AssetPath;
use asset_core::server::{AssetServer, LoadOutcome};
use asset_core::tree::FileTree;
use asset_core::value::AssetValue;

const CONFIG: u64 = 1;

fn server() -> AssetServer {
    let s = AssetServer::builder().add_serde(CONFIG).finish();
    let mut s = s;
    s.on_init_event("sysroot".to_string(), "usrroot".to_string());
    s
}

fn tree_with(files: &[(&str, &[u8])]) -> FileTree {
    let mut tree = FileTree::new();
    for (path, bytes) in files {
        tree.insert(AssetPath::sys(path), bytes.to_vec());
    }
    tree
}

#[test]
fn upgrade_then_to_weak_is_identity_equal() {
    let mut s = server();
    let weak = WeakAssetId::path(CONFIG, AssetPath::sys("a.json"));
    let (strong, _load) = s.client().upgrade(&weak);
    assert!(strong.to_weak().is_same_asset(&weak));
}

#[test]
fn try_loaded_succeeds_only_once_resident() {
    let mut s = server();
    let tree = tree_with(&[("a.json", b"{\"v\": 1}")]);
    let (strong, load) = s.client().load(CONFIG, AssetPath::sys("a.json"));
    // Registered but not resident: no loaded handle yet.
    assert!(s.reader().try_loaded(&strong).is_none());

    let report = s.on_load_asset_event(&tree, &load.unwrap());
    assert!(matches!(report.outcome, LoadOutcome::Loaded));
    // Queued but not committed: still not resident.
    assert!(s.reader().try_loaded(&strong).is_none());

    let events = s.on_sync_asset_event(&report.sync.unwrap());
    assert_eq!(events.len(), 1);
    assert_eq!(events[0].kind, AssetEventKind::Load);
    let loaded = s.reader().try_loaded(&strong).unwrap();
    // A loaded handle dereferences without a fallibility check.
    match s.reader().get(&loaded) {
        AssetValue::Doc(_) => {},
        _ => panic!("expected the parsed document"),
    }
    assert!(loaded.as_strong().is_same_asset(&strong));
}

#[test]
fn try_upgrade_has_no_side_effects_for_unknown_ids() {
    let mut s = server();
    let weak = WeakAssetId::uuid(CONFIG, 42);
    assert!(s.client().try_upgrade(&weak).is_none());
    // A registered identity upgrades fine.
    let (strong, _) = s.client().upgrade(&weak);
    assert!(s.client().try_upgrade(&weak).is_some());
    assert!(strong.to_weak().is_same_asset(&weak));
}

#[test]
fn store_publishes_an_in_memory_value() {
    let mut s = server();
    let weak = WeakAssetId::uuid(CONFIG, 7);
    let (strong, store_event) = s.client().store(weak, AssetValue::Blob(vec![1, 2, 3]));
    let sync = s.on_store_asset_event(store_event);
    let events = s.on_sync_asset_event(&sync);
    assert_eq!(events.len(), 1);
    assert_eq!(events[0].kind, AssetEventKind::Load);
    assert!(events[0].id.is_same_asset(&strong.to_weak()));
    match s.reader().try_get(strong.untyped()) {
        Some(AssetValue::Blob(b)) => assert_eq!(b, &vec![1, 2, 3]),
        _ => panic!("expected the stored bytes"),
    }
}

#[test]
fn clone_strong_counts_another_holder() {
    let mut s = server();
    let weak = WeakAssetId::uuid(CONFIG, 9);
    let (strong, _) = s.client().upgrade(&weak);
    let second = s.client().clone_strong(&strong);
    // Releasing one of the two holders keeps the registration alive: a later
    // upgrade still finds it.
    s.client().release(strong);
    assert!(s.client().try_upgrade(&second.to_weak()).is_some());
}

#[test]
fn a_weak_table_upgrades_and_confirms_residency() {
    let mut s = server();
    let tree = tree_with(&[("dir/a.json", b"{}"), ("dir/b.json", b"{}")]);

    let mut table = AssetTable::empty(TableStrength::Weak);
    for name in ["dir/a.json", "dir/b.json"] {
        table.push(RelPath::new(name), WeakAssetId::path(CONFIG, AssetPath::sys(name)));
    }

    // Upgrading registers every entry; both were unfamiliar, so both raise a
    // load request.
    let (strong_table, requests) = s.client().upgrade_table(&table);
    assert_eq!(strong_table.strength(), TableStrength::Strong);
    assert_eq!(strong_table.len(), 2);
    assert_eq!(requests.len(), 2);

    // Not yet resident: no loaded view.
    assert!(s.reader().try_loaded_table(&strong_table).is_none());

    for request in &requests {
        let report = s.on_load_asset_event(&tree, request);
        let events = s.on_sync_asset_event(&report.sync.unwrap());
        assert_eq!(events.len(), 1);
    }
    let loaded = s.reader().try_loaded_table(&strong_table).unwrap();
    assert_eq!(loaded.strength(), TableStrength::Loaded);
    assert_eq!(loaded.len(), 2);
}

#[test]
fn has_reports_residency_only() {
    let mut s = server();
    let tree = tree_with(&[("a.json", b"{}")]);
    let (strong, load) = s.client().load(CONFIG, AssetPath::sys("a.json"));
    assert!(!s.reader().has(&strong.to_weak()));
    let report = s.on_load_asset_event(&tree, &load.unwrap());
    let _ = s.on_sync_asset_event(&report.sync.unwrap());
    assert!(s.reader().has(&strong.to_weak()));
}

#[test]
fn storing_the_same_identity_twice_keeps_the_later_value() {
    let mut s = server();
    let weak = WeakAssetId::uuid(CONFIG, 11);
    let (_, first) = s.client().store(weak.clone(), AssetValue::Blob(vec![1]));
    let (strong, second) = s.client().store(weak, AssetValue::Blob(vec![2]));
    let _ = s.on_store_asset_event(first);
    let sync = s.on_store_asset_event(second);
    let events = s.on_sync_asset_event(&sync);
    // Both entries were queued; the later one wins, and both notifications
    // fire in the one sweep.
    assert_eq!(events.len(), 2);
    match s.reader().try_get(strong.untyped()) {
        Some(AssetValue::Blob(b)) => assert_eq!(b, &vec![2]),
        _ => panic!("expected the later value"),
    }
}
