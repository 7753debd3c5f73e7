use asset_core::event::AssetEventKind;
use asset_core::path::AssetPath;
use asset_core::server::{AssetServer, LoadOutcome};
use asset_core::tree::FileTree;

const CONFIG: u64 = 1;

fn tree_with(files: &[(&str, &[u8])]) -> FileTree {
    let mut tree = FileTree::new();
    for (path, bytes) in files {
        tree.insert(AssetPath::sys(path), bytes.to_vec());
    }
    tree
}

#[test]
fn burst_of_sync_signals_coalesces_into_one_commit() {
    let mut s = AssetServer::builder().add_serde(CONFIG).finish();
    s.on_init_event("sysroot".to_string(), "usrroot".to_string());
    let tree = tree_with(&[("a.json", b"{}"), ("b.json", b"{}"), ("c.json", b"{}")]);

    let mut signals = Vec::new();
    let mut strongs = Vec::new();
    for path in ["a.json", "b.json", "c.json"] {
        let (strong, load) = s.client().load(CONFIG, AssetPath::sys(path));
        let report = s.on_load_asset_event(&tree, &load.unwrap());
        assert!(matches!(report.outcome, LoadOutcome::Loaded));
        signals.push(report.sync.unwrap());
        strongs.push(strong);
    }

    // The two stale signals are skipped: a newer commit is already pending.
    assert!(s.on_sync_asset_event(&signals[0]).is_empty());
    assert!(s.on_sync_asset_event(&signals[1]).is_empty());
    for strong in &strongs {
        assert!(!s.reader().has(&strong.to_weak()));
    }

    // The matching signal commits the union of everything queued.
    let events = s.on_sync_asset_event(&signals[2]);
    assert_eq!(events.len(), 3);
    for strong in &strongs {
        assert!(s.reader().has(&strong.to_weak()));
    }

    // Re-delivering an old signal afterwards commits nothing: the queue is
    // empty.
    assert!(s.on_sync_asset_event(&signals[2]).is_empty());
}

#[test]
fn a_full_queue_overrides_the_stale_signal_skip() {
    let mut s = AssetServer::builder().add_serde(CONFIG).with_sync_queue_max(2).finish();
    s.on_init_event("sysroot".to_string(), "usrroot".to_string());
    let tree = tree_with(&[("a.json", b"{}"), ("b.json", b"{}"), ("c.json", b"{}")]);

    let mut signals = Vec::new();
    for path in ["a.json", "b.json", "c.json"] {
        let (_, load) = s.client().load(CONFIG, AssetPath::sys(path));
        let report = s.on_load_asset_event(&tree, &load.unwrap());
        signals.push(report.sync.unwrap());
    }
    // Stale, but the queue has grown past its cap: the commit runs anyway.
    let events = s.on_sync_asset_event(&signals[0]);
    assert_eq!(events.len(), 3);
}

#[test]
fn gc_never_removes_an_asset_with_a_live_strong_handle() {
    let mut s = AssetServer::builder().add_serde(CONFIG).finish();
    s.on_init_event("sysroot".to_string(), "usrroot".to_string());
    let tree = tree_with(&[("a.json", b"{}")]);
    let (strong, load) = s.client().load(CONFIG, AssetPath::sys("a.json"));
    let report = s.on_load_asset_event(&tree, &load.unwrap());
    let _ = s.on_sync_asset_event(&report.sync.unwrap());

    for _ in 0..10 {
        let unloaded = s.on_gc_assets_event();
        assert!(unloaded.is_empty());
        assert!(s.reader().has(&strong.to_weak()));
    }
}

#[test]
fn gc_removes_an_unreferenced_asset() {
    let mut s = AssetServer::builder().add_serde(CONFIG).finish();
    s.on_init_event("sysroot".to_string(), "usrroot".to_string());
    let tree = tree_with(&[("a.json", b"{}")]);
    let (strong, load) = s.client().load(CONFIG, AssetPath::sys("a.json"));
    let report = s.on_load_asset_event(&tree, &load.unwrap());
    let _ = s.on_sync_asset_event(&report.sync.unwrap());

    let weak = strong.to_weak();
    s.client().release(strong);
    let unloaded = s.on_gc_assets_event();
    assert_eq!(unloaded.len(), 1);
    assert_eq!(unloaded[0].kind, AssetEventKind::Unload);
    assert!(unloaded[0].id.is_same_asset(&weak));
    assert!(!s.reader().has(&weak));
    // A later sweep finds nothing left to do.
    assert!(s.on_gc_assets_event().is_empty());
}

#[test]
fn bounded_sweeps_drain_the_whole_table() {
    // With a window of one entry per sweep, a table of three dropped assets
    // is fully collected within three sweeps.
    let mut s = AssetServer::builder().add_serde(CONFIG).with_gc_max(1).finish();
    s.on_init_event("sysroot".to_string(), "usrroot".to_string());
    let tree = tree_with(&[("a.json", b"{}"), ("b.json", b"{}"), ("c.json", b"{}")]);

    let mut weaks = Vec::new();
    for path in ["a.json", "b.json", "c.json"] {
        let (strong, load) = s.client().load(CONFIG, AssetPath::sys(path));
        let report = s.on_load_asset_event(&tree, &load.unwrap());
        let _ = s.on_sync_asset_event(&report.sync.unwrap());
        weaks.push(strong.to_weak());
        s.client().release(strong);
    }

    let mut removed = 0;
    for _ in 0..3 {
        removed += s.on_gc_assets_event().len();
    }
    assert_eq!(removed, 3);
    for weak in &weaks {
        assert!(!s.reader().has(weak));
    }
}

#[test]
fn commit_skips_entries_whose_holder_was_dropped() {
    let mut s = AssetServer::builder().add_serde(CONFIG).finish();
    s.on_init_event("sysroot".to_string(), "usrroot".to_string());
    let tree = tree_with(&[("a.json", b"{}")]);
    let (strong, load) = s.client().load(CONFIG, AssetPath::sys("a.json"));
    let report = s.on_load_asset_event(&tree, &load.unwrap());
    let weak = strong.to_weak();
    // The only holder is gone before the commit runs: the queued entry must
    // not become resident, and no load notification fires.
    s.client().release(strong);
    let events = s.on_sync_asset_event(&report.sync.unwrap());
    assert!(events.is_empty());
    assert!(!s.reader().has(&weak));
}
