use asset_core::event::AssetEventKind;
use asset_core::path::AssetPath;
use asset_core::server::{AssetServer, LoadOutcome};
use asset_core::tree::FileTree;
use asset_core::value::AssetValue;

const CONFIG: u64 = 1;
const TABLE: u64 = 2;

fn tree_with(files: &[(&str, &[u8])]) -> FileTree {
    let mut tree = FileTree::new();
    for (path, bytes) in files {
        tree.insert(AssetPath::sys(path), bytes.to_vec());
    }
    tree
}

#[test]
fn editing_a_file_below_a_table_directory_retriggers_the_table() {
    let mut s = AssetServer::builder()
        .add_serde(CONFIG)
        .add_strong_table(TABLE, CONFIG)
        .finish();
    s.on_init_event("sysroot".to_string(), "usrroot".to_string());
    let mut tree = tree_with(&[("assets/a.json", b"{}"), ("assets/b.json", b"{}")]);

    let (table, load) = s.client().load(TABLE, AssetPath::sys("assets"));
    let report = s.on_load_asset_event(&tree, &load.unwrap());
    assert!(matches!(report.outcome, LoadOutcome::Loaded));
    let first_batch = s.on_sync_asset_event(&report.sync.unwrap());
    assert_eq!(first_batch.len(), 3);

    // A file two levels under the directory changes. No per-file asset is
    // registered for it; walking up to the parent directories finds the
    // table.
    tree.insert(AssetPath::sys("assets/sub/deep.json"), b"{\"v\": 2}".to_vec());
    let changed = vec!["sysroot/assets/sub/deep.json".to_string()];
    let reloads = s.on_notify_assets_event(&changed);
    assert_eq!(reloads.len(), 1);
    assert!(reloads[0].force);
    assert!(reloads[0].id.is_same_asset(&table.to_weak()));

    // Re-submitting the matched identity re-runs the table's loader, and the
    // table's load event fires again with an unchanged child count: the
    // edited file is not a direct child.
    let report = s.on_load_asset_event(&tree, &reloads[0]);
    assert!(matches!(report.outcome, LoadOutcome::Loaded));
    let second_batch = s.on_sync_asset_event(&report.sync.unwrap());
    assert_eq!(second_batch.len(), 1);
    assert_eq!(second_batch[0].kind, AssetEventKind::Load);
    assert!(second_batch[0].id.is_same_asset(&table.to_weak()));
    match s.reader().try_get(table.untyped()) {
        Some(AssetValue::Table(t)) => assert_eq!(t.len(), 2),
        _ => panic!("expected the reloaded table"),
    }
}

#[test]
fn changes_outside_both_roots_match_nothing() {
    let mut s = AssetServer::builder().add_serde(CONFIG).finish();
    s.on_init_event("sysroot".to_string(), "usrroot".to_string());
    let changed = vec!["/tmp-elsewhere/file.json".to_string()];
    let reloads = s.on_notify_assets_event(&changed);
    assert!(reloads.is_empty());
}

#[test]
fn a_changed_file_that_is_itself_an_asset_is_reloaded_in_place() {
    let mut s = AssetServer::builder().add_serde(CONFIG).finish();
    s.on_init_event("sysroot".to_string(), "usrroot".to_string());
    let mut tree = tree_with(&[("a.json", b"{\"v\": 1}")]);
    let (strong, load) = s.client().load(CONFIG, AssetPath::sys("a.json"));
    let report = s.on_load_asset_event(&tree, &load.unwrap());
    let _ = s.on_sync_asset_event(&report.sync.unwrap());

    tree.insert(AssetPath::sys("a.json"), b"{\"v\": 2}".to_vec());
    let reloads = s.on_notify_assets_event(&vec!["sysroot/a.json".to_string()]);
    assert_eq!(reloads.len(), 1);
    assert!(reloads[0].force);
    let report = s.on_load_asset_event(&tree, &reloads[0]);
    assert!(matches!(report.outcome, LoadOutcome::Loaded));
    let _ = s.on_sync_asset_event(&report.sync.unwrap());
    match s.reader().try_get(strong.untyped()) {
        Some(AssetValue::Doc(asset_core::value::JsonValue::Obj(fields))) => {
            assert!(matches!(&fields[0].1, asset_core::value::JsonValue::Num(n) if n == "2"));
        },
        _ => panic!("expected the reloaded document"),
    }
}
