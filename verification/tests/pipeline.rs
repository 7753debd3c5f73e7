use asset_core::event::{AssetEventKind, LoadAssetEvent};
use asset_core::id::WeakAssetId;
use asset_core::loader::LoadError;
use asset_core::path::AssetPath;
use asset_core::server::{AssetServer, LoadOutcome};
use asset_core::tree::FileTree;
use asset_core::value::{AssetValue, JsonValue, TableStrength};

const CONFIG: u64 = 1;
const TABLE: u64 = 2;
const NOTES: u64 = 3;
const RAW: u64 = 4;

fn server() -> AssetServer {
    let s = AssetServer::builder()
        .add_serde(CONFIG)
        .add_strong_table(TABLE, CONFIG)
        .add(NOTES, asset_core::loader::LoaderKind::Text)
        .add(RAW, asset_core::loader::LoaderKind::Blob);
    let mut s = s.finish();
    s.on_init_event("sysroot".to_string(), "usrroot".to_string());
    s
}

fn tree_with(files: &[(&str, &[u8])]) -> FileTree {
    let mut tree = FileTree::new();
    for (path, bytes) in files {
        tree.insert(AssetPath::sys(path), bytes.to_vec());
    }
    tree
}

#[test]
fn end_to_end_config_with_embedded_strong_reference() {
    let mut s = server();
    let tree = tree_with(&[
        (
            "config.json",
            b"{\"title\": \"root\", \"child\": {\"$asset\": \"sys://child.json\", \"$type\": 1}}",
        ),
        ("child.json", b"{\"v\": 2}"),
    ]);
    let (root, load) = s.client().load(CONFIG, AssetPath::sys("config.json"));
    let report = s.on_load_asset_event(&tree, &load.unwrap());
    assert!(matches!(report.outcome, LoadOutcome::Loaded));

    let events = s.on_sync_asset_event(&report.sync.unwrap());
    let child = WeakAssetId::path(CONFIG, AssetPath::sys("child.json"));
    // Both appear resident after one commit cycle.
    assert!(s.reader().has(&root.to_weak()));
    assert!(s.reader().has(&child));
    // The child's load event comes before the parent's, in the same batch.
    assert_eq!(events.len(), 2);
    assert!(events[0].id.is_same_asset(&child));
    assert!(events[1].id.is_same_asset(&root.to_weak()));
    assert!(events.iter().all(|e| e.kind == AssetEventKind::Load));
}

#[test]
fn dependency_failure_rolls_the_whole_batch_back() {
    let mut s = server();
    // The root names one dependency that loads fine and one that is missing;
    // the loader discovers both, the pipeline loads them in turn, and the
    // missing one must discard everything the request produced.
    let tree = tree_with(&[
        (
            "root.json",
            b"{\"ok\": {\"$asset\": \"sys://ok.json\", \"$type\": 1}, \
               \"bad\": {\"$asset\": \"sys://missing.json\", \"$type\": 1}}",
        ),
        ("ok.json", b"{}"),
    ]);
    let (root, load) = s.client().load(CONFIG, AssetPath::sys("root.json"));
    let report = s.on_load_asset_event(&tree, &load.unwrap());
    match report.outcome {
        LoadOutcome::DependencyFailed(dep, err) => {
            assert_eq!(err, LoadError::MissingFile);
            let missing = WeakAssetId::path(CONFIG, AssetPath::sys("missing.json"));
            assert!(dep.is_same_asset(&missing));
        },
        _ => panic!("expected a dependency failure"),
    }
    assert!(report.sync.is_none());

    // No sync signal was raised; even a matching manual commit installs
    // nothing from the rolled-back batch.
    let events = s.on_sync_asset_event(&asset_core::event::SyncAssetEvent { sync: 0 });
    assert!(events.is_empty());
    assert!(!s.reader().has(&root.to_weak()));
    let ok_dep = WeakAssetId::path(CONFIG, AssetPath::sys("ok.json"));
    assert!(!s.reader().has(&ok_dep));
}

#[test]
fn root_failure_queues_nothing() {
    let mut s = server();
    let tree = tree_with(&[]);
    let (root, load) = s.client().load(CONFIG, AssetPath::sys("absent.json"));
    let report = s.on_load_asset_event(&tree, &load.unwrap());
    assert!(matches!(report.outcome, LoadOutcome::RootFailed(LoadError::MissingFile)));
    assert!(report.sync.is_none());
    assert!(!s.reader().has(&root.to_weak()));
}

#[test]
fn error_taxonomy_of_the_structured_loader() {
    let mut s = server();
    let tree = tree_with(&[
        ("noext", b"{}"),
        ("config.toml", b"x = 1"),
        ("broken.json", b"{ not json"),
        ("badref.json", b"{\"r\": {\"$asset\": \"nowhere\", \"$type\": 1}}"),
    ]);
    let cases: &[(&str, LoadError)] = &[
        ("noext", LoadError::NoExtension),
        ("config.toml", LoadError::UnsupportedExtension),
        ("broken.json", LoadError::Malformed),
        ("badref.json", LoadError::Malformed),
    ];
    for (path, expected) in cases {
        let (_, load) = s.client().load(CONFIG, AssetPath::sys(path));
        let report = s.on_load_asset_event(&tree, &load.unwrap());
        match report.outcome {
            LoadOutcome::RootFailed(e) => assert_eq!(e, *expected),
            _ => panic!("expected a root failure for {}", path),
        }
    }
}

#[test]
fn uuid_assets_cannot_be_loaded_from_disk() {
    let mut s = server();
    let tree = tree_with(&[]);
    let event = LoadAssetEvent { id: WeakAssetId::uuid(CONFIG, 5), force: false };
    let report = s.on_load_asset_event(&tree, &event);
    assert!(matches!(report.outcome, LoadOutcome::RootFailed(LoadError::NotFileBacked)));
}

#[test]
fn unregistered_types_are_reported_as_misconfiguration() {
    let mut s = server();
    let tree = tree_with(&[]);
    let event = LoadAssetEvent { id: WeakAssetId::path(99, AssetPath::sys("a.json")), force: false };
    let report = s.on_load_asset_event(&tree, &event);
    assert!(matches!(report.outcome, LoadOutcome::NoLoader));
}

#[test]
fn a_dependency_of_an_unregistered_type_rolls_back() {
    let mut s = server();
    let tree = tree_with(&[
        ("root.json", b"{\"r\": {\"$asset\": \"sys://child.json\", \"$type\": 99}}"),
        ("child.json", b"{}"),
    ]);
    let (root, load) = s.client().load(CONFIG, AssetPath::sys("root.json"));
    let report = s.on_load_asset_event(&tree, &load.unwrap());
    assert!(matches!(
        report.outcome,
        LoadOutcome::DependencyFailed(_, LoadError::NoLoader),
    ));
    assert!(!s.reader().has(&root.to_weak()));
}

#[test]
fn resident_assets_are_not_reloaded_without_force() {
    let mut s = server();
    let tree = tree_with(&[("a.json", b"{}")]);
    let (_, load) = s.client().load(CONFIG, AssetPath::sys("a.json"));
    let load = load.unwrap();
    let report = s.on_load_asset_event(&tree, &load);
    let _ = s.on_sync_asset_event(&report.sync.unwrap());
    let again = s.on_load_asset_event(&tree, &load);
    assert!(matches!(again.outcome, LoadOutcome::AlreadyResident));
    assert!(again.sync.is_none());
}

#[test]
fn parsed_documents_keep_their_contents() {
    let mut s = server();
    let tree = tree_with(&[("a.json", b"{\"name\": \"wood\", \"layers\": [1, true, null]}")]);
    let (strong, load) = s.client().load(CONFIG, AssetPath::sys("a.json"));
    let report = s.on_load_asset_event(&tree, &load.unwrap());
    let _ = s.on_sync_asset_event(&report.sync.unwrap());
    match s.reader().try_get(strong.untyped()) {
        Some(AssetValue::Doc(JsonValue::Obj(fields))) => {
            assert_eq!(fields.len(), 2);
            assert_eq!(fields[0].0, "layers");
            match &fields[0].1 {
                JsonValue::Arr(items) => {
                    assert_eq!(items.len(), 3);
                    assert!(matches!(&items[0], JsonValue::Num(n) if n == "1"));
                    assert!(matches!(&items[1], JsonValue::Bool(true)));
                    assert!(matches!(&items[2], JsonValue::Null));
                },
                _ => panic!("expected the array"),
            }
            assert_eq!(fields[1].0, "name");
            assert!(matches!(&fields[1].1, JsonValue::Str(t) if t == "wood"));
        },
        _ => panic!("expected the parsed document"),
    }
}

#[test]
fn text_loader_decodes_utf8() {
    let mut s = server();
    let tree = tree_with(&[("notes.txt", "gr\u{00fc}n".as_bytes())]);
    let (strong, load) = s.client().load(NOTES, AssetPath::sys("notes.txt"));
    let report = s.on_load_asset_event(&tree, &load.unwrap());
    let _ = s.on_sync_asset_event(&report.sync.unwrap());
    match s.reader().try_get(strong.untyped()) {
        Some(AssetValue::Text(t)) => assert_eq!(t, "gr\u{00fc}n"),
        _ => panic!("expected the decoded text"),
    }
}

#[test]
fn text_loader_rejects_invalid_utf8() {
    let mut s = server();
    let tree = tree_with(&[("notes.txt", &[0xff, 0xfe])]);
    let (_, load) = s.client().load(NOTES, AssetPath::sys("notes.txt"));
    let report = s.on_load_asset_event(&tree, &load.unwrap());
    assert!(matches!(report.outcome, LoadOutcome::RootFailed(LoadError::Malformed)));
}

#[test]
fn blob_loader_keeps_raw_bytes() {
    let mut s = server();
    let tree = tree_with(&[("img.bin", &[0, 159, 146, 150])]);
    let (strong, load) = s.client().load(RAW, AssetPath::sys("img.bin"));
    let report = s.on_load_asset_event(&tree, &load.unwrap());
    let _ = s.on_sync_asset_event(&report.sync.unwrap());
    match s.reader().try_get(strong.untyped()) {
        Some(AssetValue::Blob(b)) => assert_eq!(b, &vec![0, 159, 146, 150]),
        _ => panic!("expected the raw bytes"),
    }
}

#[test]
fn strong_table_lists_and_loads_every_child() {
    let mut s = server();
    let tree = tree_with(&[
        ("assets/a.json", b"{}"),
        ("assets/b.json", b"{}"),
        ("assets/sub/deep.json", b"{}"),
        ("other.json", b"{}"),
    ]);
    let (table, load) = s.client().load(TABLE, AssetPath::sys("assets"));
    let report = s.on_load_asset_event(&tree, &load.unwrap());
    assert!(matches!(report.outcome, LoadOutcome::Loaded));
    let events = s.on_sync_asset_event(&report.sync.unwrap());
    // The table and both direct children land in one batch; the file two
    // levels down and the sibling outside the directory do not.
    assert_eq!(events.len(), 3);
    match s.reader().try_get(table.untyped()) {
        Some(AssetValue::Table(t)) => {
            assert_eq!(t.len(), 2);
            assert_eq!(t.strength(), TableStrength::Strong);
            let key = asset_core::path::RelPath::new("assets/a.json");
            let entry = t.get(&key).unwrap();
            let a = WeakAssetId::path(CONFIG, AssetPath::sys("assets/a.json"));
            assert!(entry.is_same_asset(&a));
        },
        _ => panic!("expected the table"),
    }
    let a = WeakAssetId::path(CONFIG, AssetPath::sys("assets/a.json"));
    let b = WeakAssetId::path(CONFIG, AssetPath::sys("assets/b.json"));
    assert!(s.reader().has(&a));
    assert!(s.reader().has(&b));
}

#[test]
fn an_empty_directory_loads_as_an_empty_table() {
    let mut s = server();
    // The directory exists only as a prefix of deeper files; it has no
    // direct children that are files.
    let tree = tree_with(&[("assets/sub/deep.json", b"{}")]);
    let (table, load) = s.client().load(TABLE, AssetPath::sys("assets"));
    let report = s.on_load_asset_event(&tree, &load.unwrap());
    assert!(matches!(report.outcome, LoadOutcome::Loaded));
    let _ = s.on_sync_asset_event(&report.sync.unwrap());
    match s.reader().try_get(table.untyped()) {
        Some(AssetValue::Table(t)) => assert_eq!(t.len(), 0),
        _ => panic!("expected the empty table"),
    }
}

#[test]
fn registering_a_tag_again_replaces_its_loader() {
    let mut s = AssetServer::builder()
        .add_serde(CONFIG)
        .add(CONFIG, asset_core::loader::LoaderKind::Blob)
        .finish();
    s.on_init_event("sysroot".to_string(), "usrroot".to_string());
    // The bytes are not valid JSON; only the replacing raw-bytes loader
    // accepts them.
    let tree = tree_with(&[("a.json", b"not json")]);
    let (strong, load) = s.client().load(CONFIG, AssetPath::sys("a.json"));
    let report = s.on_load_asset_event(&tree, &load.unwrap());
    assert!(matches!(report.outcome, LoadOutcome::Loaded));
    let _ = s.on_sync_asset_event(&report.sync.unwrap());
    match s.reader().try_get(strong.untyped()) {
        Some(AssetValue::Blob(b)) => assert_eq!(b, &b"not json".to_vec()),
        _ => panic!("expected the raw bytes"),
    }
}

#[test]
fn weak_embedded_references_register_nothing() {
    let mut s = server();
    let tree = tree_with(&[
        (
            "config.json",
            b"{\"icon\": {\"$asset\": \"sys://icon.json\", \"$type\": 1, \"$strength\": \"weak\"}}",
        ),
        ("icon.json", b"{}"),
    ]);
    let (root, load) = s.client().load(CONFIG, AssetPath::sys("config.json"));
    let report = s.on_load_asset_event(&tree, &load.unwrap());
    assert!(matches!(report.outcome, LoadOutcome::Loaded));
    let events = s.on_sync_asset_event(&report.sync.unwrap());
    // Only the root itself was loaded: the weak reference is a name only.
    assert_eq!(events.len(), 1);
    assert!(s.reader().has(&root.to_weak()));
    let icon = WeakAssetId::path(CONFIG, AssetPath::sys("icon.json"));
    assert!(!s.reader().has(&icon));
    assert!(s.client().try_upgrade(&icon).is_none());
}

#[test]
fn loaded_embedded_references_resolve_like_strong_ones() {
    let mut s = server();
    let tree = tree_with(&[
        (
            "config.json",
            b"{\"child\": {\"$asset\": \"sys://child.json\", \"$type\": 1, \"$strength\": \"loaded\"}}",
        ),
        ("child.json", b"{}"),
    ]);
    let (root, load) = s.client().load(CONFIG, AssetPath::sys("config.json"));
    let report = s.on_load_asset_event(&tree, &load.unwrap());
    assert!(matches!(report.outcome, LoadOutcome::Loaded));
    let events = s.on_sync_asset_event(&report.sync.unwrap());
    assert_eq!(events.len(), 2);
    assert!(s.reader().has(&root.to_weak()));
    let child = WeakAssetId::path(CONFIG, AssetPath::sys("child.json"));
    assert!(s.reader().has(&child));
}

#[test]
fn loaded_references_to_uuid_assets_are_rejected() {
    let mut s = server();
    let tree = tree_with(&[(
        "config.json",
        b"{\"r\": {\"$asset\": \"uuid://00000000-0000-0000-0000-000000000001\", \"$type\": 1, \"$strength\": \"loaded\"}}",
    )]);
    let (root, load) = s.client().load(CONFIG, AssetPath::sys("config.json"));
    let report = s.on_load_asset_event(&tree, &load.unwrap());
    assert!(matches!(report.outcome, LoadOutcome::RootFailed(LoadError::Malformed)));
    assert!(!s.reader().has(&root.to_weak()));
}

#[test]
fn unknown_strength_names_are_rejected() {
    let mut s = server();
    let tree = tree_with(&[(
        "config.json",
        b"{\"r\": {\"$asset\": \"sys://x.json\", \"$type\": 1, \"$strength\": \"pinned\"}}",
    )]);
    let (_, load) = s.client().load(CONFIG, AssetPath::sys("config.json"));
    let report = s.on_load_asset_event(&tree, &load.unwrap());
    assert!(matches!(report.outcome, LoadOutcome::RootFailed(LoadError::Malformed)));
}
