use asset_core::id::UntypedAssetId;
use asset_core::path::{AssetPath, AssetPathKind, RelPath};
use asset_core::uri::{AssetUri, UriError};
use asset_core::util::{Counted, OrderWindow};

fn sys_uri(path: &str) -> AssetUri {
    AssetUri::AssetPath(AssetPath::sys(path))
}

#[test]
fn identity_rederivation_is_deterministic() {
    let a = UntypedAssetId::new(7, sys_uri("textures/wood.png"));
    let b = UntypedAssetId::new(7, sys_uri("textures/wood.png"));
    assert!(a.same(&b));
    assert_eq!(a.digest(), b.digest());
    assert_eq!(a.tag(), b.tag());
}

#[test]
fn identity_distinct_types_never_collide() {
    let texture = UntypedAssetId::new(7, sys_uri("textures/wood.png"));
    let config = UntypedAssetId::new(8, sys_uri("textures/wood.png"));
    assert!(!texture.same(&config));
    // The digest feeds the tag, so even the raw digests differ here.
    assert_ne!(texture.digest(), config.digest());
}

#[test]
fn identity_distinct_uris_never_collide() {
    let wood = UntypedAssetId::new(7, sys_uri("textures/wood.png"));
    let iron = UntypedAssetId::new(7, sys_uri("textures/iron.png"));
    assert!(!wood.same(&iron));
    assert_ne!(wood.digest(), iron.digest());
}

#[test]
fn uri_parses_sys_and_usr_paths() {
    let wood = AssetUri::from_uri("sys://textures/wood.png").unwrap();
    let p = wood.asset_path().unwrap();
    assert_eq!(p.kind(), AssetPathKind::Sys);
    assert_eq!(p.path().as_str(), "textures/wood.png");

    let save = AssetUri::from_uri("usr://saves/slot1.json").unwrap();
    assert_eq!(save.asset_path().unwrap().kind(), AssetPathKind::Usr);
}

#[test]
fn uri_text_round_trips() {
    let original = "sys://textures/wood.png";
    let uri = AssetUri::from_uri(original).unwrap();
    assert_eq!(uri.to_uri_string(), original);

    let uuid = AssetUri::from_uri("uuid://00000000-0000-0000-0000-000000000001").unwrap();
    assert_eq!(uuid.uuid(), Some(1u128));
    let text = uuid.to_uri_string();
    assert_eq!(text, "uuid://00000000-0000-0000-0000-000000000001");
    let again = AssetUri::from_uri(&text).unwrap();
    assert!(uri_eq(&uuid, &again));
}

fn uri_eq(a: &AssetUri, b: &AssetUri) -> bool {
    a.same(b)
}

#[test]
fn uri_parses_plain_uuid_hex() {
    let uri = AssetUri::from_uri("uuid://ffffffffffffffffffffffffffffffff").unwrap();
    assert_eq!(uri.uuid(), Some(u128::MAX));
    // The canonical text is hyphenated lower-case.
    assert_eq!(uri.to_uri_string(), "uuid://ffffffff-ffff-ffff-ffff-ffffffffffff");
    let upper = AssetUri::from_uri("uuid://FFFFFFFF-FFFF-FFFF-FFFF-FFFFFFFFFFFF").unwrap();
    assert_eq!(upper.uuid(), Some(u128::MAX));
}

#[test]
fn uri_rejects_malformed_text() {
    assert_eq!(AssetUri::from_uri("no-separator").unwrap_err(), UriError::Malformed);
    assert_eq!(AssetUri::from_uri("ftp://elsewhere").unwrap_err(), UriError::UnknownProtocol);
    assert_eq!(AssetUri::from_uri("uuid://not-hex").unwrap_err(), UriError::BadUuid);
    assert_eq!(AssetUri::from_uri("uuid://123").unwrap_err(), UriError::BadUuid);
}

#[test]
fn path_parent_walks_to_the_root() {
    let p = RelPath::new("a/b/c.json");
    let b = p.parent().unwrap();
    assert_eq!(b.as_str(), "a/b");
    let a = b.parent().unwrap();
    assert_eq!(a.as_str(), "a");
    let root = a.parent().unwrap();
    assert_eq!(root.as_str(), "");
    assert!(root.parent().is_none());
}

#[test]
fn path_extension_is_the_file_names() {
    assert_eq!(RelPath::new("a/b/c.json").extension().unwrap(), "json");
    assert_eq!(RelPath::new("c.tar.gz").extension().unwrap(), "gz");
    assert!(RelPath::new("a.json/noext").extension().is_none());
    assert!(RelPath::new("a/.hidden").extension().is_none());
    assert_eq!(RelPath::new("a/b.").extension().unwrap(), "");
}

#[test]
fn order_window_brackets_values() {
    let w: OrderWindow<u32> = OrderWindow::new(5);
    assert_eq!(w.as_option(), Some(&5));
    assert_eq!(OrderWindow::<u32>::Start.as_option(), None);
    assert_eq!(OrderWindow::<u32>::End.as_option(), None);
    // Start sorts before every value, End after every one.
    assert!(OrderWindow::<u32>::Start < OrderWindow::new(0));
    assert!(OrderWindow::new(u32::MAX) < OrderWindow::<u32>::End);
    assert!(OrderWindow::new(1) < OrderWindow::new(2));
}

#[test]
fn counted_tracks_holders() {
    let mut c = Counted::one("asset");
    assert_eq!(c.count, 1);
    assert_eq!(c.inc(), 2);
    assert_eq!(c.inc(), 3);
    assert_eq!(c.dec(), 2);
    assert_eq!(c.dec(), 1);
    assert_eq!(c.dec(), 0);
    assert_eq!(c.t, "asset");
}

#[test]
fn uri_accepts_an_empty_relative_path() {
    let uri = AssetUri::from_uri("sys://").unwrap();
    let p = uri.asset_path().unwrap();
    assert_eq!(p.kind(), AssetPathKind::Sys);
    assert_eq!(p.path().as_str(), "");
    assert_eq!(uri.to_uri_string(), "sys://");
}

#[test]
fn uri_rejects_empty_text() {
    assert_eq!(AssetUri::from_uri("").unwrap_err(), UriError::Malformed);
}
