//! Per-type loaders and the cursor they read through.
//!
//! A loader is registered per type tag and receives a cursor bound to one
//! asset's location: it can read the raw bytes, report the file extension,
//! enumerate a directory's children, and request that further assets be
//! resolved — eagerly, or optimistically when the source format guarantees
//! the dependency exists. Requests append to the dependency queue rather
//! than recursing in place, so the pipeline controls ordering and failure
//! propagation.
//!
//! The structured-data loader reads a JSON document and resolves embedded
//! references written as objects of the form
//! `{"$asset": "sys://other.json", "$type": 7, "$strength": "strong"}`. The
//! strength defaults to strong when absent; a strong or loaded reference is
//! registered against storage and, when unfamiliar and file-backed, queued as
//! a dependency; a weak reference is a name only and registers nothing; a
//! loaded reference of a UUID-named asset is ill-formed, since nothing
//! guarantees it could ever be resident.

use vstd::prelude::*;
use crate::assoc::{assoc_map, keys_unique};
use crate::event::{DependencyQueueEntry, DependencyQueueEntryV, SyncQueueEntry, SyncQueueEntryV};
use crate::id::{AssetIdV, LoadedAssetId, StrongAssetId, UntypedAssetId, WeakAssetId, derived_id};
use crate::path::{AssetPath, AssetPathV, path_extension};
use crate::storage::{Assets, RegisterAssetResult, bump, count_at};
use crate::tree::{FileTree, children_of};
use crate::uri::{AssetUri, AssetUriV, parse_uri};
use crate::value::{AssetTable, AssetValue, JsonValue, TableStrength, json_doc_of, parse_json};

verus! {

/// Why a load failed.
#[derive(Debug, Copy, Clone, Eq, PartialEq, Structural)]
pub enum LoadError {
    /// The backing tree holds no file at the asset's path.
    MissingFile,
    /// The asset's path has no file extension to pick a format by.
    NoExtension,
    /// The extension names no format this loader reads.
    UnsupportedExtension,
    /// The bytes do not parse, or an embedded reference is ill-formed.
    Malformed,
    /// The asset's uri is a UUID: there is no file to load it from.
    NotFileBacked,
    /// No loader is registered for the asset's type.
    NoLoader,
}

/// The value of a decimal digit.
pub open spec fn dec_digit_value(c: char) -> Option<u8> {
    if '0' <= c && c <= '9' {
        Some((c as u8 - '0' as u8) as u8)
    } else {
        None
    }
}

pub open spec fn all_dec(s: Seq<char>) -> bool {
    forall|i: int| 0 <= i < s.len() ==> dec_digit_value(#[trigger] s[i]) is Some
}

/// The number written by a sequence of decimal digits.
pub open spec fn dec_num(s: Seq<char>) -> nat
    decreases s.len(),
{
    if s.len() == 0 {
        0
    } else {
        dec_num(s.drop_last()) * 10 + match dec_digit_value(s.last()) {
            Some(d) => d as nat,
            None => 0,
        }
    }
}

/// A prefix never writes a larger number than the whole text.
proof fn lemma_dec_num_prefix(s: Seq<char>, i: int)
    requires
        0 <= i <= s.len(),
    ensures
        dec_num(s.take(i)) <= dec_num(s),
    decreases s.len() - i,
{
    if i < s.len() {
        lemma_dec_num_prefix(s, i + 1);
        assert(s.take(i + 1).drop_last() =~= s.take(i));
        assert(dec_num(s.take(i)) * 10 <= dec_num(s.take(i + 1)) * 10);
        assert(dec_num(s.take(i)) <= dec_num(s.take(i)) * 10) by (nonlinear_arith);
    } else {
        assert(s.take(i) =~= s);
    }
}

/// The type tag written by a decimal text, if it is all digits, nonempty,
/// and fits.
pub open spec fn parse_tag(s: Seq<char>) -> Option<u64> {
    if s.len() > 0 && all_dec(s) && dec_num(s) <= u64::MAX {
        Some(dec_num(s) as u64)
    } else {
        None
    }
}

/// The tag written by the given characters, per [`parse_tag`].
fn tag_from_chars(s: &Vec<char>) -> (r: Option<u64>)
    ensures
        r == parse_tag(s@),
{
    if s.len() == 0 {
        return None;
    }
    let mut value: u64 = 0;
    let mut i: usize = 0;
    while i < s.len()
        invariant
            i <= s@.len(),
            all_dec(s@.take(i as int)),
            value as nat == dec_num(s@.take(i as int)),
        decreases s@.len() - i,
    {
        let c = s[i];
        if c < '0' || c > '9' {
            proof {
                assert(dec_digit_value(s@[i as int]) is None);
            }
            return None;
        }
        let d = c as u8 - '0' as u8;
        proof {
            assert(s@.take(i + 1).drop_last() =~= s@.take(i as int));
            assert(s@.take(i + 1).last() == s@[i as int]);
        }
        if value > (u64::MAX - (d as u64)) / 10 {
            proof {
                assert(dec_num(s@.take(i + 1)) > u64::MAX);
                lemma_dec_num_prefix(s@, i + 1);
            }
            return None;
        }
        value = value * 10 + (d as u64);
        proof {
            assert(all_dec(s@.take(i + 1)));
        }
        i = i + 1;
    }
    proof {
        assert(s@.take(i as int) =~= s@);
    }
    Some(value)
}

/// The first value an object files under `key`.
pub open spec fn obj_field(o: Vec<(String, JsonValue)>, key: Seq<char>) -> Option<JsonValue>
    decreases o@.len(),
{
    obj_field_at(o@, key)
}

/// The first value a field list files under `key`.
pub open spec fn obj_field_at(o: Seq<(String, JsonValue)>, key: Seq<char>) -> Option<JsonValue>
    decreases o.len(),
{
    if o.len() == 0 {
        None
    } else if o[0].0@ == key {
        Some(o[0].1)
    } else {
        obj_field_at(o.skip(1), key)
    }
}

/// The strength an embedded reference asks for.
#[derive(Debug, Copy, Clone, Eq, PartialEq, Structural)]
pub enum RefStrength {
    Weak,
    Strong,
    Loaded,
}

/// The key naming an embedded reference's strength.
pub open spec fn strength_key() -> Seq<char> {
    seq!['$', 's', 't', 'r', 'e', 'n', 'g', 't', 'h']
}

pub open spec fn weak_text() -> Seq<char> {
    seq!['w', 'e', 'a', 'k']
}

pub open spec fn strong_text() -> Seq<char> {
    seq!['s', 't', 'r', 'o', 'n', 'g']
}

pub open spec fn loaded_text() -> Seq<char> {
    seq!['l', 'o', 'a', 'd', 'e', 'd']
}

/// The strength an optional `$strength` field asks for: absent means strong;
/// anything but the three strength names is ill-formed.
pub open spec fn parse_strength(v: Option<JsonValue>) -> Option<RefStrength> {
    match v {
        None => Some(RefStrength::Strong),
        Some(JsonValue::Str(s)) => if s@ == weak_text() {
            Some(RefStrength::Weak)
        } else if s@ == strong_text() {
            Some(RefStrength::Strong)
        } else if s@ == loaded_text() {
            Some(RefStrength::Loaded)
        } else {
            None
        },
        Some(_) => None,
    }
}

/// The key marking an embedded reference's uri.
pub open spec fn ref_key() -> Seq<char> {
    seq!['$', 'a', 's', 's', 'e', 't']
}

/// The key marking an embedded reference's type tag.
pub open spec fn tag_key() -> Seq<char> {
    seq!['$', 't', 'y', 'p', 'e']
}

/// The embedded references of a document node: an object carrying the
/// reference keys stands for one reference of the asked-for strength; any
/// other node collects its children's. An object carrying the uri key in any
/// other shape is ill-formed, as is a loaded reference of a UUID-named
/// asset.
pub open spec fn scan_doc(v: JsonValue) -> Result<Seq<(u64, AssetUriV, RefStrength)>, LoadError>
    decreases v,
{
    match v {
        JsonValue::Null => Ok(Seq::empty()),
        JsonValue::Bool(_) => Ok(Seq::empty()),
        JsonValue::Num(_) => Ok(Seq::empty()),
        JsonValue::Str(_) => Ok(Seq::empty()),
        JsonValue::Arr(a) => scan_items(a, a.len() as int),
        JsonValue::Obj(o) => {
            if obj_field(o, ref_key()) is Some {
                match (obj_field(o, ref_key()), obj_field(o, tag_key())) {
                    (Some(JsonValue::Str(u)), Some(JsonValue::Num(t))) => {
                        match (parse_uri(u@), parse_tag(t@), parse_strength(
                            obj_field(o, strength_key()),
                        )) {
                            (Ok(uri), Some(tag), Some(st)) => if st == RefStrength::Loaded
                                && uri is Uuid {
                                Err(LoadError::Malformed)
                            } else {
                                Ok(seq![(tag, uri, st)])
                            },
                            _ => Err(LoadError::Malformed),
                        }
                    },
                    _ => Err(LoadError::Malformed),
                }
            } else {
                scan_fields(o, o.len() as int)
            }
        },
    }
}

/// The embedded references of the first `i` items of an array.
pub open spec fn scan_items(a: Vec<JsonValue>, i: int) -> Result<
    Seq<(u64, AssetUriV, RefStrength)>,
    LoadError,
>
    decreases a, i,
{
    if 0 < i <= a.len() {
        match scan_items(a, i - 1) {
            Ok(pre) => match scan_doc(a[i - 1]) {
                Ok(refs) => Ok(pre + refs),
                Err(e) => Err(e),
            },
            Err(e) => Err(e),
        }
    } else {
        Ok(Seq::empty())
    }
}

/// The embedded references of the first `i` fields of an object.
pub open spec fn scan_fields(o: Vec<(String, JsonValue)>, i: int) -> Result<
    Seq<(u64, AssetUriV, RefStrength)>,
    LoadError,
>
    decreases o, i,
{
    if 0 < i <= o.len() {
        match scan_fields(o, i - 1) {
            Ok(pre) => match scan_doc(o[i - 1].1) {
                Ok(refs) => Ok(pre + refs),
                Err(e) => Err(e),
            },
            Err(e) => Err(e),
        }
    } else {
        Ok(Seq::empty())
    }
}

/// An ill-formed item spoils the whole array.
proof fn lemma_scan_items_err(a: Vec<JsonValue>, i: int, j: int)
    requires
        0 <= i <= j <= a.len(),
        scan_items(a, i) is Err,
    ensures
        scan_items(a, j) == scan_items(a, i),
    decreases j - i,
{
    if i < j {
        lemma_scan_items_err(a, i, j - 1);
    }
}

/// An ill-formed field spoils the whole object.
proof fn lemma_scan_fields_err(o: Vec<(String, JsonValue)>, i: int, j: int)
    requires
        0 <= i <= j <= o.len(),
        scan_fields(o, i) is Err,
    ensures
        scan_fields(o, j) == scan_fields(o, i),
    decreases j - i,
{
    if i < j {
        lemma_scan_fields_err(o, i, j - 1);
    }
}

/// The counters after a document's embedded references are registered, in
/// scan order: each strong or loaded reference's derived identity gains one
/// more holder; a weak reference registers nothing.
pub open spec fn refs_registered(
    counts: Map<AssetIdV, u64>,
    refs: Seq<(u64, AssetUriV, RefStrength)>,
) -> Map<AssetIdV, u64>
    decreases refs.len(),
{
    if refs.len() == 0 {
        counts
    } else {
        let prev = refs_registered(counts, refs.drop_last());
        let id = derived_id(refs.last().0, refs.last().1);
        if refs.last().2 == RefStrength::Weak {
            prev
        } else {
            prev.insert(id, bump(count_at(prev, id)))
        }
    }
}

/// The dependency entries a document's references queue: one per strong or
/// loaded reference that was unfamiliar when it was reached and is
/// file-backed, in scan order, never forced.
pub open spec fn refs_queued(
    counts: Map<AssetIdV, u64>,
    refs: Seq<(u64, AssetUriV, RefStrength)>,
) -> Seq<DependencyQueueEntryV>
    decreases refs.len(),
{
    if refs.len() == 0 {
        Seq::empty()
    } else {
        let prev_counts = refs_registered(counts, refs.drop_last());
        let prev = refs_queued(counts, refs.drop_last());
        let id = derived_id(refs.last().0, refs.last().1);
        if refs.last().2 != RefStrength::Weak && !prev_counts.contains_key(id) && refs.last().1
            is AssetPath {
            prev.push(DependencyQueueEntryV { id, force: false })
        } else {
            prev
        }
    }
}

/// The first value the object files under `key`, per [`obj_field_at`].
fn obj_get<'a>(o: &'a Vec<(String, JsonValue)>, key: &String) -> (r: Option<&'a JsonValue>)
    ensures
        match r {
            Some(x) => obj_field_at(o@, key@) == Some(*x),
            None => obj_field_at(o@, key@) is None,
        },
{
    let mut i: usize = 0;
    proof {
        assert(o@.skip(0) =~= o@);
    }
    while i < o.len()
        invariant
            i <= o@.len(),
            obj_field_at(o@, key@) == obj_field_at(o@.skip(i as int), key@),
        decreases o@.len() - i,
    {
        proof {
            assert(o@.skip(i as int)[0] == o@[i as int]);
            assert(o@.skip(i as int).skip(1) =~= o@.skip(i + 1));
        }
        if o[i].0.eq(key) {
            return Some(&o[i].1);
        }
        i = i + 1;
    }
    None
}

/// The strength a reference object asks for, per [`parse_strength`] over
/// its optional strength field. The caller passes the field's key.
fn read_strength(o: &Vec<(String, JsonValue)>, skey: &String) -> (r: Option<RefStrength>)
    requires
        skey@ == strength_key(),
    ensures
        r == parse_strength(obj_field_at(o@, strength_key())),
{
    match obj_get(o, skey) {
        None => Some(RefStrength::Strong),
        Some(JsonValue::Str(sv)) => {
            let wkey: String = "weak".to_owned();
            let stkey: String = "strong".to_owned();
            let lkey: String = "loaded".to_owned();
            proof {
                reveal_strlit("weak");
                reveal_strlit("strong");
                reveal_strlit("loaded");
                assert(wkey@ =~= weak_text());
                assert(stkey@ =~= strong_text());
                assert(lkey@ =~= loaded_text());
            }
            if sv.eq(&wkey) {
                Some(RefStrength::Weak)
            } else if sv.eq(&stkey) {
                Some(RefStrength::Strong)
            } else if sv.eq(&lkey) {
                Some(RefStrength::Loaded)
            } else {
                None
            }
        },
        Some(_) => None,
    }
}

/// Collects a node's embedded references into `out`, per [`scan_doc`].
#[verifier::loop_isolation(false)]
fn scan_refs(v: &JsonValue, out: &mut Vec<(u64, AssetUri, RefStrength)>) -> (r: Result<(), LoadError>)
    ensures
        match r {
            Ok(_) => scan_doc(*v) matches Ok(refs) && final(out)@.map_values(
                |p: (u64, AssetUri, RefStrength)| (p.0, p.1@, p.2),
            ) == old(out)@.map_values(|p: (u64, AssetUri, RefStrength)| (p.0, p.1@, p.2)) + refs,
            Err(e) => scan_doc(*v) == Err::<Seq<(u64, AssetUriV, RefStrength)>, LoadError>(e),
        },
    decreases *v,
{
    match v {
        JsonValue::Null => {
            proof {
                assert(out@.map_values(|p: (u64, AssetUri, RefStrength)| (p.0, p.1@, p.2)) =~= out@.map_values(
                    |p: (u64, AssetUri, RefStrength)| (p.0, p.1@, p.2),
                ) + Seq::<(u64, AssetUriV, RefStrength)>::empty());
            }
            Ok(())
        },
        JsonValue::Bool(_) => {
            proof {
                assert(out@.map_values(|p: (u64, AssetUri, RefStrength)| (p.0, p.1@, p.2)) =~= out@.map_values(
                    |p: (u64, AssetUri, RefStrength)| (p.0, p.1@, p.2),
                ) + Seq::<(u64, AssetUriV, RefStrength)>::empty());
            }
            Ok(())
        },
        JsonValue::Num(_) => {
            proof {
                assert(out@.map_values(|p: (u64, AssetUri, RefStrength)| (p.0, p.1@, p.2)) =~= out@.map_values(
                    |p: (u64, AssetUri, RefStrength)| (p.0, p.1@, p.2),
                ) + Seq::<(u64, AssetUriV, RefStrength)>::empty());
            }
            Ok(())
        },
        JsonValue::Str(_) => {
            proof {
                assert(out@.map_values(|p: (u64, AssetUri, RefStrength)| (p.0, p.1@, p.2)) =~= out@.map_values(
                    |p: (u64, AssetUri, RefStrength)| (p.0, p.1@, p.2),
                ) + Seq::<(u64, AssetUriV, RefStrength)>::empty());
            }
            Ok(())
        },
        JsonValue::Arr(a) => {
            let mut i: usize = 0;
            proof {
                assert(out@.map_values(|p: (u64, AssetUri, RefStrength)| (p.0, p.1@, p.2)) =~= old(out)@.map_values(
                    |p: (u64, AssetUri, RefStrength)| (p.0, p.1@, p.2),
                ) + Seq::<(u64, AssetUriV, RefStrength)>::empty());
            }
            while i < a.len()
                invariant
                    i <= a@.len(),
                    scan_items(*a, i as int) matches Ok(pre) && out@.map_values(
                        |p: (u64, AssetUri, RefStrength)| (p.0, p.1@, p.2),
                    ) == old(out)@.map_values(|p: (u64, AssetUri, RefStrength)| (p.0, p.1@, p.2)) + pre,
                decreases a@.len() - i,
            {
                proof {
                    vstd::std_specs::vec::axiom_vec_index_decreases(*a, i as int);
                    assert(decreases_to!(*v => *a));
                }
                match scan_refs(&a[i], out) {
                    Ok(_) => {},
                    Err(e) => {
                        proof {
                            assert(scan_items(*a, i + 1) == Err::<
                                Seq<(u64, AssetUriV, RefStrength)>,
                                LoadError,
                            >(e));
                            lemma_scan_items_err(*a, i + 1, a.len() as int);
                            assert(scan_doc(*v) == scan_items(*a, a.len() as int));
                        }
                        return Err(e);
                    },
                }
                i = i + 1;
            }
            Ok(())
        },
        JsonValue::Obj(o) => {
            let rkey: String = "$asset".to_owned();
            let tkey: String = "$type".to_owned();
            proof {
                reveal_strlit("$asset");
                reveal_strlit("$type");
                assert(rkey@ =~= ref_key());
                assert(tkey@ =~= tag_key());
            }
            let skey: String = "$strength".to_owned();
            proof {
                reveal_strlit("$strength");
                assert(skey@ =~= strength_key());
            }
            let uri_field = obj_get(o, &rkey);
            match uri_field {
                Some(JsonValue::Str(u)) => {
                    match obj_get(o, &tkey) {
                        Some(JsonValue::Num(t)) => {
                            let uri = AssetUri::from_uri(u.as_str());
                            let tchars = crate::text::str_to_chars(t.as_str());
                            let tag = tag_from_chars(&tchars);
                            let strength = read_strength(o, &skey);
                            match (uri, tag, strength) {
                                (Ok(uri), Some(tag), Some(st)) => {
                                    if st == RefStrength::Loaded && uri.asset_path().is_none() {
                                        Err(LoadError::Malformed)
                                    } else {
                                        out.push((tag, uri, st));
                                        proof {
                                            assert(out@.map_values(
                                                |p: (u64, AssetUri, RefStrength)| (p.0, p.1@, p.2),
                                            ) =~= old(out)@.map_values(
                                                |p: (u64, AssetUri, RefStrength)| (p.0, p.1@, p.2),
                                            ) + scan_doc(*v).unwrap());
                                        }
                                        Ok(())
                                    }
                                },
                                _ => Err(LoadError::Malformed),
                            }
                        },
                        _ => Err(LoadError::Malformed),
                    }
                },
                Some(_) => Err(LoadError::Malformed),
                None => {
                    let mut i: usize = 0;
                    proof {
                        assert(out@.map_values(|p: (u64, AssetUri, RefStrength)| (p.0, p.1@, p.2)) =~= old(
                            out,
                        )@.map_values(|p: (u64, AssetUri, RefStrength)| (p.0, p.1@, p.2)) + Seq::<(u64, AssetUriV, RefStrength)>::empty());
                    }
                    while i < o.len()
                        invariant
                            i <= o@.len(),
                            obj_field_at(o@, ref_key()) is None,
                            scan_fields(*o, i as int) matches Ok(pre) && out@.map_values(
                                |p: (u64, AssetUri, RefStrength)| (p.0, p.1@, p.2),
                            ) == old(out)@.map_values(|p: (u64, AssetUri, RefStrength)| (p.0, p.1@, p.2)) + pre,
                        decreases o@.len() - i,
                    {
                        proof {
                            vstd::std_specs::vec::axiom_vec_index_decreases(*o, i as int);
                            assert(decreases_to!(*v => *o));
                            assert(decreases_to!(o[i as int] => o[i as int].1));
                        }
                        match scan_refs(&o[i].1, out) {
                            Ok(_) => {},
                            Err(e) => {
                                proof {
                                    assert(scan_fields(*o, i + 1) == Err::<
                                        Seq<(u64, AssetUriV, RefStrength)>,
                                        LoadError,
                                    >(e));
                                    lemma_scan_fields_err(*o, i + 1, o.len() as int);
                                    assert(obj_field(*o, ref_key()) is None);
                                    assert(scan_doc(*v) == scan_fields(*o, o.len() as int));
                                }
                                return Err(e);
                            },
                        }
                        i = i + 1;
                    }
                    Ok(())
                },
            }
        },
    }
}

/// The bytes of `src`, copied.
fn copy_bytes(src: &Vec<u8>) -> (r: Vec<u8>)
    ensures
        r@ == src@,
{
    let mut r: Vec<u8> = Vec::new();
    let mut i: usize = 0;
    while i < src.len()
        invariant
            i <= src@.len(),
            r@ == src@.take(i as int),
        decreases src@.len() - i,
    {
        r.push(src[i]);
        proof {
            assert(r@ =~= src@.take(i + 1));
        }
        i = i + 1;
    }
    proof {
        assert(r@ =~= src@);
    }
    r
}

/// The mathematical value of an [`AssetCursor`].
#[verifier::ext_equal]
pub ghost struct AssetCursorV {
    pub asset_path: AssetPathV,
    pub tag: u64,
    pub tree: Seq<(AssetPathV, Seq<u8>)>,
    pub syncs: Seq<SyncQueueEntryV>,
    pub deps: Seq<DependencyQueueEntryV>,
}

/// A read-only view bound to one asset's location, plus the two queues a
/// loader may append to: produced values, and dependencies to resolve.
pub struct AssetCursor<'a> {
    asset_path: AssetPath,
    tag: u64,
    tree: &'a FileTree,
    sync_queue: Vec<SyncQueueEntry>,
    dependency_queue: Vec<DependencyQueueEntry>,
}

impl View for AssetCursor<'_> {
    type V = AssetCursorV;

    closed spec fn view(&self) -> AssetCursorV {
        AssetCursorV {
            asset_path: self.asset_path@,
            tag: self.tag,
            tree: (*self.tree)@,
            syncs: self.sync_queue@.map_values(|e: SyncQueueEntry| e@),
            deps: self.dependency_queue@.map_values(|e: DependencyQueueEntry| e@),
        }
    }
}

impl<'a> AssetCursor<'a> {
    /// A cursor over one asset's location, with empty queues.
    pub fn new(asset_path: AssetPath, tag: u64, tree: &'a FileTree) -> (r: Self)
        ensures
            r@ == (AssetCursorV {
                asset_path: asset_path@,
                tag,
                tree: tree@,
                syncs: Seq::empty(),
                deps: Seq::empty(),
            }),
    {
        let r = AssetCursor {
            asset_path,
            tag,
            tree,
            sync_queue: Vec::new(),
            dependency_queue: Vec::new(),
        };
        proof {
            assert(r@.syncs =~= Seq::<SyncQueueEntryV>::empty());
            assert(r@.deps =~= Seq::<DependencyQueueEntryV>::empty());
        }
        r
    }

    pub fn asset_path(&self) -> (r: &AssetPath)
        ensures
            r@ == self@.asset_path,
    {
        &self.asset_path
    }

    pub fn tag(&self) -> (r: u64)
        ensures
            r == self@.tag,
    {
        self.tag
    }

    /// The raw bytes at the cursor's location.
    pub fn read(&self) -> (r: Result<Vec<u8>, LoadError>)
        requires
            keys_unique(self@.tree),
        ensures
            match r {
                Ok(b) => assoc_map(self@.tree).contains_key(self@.asset_path) && b@ == assoc_map(
                    self@.tree,
                )[self@.asset_path],
                Err(e) => e == LoadError::MissingFile && !assoc_map(self@.tree).contains_key(
                    self@.asset_path,
                ),
            },
    {
        match self.tree.read(&self.asset_path) {
            Some(b) => Ok(copy_bytes(b)),
            None => Err(LoadError::MissingFile),
        }
    }

    /// The file extension at the cursor's location.
    pub fn extension(&self) -> (r: Option<String>)
        ensures
            match r {
                Some(e) => path_extension(self@.asset_path.path) == Some(e@),
                None => path_extension(self@.asset_path.path) is None,
            },
    {
        self.asset_path.path().extension()
    }

    /// The files directly inside the cursor's directory.
    pub fn children(&self) -> (r: Vec<AssetPath>)
        ensures
            r@.map_values(|p: AssetPath| p@) == children_of(self@.tree, self@.asset_path),
    {
        self.tree.children(&self.asset_path)
    }

    /// Registers another asset and, when it is unfamiliar and file-backed,
    /// queues it as a dependency of the running load.
    pub fn queue_ref(&mut self, assets: &mut Assets, tag: u64, uri: AssetUri) -> (r:
        StrongAssetId)
        requires
            old(assets).wf(),
        ensures
            final(assets).wf(),
            final(assets).values() == old(assets).values(),
            final(assets).path_index() == old(assets).path_index(),
            final(assets).unloaded() == old(assets).unloaded(),
            final(assets).roots() == old(assets).roots(),
            ({
                let id = derived_id(tag, uri@);
                &&& r@ == id
                &&& final(assets).counts() == old(assets).counts().insert(
                    id,
                    bump(count_at(old(assets).counts(), id)),
                )
                &&& final(assets).counter_list().len() == old(assets).counter_list().len() + (
                if !old(assets).counts().contains_key(id) {
                    1int
                } else {
                    0int
                })
                &&& final(self)@ == (AssetCursorV {
                    deps: if !old(assets).counts().contains_key(id) && uri@ is AssetPath {
                        old(self)@.deps.push(DependencyQueueEntryV { id, force: false })
                    } else {
                        old(self)@.deps
                    },
                    ..old(self)@
                })
            }),
    {
        let is_path = uri.asset_path().is_some();
        let weak = WeakAssetId::new(tag, uri);
        match assets.register_asset(&weak) {
            RegisterAssetResult::Preexisting(s) => {
                proof {
                    assert(final(self)@ =~= (AssetCursorV { ..old(self)@ }));
                }
                s
            },
            RegisterAssetResult::Unfamiliar(s) => {
                if is_path {
                    let entry = DependencyQueueEntry {
                        asset_id: weak.untyped().clone(),
                        force: false,
                    };
                    self.dependency_queue.push(entry);
                    proof {
                        assert(self@.deps =~= old(self)@.deps.push(
                            DependencyQueueEntryV { id: weak@, force: false },
                        ));
                        assert(self@ =~= (AssetCursorV { deps: self@.deps, ..old(self)@ }));
                    }
                }
                s
            },
        }
    }

    /// Registers a file-backed asset and queues it as a dependency when it is
    /// unfamiliar.
    pub fn queue_load(&mut self, assets: &mut Assets, tag: u64, asset_path: AssetPath) -> (r:
        StrongAssetId)
        requires
            old(assets).wf(),
        ensures
            final(assets).wf(),
            final(assets).values() == old(assets).values(),
            final(assets).path_index() == old(assets).path_index(),
            final(assets).unloaded() == old(assets).unloaded(),
            final(assets).roots() == old(assets).roots(),
            ({
                let id = derived_id(tag, AssetUriV::AssetPath(asset_path@));
                &&& r@ == id
                &&& final(assets).counts() == old(assets).counts().insert(
                    id,
                    bump(count_at(old(assets).counts(), id)),
                )
                &&& final(assets).counter_list().len() == old(assets).counter_list().len() + (
                if !old(assets).counts().contains_key(id) {
                    1int
                } else {
                    0int
                })
                &&& final(self)@ == (AssetCursorV {
                    deps: if !old(assets).counts().contains_key(id) {
                        old(self)@.deps.push(DependencyQueueEntryV { id, force: false })
                    } else {
                        old(self)@.deps
                    },
                    ..old(self)@
                })
            }),
    {
        self.queue_ref(assets, tag, AssetUri::AssetPath(asset_path))
    }

    /// [`Self::queue_load`], handing back an optimistic loaded handle: the
    /// caller promises the dependency will resolve (a source format that
    /// guarantees it exists).
    pub fn queue_load_optimistic(
        &mut self,
        assets: &mut Assets,
        tag: u64,
        asset_path: AssetPath,
    ) -> (r: LoadedAssetId)
        requires
            old(assets).wf(),
        ensures
            final(assets).wf(),
            final(assets).values() == old(assets).values(),
            final(assets).path_index() == old(assets).path_index(),
            final(assets).unloaded() == old(assets).unloaded(),
            final(assets).roots() == old(assets).roots(),
            ({
                let id = derived_id(tag, AssetUriV::AssetPath(asset_path@));
                &&& r@ == id
                &&& final(assets).counts() == old(assets).counts().insert(
                    id,
                    bump(count_at(old(assets).counts(), id)),
                )
                &&& final(assets).counter_list().len() == old(assets).counter_list().len() + (
                if !old(assets).counts().contains_key(id) {
                    1int
                } else {
                    0int
                })
                &&& final(self)@ == (AssetCursorV {
                    deps: if !old(assets).counts().contains_key(id) {
                        old(self)@.deps.push(DependencyQueueEntryV { id, force: false })
                    } else {
                        old(self)@.deps
                    },
                    ..old(self)@
                })
            }),
    {
        self.queue_load(assets, tag, asset_path).promised_loaded()
    }

    /// Registers an in-memory value's identity and queues the value for the
    /// running load's batch.
    pub fn queue_store(&mut self, assets: &mut Assets, id: WeakAssetId, asset: AssetValue) -> (r:
        StrongAssetId)
        requires
            old(assets).wf(),
        ensures
            final(assets).wf(),
            final(assets).values() == old(assets).values(),
            final(assets).path_index() == old(assets).path_index(),
            final(assets).unloaded() == old(assets).unloaded(),
            final(assets).roots() == old(assets).roots(),
            r@ == id@,
            final(assets).counts() == old(assets).counts().insert(
                id@,
                bump(count_at(old(assets).counts(), id@)),
            ),
            final(assets).counter_list().len() >= old(assets).counter_list().len(),
            final(self)@ == (AssetCursorV {
                syncs: old(self)@.syncs.push(
                    SyncQueueEntryV {
                        id: id@,
                        asset,
                        loaded_event: crate::event::AssetEventV {
                            id: id@,
                            kind: crate::event::AssetEventKind::Load,
                        },
                        unloaded_event: crate::event::AssetEventV {
                            id: id@,
                            kind: crate::event::AssetEventKind::Unload,
                        },
                    },
                ),
                ..old(self)@
            }),
    {
        let entry = SyncQueueEntry::new(id.clone(), asset);
        self.sync_queue.push(entry);
        let r = match assets.register_asset(&id) {
            RegisterAssetResult::Preexisting(s) => s,
            RegisterAssetResult::Unfamiliar(s) => s,
        };
        proof {
            assert(self@.syncs =~= old(self)@.syncs.push(
                SyncQueueEntryV {
                    id: id@,
                    asset,
                    loaded_event: crate::event::AssetEventV {
                        id: id@,
                        kind: crate::event::AssetEventKind::Load,
                    },
                    unloaded_event: crate::event::AssetEventV {
                        id: id@,
                        kind: crate::event::AssetEventKind::Unload,
                    },
                },
            ));
            assert(self@ =~= (AssetCursorV { syncs: self@.syncs, ..old(self)@ }));
        }
        r
    }

    /// [`Self::queue_store`], handing back an optimistic loaded handle: the
    /// value is known resident-to-be because it was freshly queued.
    pub fn queue_store_optimistic(
        &mut self,
        assets: &mut Assets,
        id: WeakAssetId,
        asset: AssetValue,
    ) -> (r: LoadedAssetId)
        requires
            old(assets).wf(),
        ensures
            final(assets).wf(),
            final(assets).values() == old(assets).values(),
            final(assets).path_index() == old(assets).path_index(),
            final(assets).unloaded() == old(assets).unloaded(),
            final(assets).roots() == old(assets).roots(),
            r@ == id@,
            final(assets).counts() == old(assets).counts().insert(
                id@,
                bump(count_at(old(assets).counts(), id@)),
            ),
            final(assets).counter_list().len() >= old(assets).counter_list().len(),
            final(self)@ == (AssetCursorV {
                syncs: old(self)@.syncs.push(
                    SyncQueueEntryV {
                        id: id@,
                        asset,
                        loaded_event: crate::event::AssetEventV {
                            id: id@,
                            kind: crate::event::AssetEventKind::Load,
                        },
                        unloaded_event: crate::event::AssetEventV {
                            id: id@,
                            kind: crate::event::AssetEventKind::Unload,
                        },
                    },
                ),
                ..old(self)@
            }),
    {
        self.queue_store(assets, id, asset).promised_loaded()
    }

    /// Hands the accumulated queues to the pipeline.
    pub fn into_queues(self) -> (r: (Vec<SyncQueueEntry>, Vec<DependencyQueueEntry>))
        ensures
            r.0@.map_values(|e: SyncQueueEntry| e@) == self@.syncs,
            r.1@.map_values(|e: DependencyQueueEntry| e@) == self@.deps,
    {
        (self.sync_queue, self.dependency_queue)
    }
}

/// The extension the structured-data loader reads.
pub open spec fn json_ext() -> Seq<char> {
    seq!['j', 's', 'o', 'n']
}

/// What the structured-data loader yields at a location: the parsed document
/// of the `json` file there, or the error naming what went wrong — no
/// extension, a foreign extension, a missing file, bytes that do not parse,
/// or an ill-formed embedded reference.
pub open spec fn serde_load_result(
    path: AssetPathV,
    contents: Map<AssetPathV, Seq<u8>>,
) -> Result<JsonValue, LoadError> {
    match path_extension(path.path) {
        None => Err(LoadError::NoExtension),
        Some(ext) => if ext != json_ext() {
            Err(LoadError::UnsupportedExtension)
        } else if !contents.contains_key(path) {
            Err(LoadError::MissingFile)
        } else {
            match json_doc_of(contents[path]) {
                None => Err(LoadError::Malformed),
                Some(doc) => match scan_doc(doc) {
                    Ok(_) => Ok(doc),
                    Err(e) => Err(e),
                },
            }
        },
    }
}

/// The generic structured-data loader: deserializes a self-describing JSON
/// document and registers its embedded strong references, queuing each
/// unfamiliar file-backed one as a dependency.
pub struct SerdeAssetLoader;

impl SerdeAssetLoader {
    pub fn load(cursor: &mut AssetCursor, assets: &mut Assets) -> (r: Result<
        AssetValue,
        LoadError,
    >)
        requires
            old(assets).wf(),
            keys_unique(old(cursor)@.tree),
        ensures
            final(assets).wf(),
            final(assets).values() == old(assets).values(),
            final(assets).path_index() == old(assets).path_index(),
            final(assets).unloaded() == old(assets).unloaded(),
            final(assets).roots() == old(assets).roots(),
            forall|k: AssetIdV|
                old(assets).counts().contains_key(k) ==> final(assets).counts().contains_key(k),
            final(cursor)@.asset_path == old(cursor)@.asset_path,
            final(cursor)@.tag == old(cursor)@.tag,
            final(cursor)@.tree == old(cursor)@.tree,
            final(cursor)@.syncs == old(cursor)@.syncs,
            final(cursor)@.deps.len() >= old(cursor)@.deps.len(),
            final(cursor)@.deps.take(old(cursor)@.deps.len() as int) == old(cursor)@.deps,
            forall|i: int|
                old(cursor)@.deps.len() <= i < final(cursor)@.deps.len() ==> (
                #[trigger] final(cursor)@.deps[i]).force == false,
            final(assets).counter_list().len() - old(assets).counter_list().len() >= final(cursor)@.deps.len() - old(cursor)@.deps.len(),
            match r {
                Ok(av) => serde_load_result(
                    old(cursor)@.asset_path,
                    assoc_map(old(cursor)@.tree),
                ) matches Ok(doc) && av == AssetValue::Doc(doc) && final(assets).counts()
                    == refs_registered(old(assets).counts(), scan_doc(doc).unwrap())
                    && final(cursor)@.deps == old(cursor)@.deps + refs_queued(
                    old(assets).counts(),
                    scan_doc(doc).unwrap(),
                ),
                Err(e) => serde_load_result(old(cursor)@.asset_path, assoc_map(old(cursor)@.tree))
                    == Err::<JsonValue, LoadError>(e) && final(assets).counts() == old(
                    assets,
                ).counts() && final(cursor)@.deps == old(cursor)@.deps,
            },
    {
        let ext = match cursor.extension() {
            None => {
                return Err(LoadError::NoExtension);
            },
            Some(e) => e,
        };
        let jkey: String = "json".to_owned();
        proof {
            reveal_strlit("json");
            assert(jkey@ =~= json_ext());
        }
        if !ext.eq(&jkey) {
            return Err(LoadError::UnsupportedExtension);
        }
        let bytes = match cursor.read() {
            Ok(b) => b,
            Err(e) => {
                return Err(e);
            },
        };
        let doc = match parse_json(&bytes) {
            Some(d) => d,
            None => {
                return Err(LoadError::Malformed);
            },
        };
        let mut refs: Vec<(u64, AssetUri, RefStrength)> = Vec::new();
        match scan_refs(&doc, &mut refs) {
            Ok(_) => {},
            Err(e) => {
                return Err(e);
            },
        }
        let ghost mid_assets = *assets;
        let ghost mid_cursor = *cursor;
        let ghost refsv = refs@.map_values(|p: (u64, AssetUri, RefStrength)| (p.0, p.1@, p.2));
        proof {
            assert(refsv.take(0) =~= Seq::<(u64, AssetUriV, RefStrength)>::empty());
            assert(assets.counts() == refs_registered(mid_assets.counts(), refsv.take(0)));
            assert(cursor@.deps =~= mid_cursor@.deps + refs_queued(
                mid_assets.counts(),
                refsv.take(0),
            ));
        }
        let mut i: usize = 0;
        while i < refs.len()
            invariant
                i <= refs@.len(),
                refsv == refs@.map_values(|p: (u64, AssetUri, RefStrength)| (p.0, p.1@, p.2)),
                assets.counts() == refs_registered(mid_assets.counts(), refsv.take(i as int)),
                cursor@.deps == mid_cursor@.deps + refs_queued(
                    mid_assets.counts(),
                    refsv.take(i as int),
                ),
                assets.wf(),
                assets.values() == mid_assets.values(),
                assets.path_index() == mid_assets.path_index(),
                assets.unloaded() == mid_assets.unloaded(),
                assets.roots() == mid_assets.roots(),
                forall|k: AssetIdV|
                    mid_assets.counts().contains_key(k) ==> assets.counts().contains_key(k),
                cursor@.asset_path == mid_cursor@.asset_path,
                cursor@.tag == mid_cursor@.tag,
                cursor@.tree == mid_cursor@.tree,
                cursor@.syncs == mid_cursor@.syncs,
                cursor@.deps.len() >= mid_cursor@.deps.len(),
                cursor@.deps.take(mid_cursor@.deps.len() as int) == mid_cursor@.deps,
                forall|j: int|
                    mid_cursor@.deps.len() <= j < cursor@.deps.len() ==> (
                    #[trigger] cursor@.deps[j]).force == false,
                assets.counter_list().len() - mid_assets.counter_list().len() >= cursor@.deps.len()
                    - mid_cursor@.deps.len(),
            decreases refs@.len() - i,
        {
            let tag = refs[i].0;
            let ghost pre_deps = cursor@.deps;
            proof {
                assert(refsv[i as int] == (refs@[i as int].0, refs@[i as int].1@, refs@[
                    i as int
                ].2));
                assert(refsv.take(i + 1).drop_last() =~= refsv.take(i as int));
                assert(refsv.take(i + 1).last() == refsv[i as int]);
            }
            if refs[i].2 != RefStrength::Weak {
                let uri = refs[i].1.clone();
                cursor.queue_ref(assets, tag, uri);
                proof {
                    if cursor@.deps.len() > pre_deps.len() {
                        assert(cursor@.deps.take(mid_cursor@.deps.len() as int) =~= pre_deps.take(
                            mid_cursor@.deps.len() as int,
                        ));
                        assert(cursor@.deps =~= mid_cursor@.deps + refs_queued(
                            mid_assets.counts(),
                            refsv.take(i + 1),
                        ));
                    } else {
                        assert(cursor@.deps =~= mid_cursor@.deps + refs_queued(
                            mid_assets.counts(),
                            refsv.take(i + 1),
                        ));
                    }
                }
            } else {
                proof {
                    assert(cursor@.deps =~= mid_cursor@.deps + refs_queued(
                        mid_assets.counts(),
                        refsv.take(i + 1),
                    ));
                }
            }
            i = i + 1;
        }
        proof {
            assert(refsv.take(refs@.len() as int) =~= refsv);
        }
        Ok(AssetValue::Doc(doc))
    }
}

/// The generic table loader: enumerates a directory and produces one entry
/// per file, as weak identities, eagerly resolved strong ones, or optimistic
/// loaded ones.
pub struct AssetTableLoader;

impl AssetTableLoader {
    pub fn load(
        cursor: &mut AssetCursor,
        assets: &mut Assets,
        strength: TableStrength,
        element_tag: u64,
    ) -> (r: Result<AssetValue, LoadError>)
        requires
            old(assets).wf(),
        ensures
            final(assets).wf(),
            final(assets).values() == old(assets).values(),
            final(assets).path_index() == old(assets).path_index(),
            final(assets).unloaded() == old(assets).unloaded(),
            final(assets).roots() == old(assets).roots(),
            forall|k: AssetIdV|
                old(assets).counts().contains_key(k) ==> final(assets).counts().contains_key(k),
            final(cursor)@.asset_path == old(cursor)@.asset_path,
            final(cursor)@.tag == old(cursor)@.tag,
            final(cursor)@.tree == old(cursor)@.tree,
            final(cursor)@.syncs == old(cursor)@.syncs,
            final(cursor)@.deps.len() >= old(cursor)@.deps.len(),
            final(cursor)@.deps.take(old(cursor)@.deps.len() as int) == old(cursor)@.deps,
            forall|i: int|
                old(cursor)@.deps.len() <= i < final(cursor)@.deps.len() ==> (
                #[trigger] final(cursor)@.deps[i]).force == false,
            forall|i: int|
                old(cursor)@.deps.len() <= i < final(cursor)@.deps.len() ==> children_of(
                    old(cursor)@.tree,
                    old(cursor)@.asset_path,
                ).map_values(|kid: AssetPathV| derived_id(element_tag, AssetUriV::AssetPath(kid)))
                    .contains((#[trigger] final(cursor)@.deps[i]).id),
            final(assets).counter_list().len() - old(assets).counter_list().len() >= final(cursor)@.deps.len() - old(cursor)@.deps.len(),
            strength == TableStrength::Weak ==> final(cursor)@.deps == old(cursor)@.deps
                && final(assets).counts() == old(assets).counts(),
            match r {
                Ok(av) => av matches AssetValue::Table(t) && {
                    let kids = children_of(old(cursor)@.tree, old(cursor)@.asset_path);
                    &&& t@.strength == strength
                    &&& t@.entries.len() == kids.len()
                    &&& forall|i: int|
                        0 <= i < kids.len() ==> #[trigger] t@.entries[i] == (
                            (#[trigger] kids[i]).path,
                            derived_id(element_tag, AssetUriV::AssetPath(kids[i])),
                        )
                },
                Err(_) => false,
            },
    {
        let kids = cursor.children();
        let tag = element_tag;
        let mut table = AssetTable::empty(strength);
        let ghost kidsv = children_of(cursor@.tree, cursor@.asset_path);
        let ghost start_assets = *assets;
        let ghost start_cursor = *cursor;
        let mut i: usize = 0;
        while i < kids.len()
            invariant
                i <= kids@.len(),
                kids@.map_values(|p: AssetPath| p@) == kidsv,
                assets.wf(),
                assets.values() == start_assets.values(),
                assets.path_index() == start_assets.path_index(),
                assets.unloaded() == start_assets.unloaded(),
                assets.roots() == start_assets.roots(),
                forall|k: AssetIdV|
                    start_assets.counts().contains_key(k) ==> assets.counts().contains_key(k),
                cursor@.asset_path == start_cursor@.asset_path,
                cursor@.tag == start_cursor@.tag,
                cursor@.tree == start_cursor@.tree,
                cursor@.syncs == start_cursor@.syncs,
                cursor@.deps.len() >= start_cursor@.deps.len(),
                cursor@.deps.take(start_cursor@.deps.len() as int) == start_cursor@.deps,
                forall|j: int|
                    start_cursor@.deps.len() <= j < cursor@.deps.len() ==> (
                    #[trigger] cursor@.deps[j]).force == false,
                forall|j: int|
                    start_cursor@.deps.len() <= j < cursor@.deps.len() ==> kidsv.map_values(
                        |kid: AssetPathV| derived_id(element_tag, AssetUriV::AssetPath(kid)),
                    ).contains((#[trigger] cursor@.deps[j]).id),
                assets.counter_list().len() - start_assets.counter_list().len() >= cursor@.deps.len()
                    - start_cursor@.deps.len(),
                strength == TableStrength::Weak ==> cursor@.deps == start_cursor@.deps
                    && assets.counts() == start_assets.counts(),
                tag == element_tag,
                table@.strength == strength,
                table@.entries.len() == i,
                forall|j: int|
                    0 <= j < i ==> #[trigger] table@.entries[j] == (
                        (#[trigger] kidsv[j]).path,
                        derived_id(element_tag, AssetUriV::AssetPath(kidsv[j])),
                    ),
            decreases kids@.len() - i,
        {
            let child = kids[i].clone();
            let key = child.path().clone();
            proof {
                assert(kids@.map_values(|p: AssetPath| p@)[i as int] == kids@[i as int]@);
            }
            match strength {
                TableStrength::Weak => {
                    let weak = WeakAssetId::path(tag, child);
                    table.push(key, weak);
                },
                TableStrength::Strong => {
                    let ghost pre_deps = cursor@.deps;
                    let strong = cursor.queue_load(assets, tag, child);
                    proof {
                        if cursor@.deps.len() > pre_deps.len() {
                            assert(cursor@.deps.take(start_cursor@.deps.len() as int)
                                =~= pre_deps.take(start_cursor@.deps.len() as int));
                        }
                        assert forall|j: int|
                            start_cursor@.deps.len() <= j < cursor@.deps.len() implies kidsv
                            .map_values(
                            |kid: AssetPathV| derived_id(element_tag, AssetUriV::AssetPath(kid)),
                        ).contains((#[trigger] cursor@.deps[j]).id) by {
                            if j < pre_deps.len() {
                                assert(cursor@.deps[j] == pre_deps[j]);
                            } else {
                                assert(cursor@.deps[j].id == derived_id(
                                    element_tag,
                                    AssetUriV::AssetPath(kidsv[i as int]),
                                ));
                                assert(kidsv.map_values(
                                    |kid: AssetPathV| derived_id(
                                        element_tag,
                                        AssetUriV::AssetPath(kid),
                                    ),
                                )[i as int] == cursor@.deps[j].id);
                            }
                        }
                    }
                    table.push(key, strong.to_weak());
                },
                TableStrength::Loaded => {
                    let ghost pre_deps = cursor@.deps;
                    let loaded = cursor.queue_load_optimistic(assets, tag, child);
                    proof {
                        if cursor@.deps.len() > pre_deps.len() {
                            assert(cursor@.deps.take(start_cursor@.deps.len() as int)
                                =~= pre_deps.take(start_cursor@.deps.len() as int));
                        }
                        assert forall|j: int|
                            start_cursor@.deps.len() <= j < cursor@.deps.len() implies kidsv
                            .map_values(
                            |kid: AssetPathV| derived_id(element_tag, AssetUriV::AssetPath(kid)),
                        ).contains((#[trigger] cursor@.deps[j]).id) by {
                            if j < pre_deps.len() {
                                assert(cursor@.deps[j] == pre_deps[j]);
                            } else {
                                assert(cursor@.deps[j].id == derived_id(
                                    element_tag,
                                    AssetUriV::AssetPath(kidsv[i as int]),
                                ));
                                assert(kidsv.map_values(
                                    |kid: AssetPathV| derived_id(
                                        element_tag,
                                        AssetUriV::AssetPath(kid),
                                    ),
                                )[i as int] == cursor@.deps[j].id);
                            }
                        }
                    }
                    table.push(key, loaded.to_weak());
                },
            }
            i = i + 1;
        }
        Ok(AssetValue::Table(table))
    }
}

/// The raw-bytes loader: the file's bytes, uninterpreted.
pub fn load_blob(cursor: &AssetCursor) -> (r: Result<AssetValue, LoadError>)
    requires
        keys_unique(cursor@.tree),
    ensures
        match r {
            Ok(av) => av matches AssetValue::Blob(b) && assoc_map(cursor@.tree).contains_key(
                cursor@.asset_path,
            ) && b@ == assoc_map(cursor@.tree)[cursor@.asset_path],
            Err(e) => e == LoadError::MissingFile && !assoc_map(cursor@.tree).contains_key(
                cursor@.asset_path,
            ),
        },
{
    match cursor.read() {
        Ok(b) => Ok(AssetValue::Blob(b)),
        Err(e) => Err(e),
    }
}

/// Relies on `String::from_utf8`: it succeeds exactly on the encodings of
/// character sequences, returning the sequence the bytes encode.
#[verifier::external_body]
fn bytes_to_string(b: Vec<u8>) -> (r: Option<String>)
    ensures
        r matches Some(s) ==> vstd::utf8::encode_utf8(s@) == b@,
        r is None ==> forall|s: Seq<char>| vstd::utf8::encode_utf8(s) != b@,
{
    String::from_utf8(b).ok()
}

/// The text loader: the file's bytes decoded as UTF-8 (shader source and
/// other plain text).
pub fn load_text(cursor: &AssetCursor) -> (r: Result<AssetValue, LoadError>)
    requires
        keys_unique(cursor@.tree),
    ensures
        match r {
            Ok(av) => av matches AssetValue::Text(s) && assoc_map(cursor@.tree).contains_key(
                cursor@.asset_path,
            ) && vstd::utf8::encode_utf8(s@) == assoc_map(cursor@.tree)[cursor@.asset_path],
            Err(e) => {
                ||| e == LoadError::MissingFile && !assoc_map(cursor@.tree).contains_key(
                    cursor@.asset_path,
                )
                ||| e == LoadError::Malformed && assoc_map(cursor@.tree).contains_key(
                    cursor@.asset_path,
                ) && (forall|s: Seq<char>|
                    vstd::utf8::encode_utf8(s) != assoc_map(cursor@.tree)[cursor@.asset_path])
            },
        },
{
    match cursor.read() {
        Ok(b) => match bytes_to_string(b) {
            Some(s) => Ok(AssetValue::Text(s)),
            None => Err(LoadError::Malformed),
        },
        Err(e) => Err(e),
    }
}

/// Which loader a type tag is registered with.
#[derive(Debug, Copy, Clone, Eq, PartialEq, Structural)]
pub enum LoaderKind {
    /// The structured-data loader ([`SerdeAssetLoader`]).
    Serde,
    /// The raw-bytes loader.
    Blob,
    /// The UTF-8 text loader.
    Text,
    /// A directory listing of weak identities of the given element type
    /// ([`AssetTableLoader`]).
    WeakTable(u64),
    /// A directory listing, every child of the given element type eagerly
    /// resolved.
    StrongTable(u64),
    /// A directory listing of optimistic loaded handles of the given element
    /// type.
    LoadedTable(u64),
}

/// The identities a reference list derives, in order.
pub open spec fn ref_ids(refs: Seq<(u64, AssetUriV, RefStrength)>) -> Seq<AssetIdV> {
    refs.map_values(|r: (u64, AssetUriV, RefStrength)| derived_id(r.0, r.1))
}

/// Every dependency a reference list queues names one of the list's derived
/// identities.
pub proof fn lemma_refs_queued_ids(
    counts: Map<AssetIdV, u64>,
    refs: Seq<(u64, AssetUriV, RefStrength)>,
)
    ensures
        forall|i: int|
            0 <= i < refs_queued(counts, refs).len() ==> ref_ids(refs).contains(
                (#[trigger] refs_queued(counts, refs)[i]).id,
            ),
    decreases refs.len(),
{
    if refs.len() > 0 {
        lemma_refs_queued_ids(counts, refs.drop_last());
        let qs = refs_queued(counts, refs);
        let prev = refs_queued(counts, refs.drop_last());
        assert forall|i: int| 0 <= i < qs.len() implies ref_ids(refs).contains(
            (#[trigger] qs[i]).id,
        ) by {
            if i < prev.len() {
                assert(ref_ids(refs.drop_last()).contains(prev[i].id));
                let j = choose|j: int|
                    0 <= j < ref_ids(refs.drop_last()).len() && #[trigger] ref_ids(
                        refs.drop_last(),
                    )[j] == prev[i].id;
                assert(refs.drop_last()[j] == refs[j]);
                assert(ref_ids(refs)[j] == prev[i].id);
            } else {
                assert(qs[i].id == derived_id(refs.last().0, refs.last().1));
                assert(ref_ids(refs)[refs.len() - 1] == qs[i].id);
            }
        }
    }
}

/// The identities a loader of the given kind can discover as dependencies at
/// a location over the given tree: the structured loader's scanned
/// references, or a resolving table's children.
pub open spec fn kind_deps(
    kind: LoaderKind,
    path: AssetPathV,
    tree: Seq<(AssetPathV, Seq<u8>)>,
) -> Seq<AssetIdV> {
    match kind {
        LoaderKind::Serde => match serde_load_result(path, assoc_map(tree)) {
            Ok(doc) => ref_ids(scan_doc(doc).unwrap()),
            Err(_) => Seq::empty(),
        },
        LoaderKind::Blob => Seq::empty(),
        LoaderKind::Text => Seq::empty(),
        LoaderKind::WeakTable(_) => Seq::empty(),
        LoaderKind::StrongTable(et) => children_of(tree, path).map_values(
            |kid: AssetPathV| derived_id(et, AssetUriV::AssetPath(kid)),
        ),
        LoaderKind::LoadedTable(et) => children_of(tree, path).map_values(
            |kid: AssetPathV| derived_id(et, AssetUriV::AssetPath(kid)),
        ),
    }
}

/// What a loader of the given kind reports at a location over the given
/// tree: the error it fails with, or nothing when it succeeds. A function of
/// the kind, the location and the tree alone — loading is deterministic.
pub open spec fn loader_error(
    kind: LoaderKind,
    path: AssetPathV,
    tree: Seq<(AssetPathV, Seq<u8>)>,
) -> Option<LoadError> {
    let contents = assoc_map(tree);
    match kind {
        LoaderKind::Serde => match serde_load_result(path, contents) {
            Ok(_) => None,
            Err(e) => Some(e),
        },
        LoaderKind::Blob => if contents.contains_key(path) {
            None
        } else {
            Some(LoadError::MissingFile)
        },
        LoaderKind::Text => if !contents.contains_key(path) {
            Some(LoadError::MissingFile)
        } else if exists|s: Seq<char>| vstd::utf8::encode_utf8(s) == contents[path] {
            None
        } else {
            Some(LoadError::Malformed)
        },
        LoaderKind::WeakTable(_) => None,
        LoaderKind::StrongTable(_) => None,
        LoaderKind::LoadedTable(_) => None,
    }
}

/// Whether `t` is the table a table loader of the given strength and element
/// type produces at `path`: one entry per direct child, in listing order.
pub open spec fn table_matches(
    t: AssetTable,
    strength: TableStrength,
    element_tag: u64,
    path: AssetPathV,
    tree: Seq<(AssetPathV, Seq<u8>)>,
) -> bool {
    let kids = children_of(tree, path);
    &&& t@.strength == strength
    &&& t@.entries.len() == kids.len()
    &&& forall|i: int|
        0 <= i < kids.len() ==> #[trigger] t@.entries[i] == (
            (#[trigger] kids[i]).path,
            derived_id(element_tag, AssetUriV::AssetPath(kids[i])),
        )
}

/// Whether `v` is the value a loader of the given kind produces at `path`
/// over the given tree — the per-kind characterization of a genuinely loaded
/// value.
pub open spec fn loader_value_ok(
    kind: LoaderKind,
    path: AssetPathV,
    tree: Seq<(AssetPathV, Seq<u8>)>,
    v: AssetValue,
) -> bool {
    let contents = assoc_map(tree);
    match kind {
        LoaderKind::Serde => v matches AssetValue::Doc(doc) && serde_load_result(path, contents)
            == Ok::<JsonValue, LoadError>(doc),
        LoaderKind::Blob => v matches AssetValue::Blob(b) && contents.contains_key(path) && b@
            == contents[path],
        LoaderKind::Text => v matches AssetValue::Text(s) && contents.contains_key(path)
            && vstd::utf8::encode_utf8(s@) == contents[path],
        LoaderKind::WeakTable(et) => v matches AssetValue::Table(t) && table_matches(
            t,
            TableStrength::Weak,
            et,
            path,
            tree,
        ),
        LoaderKind::StrongTable(et) => v matches AssetValue::Table(t) && table_matches(
            t,
            TableStrength::Strong,
            et,
            path,
            tree,
        ),
        LoaderKind::LoadedTable(et) => v matches AssetValue::Table(t) && table_matches(
            t,
            TableStrength::Loaded,
            et,
            path,
            tree,
        ),
    }
}

/// Runs the registered loader once over the cursor's location.
pub fn run_loader(kind: LoaderKind, cursor: &mut AssetCursor, assets: &mut Assets) -> (r: Result<
    AssetValue,
    LoadError,
>)
    requires
        old(assets).wf(),
        keys_unique(old(cursor)@.tree),
    ensures
        final(assets).wf(),
        final(assets).values() == old(assets).values(),
        final(assets).path_index() == old(assets).path_index(),
        final(assets).unloaded() == old(assets).unloaded(),
        final(assets).roots() == old(assets).roots(),
        forall|k: AssetIdV|
            old(assets).counts().contains_key(k) ==> final(assets).counts().contains_key(k),
        final(cursor)@.asset_path == old(cursor)@.asset_path,
        final(cursor)@.tag == old(cursor)@.tag,
        final(cursor)@.tree == old(cursor)@.tree,
        final(cursor)@.syncs == old(cursor)@.syncs,
        final(cursor)@.deps.len() >= old(cursor)@.deps.len(),
        final(cursor)@.deps.take(old(cursor)@.deps.len() as int) == old(cursor)@.deps,
        forall|i: int|
            old(cursor)@.deps.len() <= i < final(cursor)@.deps.len() ==> (
            #[trigger] final(cursor)@.deps[i]).force == false,
        final(assets).counter_list().len() - old(assets).counter_list().len() >= final(cursor)@.deps.len() - old(cursor)@.deps.len(),
        forall|i: int|
            old(cursor)@.deps.len() <= i < final(cursor)@.deps.len() ==> kind_deps(
                kind,
                old(cursor)@.asset_path,
                old(cursor)@.tree,
            ).contains((#[trigger] final(cursor)@.deps[i]).id),
        match r {
            Ok(v) => loader_error(kind, old(cursor)@.asset_path, old(cursor)@.tree) is None
                && loader_value_ok(kind, old(cursor)@.asset_path, old(cursor)@.tree, v),
            Err(e) => loader_error(kind, old(cursor)@.asset_path, old(cursor)@.tree) == Some(e),
        },
{
    match kind {
        LoaderKind::Serde => {
            let r = SerdeAssetLoader::load(cursor, assets);
            proof {
                match r {
                    Ok(_) => {
                        lemma_refs_queued_ids(
                            old(assets).counts(),
                            scan_doc(
                                serde_load_result(
                                    old(cursor)@.asset_path,
                                    assoc_map(old(cursor)@.tree),
                                ).unwrap(),
                            ).unwrap(),
                        );
                        assert forall|i: int|
                            old(cursor)@.deps.len() <= i < cursor@.deps.len() implies kind_deps(
                            kind,
                            old(cursor)@.asset_path,
                            old(cursor)@.tree,
                        ).contains((#[trigger] cursor@.deps[i]).id) by {
                            let qs = refs_queued(
                                old(assets).counts(),
                                scan_doc(
                                    serde_load_result(
                                        old(cursor)@.asset_path,
                                        assoc_map(old(cursor)@.tree),
                                    ).unwrap(),
                                ).unwrap(),
                            );
                            assert(cursor@.deps[i] == qs[i - old(cursor)@.deps.len()]);
                        }
                    },
                    Err(_) => {},
                }
            }
            r
        },
        LoaderKind::Blob => load_blob(cursor),
        LoaderKind::Text => load_text(cursor),
        LoaderKind::WeakTable(element_tag) => AssetTableLoader::load(
            cursor,
            assets,
            TableStrength::Weak,
            element_tag,
        ),
        LoaderKind::StrongTable(element_tag) => AssetTableLoader::load(
            cursor,
            assets,
            TableStrength::Strong,
            element_tag,
        ),
        LoaderKind::LoadedTable(element_tag) => AssetTableLoader::load(
            cursor,
            assets,
            TableStrength::Loaded,
            element_tag,
        ),
    }
}

} // verus!
