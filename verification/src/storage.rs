//! Shared storage: the resident-value table, the reference counters, the
//! path reverse index and the stashed unload notifications.
//!
//! An identity is *registered* (counter created) the first time a caller
//! upgrades a weak handle or requests a strong one; it becomes *resident*
//! only when a commit installs its value; it is *unloaded* once its counter
//! reads zero and a collection pass visits it.

use vstd::prelude::*;
use vstd::map::*;
use crate::assoc::{assoc_map, keys_unique, lemma_assoc_map_absent, lemma_assoc_map_index,
    lemma_assoc_map_push, lemma_assoc_map_remove, lemma_assoc_map_update};
use crate::event::{AssetEvent, AssetEventKind, AssetEventV, LoadAssetEvent, LoadAssetEventV,
    StoreAssetEvent, SyncQueueEntry, SyncQueueEntryV};
use crate::id::{AssetIdV, LoadedAssetId, StrongAssetId, UntypedAssetId, WeakAssetId};
use crate::path::{AssetPath, AssetPathKind, AssetPathV, RelPath};
use crate::text::str_to_chars;
use crate::uri::AssetUriV;
use crate::util::Counted;
use crate::value::{AssetTable, AssetValue, TableStrength};

verus! {

/// The text left after stripping a root directory from a path: the root must
/// be a prefix and be followed by a separator or nothing.
pub open spec fn strip_root(dir: Seq<char>, p: Seq<char>) -> Option<Seq<char>> {
    if p.len() >= dir.len() && p.take(dir.len() as int) == dir {
        let rest = p.skip(dir.len() as int);
        if rest.len() == 0 {
            Some(Seq::empty())
        } else if rest[0] == '/' {
            Some(rest.skip(1))
        } else {
            None
        }
    } else {
        None
    }
}

/// The asset path of a raw path text: stripped against the `sys` root first,
/// then the `usr` root.
pub open spec fn asset_path_of(sys: Seq<char>, usr: Seq<char>, p: Seq<char>) -> Option<
    AssetPathV,
> {
    match strip_root(sys, p) {
        Some(rest) => Some(AssetPathV { kind: AssetPathKind::Sys, path: rest }),
        None => match strip_root(usr, p) {
            Some(rest) => Some(AssetPathV { kind: AssetPathKind::Usr, path: rest }),
            None => None,
        },
    }
}

/// The two root directories that back the content roots.
#[derive(Debug)]
pub struct AssetsPaths {
    sys_dir: String,
    usr_dir: String,
}

/// The mathematical value of [`AssetsPaths`].
#[verifier::ext_equal]
pub ghost struct AssetsPathsV {
    pub sys_dir: Seq<char>,
    pub usr_dir: Seq<char>,
}

impl View for AssetsPaths {
    type V = AssetsPathsV;

    closed spec fn view(&self) -> AssetsPathsV {
        AssetsPathsV { sys_dir: self.sys_dir@, usr_dir: self.usr_dir@ }
    }
}

impl Clone for AssetsPaths {
    fn clone(&self) -> (r: Self)
        ensures
            r@ == self@,
    {
        AssetsPaths { sys_dir: self.sys_dir.clone(), usr_dir: self.usr_dir.clone() }
    }
}

/// Strips `dir` from the front of `p`, per [`strip_root`].
fn strip_root_chars(dir: &Vec<char>, p: &Vec<char>) -> (r: Option<RelPath>)
    ensures
        match r {
            Some(rest) => strip_root(dir@, p@) == Some(rest@),
            None => strip_root(dir@, p@) is None,
        },
{
    if p.len() < dir.len() {
        return None;
    }
    let mut i: usize = 0;
    while i < dir.len()
        invariant
            i <= dir@.len() <= p@.len(),
            forall|j: int| 0 <= j < i ==> p@[j] == dir@[j],
        decreases dir@.len() - i,
    {
        if p[i] != dir[i] {
            proof {
                assert(p@.take(dir@.len() as int)[i as int] != dir@[i as int]);
            }
            return None;
        }
        i = i + 1;
    }
    proof {
        assert(p@.take(dir@.len() as int) =~= dir@);
    }
    if p.len() == dir.len() {
        let empty: Vec<char> = Vec::new();
        proof {
            assert(p@.skip(dir@.len() as int).len() == 0);
            assert(empty@ =~= Seq::<char>::empty());
        }
        Some(RelPath::from_chars(&empty))
    } else {
        if p[dir.len()] == '/' {
            let mut rest: Vec<char> = Vec::new();
            let mut j: usize = dir.len() + 1;
            while j < p.len()
                invariant
                    dir@.len() + 1 <= j <= p@.len(),
                    rest@ == p@.subrange(dir@.len() as int + 1, j as int),
                decreases p@.len() - j,
            {
                rest.push(p[j]);
                proof {
                    assert(rest@ =~= p@.subrange(dir@.len() as int + 1, j + 1));
                }
                j = j + 1;
            }
            proof {
                assert(rest@ =~= p@.skip(dir@.len() as int).skip(1));
            }
            Some(RelPath::from_chars(&rest))
        } else {
            proof {
                assert(p@.skip(dir@.len() as int)[0] == p@[dir@.len() as int]);
            }
            None
        }
    }
}

impl AssetsPaths {
    pub fn new(sys_dir: String, usr_dir: String) -> (r: Self)
        ensures
            r@ == (AssetsPathsV { sys_dir: sys_dir@, usr_dir: usr_dir@ }),
    {
        AssetsPaths { sys_dir, usr_dir }
    }

    pub fn sys_dir(&self) -> (r: &str)
        ensures
            r@ == self@.sys_dir,
    {
        self.sys_dir.as_str()
    }

    pub fn usr_dir(&self) -> (r: &str)
        ensures
            r@ == self@.usr_dir,
    {
        self.usr_dir.as_str()
    }

    /// The root directory backing a content root.
    pub fn asset_dir(&self, kind: AssetPathKind) -> (r: &str)
        ensures
            kind == AssetPathKind::Sys ==> r@ == self@.sys_dir,
            kind == AssetPathKind::Usr ==> r@ == self@.usr_dir,
    {
        match kind {
            AssetPathKind::Sys => self.sys_dir.as_str(),
            AssetPathKind::Usr => self.usr_dir.as_str(),
        }
    }

    /// The root under which a raw path lies, if any.
    pub fn asset_path_kind(&self, path: &str) -> (r: Option<AssetPathKind>)
        ensures
            match r {
                Some(k) => asset_path_of(self@.sys_dir, self@.usr_dir, path@) matches Some(ap)
                    && ap.kind == k,
                None => asset_path_of(self@.sys_dir, self@.usr_dir, path@) is None,
            },
    {
        match self.asset_path(path) {
            Some(ap) => Some(ap.kind()),
            None => None,
        }
    }

    /// The asset path of a raw path text, per [`asset_path_of`]: the path
    /// relative to whichever root prefixes it.
    pub fn asset_path(&self, path: &str) -> (r: Option<AssetPath>)
        ensures
            match r {
                Some(ap) => asset_path_of(self@.sys_dir, self@.usr_dir, path@) == Some(ap@),
                None => asset_path_of(self@.sys_dir, self@.usr_dir, path@) is None,
            },
    {
        let p = str_to_chars(path);
        let sys = str_to_chars(self.sys_dir.as_str());
        match strip_root_chars(&sys, &p) {
            Some(rest) => Some(AssetPath::new(AssetPathKind::Sys, rest)),
            None => {
                let usr = str_to_chars(self.usr_dir.as_str());
                match strip_root_chars(&usr, &p) {
                    Some(rest) => Some(AssetPath::new(AssetPathKind::Usr, rest)),
                    None => None,
                }
            },
        }
    }
}

/// The count an identity holds in a counter map: zero when unregistered.
pub open spec fn count_at(m: Map<AssetIdV, u64>, id: AssetIdV) -> u64 {
    if m.contains_key(id) {
        m[id]
    } else {
        0
    }
}

/// A counter bumps by one and saturates at its numeric limit: a saturated
/// reference count means the identity is simply never collected, and a
/// saturated request counter stops distinguishing newer requests.
pub open spec fn bump(c: u64) -> u64 {
    if c < u64::MAX {
        (c + 1) as u64
    } else {
        c
    }
}

/// The counters after a whole table is upgraded, entry by entry.
pub open spec fn upgraded_counts(
    counts: Map<AssetIdV, u64>,
    entries: Seq<(Seq<char>, AssetIdV)>,
) -> Map<AssetIdV, u64>
    decreases entries.len(),
{
    if entries.len() == 0 {
        counts
    } else {
        let prev = upgraded_counts(counts, entries.drop_last());
        prev.insert(entries.last().1, bump(count_at(prev, entries.last().1)))
    }
}

/// The load requests a table upgrade raises: one per entry whose identity
/// was unfamiliar when it was reached, path-backed entries only.
pub open spec fn upgrade_requests(
    counts: Map<AssetIdV, u64>,
    entries: Seq<(Seq<char>, AssetIdV)>,
) -> Seq<LoadAssetEventV>
    decreases entries.len(),
{
    if entries.len() == 0 {
        Seq::empty()
    } else {
        let prev_counts = upgraded_counts(counts, entries.drop_last());
        let prev = upgrade_requests(counts, entries.drop_last());
        let id = entries.last().1;
        if !prev_counts.contains_key(id) && id.uri is AssetPath {
            prev.push(LoadAssetEventV { id, force: false })
        } else {
            prev
        }
    }
}

/// The identities filed in the reverse index under one asset path, in index
/// order.
pub open spec fn ids_at(index: Seq<(AssetPathV, AssetIdV)>, p: AssetPathV) -> Seq<AssetIdV>
    decreases index.len(),
{
    if index.len() == 0 {
        Seq::empty()
    } else {
        let rest = ids_at(index.drop_last(), p);
        if index.last().0 == p {
            rest.push(index.last().1)
        } else {
            rest
        }
    }
}

/// No pair is filed in the reverse index twice.
pub open spec fn index_pairs_distinct(index: Seq<(AssetPathV, AssetIdV)>) -> bool {
    forall|i: int, j: int| 0 <= i < j < index.len() ==> #[trigger] index[i] != #[trigger] index[j]
}

/// Every reverse index entry names a path-backed identity whose counter
/// still exists.
pub open spec fn index_entries_wf(
    index: Seq<(AssetPathV, AssetIdV)>,
    counts: Map<AssetIdV, u64>,
) -> bool {
    forall|i: int|
        0 <= i < index.len() ==> (#[trigger] index[i]).1.uri == AssetUriV::AssetPath(index[i].0)
            && counts.contains_key(index[i].1)
}

/// Every resident value belongs to an identity whose counter still exists.
pub open spec fn values_registered(
    values: Map<AssetIdV, AssetValue>,
    counts: Map<AssetIdV, u64>,
) -> bool {
    forall|k: AssetIdV| #[trigger] values.contains_key(k) ==> counts.contains_key(k)
}

/// A counter map that gained a key still backs the same index entries.
proof fn lemma_index_wf_insert(
    index: Seq<(AssetPathV, AssetIdV)>,
    counts: Map<AssetIdV, u64>,
    id: AssetIdV,
    c: u64,
)
    requires
        index_entries_wf(index, counts),
    ensures
        index_entries_wf(index, counts.insert(id, c)),
{
}

/// A counter map that gained a key still registers the same values.
proof fn lemma_values_registered_insert(
    values: Map<AssetIdV, AssetValue>,
    counts: Map<AssetIdV, u64>,
    id: AssetIdV,
    c: u64,
)
    requires
        values_registered(values, counts),
    ensures
        values_registered(values, counts.insert(id, c)),
{
}

/// A value installed for a registered identity keeps the values registered.
proof fn lemma_values_registered_value_insert(
    values: Map<AssetIdV, AssetValue>,
    counts: Map<AssetIdV, u64>,
    id: AssetIdV,
    a: AssetValue,
)
    requires
        values_registered(values, counts),
        counts.contains_key(id),
    ensures
        values_registered(values.insert(id, a), counts),
{
}

/// Whether an identity still has at least one strong holder.
pub open spec fn live(counts: Map<AssetIdV, u64>, id: AssetIdV) -> bool {
    counts.contains_key(id) && counts[id] >= 1
}

/// The resident values after a batch is installed: each entry whose identity
/// is still held lands in the table, later entries winning.
pub open spec fn committed_values(
    m: Map<AssetIdV, AssetValue>,
    counts: Map<AssetIdV, u64>,
    es: Seq<crate::event::SyncQueueEntryV>,
) -> Map<AssetIdV, AssetValue>
    decreases es.len(),
{
    if es.len() == 0 {
        m
    } else {
        let prev = committed_values(m, counts, es.drop_last());
        if live(counts, es.last().id) {
            prev.insert(es.last().id, es.last().asset)
        } else {
            prev
        }
    }
}

/// The reverse index after a batch is installed: each installed path-backed
/// identity is filed under its path, once.
pub open spec fn committed_index(
    index: Seq<(AssetPathV, AssetIdV)>,
    counts: Map<AssetIdV, u64>,
    es: Seq<crate::event::SyncQueueEntryV>,
) -> Seq<(AssetPathV, AssetIdV)>
    decreases es.len(),
{
    if es.len() == 0 {
        index
    } else {
        let prev = committed_index(index, counts, es.drop_last());
        let e = es.last();
        if live(counts, e.id) {
            match e.id.uri {
                AssetUriV::AssetPath(p) => if prev.contains((p, e.id)) {
                    prev
                } else {
                    prev.push((p, e.id))
                },
                AssetUriV::Uuid(_) => prev,
            }
        } else {
            prev
        }
    }
}

/// The stashed unload notifications after a batch is installed.
pub open spec fn committed_unloaded(
    u: Map<AssetIdV, AssetEventV>,
    counts: Map<AssetIdV, u64>,
    es: Seq<crate::event::SyncQueueEntryV>,
) -> Map<AssetIdV, AssetEventV>
    decreases es.len(),
{
    if es.len() == 0 {
        u
    } else {
        let prev = committed_unloaded(u, counts, es.drop_last());
        if live(counts, es.last().id) {
            prev.insert(es.last().id, es.last().unloaded_event)
        } else {
            prev
        }
    }
}

/// The load notifications a batch produces, in queue order.
pub open spec fn committed_loaded(
    counts: Map<AssetIdV, u64>,
    es: Seq<crate::event::SyncQueueEntryV>,
) -> Seq<AssetEventV>
    decreases es.len(),
{
    if es.len() == 0 {
        Seq::empty()
    } else {
        let prev = committed_loaded(counts, es.drop_last());
        if live(counts, es.last().id) {
            prev.push(es.last().loaded_event)
        } else {
            prev
        }
    }
}

/// Law (commit completeness): a commit installs the whole batch — every
/// queued entry whose identity still has a strong holder is resident
/// afterwards, however many signals were coalesced into the one commit.
pub proof fn lemma_commit_installs_batch(
    m: Map<AssetIdV, AssetValue>,
    counts: Map<AssetIdV, u64>,
    es: Seq<crate::event::SyncQueueEntryV>,
    i: int,
)
    requires
        0 <= i < es.len(),
        live(counts, es[i].id),
    ensures
        committed_values(m, counts, es).contains_key(es[i].id),
    decreases es.len(),
{
    if i == es.len() - 1 {
    } else {
        assert(es.drop_last()[i] == es[i]);
        lemma_commit_installs_batch(m, counts, es.drop_last(), i);
    }
}

/// Law (commit frame): a commit touches no identity outside its batch.
pub proof fn lemma_commit_frame(
    m: Map<AssetIdV, AssetValue>,
    counts: Map<AssetIdV, u64>,
    es: Seq<crate::event::SyncQueueEntryV>,
    k: AssetIdV,
)
    requires
        forall|i: int| 0 <= i < es.len() ==> (#[trigger] es[i]).id != k,
    ensures
        committed_values(m, counts, es).contains_key(k) == m.contains_key(k),
        m.contains_key(k) ==> committed_values(m, counts, es)[k] == m[k],
    decreases es.len(),
{
    if es.len() > 0 {
        assert forall|i: int| 0 <= i < es.drop_last().len() implies (#[trigger] es.drop_last()[
        i]).id != k by {
            assert(es.drop_last()[i] == es[i]);
        }
        lemma_commit_frame(m, counts, es.drop_last(), k);
        assert(es[es.len() - 1].id != k);
    }
}

/// Law (collection safety): an identity with at least one strong holder is
/// never selected by a sweep, however many sweeps run.
pub proof fn lemma_gc_never_selects_live(
    list: Seq<(AssetIdV, u64)>,
    at: int,
    end: int,
    id: AssetIdV,
)
    requires
        keys_unique(list),
        assoc_map(list).contains_key(id),
        assoc_map(list)[id] >= 1,
    ensures
        !victims_of(list, at, end).contains(id),
{
    lemma_victims_zero(list, at, end);
    if victims_of(list, at, end).contains(id) {
        let m = choose|m: int|
            0 <= m < victims_of(list, at, end).len() && victims_of(list, at, end)[m] == id;
        assert(false);
    }
}

/// Law (collection progress): a zero-count entry inside the scanned window
/// is selected by that sweep; with the scan position advancing by the sweep
/// width each tick, every entry is eventually visited.
pub proof fn lemma_gc_selects_window(list: Seq<(AssetIdV, u64)>, at: int, end: int, i: int)
    requires
        0 <= at <= i < end <= list.len(),
        list[i].1 == 0,
    ensures
        victims_of(list, at, end).contains(list[i].0),
    decreases end,
{
    if i == end - 1 {
        let vs = victims_of(list, at, end);
        assert(vs[vs.len() - 1] == list[i].0);
    } else {
        lemma_gc_selects_window(list, at, end - 1, i);
        let prev = victims_of(list, at, end - 1);
        let j = choose|j: int| 0 <= j < prev.len() && prev[j] == list[i].0;
        assert(victims_of(list, at, end)[j] == list[i].0);
    }
}

/// Where a sweep's scan window ends: `max` entries past `at`, clamped to the
/// table's length.
pub open spec fn gc_window_end(at: int, max: int, len: int) -> int {
    if at + max <= len {
        at + max
    } else {
        len
    }
}

/// The identities in the scanned window whose counter reads zero, in scan
/// order.
pub open spec fn victims_of(list: Seq<(AssetIdV, u64)>, at: int, end: int) -> Seq<AssetIdV>
    decreases end - at,
{
    if 0 <= at && at < end && end <= list.len() {
        let prev = victims_of(list, at, end - 1);
        if list[end - 1].1 == 0 {
            prev.push(list[end - 1].0)
        } else {
            prev
        }
    } else {
        Seq::empty()
    }
}

/// Every selected identity's counter read zero at scan time.
proof fn lemma_victims_zero(list: Seq<(AssetIdV, u64)>, at: int, end: int)
    requires
        keys_unique(list),
    ensures
        forall|m: int|
            0 <= m < victims_of(list, at, end).len() ==> {
                let v = #[trigger] victims_of(list, at, end)[m];
                assoc_map(list).contains_key(v) && assoc_map(list)[v] == 0
            },
    decreases end - at,
{
    if 0 <= at && at < end && end <= list.len() {
        lemma_victims_zero(list, at, end - 1);
        if list[end - 1].1 == 0 {
            lemma_assoc_map_index(list, end - 1);
        }
    }
}

/// The unload notifications a sweep emits: the stashed notification of each
/// removed identity, in removal order, each at most once.
pub open spec fn gc_events(u: Map<AssetIdV, AssetEventV>, vs: Seq<AssetIdV>) -> Seq<AssetEventV>
    decreases vs.len(),
{
    if vs.len() == 0 {
        Seq::empty()
    } else {
        let first = vs[0];
        let tail = gc_events(u.remove(first), vs.skip(1));
        if u.contains_key(first) {
            seq![u[first]] + tail
        } else {
            tail
        }
    }
}

/// The reverse index entries whose identity is not being removed.
pub open spec fn pairs_without(s: Seq<(AssetPathV, AssetIdV)>, id: AssetIdV) -> Seq<
    (AssetPathV, AssetIdV),
>
    decreases s.len(),
{
    if s.len() == 0 {
        s
    } else {
        let prev = pairs_without(s.drop_last(), id);
        if s.last().1 == id {
            prev
        } else {
            prev.push(s.last())
        }
    }
}

/// With nothing to remove, the reverse index is untouched.
proof fn lemma_index_without_nil(s: Seq<(AssetPathV, AssetIdV)>)
    ensures
        index_without(s, Seq::<AssetIdV>::empty()) == s,
    decreases s.len(),
{
    if s.len() > 0 {
        lemma_index_without_nil(s.drop_last());
        assert(index_without(s, Seq::<AssetIdV>::empty()) =~= s);
    }
}

/// The reverse index entries whose identity is in none of the given lists.
pub open spec fn index_without(
    s: Seq<(AssetPathV, AssetIdV)>,
    victims: Seq<AssetIdV>,
) -> Seq<(AssetPathV, AssetIdV)>
    decreases s.len(),
{
    if s.len() == 0 {
        s
    } else {
        let prev = index_without(s.drop_last(), victims);
        if victims.contains(s.last().1) {
            prev
        } else {
            prev.push(s.last())
        }
    }
}

/// What survives [`pairs_without`]: entries of the given index whose
/// identity differs from the removed one, distinctness kept.
proof fn lemma_pairs_without_facts(s: Seq<(AssetPathV, AssetIdV)>, id: AssetIdV)
    ensures
        forall|m: int|
            0 <= m < pairs_without(s, id).len() ==> (#[trigger] pairs_without(s, id)[m]).1 != id
                && s.contains(pairs_without(s, id)[m]),
        index_pairs_distinct(s) ==> index_pairs_distinct(pairs_without(s, id)),
    decreases s.len(),
{
    if s.len() > 0 {
        lemma_pairs_without_facts(s.drop_last(), id);
        let out = pairs_without(s, id);
        let prev = pairs_without(s.drop_last(), id);
        assert forall|m: int|
            0 <= m < out.len() implies (#[trigger] out[m]).1 != id && s.contains(out[m]) by {
            if m < prev.len() {
                assert(prev[m].1 != id && s.drop_last().contains(prev[m]));
                let j = choose|j: int|
                    0 <= j < s.drop_last().len() && s.drop_last()[j] == prev[m];
                assert(s[j] == prev[m]);
            } else {
                assert(out[m] == s.last());
                assert(s[s.len() - 1] == s.last());
            }
        }
        if index_pairs_distinct(s) {
            assert forall|a: int, b: int|
                0 <= a < s.drop_last().len() && 0 <= b < s.drop_last().len() && a < b implies (
            #[trigger] s.drop_last()[a]) != (#[trigger] s.drop_last()[b]) by {
                assert(s.drop_last()[a] == s[a] && s.drop_last()[b] == s[b]);
            }
            assert forall|a: int, b: int| 0 <= a < b < out.len() implies (#[trigger] out[a]) != (
            #[trigger] out[b]) by {
                if b < prev.len() {
                } else {
                    assert(out[b] == s.last());
                    assert(prev[a].1 != id && s.drop_last().contains(prev[a]));
                    let j = choose|j: int|
                        0 <= j < s.drop_last().len() && s.drop_last()[j] == prev[a];
                    assert(s[j] == prev[a]);
                    assert(s[j] != s[s.len() - 1]);
                }
            }
        }
    }
}

/// Removing the pairs of one more identity, per [`pairs_without`], steps
/// [`index_without`] one victim forward.
proof fn lemma_index_without_step(
    s: Seq<(AssetPathV, AssetIdV)>,
    victims: Seq<AssetIdV>,
    k: int,
)
    requires
        0 <= k < victims.len(),
    ensures
        pairs_without(index_without(s, victims.take(k)), victims[k]) == index_without(
            s,
            victims.take(k + 1),
        ),
    decreases s.len(),
{
    if s.len() > 0 {
        lemma_index_without_step(s.drop_last(), victims, k);
        let prev_k = index_without(s.drop_last(), victims.take(k));
        assert(victims.take(k + 1).drop_last() =~= victims.take(k));
        assert forall|y: AssetIdV| #[trigger] victims.take(k + 1).contains(y) implies victims.take(
            k,
        ).contains(y) || y == victims[k] by {
            let j = choose|j: int| 0 <= j < victims.take(k + 1).len() && #[trigger] victims.take(k + 1)[j] == y;
            if j < k {
                assert(victims.take(k)[j] == y);
            }
        }
        assert forall|y: AssetIdV| victims.take(k).contains(y) implies #[trigger] victims.take(
            k + 1,
        ).contains(y) by {
            let j = choose|j: int| 0 <= j < victims.take(k).len() && #[trigger] victims.take(k)[j] == y;
            assert(victims.take(k + 1)[j] == y);
        }
        if !victims.take(k).contains(s.last().1) {
            assert(pairs_without(prev_k.push(s.last()), victims[k]) == if s.last().1 == victims[k] {
                pairs_without(prev_k, victims[k])
            } else {
                pairs_without(prev_k, victims[k]).push(s.last())
            }) by {
                assert(prev_k.push(s.last()).drop_last() =~= prev_k);
            }
            assert(victims.take(k + 1).contains(s.last().1) <==> s.last().1 == victims[k]) by {
                if s.last().1 == victims[k] {
                    assert(victims.take(k + 1)[k] == victims[k]);
                }
            }
        }
    } else {
        assert(index_without(s, victims.take(k)) =~= Seq::<(AssetPathV, AssetIdV)>::empty());
    }
}

/// Whether an upgrade found the identity already registered.
pub enum RegisterAssetResult {
    Preexisting(StrongAssetId),
    Unfamiliar(StrongAssetId),
}

/// The shared store: resident values, reference counters, the path reverse
/// index, stashed unload notifications, and the content-root directories.
#[derive(Debug)]
pub struct Assets {
    underlying: Vec<(UntypedAssetId, AssetValue)>,
    counters: Vec<Counted<UntypedAssetId>>,
    path_id_index: Vec<(AssetPath, UntypedAssetId)>,
    unloaded_events: Vec<(UntypedAssetId, AssetEvent)>,
    paths: AssetsPaths,
}

impl Assets {
    /// The resident values, as a list of keyed pairs.
    pub closed spec fn values_list(&self) -> Seq<(AssetIdV, AssetValue)> {
        self.underlying@.map_values(|e: (UntypedAssetId, AssetValue)| (e.0@, e.1))
    }

    /// The resident values: identity to value.
    pub open spec fn values(&self) -> Map<AssetIdV, AssetValue> {
        assoc_map(self.values_list())
    }

    /// The counter table, in registration order (the collector's scan order).
    pub closed spec fn counter_list(&self) -> Seq<(AssetIdV, u64)> {
        self.counters@.map_values(|c: Counted<UntypedAssetId>| (c.t@, c.count))
    }

    /// The reference counters: identity to number of strong holders.
    pub open spec fn counts(&self) -> Map<AssetIdV, u64> {
        assoc_map(self.counter_list())
    }

    /// The reverse index: which identities each asset path backs.
    pub closed spec fn path_index(&self) -> Seq<(AssetPathV, AssetIdV)> {
        self.path_id_index@.map_values(|e: (AssetPath, UntypedAssetId)| (e.0@, e.1@))
    }

    /// The stashed unload notifications, as a list of keyed pairs.
    pub closed spec fn unloaded_list(&self) -> Seq<(AssetIdV, AssetEventV)> {
        self.unloaded_events@.map_values(|e: (UntypedAssetId, AssetEvent)| (e.0@, e.1@))
    }

    /// The stashed unload notifications: identity to notification.
    pub open spec fn unloaded(&self) -> Map<AssetIdV, AssetEventV> {
        assoc_map(self.unloaded_list())
    }

    /// The content-root directories.
    pub closed spec fn roots(&self) -> AssetsPathsV {
        self.paths@
    }

    /// Well-formedness: each table keyed once per identity; every reverse
    /// index entry names a path-backed identity that is still registered;
    /// every resident value belongs to a registered identity.
    pub closed spec fn wf(&self) -> bool {
        &&& keys_unique(self.values_list())
        &&& keys_unique(self.counter_list())
        &&& keys_unique(self.unloaded_list())
        &&& index_pairs_distinct(self.path_index())
        &&& index_entries_wf(self.path_index(), self.counts())
        &&& values_registered(self.values(), self.counts())
    }

    /// An empty store over the given roots.
    pub fn new(paths: AssetsPaths) -> (r: Self)
        ensures
            r.wf(),
            r.values() == Map::<AssetIdV, AssetValue>::empty(),
            r.counts() == Map::<AssetIdV, u64>::empty(),
            r.counter_list() == Seq::<(AssetIdV, u64)>::empty(),
            r.path_index() == Seq::<(AssetPathV, AssetIdV)>::empty(),
            r.unloaded() == Map::<AssetIdV, AssetEventV>::empty(),
            r.roots() == paths@,
    {
        let r = Assets {
            underlying: Vec::new(),
            counters: Vec::new(),
            path_id_index: Vec::new(),
            unloaded_events: Vec::new(),
            paths,
        };
        proof {
            assert(r.values_list() =~= Seq::<(AssetIdV, AssetValue)>::empty());
            assert(r.counter_list() =~= Seq::<(AssetIdV, u64)>::empty());
            assert(r.path_index() =~= Seq::<(AssetPathV, AssetIdV)>::empty());
            assert(r.unloaded_list() =~= Seq::<(AssetIdV, AssetEventV)>::empty());
            assert(r.values() =~= Map::<AssetIdV, AssetValue>::empty());
            assert(r.counts() =~= Map::<AssetIdV, u64>::empty());
            assert(r.unloaded() =~= Map::<AssetIdV, AssetEventV>::empty());
        }
        r
    }

    pub fn paths(&self) -> (r: &AssetsPaths)
        ensures
            r@ == self.roots(),
    {
        &self.paths
    }

    /// Replaces the content-root directories (done once, at initialization).
    pub fn set_paths(&mut self, paths: AssetsPaths)
        requires
            old(self).wf(),
        ensures
            final(self).wf(),
            final(self).roots() == paths@,
            final(self).values() == old(self).values(),
            final(self).counts() == old(self).counts(),
            final(self).counter_list() == old(self).counter_list(),
            final(self).path_index() == old(self).path_index(),
            final(self).unloaded() == old(self).unloaded(),
    {
        self.paths = paths;
        proof {
            assert(self.values_list() =~= old(self).values_list());
            assert(self.counter_list() =~= old(self).counter_list());
            assert(self.path_index() =~= old(self).path_index());
            assert(self.unloaded_list() =~= old(self).unloaded_list());
        }
    }

    /// The position of an identity in the counter table.
    fn find_counter(&self, id: &UntypedAssetId) -> (r: Option<usize>)
        ensures
            match r {
                Some(i) => i < self.counter_list().len() && self.counter_list()[i as int].0
                    == id@,
                None => forall|j: int|
                    0 <= j < self.counter_list().len() ==> (#[trigger] self.counter_list()[
                        j
                    ]).0 != id@,
            },
    {
        let mut i: usize = 0;
        while i < self.counters.len()
            invariant
                i <= self.counters@.len(),
                self.counter_list().len() == self.counters@.len(),
                forall|j: int|
                    0 <= j < i ==> (#[trigger] self.counter_list()[j]).0 != id@,
            decreases self.counters@.len() - i,
        {
            if self.counters[i].t.same(id) {
                return Some(i);
            }
            i = i + 1;
        }
        None
    }

    /// How many identities the counter table holds.
    pub fn counters_len(&self) -> (r: usize)
        ensures
            r == self.counter_list().len(),
    {
        self.counters.len()
    }

    /// The position of an identity in the resident-value table.
    fn find_value(&self, id: &UntypedAssetId) -> (r: Option<usize>)
        ensures
            match r {
                Some(i) => i < self.values_list().len() && self.values_list()[i as int].0 == id@,
                None => forall|j: int|
                    0 <= j < self.values_list().len() ==> (#[trigger] self.values_list()[j]).0
                        != id@,
            },
    {
        let mut i: usize = 0;
        while i < self.underlying.len()
            invariant
                i <= self.underlying@.len(),
                self.values_list().len() == self.underlying@.len(),
                forall|j: int|
                    0 <= j < i ==> (#[trigger] self.values_list()[j]).0 != id@,
            decreases self.underlying@.len() - i,
        {
            if self.underlying[i].0.same(id) {
                return Some(i);
            }
            i = i + 1;
        }
        None
    }

    /// Registers one more strong holder of the identity, creating its counter
    /// on first contact.
    pub fn register_asset(&mut self, weak: &WeakAssetId) -> (r: RegisterAssetResult)
        requires
            old(self).wf(),
        ensures
            final(self).wf(),
            final(self).counts() == old(self).counts().insert(
                weak@,
                bump(count_at(old(self).counts(), weak@)),
            ),
            final(self).values() == old(self).values(),
            final(self).path_index() == old(self).path_index(),
            final(self).unloaded() == old(self).unloaded(),
            final(self).roots() == old(self).roots(),
            match r {
                RegisterAssetResult::Preexisting(s) => s@ == weak@ && old(self).counts()
                    .contains_key(weak@) && final(self).counter_list().len() == old(
                    self,
                ).counter_list().len(),
                RegisterAssetResult::Unfamiliar(s) => s@ == weak@ && !old(self).counts()
                    .contains_key(weak@) && final(self).counter_list() == old(
                    self,
                ).counter_list().push((weak@, 1u64)),
            },
    {
        let untyped = weak.untyped().clone();
        match self.find_counter(&untyped) {
            Some(i) => {
                proof {
                    lemma_assoc_map_index(self.counter_list(), i as int);
                    lemma_assoc_map_update(
                        self.counter_list(),
                        i as int,
                        bump(count_at(self.counts(), weak@)),
                    );
                }
                let mut c = self.counters.remove(i);
                if c.count < u64::MAX {
                    c.inc();
                }
                self.counters.insert(i, c);
                proof {
                    assert(self.counter_list() =~= old(self).counter_list().update(
                        i as int,
                        (weak@, bump(count_at(old(self).counts(), weak@))),
                    ));
                    assert(self.values_list() =~= old(self).values_list());
                    assert(self.path_index() =~= old(self).path_index());
                    assert(self.unloaded_list() =~= old(self).unloaded_list());
                    lemma_index_wf_insert(
                        old(self).path_index(),
                        old(self).counts(),
                        weak@,
                        bump(count_at(old(self).counts(), weak@)),
                    );
                    lemma_values_registered_insert(
                        old(self).values(),
                        old(self).counts(),
                        weak@,
                        bump(count_at(old(self).counts(), weak@)),
                    );
                }
                RegisterAssetResult::Preexisting(StrongAssetId::from_untyped(untyped))
            },
            None => {
                proof {
                    lemma_assoc_map_absent(self.counter_list(), weak@);
                    lemma_assoc_map_push(self.counter_list(), weak@, 1u64);
                }
                self.counters.push(Counted::one(untyped.clone()));
                proof {
                    assert(self.counter_list() =~= old(self).counter_list().push((weak@, 1u64)));
                    assert(self.values_list() =~= old(self).values_list());
                    assert(self.path_index() =~= old(self).path_index());
                    assert(self.unloaded_list() =~= old(self).unloaded_list());
                    lemma_index_wf_insert(old(self).path_index(), old(self).counts(), weak@, 1u64);
                    lemma_values_registered_insert(
                        old(self).values(),
                        old(self).counts(),
                        weak@,
                        1u64,
                    );
                }
                RegisterAssetResult::Unfamiliar(StrongAssetId::from_untyped(untyped))
            },
        }
    }

    /// Gives one strong holder back: call it once per handle that a
    /// registering operation handed out, never for a strength-converted view
    /// of the same registration. A zero counter or an unregistered identity
    /// is left as it is (the collector owns removal).
    pub fn release(&mut self, strong: StrongAssetId)
        requires
            old(self).wf(),
        ensures
            final(self).wf(),
            final(self).counts() == if old(self).counts().contains_key(strong@) && count_at(
                old(self).counts(),
                strong@,
            ) >= 1 {
                old(self).counts().insert(
                    strong@,
                    (count_at(old(self).counts(), strong@) - 1) as u64,
                )
            } else {
                old(self).counts()
            },
            final(self).values() == old(self).values(),
            final(self).path_index() == old(self).path_index(),
            final(self).unloaded() == old(self).unloaded(),
            final(self).roots() == old(self).roots(),
    {
        match self.find_counter(strong.untyped()) {
            Some(i) => {
                proof {
                    lemma_assoc_map_index(self.counter_list(), i as int);
                }
                let c_now = self.counters[i].count;
                if c_now >= 1 {
                    proof {
                        lemma_assoc_map_update(
                            self.counter_list(),
                            i as int,
                            (count_at(self.counts(), strong@) - 1) as u64,
                        );
                    }
                    let mut c = self.counters.remove(i);
                    c.dec();
                    self.counters.insert(i, c);
                    proof {
                        assert(self.counter_list() =~= old(self).counter_list().update(
                            i as int,
                            (strong@, (count_at(old(self).counts(), strong@) - 1) as u64),
                        ));
                        assert(self.values_list() =~= old(self).values_list());
                        assert(self.path_index() =~= old(self).path_index());
                        assert(self.unloaded_list() =~= old(self).unloaded_list());
                        lemma_index_wf_insert(
                            old(self).path_index(),
                            old(self).counts(),
                            strong@,
                            (count_at(old(self).counts(), strong@) - 1) as u64,
                        );
                        lemma_values_registered_insert(
                            old(self).values(),
                            old(self).counts(),
                            strong@,
                            (count_at(old(self).counts(), strong@) - 1) as u64,
                        );
                    }
                }
            },
            None => {
                proof {
                    lemma_assoc_map_absent(self.counter_list(), strong@);
                }
            },
        }
    }

    /// One more strong handle of the same identity: one more registration.
    pub fn clone_strong(&mut self, strong: &StrongAssetId) -> (r: StrongAssetId)
        requires
            old(self).wf(),
        ensures
            final(self).wf(),
            r@ == strong@,
            final(self).counts() == old(self).counts().insert(
                strong@,
                bump(count_at(old(self).counts(), strong@)),
            ),
            final(self).values() == old(self).values(),
            final(self).path_index() == old(self).path_index(),
            final(self).unloaded() == old(self).unloaded(),
            final(self).roots() == old(self).roots(),
    {
        match self.register_asset(&strong.to_weak()) {
            RegisterAssetResult::Preexisting(s) => s,
            RegisterAssetResult::Unfamiliar(s) => s,
        }
    }

    /// Upgrades a weak handle only if its identity is already registered:
    /// no side effects for identities that must already be known.
    pub fn try_upgrade(&mut self, weak: &WeakAssetId) -> (r: Option<StrongAssetId>)
        requires
            old(self).wf(),
        ensures
            final(self).wf(),
            final(self).values() == old(self).values(),
            final(self).path_index() == old(self).path_index(),
            final(self).unloaded() == old(self).unloaded(),
            final(self).roots() == old(self).roots(),
            match r {
                Some(s) => s@ == weak@ && old(self).counts().contains_key(weak@)
                    && final(self).counts() == old(self).counts().insert(
                    weak@,
                    bump(count_at(old(self).counts(), weak@)),
                ),
                None => !old(self).counts().contains_key(weak@)
                    && final(self).counts() == old(self).counts(),
            },
    {
        match self.find_counter(weak.untyped()) {
            Some(i) => {
                proof {
                    lemma_assoc_map_index(self.counter_list(), i as int);
                }
                match self.register_asset(weak) {
                    RegisterAssetResult::Preexisting(s) => Some(s),
                    RegisterAssetResult::Unfamiliar(s) => Some(s),
                }
            },
            None => {
                proof {
                    lemma_assoc_map_absent(self.counter_list(), weak@);
                }
                None
            },
        }
    }

    /// Whether the identity's value is resident.
    pub fn has_untyped(&self, id: &UntypedAssetId) -> (r: bool)
        requires
            self.wf(),
        ensures
            r == self.values().contains_key(id@),
    {
        match self.find_value(id) {
            Some(i) => {
                proof {
                    lemma_assoc_map_index(self.values_list(), i as int);
                }
                true
            },
            None => {
                proof {
                    lemma_assoc_map_absent(self.values_list(), id@);
                }
                false
            },
        }
    }

    /// Whether the handle's asset is resident.
    pub fn has(&self, id: &WeakAssetId) -> (r: bool)
        requires
            self.wf(),
        ensures
            r == self.values().contains_key(id@),
    {
        self.has_untyped(id.untyped())
    }

    /// The resident value behind any identity, if there is one.
    pub fn try_get(&self, id: &UntypedAssetId) -> (r: Option<&AssetValue>)
        requires
            self.wf(),
        ensures
            match r {
                Some(v) => self.values().contains_key(id@) && self.values()[id@] == v,
                None => !self.values().contains_key(id@),
            },
    {
        match self.find_value(id) {
            Some(i) => {
                proof {
                    lemma_assoc_map_index(self.values_list(), i as int);
                }
                Some(&self.underlying[i].1)
            },
            None => {
                proof {
                    lemma_assoc_map_absent(self.values_list(), id@);
                }
                None
            },
        }
    }

    /// The resident value behind a loaded handle. A loaded handle was handed
    /// out only against a resident value, so this cannot fail.
    pub fn get(&self, id: &LoadedAssetId) -> (r: &AssetValue)
        requires
            self.wf(),
            self.values().contains_key(id@),
        ensures
            r == self.values()[id@],
    {
        proof {
            crate::assoc::lemma_assoc_map_domain(self.values_list(), id@);
        }
        match self.find_value(id.untyped()) {
            Some(i) => {
                proof {
                    lemma_assoc_map_index(self.values_list(), i as int);
                }
                &self.underlying[i].1
            },
            None => unreached(),
        }
    }

    /// Confirms residency: the loaded handle exists exactly when the strong
    /// handle's asset is resident. The loaded handle is a view of `strong`'s
    /// registration, not a registration of its own.
    pub fn try_loaded(&self, strong: &StrongAssetId) -> (r: Option<LoadedAssetId>)
        requires
            self.wf(),
        ensures
            match r {
                Some(l) => l@ == strong@ && self.values().contains_key(strong@),
                None => !self.values().contains_key(strong@),
            },
    {
        if self.has_untyped(strong.untyped()) {
            Some(StrongAssetId::from_untyped(strong.untyped().clone()).promised_loaded())
        } else {
            None
        }
    }

    /// The position of an identity in the unload-notification table.
    fn find_unloaded(&self, id: &UntypedAssetId) -> (r: Option<usize>)
        ensures
            match r {
                Some(i) => i < self.unloaded_list().len() && self.unloaded_list()[i as int].0
                    == id@,
                None => forall|j: int|
                    0 <= j < self.unloaded_list().len() ==> (#[trigger] self.unloaded_list()[
                        j
                    ]).0 != id@,
            },
    {
        let mut i: usize = 0;
        while i < self.unloaded_events.len()
            invariant
                i <= self.unloaded_events@.len(),
                self.unloaded_list().len() == self.unloaded_events@.len(),
                forall|j: int|
                    0 <= j < i ==> (#[trigger] self.unloaded_list()[j]).0 != id@,
            decreases self.unloaded_events@.len() - i,
        {
            if self.unloaded_events[i].0.same(id) {
                return Some(i);
            }
            i = i + 1;
        }
        None
    }

    /// The position of a pair in the reverse index.
    fn find_index_pair(&self, p: &AssetPath, id: &UntypedAssetId) -> (r: Option<usize>)
        ensures
            match r {
                Some(i) => i < self.path_index().len() && self.path_index()[i as int] == (
                    p@,
                    id@,
                ),
                None => forall|j: int|
                    0 <= j < self.path_index().len() ==> #[trigger] self.path_index()[j] != (
                        p@,
                        id@,
                    ),
            },
    {
        let mut i: usize = 0;
        while i < self.path_id_index.len()
            invariant
                i <= self.path_id_index@.len(),
                self.path_index().len() == self.path_id_index@.len(),
                forall|j: int| 0 <= j < i ==> #[trigger] self.path_index()[j] != (p@, id@),
            decreases self.path_id_index@.len() - i,
        {
            let same_p = self.path_id_index[i].0.same(p);
            let same_id = self.path_id_index[i].1.same(id);
            if same_p && same_id {
                return Some(i);
            }
            i = i + 1;
        }
        None
    }

    /// Installs a whole batch at once: every queued entry whose identity
    /// still has a holder becomes resident, its path is filed in the reverse
    /// index, and its unload notification is stashed. The load notifications
    /// of the batch are returned in one sweep, never interleaved with the
    /// inserts, dependencies before the entries that discovered them (the
    /// reverse of queue order).
    pub fn extend(&mut self, entries: Vec<SyncQueueEntry>) -> (r: Vec<AssetEvent>)
        requires
            old(self).wf(),
        ensures
            final(self).wf(),
            final(self).counts() == old(self).counts(),
            final(self).counter_list() == old(self).counter_list(),
            final(self).roots() == old(self).roots(),
            final(self).values() == committed_values(
                old(self).values(),
                old(self).counts(),
                entries@.map_values(|e: SyncQueueEntry| e@),
            ),
            final(self).path_index() == committed_index(
                old(self).path_index(),
                old(self).counts(),
                entries@.map_values(|e: SyncQueueEntry| e@),
            ),
            final(self).unloaded() == committed_unloaded(
                old(self).unloaded(),
                old(self).counts(),
                entries@.map_values(|e: SyncQueueEntry| e@),
            ),
            r@.map_values(|e: AssetEvent| e@) == committed_loaded(
                old(self).counts(),
                entries@.map_values(|e: SyncQueueEntry| e@),
            ).reverse(),
    {
        let ghost orig = entries@.map_values(|e: SyncQueueEntry| e@);
        let mut entries = entries;
        let mut loaded: Vec<AssetEvent> = Vec::new();
        let ghost mut done: int = 0;
        proof {
            assert(entries@.map_values(|e: SyncQueueEntry| e@) =~= orig.skip(0));
            assert(self.values() =~= committed_values(
                old(self).values(),
                old(self).counts(),
                orig.take(0),
            ));
            assert(self.path_index() =~= committed_index(
                old(self).path_index(),
                old(self).counts(),
                orig.take(0),
            ));
            assert(self.unloaded() =~= committed_unloaded(
                old(self).unloaded(),
                old(self).counts(),
                orig.take(0),
            ));
            assert(loaded@.map_values(|e: AssetEvent| e@) =~= committed_loaded(
                old(self).counts(),
                orig.take(0),
            ));
        }
        while entries.len() > 0
            invariant
                0 <= done <= orig.len(),
                done == orig.len() - entries@.len(),
                entries@.map_values(|e: SyncQueueEntry| e@) == orig.skip(done),
                self.wf(),
                self.counts() == old(self).counts(),
                self.counter_list() == old(self).counter_list(),
                self.roots() == old(self).roots(),
                self.values() == committed_values(
                    old(self).values(),
                    old(self).counts(),
                    orig.take(done),
                ),
                self.path_index() == committed_index(
                    old(self).path_index(),
                    old(self).counts(),
                    orig.take(done),
                ),
                self.unloaded() == committed_unloaded(
                    old(self).unloaded(),
                    old(self).counts(),
                    orig.take(done),
                ),
                loaded@.map_values(|e: AssetEvent| e@) == committed_loaded(
                    old(self).counts(),
                    orig.take(done),
                ),
            decreases entries@.len(),
        {
            let ghost pre = *self;
            let ghost entsv = entries@;
            let e = entries.remove(0);
            proof {
                assert(entsv.map_values(|x: SyncQueueEntry| x@)[0] == e@);
                assert(orig.skip(done)[0] == orig[done]);
                assert(e@ == orig[done]);
                assert forall|k: int| 0 <= k < entries@.len() implies (#[trigger] entries@[k])@
                    == orig[done + 1 + k] by {
                    assert(entries@[k] == entsv[k + 1]);
                    assert(entsv.map_values(|x: SyncQueueEntry| x@)[k + 1] == entsv[k + 1]@);
                    assert(orig.skip(done)[k + 1] == orig[done + 1 + k]);
                }
                assert(entries@.map_values(|x: SyncQueueEntry| x@) =~= orig.skip(done + 1));
                assert(orig.take(done + 1).drop_last() =~= orig.take(done));
                assert(orig.take(done + 1).last() == orig[done]);
            }
            let is_live = match self.find_counter(&e.asset_id) {
                Some(i) => {
                    proof {
                        lemma_assoc_map_index(self.counter_list(), i as int);
                    }
                    self.counters[i].count >= 1
                },
                None => {
                    proof {
                        lemma_assoc_map_absent(self.counter_list(), e.asset_id@);
                    }
                    false
                },
            };
            proof {
                assert(is_live == live(old(self).counts(), orig[done].id));
            }
            if is_live {
                let SyncQueueEntry { asset_id, asset, loaded_event, unloaded_event } = e;
                // Install the value.
                match self.find_value(&asset_id) {
                    Some(j) => {
                        proof {
                            lemma_assoc_map_update(self.values_list(), j as int, asset);
                        }
                        self.underlying.remove(j);
                        self.underlying.insert(j, (asset_id.clone(), asset));
                        proof {
                            assert(self.values_list() =~= pre.values_list().update(
                                j as int,
                                (asset_id@, asset),
                            ));
                            assert(self.counter_list() =~= pre.counter_list());
                            assert(self.path_index() =~= pre.path_index());
                            assert(self.unloaded_list() =~= pre.unloaded_list());
                            lemma_values_registered_value_insert(
                                pre.values(),
                                pre.counts(),
                                asset_id@,
                                asset,
                            );
                        }
                    },
                    None => {
                        proof {
                            lemma_assoc_map_absent(self.values_list(), asset_id@);
                            lemma_assoc_map_push(self.values_list(), asset_id@, asset);
                        }
                        self.underlying.push((asset_id.clone(), asset));
                        proof {
                            assert(self.values_list() =~= pre.values_list().push(
                                (asset_id@, asset),
                            ));
                            assert(self.counter_list() =~= pre.counter_list());
                            assert(self.path_index() =~= pre.path_index());
                            assert(self.unloaded_list() =~= pre.unloaded_list());
                            lemma_values_registered_value_insert(
                                pre.values(),
                                pre.counts(),
                                asset_id@,
                                asset,
                            );
                        }
                    },
                }
                let ghost mid = *self;
                // File the path in the reverse index.
                match asset_id.uri().asset_path() {
                    Some(p) => {
                        match self.find_index_pair(p, &asset_id) {
                            Some(_) => {
                                proof {
                                    assert(self.path_index().contains((p@, asset_id@)));
                                }
                            },
                            None => {
                                proof {
                                    if self.path_index().contains((p@, asset_id@)) {
                                        let j = choose|j: int|
                                            0 <= j < self.path_index().len()
                                                && self.path_index()[j] == (p@, asset_id@);
                                        assert(false);
                                    }
                                }
                                let pc = p.clone();
                                self.path_id_index.push((pc, asset_id.clone()));
                                proof {
                                    assert(self.path_index() =~= mid.path_index().push(
                                        (p@, asset_id@),
                                    ));
                                    assert(self.values_list() =~= mid.values_list());
                                    assert(self.counter_list() =~= mid.counter_list());
                                    assert(self.unloaded_list() =~= mid.unloaded_list());
                                    assert forall|a: int, b: int|
                                        0 <= a < b < self.path_index().len() implies
                                        #[trigger] self.path_index()[a] != #[trigger] self
                                        .path_index()[b] by {
                                        if b < self.path_index().len() - 1 {
                                            assert(mid.path_index()[a] != mid.path_index()[b]);
                                        } else {
                                            assert(mid.path_index()[a] != (p@, asset_id@));
                                        }
                                    }
                                    assert forall|a: int|
                                        0 <= a < self.path_index().len() implies (
                                    #[trigger] self.path_index()[a]).1.uri
                                        == AssetUriV::AssetPath(self.path_index()[a].0)
                                        && self.counts().contains_key(
                                        self.path_index()[a].1,
                                    ) by {
                                        if a < self.path_index().len() - 1 {
                                            assert(mid.path_index()[a] == self.path_index()[a]);
                                        }
                                    }
                                }
                            },
                        }
                    },
                    None => {},
                }
                let ghost mid2 = *self;
                // Stash the unload notification.
                match self.find_unloaded(&asset_id) {
                    Some(j) => {
                        proof {
                            lemma_assoc_map_update(
                                self.unloaded_list(),
                                j as int,
                                unloaded_event@,
                            );
                        }
                        self.unloaded_events.remove(j);
                        self.unloaded_events.insert(j, (asset_id.clone(), unloaded_event));
                        proof {
                            assert(self.unloaded_list() =~= mid2.unloaded_list().update(
                                j as int,
                                (asset_id@, unloaded_event@),
                            ));
                            assert(self.values_list() =~= mid2.values_list());
                            assert(self.counter_list() =~= mid2.counter_list());
                            assert(self.path_index() =~= mid2.path_index());
                        }
                    },
                    None => {
                        proof {
                            lemma_assoc_map_absent(self.unloaded_list(), asset_id@);
                            lemma_assoc_map_push(
                                self.unloaded_list(),
                                asset_id@,
                                unloaded_event@,
                            );
                        }
                        self.unloaded_events.push((asset_id.clone(), unloaded_event));
                        proof {
                            assert(self.unloaded_list() =~= mid2.unloaded_list().push(
                                (asset_id@, unloaded_event@),
                            ));
                            assert(self.values_list() =~= mid2.values_list());
                            assert(self.counter_list() =~= mid2.counter_list());
                            assert(self.path_index() =~= mid2.path_index());
                        }
                    },
                }
                // Collect the load notification for the one sweep at the end.
                loaded.push(loaded_event);
            }
            proof {
                done = done + 1;
            }
        }
        proof {
            assert(orig.take(done) =~= orig);
        }
        // Emit dependencies before their dependents: reverse the queue order.
        let ghost fwd = loaded@;
        let mut rev: Vec<AssetEvent> = Vec::new();
        while loaded.len() > 0
            invariant
                rev@.len() + loaded@.len() == fwd.len(),
                loaded@ == fwd.take(loaded@.len() as int),
                forall|m: int|
                    0 <= m < rev@.len() ==> rev@[m] == fwd[fwd.len() - 1 - m],
            decreases loaded@.len(),
        {
            match loaded.pop() {
                Some(ev) => {
                    rev.push(ev);
                },
                None => {},
            }
        }
        proof {
            assert(rev@.map_values(|e: AssetEvent| e@) =~= fwd.map_values(
                |e: AssetEvent| e@,
            ).reverse());
        }
        rev
    }

    /// Drops every reverse-index pair carrying the given identity.
    fn remove_index_pairs(&mut self, id: &UntypedAssetId)
        ensures
            final(self).path_index() == pairs_without(old(self).path_index(), id@),
            final(self).values_list() == old(self).values_list(),
            final(self).counter_list() == old(self).counter_list(),
            final(self).unloaded_list() == old(self).unloaded_list(),
            final(self).roots() == old(self).roots(),
    {
        let mut kept: Vec<(AssetPath, UntypedAssetId)> = Vec::new();
        let mut i: usize = 0;
        proof {
            assert(kept@.map_values(|e: (AssetPath, UntypedAssetId)| (e.0@, e.1@))
                =~= pairs_without(self.path_index().take(0), id@));
        }
        while i < self.path_id_index.len()
            invariant
                i <= self.path_id_index@.len(),
                *self == *old(self),
                kept@.map_values(|e: (AssetPath, UntypedAssetId)| (e.0@, e.1@)) == pairs_without(
                    self.path_index().take(i as int),
                    id@,
                ),
            decreases self.path_id_index@.len() - i,
        {
            proof {
                assert(self.path_index().take(i + 1).drop_last() =~= self.path_index().take(
                    i as int,
                ));
                assert(self.path_index().take(i + 1).last() == self.path_index()[i as int]);
            }
            if !self.path_id_index[i].1.same(id) {
                let pr = (self.path_id_index[i].0.clone(), self.path_id_index[i].1.clone());
                kept.push(pr);
                proof {
                    assert(kept@.map_values(|e: (AssetPath, UntypedAssetId)| (e.0@, e.1@))
                        =~= pairs_without(self.path_index().take(i + 1), id@));
                }
            }
            i = i + 1;
        }
        proof {
            assert(self.path_index().take(i as int) =~= self.path_index());
        }
        self.path_id_index = kept;
        proof {
            assert(self.values_list() =~= old(self).values_list());
            assert(self.counter_list() =~= old(self).counter_list());
            assert(self.unloaded_list() =~= old(self).unloaded_list());
        }
    }

    /// One incremental sweep of the collector: scans a window of the counter
    /// table starting at `at`, up to `max` entries, and unloads every visited
    /// identity whose counter reads zero — it leaves storage, the counters
    /// and the reverse index, and its stashed unload notification is emitted.
    /// Identities with a strong holder are never selected. Returns the next
    /// scan position (advanced by `max`, modulo the table's length) and the
    /// emitted notifications.
    pub fn gc(&mut self, at: usize, max: usize) -> (r: (usize, Vec<AssetEvent>))
        requires
            old(self).wf(),
        ensures
            final(self).wf(),
            final(self).roots() == old(self).roots(),
            ({
                let len = old(self).counter_list().len() as int;
                let victims = victims_of(
                    old(self).counter_list(),
                    at as int,
                    gc_window_end(at as int, max as int, len),
                );
                &&& final(self).counts() == old(self).counts().remove_keys(victims.to_set())
                &&& final(self).values() == old(self).values().remove_keys(victims.to_set())
                &&& final(self).unloaded() == old(self).unloaded().remove_keys(victims.to_set())
                &&& final(self).path_index() == index_without(old(self).path_index(), victims)
                &&& (forall|m: int|
                    0 <= m < victims.len() ==> count_at(old(self).counts(), #[trigger] victims[m])
                        == 0)
                &&& r.1@.map_values(|e: AssetEvent| e@) == gc_events(old(self).unloaded(), victims)
                &&& (len == 0 ==> r.0 == 0)
                &&& (len > 0 ==> r.0 as int == (at as int + max as int) % len)
            }),
    {
        let len = self.counters.len();
        let ghost window_end = gc_window_end(at as int, max as int, len as int);
        // A read-only scan of the window selects the candidates.
        let start: usize = if at > len {
            len
        } else {
            at
        };
        let end: usize = if max > len - start {
            len
        } else {
            start + max
        };
        let mut victims: Vec<UntypedAssetId> = Vec::new();
        let mut i: usize = start;
        proof {
            assert(victims@.map_values(|v: UntypedAssetId| v@) =~= victims_of(
                self.counter_list(),
                at as int,
                i as int,
            ));
        }
        while i < end
            invariant
                start <= i <= end <= self.counters@.len(),
                end as int == gc_window_end(at as int, max as int, self.counter_list().len() as int),
                start as int == if at as int <= self.counter_list().len() {
                    at as int
                } else {
                    self.counter_list().len() as int
                },
                self.counter_list().len() == self.counters@.len(),
                *self == *old(self),
                victims@.map_values(|v: UntypedAssetId| v@) == victims_of(
                    self.counter_list(),
                    at as int,
                    i as int,
                ),
            decreases end - i,
        {
            if self.counters[i].count == 0 {
                victims.push(self.counters[i].t.clone());
                proof {
                    assert(victims@.map_values(|v: UntypedAssetId| v@) =~= victims_of(
                        self.counter_list(),
                        at as int,
                        i + 1,
                    ));
                }
            } else {
                proof {
                    assert(victims@.map_values(|v: UntypedAssetId| v@) =~= victims_of(
                        self.counter_list(),
                        at as int,
                        i + 1,
                    ));
                }
            }
            i = i + 1;
        }
        let next: usize = if len == 0 {
            0
        } else {
            (((at as u128) + (max as u128)) % (len as u128)) as usize
        };
        let ghost victims_v = victims@.map_values(|v: UntypedAssetId| v@);
        proof {
            assert(i as int == window_end || (at as int > len as int && victims_v.len() == 0));
            if at as int > len as int {
                assert(victims_of(old(self).counter_list(), at as int, window_end) =~= Seq::<
                    AssetIdV,
                >::empty());
                assert(victims_v =~= victims_of(old(self).counter_list(), at as int, window_end));
            }
            lemma_victims_zero(old(self).counter_list(), at as int, window_end);
        }
        // Each candidate is re-checked under exclusive access, then unloaded.
        let mut out: Vec<AssetEvent> = Vec::new();
        let mut k: usize = 0;
        proof {
            assert(self.counts() =~= old(self).counts().remove_keys(victims_v.take(0).to_set()));
            assert(self.values() =~= old(self).values().remove_keys(victims_v.take(0).to_set()));
            assert(self.unloaded() =~= old(self).unloaded().remove_keys(
                victims_v.take(0).to_set(),
            ));
            lemma_index_without_nil(old(self).path_index());
            assert(victims_v.take(0) =~= Seq::<AssetIdV>::empty());
            assert(self.path_index() == index_without(old(self).path_index(), victims_v.take(0)));
            assert(victims_v.skip(0) =~= victims_v);
            assert(out@.map_values(|e: AssetEvent| e@) + gc_events(self.unloaded(), victims_v)
                =~= gc_events(old(self).unloaded(), victims_v));
        }
        while k < victims.len()
            invariant
                k <= victims@.len(),
                victims@.map_values(|v: UntypedAssetId| v@) == victims_v,
                self.wf(),
                self.roots() == old(self).roots(),
                self.counts() == old(self).counts().remove_keys(victims_v.take(k as int).to_set()),
                self.values() == old(self).values().remove_keys(victims_v.take(k as int).to_set()),
                self.unloaded() == old(self).unloaded().remove_keys(
                    victims_v.take(k as int).to_set(),
                ),
                self.path_index() == index_without(old(self).path_index(), victims_v.take(k as int)),
                out@.map_values(|e: AssetEvent| e@) + gc_events(
                    self.unloaded(),
                    victims_v.skip(k as int),
                ) == gc_events(old(self).unloaded(), victims_v),
                forall|m: int|
                    0 <= m < victims_v.len() ==> {
                        let v = #[trigger] victims_v[m];
                        old(self).counts().contains_key(v) && old(self).counts()[v] == 0
                    },
            decreases victims@.len() - k,
        {
            let ghost pre = *self;
            let ghost vk = victims_v[k as int];
            proof {
                assert(victims@.map_values(|v: UntypedAssetId| v@)[k as int] == victims@[
                    k as int
                ]@);
                assert(victims_v.take(k + 1).to_set() =~= victims_v.take(k as int).to_set().insert(
                    vk,
                )) by {
                    assert(victims_v.take(k + 1).drop_last() =~= victims_v.take(k as int));
                    assert forall|y: AssetIdV| #[trigger] victims_v.take(k + 1).contains(y)
                        implies victims_v.take(k as int).to_set().insert(vk).contains(y) by {
                        let j = choose|j: int|
                            0 <= j < victims_v.take(k + 1).len() && #[trigger] victims_v.take(
                                k + 1,
                            )[j] == y;
                        if j < k {
                            assert(victims_v.take(k as int)[j] == y);
                        }
                    }
                    assert forall|y: AssetIdV| victims_v.take(k as int).to_set().insert(
                        vk,
                    ).contains(y) implies #[trigger] victims_v.take(k + 1).contains(y) by {
                        if y == vk {
                            assert(victims_v.take(k + 1)[k as int] == y);
                        } else {
                            let j = choose|j: int|
                                0 <= j < victims_v.take(k as int).len() && #[trigger] victims_v.take(
                                    k as int,
                                )[j] == y;
                            assert(victims_v.take(k + 1)[j] == y);
                        }
                    }
                }
                assert(victims_v.skip(k as int)[0] == vk);
                assert(victims_v.skip(k as int).skip(1) =~= victims_v.skip(k + 1));
                lemma_index_without_step(old(self).path_index(), victims_v, k as int);
                lemma_pairs_without_facts(self.path_index(), vk);
            }
            // The identity leaves the reverse index.
            self.remove_index_pairs(&victims[k]);
            proof {
                assert(self.path_index() =~= index_without(
                    old(self).path_index(),
                    victims_v.take(k + 1),
                ));
            }
            // The counter leaves the table, after the re-check that it still
            // reads zero.
            match self.find_counter(&victims[k]) {
                Some(j) => {
                    proof {
                        lemma_assoc_map_index(self.counter_list(), j as int);
                        if victims_v.take(k as int).to_set().contains(vk) {
                            assert(!self.counts().contains_key(vk));
                            assert(false);
                        }
                        assert(self.counts()[vk] == old(self).counts()[vk]);
                    }
                    if self.counters[j].count == 0 {
                        proof {
                            lemma_assoc_map_remove(self.counter_list(), j as int);
                        }
                        self.counters.remove(j);
                        proof {
                            assert(self.counter_list() =~= pre.counter_list().remove(j as int));
                            assert(self.counts() =~= old(self).counts().remove_keys(
                                victims_v.take(k + 1).to_set(),
                            ));
                        }
                    }
                },
                None => {
                    proof {
                        lemma_assoc_map_absent(self.counter_list(), vk);
                        assert(self.counts() =~= old(self).counts().remove_keys(
                            victims_v.take(k + 1).to_set(),
                        ));
                    }
                },
            }
            let ghost mid = *self;
            // The resident value is unloaded.
            match self.find_value(&victims[k]) {
                Some(j) => {
                    proof {
                        lemma_assoc_map_remove(self.values_list(), j as int);
                    }
                    self.underlying.remove(j);
                    proof {
                        assert(self.values_list() =~= mid.values_list().remove(j as int));
                        assert(self.values() =~= old(self).values().remove_keys(
                            victims_v.take(k + 1).to_set(),
                        ));
                    }
                },
                None => {
                    proof {
                        lemma_assoc_map_absent(self.values_list(), vk);
                        assert(self.values() =~= old(self).values().remove_keys(
                            victims_v.take(k + 1).to_set(),
                        ));
                    }
                },
            }
            let ghost mid2 = *self;
            // The stashed unload notification is emitted, once.
            match self.find_unloaded(&victims[k]) {
                Some(j) => {
                    proof {
                        lemma_assoc_map_index(self.unloaded_list(), j as int);
                        lemma_assoc_map_remove(self.unloaded_list(), j as int);
                    }
                    let pair = self.unloaded_events.remove(j);
                    out.push(pair.1);
                    proof {
                        assert(self.unloaded_list() =~= mid2.unloaded_list().remove(j as int));
                        assert(self.unloaded() =~= old(self).unloaded().remove_keys(
                            victims_v.take(k + 1).to_set(),
                        ));
                        assert(gc_events(mid2.unloaded(), victims_v.skip(k as int)) == seq![
                            mid2.unloaded()[vk],
                        ] + gc_events(mid2.unloaded().remove(vk), victims_v.skip(k + 1)));
                        assert(out@.map_values(|e: AssetEvent| e@) + gc_events(
                            self.unloaded(),
                            victims_v.skip(k + 1),
                        ) =~= gc_events(old(self).unloaded(), victims_v));
                    }
                },
                None => {
                    proof {
                        lemma_assoc_map_absent(self.unloaded_list(), vk);
                        assert(mid2.unloaded().remove(vk) =~= mid2.unloaded());
                        assert(gc_events(mid2.unloaded(), victims_v.skip(k as int)) == gc_events(
                            mid2.unloaded().remove(vk),
                            victims_v.skip(k + 1),
                        ));
                        assert(out@.map_values(|e: AssetEvent| e@) + gc_events(
                            self.unloaded(),
                            victims_v.skip(k + 1),
                        ) =~= gc_events(old(self).unloaded(), victims_v));
                    }
                },
            }
            // Well-formedness after the removals.
            proof {
                lemma_pairs_without_facts(pre.path_index(), vk);
                assert forall|a: int|
                    0 <= a < self.path_index().len() implies (#[trigger] self.path_index()[
                    a]).1.uri == AssetUriV::AssetPath(self.path_index()[a].0)
                    && self.counts().contains_key(self.path_index()[a].1) by {
                    assert(pre.path_index().contains(self.path_index()[a]));
                    let j = choose|j: int|
                        0 <= j < pre.path_index().len() && #[trigger] pre.path_index()[j]
                            == self.path_index()[a];
                    assert(pre.counts().contains_key(self.path_index()[a].1));
                    assert(self.path_index()[a].1 != vk);
                }
            }
            k = k + 1;
        }
        proof {
            assert(victims_v.take(k as int) =~= victims_v);
            assert(victims_v.skip(k as int) =~= Seq::<AssetIdV>::empty());
            assert(out@.map_values(|e: AssetEvent| e@) + Seq::<AssetEventV>::empty()
                =~= out@.map_values(|e: AssetEvent| e@));
        }
        (next, out)
    }

    /// Register-or-fetch for a path-based asset: returns a strong handle,
    /// plus a load request exactly when the identity was unfamiliar.
    pub fn load(&mut self, tag: u64, asset_path: AssetPath) -> (r: (
        StrongAssetId,
        Option<LoadAssetEvent>,
    ))
        requires
            old(self).wf(),
        ensures
            final(self).wf(),
            ({
                let id = crate::id::derived_id(tag, AssetUriV::AssetPath(asset_path@));
                &&& r.0@ == id
                &&& final(self).counts() == old(self).counts().insert(
                    id,
                    bump(count_at(old(self).counts(), id)),
                )
                &&& match r.1 {
                    Some(ev) => !old(self).counts().contains_key(id) && ev@ == (
                    crate::event::LoadAssetEventV { id, force: false }),
                    None => old(self).counts().contains_key(id),
                }
            }),
            final(self).values() == old(self).values(),
            final(self).path_index() == old(self).path_index(),
            final(self).unloaded() == old(self).unloaded(),
            final(self).roots() == old(self).roots(),
    {
        let weak = WeakAssetId::path(tag, asset_path);
        match self.register_asset(&weak) {
            RegisterAssetResult::Preexisting(s) => (s, None),
            RegisterAssetResult::Unfamiliar(s) => {
                let ev = LoadAssetEvent::new(weak, false);
                (s, Some(ev))
            },
        }
    }

    /// Upgrades a weak handle to a strong one, registering the identity. For
    /// a path-based asset an unfamiliar identity also yields a load request;
    /// a UUID-named asset has nothing to load from disk.
    pub fn upgrade(&mut self, weak: &WeakAssetId) -> (r: (
        StrongAssetId,
        Option<LoadAssetEvent>,
    ))
        requires
            old(self).wf(),
        ensures
            final(self).wf(),
            r.0@ == weak@,
            final(self).counts() == old(self).counts().insert(
                weak@,
                bump(count_at(old(self).counts(), weak@)),
            ),
            match r.1 {
                Some(ev) => !old(self).counts().contains_key(weak@) && weak@.uri is AssetPath
                    && ev@ == (crate::event::LoadAssetEventV { id: weak@, force: false }),
                None => old(self).counts().contains_key(weak@) || weak@.uri is Uuid,
            },
            final(self).values() == old(self).values(),
            final(self).path_index() == old(self).path_index(),
            final(self).unloaded() == old(self).unloaded(),
            final(self).roots() == old(self).roots(),
    {
        let is_path = weak.uri().asset_path().is_some();
        match self.register_asset(weak) {
            RegisterAssetResult::Preexisting(s) => (s, None),
            RegisterAssetResult::Unfamiliar(s) => {
                if is_path {
                    let ev = LoadAssetEvent::new(weak.clone(), false);
                    (s, Some(ev))
                } else {
                    (s, None)
                }
            },
        }
    }

    /// Registers an in-memory value's identity and hands back the event that
    /// pushes the value through the sync queue as if it had been loaded.
    pub fn store(&mut self, id: WeakAssetId, asset: AssetValue) -> (r: (
        StrongAssetId,
        StoreAssetEvent,
    ))
        requires
            old(self).wf(),
        ensures
            final(self).wf(),
            r.0@ == id@,
            r.1.id@ == id@,
            r.1.asset == asset,
            final(self).counts() == old(self).counts().insert(
                id@,
                bump(count_at(old(self).counts(), id@)),
            ),
            final(self).values() == old(self).values(),
            final(self).path_index() == old(self).path_index(),
            final(self).unloaded() == old(self).unloaded(),
            final(self).roots() == old(self).roots(),
    {
        let strong = match self.register_asset(&id) {
            RegisterAssetResult::Preexisting(s) => s,
            RegisterAssetResult::Unfamiliar(s) => s,
        };
        let ev = StoreAssetEvent::new(id, asset);
        (strong, ev)
    }

    /// Upgrades a whole table: every entry registers one more strong holder,
    /// and each unfamiliar path-backed entry yields a load request.
    pub fn upgrade_table(&mut self, table: &AssetTable) -> (r: (AssetTable, Vec<LoadAssetEvent>))
        requires
            old(self).wf(),
        ensures
            final(self).wf(),
            final(self).values() == old(self).values(),
            final(self).path_index() == old(self).path_index(),
            final(self).unloaded() == old(self).unloaded(),
            final(self).roots() == old(self).roots(),
            final(self).counts() == upgraded_counts(old(self).counts(), table@.entries),
            r.0@.strength == TableStrength::Strong,
            r.0@.entries == table@.entries,
            r.1@.map_values(|e: LoadAssetEvent| e@) == upgrade_requests(
                old(self).counts(),
                table@.entries,
            ),
    {
        let mut upgraded = AssetTable::empty(TableStrength::Strong);
        let mut requests: Vec<LoadAssetEvent> = Vec::new();
        let mut i: usize = 0;
        let n = table.len();
        proof {
            assert(upgraded@.entries =~= table@.entries.take(0));
            assert(self.counts() =~= upgraded_counts(old(self).counts(), table@.entries.take(0)));
            assert(requests@.map_values(|e: LoadAssetEvent| e@) =~= upgrade_requests(
                old(self).counts(),
                table@.entries.take(0),
            ));
        }
        while i < n
            invariant
                i <= n,
                n == table@.entries.len(),
                self.wf(),
                self.values() == old(self).values(),
                self.path_index() == old(self).path_index(),
                self.unloaded() == old(self).unloaded(),
                self.roots() == old(self).roots(),
                self.counts() == upgraded_counts(old(self).counts(), table@.entries.take(i as int)),
                upgraded@.strength == TableStrength::Strong,
                upgraded@.entries == table@.entries.take(i as int),
                requests@.map_values(|e: LoadAssetEvent| e@) == upgrade_requests(
                    old(self).counts(),
                    table@.entries.take(i as int),
                ),
            decreases n - i,
        {
            proof {
                assert(table@.entries.take(i + 1).drop_last() =~= table@.entries.take(i as int));
                assert(table@.entries.take(i + 1).last() == table@.entries[i as int]);
            }
            let (key, weak) = table.at(i);
            let key = key.clone();
            let weak = weak.clone();
            let (strong, request) = self.upgrade(&weak);
            match request {
                Some(ev) => {
                    requests.push(ev);
                    proof {
                        assert(requests@.map_values(|e: LoadAssetEvent| e@) =~= upgrade_requests(
                            old(self).counts(),
                            table@.entries.take(i + 1),
                        ));
                    }
                },
                None => {
                    proof {
                        assert(requests@.map_values(|e: LoadAssetEvent| e@) =~= upgrade_requests(
                            old(self).counts(),
                            table@.entries.take(i + 1),
                        ));
                    }
                },
            }
            upgraded.push(key, strong.to_weak());
            i = i + 1;
        }
        proof {
            assert(table@.entries.take(i as int) =~= table@.entries);
        }
        (upgraded, requests)
    }

    /// Confirms a whole table's residency: the loaded view exists exactly
    /// when every entry's asset is resident.
    pub fn try_loaded_table(&self, table: &AssetTable) -> (r: Option<AssetTable>)
        requires
            self.wf(),
        ensures
            match r {
                Some(t) => t@.strength == TableStrength::Loaded && t@.entries == table@.entries
                    && forall|i: int|
                    0 <= i < table@.entries.len() ==> self.values().contains_key(
                        (#[trigger] table@.entries[i]).1,
                    ),
                None => exists|i: int|
                    0 <= i < table@.entries.len() && !self.values().contains_key(
                        (#[trigger] table@.entries[i]).1,
                    ),
            },
    {
        let mut loaded = AssetTable::empty(TableStrength::Loaded);
        let mut i: usize = 0;
        let n = table.len();
        proof {
            assert(loaded@.entries =~= table@.entries.take(0));
        }
        while i < n
            invariant
                i <= n,
                n == table@.entries.len(),
                self.wf(),
                loaded@.strength == TableStrength::Loaded,
                loaded@.entries == table@.entries.take(i as int),
                forall|j: int|
                    0 <= j < i ==> self.values().contains_key(
                        (#[trigger] table@.entries[j]).1,
                    ),
            decreases n - i,
        {
            proof {
                assert(table@.entries.take(i + 1).drop_last() =~= table@.entries.take(i as int));
                assert(table@.entries.take(i + 1).last() == table@.entries[i as int]);
            }
            let (key, weak) = table.at(i);
            if !self.has_untyped(weak.untyped()) {
                return None;
            }
            loaded.push(key.clone(), weak.clone());
            i = i + 1;
        }
        proof {
            assert(table@.entries.take(i as int) =~= table@.entries);
        }
        Some(loaded)
    }

    /// The identities the reverse index files under an asset path, per
    /// [`ids_at`].
    pub fn asset_ids_for_path(&self, asset_path: &AssetPath) -> (r: Vec<UntypedAssetId>)
        ensures
            r@.map_values(|id: UntypedAssetId| id@) == ids_at(self.path_index(), asset_path@),
    {
        let mut r: Vec<UntypedAssetId> = Vec::new();
        let mut i: usize = 0;
        proof {
            assert(r@.map_values(|id: UntypedAssetId| id@) =~= ids_at(
                self.path_index().take(0),
                asset_path@,
            ));
        }
        while i < self.path_id_index.len()
            invariant
                i <= self.path_id_index@.len(),
                self.path_index().len() == self.path_id_index@.len(),
                r@.map_values(|id: UntypedAssetId| id@) == ids_at(
                    self.path_index().take(i as int),
                    asset_path@,
                ),
            decreases self.path_id_index@.len() - i,
        {
            proof {
                assert(self.path_index().take(i + 1).drop_last() =~= self.path_index().take(
                    i as int,
                ));
                assert(self.path_index().take(i + 1).last() == self.path_index()[i as int]);
            }
            if self.path_id_index[i].0.same(asset_path) {
                r.push(self.path_id_index[i].1.clone());
                proof {
                    assert(r@.map_values(|id: UntypedAssetId| id@) =~= ids_at(
                        self.path_index().take(i + 1),
                        asset_path@,
                    ));
                }
            }
            i = i + 1;
        }
        proof {
            assert(self.path_index().take(i as int) =~= self.path_index());
        }
        r
    }
}

} // verus!
