//! The asset server: the load pipeline, the sync queue and commit protocol,
//! the collector's schedule, and the change-notification bridge.
//!
//! The server is driven by messages: a load request enters the pipeline,
//! which runs the registered loader, queues the produced value, and drains
//! the dependency queue, treating each popped entry as a new request; on a
//! dependency's failure the whole batch produced by the request is rolled
//! back. A sync-request signal triggers a coalescing commit. A periodic tick
//! drives one incremental collection sweep. Changed-path notifications are
//! mapped back to asset identities — walking up to parent directories for
//! table assets — and re-submitted with the force flag set.

use vstd::prelude::*;
use vstd::map::*;
use crate::assoc::{assoc_map, keys_unique, lemma_assoc_map_absent, lemma_assoc_map_index,
    lemma_assoc_map_push, lemma_assoc_map_update};
use crate::event::{AssetEvent, AssetEventKind, AssetEventV, DependencyQueueEntry, LoadAssetEvent,
    LoadAssetEventV, StoreAssetEvent, SyncAssetEvent, SyncQueueEntry, SyncQueueEntryV};
use crate::id::{AssetIdV, UntypedAssetId, WeakAssetId};
use crate::loader::{AssetCursor, LoadError, LoaderKind, kind_deps, loader_error, loader_value_ok,
    run_loader};
use crate::path::{AssetPathV, path_parent};
use crate::storage::{Assets, AssetsPaths, asset_path_of, bump, ids_at};
use crate::tree::FileTree;
use crate::uri::AssetUriV;

verus! {

/// How a load request ended.
pub enum LoadOutcome {
    /// The asset was already resident and the request did not force a
    /// reload: nothing was done.
    AlreadyResident,
    /// No loader is registered for the requested type: the engine is
    /// misconfigured, and the request was dropped.
    NoLoader,
    /// The requested asset and every discovered dependency loaded; the
    /// produced values were queued.
    Loaded,
    /// The requested asset itself failed to load; nothing was queued.
    RootFailed(LoadError),
    /// A transitively discovered dependency failed; every entry the request
    /// had queued was rolled back.
    DependencyFailed(WeakAssetId, LoadError),
}

/// What one load request did, and the sync signal it raised if it queued
/// anything.
pub struct LoadReport {
    pub outcome: LoadOutcome,
    pub sync: Option<SyncAssetEvent>,
}

/// What the registered loader of an identity genuinely reports at the
/// identity's location over the given tree: the error it fails with, or
/// nothing when it succeeds. A UUID-named identity has no file to load.
pub open spec fn root_loader_error(
    loaders: Map<u64, LoaderKind>,
    id: AssetIdV,
    tree: Seq<(AssetPathV, Seq<u8>)>,
) -> Option<LoadError> {
    match id.uri {
        AssetUriV::AssetPath(p) => loader_error(loaders[id.tag], p, tree),
        AssetUriV::Uuid(_) => Some(LoadError::NotFileBacked),
    }
}

/// Whether a queued entry is a genuine load over the given tree: its
/// identity is file-backed with a registered loader, that loader succeeds at
/// the identity's location, the entry carries exactly the value the loader
/// produces there, and the two notifications name the entry's own identity.
pub open spec fn queued_entry_ok(
    loaders: Map<u64, LoaderKind>,
    tree: Seq<(AssetPathV, Seq<u8>)>,
    e: SyncQueueEntryV,
) -> bool {
    &&& loaders.contains_key(e.id.tag)
    &&& match e.id.uri {
        AssetUriV::AssetPath(p) => loader_error(loaders[e.id.tag], p, tree) is None
            && loader_value_ok(loaders[e.id.tag], p, tree, e.asset),
        AssetUriV::Uuid(_) => false,
    }
    &&& e.loaded_event == (AssetEventV { id: e.id, kind: AssetEventKind::Load })
    &&& e.unloaded_event == (AssetEventV { id: e.id, kind: AssetEventKind::Unload })
}

/// The identities an identity's own registered loader can discover as
/// dependencies over the given tree; nothing for an unregistered type or a
/// UUID-named asset.
pub open spec fn direct_deps(
    loaders: Map<u64, LoaderKind>,
    tree: Seq<(AssetPathV, Seq<u8>)>,
    id: AssetIdV,
) -> Seq<AssetIdV> {
    if !loaders.contains_key(id.tag) {
        Seq::empty()
    } else {
        match id.uri {
            AssetUriV::AssetPath(p) => kind_deps(loaders[id.tag], p, tree),
            AssetUriV::Uuid(_) => Seq::empty(),
        }
    }
}

/// Whether `to` is discoverable from `from` in at most `n` dependency steps.
pub open spec fn depends_within(
    loaders: Map<u64, LoaderKind>,
    tree: Seq<(AssetPathV, Seq<u8>)>,
    from: AssetIdV,
    to: AssetIdV,
    n: nat,
) -> bool
    decreases n,
{
    from == to || (n > 0 && exists|mid: AssetIdV|
        #[trigger] direct_deps(loaders, tree, from).contains(mid) && depends_within(
            loaders,
            tree,
            mid,
            to,
            (n - 1) as nat,
        ))
}

/// Whether `to` is the request itself or a transitively discoverable
/// dependency of it over the given tree.
pub open spec fn reaches(
    loaders: Map<u64, LoaderKind>,
    tree: Seq<(AssetPathV, Seq<u8>)>,
    from: AssetIdV,
    to: AssetIdV,
) -> bool {
    exists|n: nat| depends_within(loaders, tree, from, to, n)
}

/// Every identity is discoverable from itself.
pub proof fn lemma_reaches_self(
    loaders: Map<u64, LoaderKind>,
    tree: Seq<(AssetPathV, Seq<u8>)>,
    id: AssetIdV,
)
    ensures
        reaches(loaders, tree, id, id),
{
    assert(depends_within(loaders, tree, id, id, 0));
}

/// A discovery chain extends by one step at its end.
proof fn lemma_depends_extend(
    loaders: Map<u64, LoaderKind>,
    tree: Seq<(AssetPathV, Seq<u8>)>,
    a: AssetIdV,
    b: AssetIdV,
    c: AssetIdV,
    n: nat,
)
    requires
        depends_within(loaders, tree, a, b, n),
        direct_deps(loaders, tree, b).contains(c),
    ensures
        depends_within(loaders, tree, a, c, n + 1),
    decreases n,
{
    if a == b {
        assert(depends_within(loaders, tree, c, c, n));
    } else {
        let mid = choose|mid: AssetIdV|
            #[trigger] direct_deps(loaders, tree, a).contains(mid) && depends_within(
                loaders,
                tree,
                mid,
                b,
                (n - 1) as nat,
            );
        lemma_depends_extend(loaders, tree, mid, b, c, (n - 1) as nat);
        assert(direct_deps(loaders, tree, a).contains(mid));
    }
}

/// Law: whatever a request reaches, its discoveries' discoveries are also
/// reached — one more dependency step stays within the request's closure.
pub proof fn lemma_reaches_step(
    loaders: Map<u64, LoaderKind>,
    tree: Seq<(AssetPathV, Seq<u8>)>,
    a: AssetIdV,
    b: AssetIdV,
    c: AssetIdV,
)
    requires
        reaches(loaders, tree, a, b),
        direct_deps(loaders, tree, b).contains(c),
    ensures
        reaches(loaders, tree, a, c),
{
    let n = choose|n: nat| depends_within(loaders, tree, a, b, n);
    lemma_depends_extend(loaders, tree, a, b, c, n);
}

/// The identities that a change at one asset path invalidates: those filed
/// under the path itself and under each of its ancestors, so that editing a
/// file inside a directory loaded as a table invalidates the table.
pub open spec fn walk_up_ids(
    index: Seq<(AssetPathV, AssetIdV)>,
    ap: AssetPathV,
) -> Seq<AssetIdV>
    decreases ap.path.len(),
    via walk_up_ids_decreases
{
    ids_at(index, ap) + match path_parent(ap.path) {
        Some(par) => walk_up_ids(index, AssetPathV { kind: ap.kind, path: par }),
        None => Seq::empty(),
    }
}

#[via_fn]
proof fn walk_up_ids_decreases(index: Seq<(AssetPathV, AssetIdV)>, ap: AssetPathV) {
    crate::path::lemma_path_parent_shrinks(ap.path);
}

/// Whether `anc` is `ap` itself or one of its ancestor directories.
pub open spec fn is_ancestor_of(anc: AssetPathV, ap: AssetPathV) -> bool
    decreases ap.path.len(),
    via is_ancestor_of_decreases
{
    ap == anc || match path_parent(ap.path) {
        Some(par) => is_ancestor_of(anc, AssetPathV { kind: ap.kind, path: par }),
        None => false,
    }
}

#[via_fn]
proof fn is_ancestor_of_decreases(anc: AssetPathV, ap: AssetPathV) {
    crate::path::lemma_path_parent_shrinks(ap.path);
}

/// Law (table invalidation): a change at a path invalidates every identity
/// filed under any of the path's ancestors — editing a file below a
/// directory that was loaded as a table asset retries the table's loader,
/// not a per-file one.
pub proof fn lemma_walk_up_reaches_ancestor(
    index: Seq<(AssetPathV, AssetIdV)>,
    ap: AssetPathV,
    anc: AssetPathV,
    id: AssetIdV,
)
    requires
        is_ancestor_of(anc, ap),
        ids_at(index, anc).contains(id),
    ensures
        walk_up_ids(index, ap).contains(id),
    decreases ap.path.len(),
{
    crate::path::lemma_path_parent_shrinks(ap.path);
    if ap == anc {
        let j = choose|j: int| 0 <= j < ids_at(index, ap).len() && ids_at(index, ap)[j] == id;
        assert(walk_up_ids(index, ap)[j] == id);
    } else {
        match path_parent(ap.path) {
            Some(par) => {
                let up = AssetPathV { kind: ap.kind, path: par };
                lemma_walk_up_reaches_ancestor(index, up, anc, id);
                let j = choose|j: int|
                    0 <= j < walk_up_ids(index, up).len() && walk_up_ids(index, up)[j] == id;
                assert(walk_up_ids(index, ap)[ids_at(index, ap).len() + j] == id);
            },
            None => {},
        }
    }
}

/// The identities a batch of raw changed paths invalidates, in order.
pub open spec fn notify_ids(
    sys: Seq<char>,
    usr: Seq<char>,
    index: Seq<(AssetPathV, AssetIdV)>,
    changed: Seq<Seq<char>>,
) -> Seq<AssetIdV>
    decreases changed.len(),
{
    if changed.len() == 0 {
        Seq::empty()
    } else {
        notify_ids(sys, usr, index, changed.drop_last()) + match asset_path_of(
            sys,
            usr,
            changed.last(),
        ) {
            Some(ap) => walk_up_ids(index, ap),
            None => Seq::empty(),
        }
    }
}

/// The asset server's state: the loader registry, shared storage, the sync
/// queue with its counters, and the collector's schedule.
pub struct AssetServer {
    loaders: Vec<(u64, LoaderKind)>,
    assets: Assets,
    sync: u64,
    sync_requested: u64,
    sync_queue_asset: Vec<SyncQueueEntry>,
    sync_queue_max: usize,
    gc_at: usize,
    gc_schedule_ms: u64,
    gc_max: usize,
    hot_reloading: bool,
}

/// Configuration for an asset server: commit coalescing threshold, sweep
/// schedule and width, and whether hot reloading is on.
pub struct AssetServerBuilder {
    loaders: Vec<(u64, LoaderKind)>,
    sync_queue_max: usize,
    gc_schedule_ms: u64,
    gc_max: usize,
    hot_reloading: bool,
}

impl AssetServerBuilder {
    /// The registered loaders, in registration order.
    pub closed spec fn loader_list(&self) -> Seq<(u64, LoaderKind)> {
        self.loaders@
    }

    pub closed spec fn sync_queue_max(&self) -> usize {
        self.sync_queue_max
    }

    pub closed spec fn gc_schedule_ms(&self) -> u64 {
        self.gc_schedule_ms
    }

    pub closed spec fn gc_max(&self) -> usize {
        self.gc_max
    }

    pub closed spec fn hot_reloading(&self) -> bool {
        self.hot_reloading
    }

    pub closed spec fn wf(&self) -> bool {
        keys_unique(self.loaders@)
    }

    /// Caps the sync queue: a commit signal is no longer skipped once the
    /// queue has grown past this many entries.
    pub fn with_sync_queue_max(self, sync_queue_max: usize) -> (r: Self)
        ensures
            r.loader_list() == self.loader_list(),
            r.wf() == self.wf(),
            r.sync_queue_max() == sync_queue_max,
            r.gc_schedule_ms() == self.gc_schedule_ms(),
            r.gc_max() == self.gc_max(),
            r.hot_reloading() == self.hot_reloading(),
    {
        AssetServerBuilder { sync_queue_max, ..self }
    }

    /// Sets the collector's sweep interval, in milliseconds.
    pub fn with_gc_schedule(self, gc_schedule_ms: u64) -> (r: Self)
        ensures
            r.loader_list() == self.loader_list(),
            r.wf() == self.wf(),
            r.sync_queue_max() == self.sync_queue_max(),
            r.gc_schedule_ms() == gc_schedule_ms,
            r.gc_max() == self.gc_max(),
            r.hot_reloading() == self.hot_reloading(),
    {
        AssetServerBuilder { gc_schedule_ms, ..self }
    }

    /// Caps how many counter entries one sweep visits.
    pub fn with_gc_max(self, gc_max: usize) -> (r: Self)
        ensures
            r.loader_list() == self.loader_list(),
            r.wf() == self.wf(),
            r.sync_queue_max() == self.sync_queue_max(),
            r.gc_schedule_ms() == self.gc_schedule_ms(),
            r.gc_max() == gc_max,
            r.hot_reloading() == self.hot_reloading(),
    {
        AssetServerBuilder { gc_max, ..self }
    }

    /// Turns the filesystem watcher on or off.
    pub fn with_hot_reloading(self, hot_reloading: bool) -> (r: Self)
        ensures
            r.loader_list() == self.loader_list(),
            r.wf() == self.wf(),
            r.sync_queue_max() == self.sync_queue_max(),
            r.gc_schedule_ms() == self.gc_schedule_ms(),
            r.gc_max() == self.gc_max(),
            r.hot_reloading() == hot_reloading,
    {
        AssetServerBuilder { hot_reloading, ..self }
    }

    /// Registers `kind` as the loader of type `tag`, replacing an earlier
    /// registration of the same tag.
    pub fn add(self, tag: u64, kind: LoaderKind) -> (r: Self)
        requires
            self.wf(),
        ensures
            r.wf(),
            assoc_map(r.loader_list()) == assoc_map(self.loader_list()).insert(tag, kind),
            r.sync_queue_max() == self.sync_queue_max(),
            r.gc_schedule_ms() == self.gc_schedule_ms(),
            r.gc_max() == self.gc_max(),
            r.hot_reloading() == self.hot_reloading(),
    {
        let mut this = self;
        let mut i: usize = 0;
        while i < this.loaders.len()
            invariant
                i <= this.loaders@.len(),
                this == self,
                this.wf(),
                forall|j: int| 0 <= j < i ==> (#[trigger] this.loaders@[j]).0 != tag,
            decreases this.loaders@.len() - i,
        {
            if this.loaders[i].0 == tag {
                proof {
                    lemma_assoc_map_update(this.loaders@, i as int, kind);
                }
                this.loaders.remove(i);
                this.loaders.insert(i, (tag, kind));
                proof {
                    assert(this.loaders@ =~= self.loaders@.update(i as int, (tag, kind)));
                }
                return this;
            }
            i = i + 1;
        }
        proof {
            lemma_assoc_map_push(this.loaders@, tag, kind);
        }
        this.loaders.push((tag, kind));
        this
    }

    /// Registers the structured-data loader for `tag`.
    pub fn add_serde(self, tag: u64) -> (r: Self)
        requires
            self.wf(),
        ensures
            r.wf(),
            assoc_map(r.loader_list()) == assoc_map(self.loader_list()).insert(
                tag,
                LoaderKind::Serde,
            ),
            r.sync_queue_max() == self.sync_queue_max(),
            r.gc_schedule_ms() == self.gc_schedule_ms(),
            r.gc_max() == self.gc_max(),
            r.hot_reloading() == self.hot_reloading(),
    {
        self.add(tag, LoaderKind::Serde)
    }

    /// Registers the weak table loader for `tag`, listing elements of type
    /// `element_tag`.
    pub fn add_weak_table(self, tag: u64, element_tag: u64) -> (r: Self)
        requires
            self.wf(),
        ensures
            r.wf(),
            assoc_map(r.loader_list()) == assoc_map(self.loader_list()).insert(
                tag,
                LoaderKind::WeakTable(element_tag),
            ),
            r.sync_queue_max() == self.sync_queue_max(),
            r.gc_schedule_ms() == self.gc_schedule_ms(),
            r.gc_max() == self.gc_max(),
            r.hot_reloading() == self.hot_reloading(),
    {
        self.add(tag, LoaderKind::WeakTable(element_tag))
    }

    /// Registers the eagerly resolving table loader for `tag`, loading
    /// elements of type `element_tag`.
    pub fn add_strong_table(self, tag: u64, element_tag: u64) -> (r: Self)
        requires
            self.wf(),
        ensures
            r.wf(),
            assoc_map(r.loader_list()) == assoc_map(self.loader_list()).insert(
                tag,
                LoaderKind::StrongTable(element_tag),
            ),
            r.sync_queue_max() == self.sync_queue_max(),
            r.gc_schedule_ms() == self.gc_schedule_ms(),
            r.gc_max() == self.gc_max(),
            r.hot_reloading() == self.hot_reloading(),
    {
        self.add(tag, LoaderKind::StrongTable(element_tag))
    }

    /// Finishes the configuration: a server with empty storage, whose roots
    /// are set by the init message.
    pub fn finish(self) -> (r: AssetServer)
        requires
            self.wf(),
        ensures
            r.wf(),
            r.loader_list() == self.loader_list(),
            r.assets_state().values() == Map::<AssetIdV, crate::value::AssetValue>::empty(),
            r.assets_state().counts() == Map::<AssetIdV, u64>::empty(),
            r.sync_applied() == 0,
            r.sync_requested() == 0,
            r.sync_queue() == Seq::<SyncQueueEntryV>::empty(),
            r.sync_queue_max() == self.sync_queue_max(),
            r.gc_at() == 0,
            r.gc_schedule_ms() == self.gc_schedule_ms(),
            r.gc_max() == self.gc_max(),
            r.hot_reloading() == self.hot_reloading(),
    {
        let assets = Assets::new(AssetsPaths::new(String::new(), String::new()));
        let r = AssetServer {
            loaders: self.loaders,
            assets,
            sync: 0,
            sync_requested: 0,
            sync_queue_asset: Vec::new(),
            sync_queue_max: self.sync_queue_max,
            gc_at: 0,
            gc_schedule_ms: self.gc_schedule_ms,
            gc_max: self.gc_max,
            hot_reloading: self.hot_reloading,
        };
        proof {
            assert(r.sync_queue() =~= Seq::<SyncQueueEntryV>::empty());
        }
        r
    }
}

impl AssetServer {
    /// A builder with nothing registered and the default configuration: an
    /// unlimited sync queue, a sweep every second over the whole table, and
    /// hot reloading on.
    pub fn builder() -> (r: AssetServerBuilder)
        ensures
            r.wf(),
            r.loader_list() == Seq::<(u64, LoaderKind)>::empty(),
            r.sync_queue_max() == usize::MAX,
            r.gc_schedule_ms() == 1000u64,
            r.gc_max() == usize::MAX,
            r.hot_reloading() == true,
    {
        AssetServerBuilder {
            loaders: Vec::new(),
            sync_queue_max: usize::MAX,
            gc_schedule_ms: 1000,
            gc_max: usize::MAX,
            hot_reloading: true,
        }
    }

    /// The shared storage's state.
    pub closed spec fn assets_state(&self) -> Assets {
        self.assets
    }

    /// The registered loaders, in registration order.
    pub closed spec fn loader_list(&self) -> Seq<(u64, LoaderKind)> {
        self.loaders@
    }

    /// The registered loaders: type tag to loader.
    pub open spec fn loader_map(&self) -> Map<u64, LoaderKind> {
        assoc_map(self.loader_list())
    }

    /// The counter the last commit answered.
    pub closed spec fn sync_applied(&self) -> u64 {
        self.sync
    }

    /// The monotonically increasing sync-request counter.
    pub closed spec fn sync_requested(&self) -> u64 {
        self.sync_requested
    }

    /// The queued, not yet committed entries.
    pub closed spec fn sync_queue(&self) -> Seq<SyncQueueEntryV> {
        self.sync_queue_asset@.map_values(|e: SyncQueueEntry| e@)
    }

    pub closed spec fn sync_queue_max(&self) -> usize {
        self.sync_queue_max
    }

    /// Where the next collection sweep starts.
    pub closed spec fn gc_at(&self) -> usize {
        self.gc_at
    }

    pub closed spec fn gc_schedule_ms(&self) -> u64 {
        self.gc_schedule_ms
    }

    pub closed spec fn gc_max(&self) -> usize {
        self.gc_max
    }

    pub closed spec fn hot_reloading(&self) -> bool {
        self.hot_reloading
    }

    pub closed spec fn wf(&self) -> bool {
        self.assets.wf() && keys_unique(self.loaders@)
    }

    /// The per-caller view of shared storage: load/store/get/has operations
    /// and strength upgrades are made through it.
    pub fn client(&mut self) -> (r: &mut Assets)
        ensures
            *r == old(self).assets_state(),
            final(self).assets_state() == *final(r),
            final(self).loader_list() == old(self).loader_list(),
            final(self).sync_applied() == old(self).sync_applied(),
            final(self).sync_requested() == old(self).sync_requested(),
            final(self).sync_queue() == old(self).sync_queue(),
            final(self).sync_queue_max() == old(self).sync_queue_max(),
            final(self).gc_at() == old(self).gc_at(),
            final(self).gc_schedule_ms() == old(self).gc_schedule_ms(),
            final(self).gc_max() == old(self).gc_max(),
            final(self).hot_reloading() == old(self).hot_reloading(),
    {
        &mut self.assets
    }

    /// The current value of the request counter. The counter saturates at
    /// its machine limit rather than wrap, so freshness comparisons never see
    /// a reused value.
    pub fn sync_request_count(&self) -> (r: u64)
        ensures
            r == self.sync_requested(),
    {
        self.sync_requested
    }

    /// A read-only view of shared storage.
    pub fn reader(&self) -> (r: &Assets)
        ensures
            *r == self.assets_state(),
    {
        &self.assets
    }

    /// The loader registered for a type tag.
    pub fn find_loader(&self, tag: u64) -> (r: Option<LoaderKind>)
        requires
            self.wf(),
        ensures
            match r {
                Some(k) => self.loader_map().contains_key(tag) && self.loader_map()[tag] == k,
                None => !self.loader_map().contains_key(tag),
            },
    {
        let mut i: usize = 0;
        while i < self.loaders.len()
            invariant
                self.wf(),
                i <= self.loaders@.len(),
                forall|j: int| 0 <= j < i ==> (#[trigger] self.loaders@[j]).0 != tag,
            decreases self.loaders@.len() - i,
        {
            if self.loaders[i].0 == tag {
                proof {
                    lemma_assoc_map_index(self.loaders@, i as int);
                }
                return Some(self.loaders[i].1);
            }
            i = i + 1;
        }
        proof {
            lemma_assoc_map_absent(self.loaders@, tag);
        }
        None
    }

    /// Sets the content roots; done once, when the engine initializes.
    pub fn on_init_event(&mut self, sys_dir: String, usr_dir: String)
        requires
            old(self).wf(),
        ensures
            final(self).wf(),
            final(self).assets_state().roots() == (crate::storage::AssetsPathsV {
                sys_dir: sys_dir@,
                usr_dir: usr_dir@,
            }),
            final(self).assets_state().values() == old(self).assets_state().values(),
            final(self).assets_state().counts() == old(self).assets_state().counts(),
            final(self).assets_state().path_index() == old(self).assets_state().path_index(),
            final(self).assets_state().unloaded() == old(self).assets_state().unloaded(),
            final(self).loader_list() == old(self).loader_list(),
            final(self).sync_applied() == old(self).sync_applied(),
            final(self).sync_requested() == old(self).sync_requested(),
            final(self).sync_queue() == old(self).sync_queue(),
            final(self).sync_queue_max() == old(self).sync_queue_max(),
            final(self).gc_at() == old(self).gc_at(),
            final(self).gc_max() == old(self).gc_max(),
    {
        self.assets.set_paths(AssetsPaths::new(sys_dir, usr_dir));
        proof {
            assert(self.sync_queue() =~= old(self).sync_queue());
        }
    }

    /// Queues an in-memory value as if it had been loaded, and raises the
    /// sync signal carrying the bumped request counter.
    pub fn on_store_asset_event(&mut self, event: StoreAssetEvent) -> (r: SyncAssetEvent)
        requires
            old(self).wf(),
        ensures
            final(self).wf(),
            final(self).assets_state() == old(self).assets_state(),
            final(self).loader_list() == old(self).loader_list(),
            final(self).sync_applied() == old(self).sync_applied(),
            final(self).sync_requested() == bump(old(self).sync_requested()),
            final(self).sync_queue() == old(self).sync_queue().push(
                SyncQueueEntryV {
                    id: event.id@,
                    asset: event.asset,
                    loaded_event: AssetEventV {
                        id: event.id@,
                        kind: crate::event::AssetEventKind::Load,
                    },
                    unloaded_event: AssetEventV {
                        id: event.id@,
                        kind: crate::event::AssetEventKind::Unload,
                    },
                },
            ),
            final(self).sync_queue_max() == old(self).sync_queue_max(),
            final(self).gc_at() == old(self).gc_at(),
            final(self).gc_max() == old(self).gc_max(),
            r.sync == final(self).sync_requested(),
    {
        let StoreAssetEvent { id, asset } = event;
        let entry = SyncQueueEntry::new(id, asset);
        self.sync_queue_asset.push(entry);
        if self.sync_requested < u64::MAX {
            self.sync_requested = self.sync_requested + 1;
        }
        proof {
            assert(self.sync_queue() =~= old(self).sync_queue().push(
                SyncQueueEntryV {
                    id: event.id@,
                    asset: event.asset,
                    loaded_event: AssetEventV {
                        id: event.id@,
                        kind: crate::event::AssetEventKind::Load,
                    },
                    unloaded_event: AssetEventV {
                        id: event.id@,
                        kind: crate::event::AssetEventKind::Unload,
                    },
                },
            ));
        }
        SyncAssetEvent { sync: self.sync_requested }
    }

    /// The coalescing commit. A signal whose counter is stale is skipped
    /// while the queue is under its cap — a newer signal will flush
    /// everything — so bursts of signals cost at most one commit, which
    /// installs the union of all queued entries. On commit, the whole batch
    /// is installed and the batch's load notifications are returned in one
    /// sweep, dependencies first.
    pub fn on_sync_asset_event(&mut self, event: &SyncAssetEvent) -> (r: Vec<AssetEvent>)
        requires
            old(self).wf(),
        ensures
            final(self).wf(),
            final(self).loader_list() == old(self).loader_list(),
            final(self).sync_requested() == old(self).sync_requested(),
            final(self).sync_queue_max() == old(self).sync_queue_max(),
            final(self).gc_at() == old(self).gc_at(),
            final(self).gc_max() == old(self).gc_max(),
            final(self).assets_state().counts() == old(self).assets_state().counts(),
            final(self).assets_state().counter_list() == old(self).assets_state().counter_list(),
            final(self).assets_state().roots() == old(self).assets_state().roots(),
            if old(self).sync_requested() != event.sync && old(self).sync_queue().len() < old(
                self,
            ).sync_queue_max() {
                // Skipped: a newer commit is already pending.
                &&& *final(self) == *old(self)
                &&& r@.len() == 0
            } else if old(self).sync_queue().len() == 0 {
                &&& *final(self) == *old(self)
                &&& r@.len() == 0
            } else {
                &&& final(self).sync_applied() == old(self).sync_requested()
                &&& final(self).sync_queue() == Seq::<SyncQueueEntryV>::empty()
                &&& final(self).assets_state().values() == crate::storage::committed_values(
                    old(self).assets_state().values(),
                    old(self).assets_state().counts(),
                    old(self).sync_queue(),
                )
                &&& final(self).assets_state().path_index() == crate::storage::committed_index(
                    old(self).assets_state().path_index(),
                    old(self).assets_state().counts(),
                    old(self).sync_queue(),
                )
                &&& final(self).assets_state().unloaded() == crate::storage::committed_unloaded(
                    old(self).assets_state().unloaded(),
                    old(self).assets_state().counts(),
                    old(self).sync_queue(),
                )
                &&& r@.map_values(|e: AssetEvent| e@) == crate::storage::committed_loaded(
                    old(self).assets_state().counts(),
                    old(self).sync_queue(),
                ).reverse()
            },
    {
        if self.sync_requested != event.sync && self.sync_queue_asset.len() < self.sync_queue_max
        {
            return Vec::new();
        }
        if self.sync_queue_asset.len() == 0 {
            return Vec::new();
        }
        self.sync = self.sync_requested;
        let mut entries: Vec<SyncQueueEntry> = Vec::new();
        core::mem::swap(&mut entries, &mut self.sync_queue_asset);
        let r = self.assets.extend(entries);
        proof {
            assert(self.sync_queue() =~= Seq::<SyncQueueEntryV>::empty());
        }
        r
    }

    /// One collection sweep over the window starting at the rotating scan
    /// position; the position advances by the sweep width, modulo the
    /// table's size, so every entry is eventually revisited.
    pub fn on_gc_assets_event(&mut self) -> (r: Vec<AssetEvent>)
        requires
            old(self).wf(),
        ensures
            final(self).wf(),
            final(self).loader_list() == old(self).loader_list(),
            final(self).sync_applied() == old(self).sync_applied(),
            final(self).sync_requested() == old(self).sync_requested(),
            final(self).sync_queue() == old(self).sync_queue(),
            final(self).sync_queue_max() == old(self).sync_queue_max(),
            final(self).gc_max() == old(self).gc_max(),
            final(self).assets_state().roots() == old(self).assets_state().roots(),
            ({
                let len = old(self).assets_state().counter_list().len() as int;
                let victims = crate::storage::victims_of(
                    old(self).assets_state().counter_list(),
                    old(self).gc_at() as int,
                    crate::storage::gc_window_end(
                        old(self).gc_at() as int,
                        old(self).gc_max() as int,
                        len,
                    ),
                );
                &&& final(self).assets_state().counts() == old(
                    self,
                ).assets_state().counts().remove_keys(victims.to_set())
                &&& final(self).assets_state().values() == old(
                    self,
                ).assets_state().values().remove_keys(victims.to_set())
                &&& final(self).assets_state().unloaded() == old(
                    self,
                ).assets_state().unloaded().remove_keys(victims.to_set())
                &&& final(self).assets_state().path_index() == crate::storage::index_without(
                    old(self).assets_state().path_index(),
                    victims,
                )
                &&& (forall|m: int|
                    0 <= m < victims.len() ==> crate::storage::count_at(
                        old(self).assets_state().counts(),
                        #[trigger] victims[m],
                    ) == 0)
                &&& r@.map_values(|e: AssetEvent| e@) == crate::storage::gc_events(
                    old(self).assets_state().unloaded(),
                    victims,
                )
                &&& (len == 0 ==> final(self).gc_at() == 0)
                &&& (len > 0 ==> final(self).gc_at() as int == (old(self).gc_at() as int + old(
                    self,
                ).gc_max() as int) % len)
            }),
    {
        let (next, events) = self.assets.gc(self.gc_at, self.gc_max);
        self.gc_at = next;
        proof {
            assert(self.sync_queue() =~= old(self).sync_queue());
        }
        events
    }

    /// One load request through the pipeline. The registered loader runs for
    /// the requested identity (skipped when it is already resident and the
    /// request does not force a reload); on success the produced value is
    /// queued and the dependency queue is drained, each popped entry a new
    /// request with its own force flag. When a dependency fails, every entry
    /// this request queued is discarded — a partially resolved dependency
    /// graph is never partially committed — and when the requested asset
    /// itself fails the request aborts with nothing queued. After a
    /// successful pass the request counter is bumped and the sync signal
    /// carrying it is raised.
    pub fn on_load_asset_event(&mut self, tree: &FileTree, event: &LoadAssetEvent) -> (r:
        LoadReport)
        requires
            old(self).wf(),
            tree.wf(),
        ensures
            final(self).wf(),
            final(self).loader_list() == old(self).loader_list(),
            final(self).sync_applied() == old(self).sync_applied(),
            final(self).sync_queue_max() == old(self).sync_queue_max(),
            final(self).gc_at() == old(self).gc_at(),
            final(self).gc_max() == old(self).gc_max(),
            final(self).assets_state().values() == old(self).assets_state().values(),
            final(self).assets_state().path_index() == old(self).assets_state().path_index(),
            final(self).assets_state().unloaded() == old(self).assets_state().unloaded(),
            final(self).assets_state().roots() == old(self).assets_state().roots(),
            (r.outcome is NoLoader <==> !old(self).loader_map().contains_key(event.id@.tag)),
            (r.outcome is AlreadyResident <==> old(self).loader_map().contains_key(event.id@.tag)
                && !event.force && old(self).assets_state().values().contains_key(event.id@)),
            match r.outcome {
                LoadOutcome::AlreadyResident => *final(self) == *old(self) && r.sync is None,
                LoadOutcome::NoLoader => *final(self) == *old(self) && r.sync is None,
                LoadOutcome::Loaded => {
                    &&& root_loader_error(old(self).loader_map(), event.id@, tree@) is None
                    &&& final(self).sync_queue().len() > old(self).sync_queue().len()
                    &&& final(self).sync_queue().take(old(self).sync_queue().len() as int)
                        == old(self).sync_queue()
                    &&& exists|i: int|
                        old(self).sync_queue().len() <= i < final(self).sync_queue().len() && (
                        #[trigger] final(self).sync_queue()[i]).id == event.id@
                    &&& forall|i: int|
                        old(self).sync_queue().len() <= i < final(self).sync_queue().len()
                            ==> queued_entry_ok(
                            old(self).loader_map(),
                            tree@,
                            #[trigger] final(self).sync_queue()[i],
                        )
                    &&& final(self).sync_requested() == bump(old(self).sync_requested())
                    &&& r.sync matches Some(ev) && ev.sync == final(self).sync_requested()
                },
                LoadOutcome::RootFailed(e) => final(self).sync_queue() == old(self).sync_queue()
                    && final(self).sync_requested() == old(self).sync_requested()
                    && r.sync is None && root_loader_error(
                    old(self).loader_map(),
                    event.id@,
                    tree@,
                ) == Some(e),
                LoadOutcome::DependencyFailed(d, e) => final(self).sync_queue() == old(
                    self,
                ).sync_queue() && final(self).sync_requested() == old(self).sync_requested()
                    && r.sync is None && d@ != event.id@ && reaches(
                    old(self).loader_map(),
                    tree@,
                    event.id@,
                    d@,
                ) && (if old(self).loader_map().contains_key(d@.tag) {
                    root_loader_error(old(self).loader_map(), d@, tree@) == Some(e)
                } else {
                    e == LoadError::NoLoader
                }),
            },
    {
        match self.find_loader(event.id.untyped().tag()) {
            Some(_) => {},
            None => {
                return LoadReport { outcome: LoadOutcome::NoLoader, sync: None };
            },
        }
        if !event.force && self.assets.has(&event.id) {
            return LoadReport { outcome: LoadOutcome::AlreadyResident, sync: None };
        }
        let start_len = self.sync_queue_asset.len();
        let root = event.id.untyped().clone();
        let mut pending: Vec<DependencyQueueEntry> = Vec::new();
        pending.push(DependencyQueueEntry { asset_id: root.clone(), force: event.force });
        // The loop's termination measure needs the counter table's length to
        // be a machine length; reading it makes that fact available.
        let n0 = self.assets.counters_len();
        proof {
            assert(self.sync_queue().take(start_len as int) =~= old(self).sync_queue());
            assert(pending@.map_values(|e: DependencyQueueEntry| e@) =~= seq![
                crate::event::DependencyQueueEntryV { id: event.id@, force: event.force },
            ]);
            assert(event.force || !old(self).assets_state().values().contains_key(event.id@));
            lemma_reaches_self(old(self).loader_map(), tree@, event.id@);
            assert(pending@[0]@.id == event.id@);
        }
        while pending.len() > 0
            invariant
                self.wf(),
                tree.wf(),
                self.loader_map().contains_key(event.id@.tag),
                self.loader_list() == old(self).loader_list(),
                self.sync_applied() == old(self).sync_applied(),
                self.sync_requested() == old(self).sync_requested(),
                self.sync_queue_max() == old(self).sync_queue_max(),
                self.gc_at() == old(self).gc_at(),
                self.gc_max() == old(self).gc_max(),
                self.gc_schedule_ms() == old(self).gc_schedule_ms(),
                self.hot_reloading() == old(self).hot_reloading(),
                self.assets_state().values() == old(self).assets_state().values(),
                self.assets_state().path_index() == old(self).assets_state().path_index(),
                self.assets_state().unloaded() == old(self).assets_state().unloaded(),
                self.assets_state().roots() == old(self).assets_state().roots(),
                start_len as int == old(self).sync_queue().len(),
                self.sync_queue().len() >= start_len,
                self.sync_queue().take(start_len as int) == old(self).sync_queue(),
                self.assets_state().counter_list().len() <= usize::MAX,
                root@ == event.id@,
                event.force || !old(self).assets_state().values().contains_key(event.id@),
                forall|m: int|
                    0 <= m < pending@.len() ==> reaches(
                        old(self).loader_map(),
                        tree@,
                        event.id@,
                        (#[trigger] pending@[m])@.id,
                    ),
                forall|i: int|
                    start_len <= i < self.sync_queue().len() ==> queued_entry_ok(
                        old(self).loader_map(),
                        tree@,
                        #[trigger] self.sync_queue()[i],
                    ),
                ((exists|i: int|
                    start_len <= i < self.sync_queue().len() && (#[trigger] self.sync_queue()[
                    i]).id == event.id@) && root_loader_error(
                    old(self).loader_map(),
                    event.id@,
                    tree@,
                ) is None) || pending@.map_values(|e: DependencyQueueEntry| e@) == seq![
                    crate::event::DependencyQueueEntryV { id: event.id@, force: event.force },
                ],
            decreases pending@.len() + usize::MAX - self.assets_state().counter_list().len(),
        {
            let ghost pending_pre = pending@;
            let ghost head_queue = self.sync_queue();
            let entry = match pending.pop() {
                Some(e) => e,
                None => unreached(),
            };
            let ghost eid = entry.asset_id@;
            proof {
                assert(pending_pre[pending_pre.len() - 1]@.id == eid);
                assert(reaches(old(self).loader_map(), tree@, event.id@, eid));
            }
            let is_root = entry.asset_id.same(&root);
            if !entry.force && self.assets.has_untyped(&entry.asset_id) {
                proof {
                    if !(exists|i: int|
                        start_len <= i < self.sync_queue().len() && (#[trigger] self.sync_queue()[
                        i]).id == event.id@) {
                        assert(pending_pre.map_values(|e: DependencyQueueEntry| e@) == seq![
                            crate::event::DependencyQueueEntryV {
                                id: event.id@,
                                force: event.force,
                            },
                        ]);
                        assert(pending_pre.map_values(|e: DependencyQueueEntry| e@)[0]
                            == entry@);
                        assert(false);
                    }
                }
                continue;
            }
            let kind = match self.find_loader(entry.asset_id.tag()) {
                Some(k) => k,
                None => {
                    proof {
                        if is_root {
                            assert(entry.asset_id@.tag == event.id@.tag);
                            assert(false);
                        }
                    }
                    self.sync_queue_asset.truncate(start_len);
                    proof {
                        assert(self.sync_queue() =~= old(self).sync_queue());
                    }
                    return LoadReport {
                        outcome: LoadOutcome::DependencyFailed(
                            WeakAssetId::from_untyped(entry.asset_id),
                            LoadError::NoLoader,
                        ),
                        sync: None,
                    };
                },
            };
            let asset_path = match entry.asset_id.uri().asset_path() {
                Some(p) => p.clone(),
                None => {
                    self.sync_queue_asset.truncate(start_len);
                    proof {
                        assert(self.sync_queue() =~= old(self).sync_queue());
                    }
                    let e = LoadError::NotFileBacked;
                    if is_root {
                        return LoadReport { outcome: LoadOutcome::RootFailed(e), sync: None };
                    } else {
                        return LoadReport {
                            outcome: LoadOutcome::DependencyFailed(
                                WeakAssetId::from_untyped(entry.asset_id),
                                e,
                            ),
                            sync: None,
                        };
                    }
                },
            };
            let mut cursor = AssetCursor::new(asset_path, entry.asset_id.tag(), tree);
            let ghost cursor0 = cursor@;
            let ghost pre_counters = self.assets.counter_list().len();
            let result = run_loader(kind, &mut cursor, &mut self.assets);
            let (mut syncs, mut deps) = cursor.into_queues();
            match result {
                Ok(value) => {
                    let ghost deps_n = deps@.len();
                    let ghost value_v = value;
                    proof {
                        assert(self.assets.counter_list().len() - pre_counters >= deps_n);
                        assert(syncs@.map_values(|e: SyncQueueEntry| e@) == cursor0.syncs);
                        assert(syncs@.map_values(|e: SyncQueueEntry| e@).len() == syncs@.len());
                        assert(syncs@.len() == 0);
                        assert(syncs@ =~= Seq::<SyncQueueEntry>::empty());
                    }
                    self.sync_queue_asset.append(&mut syncs);
                    let weak = WeakAssetId::from_untyped(entry.asset_id);
                    let qentry = SyncQueueEntry::new(weak, value);
                    proof {
                        assert(qentry@.id == eid);
                        assert(loader_error(kind, cursor0.asset_path, cursor0.tree) is None);
                        assert(loader_value_ok(kind, cursor0.asset_path, cursor0.tree, value_v));
                        assert(queued_entry_ok(old(self).loader_map(), tree@, qentry@));
                    }
                    self.sync_queue_asset.push(qentry);
                    let ghost depsv = deps@;
                    let ghost pending_mid = pending@;
                    proof {
                        assert(kind == old(self).loader_map()[eid.tag]);
                        assert(direct_deps(old(self).loader_map(), tree@, eid) =~= kind_deps(
                            kind,
                            cursor0.asset_path,
                            cursor0.tree,
                        ));
                        assert forall|k: int| 0 <= k < depsv.len() implies direct_deps(
                            old(self).loader_map(),
                            tree@,
                            eid,
                        ).contains((#[trigger] depsv[k])@.id) by {
                            assert(depsv.map_values(|e: DependencyQueueEntry| e@)[k]
                                == depsv[k]@);
                        }
                    }
                    pending.append(&mut deps);
                    proof {
                        assert forall|m: int| 0 <= m < pending@.len() implies reaches(
                            old(self).loader_map(),
                            tree@,
                            event.id@,
                            (#[trigger] pending@[m])@.id,
                        ) by {
                            if m < pending_mid.len() {
                                assert(pending@[m] == pending_mid[m]);
                                assert(pending_mid[m] == pending_pre[m]);
                            } else {
                                assert(pending@[m] == depsv[m - pending_mid.len()]);
                                lemma_reaches_step(
                                    old(self).loader_map(),
                                    tree@,
                                    event.id@,
                                    eid,
                                    pending@[m]@.id,
                                );
                            }
                        }
                    }
                    // Re-establishes the counter table's length bound for the
                    // termination measure.
                    let n_now = self.assets.counters_len();
                    proof {
                        assert(self.sync_queue().take(start_len as int) =~= old(
                            self,
                        ).sync_queue());
                        assert(self.sync_queue().len() > start_len);
                        assert(self.sync_queue().take(head_queue.len() as int) =~= head_queue);
                        assert(self.sync_queue().len() == head_queue.len() + 1);
                        assert(self.sync_queue()[head_queue.len() as int] == qentry@);
                        assert forall|i: int|
                            start_len <= i < self.sync_queue().len() implies queued_entry_ok(
                            old(self).loader_map(),
                            tree@,
                            #[trigger] self.sync_queue()[i],
                        ) by {
                            if i < head_queue.len() {
                                assert(self.sync_queue()[i] == head_queue[i]);
                            } else {
                                assert(self.sync_queue()[i] == qentry@);
                            }
                        }
                        if is_root {
                            assert((self.sync_queue()[self.sync_queue().len() - 1]).id
                                == event.id@);
                            assert(root_loader_error(old(self).loader_map(), event.id@, tree@)
                                is None);
                        } else {
                            assert(pending_pre.map_values(|e: DependencyQueueEntry| e@)[
                                pending_pre.len() - 1] == entry@);
                            if !(exists|j: int|
                                start_len <= j < head_queue.len() && (#[trigger] head_queue[
                                j]).id == event.id@) {
                                assert(entry@.id == event.id@);
                                assert(false);
                            }
                            let j = choose|j: int|
                                start_len <= j < head_queue.len() && (#[trigger] head_queue[
                                j]).id == event.id@;
                            assert(self.sync_queue().take(head_queue.len() as int)
                                =~= head_queue);
                            assert(self.sync_queue()[j] == head_queue[j]);
                        }
                    }
                },
                Err(e) => {
                    self.sync_queue_asset.truncate(start_len);
                    proof {
                        assert(self.sync_queue() =~= old(self).sync_queue());
                    }
                    if is_root {
                        return LoadReport { outcome: LoadOutcome::RootFailed(e), sync: None };
                    } else {
                        return LoadReport {
                            outcome: LoadOutcome::DependencyFailed(
                                WeakAssetId::from_untyped(entry.asset_id),
                                e,
                            ),
                            sync: None,
                        };
                    }
                },
            }
        }
        let ghost exit_queue = self.sync_queue();
        proof {
            let j = choose|j: int|
                start_len <= j < exit_queue.len() && (#[trigger] exit_queue[j]).id == event.id@;
            assert(exit_queue[j].id == event.id@);
        }
        if self.sync_requested < u64::MAX {
            self.sync_requested = self.sync_requested + 1;
        }
        proof {
            assert(self.sync_queue() =~= exit_queue);
            let j = choose|j: int|
                start_len <= j < exit_queue.len() && (#[trigger] exit_queue[j]).id == event.id@;
            assert((self.sync_queue()[j]).id == event.id@);
            assert forall|i: int|
                start_len <= i < self.sync_queue().len() implies queued_entry_ok(
                old(self).loader_map(),
                tree@,
                #[trigger] self.sync_queue()[i],
            ) by {
                assert(self.sync_queue()[i] == exit_queue[i]);
            }
        }
        LoadReport {
            outcome: LoadOutcome::Loaded,
            sync: Some(SyncAssetEvent { sync: self.sync_requested }),
        }
    }

    /// Maps changed raw paths back to asset identities — retrying at each
    /// parent directory, so a file edited inside a directory that was loaded
    /// as a table invalidates the table — and re-submits every matched
    /// identity with the force flag set.
    pub fn on_notify_assets_event(&self, changed: &Vec<String>) -> (r: Vec<LoadAssetEvent>)
        requires
            self.wf(),
        ensures
            r@.map_values(|e: LoadAssetEvent| e@.id) == notify_ids(
                self.assets_state().roots().sys_dir,
                self.assets_state().roots().usr_dir,
                self.assets_state().path_index(),
                changed@.map_values(|s: String| s@),
            ),
            forall|i: int| 0 <= i < r@.len() ==> (#[trigger] r@[i]).force == true,
    {
        let mut ids: Vec<UntypedAssetId> = Vec::new();
        let mut c: usize = 0;
        let ghost changed_v = changed@.map_values(|s: String| s@);
        proof {
            assert(ids@.map_values(|id: UntypedAssetId| id@) =~= notify_ids(
                self.assets_state().roots().sys_dir,
                self.assets_state().roots().usr_dir,
                self.assets_state().path_index(),
                changed_v.take(0),
            ));
        }
        while c < changed.len()
            invariant
                c <= changed@.len(),
                self.wf(),
                changed_v == changed@.map_values(|s: String| s@),
                ids@.map_values(|id: UntypedAssetId| id@) == notify_ids(
                    self.assets_state().roots().sys_dir,
                    self.assets_state().roots().usr_dir,
                    self.assets_state().path_index(),
                    changed_v.take(c as int),
                ),
            decreases changed@.len() - c,
        {
            proof {
                assert(changed_v.take(c + 1).drop_last() =~= changed_v.take(c as int));
                assert(changed_v.take(c + 1).last() == changed_v[c as int]);
                assert(changed@.map_values(|s: String| s@)[c as int] == changed@[c as int]@);
            }
            match self.assets.paths().asset_path(changed[c].as_str()) {
                Some(ap) => {
                    collect_walk_up(&self.assets, &ap, &mut ids);
                },
                None => {},
            }
            c = c + 1;
        }
        proof {
            assert(changed_v.take(c as int) =~= changed_v);
        }
        // Re-submit every matched identity, with the force flag set.
        let mut r: Vec<LoadAssetEvent> = Vec::new();
        let mut k: usize = 0;
        let ghost idsv = ids@.map_values(|id: UntypedAssetId| id@);
        proof {
            assert(r@.map_values(|e: LoadAssetEvent| e@.id) =~= idsv.take(0));
        }
        while k < ids.len()
            invariant
                k <= ids@.len(),
                idsv == ids@.map_values(|id: UntypedAssetId| id@),
                r@.map_values(|e: LoadAssetEvent| e@.id) == idsv.take(k as int),
                forall|i: int| 0 <= i < r@.len() ==> (#[trigger] r@[i]).force == true,
            decreases ids@.len() - k,
        {
            let ev = LoadAssetEvent { id: WeakAssetId::from_untyped(ids[k].clone()), force: true };
            proof {
                assert(idsv[k as int] == ids@[k as int]@);
                assert(ev@.id == idsv[k as int]);
            }
            let ghost pre_r = r@;
            proof {
                assert(pre_r.map_values(|e: LoadAssetEvent| e@.id) == idsv.take(k as int));
                assert(pre_r.map_values(|e: LoadAssetEvent| e@.id).len() == pre_r.len());
                assert(pre_r.len() == k as int);
            }
            r.push(ev);
            proof {
                assert forall|i: int| 0 <= i < r@.len() implies (#[trigger] r@[i])@.id
                    == idsv.take(k + 1)[i] by {
                    if i < k {
                        assert(r@[i] == pre_r[i]);
                        assert(pre_r.map_values(|e: LoadAssetEvent| e@.id)[i] == pre_r[i]@.id);
                        assert(idsv.take(k as int)[i] == idsv[i]);
                    } else {
                        assert(r@[i] == ev);
                    }
                }
                assert(r@.map_values(|e: LoadAssetEvent| e@.id) =~= idsv.take(k + 1));
            }
            k = k + 1;
        }
        proof {
            assert(idsv.take(k as int) =~= idsv);
        }
        r
    }
}

/// Appends the identities filed under the path and under each of its
/// ancestors, per [`walk_up_ids`].
fn collect_walk_up(assets: &Assets, ap: &crate::path::AssetPath, out: &mut Vec<UntypedAssetId>)
    ensures
        final(out)@.map_values(|id: UntypedAssetId| id@) == old(out)@.map_values(
            |id: UntypedAssetId| id@,
        ) + walk_up_ids(assets.path_index(), ap@),
    decreases ap@.path.len(),
{
    let mut here = assets.asset_ids_for_path(ap);
    let ghost herev = here@.map_values(|id: UntypedAssetId| id@);
    out.append(&mut here);
    proof {
        assert(out@.map_values(|id: UntypedAssetId| id@) =~= old(out)@.map_values(
            |id: UntypedAssetId| id@,
        ) + herev);
    }
    match ap.parent() {
        Some(p) => {
            proof {
                crate::path::lemma_path_parent_shrinks(ap@.path);
            }
            collect_walk_up(assets, &p, out);
            proof {
                assert(out@.map_values(|id: UntypedAssetId| id@) =~= old(out)@.map_values(
                    |id: UntypedAssetId| id@,
                ) + walk_up_ids(assets.path_index(), ap@));
            }
        },
        None => {
            proof {
                assert(walk_up_ids(assets.path_index(), ap@) =~= herev);
                assert(out@.map_values(|id: UntypedAssetId| id@) =~= old(out)@.map_values(
                    |id: UntypedAssetId| id@,
                ) + walk_up_ids(assets.path_index(), ap@));
            }
        },
    }
}

} // verus!
