//! Messages consumed and emitted by the asset server.

use vstd::prelude::*;
use crate::id::{AssetIdV, UntypedAssetId, WeakAssetId};
use crate::value::AssetValue;

verus! {

/// Whether an asset was just made resident or just unloaded.
#[derive(Debug, Copy, Clone, Eq, PartialEq, Structural)]
pub enum AssetEventKind {
    Load,
    Unload,
}

/// The mathematical value of an [`AssetEvent`].
#[verifier::ext_equal]
pub ghost struct AssetEventV {
    pub id: AssetIdV,
    pub kind: AssetEventKind,
}

/// A load/unload notification, emitted on commit and on collection.
#[derive(Debug)]
pub struct AssetEvent {
    pub id: WeakAssetId,
    pub kind: AssetEventKind,
}

impl View for AssetEvent {
    type V = AssetEventV;

    open spec fn view(&self) -> AssetEventV {
        AssetEventV { id: self.id@, kind: self.kind }
    }
}

impl Clone for AssetEvent {
    fn clone(&self) -> (r: Self)
        ensures
            r@ == self@,
    {
        AssetEvent { id: self.id.clone(), kind: self.kind }
    }
}

/// The mathematical value of a [`LoadAssetEvent`].
#[verifier::ext_equal]
pub ghost struct LoadAssetEventV {
    pub id: AssetIdV,
    pub force: bool,
}

/// A request to load an asset; `force` re-runs the loader even when the
/// asset is already resident (a hot reload).
#[derive(Debug)]
pub struct LoadAssetEvent {
    pub id: WeakAssetId,
    pub force: bool,
}

impl View for LoadAssetEvent {
    type V = LoadAssetEventV;

    open spec fn view(&self) -> LoadAssetEventV {
        LoadAssetEventV { id: self.id@, force: self.force }
    }
}

impl Clone for LoadAssetEvent {
    fn clone(&self) -> (r: Self)
        ensures
            r@ == self@,
    {
        LoadAssetEvent { id: self.id.clone(), force: self.force }
    }
}

impl LoadAssetEvent {
    pub fn new(id: WeakAssetId, force: bool) -> (r: Self)
        ensures
            r@ == (LoadAssetEventV { id: id@, force }),
    {
        LoadAssetEvent { id, force }
    }
}

/// An in-memory value to publish through the sync queue as if it had been
/// loaded from disk.
#[derive(Debug)]
pub struct StoreAssetEvent {
    pub id: WeakAssetId,
    pub asset: AssetValue,
}

impl StoreAssetEvent {
    pub fn new(id: WeakAssetId, asset: AssetValue) -> (r: Self)
        ensures
            r.id@ == id@,
            r.asset == asset,
    {
        StoreAssetEvent { id, asset }
    }
}

/// The commit trigger; carries the sync-request counter it answers.
#[derive(Debug, Copy, Clone)]
pub struct SyncAssetEvent {
    pub sync: u64,
}

/// The mathematical value of a [`SyncQueueEntry`].
#[verifier::ext_equal]
pub ghost struct SyncQueueEntryV {
    pub id: AssetIdV,
    pub asset: AssetValue,
    pub loaded_event: AssetEventV,
    pub unloaded_event: AssetEventV,
}

/// A freshly produced asset value, not yet visible to readers: its identity,
/// the value, and the two pre-built notifications.
#[derive(Debug)]
pub struct SyncQueueEntry {
    pub asset_id: UntypedAssetId,
    pub asset: AssetValue,
    pub loaded_event: AssetEvent,
    pub unloaded_event: AssetEvent,
}

impl View for SyncQueueEntry {
    type V = SyncQueueEntryV;

    open spec fn view(&self) -> SyncQueueEntryV {
        SyncQueueEntryV {
            id: self.asset_id@,
            asset: self.asset,
            loaded_event: self.loaded_event@,
            unloaded_event: self.unloaded_event@,
        }
    }
}

impl SyncQueueEntry {
    /// The entry publishing `asset` under `id`, with its two notifications.
    pub fn new(id: WeakAssetId, asset: AssetValue) -> (r: Self)
        ensures
            r@ == (SyncQueueEntryV {
                id: id@,
                asset,
                loaded_event: AssetEventV { id: id@, kind: AssetEventKind::Load },
                unloaded_event: AssetEventV { id: id@, kind: AssetEventKind::Unload },
            }),
    {
        let loaded_event = AssetEvent { id: id.clone(), kind: AssetEventKind::Load };
        let unloaded_event = AssetEvent { id: id.clone(), kind: AssetEventKind::Unload };
        let untyped = id.untyped().clone();
        SyncQueueEntry { asset_id: untyped, asset, loaded_event, unloaded_event }
    }
}

/// The mathematical value of a [`DependencyQueueEntry`].
#[verifier::ext_equal]
pub ghost struct DependencyQueueEntryV {
    pub id: AssetIdV,
    pub force: bool,
}

/// An identity discovered mid-load that must be resolved before the outer
/// load is complete.
#[derive(Debug)]
pub struct DependencyQueueEntry {
    pub asset_id: UntypedAssetId,
    pub force: bool,
}

impl View for DependencyQueueEntry {
    type V = DependencyQueueEntryV;

    open spec fn view(&self) -> DependencyQueueEntryV {
        DependencyQueueEntryV { id: self.asset_id@, force: self.force }
    }
}

} // verus!
