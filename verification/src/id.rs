//! Untyped asset identities and the three reference-strength handles.
//!
//! An identity is derived deterministically from a type tag and a uri: a
//! 128-bit digest computed over both, kept beside the uri and the tag for
//! diagnostics. Handles come in three strengths over the same identity:
//! `Weak` (name only), `Strong` (pinned: the asset will not be collected
//! while the registration it stands for is held) and `Loaded` (pinned and
//! known resident).

use vstd::prelude::*;
use crate::uri::{AssetUri, AssetUriV, uri_text};

verus! {

/// What the identity digest of a type tag and a uri text is: the named
/// result of the BLAKE3 derivation, a function of its arguments alone.
pub uninterp spec fn asset_digest(tag: u64, uri: Seq<char>) -> u128;

/// Relies on `blake3::Hasher` (`update`, `finalize`): the digest is a
/// function of the fed bytes alone — here the tag's little-endian bytes
/// followed by the uri text's UTF-8 bytes — so equal tags and texts give
/// equal results.
#[verifier::external_body]
fn digest_id(tag: u64, uri: &str) -> (r: u128)
    ensures
        r == asset_digest(tag, uri@),
{
    let mut hasher = blake3::Hasher::new();
    hasher.update(&tag.to_le_bytes());
    hasher.update(uri.as_bytes());
    let hash = hasher.finalize();
    let mut first = [0u8; 16];
    first.copy_from_slice(&hash.as_bytes()[..16]);
    u128::from_le_bytes(first)
}

/// The mathematical value of an identity.
#[verifier::ext_equal]
pub ghost struct AssetIdV {
    pub digest: u128,
    pub tag: u64,
    pub uri: AssetUriV,
}

/// The identity derived from a type tag and a uri.
pub open spec fn derived_id(tag: u64, uri: AssetUriV) -> AssetIdV {
    AssetIdV { digest: asset_digest(tag, uri_text(uri)), tag, uri }
}

/// An asset's primary key: the derived digest plus the uri and type tag it
/// was derived from.
#[derive(Debug)]
pub struct UntypedAssetId {
    id: u128,
    tag: u64,
    uri: AssetUri,
}

impl View for UntypedAssetId {
    type V = AssetIdV;

    closed spec fn view(&self) -> AssetIdV {
        AssetIdV { digest: self.id, tag: self.tag, uri: self.uri@ }
    }
}

impl Clone for UntypedAssetId {
    fn clone(&self) -> (r: Self)
        ensures
            r@ == self@,
    {
        UntypedAssetId { id: self.id, tag: self.tag, uri: self.uri.clone() }
    }
}

impl UntypedAssetId {
    /// The identity of the given type tag at the given uri.
    pub fn new(tag: u64, uri: AssetUri) -> (r: Self)
        ensures
            r@ == derived_id(tag, uri@),
    {
        let text = uri.to_uri_string();
        let id = digest_id(tag, text.as_str());
        UntypedAssetId { id, tag, uri }
    }

    pub fn digest(&self) -> (r: u128)
        ensures
            r == self@.digest,
    {
        self.id
    }

    pub fn tag(&self) -> (r: u64)
        ensures
            r == self@.tag,
    {
        self.tag
    }

    pub fn uri(&self) -> (r: &AssetUri)
        ensures
            r@ == self@.uri,
    {
        &self.uri
    }

    /// Whether two identities are equal, on all of digest, tag and uri.
    pub fn same(&self, other: &UntypedAssetId) -> (r: bool)
        ensures
            r == (self@ == other@),
    {
        let d = self.id == other.id;
        let t = self.tag == other.tag;
        let u = self.uri.same(&other.uri);
        proof {
            if d && t && u {
                assert(self@ =~= other@);
            }
        }
        d && t && u
    }
}

/// Law: deriving the identity of one uri and one type twice yields equal
/// values, digests included — the derivation is a function of its inputs.
pub proof fn lemma_identity_deterministic(tag: u64, uri: AssetUriV)
    ensures
        derived_id(tag, uri) == derived_id(tag, uri),
        derived_id(tag, uri).digest == derived_id(tag, uri).digest,
{
}

/// Law: identities derived for different type tags never collide, whatever
/// the uris — the tag is part of the identity.
pub proof fn lemma_identity_tag_separates(t1: u64, t2: u64, u1: AssetUriV, u2: AssetUriV)
    requires
        t1 != t2,
    ensures
        derived_id(t1, u1) != derived_id(t2, u2),
{
}

/// Law: identities derived for different uris never collide, whatever the
/// type tags — the uri is part of the identity.
pub proof fn lemma_identity_uri_separates(t1: u64, t2: u64, u1: AssetUriV, u2: AssetUriV)
    requires
        u1 != u2,
    ensures
        derived_id(t1, u1) != derived_id(t2, u2),
{
}

/// Law: strength conversions never change identity. Upgrading a weak handle
/// yields a strong one of the same identity, and taking its weak view again
/// yields an identity equal to the one upgraded — here stated over the
/// identities the conversions' own contracts relate.
pub proof fn lemma_strength_roundtrip(weak: AssetIdV, upgraded: AssetIdV, back: AssetIdV)
    requires
        upgraded == weak,
        back == upgraded,
    ensures
        back == weak,
{
}

/// A name-only handle: cheap to copy, no lifetime guarantee.
#[derive(Debug)]
pub struct WeakAssetId {
    untyped: UntypedAssetId,
}

/// A pinning handle: stands for one registration in the storage counter of
/// its identity, taken when the handle was handed out by a registering
/// client operation (a load, upgrade, store or explicit clone) and given
/// back by exactly one release. Pure strength conversions — `to_weak`, the
/// loaded views, `as_strong` — never take or give back a registration:
/// release only what a registering operation handed out.
#[derive(Debug)]
pub struct StrongAssetId {
    untyped: UntypedAssetId,
}

/// A pinning handle whose identity was confirmed resident when it was
/// handed out. It is a view of the strong handle it was confirmed against
/// and carries no registration of its own.
#[derive(Debug)]
pub struct LoadedAssetId {
    untyped: UntypedAssetId,
}

impl View for WeakAssetId {
    type V = AssetIdV;

    closed spec fn view(&self) -> AssetIdV {
        self.untyped@
    }
}

impl View for StrongAssetId {
    type V = AssetIdV;

    closed spec fn view(&self) -> AssetIdV {
        self.untyped@
    }
}

impl View for LoadedAssetId {
    type V = AssetIdV;

    closed spec fn view(&self) -> AssetIdV {
        self.untyped@
    }
}

impl Clone for WeakAssetId {
    fn clone(&self) -> (r: Self)
        ensures
            r@ == self@,
    {
        WeakAssetId { untyped: self.untyped.clone() }
    }
}

impl WeakAssetId {
    /// The weak handle of the given type tag at the given uri.
    pub fn new(tag: u64, uri: AssetUri) -> (r: Self)
        ensures
            r@ == derived_id(tag, uri@),
    {
        WeakAssetId { untyped: UntypedAssetId::new(tag, uri) }
    }

    /// The weak handle of a path-based asset.
    pub fn path(tag: u64, path: crate::path::AssetPath) -> (r: Self)
        ensures
            r@ == derived_id(tag, AssetUriV::AssetPath(path@)),
    {
        WeakAssetId::new(tag, AssetUri::AssetPath(path))
    }

    /// The weak handle of a UUID-named asset.
    pub fn uuid(tag: u64, uuid: u128) -> (r: Self)
        ensures
            r@ == derived_id(tag, AssetUriV::Uuid(uuid)),
    {
        WeakAssetId::new(tag, AssetUri::Uuid(uuid))
    }

    /// The handle of an already-derived identity.
    pub fn from_untyped(untyped: UntypedAssetId) -> (r: Self)
        ensures
            r@ == untyped@,
    {
        WeakAssetId { untyped }
    }

    pub fn untyped(&self) -> (r: &UntypedAssetId)
        ensures
            r@ == self@,
    {
        &self.untyped
    }

    pub fn uri(&self) -> (r: &AssetUri)
        ensures
            r@ == self@.uri,
    {
        self.untyped.uri()
    }

    /// Whether two handles name the same asset.
    pub fn is_same_asset(&self, other: &WeakAssetId) -> (r: bool)
        ensures
            r == (self@ == other@),
    {
        self.untyped.same(&other.untyped)
    }
}

impl StrongAssetId {
    /// The weak view of this handle: the same identity, nothing pinned.
    pub fn to_weak(&self) -> (r: WeakAssetId)
        ensures
            r@ == self@,
    {
        WeakAssetId { untyped: self.untyped.clone() }
    }

    pub fn untyped(&self) -> (r: &UntypedAssetId)
        ensures
            r@ == self@,
    {
        &self.untyped
    }

    pub fn uri(&self) -> (r: &AssetUri)
        ensures
            r@ == self@.uri,
    {
        self.untyped.uri()
    }

    /// Whether two handles name the same asset.
    pub fn is_same_asset(&self, other: &StrongAssetId) -> (r: bool)
        ensures
            r == (self@ == other@),
    {
        self.untyped.same(&other.untyped)
    }

    /// A strong handle over an already-registered identity. Only storage and
    /// the loader pipeline hand these out: each one stands for one count in
    /// the identity's counter.
    pub(crate) fn from_untyped(untyped: UntypedAssetId) -> (r: Self)
        ensures
            r@ == untyped@,
    {
        StrongAssetId { untyped }
    }

    /// The loaded view of this handle, on the caller's own justification
    /// that the asset is resident or about to be (an optimistic handle, for
    /// sources that guarantee the dependency exists).
    pub(crate) fn promised_loaded(self) -> (r: LoadedAssetId)
        ensures
            r@ == self@,
    {
        LoadedAssetId { untyped: self.untyped }
    }
}

impl LoadedAssetId {
    /// The strong view of this handle: residency is forgotten. The view adds
    /// no registration — releasing it gives back the one registration of the
    /// strong handle this loaded handle was confirmed against.
    pub fn as_strong(&self) -> (r: StrongAssetId)
        ensures
            r@ == self@,
    {
        StrongAssetId { untyped: self.untyped.clone() }
    }

    /// The weak view of this handle.
    pub fn to_weak(&self) -> (r: WeakAssetId)
        ensures
            r@ == self@,
    {
        WeakAssetId { untyped: self.untyped.clone() }
    }

    pub fn untyped(&self) -> (r: &UntypedAssetId)
        ensures
            r@ == self@,
    {
        &self.untyped
    }

    pub fn uri(&self) -> (r: &AssetUri)
        ensures
            r@ == self@.uri,
    {
        self.untyped.uri()
    }
}

} // verus!
