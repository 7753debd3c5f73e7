//! Asset values: what a loader produces and storage holds.
//!
//! The core stores content in a small closed set of shapes: raw bytes, text,
//! a structured document, or a directory table. The structured document is
//! the library's own tree; producing one from JSON bytes goes through
//! `serde_json` behind a trusted wrapper.

use vstd::prelude::*;
use crate::id::{AssetIdV, WeakAssetId};
use crate::path::RelPath;

verus! {

/// A structured document. Numbers are kept as their decimal text: the core
/// never interprets them, and this keeps the type free of floating point.
#[derive(Debug)]
pub enum JsonValue {
    Null,
    Bool(bool),
    Num(String),
    Str(String),
    Arr(Vec<JsonValue>),
    Obj(Vec<(String, JsonValue)>),
}

#[verifier::external_type_specification]
#[verifier::external_body]
pub struct ExSerdeJsonValue(serde_json::Value);

/// What parsing JSON bytes yields — the named result of `serde_json`'s
/// parse, carried over into the library's own document type. A function of
/// the bytes alone: equal bytes parse to equal documents, or equally fail.
pub uninterp spec fn json_doc_of(bytes: Seq<u8>) -> Option<JsonValue>;

/// Carries `serde_json`'s document over into the library's own, one arm per
/// variant, moving fields; a number keeps its decimal text.
#[verifier::external_body]
fn from_serde_value(v: serde_json::Value) -> JsonValue {
    match v {
        serde_json::Value::Null => JsonValue::Null,
        serde_json::Value::Bool(b) => JsonValue::Bool(b),
        serde_json::Value::Number(n) => JsonValue::Num(n.to_string()),
        serde_json::Value::String(s) => JsonValue::Str(s),
        serde_json::Value::Array(a) => JsonValue::Arr(
            a.into_iter().map(from_serde_value).collect(),
        ),
        serde_json::Value::Object(o) => JsonValue::Obj(
            o.into_iter().map(|(k, x)| (k, from_serde_value(x))).collect(),
        ),
    }
}

/// Relies on `serde_json::from_slice::<serde_json::Value>`: whether the
/// bytes parse as JSON, and the document they parse to, depend on the bytes
/// alone.
#[verifier::external_body]
pub(crate) fn parse_json(bytes: &Vec<u8>) -> (r: Option<JsonValue>)
    ensures
        r == json_doc_of(bytes@),
{
    match serde_json::from_slice::<serde_json::Value>(bytes.as_slice()) {
        Ok(v) => Some(from_serde_value(v)),
        Err(_) => None,
    }
}

/// The three strengths a table's entries were registered with.
#[derive(Debug, Copy, Clone, Eq, PartialEq, Structural)]
pub enum TableStrength {
    Weak,
    Strong,
    Loaded,
}

/// The mathematical value of an [`AssetTable`].
#[verifier::ext_equal]
pub ghost struct AssetTableV {
    pub strength: TableStrength,
    pub entries: Seq<(Seq<char>, AssetIdV)>,
}

/// The first identity filed under `key`, if any.
pub open spec fn table_lookup(entries: Seq<(Seq<char>, AssetIdV)>, key: Seq<char>) -> Option<
    AssetIdV,
>
    decreases entries.len(),
{
    if entries.len() == 0 {
        None
    } else if entries[0].0 == key {
        Some(entries[0].1)
    } else {
        table_lookup(entries.skip(1), key)
    }
}

/// An ordered mapping from a relative sub-path to an asset identity, derived
/// by enumerating a directory.
#[derive(Debug)]
pub struct AssetTable {
    strength: TableStrength,
    entries: Vec<(RelPath, WeakAssetId)>,
}

impl View for AssetTable {
    type V = AssetTableV;

    closed spec fn view(&self) -> AssetTableV {
        AssetTableV {
            strength: self.strength,
            entries: self.entries@.map_values(|e: (RelPath, WeakAssetId)| (e.0@, e.1@)),
        }
    }
}

impl AssetTable {
    /// An empty table of the given strength.
    pub fn empty(strength: TableStrength) -> (r: Self)
        ensures
            r@.strength == strength,
            r@.entries == Seq::<(Seq<char>, AssetIdV)>::empty(),
    {
        let r = AssetTable { strength, entries: Vec::new() };
        proof {
            assert(r@.entries =~= Seq::<(Seq<char>, AssetIdV)>::empty());
        }
        r
    }

    /// Files one more entry at the end of the table.
    pub fn push(&mut self, key: RelPath, id: WeakAssetId)
        ensures
            final(self)@.strength == old(self)@.strength,
            final(self)@.entries == old(self)@.entries.push((key@, id@)),
    {
        self.entries.push((key, id));
        proof {
            assert(self@.entries =~= old(self)@.entries.push((key@, id@)));
        }
    }

    pub fn strength(&self) -> (r: TableStrength)
        ensures
            r == self@.strength,
    {
        self.strength
    }

    pub fn len(&self) -> (r: usize)
        ensures
            r == self@.entries.len(),
    {
        self.entries.len()
    }

    /// The entry at the given position.
    pub fn at(&self, i: usize) -> (r: (&RelPath, &WeakAssetId))
        requires
            i < self@.entries.len(),
        ensures
            (r.0@, r.1@) == self@.entries[i as int],
    {
        let e = &self.entries[i];
        (&e.0, &e.1)
    }

    /// The first identity filed under `key`, per [`table_lookup`].
    pub fn get(&self, key: &RelPath) -> (r: Option<&WeakAssetId>)
        ensures
            match r {
                Some(id) => table_lookup(self@.entries, key@) == Some(id@),
                None => table_lookup(self@.entries, key@) is None,
            },
    {
        let mut i: usize = 0;
        proof {
            assert(self@.entries.skip(0) =~= self@.entries);
        }
        while i < self.entries.len()
            invariant
                i <= self.entries@.len(),
                self@.entries.len() == self.entries@.len(),
                forall|j: int|
                    0 <= j < i ==> #[trigger] self@.entries[j].0 != key@,
                table_lookup(self@.entries, key@) == table_lookup(
                    self@.entries.skip(i as int),
                    key@,
                ),
            decreases self.entries@.len() - i,
        {
            if self.entries[i].0.same(key) {
                proof {
                    assert(self@.entries.skip(i as int)[0] == self@.entries[i as int]);
                }
                return Some(&self.entries[i].1);
            }
            proof {
                assert(self@.entries.skip(i as int).skip(1) =~= self@.entries.skip(i + 1));
                assert(self@.entries.skip(i as int)[0] == self@.entries[i as int]);
            }
            i = i + 1;
        }
        proof {
            assert(self@.entries.skip(i as int).len() == 0);
        }
        None
    }
}

/// A fully constructed asset value, in one of the shapes the core stores.
#[derive(Debug)]
pub enum AssetValue {
    /// Raw bytes the core does not interpret.
    Blob(Vec<u8>),
    /// Text content, such as shader source.
    Text(String),
    /// A structured document whose embedded references were resolved.
    Doc(JsonValue),
    /// A directory listing.
    Table(AssetTable),
}

} // verus!
