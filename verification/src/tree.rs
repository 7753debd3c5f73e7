//! The backing file tree, as a value.
//!
//! Loaders read content through a cursor bound to one asset's location; the
//! cursor in turn reads from a [`FileTree`]: a snapshot of the two content
//! roots mapping each file's asset path to its bytes. The engine's runner
//! fills one from the real directories; tests build one in memory.

use vstd::prelude::*;
use crate::assoc::{assoc_map, keys_unique, lemma_assoc_map_absent, lemma_assoc_map_index,
    lemma_assoc_map_push, lemma_assoc_map_update};
use crate::path::{AssetPath, AssetPathV, path_parent};

verus! {

/// Whether `p` names a file directly inside the directory `dir`, under the
/// same root.
pub open spec fn is_child_of(p: AssetPathV, dir: AssetPathV) -> bool {
    p.kind == dir.kind && path_parent(p.path) == Some(dir.path)
}

/// The paths of the files directly inside `dir`, in listing order.
pub open spec fn children_of(entries: Seq<(AssetPathV, Seq<u8>)>, dir: AssetPathV) -> Seq<
    AssetPathV,
>
    decreases entries.len(),
{
    if entries.len() == 0 {
        Seq::empty()
    } else {
        let rest = children_of(entries.drop_last(), dir);
        if is_child_of(entries.last().0, dir) {
            rest.push(entries.last().0)
        } else {
            rest
        }
    }
}

/// A snapshot of the backing file tree: each file's asset path and bytes,
/// every path listed once.
#[derive(Debug)]
pub struct FileTree {
    files: Vec<(AssetPath, Vec<u8>)>,
}

impl View for FileTree {
    type V = Seq<(AssetPathV, Seq<u8>)>;

    closed spec fn view(&self) -> Seq<(AssetPathV, Seq<u8>)> {
        self.files@.map_values(|e: (AssetPath, Vec<u8>)| (e.0@, e.1@))
    }
}

impl FileTree {
    /// Every path is listed once.
    pub open spec fn wf(&self) -> bool {
        keys_unique(self@)
    }

    /// The contents: what bytes each path holds.
    pub open spec fn contents(&self) -> Map<AssetPathV, Seq<u8>> {
        assoc_map(self@)
    }

    /// An empty tree.
    pub fn new() -> (r: Self)
        ensures
            r.wf(),
            r@ == Seq::<(AssetPathV, Seq<u8>)>::empty(),
            r.contents() == Map::<AssetPathV, Seq<u8>>::empty(),
    {
        let r = FileTree { files: Vec::new() };
        proof {
            assert(r@ =~= Seq::<(AssetPathV, Seq<u8>)>::empty());
            assert(r.contents() =~= Map::<AssetPathV, Seq<u8>>::empty());
        }
        r
    }

    /// The position of `path` in the listing, if present.
    fn position(&self, path: &AssetPath) -> (r: Option<usize>)
        ensures
            match r {
                Some(i) => i < self@.len() && self@[i as int].0 == path@,
                None => forall|j: int| 0 <= j < self@.len() ==> (#[trigger] self@[j]).0 != path@,
            },
    {
        let mut i: usize = 0;
        while i < self.files.len()
            invariant
                i <= self.files@.len(),
                self@.len() == self.files@.len(),
                forall|j: int| 0 <= j < i ==> (#[trigger] self@[j]).0 != path@,
            decreases self.files@.len() - i,
        {
            if self.files[i].0.same(path) {
                return Some(i);
            }
            i = i + 1;
        }
        None
    }

    /// Writes `bytes` at `path`: a new file is appended to the listing, an
    /// existing one keeps its place.
    pub fn insert(&mut self, path: AssetPath, bytes: Vec<u8>)
        requires
            old(self).wf(),
        ensures
            final(self).wf(),
            final(self).contents() == old(self).contents().insert(path@, bytes@),
    {
        match self.position(&path) {
            Some(i) => {
                proof {
                    lemma_assoc_map_update(self@, i as int, bytes@);
                }
                self.files.remove(i);
                self.files.insert(i, (path, bytes));
                proof {
                    assert(self@ =~= old(self)@.update(i as int, (old(self)@[i as int].0, bytes@)));
                }
            },
            None => {
                proof {
                    lemma_assoc_map_push(self@, path@, bytes@);
                }
                self.files.push((path, bytes));
                proof {
                    assert(self@ =~= old(self)@.push((path@, bytes@)));
                }
            },
        }
    }

    /// The bytes at `path`, if the tree holds that file.
    pub fn read(&self, path: &AssetPath) -> (r: Option<&Vec<u8>>)
        requires
            self.wf(),
        ensures
            match r {
                Some(b) => self.contents().contains_key(path@) && self.contents()[path@] == b@,
                None => !self.contents().contains_key(path@),
            },
    {
        match self.position(path) {
            Some(i) => {
                proof {
                    lemma_assoc_map_index(self@, i as int);
                }
                Some(&self.files[i].1)
            },
            None => {
                proof {
                    lemma_assoc_map_absent(self@, path@);
                }
                None
            },
        }
    }

    /// Whether the tree holds a file at `path`.
    pub fn has(&self, path: &AssetPath) -> (r: bool)
        requires
            self.wf(),
        ensures
            r == self.contents().contains_key(path@),
    {
        self.read(path).is_some()
    }

    /// The files directly inside the directory `dir`, per [`children_of`].
    pub fn children(&self, dir: &AssetPath) -> (r: Vec<AssetPath>)
        ensures
            r@.map_values(|p: AssetPath| p@) == children_of(self@, dir@),
    {
        let mut r: Vec<AssetPath> = Vec::new();
        let mut i: usize = 0;
        proof {
            assert(r@.map_values(|p: AssetPath| p@) =~= children_of(self@.take(0), dir@));
        }
        while i < self.files.len()
            invariant
                i <= self.files@.len(),
                self@.len() == self.files@.len(),
                r@.map_values(|p: AssetPath| p@) == children_of(self@.take(i as int), dir@),
            decreases self.files@.len() - i,
        {
            let p = &self.files[i].0;
            let matches_dir = p.kind() == dir.kind() && match p.path().parent() {
                Some(par) => par.same(dir.path()),
                None => false,
            };
            proof {
                assert(self@.take(i + 1).drop_last() =~= self@.take(i as int));
                assert(self@.take(i + 1).last() == self@[i as int]);
            }
            if matches_dir {
                r.push(p.clone());
                proof {
                    assert(r@.map_values(|p: AssetPath| p@) =~= children_of(
                        self@.take(i + 1),
                        dir@,
                    ));
                }
            } else {
                proof {
                    assert(!is_child_of(self@[i as int].0, dir@));
                }
            }
            i = i + 1;
        }
        proof {
            assert(self@.take(i as int) =~= self@);
        }
        r
    }
}

} // verus!
