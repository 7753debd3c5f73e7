//! Relative paths and namespaced asset paths.
//!
//! Every file-backed asset lives under exactly one of two content roots:
//! `sys` (engine-shipped) or `usr` (user content). An [`AssetPath`] pairs the
//! root kind with a path relative to that root, written with `/` separators.

use vstd::prelude::*;
use crate::text::{chars_to_string, str_to_chars};

verus! {

/// The parent of a relative path: the text up to the last `/`, the empty
/// path when there is no separator, and nothing for the empty path itself.
pub open spec fn path_parent(s: Seq<char>) -> Option<Seq<char>> {
    if s.len() == 0 {
        None
    } else {
        match s.index_of_last('/') {
            Some(i) => Some(s.take(i)),
            None => Some(Seq::empty()),
        }
    }
}

/// A parent is strictly shorter than its child.
pub proof fn lemma_path_parent_shrinks(s: Seq<char>)
    ensures
        path_parent(s) matches Some(p) ==> p.len() < s.len(),
{
    if s.len() > 0 {
        s.index_of_last_ensures('/');
    }
}

/// The file-name part of a relative path: the text after the last `/`.
pub open spec fn path_file_name(s: Seq<char>) -> Seq<char> {
    match s.index_of_last('/') {
        Some(i) => s.skip(i + 1),
        None => s,
    }
}

/// The extension of a relative path: the text after the last `.` of the file
/// name, provided that dot is neither the first character of the name (a
/// leading dot marks a hidden file, not an extension) nor absent.
pub open spec fn path_extension(s: Seq<char>) -> Option<Seq<char>> {
    let name = path_file_name(s);
    match name.index_of_last('.') {
        Some(i) => if i > 0 {
            Some(name.skip(i + 1))
        } else {
            None
        },
        None => None,
    }
}

/// A path relative to a content root, with `/` separators.
#[derive(Debug)]
pub struct RelPath {
    text: String,
}

impl Clone for RelPath {
    fn clone(&self) -> (r: Self)
        ensures
            r@ == self@,
    {
        RelPath { text: self.text.clone() }
    }
}

impl View for RelPath {
    type V = Seq<char>;

    closed spec fn view(&self) -> Seq<char> {
        self.text@
    }
}

/// The index of the last occurrence of `c` in `v`, if any.
fn find_last(v: &Vec<char>, c: char) -> (r: Option<usize>)
    ensures
        match r {
            Some(i) => i < v@.len() && v@[i as int] == c && v@.index_of_last(c) == Some(i as int),
            None => v@.index_of_last(c) is None,
        },
{
    proof {
        v@.index_of_last_ensures(c);
    }
    let mut i: usize = v.len();
    while i > 0
        invariant
            i <= v.len(),
            forall|j: int| i <= j < v@.len() ==> v@[j] != c,
            v@.index_of_last(c) matches Some(k) ==> 0 <= k < v@.len() && v@[k] == c,
            v@.index_of_last(c) matches Some(k) ==> forall|j: int| k < j < v@.len() ==> v@[j] != c,
            v@.index_of_last(c) is None ==> forall|j: int| 0 <= j < v@.len() ==> v@[j] != c,
        decreases i,
    {
        i = i - 1;
        if v[i] == c {
            proof {
                match v@.index_of_last(c) {
                    Some(k) => {
                        if k < i {
                            assert(v@[i as int] != c);
                        }
                        if k > i {
                            assert(v@[k] != c);
                        }
                    },
                    None => {},
                }
            }
            return Some(i);
        }
    }
    None
}

impl RelPath {
    /// The path written as the given text.
    pub fn new(s: &str) -> (r: Self)
        ensures
            r@ == s@,
    {
        RelPath { text: s.to_owned() }
    }

    /// The path holding exactly the given characters.
    pub fn from_chars(v: &Vec<char>) -> (r: Self)
        ensures
            r@ == v@,
    {
        RelPath { text: chars_to_string(v) }
    }

    pub fn as_str(&self) -> (r: &str)
        ensures
            r@ == self@,
    {
        self.text.as_str()
    }

    pub fn is_empty(&self) -> (r: bool)
        ensures
            r == (self@.len() == 0),
    {
        self.text.as_str().is_empty()
    }

    /// Whether two paths are written identically.
    pub fn same(&self, other: &RelPath) -> (r: bool)
        ensures
            r == (self@ == other@),
    {
        self.text == other.text
    }

    /// The parent path, per [`path_parent`].
    pub fn parent(&self) -> (r: Option<RelPath>)
        ensures
            match r {
                Some(p) => path_parent(self@) == Some(p@),
                None => path_parent(self@) is None,
            },
    {
        let chars = str_to_chars(self.text.as_str());
        if chars.len() == 0 {
            return None;
        }
        match find_last(&chars, '/') {
            Some(i) => {
                let mut prefix: Vec<char> = Vec::new();
                let mut j: usize = 0;
                while j < i
                    invariant
                        j <= i,
                        i < chars@.len(),
                        prefix@ == chars@.take(j as int),
                    decreases i - j,
                {
                    prefix.push(chars[j]);
                    proof {
                        assert(prefix@ =~= chars@.take(j + 1 as int));
                    }
                    j = j + 1;
                }
                Some(RelPath::from_chars(&prefix))
            },
            None => Some(RelPath { text: String::new() }),
        }
    }

    /// The extension, per [`path_extension`].
    pub fn extension(&self) -> (r: Option<String>)
        ensures
            match r {
                Some(e) => path_extension(self@) == Some(e@),
                None => path_extension(self@) is None,
            },
    {
        let chars = str_to_chars(self.text.as_str());
        // Reading the length makes its machine bound available to the
        // arithmetic below.
        let n = chars.len();
        let start: usize = match find_last(&chars, '/') {
            Some(i) => i + 1,
            None => 0,
        };
        let mut name: Vec<char> = Vec::new();
        let mut j: usize = start;
        while j < chars.len()
            invariant
                start <= j <= chars@.len(),
                name@ == chars@.subrange(start as int, j as int),
            decreases chars@.len() - j,
        {
            name.push(chars[j]);
            proof {
                assert(name@ =~= chars@.subrange(start as int, j + 1 as int));
            }
            j = j + 1;
        }
        proof {
            assert(name@ =~= path_file_name(self@));
        }
        match find_last(&name, '.') {
            Some(i) => {
                if i > 0 {
                    let mut ext: Vec<char> = Vec::new();
                    let mut k: usize = i + 1;
                    while k < name.len()
                        invariant
                            i + 1 <= k <= name@.len(),
                            ext@ == name@.subrange(i + 1 as int, k as int),
                        decreases name@.len() - k,
                    {
                        ext.push(name[k]);
                        proof {
                            assert(ext@ =~= name@.subrange(i + 1 as int, k + 1 as int));
                        }
                        k = k + 1;
                    }
                    proof {
                        assert(ext@ =~= path_file_name(self@).skip(i + 1));
                    }
                    Some(chars_to_string(&ext))
                } else {
                    None
                }
            },
            None => None,
        }
    }
}

/// The two content roots.
#[derive(Debug, Copy, Clone, Eq, PartialEq, Structural, Hash)]
pub enum AssetPathKind {
    Sys,
    Usr,
}

/// The protocol text of a root: `sys` or `usr`.
pub open spec fn protocol_text(kind: AssetPathKind) -> Seq<char> {
    match kind {
        AssetPathKind::Sys => seq!['s', 'y', 's'],
        AssetPathKind::Usr => seq!['u', 's', 'r'],
    }
}

/// The root whose protocol is written as the given text, if any.
pub open spec fn kind_of_protocol(s: Seq<char>) -> Option<AssetPathKind> {
    if s == protocol_text(AssetPathKind::Sys) {
        Some(AssetPathKind::Sys)
    } else if s == protocol_text(AssetPathKind::Usr) {
        Some(AssetPathKind::Usr)
    } else {
        None
    }
}

impl AssetPathKind {
    pub fn protocol(&self) -> (r: &'static str)
        ensures
            r@ == protocol_text(*self),
    {
        proof {
            reveal_strlit("sys");
            reveal_strlit("usr");
        }
        match self {
            AssetPathKind::Sys => "sys",
            AssetPathKind::Usr => "usr",
        }
    }

    /// The root named by a protocol, given as its characters.
    pub fn from_protocol(protocol: &Vec<char>) -> (r: Option<Self>)
        ensures
            r == kind_of_protocol(protocol@),
    {
        if protocol.len() == 3 {
            let c0 = protocol[0];
            let c1 = protocol[1];
            let c2 = protocol[2];
            if c0 == 's' && c1 == 'y' && c2 == 's' {
                proof {
                    assert(protocol@ =~= protocol_text(AssetPathKind::Sys));
                }
                Some(AssetPathKind::Sys)
            } else if c0 == 'u' && c1 == 's' && c2 == 'r' {
                proof {
                    assert(protocol@ =~= protocol_text(AssetPathKind::Usr));
                }
                Some(AssetPathKind::Usr)
            } else {
                proof {
                    assert(protocol@ != protocol_text(AssetPathKind::Sys));
                    assert(protocol@ != protocol_text(AssetPathKind::Usr));
                }
                None
            }
        } else {
            None
        }
    }
}

/// The mathematical value of an [`AssetPath`].
#[verifier::ext_equal]
pub ghost struct AssetPathV {
    pub kind: AssetPathKind,
    pub path: Seq<char>,
}

/// A path-based asset name: a content root plus a relative path.
#[derive(Debug)]
pub struct AssetPath {
    kind: AssetPathKind,
    path: RelPath,
}

impl Clone for AssetPath {
    fn clone(&self) -> (r: Self)
        ensures
            r@ == self@,
    {
        AssetPath { kind: self.kind, path: self.path.clone() }
    }
}

impl View for AssetPath {
    type V = AssetPathV;

    closed spec fn view(&self) -> AssetPathV {
        AssetPathV { kind: self.kind, path: self.path@ }
    }
}

impl AssetPath {
    pub fn new(kind: AssetPathKind, path: RelPath) -> (r: Self)
        ensures
            r@ == (AssetPathV { kind, path: path@ }),
    {
        AssetPath { kind, path }
    }

    pub fn kind(&self) -> (r: AssetPathKind)
        ensures
            r == self@.kind,
    {
        self.kind
    }

    pub fn path(&self) -> (r: &RelPath)
        ensures
            r@ == self@.path,
    {
        &self.path
    }

    /// A path under the `sys` root.
    pub fn sys(path: &str) -> (r: Self)
        ensures
            r@ == (AssetPathV { kind: AssetPathKind::Sys, path: path@ }),
    {
        AssetPath { kind: AssetPathKind::Sys, path: RelPath::new(path) }
    }

    /// A path under the `usr` root.
    pub fn usr(path: &str) -> (r: Self)
        ensures
            r@ == (AssetPathV { kind: AssetPathKind::Usr, path: path@ }),
    {
        AssetPath { kind: AssetPathKind::Usr, path: RelPath::new(path) }
    }

    /// Whether two asset paths name the same root and relative path.
    pub fn same(&self, other: &AssetPath) -> (r: bool)
        ensures
            r == (self@ == other@),
    {
        let k = self.kind == other.kind;
        let p = self.path.same(&other.path);
        proof {
            if k && p {
                assert(self@ =~= other@);
            }
        }
        k && p
    }

    /// The parent asset path, under the same root.
    pub fn parent(&self) -> (r: Option<AssetPath>)
        ensures
            match r {
                Some(p) => p@.kind == self@.kind && path_parent(self@.path) == Some(p@.path),
                None => path_parent(self@.path) is None,
            },
    {
        match self.path.parent() {
            Some(p) => Some(AssetPath { kind: self.kind, path: p }),
            None => None,
        }
    }
}

} // verus!
