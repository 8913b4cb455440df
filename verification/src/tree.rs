//! An in-memory model of a directory tree: a flat list of files, each a
//! normalized relative path (separators `/`) with its content bytes.
//!
//! The diff and sync engines work on this model; the caller walks the real
//! filesystem and fills it in, and applies the resulting copies back to
//! disk.

use vstd::prelude::*;
use crate::strutil::str_eq;

verus! {

/// One regular file: its tree-relative normalized path and its bytes.
#[derive(Debug, Clone)]
pub struct FileEntry {
    pub path: String,
    pub data: Vec<u8>,
}

/// A directory tree as a set of files, each path listed once.
#[derive(Debug, Clone)]
pub struct FileTree {
    pub files: Vec<FileEntry>,
}

/// The finite map a file list denotes, later entries shadowing earlier
/// ones with the same path.
pub open spec fn map_of_files(files: Seq<FileEntry>) -> Map<Seq<char>, Seq<u8>>
    decreases files.len(),
{
    if files.len() == 0 {
        Map::empty()
    } else {
        map_of_files(files.drop_last()).insert(files.last().path@, files.last().data@)
    }
}

/// A key is in the map exactly when some entry carries that path.
pub proof fn lemma_map_of_files_contains(files: Seq<FileEntry>, p: Seq<char>)
    ensures
        map_of_files(files).contains_key(p) <==> exists|i: int|
            0 <= i < files.len() && files[i].path@ == p,
    decreases files.len(),
{
    if files.len() > 0 {
        lemma_map_of_files_contains(files.drop_last(), p);
        if map_of_files(files).contains_key(p) {
            if files.last().path@ != p {
                let i = choose|i: int|
                    0 <= i < files.drop_last().len() && files.drop_last()[i].path@ == p;
                assert(files[i].path@ == p);
            }
        }
        if exists|i: int| 0 <= i < files.len() && files[i].path@ == p {
            let i = choose|i: int| 0 <= i < files.len() && files[i].path@ == p;
            if i < files.len() - 1 {
                assert(files.drop_last()[i].path@ == p);
            }
        }
    }
}

impl FileTree {
    /// Well-formed: no path occurs twice.
    pub open spec fn wf(self) -> bool {
        forall|i: int, j: int|
            0 <= i < j < self.files@.len() ==> self.files@[i].path@ != self.files@[j].path@
    }

    /// The tree as a map from path to content bytes.
    pub open spec fn as_map(self) -> Map<Seq<char>, Seq<u8>> {
        map_of_files(self.files@)
    }

    /// In a well-formed tree, each entry is found at its own path.
    pub proof fn lemma_get(files: Seq<FileEntry>, i: int)
        requires
            forall|a: int, b: int|
                0 <= a < b < files.len() ==> files[a].path@ != files[b].path@,
            0 <= i < files.len(),
        ensures
            map_of_files(files).contains_key(files[i].path@),
            map_of_files(files)[files[i].path@] == files[i].data@,
        decreases files.len(),
    {
        if i == files.len() - 1 {
        } else {
            assert(files[i].path@ != files.last().path@);
            assert(files.drop_last()[i] == files[i]);
            Self::lemma_get(files.drop_last(), i);
        }
    }

    /// An empty tree.
    pub fn new() -> (r: FileTree)
        ensures
            r.wf(),
            r.as_map() == Map::<Seq<char>, Seq<u8>>::empty(),
    {
        let t = FileTree { files: Vec::new() };
        proof {
            assert(t.as_map() =~= Map::<Seq<char>, Seq<u8>>::empty());
        }
        t
    }

    /// Looks a path up in the tree.
    pub fn lookup(&self, path: &str) -> (r: Option<&Vec<u8>>)
        requires
            self.wf(),
        ensures
            r matches Some(d) ==> self.as_map().contains_key(path@) && d@ == self.as_map()[path@],
            r is None ==> !self.as_map().contains_key(path@),
    {
        let n = self.files.len();
        let mut i: usize = 0;
        while i < n
            invariant
                self.wf(),
                n == self.files@.len(),
                0 <= i <= n,
                forall|j: int| 0 <= j < i ==> self.files@[j].path@ != path@,
            decreases n - i,
        {
            if str_eq(self.files[i].path.as_str(), path) {
                proof {
                    Self::lemma_get(self.files@, i as int);
                }
                return Some(&self.files[i].data);
            }
            i = i + 1;
        }
        proof {
            lemma_map_of_files_contains(self.files@, path@);
        }
        None
    }

    /// Inserts a file, overwriting any entry with the same path.
    pub fn insert(&mut self, path: String, data: Vec<u8>)
        requires
            old(self).wf(),
        ensures
            final(self).wf(),
            final(self).as_map() == old(self).as_map().insert(path@, data@),
    {
        let n = self.files.len();
        let mut i: usize = 0;
        while i < n
            invariant
                self.wf(),
                *self == *old(self),
                n == self.files@.len(),
                0 <= i <= n,
                forall|j: int| 0 <= j < i ==> self.files@[j].path@ != path@,
            decreases n - i,
        {
            if str_eq(self.files[i].path.as_str(), path.as_str()) {
                let entry = FileEntry { path, data };
                proof {
                    lemma_map_update(self.files@, i as int, entry);
                }
                self.files.set(i, entry);
                return ;
            }
            i = i + 1;
        }
        let ghost oldfiles = self.files@;
        let entry = FileEntry { path, data };
        self.files.push(entry);
        proof {
            assert(self.files@.drop_last() =~= oldfiles);
            assert(forall|a: int, b: int|
                0 <= a < b < self.files@.len() ==> self.files@[a].path@ != self.files@[b].path@)
                by {
                assert(forall|a: int|
                    0 <= a < oldfiles.len() ==> self.files@[a].path@ == oldfiles[a].path@);
            };
        }
    }
}

/// Replacing the entry at `i` by one with the same path updates the map at
/// that path and leaves the rest alone.
proof fn lemma_map_update(files: Seq<FileEntry>, i: int, e: FileEntry)
    requires
        forall|a: int, b: int| 0 <= a < b < files.len() ==> files[a].path@ != files[b].path@,
        0 <= i < files.len(),
        e.path@ == files[i].path@,
    ensures
        map_of_files(files.update(i, e)) == map_of_files(files).insert(e.path@, e.data@),
        forall|a: int, b: int|
            0 <= a < b < files.update(i, e).len() ==> files.update(i, e)[a].path@ != files.update(
                i,
                e,
            )[b].path@,
    decreases files.len(),
{
    let updated = files.update(i, e);
    if i == files.len() - 1 {
        assert(updated.drop_last() =~= files.drop_last());
        assert(map_of_files(updated) =~= map_of_files(files).insert(e.path@, e.data@));
    } else {
        assert(updated.drop_last() =~= files.drop_last().update(i, e));
        lemma_map_update(files.drop_last(), i, e);
        assert(files.last().path@ != e.path@);
        assert(map_of_files(updated) =~= map_of_files(files).insert(e.path@, e.data@));
    }
}

} // verus!
