//! An in-memory set of named files. Callers that read a template directory
//! from disk hand its contents over as a `FileSet`; every lookup the library
//! performs is then a pure function of this value.

use vstd::prelude::*;

verus! {

/// One named file: a path and its raw contents.
pub struct FileEntry {
    /// The file's path, as the caller names it.
    pub path: Vec<u8>,
    /// The file's raw bytes.
    pub data: Vec<u8>,
}

/// A set of named files, looked up by exact path. When two entries share a
/// path the first one added wins.
pub struct FileSet {
    /// The files, in the order they were added.
    pub entries: Vec<FileEntry>,
}

/// Contents of the first entry of `s` whose path is `path`, if any.
pub open spec fn spec_lookup(s: Seq<FileEntry>, path: Seq<u8>) -> Option<Seq<u8>>
    decreases s.len(),
{
    if s.len() == 0 {
        None
    } else if s[0].path@ == path {
        Some(s[0].data@)
    } else {
        spec_lookup(s.skip(1), path)
    }
}

/// Skipping past a non-matching entry does not change the lookup result.
proof fn lemma_lookup_skip(s: Seq<FileEntry>, path: Seq<u8>, i: int)
    requires
        0 <= i < s.len(),
        s[i].path@ != path,
    ensures
        spec_lookup(s.skip(i), path) == spec_lookup(s.skip(i + 1), path),
{
    assert(s.skip(i)[0] == s[i]);
    assert(s.skip(i).skip(1) =~= s.skip(i + 1));
}

impl FileSet {
    /// An empty file set.
    pub fn new() -> (r: FileSet)
        ensures
            r.entries@.len() == 0,
    {
        FileSet { entries: Vec::new() }
    }

    /// Adds a file at the end of the set.
    pub fn add(&mut self, path: Vec<u8>, data: Vec<u8>)
        ensures
            final(self).entries@ == old(self).entries@.push(
                (FileEntry { path, data }),
            ),
    {
        self.entries.push(FileEntry { path, data });
    }

    /// Looks up the contents of the first file named `path`.
    pub fn lookup(&self, path: &[u8]) -> (r: Option<&Vec<u8>>)
        ensures
            match r {
                Some(d) => spec_lookup(self.entries@, path@) == Some(d@),
                None => spec_lookup(self.entries@, path@) is None,
            },
    {
        let mut i: usize = 0;
        assert(self.entries@.skip(0) =~= self.entries@);
        while i < self.entries.len()
            invariant
                0 <= i <= self.entries@.len(),
                spec_lookup(self.entries@, path@) == spec_lookup(
                    self.entries@.skip(i as int),
                    path@,
                ),
            decreases self.entries@.len() - i,
        {
            if crate::bytes_eq(self.entries[i].path.as_slice(), path) {
                assert(self.entries@.skip(i as int)[0] == self.entries@[i as int]);
                return Some(&self.entries[i].data);
            }
            proof {
                lemma_lookup_skip(self.entries@, path@, i as int);
            }
            i = i + 1;
        }
        assert(self.entries@.skip(i as int) =~= Seq::<FileEntry>::empty());
        None
    }
}

} // verus!
