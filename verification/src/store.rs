use vstd::prelude::*;

verus! {

/// First match of `path` among `entries`, scanning from the front.
pub open spec fn spec_assoc<T>(entries: Seq<(String, T)>, path: Seq<char>) -> Option<T>
    decreases entries.len(),
{
    if entries.len() == 0 {
        None
    } else if entries[0].0@ == path {
        Some(entries[0].1)
    } else {
        spec_assoc(entries.drop_first(), path)
    }
}

/// The bytes of every file the caller has tried to read, keyed by resolved
/// path.  A path that is absent was not found; a path mapped to `None` exists
/// but could not be read.  The caller populates it; the library only looks
/// paths up, so a build is a pure function of this table.
pub struct FileStore {
    pub entries: Vec<(String, Option<String>)>,
}

impl FileStore {
    /// An empty table.
    pub fn new() -> (r: FileStore)
        ensures
            r.entries@.len() == 0,
    {
        FileStore { entries: Vec::new() }
    }

    /// Record the outcome of reading `path`.
    pub fn insert(&mut self, path: String, content: Option<String>)
        ensures
            final(self).entries@ == old(self).entries@.push((path, content)),
    {
        self.entries.push((path, content));
    }

    /// Look a path up; the first entry for the path wins.
    pub fn get(&self, path: &String) -> (r: Option<&Option<String>>)
        ensures
            match r {
                Some(c) => spec_assoc(self.entries@, path@) == Some(*c),
                None => spec_assoc(self.entries@, path@) is None,
            },
    {
        let n = self.entries.len();
        let mut i: usize = 0;
        assert(self.entries@.skip(0) =~= self.entries@);
        while i < n
            invariant
                n == self.entries@.len(),
                i <= n,
                spec_assoc(self.entries@, path@) == spec_assoc(self.entries@.skip(i as int), path@),
            decreases n - i,
        {
            assert(self.entries@.skip(i as int).drop_first() =~= self.entries@.skip(i + 1));
            if self.entries[i].0 == *path {
                assert(self.entries@.skip(i as int)[0] == self.entries@[i as int]);
                return Some(&self.entries[i].1);
            }
            i = i + 1;
        }
        None
    }
}

/// An ordered table from one string to another, used for the asset name map
/// and for the precomputed path tables of the link resolver.  The first
/// entry for a key wins on lookup.
pub struct NameTable {
    pub entries: Vec<(String, String)>,
}

impl NameTable {
    /// An empty table.
    pub fn new() -> (r: NameTable)
        ensures
            r.entries@.len() == 0,
    {
        NameTable { entries: Vec::new() }
    }

    /// Append a pair; an earlier entry for the same key keeps winning.
    pub fn insert(&mut self, key: String, value: String)
        ensures
            final(self).entries@ == old(self).entries@.push((key, value)),
    {
        self.entries.push((key, value));
    }

    /// Look a key up.
    pub fn get(&self, key: &String) -> (r: Option<&String>)
        ensures
            match r {
                Some(v) => spec_assoc(self.entries@, key@) == Some(*v),
                None => spec_assoc(self.entries@, key@) is None,
            },
    {
        let n = self.entries.len();
        let mut i: usize = 0;
        assert(self.entries@.skip(0) =~= self.entries@);
        while i < n
            invariant
                n == self.entries@.len(),
                i <= n,
                spec_assoc(self.entries@, key@) == spec_assoc(self.entries@.skip(i as int), key@),
            decreases n - i,
        {
            assert(self.entries@.skip(i as int).drop_first() =~= self.entries@.skip(i + 1));
            if self.entries[i].0 == *key {
                assert(self.entries@.skip(i as int)[0] == self.entries@[i as int]);
                return Some(&self.entries[i].1);
            }
            i = i + 1;
        }
        None
    }
}

/// The raw bytes of every asset source file the caller has read, keyed by
/// input location, for the asset pipeline's hashing and writing phases.
pub struct BytesStore {
    pub entries: Vec<(String, Vec<u8>)>,
}

impl BytesStore {
    /// An empty table.
    pub fn new() -> (r: BytesStore)
        ensures
            r.entries@.len() == 0,
    {
        BytesStore { entries: Vec::new() }
    }

    /// Record the bytes read from `path`.
    pub fn insert(&mut self, path: String, content: Vec<u8>)
        ensures
            final(self).entries@ == old(self).entries@.push((path, content)),
    {
        self.entries.push((path, content));
    }

    /// Look a path up.
    pub fn get(&self, path: &String) -> (r: Option<&Vec<u8>>)
        ensures
            match r {
                Some(c) => spec_assoc(self.entries@, path@) == Some(*c),
                None => spec_assoc(self.entries@, path@) is None,
            },
    {
        let n = self.entries.len();
        let mut i: usize = 0;
        assert(self.entries@.skip(0) =~= self.entries@);
        while i < n
            invariant
                n == self.entries@.len(),
                i <= n,
                spec_assoc(self.entries@, path@) == spec_assoc(self.entries@.skip(i as int), path@),
            decreases n - i,
        {
            assert(self.entries@.skip(i as int).drop_first() =~= self.entries@.skip(i + 1));
            if self.entries[i].0 == *path {
                assert(self.entries@.skip(i as int)[0] == self.entries@[i as int]);
                return Some(&self.entries[i].1);
            }
            i = i + 1;
        }
        None
    }
}

} // verus!
