use vstd::prelude::*;

verus! {

/// What the file system reports of a path, symlinks followed: whether it is
/// a regular file, and its permission bits.
#[derive(Clone, Copy, Debug, PartialEq, Eq, Structural)]
pub struct FileMeta {
    pub is_file: bool,
    pub mode: u32,
}

/// What was observed of one path: its metadata and its canonical form,
/// each absent where the file system could not give it.
#[derive(Debug)]
pub struct PathFacts {
    pub path: String,
    pub meta: Option<FileMeta>,
    pub canonical: Option<String>,
}

/// The mathematical value of a `PathFacts`.
pub ghost struct FactsView {
    pub path: Seq<char>,
    pub meta: Option<FileMeta>,
    pub canonical: Option<Seq<char>>,
}

/// The string value of an optional owned string.
pub open spec fn opt_view(s: Option<String>) -> Option<Seq<char>> {
    match s {
        Some(x) => Some(x@),
        None => None,
    }
}

impl View for PathFacts {
    type V = FactsView;

    open spec fn view(&self) -> FactsView {
        FactsView { path: self.path@, meta: self.meta, canonical: opt_view(self.canonical) }
    }
}

/// A record of the file system as seen at one moment: the facts of each
/// path that was looked at. Where a path was recorded more than once, the
/// first record counts; a path never recorded has neither metadata nor a
/// canonical form.
#[derive(Debug)]
pub struct FsSnapshot {
    pub entries: Vec<PathFacts>,
}

impl View for FsSnapshot {
    type V = Seq<FactsView>;

    open spec fn view(&self) -> Seq<FactsView> {
        self.entries@.map_values(|e: PathFacts| e@)
    }
}

/// The first record of `p`, if any.
pub open spec fn find(fs: Seq<FactsView>, p: Seq<char>) -> Option<FactsView>
    decreases fs.len(),
{
    if fs.len() == 0 {
        None
    } else if fs[0].path == p {
        Some(fs[0])
    } else {
        find(fs.drop_first(), p)
    }
}

/// The metadata recorded for `p`.
pub open spec fn meta_of(fs: Seq<FactsView>, p: Seq<char>) -> Option<FileMeta> {
    match find(fs, p) {
        Some(f) => f.meta,
        None => None,
    }
}

/// The canonical form recorded for `p`.
pub open spec fn canonical_of(fs: Seq<FactsView>, p: Seq<char>) -> Option<Seq<char>> {
    match find(fs, p) {
        Some(f) => f.canonical,
        None => None,
    }
}

impl FsSnapshot {
    /// A snapshot in which nothing was recorded.
    pub fn new() -> (r: FsSnapshot)
        ensures
            r@ == Seq::<FactsView>::empty(),
    {
        let r = FsSnapshot { entries: Vec::new() };
        assert(r@ =~= Seq::<FactsView>::empty());
        r
    }

    /// Adds what was observed of `path`.
    pub fn record(&mut self, path: String, meta: Option<FileMeta>, canonical: Option<String>)
        ensures
            final(self)@ == old(self)@.push(
                FactsView { path: path@, meta: meta, canonical: opt_view(canonical) },
            ),
    {
        let e = PathFacts { path, meta, canonical };
        self.entries.push(e);
        assert(self@ =~= old(self)@.push(e@));
    }

    /// The index of the first record of `p`.
    fn find_index(&self, p: &str) -> (r: Option<usize>)
        ensures
            match r {
                Some(i) => i < self@.len() && find(self@, p@) == Some(self@[i as int]),
                None => find(self@, p@) is None,
            },
    {
        let q = String::from_str(p);
        let mut i: usize = 0;
        assert(self@.skip(0) =~= self@);
        while i < self.entries.len()
            invariant
                q@ == p@,
                i <= self@.len(),
                self@.len() == self.entries@.len(),
                find(self@, p@) == find(self@.skip(i as int), p@),
            decreases self.entries.len() - i,
        {
            assert(self@.skip(i as int).drop_first() =~= self@.skip(i + 1));
            assert(self@.skip(i as int)[0] == self.entries@[i as int]@);
            if self.entries[i].path == q {
                return Some(i);
            }
            i = i + 1;
        }
        None
    }

    /// The metadata recorded for `p`.
    pub fn meta_of(&self, p: &str) -> (r: Option<FileMeta>)
        ensures
            r == meta_of(self@, p@),
    {
        match self.find_index(p) {
            Some(i) => self.entries[i].meta,
            None => None,
        }
    }

    /// The canonical form recorded for `p`.
    pub fn canonical_of(&self, p: &str) -> (r: Option<String>)
        ensures
            opt_view(r) == canonical_of(self@, p@),
    {
        match self.find_index(p) {
            Some(i) => self.entries[i].canonical.clone(),
            None => None,
        }
    }
}

} // verus!
