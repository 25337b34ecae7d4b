use vstd::prelude::*;

verus! {

/// One recorded file: its relative path and the expected digest text.
#[derive(Debug, Clone, PartialEq, Eq)]
pub struct ManifestEntry {
    pub path: String,
    pub digest: String,
}

impl View for ManifestEntry {
    type V = (Seq<char>, Seq<char>);

    open spec fn view(&self) -> (Seq<char>, Seq<char>) {
        (self.path@, self.digest@)
    }
}

/// No two entries share a path.
pub open spec fn keys_unique(m: Seq<(Seq<char>, Seq<char>)>) -> bool {
    forall|i: int, j: int|
        0 <= i < m.len() && 0 <= j < m.len() && #[trigger] m[i].0 == #[trigger] m[j].0 ==> i == j
}

/// Whether some entry records `path`.
pub open spec fn has_path(m: Seq<(Seq<char>, Seq<char>)>, path: Seq<char>) -> bool {
    exists|i: int| 0 <= i < m.len() && #[trigger] m[i].0 == path
}

/// Records `digest` for `path`: replaces the entry for `path` if there is one,
/// else appends a new entry.
pub open spec fn insert_entry(
    m: Seq<(Seq<char>, Seq<char>)>,
    path: Seq<char>,
    digest: Seq<char>,
) -> Seq<(Seq<char>, Seq<char>)> {
    if has_path(m, path) {
        let i = choose|i: int| 0 <= i < m.len() && #[trigger] m[i].0 == path;
        m.update(i, (path, digest))
    } else {
        m.push((path, digest))
    }
}

/// A mapping from relative path to expected digest text, kept as a sequence
/// of entries with unique paths.
#[derive(Debug, Clone, PartialEq, Eq)]
pub struct Manifest {
    entries: Vec<ManifestEntry>,
}

impl View for Manifest {
    type V = Seq<(Seq<char>, Seq<char>)>;

    closed spec fn view(&self) -> Seq<(Seq<char>, Seq<char>)> {
        self.entries@.map_values(|e: ManifestEntry| e@)
    }
}

impl Manifest {
    /// Well-formedness: paths are unique.
    pub open spec fn wf(&self) -> bool {
        keys_unique(self@)
    }

    /// The empty manifest.
    pub fn new() -> (r: Manifest)
        ensures
            r@ == Seq::<(Seq<char>, Seq<char>)>::empty(),
            r.wf(),
    {
        let r = Manifest { entries: Vec::new() };
        assert(r@ =~= Seq::<(Seq<char>, Seq<char>)>::empty());
        r
    }

    /// The number of entries.
    pub fn len(&self) -> (r: usize)
        ensures
            r == self@.len(),
    {
        self.entries.len()
    }

    /// The path of entry `i`.
    pub fn path(&self, i: usize) -> (r: &String)
        requires
            i < self@.len(),
        ensures
            r@ == self@[i as int].0,
    {
        &self.entries[i].path
    }

    /// The expected digest of entry `i`.
    pub fn digest(&self, i: usize) -> (r: &String)
        requires
            i < self@.len(),
        ensures
            r@ == self@[i as int].1,
    {
        &self.entries[i].digest
    }

    /// Records `digest` for `path`; a later record for a path replaces an
    /// earlier one.
    pub fn insert(&mut self, path: String, digest: String)
        requires
            old(self).wf(),
        ensures
            final(self)@ == insert_entry(old(self)@, path@, digest@),
            final(self).wf(),
    {
        let ghost m = self@;
        let mut i: usize = 0;
        while i < self.entries.len()
            invariant
                self@ == m,
                m == old(self)@,
                keys_unique(m),
                i <= m.len(),
                forall|j: int| 0 <= j < i ==> #[trigger] m[j].0 != path@,
            decreases m.len() - i,
        {
            if self.entries[i].path == path {
                assert(m[i as int].0 == path@);
                assert(has_path(m, path@));
                let ghost p = path@;
                let ghost d = digest@;
                let ghost k = choose|k: int| 0 <= k < m.len() && #[trigger] m[k].0 == path@;
                assert(k == i);
                self.entries.set(i, ManifestEntry { path, digest });
                assert(self@ =~= m.update(i as int, (p, d)));
                assert(self@ == insert_entry(m, p, d));

                return;
            }
            i = i + 1;
        }
        let ghost p = path@;
        let ghost d = digest@;
        self.entries.push(ManifestEntry { path, digest });
        assert(self@ =~= m.push((p, d)));
        assert(!has_path(m, p));
    }

    /// A manifest built by recording the given entries in order.
    pub fn from_entries(entries: &Vec<ManifestEntry>) -> (r: Manifest)
        ensures
            r@ == recorded(entries@.map_values(|e: ManifestEntry| e@)),
            r.wf(),
    {
        let ghost es = entries@.map_values(|e: ManifestEntry| e@);
        let mut r = Manifest::new();
        let mut i: usize = 0;
        while i < entries.len()
            invariant
                r.wf(),
                i <= es.len(),
                es == entries@.map_values(|e: ManifestEntry| e@),
                r@ == recorded(es.subrange(0, i as int)),
            decreases es.len() - i,
        {
            let path = entries[i].path.clone();
            let digest = entries[i].digest.clone();
            assert(es.subrange(0, i + 1).drop_last() =~= es.subrange(0, i as int));
            r.insert(path, digest);
            i = i + 1;
        }
        assert(es.subrange(0, es.len() as int) =~= es);
        r
    }
}

/// The manifest obtained by recording the entries of `es` in order, a later
/// entry for a path replacing an earlier one.
pub open spec fn recorded(es: Seq<(Seq<char>, Seq<char>)>) -> Seq<(Seq<char>, Seq<char>)>
    decreases es.len(),
{
    if es.len() == 0 {
        Seq::empty()
    } else {
        insert_entry(recorded(es.drop_last()), es.last().0, es.last().1)
    }
}

} // verus!
