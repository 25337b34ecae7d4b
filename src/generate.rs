use vstd::prelude::*;

use crate::manifest::{recorded, Manifest};
use crate::paths::{normalize_path, normalized};

verus! {

/// A file found under the root: its path relative to the root as the walk
/// gave it, with the host's separators, and the digest text of its content.
#[derive(Debug, Clone, PartialEq, Eq)]
pub struct FoundFile {
    pub path: String,
    pub digest: String,
}

impl View for FoundFile {
    type V = (Seq<char>, Seq<char>);

    open spec fn view(&self) -> (Seq<char>, Seq<char>) {
        (self.path@, self.digest@)
    }
}

/// The found files seen through their views.
pub open spec fn found_of(found: Seq<FoundFile>) -> Seq<(Seq<char>, Seq<char>)> {
    found.map_values(|f: FoundFile| f@)
}

/// Each found file as a manifest entry, its path normalised.
pub open spec fn normalized_entries(found: Seq<(Seq<char>, Seq<char>)>) -> Seq<(Seq<char>, Seq<char>)> {
    found.map_values(|f: (Seq<char>, Seq<char>)| (normalized(f.0), f.1))
}

/// The manifest generated from the found files: each recorded under its
/// normalised path, in order, a later file for a path replacing an earlier.
pub open spec fn generated(found: Seq<(Seq<char>, Seq<char>)>) -> Seq<(Seq<char>, Seq<char>)> {
    recorded(normalized_entries(found))
}

/// Builds the manifest of the files found under a root.
pub fn generate_operation(found: &Vec<FoundFile>) -> (r: Manifest)
    ensures
        r@ == generated(found_of(found@)),
        r.wf(),
{
    let ghost es = normalized_entries(found_of(found@));
    let mut r = Manifest::new();
    let mut i: usize = 0;
    while i < found.len()
        invariant
            r.wf(),
            i <= found@.len(),
            es == normalized_entries(found_of(found@)),
            r@ == recorded(es.subrange(0, i as int)),
        decreases found@.len() - i,
    {
        let path = normalize_path(found[i].path.as_str());
        let digest = found[i].digest.clone();
        assert(es.subrange(0, i + 1).drop_last() =~= es.subrange(0, i as int));
        r.insert(path, digest);
        i = i + 1;
    }
    assert(es.subrange(0, es.len() as int) =~= es);
    r
}

} // verus!
