use vstd::prelude::*;

use crate::manifest::Manifest;

verus! {

/// What was found on disk for one manifest entry.
#[derive(Debug, Clone, PartialEq, Eq)]
pub enum Observation {
    /// No file exists at the entry's path.
    Absent,
    /// The file exists and its content has this digest text.
    Found(String),
    /// The file exists but could not be read to the end.
    Unreadable,
}

/// The mathematical form of an `Observation`.
pub enum Seen {
    Absent,
    Found(Seq<char>),
    Unreadable,
}

impl View for Observation {
    type V = Seen;

    open spec fn view(&self) -> Seen {
        match self {
            Observation::Absent => Seen::Absent,
            Observation::Found(d) => Seen::Found(d@),
            Observation::Unreadable => Seen::Unreadable,
        }
    }
}

/// A manifest entry that the directory does not match.
#[derive(Debug, Clone, PartialEq, Eq)]
pub enum Mismatch {
    /// The file named by the entry is absent.
    Missing { path: String },
    /// The file is present and its digest differs from the expected one.
    HashMismatch { path: String, expected: String, found: String },
}

/// The mathematical form of a `Mismatch`.
pub enum MismatchView {
    Missing { path: Seq<char> },
    HashMismatch { path: Seq<char>, expected: Seq<char>, found: Seq<char> },
}

impl View for Mismatch {
    type V = MismatchView;

    open spec fn view(&self) -> MismatchView {
        match self {
            Mismatch::Missing { path } => MismatchView::Missing { path: path@ },
            Mismatch::HashMismatch { path, expected, found } => MismatchView::HashMismatch {
                path: path@,
                expected: expected@,
                found: found@,
            },
        }
    }
}

/// The outcome of comparing a manifest with a directory: the mismatches in
/// the order they were found, and the path of the file whose reading failed,
/// if one did (the comparison stops there).
#[derive(Debug, Clone, PartialEq, Eq)]
pub struct Report {
    pub mismatches: Vec<Mismatch>,
    pub unreadable: Option<String>,
}

/// The mathematical form of a `Report`.
pub struct ReportView {
    pub mismatches: Seq<MismatchView>,
    pub unreadable: Option<Seq<char>>,
}

impl View for Report {
    type V = ReportView;

    open spec fn view(&self) -> ReportView {
        ReportView {
            mismatches: self.mismatches@.map_values(|m: Mismatch| m@),
            unreadable: match self.unreadable {
                Some(p) => Some(p@),
                None => None,
            },
        }
    }
}

/// The observations seen through their views.
pub open spec fn seen_of(obs: Seq<Observation>) -> Seq<Seen> {
    obs.map_values(|o: Observation| o@)
}

/// The mismatch, if any, that one entry and what was seen for it give.
pub open spec fn check_entry(entry: (Seq<char>, Seq<char>), seen: Seen) -> Option<MismatchView> {
    match seen {
        Seen::Absent => Some(MismatchView::Missing { path: entry.0 }),
        Seen::Found(d) => if d == entry.1 {
            None
        } else {
            Some(MismatchView::HashMismatch { path: entry.0, expected: entry.1, found: d })
        },
        Seen::Unreadable => None,
    }
}

/// The index of the first unreadable observation at or after `i`, or the
/// length when there is none.
pub open spec fn stop_from(seen: Seq<Seen>, i: int) -> int
    decreases seen.len() - i,
{
    if i >= seen.len() {
        seen.len() as int
    } else if seen[i] is Unreadable {
        i
    } else {
        stop_from(seen, i + 1)
    }
}

/// The mismatches among the first `n` entries, in order.
pub open spec fn mismatches_upto(
    entries: Seq<(Seq<char>, Seq<char>)>,
    seen: Seq<Seen>,
    n: int,
) -> Seq<MismatchView>
    decreases n,
{
    if n <= 0 {
        Seq::empty()
    } else {
        let prev = mismatches_upto(entries, seen, n - 1);
        match check_entry(entries[n - 1], seen[n - 1]) {
            Some(m) => prev.push(m),
            None => prev,
        }
    }
}

/// The report that comparing `entries` with what was seen for each gives:
/// entries are taken in order up to the first unreadable file.
pub open spec fn report_of(entries: Seq<(Seq<char>, Seq<char>)>, seen: Seq<Seen>) -> ReportView {
    let k = stop_from(seen, 0);
    ReportView {
        mismatches: mismatches_upto(entries, seen, k),
        unreadable: if k < seen.len() {
            Some(entries[k].0)
        } else {
            None
        },
    }
}

/// A report passes when no file was unreadable and nothing mismatched.
pub open spec fn passed(r: ReportView) -> bool {
    r.unreadable is None && r.mismatches.len() == 0
}

impl Report {
    /// Whether every entry matched.
    pub fn all_matched(&self) -> (r: bool)
        ensures
            r == passed(self@),
    {
        self.unreadable.is_none() && self.mismatches.len() == 0
    }
}

fn copy_string(s: &String) -> (r: String)
    ensures
        r@ == s@,
{
    s.clone()
}

/// Compares each manifest entry with what was observed at its path, entry
/// `i` with `observations[i]`. A missing file or a differing digest is
/// recorded and the comparison goes on; an unreadable file ends it.
pub fn verify_directory(manifest: &Manifest, observations: &Vec<Observation>) -> (r: Report)
    requires
        observations@.len() == manifest@.len(),
    ensures
        r@ == report_of(manifest@, seen_of(observations@)),
{
    let ghost entries = manifest@;
    let ghost seen = seen_of(observations@);
    let mut mismatches: Vec<Mismatch> = Vec::new();
    let mut i: usize = 0;
    while i < observations.len()
        invariant
            entries == manifest@,
            seen == seen_of(observations@),
            seen.len() == entries.len(),
            i <= seen.len(),
            stop_from(seen, 0) == stop_from(seen, i as int),
            mismatches@.map_values(|m: Mismatch| m@) == mismatches_upto(entries, seen, i as int),
        decreases seen.len() - i,
    {
        let ghost before = mismatches@.map_values(|m: Mismatch| m@);
        assert(seen[i as int] == observations@[i as int]@);
        assert(mismatches_upto(entries, seen, i + 1) == match check_entry(entries[i as int], seen[i as int]) {
            Some(m) => before.push(m),
            None => before,
        });
        match &observations[i] {
            Observation::Unreadable => {
                let r = Report { mismatches, unreadable: Some(copy_string(manifest.path(i))) };
                return r;
            },
            Observation::Absent => {
                mismatches.push(Mismatch::Missing { path: copy_string(manifest.path(i)) });
                assert(mismatches@.map_values(|m: Mismatch| m@) =~= before.push(
                    MismatchView::Missing { path: entries[i as int].0 },
                ));
            },
            Observation::Found(d) => {
                let expected = manifest.digest(i);
                let same = d.eq(expected);
                assert(same == (d@ == entries[i as int].1));
                if !same {
                    mismatches.push(
                        Mismatch::HashMismatch {
                            path: copy_string(manifest.path(i)),
                            expected: copy_string(expected),
                            found: copy_string(d),
                        },
                    );
                    assert(mismatches@.map_values(|m: Mismatch| m@) =~= before.push(
                        MismatchView::HashMismatch {
                            path: entries[i as int].0,
                            expected: entries[i as int].1,
                            found: d@,
                        },
                    ));
                } else {
                    assert(mismatches@.map_values(|m: Mismatch| m@) =~= before);
                }
            },
        }
        i = i + 1;
    }
    let r = Report { mismatches, unreadable: None };
    assert(stop_from(seen, i as int) == seen.len());
    r
}

/// Checks a directory against a manifest: `Ok` when every entry matched,
/// `Err(true)` when a file was missing, differed or could not be read.
pub fn verify_operation(manifest: &Manifest, observations: &Vec<Observation>) -> (r: Result<(), bool>)
    requires
        observations@.len() == manifest@.len(),
    ensures
        r == (if passed(report_of(manifest@, seen_of(observations@))) {
            Ok::<(), bool>(())
        } else {
            Err::<(), bool>(true)
        }),
{
    let report = verify_directory(manifest, observations);
    if report.all_matched() {
        Ok(())
    } else {
        Err(true)
    }
}

} // verus!
