use vstd::prelude::*;

use crate::compare::{
    check_entry, mismatches_upto, passed, report_of, stop_from, MismatchView, Seen,
};
use crate::digest::{digest_text, hex_digit, hex_of, lemma_hex_len};
use crate::generate::{generated, normalized_entries};
use crate::manifest::{insert_entry, recorded};
use crate::paths::normalized;

verus! {

/// What a directory shows at `path`, where `dir` maps the normalised relative
/// path of each readable file to its content.
pub open spec fn observe(dir: Map<Seq<char>, Seq<u8>>, path: Seq<char>) -> Seen {
    if dir.contains_key(path) {
        Seen::Found(digest_text(dir[path]))
    } else {
        Seen::Absent
    }
}

/// What a directory shows for each entry of a manifest.
pub open spec fn observe_all(
    entries: Seq<(Seq<char>, Seq<char>)>,
    dir: Map<Seq<char>, Seq<u8>>,
) -> Seq<Seen> {
    Seq::new(entries.len(), |i: int| observe(dir, entries[i].0))
}

/// The found files are those of `dir`: the normalised path of each names a
/// file of `dir`, and its digest text is that of the file's content.
pub open spec fn found_in(found: Seq<(Seq<char>, Seq<char>)>, dir: Map<Seq<char>, Seq<u8>>) -> bool {
    forall|j: int|
        0 <= j < found.len() ==> dir.contains_key(normalized(#[trigger] found[j].0)) && found[j].1
            == digest_text(dir[normalized(found[j].0)])
}

proof fn lemma_insert_keeps(
    m: Seq<(Seq<char>, Seq<char>)>,
    path: Seq<char>,
    digest: Seq<char>,
    p: spec_fn((Seq<char>, Seq<char>)) -> bool,
)
    requires
        forall|i: int| 0 <= i < m.len() ==> p(#[trigger] m[i]),
        p((path, digest)),
    ensures
        forall|i: int|
            0 <= i < insert_entry(m, path, digest).len() ==> p(
                #[trigger] insert_entry(m, path, digest)[i],
            ),
{
}

proof fn lemma_recorded_keeps(
    es: Seq<(Seq<char>, Seq<char>)>,
    p: spec_fn((Seq<char>, Seq<char>)) -> bool,
)
    requires
        forall|j: int| 0 <= j < es.len() ==> p(#[trigger] es[j]),
    ensures
        forall|i: int| 0 <= i < recorded(es).len() ==> p(#[trigger] recorded(es)[i]),
    decreases es.len(),
{
    if es.len() > 0 {
        let init = es.drop_last();
        assert forall|j: int| 0 <= j < init.len() implies p(#[trigger] init[j]) by {
            assert(init[j] == es[j]);
        }
        lemma_recorded_keeps(init, p);
        assert(p(es[es.len() - 1]));
        lemma_insert_keeps(recorded(init), es.last().0, es.last().1, p);
    }
}

proof fn lemma_stop_at_end(seen: Seq<Seen>, s: int)
    requires
        0 <= s,
        forall|j: int| 0 <= j < seen.len() ==> !(#[trigger] seen[j] is Unreadable),
    ensures
        stop_from(seen, s) == seen.len(),
    decreases seen.len() - s,
{
    if s < seen.len() {
        lemma_stop_at_end(seen, s + 1);
    }
}

proof fn lemma_stop_bounds(seen: Seq<Seen>, s: int)
    requires
        0 <= s <= seen.len(),
    ensures
        s <= stop_from(seen, s) <= seen.len(),
    decreases seen.len() - s,
{
    if s < seen.len() {
        lemma_stop_bounds(seen, s + 1);
    }
}

proof fn lemma_stop_after(seen: Seq<Seen>, s: int, i: int)
    requires
        0 <= s <= i < seen.len(),
        forall|j: int| s <= j < i ==> !(#[trigger] seen[j] is Unreadable),
        !(seen[i] is Unreadable),
    ensures
        stop_from(seen, s) > i,
    decreases i - s,
{
    if s < i {
        lemma_stop_after(seen, s + 1, i);
    } else {
        lemma_stop_bounds(seen, i + 1);
    }
}

proof fn lemma_no_mismatches(entries: Seq<(Seq<char>, Seq<char>)>, seen: Seq<Seen>, n: int)
    requires
        n <= entries.len(),
        n <= seen.len(),
        forall|j: int| 0 <= j < n ==> #[trigger] check_entry(entries[j], seen[j]) is None,
    ensures
        mismatches_upto(entries, seen, n).len() == 0,
    decreases n,
{
    if n > 0 {
        lemma_no_mismatches(entries, seen, n - 1);
        assert(check_entry(entries[n - 1], seen[n - 1]) is None);
    }
}

proof fn lemma_mismatch_listed(entries: Seq<(Seq<char>, Seq<char>)>, seen: Seq<Seen>, i: int, n: int)
    requires
        0 <= i < n,
        n <= entries.len(),
        n <= seen.len(),
        check_entry(entries[i], seen[i]) is Some,
    ensures
        mismatches_upto(entries, seen, n).contains(check_entry(entries[i], seen[i])->0),
    decreases n,
{
    let prev = mismatches_upto(entries, seen, n - 1);
    if i == n - 1 {
        let m = check_entry(entries[i], seen[i])->0;
        assert(mismatches_upto(entries, seen, n) == prev.push(m));
        assert(prev.push(m)[prev.len() as int] == m);
    } else {
        lemma_mismatch_listed(entries, seen, i, n - 1);
        let m = check_entry(entries[i], seen[i])->0;
        let k = choose|k: int| 0 <= k < prev.len() && prev[k] == m;
        match check_entry(entries[n - 1], seen[n - 1]) {
            Some(x) => {
                assert(prev.push(x)[k] == m);
            },
            None => {},
        }
    }
}

/// Generating a manifest from the files of a directory and then checking that
/// directory against it succeeds: every entry is present with the digest
/// that was recorded, whatever separators the walk used.
pub proof fn lemma_generate_then_verify(
    found: Seq<(Seq<char>, Seq<char>)>,
    dir: Map<Seq<char>, Seq<u8>>,
)
    requires
        found_in(found, dir),
    ensures
        passed(report_of(generated(found), observe_all(generated(found), dir))),
{
    let es = normalized_entries(found);
    let p = |e: (Seq<char>, Seq<char>)| dir.contains_key(e.0) && e.1 == digest_text(dir[e.0]);
    assert forall|j: int| 0 <= j < es.len() implies p(#[trigger] es[j]) by {
        assert(dir.contains_key(normalized(found[j].0)));
    }
    lemma_recorded_keeps(es, p);
    let m = generated(found);
    let seen = observe_all(m, dir);
    assert forall|j: int| 0 <= j < m.len() implies #[trigger] check_entry(m[j], seen[j]) is None by {
        assert(p(m[j]));
    }
    lemma_stop_at_end(seen, 0);
    lemma_no_mismatches(m, seen, m.len() as int);
}

/// Every path of a generated manifest uses `/` as its only separator.
pub proof fn lemma_generated_paths_use_slash(found: Seq<(Seq<char>, Seq<char>)>)
    ensures
        forall|i: int|
            0 <= i < generated(found).len() ==> !(#[trigger] generated(found)[i]).0.contains('\\'),
{
    let es = normalized_entries(found);
    let p = |e: (Seq<char>, Seq<char>)| !e.0.contains('\\');
    assert forall|j: int| 0 <= j < es.len() implies p(#[trigger] es[j]) by {
        let s = normalized(found[j].0);
        if s.contains('\\') {
            let k = choose|k: int| 0 <= k < s.len() && s[k] == '\\';
            assert(s[k] == (if found[j].0[k] == '\\' { '/' } else { found[j].0[k] }));
        }
    }
    lemma_recorded_keeps(es, p);
}

/// An entry whose file is absent is reported as missing and the check fails,
/// unless an earlier entry's file could not be read.
pub proof fn lemma_missing_reported(
    entries: Seq<(Seq<char>, Seq<char>)>,
    seen: Seq<Seen>,
    i: int,
)
    requires
        seen.len() == entries.len(),
        0 <= i < entries.len(),
        seen[i] is Absent,
        forall|j: int| 0 <= j < i ==> !(#[trigger] seen[j] is Unreadable),
    ensures
        report_of(entries, seen).mismatches.contains(MismatchView::Missing { path: entries[i].0 }),
        !passed(report_of(entries, seen)),
{
    lemma_stop_after(seen, 0, i);
    lemma_stop_bounds(seen, 0);
    lemma_mismatch_listed(entries, seen, i, stop_from(seen, 0));
}

/// An entry whose file is present with another digest is reported with both
/// digests and the check fails, unless an earlier entry's file could not be
/// read.
pub proof fn lemma_hash_mismatch_reported(
    entries: Seq<(Seq<char>, Seq<char>)>,
    seen: Seq<Seen>,
    i: int,
    found: Seq<char>,
)
    requires
        seen.len() == entries.len(),
        0 <= i < entries.len(),
        seen[i] == Seen::Found(found),
        found != entries[i].1,
        forall|j: int| 0 <= j < i ==> !(#[trigger] seen[j] is Unreadable),
    ensures
        report_of(entries, seen).mismatches.contains(
            MismatchView::HashMismatch { path: entries[i].0, expected: entries[i].1, found },
        ),
        !passed(report_of(entries, seen)),
{
    lemma_stop_after(seen, 0, i);
    lemma_stop_bounds(seen, 0);
    lemma_mismatch_listed(entries, seen, i, stop_from(seen, 0));
}

/// A file that no entry names does not change the outcome of a check.
pub proof fn lemma_untracked_ignored(
    entries: Seq<(Seq<char>, Seq<char>)>,
    dir: Map<Seq<char>, Seq<u8>>,
    path: Seq<char>,
    content: Seq<u8>,
)
    requires
        forall|i: int| 0 <= i < entries.len() ==> #[trigger] entries[i].0 != path,
    ensures
        report_of(entries, observe_all(entries, dir.insert(path, content))) == report_of(
            entries,
            observe_all(entries, dir),
        ),
{
    assert(observe_all(entries, dir.insert(path, content)) =~= observe_all(entries, dir));
}

/// The digest text depends on the content alone.
pub proof fn lemma_digest_deterministic(a: Seq<u8>, b: Seq<u8>)
    requires
        a == b,
    ensures
        digest_text(a) == digest_text(b),
{
}

/// Distinct digests have distinct hexadecimal texts.
pub proof fn lemma_hex_injective(a: Seq<u8>, b: Seq<u8>)
    requires
        hex_of(a) == hex_of(b),
    ensures
        a == b,
    decreases a.len(),
{
    lemma_hex_len(a);
    lemma_hex_len(b);
    if a.len() > 0 {
        let x = a.last();
        let y = b.last();
        let ha = hex_of(a);
        let n = ha.len();
        assert(ha[n - 2] == hex_digit(x / 16));
        assert(ha[n - 1] == hex_digit(x % 16));
        assert(hex_of(b)[n - 2] == hex_digit(y / 16));
        assert(hex_of(b)[n - 1] == hex_digit(y % 16));
        lemma_hex_digit_injective(x / 16, y / 16);
        lemma_hex_digit_injective(x % 16, y % 16);
        assert(hex_of(a.drop_last()) =~= ha.subrange(0, n - 2));
        assert(hex_of(b.drop_last()) =~= hex_of(b).subrange(0, n - 2));
        lemma_hex_injective(a.drop_last(), b.drop_last());
        assert(a =~= a.drop_last().push(x));
        assert(b =~= b.drop_last().push(y));
    } else {
        assert(a =~= b);
    }
}

proof fn lemma_hex_digit_injective(n: u8, m: u8)
    requires
        n < 16,
        m < 16,
        hex_digit(n) == hex_digit(m),
    ensures
        n == m,
{
    assert(hex_digit(n) as u32 == if n < 10 { 48 + n } else { 87 + n });
    assert(hex_digit(m) as u32 == if m < 10 { 48 + m } else { 87 + m });
}

} // verus!
