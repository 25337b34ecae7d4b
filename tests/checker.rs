use manifest_checker::compare::{verify_directory, verify_operation, Mismatch, Observation};
use manifest_checker::digest::{digest_hex, hex_lower};
use manifest_checker::generate::{generate_operation, FoundFile};
use manifest_checker::manifest::{Manifest, ManifestEntry};
use manifest_checker::paths::normalize_path;

const HELLO_DIGEST: &str = "2cf24dba5fb0a30e26e83b2ac5b9e29e1b161e5c1fa7425e73043362938b9824";
const EMPTY_DIGEST: &str = "e3b0c44298fc1c149afbf4c8996fb92427ae41e4649b934ca495991b7852b855";

fn found(path: &str, digest: &str) -> FoundFile {
    FoundFile { path: path.to_string(), digest: digest.to_string() }
}

fn entry(path: &str, digest: &str) -> ManifestEntry {
    ManifestEntry { path: path.to_string(), digest: digest.to_string() }
}

fn pairs(m: &Manifest) -> Vec<(String, String)> {
    (0..m.len()).map(|i| (m.path(i).clone(), m.digest(i).clone())).collect()
}

#[test]
fn digest_of_hello() {
    assert_eq!(digest_hex(b"hello"), HELLO_DIGEST);
}

#[test]
fn digest_of_empty_content() {
    assert_eq!(digest_hex(b""), EMPTY_DIGEST);
}

#[test]
fn digest_is_deterministic() {
    let a = digest_hex(b"some content");
    let b = digest_hex(b"some content");
    assert_eq!(a, b);
    assert_eq!(a.len(), 64);
}

#[test]
fn digest_differs_by_one_byte() {
    assert_ne!(digest_hex(b"hello"), digest_hex(b"hellp"));
}

#[test]
fn hex_is_lowercase_two_digits_per_byte() {
    assert_eq!(hex_lower(&[0x00, 0x0f, 0xab, 0xff]), "000fabff");
    assert_eq!(hex_lower(&[]), "");
}

#[test]
fn normalize_turns_backslashes_into_slashes() {
    assert_eq!(normalize_path("sub\\dir\\a.txt"), "sub/dir/a.txt");
    assert_eq!(normalize_path("sub/b.txt"), "sub/b.txt");
    assert_eq!(normalize_path(""), "");
}

#[test]
fn insert_replaces_earlier_digest() {
    let mut m = Manifest::new();
    m.insert("a.txt".to_string(), "1".to_string());
    m.insert("b.txt".to_string(), "2".to_string());
    m.insert("a.txt".to_string(), "3".to_string());
    assert_eq!(
        pairs(&m),
        vec![("a.txt".to_string(), "3".to_string()), ("b.txt".to_string(), "2".to_string())]
    );
}

#[test]
fn from_entries_keeps_last_record() {
    let m = Manifest::from_entries(&vec![entry("x", "1"), entry("x", "2"), entry("y", "3")]);
    assert_eq!(m.len(), 2);
    assert_eq!(pairs(&m), vec![("x".to_string(), "2".to_string()), ("y".to_string(), "3".to_string())]);
}

#[test]
fn generate_example_single_file() {
    let m = generate_operation(&vec![found("a.txt", &digest_hex(b"hello"))]);
    assert_eq!(pairs(&m), vec![("a.txt".to_string(), HELLO_DIGEST.to_string())]);
    assert_eq!(verify_operation(&m, &vec![Observation::Found(digest_hex(b"hello"))]), Ok(()));
    let report = verify_directory(&m, &vec![Observation::Found(digest_hex(b"hello!"))]);
    assert!(!report.all_matched());
    assert_eq!(
        report.mismatches,
        vec![Mismatch::HashMismatch {
            path: "a.txt".to_string(),
            expected: HELLO_DIGEST.to_string(),
            found: digest_hex(b"hello!"),
        }]
    );
    assert_eq!(verify_operation(&m, &vec![Observation::Found(digest_hex(b"hello!"))]), Err(true));
}

#[test]
fn generate_normalizes_paths() {
    let m = generate_operation(&vec![found("sub\\a.txt", "d1"), found("sub/b.txt", "d2")]);
    assert_eq!(
        pairs(&m),
        vec![("sub/a.txt".to_string(), "d1".to_string()), ("sub/b.txt".to_string(), "d2".to_string())]
    );
}

#[test]
fn generate_duplicate_paths_last_wins() {
    let m = generate_operation(&vec![found("d\\f", "old"), found("d/f", "new")]);
    assert_eq!(pairs(&m), vec![("d/f".to_string(), "new".to_string())]);
}

#[test]
fn generate_from_nothing_is_empty() {
    let m = generate_operation(&vec![]);
    assert_eq!(m.len(), 0);
    assert_eq!(verify_operation(&m, &vec![]), Ok(()));
}

#[test]
fn round_trip_generate_then_verify() {
    let contents: Vec<(&str, &[u8])> = vec![("a.txt", b"hello"), ("sub\\b.bin", b"\x00\x01"), ("c", b"")];
    let found_files: Vec<FoundFile> =
        contents.iter().map(|(p, c)| found(p, &digest_hex(c))).collect();
    let m = generate_operation(&found_files);
    let observations: Vec<Observation> = (0..m.len())
        .map(|i| {
            let (_, c) = contents.iter().find(|(p, _)| normalize_path(p) == *m.path(i)).unwrap();
            Observation::Found(digest_hex(c))
        })
        .collect();
    let report = verify_directory(&m, &observations);
    assert!(report.all_matched());
    assert_eq!(report.unreadable, None);
    assert_eq!(verify_operation(&m, &observations), Ok(()));
}

#[test]
fn missing_file_is_reported() {
    let m = Manifest::from_entries(&vec![entry("a.txt", HELLO_DIGEST), entry("gone.txt", EMPTY_DIGEST)]);
    let obs = vec![Observation::Found(HELLO_DIGEST.to_string()), Observation::Absent];
    let report = verify_directory(&m, &obs);
    assert_eq!(report.mismatches, vec![Mismatch::Missing { path: "gone.txt".to_string() }]);
    assert_eq!(report.unreadable, None);
    assert!(!report.all_matched());
    assert_eq!(verify_operation(&m, &obs), Err(true));
}

#[test]
fn missing_does_not_stop_the_check() {
    let m = Manifest::from_entries(&vec![entry("a", "1"), entry("b", "2")]);
    let obs = vec![Observation::Absent, Observation::Found("3".to_string())];
    let report = verify_directory(&m, &obs);
    assert_eq!(
        report.mismatches,
        vec![
            Mismatch::Missing { path: "a".to_string() },
            Mismatch::HashMismatch { path: "b".to_string(), expected: "2".to_string(), found: "3".to_string() },
        ]
    );
}

#[test]
fn digest_comparison_is_case_sensitive() {
    let m = Manifest::from_entries(&vec![entry("a.txt", &HELLO_DIGEST.to_uppercase())]);
    let obs = vec![Observation::Found(HELLO_DIGEST.to_string())];
    assert_eq!(verify_directory(&m, &obs).mismatches.len(), 1);
    assert_eq!(verify_operation(&m, &obs), Err(true));
}

#[test]
fn unreadable_file_ends_the_check() {
    let m = Manifest::from_entries(&vec![entry("a", "1"), entry("b", "2"), entry("c", "3")]);
    let obs = vec![Observation::Absent, Observation::Unreadable, Observation::Absent];
    let report = verify_directory(&m, &obs);
    assert_eq!(report.mismatches, vec![Mismatch::Missing { path: "a".to_string() }]);
    assert_eq!(report.unreadable, Some("b".to_string()));
    assert!(!report.all_matched());
    assert_eq!(verify_operation(&m, &obs), Err(true));
}

#[test]
fn unreadable_alone_fails() {
    let m = Manifest::from_entries(&vec![entry("a", "1")]);
    let obs = vec![Observation::Unreadable];
    let report = verify_directory(&m, &obs);
    assert!(report.mismatches.is_empty());
    assert_eq!(report.unreadable, Some("a".to_string()));
    assert_eq!(verify_operation(&m, &obs), Err(true));
}

#[test]
fn untracked_files_are_ignored() {
    let found_files = vec![found("a.txt", &digest_hex(b"hello"))];
    let m = generate_operation(&found_files);
    // The directory later gains "extra.txt"; the manifest does not name it,
    // so it is never observed and the check still passes.
    let obs = vec![Observation::Found(digest_hex(b"hello"))];
    assert_eq!(verify_operation(&m, &obs), Ok(()));
}

#[test]
fn empty_manifest_passes() {
    let m = Manifest::new();
    assert!(verify_directory(&m, &vec![]).all_matched());
}
