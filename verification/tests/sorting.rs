//! Ordering and sorting behaviour of the entry model.

use lsmoji::file_entry::FileEntry;
use lsmoji::order::sort_entries;
use lsmoji::text::Rel;

fn file(name: &str) -> FileEntry {
    FileEntry::new(name.to_owned(), "📝".to_owned(), false)
}

fn dir(name: &str) -> FileEntry {
    FileEntry::new(name.to_owned(), "📁".to_owned(), true)
}

fn names(entries: &[FileEntry]) -> Vec<String> {
    entries.iter().map(|e| e.name.clone()).collect()
}

#[test]
fn sort_example_listing() {
    // Directory first, then the hidden file, then files by extension,
    // with the case-insensitive name as the last tie-break.
    let mut entries = vec![file("b.txt"), dir("A"), file(".hidden"), file("a.png")];
    sort_entries(&mut entries);
    assert_eq!(names(&entries), vec!["A", ".hidden", "a.png", "b.txt"]);
}

#[test]
fn directories_before_files() {
    let mut entries = vec![file("aaa"), dir("zzz"), file("bbb"), dir("mmm")];
    sort_entries(&mut entries);
    assert_eq!(names(&entries), vec!["mmm", "zzz", "aaa", "bbb"]);
}

#[test]
fn hidden_before_visible_within_each_class() {
    let mut entries = vec![file("b"), file(".z"), dir("d"), dir(".y")];
    sort_entries(&mut entries);
    assert_eq!(names(&entries), vec![".y", "d", ".z", "b"]);
}

#[test]
fn extension_orders_files() {
    let mut entries = vec![file("a.txt"), file("z.png"), file("m.log")];
    sort_entries(&mut entries);
    assert_eq!(names(&entries), vec!["m.log", "z.png", "a.txt"]);
}

#[test]
fn name_tie_break_is_case_insensitive() {
    let mut entries = vec![file("Beta.txt"), file("alpha.txt"), file("GAMMA.txt")];
    sort_entries(&mut entries);
    assert_eq!(names(&entries), vec!["alpha.txt", "Beta.txt", "GAMMA.txt"]);
}

#[test]
fn directories_ignore_extensions() {
    // Extensions only order non-directories; directories go by name.
    let mut entries = vec![dir("b.txt"), dir("a.png"), dir("c")];
    sort_entries(&mut entries);
    assert_eq!(names(&entries), vec!["a.png", "b.txt", "c"]);
}

#[test]
fn sort_is_stable_for_equal_keys() {
    // Two entries equal under the ordering's equality (same class, same
    // extension, case-insensitively equal names) keep their input order:
    // the icons tell them apart.
    let first = FileEntry::new("Same.txt".to_owned(), "🥇".to_owned(), false);
    let second = FileEntry::new("same.TXT".to_owned(), "🥈".to_owned(), false);
    let mut entries = vec![first, second];
    sort_entries(&mut entries);
    assert_eq!(entries[0].emoji, "🥇");
    assert_eq!(entries[1].emoji, "🥈");
    assert_eq!(entries[0].name, "Same.txt");
    assert_eq!(entries[1].name, "same.TXT");
}

#[test]
fn comparator_answers_and_swaps() {
    let a = file("a.png");
    let b = file("b.txt");
    assert_eq!(a.cmp_entries(&b), Rel::Less);
    assert_eq!(b.cmp_entries(&a), Rel::Greater);
    let c = file("A.PNG");
    assert_eq!(a.cmp_entries(&c), Rel::Equal);
    assert!(a.name_eq(&c));
    assert!(!a.name_eq(&b));
}

#[test]
fn empty_and_single_listings_sort() {
    let mut empty: Vec<FileEntry> = Vec::new();
    sort_entries(&mut empty);
    assert!(empty.is_empty());
    let mut one = vec![file("only.txt")];
    sort_entries(&mut one);
    assert_eq!(names(&one), vec!["only.txt"]);
}

#[test]
fn extension_is_lowered_and_derived() {
    let e = file("Report.TXT");
    assert_eq!(e.get_extension(), Some("txt".to_owned()));
    let tarball = file("archive.tar.gz");
    assert_eq!(tarball.get_extension(), Some("gz".to_owned()));
    let hidden = file(".hidden");
    assert_eq!(hidden.get_extension(), None);
    let plain = file("README");
    assert_eq!(plain.get_extension(), None);
}
