use reflac::command::ArchiveKind;
use reflac::error::ReflacError;
use reflac::search::{candidates, holds_audio, Candidate, EntryKind, Listed, Search, SearchStep};

fn file(path: &str) -> Listed {
    let extension = std::path::Path::new(path)
        .extension()
        .map(|e| e.to_str().unwrap().to_string());
    Listed { path: String::from(path), kind: EntryKind::File, extension }
}

fn dir(path: &str) -> Listed {
    Listed { path: String::from(path), kind: EntryKind::Directory, extension: None }
}

fn list(s: &Search) -> String {
    match s.step() {
        SearchStep::List(path) => path,
        other => panic!("unexpected: {:?}", other),
    }
}

fn unpack(s: &Search) -> (String, ArchiveKind) {
    match s.step() {
        SearchStep::Unpack(path, kind) => (path, kind),
        other => panic!("unexpected: {:?}", other),
    }
}

fn found(s: &Search) -> String {
    match s.step() {
        SearchStep::Found(path) => path,
        other => panic!("unexpected: {:?}", other),
    }
}

fn not_found(s: &Search) -> String {
    match s.step() {
        SearchStep::NotFound(path) => path,
        other => panic!("unexpected: {:?}", other),
    }
}

#[test]
fn audio_files_are_told_by_kind_and_extension() {
    assert!(holds_audio(&vec![file("/r/a.txt"), file("/r/b.flac")]));
    assert!(!holds_audio(&vec![file("/r/a.txt"), dir("/r/b.flac")]));
    assert!(!holds_audio(&vec![file("/r/a.FLAC"), file("/r/flac")]));
    assert!(!holds_audio(&Vec::new()));
}

#[test]
fn candidates_are_directories_then_archives() {
    let found = candidates(&vec![
        file("/r/a.zip"),
        dir("/r/d1"),
        file("/r/notes.txt"),
        file("/r/b.7z"),
        dir("/r/d2"),
        file("/r/c.rar"),
        Listed { path: String::from("/r/link"), kind: EntryKind::Other, extension: None },
    ]);
    let seen: Vec<String> = found
        .iter()
        .map(|c| match c {
            Candidate::Directory(p) => format!("dir {}", p),
            Candidate::Archive(p, k) => format!("{:?} {}", k, p),
        })
        .collect();
    assert_eq!(
        seen,
        vec!["dir /r/d1", "dir /r/d2", "Zip /r/a.zip", "SevenZip /r/b.7z", "Rar /r/c.rar"]
    );
}

#[test]
fn root_with_audio_is_found_at_once() {
    let mut s = Search::new(String::from("/r"));
    assert_eq!(list(&s), "/r");
    s.listed(vec![dir("/r/sub"), file("/r/01.flac")]);
    assert_eq!(found(&s), "/r");
    s.listed(vec![]);
    s.failed();
    s.unpacked(String::from("/x"));
    assert_eq!(found(&s), "/r");
}

#[test]
fn directories_are_searched_depth_first_in_listing_order() {
    let mut s = Search::new(String::from("/r"));
    s.listed(vec![file("/r/x.zip"), dir("/r/a"), dir("/r/b")]);
    assert_eq!(list(&s), "/r/a");
    s.listed(vec![dir("/r/a/deep")]);
    assert_eq!(list(&s), "/r/a/deep");
    s.listed(vec![file("/r/a/deep/readme.txt")]);
    assert_eq!(list(&s), "/r/b");
    s.listed(vec![file("/r/b/1.flac")]);
    assert_eq!(found(&s), "/r/b");
}

#[test]
fn archives_are_tried_after_all_directories() {
    let mut s = Search::new(String::from("/r"));
    s.listed(vec![file("/r/x.zip"), dir("/r/a"), file("/r/y.rar")]);
    assert_eq!(list(&s), "/r/a");
    s.listed(vec![]);
    assert_eq!(unpack(&s), (String::from("/r/x.zip"), ArchiveKind::Zip));
    s.unpacked(String::from("/tmp/s/1"));
    assert_eq!(list(&s), "/tmp/s/1");
    s.listed(vec![file("/tmp/s/1/cover.jpg")]);
    assert_eq!(unpack(&s), (String::from("/r/y.rar"), ArchiveKind::Rar));
    s.unpacked(String::from("/tmp/s/2"));
    s.listed(vec![dir("/tmp/s/2/cd")]);
    assert_eq!(list(&s), "/tmp/s/2/cd");
    s.listed(vec![file("/tmp/s/2/cd/01.flac")]);
    assert_eq!(found(&s), "/tmp/s/2/cd");
}

#[test]
fn nothing_found_names_the_root() {
    let mut s = Search::new(String::from("/r"));
    s.listed(vec![dir("/r/a"), file("/r/notes.txt")]);
    assert_eq!(list(&s), "/r/a");
    s.listed(vec![dir("/r/a/b")]);
    s.listed(vec![]);
    assert_eq!(not_found(&s), "/r");
    let mut s = Search::new(String::from("/empty"));
    s.listed(vec![]);
    assert_eq!(not_found(&s), "/empty");
}

#[test]
fn failure_below_the_root_is_passed_over() {
    let mut s = Search::new(String::from("/r"));
    s.listed(vec![dir("/r/a"), dir("/r/b")]);
    assert_eq!(list(&s), "/r/a");
    s.failed();
    assert_eq!(list(&s), "/r/b");
    s.listed(vec![file("/r/b/bad.zip"), file("/r/b/good.zip")]);
    assert_eq!(unpack(&s).0, "/r/b/bad.zip");
    s.failed();
    assert_eq!(not_found(&s), "/r");
}

#[test]
fn failure_at_the_root_ends_the_search() {
    let mut s = Search::new(String::from("/r"));
    s.failed();
    assert!(matches!(s.step(), SearchStep::Broken));
    let mut s = Search::new(String::from("/r"));
    s.listed(vec![file("/r/bad.zip"), file("/r/good.zip")]);
    assert_eq!(unpack(&s).0, "/r/bad.zip");
    s.failed();
    assert!(matches!(s.step(), SearchStep::Broken));
    s.listed(vec![file("/r/1.flac")]);
    assert!(matches!(s.step(), SearchStep::Broken));
}

#[test]
fn unpacked_archive_that_cannot_be_listed_is_passed_over() {
    let mut s = Search::new(String::from("/r"));
    s.listed(vec![file("/r/a.zip"), file("/r/b.zip")]);
    s.unpacked(String::from("/tmp/s/1"));
    assert_eq!(list(&s), "/tmp/s/1");
    s.failed();
    assert_eq!(unpack(&s).0, "/r/b.zip");
}

#[test]
fn search_without_a_find_gives_its_error() {
    let mut s = Search::new(String::from("/r"));
    assert!(s.failure().is_none());
    s.listed(vec![file("/r/notes.txt")]);
    match s.failure() {
        Some(ReflacError::NoFlacFilesFound(root)) => assert_eq!(root, "/r"),
        other => panic!("unexpected: {:?}", other),
    }
    assert_eq!(s.failure().unwrap().message(), "No FLAC files found: /r");
    let mut s = Search::new(String::from("/r"));
    s.failed();
    assert!(s.failure().is_none());
}
