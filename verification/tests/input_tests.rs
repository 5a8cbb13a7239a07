use reflac::command::ArchiveKind;
use reflac::error::ReflacError;
use reflac::input::{Found, Walk, WalkStep};
use reflac::paths::join;

fn walk(components: &[&str]) -> Walk {
    Walk::new(components.iter().map(|c| String::from(*c)).collect())
}

fn probe(w: &Walk) -> String {
    match w.next() {
        WalkStep::Probe(path) => path,
        other => panic!("unexpected: {:?}", other),
    }
}

fn done(w: &Walk) -> String {
    match w.next() {
        WalkStep::Done(path) => path,
        other => panic!("unexpected: {:?}", other),
    }
}

#[test]
fn paths_are_joined_with_one_slash() {
    assert_eq!(join("", "a"), "a");
    assert_eq!(join("", "/"), "/");
    assert_eq!(join("/", "home"), "/home");
    assert_eq!(join("/home", "me"), "/home/me");
    assert_eq!(join("a/", "b"), "a/b");
    assert_eq!(join("a", ""), "a/");
}

#[test]
fn walk_through_directories_ends_at_the_path() {
    let mut w = walk(&["/", "music", "album"]);
    assert_eq!(probe(&w), "/");
    assert_eq!(w.found(Found::Directory).unwrap(), None);
    assert_eq!(probe(&w), "/music");
    assert_eq!(w.found(Found::Directory).unwrap(), None);
    assert_eq!(probe(&w), "/music/album");
    assert_eq!(w.found(Found::Directory).unwrap(), None);
    assert_eq!(done(&w), "/music/album");
}

#[test]
fn walk_of_no_components_ends_at_once() {
    let mut w = walk(&[]);
    assert_eq!(done(&w), "");
    assert_eq!(w.found(Found::Missing).unwrap(), None);
    w.unpacked(String::from("/tmp/x"), Vec::new());
    assert_eq!(done(&w), "");
}

#[test]
fn missing_component_is_named_as_written() {
    let mut w = walk(&["in", "a.zip", "cd1"]);
    assert_eq!(w.found(Found::Directory).unwrap(), None);
    assert_eq!(
        w.found(Found::File(Some(String::from("zip")))).unwrap(),
        Some(ArchiveKind::Zip)
    );
    assert_eq!(probe(&w), "in/a.zip");
    w.unpacked(String::from("/tmp/s/0001"), vec![String::from("/tmp/s/0001/top")]);
    assert_eq!(probe(&w), "/tmp/s/0001/top/cd1");
    match w.found(Found::Missing) {
        Err(ReflacError::PathDoesNotExist(path)) => assert_eq!(path, "in/a.zip/cd1"),
        other => panic!("unexpected: {:?}", other),
    }
    assert_eq!(probe(&w), "/tmp/s/0001/top/cd1");
}

#[test]
fn file_must_be_a_known_archive() {
    let mut w = walk(&["in", "notes.txt"]);
    assert_eq!(w.found(Found::Directory).unwrap(), None);
    match w.found(Found::File(Some(String::from("txt")))) {
        Err(ReflacError::InvalidInputPath(path)) => assert_eq!(path, "in/notes.txt"),
        other => panic!("unexpected: {:?}", other),
    }
    match w.found(Found::File(None)) {
        Err(ReflacError::InvalidInputPath(path)) => assert_eq!(path, "in/notes.txt"),
        other => panic!("unexpected: {:?}", other),
    }
}

#[test]
fn archive_with_one_entry_is_entered_through_it() {
    let mut w = walk(&["a.7z"]);
    assert_eq!(
        w.found(Found::File(Some(String::from("7z")))).unwrap(),
        Some(ArchiveKind::SevenZip)
    );
    w.unpacked(String::from("/tmp/s/1"), vec![String::from("/tmp/s/1/only")]);
    assert_eq!(done(&w), "/tmp/s/1/only");
}

#[test]
fn archive_with_several_entries_is_entered_at_its_root() {
    let mut w = walk(&["a.rar", "sub"]);
    assert_eq!(
        w.found(Found::File(Some(String::from("rar")))).unwrap(),
        Some(ArchiveKind::Rar)
    );
    w.unpacked(
        String::from("/tmp/s/1"),
        vec![String::from("/tmp/s/1/a"), String::from("/tmp/s/1/b")],
    );
    assert_eq!(probe(&w), "/tmp/s/1/sub");
    assert_eq!(w.found(Found::Directory).unwrap(), None);
    assert_eq!(done(&w), "/tmp/s/1/sub");
    let mut w = walk(&["a.rar"]);
    assert!(w.found(Found::File(Some(String::from("rar")))).unwrap().is_some());
    w.unpacked(String::from("/tmp/s/2"), Vec::new());
    assert_eq!(done(&w), "/tmp/s/2");
}
