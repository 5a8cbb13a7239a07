use reflac::scratch::{candidate_name, scratch_name, TempDir};

fn is_hex8(s: &str) -> bool {
    s.len() == 8 && s.chars().all(|c| c.is_ascii_digit() || ('a'..='f').contains(&c))
}

#[test]
fn names_are_made_of_prefix_number_and_extension() {
    assert_eq!(scratch_name(Some("reflac"), 0x1a2b3c4d, ""), "reflac-1a2b3c4d");
    assert_eq!(scratch_name(Some("reflac"), 0, ""), "reflac-00000000");
    assert_eq!(scratch_name(None, 255, ""), "000000ff");
    assert_eq!(scratch_name(None, u32::MAX, ".png"), "ffffffff.png");
}

#[test]
fn candidates_have_the_shape_of_a_name() {
    for _ in 0..50 {
        let root = TempDir::root_candidate("reflac");
        assert!(root.starts_with("reflac-"));
        assert!(is_hex8(&root["reflac-".len()..]));
        let dir = TempDir::at(String::from("/tmp/reflac-00000000"));
        assert!(is_hex8(&dir.subdir_candidate()));
        let file = dir.subfile_candidate(".bin");
        assert!(file.ends_with(".bin"));
        assert!(is_hex8(&file[..8]));
        let free = candidate_name(Some("p"), ".x");
        assert!(free.starts_with("p-") && free.ends_with(".x"));
        assert!(is_hex8(&free[2..10]));
    }
}

#[test]
fn candidates_differ() {
    let dir = TempDir::at(String::from("/tmp/x"));
    let mut seen = std::collections::HashSet::new();
    for _ in 0..16 {
        seen.insert(dir.subdir_candidate());
    }
    assert!(seen.len() > 1);
}

#[test]
fn scratch_directory_knows_its_path() {
    let dir = TempDir::at(String::from("/tmp/reflac-0000abcd"));
    assert_eq!(dir.path(), "/tmp/reflac-0000abcd");
}
