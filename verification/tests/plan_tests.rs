use reflac::error::ReflacError;
use reflac::plan::{
    album_dir, album_dir_name, disc_dir, disc_numbers, get_album_name, most_common_album,
    padding,
};
use reflac::tag::Tag;

fn tag(track: usize, album: Option<&str>, disc: Option<usize>) -> Tag {
    let mut t = Tag::new();
    t.track = Some(track);
    t.album = album.map(String::from);
    t.disc = disc;
    t
}

#[test]
fn most_frequent_album_wins() {
    let tags = vec![
        tag(1, Some("A"), None),
        tag(2, Some("B"), None),
        tag(3, Some("B"), None),
        tag(4, None, None),
    ];
    assert_eq!(get_album_name(&tags).map(|s| s.as_str()), Some("B"));
    assert_eq!(most_common_album(&tags), Some(1));
}

#[test]
fn first_named_album_wins_a_tie() {
    let tags = vec![
        tag(1, Some("B"), None),
        tag(2, Some("A"), None),
        tag(3, Some("A"), None),
        tag(4, Some("B"), None),
    ];
    assert_eq!(get_album_name(&tags).map(|s| s.as_str()), Some("B"));
    let tags = vec![tag(1, Some("X"), None), tag(2, Some("Y"), None)];
    assert_eq!(get_album_name(&tags).map(|s| s.as_str()), Some("X"));
}

#[test]
fn no_album_without_a_tag_that_names_one() {
    let tags = vec![tag(1, None, None), tag(2, None, None)];
    assert_eq!(get_album_name(&tags), None);
    assert_eq!(get_album_name(&Vec::new()), None);
}

#[test]
fn album_directory_has_no_slash() {
    assert_eq!(album_dir_name("Live/Dead"), "Live_Dead");
    assert_eq!(album_dir_name("Demo"), "Demo");
}

#[test]
fn padding_is_the_digit_count_of_the_largest_track() {
    assert_eq!(padding(&vec![tag(1, None, None), tag(9, None, None)]), 1);
    assert_eq!(padding(&vec![tag(10, None, None), tag(9, None, None)]), 2);
    assert_eq!(padding(&vec![tag(3, None, None), tag(120, None, None), tag(7, None, None)]), 3);
    assert_eq!(padding(&Vec::new()), 1);
}

#[test]
fn disc_numbers_come_once_in_first_seen_order() {
    let tags = vec![
        tag(1, None, Some(2)),
        tag(2, None, Some(1)),
        tag(3, None, None),
        tag(4, None, Some(2)),
        tag(5, None, Some(3)),
        tag(6, None, Some(1)),
    ];
    assert_eq!(disc_numbers(&tags), vec![2, 1, 3]);
    assert_eq!(disc_numbers(&vec![tag(1, None, None)]), Vec::<usize>::new());
}

#[test]
fn disc_directory_is_named_by_its_number() {
    assert_eq!(disc_dir(1), "Disc 1");
    assert_eq!(disc_dir(12), "Disc 12");
}

#[test]
fn album_directory_comes_from_the_most_common_album() {
    let tags = vec![
        tag(1, Some("Live/Dead"), None),
        tag(2, Some("Other"), None),
        tag(3, Some("Live/Dead"), None),
    ];
    assert_eq!(album_dir(&tags).unwrap(), "Live_Dead");
}

#[test]
fn planning_fails_without_an_album() {
    let tags = vec![tag(1, None, None)];
    assert!(matches!(album_dir(&tags), Err(ReflacError::MissingAlbum)));
    assert!(matches!(album_dir(&Vec::new()), Err(ReflacError::MissingAlbum)));
}
