use reflac::error::ReflacError;
use reflac::share::{cover_plan, input_plan, share};
use reflac::tag::Tag;

fn tag(track: usize, input: Option<&str>, cover: Option<&str>) -> Tag {
    let mut t = Tag::new();
    t.track = Some(track);
    t.input = input.map(String::from);
    t.cover = cover.map(String::from);
    t
}

#[test]
fn tags_with_the_same_input_share_one_resolution() {
    let tags = vec![
        tag(1, Some("a.zip"), None),
        tag(2, Some("a.zip"), None),
        tag(3, Some("b.zip"), None),
        tag(4, Some("a.zip"), None),
    ];
    let plan = input_plan(&tags).unwrap();
    assert_eq!(plan.firsts, vec![0, 2]);
    assert_eq!(plan.slots, vec![Some(0), Some(0), Some(1), Some(0)]);
}

#[test]
fn references_differ_by_their_letters() {
    let tags = vec![tag(1, Some("a.zip"), None), tag(2, Some("./a.zip"), None)];
    let plan = input_plan(&tags).unwrap();
    assert_eq!(plan.firsts, vec![0, 1]);
    assert_eq!(plan.slots, vec![Some(0), Some(1)]);
}

#[test]
fn tag_without_input_is_an_error() {
    let tags = vec![
        tag(1, Some("a.zip"), None),
        tag(5, None, None),
        tag(6, None, None),
    ];
    match input_plan(&tags) {
        Err(ReflacError::MissingInput(track)) => assert_eq!(track, 5),
        other => panic!("unexpected: {:?}", other),
    }
}

#[test]
fn covers_are_shared_and_may_be_absent() {
    let tags = vec![
        tag(1, Some("a"), None),
        tag(2, Some("a"), Some("c.png")),
        tag(3, Some("b"), Some("d.png")),
        tag(4, Some("b"), Some("c.png")),
    ];
    let plan = cover_plan(&tags);
    assert_eq!(plan.firsts, vec![1, 2]);
    assert_eq!(plan.slots, vec![None, Some(0), Some(1), Some(0)]);
}

#[test]
fn sharing_of_no_keys_is_empty() {
    let plan = share(&Vec::new());
    assert!(plan.firsts.is_empty());
    assert!(plan.slots.is_empty());
    let plan = input_plan(&Vec::new()).unwrap();
    assert!(plan.firsts.is_empty());
}

#[test]
fn sharing_keeps_first_use_order() {
    let keys = vec![
        Some(String::from("z")),
        None,
        Some(String::from("a")),
        Some(String::from("z")),
        Some(String::from("m")),
        Some(String::from("a")),
    ];
    let plan = share(&keys);
    assert_eq!(plan.firsts, vec![0, 2, 4]);
    assert_eq!(plan.slots, vec![Some(0), None, Some(1), Some(0), Some(2), Some(1)]);
}
