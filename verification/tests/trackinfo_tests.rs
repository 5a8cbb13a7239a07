use reflac::error::ReflacError;
use reflac::tag::{Date, Field, Value};
use reflac::trackinfo::{interpret, parse_line, Entry, Merger, TrackInfo};

fn lines(text: &[&str]) -> Vec<String> {
    text.iter().map(|l| String::from(*l)).collect()
}

fn parse_trackinfo(lines: &Vec<String>) -> Result<TrackInfo, ReflacError> {
    reflac::trackinfo::parse_trackinfo(lines).map_err(|failure| failure.error)
}

#[test]
fn single_track_has_every_global_field() {
    let info = parse_trackinfo(&lines(&[
        "TITLE=Song",
        "ARTIST=Band",
        "LYRICIST=L",
        "COMPOSER=C",
        "ARRANGER=A",
        "ALBUM=Demo",
        "DISC=2",
        "GENRE=Rock",
        "DATE=2020-01-02",
        "LABEL=Lab",
        "COMMENT=Hi",
        "COVER=cover.png",
        "INPUT[7]=x",
    ]))
    .unwrap();
    assert_eq!(info.tags.len(), 1);
    let t = &info.tags[0];
    assert_eq!(t.track, Some(7));
    assert_eq!(t.input.as_deref(), Some("x"));
    assert_eq!(t.title.as_deref(), Some("Song"));
    assert_eq!(t.artist.as_deref(), Some("Band"));
    assert_eq!(t.lyricist.as_deref(), Some("L"));
    assert_eq!(t.composer.as_deref(), Some("C"));
    assert_eq!(t.arranger.as_deref(), Some("A"));
    assert_eq!(t.album.as_deref(), Some("Demo"));
    assert_eq!(t.disc, Some(2));
    assert_eq!(t.genre.as_deref(), Some("Rock"));
    assert_eq!(t.date, Some(Date { year: 2020, month: 1, day: 2 }));
    assert_eq!(t.label.as_deref(), Some("Lab"));
    assert_eq!(t.comment.as_deref(), Some("Hi"));
    assert_eq!(t.cover.as_deref(), Some("cover.png"));
    assert!(info.trimmed.is_empty());
}

#[test]
fn global_line_after_the_track_does_not_reach_it() {
    let info = parse_trackinfo(&lines(&["ALBUM=Demo", "INPUT[1]=x", "ARTIST=Late"])).unwrap();
    assert_eq!(info.tags.len(), 1);
    assert_eq!(info.tags[0].album.as_deref(), Some("Demo"));
    assert_eq!(info.tags[0].artist, None);
}

#[test]
fn defaults_follow_the_order_of_the_lines() {
    let info = parse_trackinfo(&lines(&[
        "ARTIST=1",
        "INPUT[1]=a.zip",
        "ARTIST=2",
        "INPUT[2]=b.zip",
    ]))
    .unwrap();
    assert_eq!(info.tags.len(), 2);
    assert_eq!(info.tags[0].track, Some(1));
    assert_eq!(info.tags[0].artist.as_deref(), Some("1"));
    assert_eq!(info.tags[1].track, Some(2));
    assert_eq!(info.tags[1].artist.as_deref(), Some("2"));
}

#[test]
fn later_line_for_a_known_track_changes_one_field_only() {
    let info = parse_trackinfo(&lines(&[
        "ALBUM=First",
        "TITLE[3]=Three",
        "ALBUM=Second",
        "ARTIST=Late",
        "INPUT[3]=in",
    ]))
    .unwrap();
    assert_eq!(info.tags.len(), 1);
    let t = &info.tags[0];
    assert_eq!(t.track, Some(3));
    assert_eq!(t.title.as_deref(), Some("Three"));
    assert_eq!(t.input.as_deref(), Some("in"));
    assert_eq!(t.album.as_deref(), Some("First"));
    assert_eq!(t.artist, None);
}

#[test]
fn tags_come_in_the_order_of_first_mention() {
    let info = parse_trackinfo(&lines(&[
        "TITLE[5]=e",
        "TITLE[2]=b",
        "ARTIST[5]=x",
        "TITLE[9]=i",
        "ARTIST[2]=y",
    ]))
    .unwrap();
    let tracks: Vec<Option<usize>> = info.tags.iter().map(|t| t.track).collect();
    assert_eq!(tracks, vec![Some(5), Some(2), Some(9)]);
    assert_eq!(info.tags[0].artist.as_deref(), Some("x"));
    assert_eq!(info.tags[1].artist.as_deref(), Some("y"));
}

#[test]
fn bracketed_disc_line_sets_the_disc_of_the_named_track() {
    let info = parse_trackinfo(&lines(&["DISC[4]=2", "DISC[5]=1", "DISC[4]=3"])).unwrap();
    assert_eq!(info.tags.len(), 2);
    assert_eq!(info.tags[0].track, Some(4));
    assert_eq!(info.tags[0].disc, Some(3));
    assert_eq!(info.tags[1].track, Some(5));
    assert_eq!(info.tags[1].disc, Some(1));
}

#[test]
fn text_values_are_trimmed_with_a_warning() {
    let info = parse_trackinfo(&lines(&[
        "ALBUM=Demo",
        "TITLE[1]=  Song \t",
        "ARTIST= Band",
        "GENRE[1]=Rock",
    ]))
    .unwrap();
    assert_eq!(info.tags[0].title.as_deref(), Some("Song"));
    assert_eq!(info.trimmed, vec![1, 2]);
}

#[test]
fn input_and_cover_are_kept_as_written() {
    let info = parse_trackinfo(&lines(&["INPUT[1]= a b ", "COVER[1]= c.png "])).unwrap();
    assert_eq!(info.tags[0].input.as_deref(), Some(" a b "));
    assert_eq!(info.tags[0].cover.as_deref(), Some(" c.png "));
    assert!(info.trimmed.is_empty());
}

#[test]
fn empty_lines_say_nothing() {
    let info = parse_trackinfo(&lines(&["", "TITLE[1]=a", "", ""])).unwrap();
    assert_eq!(info.tags.len(), 1);
    let none = parse_trackinfo(&lines(&[])).unwrap();
    assert!(none.tags.is_empty());
    assert!(none.trimmed.is_empty());
}

#[test]
fn line_that_no_field_accepts_is_an_error() {
    match parse_trackinfo(&lines(&["TITLE[1]=a", "NONSENSE", "TITLE[2]=b"])) {
        Err(ReflacError::InvalidTrackinfo(line)) => assert_eq!(line, "NONSENSE"),
        other => panic!("unexpected: {:?}", other),
    }
    match parse_trackinfo(&lines(&[" "])) {
        Err(ReflacError::InvalidTrackinfo(line)) => assert_eq!(line, " "),
        other => panic!("unexpected: {:?}", other),
    }
}

#[test]
fn first_bad_line_is_the_one_reported() {
    match parse_trackinfo(&lines(&["bad one", "bad two"])) {
        Err(ReflacError::InvalidTrackinfo(line)) => assert_eq!(line, "bad one"),
        other => panic!("unexpected: {:?}", other),
    }
}

#[test]
fn malformed_disc_and_date_are_errors() {
    assert!(matches!(
        parse_trackinfo(&lines(&["DISC=one"])),
        Err(ReflacError::InvalidTrackinfo(_))
    ));
    assert!(matches!(
        parse_trackinfo(&lines(&["DATE=2020-1-2"])),
        Err(ReflacError::InvalidTrackinfo(_))
    ));
    assert!(matches!(
        parse_trackinfo(&lines(&["DATE=20200102"])),
        Err(ReflacError::InvalidTrackinfo(_))
    ));
    assert!(matches!(
        parse_trackinfo(&lines(&["TITLE[x]=a"])),
        Err(ReflacError::InvalidTrackinfo(_))
    ));
    assert!(matches!(
        parse_trackinfo(&lines(&["TITLE[-1]=a"])),
        Err(ReflacError::InvalidTrackinfo(_))
    ));
}

#[test]
fn numbers_that_do_not_fit_are_errors() {
    assert!(matches!(
        parse_trackinfo(&lines(&["TITLE[99999999999999999999999]=a"])),
        Err(ReflacError::InvalidTrackinfo(_))
    ));
    assert!(matches!(
        parse_trackinfo(&lines(&["DISC=99999999999999999999999"])),
        Err(ReflacError::InvalidTrackinfo(_))
    ));
    assert!(matches!(
        parse_trackinfo(&lines(&["TITLE[٣]=a"])),
        Err(ReflacError::InvalidTrackinfo(_))
    ));
}

#[test]
fn line_is_read_by_the_first_field_that_matches() {
    match parse_line("TITLE[2]= Song ").unwrap() {
        Some((Entry { track, field, value: Value::Text(text) }, cut)) => {
            assert_eq!(track, Some(2));
            assert_eq!(field, Field::Title);
            assert_eq!(text, "Song");
            assert!(cut);
        }
        other => panic!("unexpected: {:?}", other),
    }
    match parse_line("COMMENT=TITLE=x").unwrap() {
        Some((Entry { track, field, value: Value::Text(text) }, cut)) => {
            assert_eq!(track, None);
            assert_eq!(field, Field::Title);
            assert_eq!(text, "x");
            assert!(!cut);
        }
        other => panic!("unexpected: {:?}", other),
    }
    match parse_line("DATE[12]=1999-12-31").unwrap() {
        Some((Entry { track, field, value: Value::Date(date) }, cut)) => {
            assert_eq!(track, Some(12));
            assert_eq!(field, Field::Date);
            assert_eq!(date, Date { year: 1999, month: 12, day: 31 });
            assert!(!cut);
        }
        other => panic!("unexpected: {:?}", other),
    }
    match parse_line("DISC=12abc").unwrap() {
        Some((Entry { track, field, value: Value::Number(n) }, _)) => {
            assert_eq!(track, None);
            assert_eq!(field, Field::Disc);
            assert_eq!(n, 12);
        }
        other => panic!("unexpected: {:?}", other),
    }
    assert!(parse_line("").unwrap().is_none());
    assert!(matches!(parse_line("TITLE"), Err(ReflacError::InvalidTrackinfo(_))));
}

#[test]
fn every_field_name_is_known() {
    let names = [
        ("INPUT", Field::Input),
        ("TITLE", Field::Title),
        ("ARTIST", Field::Artist),
        ("LYRICIST", Field::Lyricist),
        ("COMPOSER", Field::Composer),
        ("ARRANGER", Field::Arranger),
        ("ALBUM", Field::Album),
        ("GENRE", Field::Genre),
        ("LABEL", Field::Label),
        ("COMMENT", Field::Comment),
        ("COVER", Field::Cover),
    ];
    for (name, field) in names {
        let line = format!("{}[3]=v", name);
        match parse_line(&line).unwrap() {
            Some((entry, _)) => {
                assert_eq!(entry.field, field);
                assert_eq!(entry.track, Some(3));
            }
            None => panic!("no entry for {}", name),
        }
    }
}

#[test]
fn groups_are_interpreted_as_given() {
    let groups = vec![
        Some(String::from("TITLE[4]= a ")),
        Some(String::from("4")),
        Some(String::from(" a ")),
    ];
    match interpret(Field::Title, &groups) {
        Some((Entry { track, field, value: Value::Text(text) }, cut)) => {
            assert_eq!(track, Some(4));
            assert_eq!(field, Field::Title);
            assert_eq!(text, "a");
            assert!(cut);
        }
        other => panic!("unexpected: {:?}", other),
    }
    let global = vec![Some(String::from("DISC=3")), None, Some(String::from("3"))];
    match interpret(Field::Disc, &global) {
        Some((Entry { track, value: Value::Number(n), .. }, cut)) => {
            assert_eq!(track, None);
            assert_eq!(n, 3);
            assert!(!cut);
        }
        other => panic!("unexpected: {:?}", other),
    }
    assert!(interpret(Field::Title, &vec![Some(String::from("x"))]).is_none());
    assert!(interpret(Field::Date, &groups).is_none());
    assert!(interpret(Field::Title, &vec![Some(String::from("x")), None, None]).is_none());
}

#[test]
fn merger_copies_the_default_when_a_track_is_first_named() {
    let mut m = Merger::new();
    m.absorb(Entry { track: None, field: Field::Album, value: Value::Text(String::from("A")) });
    m.absorb(Entry { track: Some(1), field: Field::Title, value: Value::Text(String::from("t")) });
    m.absorb(Entry { track: None, field: Field::Album, value: Value::Text(String::from("B")) });
    m.absorb(Entry { track: Some(1), field: Field::Genre, value: Value::Text(String::from("g")) });
    m.absorb(Entry { track: Some(2), field: Field::Title, value: Value::Text(String::from("u")) });
    assert_eq!(m.tags.len(), 2);
    assert_eq!(m.tags[0].album.as_deref(), Some("A"));
    assert_eq!(m.tags[0].genre.as_deref(), Some("g"));
    assert_eq!(m.tags[1].album.as_deref(), Some("B"));
    assert_eq!(m.default.album.as_deref(), Some("B"));
    assert_eq!(m.default.track, None);
}

#[test]
fn failure_keeps_the_warnings_of_the_lines_before_it() {
    let failure = reflac::trackinfo::parse_trackinfo(&lines(&[
        "TITLE= a",
        "ARTIST=b",
        "GENRE[1]=c ",
        "bad",
        "LABEL= d",
    ]))
    .unwrap_err();
    assert_eq!(failure.trimmed, vec![0, 2]);
    assert_eq!(failure.error.message(), "Invalid TRACKINFO line: bad");
}
