use reflac::command::encode_command;
use reflac::paths::join;
use reflac::plan::{album_dir_name, disc_dir, disc_numbers, get_album_name, layout, padding};
use reflac::schedule::{Action, Scheduler};
use reflac::share::input_plan;
use reflac::trackinfo::parse_trackinfo;

fn demo() -> Vec<String> {
    [
        "ALBUM=Demo",
        "ARTIST=Band",
        "DISC[1]=1",
        "INPUT[1]=first.zip",
        "TITLE[1]=One",
        "DISC[2]=1",
        "INPUT[2]=second.zip",
        "TITLE[2]=Two",
    ]
    .iter()
    .map(|l| String::from(*l))
    .collect()
}

#[test]
fn album_with_two_tracks_on_one_disc_is_laid_out() {
    let info = parse_trackinfo(&demo()).unwrap();
    assert_eq!(info.tags.len(), 2);
    let plan = input_plan(&info.tags).unwrap();
    assert_eq!(plan.firsts, vec![0, 1]);
    let album = album_dir_name(get_album_name(&info.tags).unwrap());
    assert_eq!(album, "Demo");
    let discs: Vec<String> = disc_numbers(&info.tags).into_iter().map(disc_dir).collect();
    assert_eq!(discs, vec!["Disc 1"]);
    let width = padding(&info.tags);
    assert_eq!(width, 1);
    let paths: Vec<String> = info
        .tags
        .iter()
        .map(|t| join(&album, &t.output_path(width)))
        .collect();
    assert_eq!(
        paths,
        vec!["Demo/Disc 1/1. Band - One.flac", "Demo/Disc 1/2. Band - Two.flac"]
    );
    let c = encode_command(&info.tags[1], None, &paths[1]);
    assert_eq!(
        c.args,
        vec![
            "--best",
            "--exhaustive-model-search",
            "--qlp-coeff-precision-search",
            "--tag=TITLE=Two",
            "--tag=ARTIST=Band",
            "--tag=ALBUM=Demo",
            "--tag=TRACKNUMBER=2",
            "--tag=DISCNUMBER=1",
            "--output-name=Demo/Disc 1/2. Band - Two.flac",
            "-",
        ]
    );
}

#[test]
fn failed_encoder_stops_the_scheduling() {
    let info = parse_trackinfo(&demo()).unwrap();
    let mut s = Scheduler::new(info.tags.len(), 1);
    assert_eq!(s.next(), Action::Launch(0));
    s.launched();
    assert_eq!(s.next(), Action::Wait(0));
    s.exited(false);
    assert_eq!(s.next(), Action::Abort);
    assert_eq!(s.progress().launched, 1);
}

#[test]
fn layout_names_the_directories_and_the_files() {
    let info = parse_trackinfo(&demo()).unwrap();
    let plan = layout(&info.tags).unwrap();
    assert_eq!(plan.album, "Demo");
    assert_eq!(plan.discs, vec!["Disc 1"]);
    assert_eq!(
        plan.files,
        vec!["Disc 1/1. Band - One.flac", "Disc 1/2. Band - Two.flac"]
    );
}

#[test]
fn layout_pads_to_the_largest_track_and_keeps_disc_order() {
    let lines: Vec<String> = [
        "ALBUM=A/B",
        "DISC[12]=2",
        "TITLE[12]=x/y",
        "DISC[3]=1",
        "TITLE[100]=z",
    ]
    .iter()
    .map(|l| String::from(*l))
    .collect();
    let info = parse_trackinfo(&lines).unwrap();
    let plan = layout(&info.tags).unwrap();
    assert_eq!(plan.album, "A_B");
    assert_eq!(plan.discs, vec!["Disc 2", "Disc 1"]);
    assert_eq!(
        plan.files,
        vec!["Disc 2/012. x_y.flac", "Disc 1/003. .flac", "100. z.flac"]
    );
}

#[test]
fn layout_needs_an_album() {
    let lines = vec![String::from("TITLE[1]=x")];
    let info = parse_trackinfo(&lines).unwrap();
    assert!(matches!(layout(&info.tags), Err(reflac::error::ReflacError::MissingAlbum)));
}
