//! Finding a track's file among the files of its container.

use vstd::prelude::*;
use crate::error::{ErrorView, ReflacError};
use crate::pattern::{find, groups_view, regex_compiles, regex_groups};
use crate::text::{chars_of, parse_decimal, parsed_decimal, texts};

verus! {

/// The regular expression of an audio file's name: the first run of digits
/// is captured, and the extension follows somewhere behind it.
pub open spec fn track_file_pattern() -> Seq<char> {
    r".*?(\d+).*\.flac"@
}

/// The track number that the groups of a match hold.
pub open spec fn number_of_groups(groups: Seq<Option<Seq<char>>>) -> Option<nat> {
    if groups.len() == 2 {
        match groups[1] {
            Some(digits) => parsed_decimal(digits, usize::MAX as nat),
            None => None,
        }
    } else {
        None
    }
}

/// The track number that a file name stands for, if it stands for one.
pub open spec fn track_number_of(name: Seq<char>) -> Option<nat> {
    match regex_groups(track_file_pattern(), name) {
        Some(groups) => number_of_groups(groups),
        None => None,
    }
}

/// The place of the first name from place `from` on that stands for track
/// `track`.
pub open spec fn track_place(names: Seq<Seq<char>>, track: nat, from: int) -> Option<int>
    decreases names.len() - from,
{
    if from < 0 || from >= names.len() {
        None
    } else if track_number_of(names[from]) == Some(track) {
        Some(from)
    } else {
        track_place(names, track, from + 1)
    }
}

/// What the search for the file of track `track` gives: the place of the
/// first name that stands for it, or the error that names the track.
pub open spec fn track_search(names: Seq<Seq<char>>, track: nat) -> Result<int, ErrorView> {
    if names.len() > 0 && !regex_compiles(track_file_pattern()) {
        Err(ErrorView::InvalidPattern(track_file_pattern()))
    } else {
        match track_place(names, track, 0) {
            Some(i) => Ok(i),
            None => Err(ErrorView::InputTrackNotFound(track)),
        }
    }
}

/// The regular expression of an audio file's name.
pub fn pattern() -> (r: &'static str)
    ensures
        r@ == track_file_pattern(),
{
    r".*?(\d+).*\.flac"
}

/// Reads the track number from the capture groups of a match of the file
/// name pattern.
pub fn track_candidate(groups: &Vec<Option<String>>) -> (r: Option<usize>)
    ensures
        match r {
            Some(n) => number_of_groups(groups_view(groups@)) == Some(n as nat),
            None => number_of_groups(groups_view(groups@)) is None,
        },
{
    if groups.len() != 2 {
        return None;
    }
    assert(groups_view(groups@)[1] == crate::tag::text_view(groups@[1]));
    match &groups[1] {
        Some(digits) => {
            let chars = chars_of(digits.as_str());
            match parse_decimal(&chars, usize::MAX as u64) {
                Some(n) => Some(n as usize),
                None => None,
            }
        },
        None => None,
    }
}

/// Finds the file of track `track` among the file names of its container,
/// taken in the order of the listing: the place of the first name whose first
/// run of digits is that number.
pub fn get_track(track: usize, names: &Vec<String>) -> (r: Result<usize, ReflacError>)
    ensures
        match r {
            Ok(i) => track_search(texts(names@), track as nat) == Ok::<int, ErrorView>(i as int)
                && i < names@.len(),
            Err(e) => track_search(texts(names@), track as nat) == Err::<int, ErrorView>(e@),
        },
{
    let ghost all = texts(names@);
    let mut i: usize = 0;
    while i < names.len()
        invariant
            i <= names@.len(),
            all == texts(names@),
            i > 0 ==> regex_compiles(track_file_pattern()),
            track_place(all, track as nat, 0) == track_place(all, track as nat, i as int),
        decreases names@.len() - i,
    {
        assert(all[i as int] == names@[i as int]@);
        match find(pattern(), names[i].as_str()) {
            Err(e) => {
                return Err(e);
            },
            Ok(Some(groups)) => {
                if track_candidate(&groups) == Some(track) {
                    return Ok(i);
                }
            },
            Ok(None) => {},
        }
        i += 1;
    }
    Err(ReflacError::InputTrackNotFound(track))
}

} // verus!
