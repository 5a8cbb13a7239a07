//! The ways in which a run can fail.

use vstd::prelude::*;
use vstd::string::*;
use crate::text::{decimal_digits, push_decimal};

verus! {

/// Why a run stopped.
#[derive(Debug)]
pub enum ReflacError {
    /// The track's container holds no file for this track number.
    InputTrackNotFound(usize),
    /// An input path runs through a file that is not a known archive.
    InvalidInputPath(String),
    /// A line of the track-info file that no field accepts.
    InvalidTrackinfo(String),
    /// The track has no input.
    MissingInput(usize),
    /// Neither the directory nor anything below it holds audio files.
    NoFlacFilesFound(String),
    /// Nothing exists at the path.
    PathDoesNotExist(String),
    /// The named tool did not end successfully.
    SubprocessError(&'static str),
    /// The archive extension has no extractor.
    UnknownArchiveType(String),
    /// No track names an album.
    MissingAlbum,
    /// The regular expression was not accepted.
    InvalidPattern(String),
}

/// A `ReflacError` as mathematics sees it.
pub enum ErrorView {
    InputTrackNotFound(nat),
    InvalidInputPath(Seq<char>),
    InvalidTrackinfo(Seq<char>),
    MissingInput(nat),
    NoFlacFilesFound(Seq<char>),
    PathDoesNotExist(Seq<char>),
    SubprocessError(Seq<char>),
    UnknownArchiveType(Seq<char>),
    MissingAlbum,
    InvalidPattern(Seq<char>),
}

impl View for ReflacError {
    type V = ErrorView;

    open spec fn view(&self) -> ErrorView {
        match *self {
            ReflacError::InputTrackNotFound(track) => ErrorView::InputTrackNotFound(track as nat),
            ReflacError::InvalidInputPath(path) => ErrorView::InvalidInputPath(path@),
            ReflacError::InvalidTrackinfo(line) => ErrorView::InvalidTrackinfo(line@),
            ReflacError::MissingInput(track) => ErrorView::MissingInput(track as nat),
            ReflacError::NoFlacFilesFound(path) => ErrorView::NoFlacFilesFound(path@),
            ReflacError::PathDoesNotExist(path) => ErrorView::PathDoesNotExist(path@),
            ReflacError::SubprocessError(tool) => ErrorView::SubprocessError(tool@),
            ReflacError::UnknownArchiveType(ext) => ErrorView::UnknownArchiveType(ext@),
            ReflacError::MissingAlbum => ErrorView::MissingAlbum,
            ReflacError::InvalidPattern(pattern) => ErrorView::InvalidPattern(pattern@),
        }
    }
}

impl ErrorView {
    /// The one-line description of the error: its kind, then the value or
    /// path that it is about.
    pub open spec fn message(self) -> Seq<char> {
        match self {
            ErrorView::InputTrackNotFound(track) => "Input file not found for track: "@
                + decimal_digits(track),
            ErrorView::InvalidInputPath(path) => "Invalid input path: "@ + path,
            ErrorView::InvalidTrackinfo(line) => "Invalid TRACKINFO line: "@ + line,
            ErrorView::MissingInput(track) => "Missing INPUT for track: "@ + decimal_digits(track),
            ErrorView::NoFlacFilesFound(path) => "No FLAC files found: "@ + path,
            ErrorView::PathDoesNotExist(path) => "Path does not exist: "@ + path,
            ErrorView::SubprocessError(tool) => "Failure executing: "@ + tool,
            ErrorView::UnknownArchiveType(ext) => "Unknown archive type: "@ + ext,
            ErrorView::MissingAlbum => "Missing ALBUM"@,
            ErrorView::InvalidPattern(pattern) => "Invalid pattern: "@ + pattern,
        }
    }
}

fn described(kind: &str, what: &str) -> (r: String)
    ensures
        r@ == kind@ + what@,
{
    let mut out = String::new();
    out.append(kind);
    out.append(what);
    assert(out@ =~= kind@ + what@);
    out
}

fn numbered(kind: &str, n: usize) -> (r: String)
    ensures
        r@ == kind@ + decimal_digits(n as nat),
{
    let mut out = String::new();
    out.append(kind);
    push_decimal(&mut out, n);
    assert(out@ =~= kind@ + decimal_digits(n as nat));
    out
}

impl ReflacError {
    /// The one-line description of the error.
    pub fn message(&self) -> (r: String)
        ensures
            r@ == self@.message(),
    {
        match self {
            ReflacError::InputTrackNotFound(track) => numbered(
                "Input file not found for track: ",
                *track,
            ),
            ReflacError::InvalidInputPath(path) => described("Invalid input path: ", path.as_str()),
            ReflacError::InvalidTrackinfo(line) => described(
                "Invalid TRACKINFO line: ",
                line.as_str(),
            ),
            ReflacError::MissingInput(track) => numbered("Missing INPUT for track: ", *track),
            ReflacError::NoFlacFilesFound(path) => described(
                "No FLAC files found: ",
                path.as_str(),
            ),
            ReflacError::PathDoesNotExist(path) => described(
                "Path does not exist: ",
                path.as_str(),
            ),
            ReflacError::SubprocessError(tool) => described("Failure executing: ", tool),
            ReflacError::UnknownArchiveType(ext) => described(
                "Unknown archive type: ",
                ext.as_str(),
            ),
            ReflacError::MissingAlbum => String::from_str("Missing ALBUM"),
            ReflacError::InvalidPattern(pattern) => described(
                "Invalid pattern: ",
                pattern.as_str(),
            ),
        }
    }
}

} // verus!
