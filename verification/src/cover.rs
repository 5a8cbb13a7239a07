//! Covers: a picture file is used as it is, an audio file gives up the
//! picture that is embedded in it.

use vstd::prelude::*;
use vstd::string::*;
use crate::command::{export_picture_command, export_picture_command_of, Command, CommandView};
use crate::error::{ErrorView, ReflacError};
use crate::text::{same_text, slice_view};

verus! {

/// What to do about a cover.
#[derive(Debug)]
pub enum CoverAction {
    /// The file at this path is the picture.
    Use(String),
    /// Run this command and keep its standard output as the picture.
    Export(Command),
}

/// A `CoverAction` as mathematics sees it.
pub enum CoverActionView {
    Use(Seq<char>),
    Export(CommandView),
}

impl View for CoverAction {
    type V = CoverActionView;

    open spec fn view(&self) -> CoverActionView {
        match *self {
            CoverAction::Use(path) => CoverActionView::Use(path@),
            CoverAction::Export(command) => CoverActionView::Export(command@),
        }
    }
}

/// What to do about the cover at `path`: nothing exists there, it is an
/// audio file by its extension, or it is taken for a picture.
pub open spec fn cover_action_of(path: Seq<char>, exists: bool, extension: Option<Seq<char>>) -> Result<
    CoverActionView,
    ErrorView,
> {
    if !exists {
        Err(ErrorView::PathDoesNotExist(path))
    } else if extension == Some("flac"@) {
        Ok(CoverActionView::Export(export_picture_command_of(path)))
    } else {
        Ok(CoverActionView::Use(path))
    }
}

/// The view of a decision about a cover.
pub open spec fn decision_view(r: Result<CoverAction, ReflacError>) -> Result<
    CoverActionView,
    ErrorView,
> {
    match r {
        Ok(action) => Ok(action@),
        Err(e) => Err(e@),
    }
}

/// Decides what to do about the cover at `path`, given whether anything
/// exists there and the extension of its file name.
pub fn cover_action(path: &str, exists: bool, extension: Option<&str>) -> (r: Result<
    CoverAction,
    ReflacError,
>)
    ensures
        decision_view(r) == cover_action_of(path@, exists, slice_view(extension)),
{
    if !exists {
        return Err(ReflacError::PathDoesNotExist(String::from_str(path)));
    }
    let audio = match extension {
        Some(e) => same_text(e, "flac"),
        None => false,
    };
    if audio {
        Ok(CoverAction::Export(export_picture_command(path)))
    } else {
        Ok(CoverAction::Use(String::from_str(path)))
    }
}

/// What is said when the picture cannot be exported.
pub open spec fn export_failure_of(path: Seq<char>) -> Seq<char> {
    "ERROR! Failed to extract cover from "@ + path + "!"@
}

/// What is said when the picture of the file at `path` cannot be exported.
pub fn export_failure(path: &str) -> (r: String)
    ensures
        r@ == export_failure_of(path@),
{
    let mut out = String::from_str("ERROR! Failed to extract cover from ");
    out.append(path);
    out.append("!");
    assert(out@ =~= export_failure_of(path@));
    out
}

} // verus!
