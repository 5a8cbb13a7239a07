//! The command lines of the tools that do the work: the decoder and the
//! encoder, the archive extractors, the picture exporter and the loudness
//! tagger.

use vstd::prelude::*;
use vstd::string::*;
use crate::error::{ErrorView, ReflacError};
use crate::tag::{text_view, Date, Tag, TagView};
use crate::text::{
    decimal_digits, push_decimal, push_text, push_zero_padded, same_text, slice_view, texts,
    zero_padded,
};

verus! {

/// A tool and the arguments that it is started with.
#[derive(Debug)]
pub struct Command {
    pub program: &'static str,
    pub args: Vec<String>,
}

/// A `Command` as mathematics sees it.
pub struct CommandView {
    pub program: Seq<char>,
    pub args: Seq<Seq<char>>,
}

impl View for Command {
    type V = CommandView;

    open spec fn view(&self) -> CommandView {
        CommandView { program: self.program@, args: texts(self.args@) }
    }
}

/// The kinds of archive that can be unpacked.
#[derive(Clone, Copy, PartialEq, Eq, Debug, Structural)]
pub enum ArchiveKind {
    Zip,
    Rar,
    SevenZip,
}

/// The kind of archive that a file extension stands for.
pub open spec fn archive_kind_of(extension: Seq<char>) -> Option<ArchiveKind> {
    if extension == "zip"@ {
        Some(ArchiveKind::Zip)
    } else if extension == "rar"@ {
        Some(ArchiveKind::Rar)
    } else if extension == "7z"@ {
        Some(ArchiveKind::SevenZip)
    } else {
        None
    }
}

/// The command that unpacks `archive` into the directory `out_dir`.
pub open spec fn extract_command_of(
    kind: ArchiveKind,
    archive: Seq<char>,
    out_dir: Seq<char>,
) -> CommandView {
    match kind {
        ArchiveKind::Zip => CommandView {
            program: "unzip"@,
            args: seq![archive, "-d"@, out_dir],
        },
        ArchiveKind::Rar => CommandView { program: "unrar"@, args: seq!["x"@, archive, out_dir] },
        ArchiveKind::SevenZip => CommandView {
            program: "7za"@,
            args: seq!["x"@, "-o"@ + out_dir, archive],
        },
    }
}

/// What unpacking a file with this extension takes: nothing for a file
/// without extension, the extractor's command for a known archive, and an
/// error that names the extension for any other.
pub open spec fn extraction_of(
    extension: Option<Seq<char>>,
    archive: Seq<char>,
    out_dir: Seq<char>,
) -> Result<Option<CommandView>, ErrorView> {
    match extension {
        None => Ok(None),
        Some(ext) => match archive_kind_of(ext) {
            Some(kind) => Ok(Some(extract_command_of(kind, archive, out_dir))),
            None => Err(ErrorView::UnknownArchiveType(ext)),
        },
    }
}

/// The command that decodes `in_path` to its standard output.
pub open spec fn decode_command_of(in_path: Seq<char>) -> CommandView {
    CommandView { program: "flac"@, args: seq!["--decode"@, "--stdout"@, in_path] }
}

/// The argument that sets the tag `name` to `value`.
pub open spec fn tag_argument(name: Seq<char>, value: Seq<char>) -> Seq<char> {
    "--tag="@ + name + "="@ + value
}

/// The argument for a tag that may be absent.
pub open spec fn optional_tag(name: Seq<char>, value: Option<Seq<char>>) -> Seq<Seq<char>> {
    match value {
        Some(v) => seq![tag_argument(name, v)],
        None => Seq::empty(),
    }
}

/// A date as `YYYY-MM-DD`.
pub open spec fn date_text(date: Date) -> Seq<char> {
    zero_padded(date.year as nat, 4) + "-"@ + zero_padded(date.month as nat, 2) + "-"@
        + zero_padded(date.day as nat, 2)
}

/// The number of an optional numeric tag, in decimal.
pub open spec fn number_text(n: Option<nat>) -> Option<Seq<char>> {
    match n {
        Some(k) => Some(decimal_digits(k)),
        None => None,
    }
}

/// The text of an optional date.
pub open spec fn optional_date_text(date: Option<Date>) -> Option<Seq<char>> {
    match date {
        Some(d) => Some(date_text(d)),
        None => None,
    }
}

/// The argument that embeds a picture, where there is one.
pub open spec fn picture_argument(cover: Option<Seq<char>>) -> Seq<Seq<char>> {
    match cover {
        Some(path) => seq!["--picture="@ + path],
        None => Seq::empty(),
    }
}

/// The arguments of the encoder: the strongest compression, one argument for
/// each tag that is present, the picture where there is one, the output
/// path, and `-` for the standard input.
pub open spec fn encode_arguments(tag: TagView, cover: Option<Seq<char>>, out_path: Seq<char>) -> Seq<
    Seq<char>,
> {
    seq!["--best"@, "--exhaustive-model-search"@, "--qlp-coeff-precision-search"@]
        + optional_tag("TITLE"@, tag.title) + optional_tag("ARTIST"@, tag.artist) + optional_tag(
        "LYRICIST"@,
        tag.lyricist,
    ) + optional_tag("COMPOSER"@, tag.composer) + optional_tag("ARRANGER"@, tag.arranger)
        + optional_tag("ALBUM"@, tag.album) + optional_tag("TRACKNUMBER"@, number_text(tag.track))
        + optional_tag("DISCNUMBER"@, number_text(tag.disc)) + optional_tag("GENRE"@, tag.genre)
        + optional_tag("DATE"@, optional_date_text(tag.date)) + optional_tag("LABEL"@, tag.label)
        + optional_tag("COMMENT"@, tag.comment) + picture_argument(cover) + seq![
        "--output-name="@ + out_path,
        "-"@,
    ]
}

/// The command that encodes its standard input to `out_path`.
pub open spec fn encode_command_of(
    tag: TagView,
    cover: Option<Seq<char>>,
    out_path: Seq<char>,
) -> CommandView {
    CommandView { program: "flac"@, args: encode_arguments(tag, cover, out_path) }
}

/// The command that writes the picture embedded in `path` to its standard
/// output.
pub open spec fn export_picture_command_of(path: Seq<char>) -> CommandView {
    CommandView { program: "metaflac"@, args: seq!["--export-picture-to=-"@, path] }
}

/// The command that adds loudness tags to all the files at once.
pub open spec fn replay_gain_command_of(paths: Seq<Seq<char>>) -> CommandView {
    CommandView { program: "metaflac"@, args: seq!["--add-replay-gain"@] + paths }
}

/// The kind of archive that a file extension stands for.
pub fn archive_kind(extension: &str) -> (r: Option<ArchiveKind>)
    ensures
        r == archive_kind_of(extension@),
{
    if same_text(extension, "zip") {
        Some(ArchiveKind::Zip)
    } else if same_text(extension, "rar") {
        Some(ArchiveKind::Rar)
    } else if same_text(extension, "7z") {
        Some(ArchiveKind::SevenZip)
    } else {
        None
    }
}

fn joined(a: &str, b: &str) -> (r: String)
    ensures
        r@ == a@ + b@,
{
    let mut out = String::from_str(a);
    out.append(b);
    out
}

/// The command that unpacks `archive` into the directory `out_dir`.
pub fn extract_command(kind: ArchiveKind, archive: &str, out_dir: &str) -> (r: Command)
    ensures
        r@ == extract_command_of(kind, archive@, out_dir@),
{
    let mut args: Vec<String> = Vec::new();
    assert(texts(args@) =~= Seq::empty());
    let program = match kind {
        ArchiveKind::Zip => {
            push_text(&mut args, String::from_str(archive));
            push_text(&mut args, String::from_str("-d"));
            push_text(&mut args, String::from_str(out_dir));
            "unzip"
        },
        ArchiveKind::Rar => {
            push_text(&mut args, String::from_str("x"));
            push_text(&mut args, String::from_str(archive));
            push_text(&mut args, String::from_str(out_dir));
            "unrar"
        },
        ArchiveKind::SevenZip => {
            push_text(&mut args, String::from_str("x"));
            push_text(&mut args, joined("-o", out_dir));
            push_text(&mut args, String::from_str(archive));
            "7za"
        },
    };
    assert(texts(args@) =~= extract_command_of(kind, archive@, out_dir@).args);
    Command { program, args }
}

/// What unpacking the file `archive` with this extension takes.
pub fn extraction(extension: Option<&str>, archive: &str, out_dir: &str) -> (r: Result<
    Option<Command>,
    ReflacError,
>)
    ensures
        match r {
            Ok(Some(command)) => extraction_of(slice_view(extension), archive@, out_dir@) == Ok::<
                Option<CommandView>,
                ErrorView,
            >(Some(command@)),
            Ok(None) => extension is None,
            Err(e) => extension is Some && archive_kind_of(extension->0@) is None && e@
                == ErrorView::UnknownArchiveType(extension->0@),
        },
{
    match extension {
        None => Ok(None),
        Some(ext) => match archive_kind(ext) {
            Some(kind) => Ok(Some(extract_command(kind, archive, out_dir))),
            None => Err(ReflacError::UnknownArchiveType(String::from_str(ext))),
        },
    }
}

/// The command that decodes `in_path` to its standard output.
pub fn decode_command(in_path: &str) -> (r: Command)
    ensures
        r@ == decode_command_of(in_path@),
{
    let mut args: Vec<String> = Vec::new();
    assert(texts(args@) =~= Seq::empty());
    push_text(&mut args, String::from_str("--decode"));
    push_text(&mut args, String::from_str("--stdout"));
    push_text(&mut args, String::from_str(in_path));
    assert(texts(args@) =~= decode_command_of(in_path@).args);
    Command { program: "flac", args }
}

fn push_tag(args: &mut Vec<String>, name: &str, value: &str)
    ensures
        texts(final(args)@) == texts(old(args)@) + seq![tag_argument(name@, value@)],
{
    let mut arg = String::from_str("--tag=");
    arg.append(name);
    arg.append("=");
    arg.append(value);
    assert(arg@ =~= tag_argument(name@, value@));
    push_text(args, arg);
    assert(texts(args@) =~= texts(old(args)@) + seq![tag_argument(name@, value@)]);
}

fn push_optional_tag(args: &mut Vec<String>, name: &str, value: &Option<String>)
    ensures
        texts(final(args)@) == texts(old(args)@) + optional_tag(name@, text_view(*value)),
{
    match value {
        Some(v) => {
            push_tag(args, name, v.as_str());
        },
        None => {
            assert(texts(args@) =~= texts(old(args)@) + Seq::<Seq<char>>::empty());
        },
    }
}

fn push_number_tag(args: &mut Vec<String>, name: &str, value: Option<usize>)
    ensures
        texts(final(args)@) == texts(old(args)@) + optional_tag(
            name@,
            number_text(crate::tag::number_view(value)),
        ),
{
    match value {
        Some(n) => {
            let mut digits = String::new();
            push_decimal(&mut digits, n);
            assert(digits@ =~= decimal_digits(n as nat));
            push_tag(args, name, digits.as_str());
        },
        None => {
            assert(texts(args@) =~= texts(old(args)@) + Seq::<Seq<char>>::empty());
        },
    }
}

/// A date as `YYYY-MM-DD`.
pub fn format_date(date: Date) -> (r: String)
    ensures
        r@ == date_text(date),
{
    let mut out = String::new();
    push_zero_padded(&mut out, date.year as usize, 4);
    out.append("-");
    push_zero_padded(&mut out, date.month as usize, 2);
    out.append("-");
    push_zero_padded(&mut out, date.day as usize, 2);
    assert(out@ =~= date_text(date));
    out
}

/// The command that encodes its standard input to `out_path`, with the tags
/// of `tag` and, where there is one, the picture at `cover`.
pub fn encode_command(tag: &Tag, cover: Option<&str>, out_path: &str) -> (r: Command)
    ensures
        r@ == encode_command_of(tag@, slice_view(cover), out_path@),
{
    let ghost cover_text = slice_view(cover);
    let mut args: Vec<String> = Vec::new();
    assert(texts(args@) =~= Seq::empty());
    push_text(&mut args, String::from_str("--best"));
    push_text(&mut args, String::from_str("--exhaustive-model-search"));
    push_text(&mut args, String::from_str("--qlp-coeff-precision-search"));
    assert(texts(args@) =~= seq![
        "--best"@,
        "--exhaustive-model-search"@,
        "--qlp-coeff-precision-search"@,
    ]);
    push_optional_tag(&mut args, "TITLE", &tag.title);
    push_optional_tag(&mut args, "ARTIST", &tag.artist);
    push_optional_tag(&mut args, "LYRICIST", &tag.lyricist);
    push_optional_tag(&mut args, "COMPOSER", &tag.composer);
    push_optional_tag(&mut args, "ARRANGER", &tag.arranger);
    push_optional_tag(&mut args, "ALBUM", &tag.album);
    push_number_tag(&mut args, "TRACKNUMBER", tag.track);
    push_number_tag(&mut args, "DISCNUMBER", tag.disc);
    push_optional_tag(&mut args, "GENRE", &tag.genre);
    let ghost before_date = texts(args@);
    match tag.date {
        Some(date) => {
            let text = format_date(date);
            push_tag(&mut args, "DATE", text.as_str());
        },
        None => {},
    }
    assert(texts(args@) =~= before_date + optional_tag("DATE"@, optional_date_text(tag@.date)));
    push_optional_tag(&mut args, "LABEL", &tag.label);
    push_optional_tag(&mut args, "COMMENT", &tag.comment);
    let ghost before_picture = texts(args@);
    match cover {
        Some(path) => {
            push_text(&mut args, joined("--picture=", path));
        },
        None => {},
    }
    assert(texts(args@) =~= before_picture + picture_argument(cover_text));
    let ghost before_output = texts(args@);
    push_text(&mut args, joined("--output-name=", out_path));
    push_text(&mut args, String::from_str("-"));
    assert(texts(args@) =~= before_output + seq!["--output-name="@ + out_path@, "-"@]);
    Command { program: "flac", args }
}

/// The command that writes the picture embedded in `path` to its standard
/// output.
pub fn export_picture_command(path: &str) -> (r: Command)
    ensures
        r@ == export_picture_command_of(path@),
{
    let mut args: Vec<String> = Vec::new();
    assert(texts(args@) =~= Seq::empty());
    push_text(&mut args, String::from_str("--export-picture-to=-"));
    push_text(&mut args, String::from_str(path));
    assert(texts(args@) =~= export_picture_command_of(path@).args);
    Command { program: "metaflac", args }
}

/// The command that adds loudness tags to all the files at once.
pub fn replay_gain_command(paths: &Vec<String>) -> (r: Command)
    ensures
        r@ == replay_gain_command_of(texts(paths@)),
{
    let mut args: Vec<String> = Vec::new();
    assert(texts(args@) =~= Seq::empty());
    push_text(&mut args, String::from_str("--add-replay-gain"));
    let mut i: usize = 0;
    while i < paths.len()
        invariant
            i <= paths@.len(),
            texts(args@) == seq!["--add-replay-gain"@] + texts(paths@).subrange(0, i as int),
        decreases paths@.len() - i,
    {
        push_text(&mut args, paths[i].clone());
        i += 1;
        assert(texts(args@) =~= seq!["--add-replay-gain"@] + texts(paths@).subrange(
            0,
            i as int,
        ));
    }
    assert(texts(paths@).subrange(0, i as int) =~= texts(paths@));
    Command { program: "metaflac", args }
}

/// The error of a command that did not end successfully: it names the tool.
pub fn failure_of(command: &Command) -> (r: ReflacError)
    ensures
        r@ == ErrorView::SubprocessError(command@.program),
{
    ReflacError::SubprocessError(command.program)
}

} // verus!
