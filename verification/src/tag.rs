//! Tag records: what is known about one track.

use vstd::prelude::*;
use vstd::string::*;
use crate::text::{
    decimal_digits, push_decimal, push_without_slashes, push_zero_padded, without_slashes,
    zero_padded,
};

verus! {

/// The fields that a line of a track-info file can set.
#[derive(Clone, Copy, PartialEq, Eq, Debug, Structural)]
pub enum Field {
    Input,
    Title,
    Artist,
    Lyricist,
    Composer,
    Arranger,
    Album,
    Disc,
    Genre,
    Date,
    Label,
    Comment,
    Cover,
}

/// A calendar date as written in a track-info file.
#[derive(Clone, Copy, PartialEq, Eq, Debug, Structural)]
pub struct Date {
    pub year: u32,
    pub month: u32,
    pub day: u32,
}

/// The value that a line gives to a field.
#[derive(Debug)]
pub enum Value {
    Text(String),
    Number(usize),
    Date(Date),
}

/// A `Value` as mathematics sees it.
pub enum ValueView {
    Text(Seq<char>),
    Number(nat),
    Date(Date),
}

impl View for Value {
    type V = ValueView;

    open spec fn view(&self) -> ValueView {
        match *self {
            Value::Text(s) => ValueView::Text(s@),
            Value::Number(n) => ValueView::Number(n as nat),
            Value::Date(d) => ValueView::Date(d),
        }
    }
}

/// What is known about one track. The running default of a track-info file
/// is a tag without a track number.
#[derive(Debug)]
pub struct Tag {
    pub input: Option<String>,
    pub title: Option<String>,
    pub artist: Option<String>,
    pub lyricist: Option<String>,
    pub composer: Option<String>,
    pub arranger: Option<String>,
    pub album: Option<String>,
    pub track: Option<usize>,
    pub disc: Option<usize>,
    pub genre: Option<String>,
    pub date: Option<Date>,
    pub label: Option<String>,
    pub comment: Option<String>,
    pub cover: Option<String>,
}

/// A `Tag` as mathematics sees it: texts are sequences of characters and
/// numbers are natural numbers.
pub struct TagView {
    pub input: Option<Seq<char>>,
    pub title: Option<Seq<char>>,
    pub artist: Option<Seq<char>>,
    pub lyricist: Option<Seq<char>>,
    pub composer: Option<Seq<char>>,
    pub arranger: Option<Seq<char>>,
    pub album: Option<Seq<char>>,
    pub track: Option<nat>,
    pub disc: Option<nat>,
    pub genre: Option<Seq<char>>,
    pub date: Option<Date>,
    pub label: Option<Seq<char>>,
    pub comment: Option<Seq<char>>,
    pub cover: Option<Seq<char>>,
}

/// The view of an optional text.
pub open spec fn text_view(t: Option<String>) -> Option<Seq<char>> {
    match t {
        Some(s) => Some(s@),
        None => None,
    }
}

/// The view of an optional number.
pub open spec fn number_view(n: Option<usize>) -> Option<nat> {
    match n {
        Some(k) => Some(k as nat),
        None => None,
    }
}

impl View for Tag {
    type V = TagView;

    open spec fn view(&self) -> TagView {
        TagView {
            input: text_view(self.input),
            title: text_view(self.title),
            artist: text_view(self.artist),
            lyricist: text_view(self.lyricist),
            composer: text_view(self.composer),
            arranger: text_view(self.arranger),
            album: text_view(self.album),
            track: number_view(self.track),
            disc: number_view(self.disc),
            genre: text_view(self.genre),
            date: self.date,
            label: text_view(self.label),
            comment: text_view(self.comment),
            cover: text_view(self.cover),
        }
    }
}

/// Whether `value` is of the kind that `field` holds: a number for the disc,
/// a date for the date, text for every other field.
pub open spec fn fits(field: Field, value: ValueView) -> bool {
    match field {
        Field::Disc => value is Number,
        Field::Date => value is Date,
        _ => value is Text,
    }
}

impl TagView {
    /// The tag in which nothing is known.
    pub open spec fn empty() -> TagView {
        TagView {
            input: None,
            title: None,
            artist: None,
            lyricist: None,
            composer: None,
            arranger: None,
            album: None,
            track: None,
            disc: None,
            genre: None,
            date: None,
            label: None,
            comment: None,
            cover: None,
        }
    }

    /// What the tag holds in `field`.
    pub open spec fn get(self, field: Field) -> Option<ValueView> {
        match field {
            Field::Input => as_text(self.input),
            Field::Title => as_text(self.title),
            Field::Artist => as_text(self.artist),
            Field::Lyricist => as_text(self.lyricist),
            Field::Composer => as_text(self.composer),
            Field::Arranger => as_text(self.arranger),
            Field::Album => as_text(self.album),
            Field::Disc => match self.disc {
                Some(n) => Some(ValueView::Number(n)),
                None => None,
            },
            Field::Genre => as_text(self.genre),
            Field::Date => match self.date {
                Some(d) => Some(ValueView::Date(d)),
                None => None,
            },
            Field::Label => as_text(self.label),
            Field::Comment => as_text(self.comment),
            Field::Cover => as_text(self.cover),
        }
    }

    /// The tag with `field` set to `value`. A value of the wrong kind for the
    /// field changes nothing.
    pub open spec fn with(self, field: Field, value: ValueView) -> TagView {
        match (field, value) {
            (Field::Input, ValueView::Text(s)) => TagView { input: Some(s), ..self },
            (Field::Title, ValueView::Text(s)) => TagView { title: Some(s), ..self },
            (Field::Artist, ValueView::Text(s)) => TagView { artist: Some(s), ..self },
            (Field::Lyricist, ValueView::Text(s)) => TagView { lyricist: Some(s), ..self },
            (Field::Composer, ValueView::Text(s)) => TagView { composer: Some(s), ..self },
            (Field::Arranger, ValueView::Text(s)) => TagView { arranger: Some(s), ..self },
            (Field::Album, ValueView::Text(s)) => TagView { album: Some(s), ..self },
            (Field::Disc, ValueView::Number(n)) => TagView { disc: Some(n), ..self },
            (Field::Genre, ValueView::Text(s)) => TagView { genre: Some(s), ..self },
            (Field::Date, ValueView::Date(d)) => TagView { date: Some(d), ..self },
            (Field::Label, ValueView::Text(s)) => TagView { label: Some(s), ..self },
            (Field::Comment, ValueView::Text(s)) => TagView { comment: Some(s), ..self },
            (Field::Cover, ValueView::Text(s)) => TagView { cover: Some(s), ..self },
            _ => self,
        }
    }

    /// The tag with its track number set to `n`.
    pub open spec fn with_track(self, n: nat) -> TagView {
        TagView { track: Some(n), ..self }
    }

    /// The names in the file name: the artist and the title where both are
    /// known, the one that is known, or nothing.
    pub open spec fn name_part(self) -> Seq<char> {
        match (self.artist, self.title) {
            (Some(artist), Some(title)) => artist + " - "@ + title,
            (Some(artist), None) => artist,
            (None, Some(title)) => title,
            (None, None) => Seq::empty(),
        }
    }

    /// The name of the track's output file: the track number padded with
    /// zeros to `padding` digits, a dot and a space, the names and the
    /// extension, with every `/` replaced by `_`. The dot and the space
    /// follow the number also where no name is known.
    pub open spec fn file_name(self, padding: nat) -> Seq<char> {
        without_slashes(
            zero_padded(self.track->0, padding) + ". "@ + self.name_part() + ".flac"@,
        )
    }

    /// The directory, relative to the album, that holds the track's output
    /// file: one per disc where the disc is known.
    pub open spec fn disc_prefix(self) -> Seq<char> {
        match self.disc {
            Some(disc) => disc_dir_name(disc) + "/"@,
            None => Seq::empty(),
        }
    }

    /// The track's output path relative to the album directory.
    pub open spec fn output_path(self, padding: nat) -> Seq<char> {
        self.disc_prefix() + self.file_name(padding)
    }
}

/// No `/` is left in the name of an output file, whatever the artist and the
/// title hold, and the name is as long as it was before the replacement.
pub proof fn lemma_file_name_has_no_slash(tag: TagView, padding: nat)
    ensures
        forall|i: int|
            0 <= i < tag.file_name(padding).len() ==> tag.file_name(padding)[i] != '/',
        tag.file_name(padding).len() == (zero_padded(tag.track->0, padding) + ". "@
            + tag.name_part() + ".flac"@).len(),
{
}

/// The name of the directory of disc `disc`.
pub open spec fn disc_dir_name(disc: nat) -> Seq<char> {
    "Disc "@ + decimal_digits(disc)
}

/// A text as a value.
pub open spec fn as_text(t: Option<Seq<char>>) -> Option<ValueView> {
    match t {
        Some(s) => Some(ValueView::Text(s)),
        None => None,
    }
}

/// A copy of an optional text.
pub fn copy_text(t: &Option<String>) -> (r: Option<String>)
    ensures
        r == *t,
{
    match t {
        Some(s) => Some(s.clone()),
        None => None,
    }
}

impl Clone for Tag {
    fn clone(&self) -> (r: Tag)
        ensures
            r == *self,
    {
        Tag {
            input: copy_text(&self.input),
            title: copy_text(&self.title),
            artist: copy_text(&self.artist),
            lyricist: copy_text(&self.lyricist),
            composer: copy_text(&self.composer),
            arranger: copy_text(&self.arranger),
            album: copy_text(&self.album),
            track: self.track,
            disc: self.disc,
            genre: copy_text(&self.genre),
            date: self.date,
            label: copy_text(&self.label),
            comment: copy_text(&self.comment),
            cover: copy_text(&self.cover),
        }
    }
}

impl Tag {
    /// A tag in which nothing is known.
    pub fn new() -> (r: Tag)
        ensures
            r@ == TagView::empty(),
    {
        Tag {
            input: None,
            title: None,
            artist: None,
            lyricist: None,
            composer: None,
            arranger: None,
            album: None,
            track: None,
            disc: None,
            genre: None,
            date: None,
            label: None,
            comment: None,
            cover: None,
        }
    }

    /// Sets `field` to `value`. A value of the wrong kind for the field
    /// changes nothing.
    pub fn set(&mut self, field: Field, value: Value)
        ensures
            final(self)@ == old(self)@.with(field, value@),
    {
        match (field, value) {
            (Field::Input, Value::Text(s)) => {
                self.input = Some(s);
            },
            (Field::Title, Value::Text(s)) => {
                self.title = Some(s);
            },
            (Field::Artist, Value::Text(s)) => {
                self.artist = Some(s);
            },
            (Field::Lyricist, Value::Text(s)) => {
                self.lyricist = Some(s);
            },
            (Field::Composer, Value::Text(s)) => {
                self.composer = Some(s);
            },
            (Field::Arranger, Value::Text(s)) => {
                self.arranger = Some(s);
            },
            (Field::Album, Value::Text(s)) => {
                self.album = Some(s);
            },
            (Field::Disc, Value::Number(n)) => {
                self.disc = Some(n);
            },
            (Field::Genre, Value::Text(s)) => {
                self.genre = Some(s);
            },
            (Field::Date, Value::Date(d)) => {
                self.date = Some(d);
            },
            (Field::Label, Value::Text(s)) => {
                self.label = Some(s);
            },
            (Field::Comment, Value::Text(s)) => {
                self.comment = Some(s);
            },
            (Field::Cover, Value::Text(s)) => {
                self.cover = Some(s);
            },
            _ => {},
        }
    }

    /// The track's output path relative to the album directory, with `/`
    /// between the disc directory and the file name.
    pub fn output_path(&self, padding: usize) -> (r: String)
        requires
            self.track is Some,
        ensures
            r@ == self@.output_path(padding as nat),
    {
        let mut name = String::new();
        push_zero_padded(&mut name, self.track.unwrap(), padding);
        name.append(". ");
        match (&self.artist, &self.title) {
            (Some(artist), Some(title)) => {
                name.append(artist.as_str());
                name.append(" - ");
                name.append(title.as_str());
            },
            (Some(artist), None) => {
                name.append(artist.as_str());
            },
            (None, Some(title)) => {
                name.append(title.as_str());
            },
            (None, None) => {},
        }
        name.append(".flac");
        let mut path = String::new();
        if let Some(disc) = self.disc {
            path.append("Disc ");
            push_decimal(&mut path, disc);
            path.append("/");
        }
        push_without_slashes(&mut path, name.as_str());
        assert(name@ =~= zero_padded(self@.track->0, padding as nat) + ". "@
            + self@.name_part() + ".flac"@);
        assert(path@ =~= self@.output_path(padding as nat));
        path
    }
}

} // verus!
