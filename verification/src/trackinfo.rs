//! The track-info file: one field per line, for the whole album or for one
//! track, merged in the order of the lines into one tag per track.

use vstd::prelude::*;
use crate::error::{ErrorView, ReflacError};
use crate::pattern::{find, groups_view, regex_compiles, regex_groups};
use crate::tag::{Date, Field, Tag, TagView, Value, ValueView};
use crate::text::{chars_of, parse_decimal, parsed_decimal, string_of, trim, trimmed};

verus! {

/// What one line says: a value for a field, of the track named in brackets
/// or, without brackets, of every track created later.
#[derive(Debug)]
pub struct Entry {
    pub track: Option<usize>,
    pub field: Field,
    pub value: Value,
}

/// An `Entry` as mathematics sees it.
pub struct EntryView {
    pub track: Option<nat>,
    pub field: Field,
    pub value: ValueView,
}

impl View for Entry {
    type V = EntryView;

    open spec fn view(&self) -> EntryView {
        EntryView {
            track: match self.track {
                Some(n) => Some(n as nat),
                None => None,
            },
            field: self.field,
            value: self.value@,
        }
    }
}

/// The fields in the order in which a line is tried against them.
pub open spec fn field_order() -> Seq<Field> {
    seq![
        Field::Input,
        Field::Title,
        Field::Artist,
        Field::Lyricist,
        Field::Composer,
        Field::Arranger,
        Field::Album,
        Field::Disc,
        Field::Genre,
        Field::Date,
        Field::Label,
        Field::Comment,
        Field::Cover,
    ]
}

/// The regular expression of a field's lines: the name, an optional track
/// number in brackets, `=`, and the value.
pub open spec fn pattern_of(field: Field) -> Seq<char> {
    match field {
        Field::Input => r"INPUT(?:\[(\d+)\])?=(.*)"@,
        Field::Title => r"TITLE(?:\[(\d+)\])?=(.*)"@,
        Field::Artist => r"ARTIST(?:\[(\d+)\])?=(.*)"@,
        Field::Lyricist => r"LYRICIST(?:\[(\d+)\])?=(.*)"@,
        Field::Composer => r"COMPOSER(?:\[(\d+)\])?=(.*)"@,
        Field::Arranger => r"ARRANGER(?:\[(\d+)\])?=(.*)"@,
        Field::Album => r"ALBUM(?:\[(\d+)\])?=(.*)"@,
        Field::Disc => r"DISC(?:\[(\d+)\])?=(\d+)"@,
        Field::Genre => r"GENRE(?:\[(\d+)\])?=(.*)"@,
        Field::Date => r"DATE(?:\[(\d+)\])?=(\d\d\d\d)-(\d\d)-(\d\d)"@,
        Field::Label => r"LABEL(?:\[(\d+)\])?=(.*)"@,
        Field::Comment => r"COMMENT(?:\[(\d+)\])?=(.*)"@,
        Field::Cover => r"COVER(?:\[(\d+)\])?=(.*)"@,
    }
}

/// How many capture groups a match of the field's pattern has, the whole
/// match included.
pub open spec fn group_count(field: Field) -> nat {
    if field == Field::Date {
        5
    } else {
        3
    }
}

/// Whether the field's text is kept as written. The text of every other text
/// field loses the white space at its ends.
pub open spec fn kept_as_written(field: Field) -> bool {
    field == Field::Input || field == Field::Cover
}

/// The track that the bracket group names: `Some(None)` without brackets,
/// `Some(Some(n))` for a number that fits, `None` for one that does not.
pub open spec fn track_of_group(group: Option<Seq<char>>) -> Option<Option<nat>> {
    match group {
        None => Some(None),
        Some(digits) => match parsed_decimal(digits, usize::MAX as nat) {
            Some(n) => Some(Some(n)),
            None => None,
        },
    }
}

/// The number that a group holds, up to `max`.
pub open spec fn number_of_group(group: Option<Seq<char>>, max: nat) -> Option<nat> {
    match group {
        Some(digits) => parsed_decimal(digits, max),
        None => None,
    }
}

/// The value that the groups give to `field`, and whether white space was
/// taken off its ends. `None` where a group is missing or a number is out of
/// range.
pub open spec fn value_of_groups(field: Field, groups: Seq<Option<Seq<char>>>) -> Option<
    (ValueView, bool),
> {
    if field == Field::Date {
        match (
            number_of_group(groups[2], u32::MAX as nat),
            number_of_group(groups[3], u32::MAX as nat),
            number_of_group(groups[4], u32::MAX as nat),
        ) {
            (Some(year), Some(month), Some(day)) => Some(
                (
                    ValueView::Date(
                        Date { year: year as u32, month: month as u32, day: day as u32 },
                    ),
                    false,
                ),
            ),
            _ => None,
        }
    } else if field == Field::Disc {
        match number_of_group(groups[2], usize::MAX as nat) {
            Some(n) => Some((ValueView::Number(n), false)),
            None => None,
        }
    } else {
        match groups[2] {
            Some(text) => if kept_as_written(field) {
                Some((ValueView::Text(text), false))
            } else {
                Some((ValueView::Text(trimmed(text)), trimmed(text) != text))
            },
            None => None,
        }
    }
}

/// What a match of the field's pattern says: the entry, and whether white
/// space was taken off the value. `None` where the groups are not those of
/// the pattern or hold a number that is out of range.
pub open spec fn entry_of_groups(field: Field, groups: Seq<Option<Seq<char>>>) -> Option<
    (EntryView, bool),
> {
    if groups.len() != group_count(field) {
        None
    } else {
        match (track_of_group(groups[1]), value_of_groups(field, groups)) {
            (Some(track), Some((value, cut))) => Some((EntryView { track, field, value }, cut)),
            _ => None,
        }
    }
}

/// The view of an interpreted match.
pub open spec fn interpreted_view(r: Option<(Entry, bool)>) -> Option<(EntryView, bool)> {
    match r {
        Some((entry, cut)) => Some((entry@, cut)),
        None => None,
    }
}

impl Field {
    /// The regular expression of the field's lines.
    pub fn pattern(self) -> (r: &'static str)
        ensures
            r@ == pattern_of(self),
    {
        match self {
            Field::Input => r"INPUT(?:\[(\d+)\])?=(.*)",
            Field::Title => r"TITLE(?:\[(\d+)\])?=(.*)",
            Field::Artist => r"ARTIST(?:\[(\d+)\])?=(.*)",
            Field::Lyricist => r"LYRICIST(?:\[(\d+)\])?=(.*)",
            Field::Composer => r"COMPOSER(?:\[(\d+)\])?=(.*)",
            Field::Arranger => r"ARRANGER(?:\[(\d+)\])?=(.*)",
            Field::Album => r"ALBUM(?:\[(\d+)\])?=(.*)",
            Field::Disc => r"DISC(?:\[(\d+)\])?=(\d+)",
            Field::Genre => r"GENRE(?:\[(\d+)\])?=(.*)",
            Field::Date => r"DATE(?:\[(\d+)\])?=(\d\d\d\d)-(\d\d)-(\d\d)",
            Field::Label => r"LABEL(?:\[(\d+)\])?=(.*)",
            Field::Comment => r"COMMENT(?:\[(\d+)\])?=(.*)",
            Field::Cover => r"COVER(?:\[(\d+)\])?=(.*)",
        }
    }

    /// The field at place `k` of the order in which a line is tried.
    fn at(k: usize) -> (r: Field)
        requires
            k < 13,
        ensures
            r == field_order()[k as int],
    {
        match k {
            0 => Field::Input,
            1 => Field::Title,
            2 => Field::Artist,
            3 => Field::Lyricist,
            4 => Field::Composer,
            5 => Field::Arranger,
            6 => Field::Album,
            7 => Field::Disc,
            8 => Field::Genre,
            9 => Field::Date,
            10 => Field::Label,
            11 => Field::Comment,
            _ => Field::Cover,
        }
    }
}

fn group_number(group: &Option<String>, max: u64) -> (r: Option<u64>)
    ensures
        match r {
            Some(n) => number_of_group(crate::tag::text_view(*group), max as nat) == Some(n as nat),
            None => number_of_group(crate::tag::text_view(*group), max as nat) is None,
        },
{
    match group {
        Some(digits) => {
            let chars = chars_of(digits.as_str());
            parse_decimal(&chars, max)
        },
        None => None,
    }
}

/// Reads the capture groups of a match of the field's pattern.
pub fn interpret(field: Field, groups: &Vec<Option<String>>) -> (r: Option<(Entry, bool)>)
    ensures
        interpreted_view(r) == entry_of_groups(field, groups_view(groups@)),
{
    let ghost g = groups_view(groups@);
    let want: usize = if field == Field::Date {
        5
    } else {
        3
    };
    if groups.len() != want {
        return None;
    }
    assert(g[1] == crate::tag::text_view(groups@[1]));
    assert(g[2] == crate::tag::text_view(groups@[2]));
    let track: Option<usize> = match &groups[1] {
        None => None,
        Some(_) => match group_number(&groups[1], usize::MAX as u64) {
            Some(n) => Some(n as usize),
            None => {
                return None;
            },
        },
    };
    if field == Field::Date {
        assert(g[3] == crate::tag::text_view(groups@[3]));
        assert(g[4] == crate::tag::text_view(groups@[4]));
        let year = group_number(&groups[2], u32::MAX as u64);
        let month = group_number(&groups[3], u32::MAX as u64);
        let day = group_number(&groups[4], u32::MAX as u64);
        match (year, month, day) {
            (Some(y), Some(m), Some(d)) => {
                let date = Date { year: y as u32, month: m as u32, day: d as u32 };
                Some((Entry { track, field, value: Value::Date(date) }, false))
            },
            _ => None,
        }
    } else if field == Field::Disc {
        match group_number(&groups[2], usize::MAX as u64) {
            Some(n) => Some((Entry { track, field, value: Value::Number(n as usize) }, false)),
            None => None,
        }
    } else {
        match &groups[2] {
            Some(text) => {
                if field == Field::Input || field == Field::Cover {
                    Some((Entry { track, field, value: Value::Text(text.clone()) }, false))
                } else {
                    let chars = chars_of(text.as_str());
                    let kept = trim(&chars);
                    let cut = kept.len() != chars.len();
                    Some((Entry { track, field, value: Value::Text(string_of(&kept)) }, cut))
                }
            },
            None => None,
        }
    }
}

/// What a line says once the fields from place `k` on have been tried in
/// order: the first field whose pattern matches decides. A line that no
/// pattern matches says nothing if it is empty and is an error if not.
pub open spec fn read_line_from(line: Seq<char>, k: nat) -> Result<
    Option<(EntryView, bool)>,
    ErrorView,
>
    decreases 13 - k,
{
    if k >= 13 {
        if line.len() == 0 {
            Ok(None)
        } else {
            Err(ErrorView::InvalidTrackinfo(line))
        }
    } else {
        let field = field_order()[k as int];
        if !regex_compiles(pattern_of(field)) {
            Err(ErrorView::InvalidPattern(pattern_of(field)))
        } else {
            match regex_groups(pattern_of(field), line) {
                Some(groups) => match entry_of_groups(field, groups) {
                    Some(found) => Ok(Some(found)),
                    None => Err(ErrorView::InvalidTrackinfo(line)),
                },
                None => read_line_from(line, k + 1),
            }
        }
    }
}

/// What a line says: an entry and whether its value was trimmed, nothing for
/// an empty line, or the error that stops the run.
pub open spec fn read_line(line: Seq<char>) -> Result<Option<(EntryView, bool)>, ErrorView> {
    read_line_from(line, 0)
}

/// The view of a parsed line.
pub open spec fn line_view(r: Result<Option<(Entry, bool)>, ReflacError>) -> Result<
    Option<(EntryView, bool)>,
    ErrorView,
> {
    match r {
        Ok(found) => Ok(interpreted_view(found)),
        Err(e) => Err(e@),
    }
}

/// Parses one line of a track-info file.
pub fn parse_line(line: &str) -> (r: Result<Option<(Entry, bool)>, ReflacError>)
    ensures
        line_view(r) == read_line(line@),
{
    let mut k: usize = 0;
    while k < 13
        invariant
            k <= 13,
            read_line(line@) == read_line_from(line@, k as nat),
        decreases 13 - k,
    {
        let field = Field::at(k);
        let pattern = field.pattern();
        match find(pattern, line) {
            Err(e) => {
                return Err(e);
            },
            Ok(Some(groups)) => {
                return match interpret(field, &groups) {
                    Some(found) => Ok(Some(found)),
                    None => Err(ReflacError::InvalidTrackinfo(line.to_owned())),
                };
            },
            Ok(None) => {},
        }
        k += 1;
    }
    if line.is_empty() {
        Ok(None)
    } else {
        Err(ReflacError::InvalidTrackinfo(line.to_owned()))
    }
}

/// The tags of a list of records.
pub open spec fn tag_views(tags: Seq<Tag>) -> Seq<TagView> {
    tags.map_values(|t: Tag| t@)
}

/// The place of the first record for track `n`, if there is one.
pub open spec fn position(tags: Seq<TagView>, n: nat) -> Option<int>
    decreases tags.len(),
{
    if tags.len() == 0 {
        None
    } else {
        match position(tags.drop_last(), n) {
            Some(i) => Some(i),
            None => if tags.last().track == Some(n) {
                Some(tags.len() - 1)
            } else {
                None
            },
        }
    }
}

/// The state of a merge: the running default, built from the lines without
/// brackets read so far, and one record per track named so far, in the order
/// in which the tracks were first named.
pub struct Merger {
    pub default: Tag,
    pub tags: Vec<Tag>,
}

/// A `Merger` as mathematics sees it.
pub struct MergerView {
    pub default: TagView,
    pub tags: Seq<TagView>,
}

impl View for Merger {
    type V = MergerView;

    open spec fn view(&self) -> MergerView {
        MergerView { default: self.default@, tags: tag_views(self.tags@) }
    }
}

impl MergerView {
    /// The state before the first line.
    pub open spec fn start() -> MergerView {
        MergerView { default: TagView::empty(), tags: Seq::empty() }
    }

    /// The state after one more entry. An entry without a track changes the
    /// running default and no record. An entry for a track that has a record
    /// changes that field of that record. An entry for a new track adds a
    /// record: the running default as it is now, with the track number and
    /// the entry's field.
    pub open spec fn absorb(self, entry: EntryView) -> MergerView {
        match entry.track {
            None => MergerView {
                default: self.default.with(entry.field, entry.value),
                tags: self.tags,
            },
            Some(n) => match position(self.tags, n) {
                Some(i) => MergerView {
                    default: self.default,
                    tags: self.tags.update(i, self.tags[i].with(entry.field, entry.value)),
                },
                None => MergerView {
                    default: self.default,
                    tags: self.tags.push(
                        self.default.with_track(n).with(entry.field, entry.value),
                    ),
                },
            },
        }
    }

    /// The state after the entries, taken in order.
    pub open spec fn absorb_all(self, entries: Seq<EntryView>) -> MergerView
        decreases entries.len(),
    {
        if entries.len() == 0 {
            self
        } else {
            self.absorb_all(entries.drop_last()).absorb(entries.last())
        }
    }

    /// The running default has no track, every record has one, and no two
    /// records have the same.
    pub open spec fn wf(self) -> bool {
        &&& self.default.track is None
        &&& forall|i: int| 0 <= i < self.tags.len() ==> (#[trigger] self.tags[i]).track is Some
        &&& forall|i: int, j: int|
            0 <= i < j < self.tags.len() ==> (#[trigger] self.tags[i]).track != (
            #[trigger] self.tags[j]).track
    }
}

/// Setting a field leaves the track number alone.
pub proof fn lemma_with_keeps_track(tag: TagView, field: Field, value: ValueView)
    ensures
        tag.with(field, value).track == tag.track,
{
}

/// A place that `position` gives holds a record for that track, and no
/// earlier place does. Where it gives none, no record is for that track.
pub proof fn lemma_position(tags: Seq<TagView>, n: nat)
    ensures
        match position(tags, n) {
            Some(i) => 0 <= i < tags.len() && tags[i].track == Some(n) && forall|j: int|
                0 <= j < i ==> (#[trigger] tags[j]).track != Some(n),
            None => forall|j: int| 0 <= j < tags.len() ==> (#[trigger] tags[j]).track != Some(n),
        },
    decreases tags.len(),
{
    if tags.len() > 0 {
        lemma_position(tags.drop_last(), n);
        assert forall|j: int| 0 <= j < tags.len() - 1 implies tags[j] == tags.drop_last()[j] by {}
    }
}

proof fn lemma_position_of_prefix(tags: Seq<TagView>, n: nat, k: int)
    requires
        0 <= k <= tags.len(),
        position(tags.subrange(0, k), n) is Some,
    ensures
        position(tags, n) == position(tags.subrange(0, k), n),
    decreases tags.len() - k,
{
    if k < tags.len() {
        assert(tags.subrange(0, k + 1).drop_last() =~= tags.subrange(0, k));
        lemma_position_of_prefix(tags, n, k + 1);
    } else {
        assert(tags.subrange(0, k) =~= tags);
    }
}

/// Finds the first record for track `n`.
pub fn find_track(tags: &Vec<Tag>, n: usize) -> (r: Option<usize>)
    ensures
        match r {
            Some(i) => position(tag_views(tags@), n as nat) == Some(i as int),
            None => position(tag_views(tags@), n as nat) is None,
        },
{
    let ghost views = tag_views(tags@);
    let mut i: usize = 0;
    while i < tags.len()
        invariant
            i <= tags@.len(),
            views == tag_views(tags@),
            position(views.subrange(0, i as int), n as nat) is None,
        decreases tags@.len() - i,
    {
        proof {
            assert(views.subrange(0, i + 1).drop_last() =~= views.subrange(0, i as int));
            assert(views.subrange(0, i + 1).last() == tags@[i as int]@);
        }
        if tags[i].track == Some(n) {
            proof {
                lemma_position_of_prefix(views, n as nat, i + 1);
            }
            return Some(i);
        }
        i += 1;
    }
    assert(views.subrange(0, i as int) =~= views);
    None
}

impl Merger {
    /// The state before the first line.
    pub fn new() -> (r: Merger)
        ensures
            r@ == MergerView::start(),
    {
        let r = Merger { default: Tag::new(), tags: Vec::new() };
        assert(tag_views(r.tags@) =~= Seq::empty());
        r
    }

    /// Takes in one more entry.
    pub fn absorb(&mut self, entry: Entry)
        ensures
            final(self)@ == old(self)@.absorb(entry@),
    {
        let Entry { track, field, value } = entry;
        match track {
            None => {
                self.default.set(field, value);
            },
            Some(n) => {
                match find_track(&self.tags, n) {
                    Some(i) => {
                        proof {
                            lemma_position(tag_views(self.tags@), n as nat);
                        }
                        self.tags[i].set(field, value);
                        assert(tag_views(self.tags@) =~= tag_views(old(self).tags@).update(
                            i as int,
                            tag_views(old(self).tags@)[i as int].with(field, value@),
                        ));
                    },
                    None => {
                        let mut tag = self.default.clone();
                        tag.track = Some(n);
                        tag.set(field, value);
                        self.tags.push(tag);
                        assert(tag_views(self.tags@) =~= tag_views(old(self).tags@).push(
                            old(self).default@.with_track(n as nat).with(field, value@),
                        ));
                    },
                }
            },
        }
    }
}

/// What a track-info file holds: one tag per track, in the order in which
/// the tracks were first named, and the places of the lines whose value lost
/// white space at its ends.
#[derive(Debug)]
pub struct TrackInfo {
    pub tags: Vec<Tag>,
    pub trimmed: Vec<usize>,
}

/// Why a track-info file could not be read, and the places of the lines
/// before the failing one whose value lost white space at its ends.
#[derive(Debug)]
pub struct ParseFailure {
    pub error: ReflacError,
    pub trimmed: Vec<usize>,
}

/// A `ParseFailure` as mathematics sees it.
pub struct FailureView {
    pub error: ErrorView,
    pub trimmed: Seq<int>,
}

impl View for ParseFailure {
    type V = FailureView;

    open spec fn view(&self) -> FailureView {
        FailureView { error: self.error@, trimmed: places(self.trimmed@) }
    }
}

/// The state of reading a file, as mathematics sees it: the merge so far and
/// the places of the trimmed lines.
pub struct FileView {
    pub merger: MergerView,
    pub trimmed: Seq<int>,
}

/// The texts of the lines.
pub open spec fn line_texts(lines: Seq<String>) -> Seq<Seq<char>> {
    lines.map_values(|l: String| l@)
}

/// The places as integers.
pub open spec fn places(trimmed: Seq<usize>) -> Seq<int> {
    trimmed.map_values(|k: usize| k as int)
}

/// What reading the lines in order gives: the error of the first line that
/// has one, with the places of the lines before it whose value was trimmed,
/// else the merge of all entries and the places of all such lines.
pub open spec fn read_file(lines: Seq<Seq<char>>) -> Result<FileView, FailureView>
    decreases lines.len(),
{
    if lines.len() == 0 {
        Ok(FileView { merger: MergerView::start(), trimmed: Seq::empty() })
    } else {
        match read_file(lines.drop_last()) {
            Err(e) => Err(e),
            Ok(before) => match read_line(lines.last()) {
                Err(e) => Err(FailureView { error: e, trimmed: before.trimmed }),
                Ok(None) => Ok(before),
                Ok(Some((entry, cut))) => Ok(
                    FileView {
                        merger: before.merger.absorb(entry),
                        trimmed: if cut {
                            before.trimmed.push(lines.len() - 1)
                        } else {
                            before.trimmed
                        },
                    },
                ),
            },
        }
    }
}

proof fn lemma_read_file_fails_early(lines: Seq<Seq<char>>, k: int)
    requires
        0 <= k <= lines.len(),
        read_file(lines.subrange(0, k)) is Err,
    ensures
        read_file(lines) == read_file(lines.subrange(0, k)),
    decreases lines.len() - k,
{
    if k < lines.len() {
        assert(lines.subrange(0, k + 1).drop_last() =~= lines.subrange(0, k));
        lemma_read_file_fails_early(lines, k + 1);
    } else {
        assert(lines.subrange(0, k) =~= lines);
    }
}

/// Taking in an entry keeps a merge well formed.
pub proof fn lemma_absorb_keeps_wf(m: MergerView, entry: EntryView)
    requires
        m.wf(),
    ensures
        m.absorb(entry).wf(),
{
    let after = m.absorb(entry);
    lemma_with_keeps_track(m.default, entry.field, entry.value);
    match entry.track {
        None => {},
        Some(n) => {
            lemma_position(m.tags, n);
            match position(m.tags, n) {
                Some(i) => {
                    lemma_with_keeps_track(m.tags[i], entry.field, entry.value);
                    assert forall|a: int| 0 <= a < after.tags.len() implies (
                    #[trigger] after.tags[a]).track == m.tags[a].track by {}
                },
                None => {
                    let added = m.default.with_track(n).with(entry.field, entry.value);
                    lemma_with_keeps_track(m.default.with_track(n), entry.field, entry.value);
                    assert(added.track == Some(n));
                    assert forall|a: int| 0 <= a < m.tags.len() implies (
                    #[trigger] after.tags[a]) == m.tags[a] by {}
                    assert(after.tags[m.tags.len() as int] == added);
                },
            }
        },
    }
}

/// Every file that reads without error gives a well-formed merge: each tag
/// has its track number, and no two tags have the same.
pub proof fn lemma_read_file_wf(lines: Seq<Seq<char>>)
    ensures
        read_file(lines) matches Ok(file) ==> file.merger.wf(),
    decreases lines.len(),
{
    if lines.len() > 0 {
        lemma_read_file_wf(lines.drop_last());
        match read_file(lines.drop_last()) {
            Ok(before) => match read_line(lines.last()) {
                Ok(Some((entry, cut))) => {
                    lemma_absorb_keeps_wf(before.merger, entry);
                },
                _ => {},
            },
            Err(_) => {},
        }
    }
}

/// Reads a track-info file, given as its lines without line ends. The tags
/// come out in the order in which their tracks were first named. Reading
/// stops at the first line that no field accepts.
pub fn parse_trackinfo(lines: &Vec<String>) -> (r: Result<TrackInfo, ParseFailure>)
    ensures
        match r {
            Ok(info) => read_file(line_texts(lines@)) matches Ok(file) && tag_views(info.tags@)
                == file.merger.tags && places(info.trimmed@) == file.trimmed && file.merger.wf(),
            Err(failure) => read_file(line_texts(lines@)) == Err::<FileView, FailureView>(
                failure@,
            ),
        },
{
    let ghost texts = line_texts(lines@);
    let mut merger = Merger::new();
    let mut trimmed: Vec<usize> = Vec::new();
    assert(places(trimmed@) =~= Seq::empty());
    let mut i: usize = 0;
    while i < lines.len()
        invariant
            i <= lines@.len(),
            texts == line_texts(lines@),
            read_file(texts.subrange(0, i as int)) == Ok::<FileView, FailureView>(
                FileView { merger: merger@, trimmed: places(trimmed@) },
            ),
        decreases lines@.len() - i,
    {
        proof {
            assert(texts.subrange(0, i + 1).drop_last() =~= texts.subrange(0, i as int));
            assert(texts.subrange(0, i + 1).last() == lines@[i as int]@);
        }
        match parse_line(lines[i].as_str()) {
            Err(e) => {
                proof {
                    lemma_read_file_fails_early(texts, i + 1);
                }
                return Err(ParseFailure { error: e, trimmed });
            },
            Ok(None) => {},
            Ok(Some((entry, cut))) => {
                merger.absorb(entry);
                if cut {
                    let ghost before = places(trimmed@);
                    trimmed.push(i);
                    assert(places(trimmed@) =~= before.push(i as int));
                }
            },
        }
        i += 1;
    }
    proof {
        assert(texts.subrange(0, i as int) =~= texts);
        lemma_read_file_wf(texts);
    }
    Ok(TrackInfo { tags: merger.tags, trimmed })
}

/// The entries of the lines that hold one, in the order of the lines.
pub open spec fn entries_of(lines: Seq<Seq<char>>) -> Seq<EntryView>
    decreases lines.len(),
{
    if lines.len() == 0 {
        Seq::empty()
    } else {
        match read_line(lines.last()) {
            Ok(Some((entry, cut))) => entries_of(lines.drop_last()).push(entry),
            _ => entries_of(lines.drop_last()),
        }
    }
}

/// The merge that a file reads to is the merge of its entries, taken in the
/// order of the lines from the state before the first line.
pub proof fn lemma_read_file_merges_entries(lines: Seq<Seq<char>>)
    ensures
        read_file(lines) matches Ok(file) ==> file.merger == MergerView::start().absorb_all(
            entries_of(lines),
        ),
    decreases lines.len(),
{
    if lines.len() > 0 {
        lemma_read_file_merges_entries(lines.drop_last());
        match read_line(lines.last()) {
            Ok(Some((entry, cut))) => {
                let earlier = entries_of(lines.drop_last());
                assert(earlier.push(entry).drop_last() =~= earlier);
                assert(earlier.push(entry).last() == entry);
            },
            _ => {},
        }
    }
}

/// An entry without a track.
pub open spec fn for_all_tracks(field: Field, value: ValueView) -> EntryView {
    EntryView { track: None, field, value }
}

/// Whether no entry names a track.
pub open spec fn all_without_track(entries: Seq<EntryView>) -> bool {
    forall|i: int| 0 <= i < entries.len() ==> (#[trigger] entries[i]).track is None
}

/// A tag holds in a field what was last set there, and setting one field
/// leaves every other field as it was.
pub proof fn lemma_get_after_with(tag: TagView, field: Field, value: ValueView, other: Field)
    ensures
        crate::tag::fits(field, value) ==> tag.with(field, value).get(field) == Some(value),
        other != field ==> tag.with(field, value).get(other) == tag.get(other),
{
}

/// Taking in two runs of entries one after the other is taking in the whole.
pub proof fn lemma_absorb_all_concat(m: MergerView, first: Seq<EntryView>, second: Seq<EntryView>)
    ensures
        m.absorb_all(first + second) == m.absorb_all(first).absorb_all(second),
    decreases second.len(),
{
    if second.len() == 0 {
        assert(first + second =~= first);
    } else {
        assert((first + second).drop_last() =~= first + second.drop_last());
        assert((first + second).last() == second.last());
        lemma_absorb_all_concat(m, first, second.drop_last());
    }
}

/// Entries without a track leave every record as it is.
pub proof fn lemma_defaults_touch_no_record(m: MergerView, entries: Seq<EntryView>)
    requires
        all_without_track(entries),
    ensures
        m.absorb_all(entries).tags == m.tags,
    decreases entries.len(),
{
    if entries.len() > 0 {
        assert(all_without_track(entries.drop_last())) by {
            assert forall|i: int| 0 <= i < entries.drop_last().len() implies (
            #[trigger] entries.drop_last()[i]).track is None by {
                assert(entries.drop_last()[i] == entries[i]);
            }
        }
        lemma_defaults_touch_no_record(m, entries.drop_last());
        assert(entries.last() == entries[entries.len() - 1]);
    }
}

/// A file whose lines name no track but for one line, which sets a field of
/// track `n`: the result is one record. It holds the running default as the
/// lines before that line built it, the track number `n` and that line's
/// field. Where that line is the last, the running default is the one that
/// all the lines without brackets built.
pub proof fn lemma_single_track_inherits_defaults(
    before: Seq<EntryView>,
    n: nat,
    field: Field,
    value: ValueView,
    after: Seq<EntryView>,
)
    requires
        all_without_track(before),
        all_without_track(after),
    ensures
        ({
            let line = EntryView { track: Some(n), field, value };
            let at_line = MergerView::start().absorb_all(before);
            let end = MergerView::start().absorb_all(before + seq![line] + after);
            &&& end.tags == seq![at_line.default.with_track(n).with(field, value)]
            &&& after.len() == 0 ==> end.default == at_line.default
        }),
{
    let line = EntryView { track: Some(n), field, value };
    let start = MergerView::start();
    let at_line = start.absorb_all(before);
    lemma_defaults_touch_no_record(start, before);
    assert(at_line.tags =~= Seq::empty());
    lemma_absorb_all_concat(start, before, seq![line]);
    assert(seq![line].drop_last() =~= Seq::empty());
    assert(at_line.absorb_all(Seq::empty()) == at_line);
    assert(seq![line].last() == line);
    assert(at_line.absorb_all(seq![line]) == at_line.absorb(line));
    let with_line = at_line.absorb(line);
    assert(position(at_line.tags, n) is None);
    assert(with_line.tags =~= seq![at_line.default.with_track(n).with(field, value)]);
    lemma_absorb_all_concat(start, before + seq![line], after);
    lemma_defaults_touch_no_record(with_line, after);
}

/// The running default is copied when a record is created, not later. From
/// any state: a line without brackets sets `field` to `first`, a line
/// creates track `t1` through another field, a line without brackets sets
/// `field` to `second`, a line creates track `t2` through another field.
/// Then the record of `t1` holds `first` in `field` and that of `t2` holds
/// `second`.
pub proof fn lemma_defaults_follow_line_order(
    m: MergerView,
    field: Field,
    first: ValueView,
    second: ValueView,
    t1: nat,
    line1: EntryView,
    t2: nat,
    line2: EntryView,
)
    requires
        crate::tag::fits(field, first),
        crate::tag::fits(field, second),
        line1.track == Some(t1),
        line2.track == Some(t2),
        t1 != t2,
        position(m.tags, t1) is None,
        position(m.tags, t2) is None,
        line1.field != field,
        line2.field != field,
    ensures
        ({
            let end = m.absorb(for_all_tracks(field, first)).absorb(line1).absorb(
                for_all_tracks(field, second),
            ).absorb(line2);
            &&& position(end.tags, t1) matches Some(i1) && end.tags[i1].get(field) == Some(first)
            &&& position(end.tags, t2) matches Some(i2) && end.tags[i2].get(field) == Some(
                second,
            )
        }),
{
    let a = m.absorb(for_all_tracks(field, first));
    let b = a.absorb(line1);
    let c = b.absorb(for_all_tracks(field, second));
    let d = c.absorb(line2);
    let r1 = a.default.with_track(t1).with(line1.field, line1.value);
    let r2 = c.default.with_track(t2).with(line2.field, line2.value);
    assert(b.tags == m.tags.push(r1));
    assert(b.tags.drop_last() =~= m.tags);
    lemma_with_keeps_track(a.default.with_track(t1), line1.field, line1.value);
    lemma_with_keeps_track(c.default.with_track(t2), line2.field, line2.value);
    assert(position(b.tags, t1) == Some(m.tags.len() as int));
    assert(position(b.tags, t2) is None);
    assert(d.tags == b.tags.push(r2));
    assert(d.tags.drop_last() =~= b.tags);
    assert(position(d.tags, t1) == Some(m.tags.len() as int));
    assert(position(d.tags, t2) == Some(b.tags.len() as int));
    lemma_get_after_with(m.default, field, first, field);
    lemma_get_after_with(a.default.with_track(t1), line1.field, line1.value, field);
    lemma_get_after_with(b.default, field, second, field);
    lemma_get_after_with(c.default.with_track(t2), line2.field, line2.value, field);
}

/// Whether every line is empty or sets a field without naming a track.
pub open spec fn all_for_all_tracks(lines: Seq<Seq<char>>) -> bool {
    forall|i: int|
        0 <= i < lines.len() ==> match #[trigger] read_line(lines[i]) {
            Ok(Some((entry, cut))) => entry.track is None,
            Ok(None) => true,
            Err(_) => false,
        }
}

/// Lines that name no track, read after other lines, leave every record as
/// it is.
pub proof fn lemma_lines_for_all_tracks_touch_no_record(
    earlier: Seq<Seq<char>>,
    later: Seq<Seq<char>>,
)
    requires
        read_file(earlier) is Ok,
        all_for_all_tracks(later),
    ensures
        read_file(earlier + later) matches Ok(file) && file.merger.tags == read_file(
            earlier,
        )->Ok_0.merger.tags,
        later.len() == 0 ==> read_file(earlier + later) == read_file(earlier),
    decreases later.len(),
{
    if later.len() == 0 {
        assert(earlier + later =~= earlier);
    } else {
        assert((earlier + later).drop_last() =~= earlier + later.drop_last());
        assert((earlier + later).last() == later[later.len() - 1]);
        assert(all_for_all_tracks(later.drop_last())) by {
            assert forall|i: int| 0 <= i < later.drop_last().len() implies match #[trigger] read_line(
                later.drop_last()[i],
            ) {
                Ok(Some((entry, cut))) => entry.track is None,
                Ok(None) => true,
                Err(_) => false,
            } by {
                assert(later.drop_last()[i] == later[i]);
            }
        }
        lemma_lines_for_all_tracks_touch_no_record(earlier, later.drop_last());
    }
}

/// A file whose lines name no track but for one line, which gives track
/// `n` its input `x`, reads to one record. The record holds the track
/// number, the input and, in every other field, the running default as the
/// lines before that line built it. Where that line is the last line, this
/// is the default that the whole file built: the record has every field
/// that a line without brackets set.
pub proof fn lemma_file_with_one_track(
    before: Seq<Seq<char>>,
    line: Seq<char>,
    n: nat,
    x: Seq<char>,
    cut: bool,
    after: Seq<Seq<char>>,
)
    requires
        all_for_all_tracks(before),
        all_for_all_tracks(after),
        read_line(line) == Ok::<Option<(EntryView, bool)>, ErrorView>(
            Some((EntryView { track: Some(n), field: Field::Input, value: ValueView::Text(x) }, cut)),
        ),
    ensures
        ({
            let defaults = read_file(before)->Ok_0.merger.default;
            &&& read_file(before) is Ok
            &&& read_file(before.push(line) + after) matches Ok(file) && file.merger.tags
                == seq![defaults.with_track(n).with(Field::Input, ValueView::Text(x))]
            &&& after.len() == 0 ==> read_file(before.push(line) + after)->Ok_0.merger.default
                == defaults
        }),
{
    let none = Seq::<Seq<char>>::empty();
    lemma_lines_for_all_tracks_touch_no_record(none, before);
    assert(none + before =~= before);
    let at_line = read_file(before)->Ok_0;
    assert(at_line.merger.tags =~= Seq::empty());
    assert(before.push(line).drop_last() =~= before);
    assert(before.push(line).last() == line);
    let with_line = read_file(before.push(line))->Ok_0;
    assert(with_line.merger.tags =~= seq![
        at_line.merger.default.with_track(n).with(Field::Input, ValueView::Text(x)),
    ]);
    lemma_lines_for_all_tracks_touch_no_record(before.push(line), after);
}

/// In a file, too, the running default is copied when a record is created,
/// not later. After any lines that read without error: a line without
/// brackets sets `field` to `first`, a line creates track `t1` through
/// another field, a line without brackets sets `field` to `second`, a line
/// creates track `t2` through another field. Then the file reads without
/// error, the record of `t1` holds `first` in `field` and that of `t2`
/// holds `second`.
pub proof fn lemma_file_defaults_follow_line_order(
    earlier: Seq<Seq<char>>,
    lines: Seq<Seq<char>>,
    field: Field,
    first: ValueView,
    second: ValueView,
    t1: nat,
    line1: EntryView,
    t2: nat,
    line2: EntryView,
)
    requires
        read_file(earlier) is Ok,
        lines.len() == 4,
        read_line(lines[0]) matches Ok(Some((e, cut))) && e == for_all_tracks(field, first),
        read_line(lines[1]) matches Ok(Some((e, cut))) && e == line1,
        read_line(lines[2]) matches Ok(Some((e, cut))) && e == for_all_tracks(field, second),
        read_line(lines[3]) matches Ok(Some((e, cut))) && e == line2,
        crate::tag::fits(field, first),
        crate::tag::fits(field, second),
        line1.track == Some(t1),
        line2.track == Some(t2),
        t1 != t2,
        position(read_file(earlier)->Ok_0.merger.tags, t1) is None,
        position(read_file(earlier)->Ok_0.merger.tags, t2) is None,
        line1.field != field,
        line2.field != field,
    ensures
        ({
            let end = read_file(earlier + lines);
            &&& end matches Ok(file) && position(file.merger.tags, t1) matches Some(i1)
                && file.merger.tags[i1].get(field) == Some(first)
            &&& end matches Ok(file) && position(file.merger.tags, t2) matches Some(i2)
                && file.merger.tags[i2].get(field) == Some(second)
        }),
{
    let m = read_file(earlier)->Ok_0.merger;
    let a = earlier.push(lines[0]);
    let b = a.push(lines[1]);
    let c = b.push(lines[2]);
    let d = c.push(lines[3]);
    assert(a.drop_last() =~= earlier && a.last() == lines[0]);
    assert(b.drop_last() =~= a && b.last() == lines[1]);
    assert(c.drop_last() =~= b && c.last() == lines[2]);
    assert(d.drop_last() =~= c && d.last() == lines[3]);
    assert(d =~= earlier + lines);
    assert(read_file(a) matches Ok(f) && f.merger == m.absorb(for_all_tracks(field, first)));
    assert(read_file(b) matches Ok(f) && f.merger == m.absorb(
        for_all_tracks(field, first),
    ).absorb(line1));
    assert(read_file(c) matches Ok(f) && f.merger == m.absorb(
        for_all_tracks(field, first),
    ).absorb(line1).absorb(for_all_tracks(field, second)));
    assert(read_file(d) matches Ok(f) && f.merger == m.absorb(
        for_all_tracks(field, first),
    ).absorb(line1).absorb(for_all_tracks(field, second)).absorb(line2));
    lemma_defaults_follow_line_order(m, field, first, second, t1, line1, t2, line2);
}

} // verus!
