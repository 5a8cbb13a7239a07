//! The layout of the output: the album directory, one directory per disc,
//! and the width of the track numbers.

use vstd::prelude::*;
use vstd::string::*;
use crate::error::{ErrorView, ReflacError};
use crate::tag::{disc_dir_name, Tag, TagView};
use crate::text::{
    decimal_digits, digit_count, push_decimal, push_text, replace_slashes, texts,
    without_slashes,
};
use crate::trackinfo::tag_views;

verus! {

/// How many of the tags name `album`.
pub open spec fn album_count(tags: Seq<TagView>, album: Seq<char>) -> nat
    decreases tags.len(),
{
    if tags.len() == 0 {
        0
    } else {
        album_count(tags.drop_last(), album) + if tags.last().album == Some(album) {
            1nat
        } else {
            0nat
        }
    }
}

/// Whether the tag at place `i` names the album that most tags name. Of
/// several albums that share the highest count, the one that is named first
/// in the list wins, and `i` is the first place that names it.
pub open spec fn names_most_common_album(tags: Seq<TagView>, i: int) -> bool {
    &&& 0 <= i < tags.len()
    &&& tags[i].album is Some
    &&& forall|j: int|
        0 <= j < tags.len() && (#[trigger] tags[j]).album is Some ==> album_count(
            tags,
            tags[j].album->0,
        ) <= album_count(tags, tags[i].album->0)
    &&& forall|j: int|
        0 <= j < i && (#[trigger] tags[j]).album is Some ==> album_count(tags, tags[j].album->0)
            < album_count(tags, tags[i].album->0)
}

/// The largest track number among the tags, and 0 where no tag has one.
pub open spec fn max_track(tags: Seq<TagView>) -> nat
    decreases tags.len(),
{
    if tags.len() == 0 {
        0
    } else {
        let rest = max_track(tags.drop_last());
        match tags.last().track {
            Some(n) => if n > rest {
                n
            } else {
                rest
            },
            None => rest,
        }
    }
}

/// The disc numbers of the tags, each once, in the order in which they first
/// occur.
pub open spec fn discs_seen(tags: Seq<TagView>) -> Seq<nat>
    decreases tags.len(),
{
    if tags.len() == 0 {
        Seq::empty()
    } else {
        let earlier = discs_seen(tags.drop_last());
        match tags.last().disc {
            Some(d) => if earlier.contains(d) {
                earlier
            } else {
                earlier.push(d)
            },
            None => earlier,
        }
    }
}

/// The numbers as natural numbers.
pub open spec fn naturals(v: Seq<usize>) -> Seq<nat> {
    v.map_values(|k: usize| k as nat)
}

fn count_album(tags: &Vec<Tag>, album: &String) -> (r: usize)
    ensures
        r == album_count(tag_views(tags@), album@),
{
    let ghost views = tag_views(tags@);
    let mut r: usize = 0;
    let mut k: usize = 0;
    while k < tags.len()
        invariant
            k <= tags@.len(),
            r <= k,
            views == tag_views(tags@),
            r == album_count(views.subrange(0, k as int), album@),
        decreases tags@.len() - k,
    {
        proof {
            assert(views.subrange(0, k + 1).drop_last() =~= views.subrange(0, k as int));
            assert(views.subrange(0, k + 1).last() == tags@[k as int]@);
        }
        match &tags[k].album {
            Some(name) => {
                if *name == *album {
                    r += 1;
                }
            },
            None => {},
        }
        k += 1;
    }
    assert(views.subrange(0, k as int) =~= views);
    r
}

/// The place of the first tag that names the most common album, or `None`
/// where no tag names an album.
pub fn most_common_album(tags: &Vec<Tag>) -> (r: Option<usize>)
    ensures
        match r {
            Some(i) => names_most_common_album(tag_views(tags@), i as int),
            None => forall|j: int| 0 <= j < tags@.len() ==> (#[trigger] tags@[j]).album is None,
        },
{
    let ghost views = tag_views(tags@);
    let mut best: Option<usize> = None;
    let mut best_count: usize = 0;
    let mut i: usize = 0;
    while i < tags.len()
        invariant
            i <= tags@.len(),
            views == tag_views(tags@),
            match best {
                Some(b) => {
                    &&& b < i
                    &&& views[b as int].album is Some
                    &&& best_count == album_count(views, views[b as int].album->0)
                    &&& forall|j: int|
                        0 <= j < i && (#[trigger] views[j]).album is Some ==> album_count(
                            views,
                            views[j].album->0,
                        ) <= best_count
                    &&& forall|j: int|
                        0 <= j < b && (#[trigger] views[j]).album is Some ==> album_count(
                            views,
                            views[j].album->0,
                        ) < best_count
                },
                None => forall|j: int| 0 <= j < i ==> (#[trigger] tags@[j]).album is None,
            },
        decreases tags@.len() - i,
    {
        assert(views[i as int] == tags@[i as int]@);
        match &tags[i].album {
            Some(name) => {
                let count = count_album(tags, name);
                let better = match best {
                    Some(_) => count > best_count,
                    None => true,
                };
                if better {
                    proof {
                        if best is None {
                            assert forall|j: int| 0 <= j < i implies !((
                            #[trigger] views[j]).album is Some) by {
                                assert(views[j] == tags@[j]@);
                            }
                        }
                    }
                    best = Some(i);
                    best_count = count;
                }
            },
            None => {},
        }
        i += 1;
    }
    best
}

/// The album that most tags name, or `None` where no tag names one. Of
/// several that share the highest count, the one that is named first wins.
pub fn get_album_name(tags: &Vec<Tag>) -> (r: Option<&String>)
    ensures
        match r {
            Some(name) => exists|i: int|
                names_most_common_album(tag_views(tags@), i) && tag_views(tags@)[i].album
                    == Some(name@),
            None => forall|j: int| 0 <= j < tags@.len() ==> (#[trigger] tags@[j]).album is None,
        },
{
    match most_common_album(tags) {
        Some(i) => {
            assert(tag_views(tags@)[i as int] == tags@[i as int]@);
            tags[i].album.as_ref()
        },
        None => None,
    }
}

/// The name of the album's directory: the album's name with every `/`
/// replaced by `_`.
pub fn album_dir_name(album: &str) -> (r: String)
    ensures
        r@ == without_slashes(album@),
{
    replace_slashes(album)
}

/// The name of the album's directory, taken from the album that most tags
/// name. Where no tag names an album, planning fails.
pub fn album_dir(tags: &Vec<Tag>) -> (r: Result<String, ReflacError>)
    ensures
        match r {
            Ok(name) => exists|i: int|
                names_most_common_album(tag_views(tags@), i) && name@ == without_slashes(
                    tag_views(tags@)[i].album->0,
                ),
            Err(e) => e@ == ErrorView::MissingAlbum && forall|j: int|
                0 <= j < tags@.len() ==> (#[trigger] tags@[j]).album is None,
        },
{
    match get_album_name(tags) {
        Some(album) => Ok(album_dir_name(album.as_str())),
        None => Err(ReflacError::MissingAlbum),
    }
}

/// At most one place names the most common album: the choice is settled by
/// the list alone.
pub proof fn lemma_most_common_album_is_one(tags: Seq<TagView>, i: int, j: int)
    requires
        names_most_common_album(tags, i),
        names_most_common_album(tags, j),
    ensures
        i == j,
{
    if i < j {
        assert(tags[i].album is Some);
    } else if j < i {
        assert(tags[j].album is Some);
    }
}

/// The number of digits to which the track numbers are padded: as many as
/// the largest track number has.
pub fn padding(tags: &Vec<Tag>) -> (r: usize)
    ensures
        r == decimal_digits(max_track(tag_views(tags@))).len(),
{
    let ghost views = tag_views(tags@);
    let mut largest: usize = 0;
    let mut i: usize = 0;
    while i < tags.len()
        invariant
            i <= tags@.len(),
            views == tag_views(tags@),
            largest == max_track(views.subrange(0, i as int)),
        decreases tags@.len() - i,
    {
        proof {
            assert(views.subrange(0, i + 1).drop_last() =~= views.subrange(0, i as int));
            assert(views.subrange(0, i + 1).last() == tags@[i as int]@);
        }
        if let Some(n) = tags[i].track {
            if n > largest {
                largest = n;
            }
        }
        i += 1;
    }
    assert(views.subrange(0, i as int) =~= views);
    digit_count(largest)
}

fn holds(list: &Vec<usize>, d: usize) -> (r: bool)
    ensures
        r == naturals(list@).contains(d as nat),
{
    let mut k: usize = 0;
    while k < list.len()
        invariant
            k <= list@.len(),
            forall|j: int| 0 <= j < k ==> list@[j] != d,
        decreases list@.len() - k,
    {
        if list[k] == d {
            assert(naturals(list@)[k as int] == d as nat);
            return true;
        }
        k += 1;
    }
    assert forall|j: int| 0 <= j < naturals(list@).len() implies naturals(list@)[j] != d as nat by {
        assert(naturals(list@)[j] == list@[j] as nat);
    }
    false
}

/// The disc numbers for which a directory is made, in the order in which the
/// tags first name them.
pub fn disc_numbers(tags: &Vec<Tag>) -> (r: Vec<usize>)
    ensures
        naturals(r@) == discs_seen(tag_views(tags@)),
{
    let ghost views = tag_views(tags@);
    let mut discs: Vec<usize> = Vec::new();
    assert(naturals(discs@) =~= Seq::empty());
    let mut i: usize = 0;
    while i < tags.len()
        invariant
            i <= tags@.len(),
            views == tag_views(tags@),
            naturals(discs@) == discs_seen(views.subrange(0, i as int)),
        decreases tags@.len() - i,
    {
        proof {
            assert(views.subrange(0, i + 1).drop_last() =~= views.subrange(0, i as int));
            assert(views.subrange(0, i + 1).last() == tags@[i as int]@);
        }
        if let Some(d) = tags[i].disc {
            if !holds(&discs, d) {
                let ghost before = naturals(discs@);
                discs.push(d);
                assert(naturals(discs@) =~= before.push(d as nat));
            }
        }
        i += 1;
    }
    assert(views.subrange(0, i as int) =~= views);
    discs
}

/// The name of the directory of disc `disc`.
pub fn disc_dir(disc: usize) -> (r: String)
    ensures
        r@ == disc_dir_name(disc as nat),
{
    let mut out = String::new();
    out.append("Disc ");
    push_decimal(&mut out, disc);
    assert(out@ =~= disc_dir_name(disc as nat));
    out
}

/// Where the output of an album goes: the name of the album's directory,
/// the names of the disc directories in it, and for each tag the path of its
/// file below the album's directory.
#[derive(Debug)]
pub struct Layout {
    pub album: String,
    pub discs: Vec<String>,
    pub files: Vec<String>,
}

/// The names of the directories of the discs.
pub open spec fn disc_dir_names(discs: Seq<nat>) -> Seq<Seq<char>> {
    discs.map_values(|d: nat| disc_dir_name(d))
}

/// The output paths of the tags, each with the track number padded to
/// `width` digits.
pub open spec fn output_paths(tags: Seq<TagView>, width: nat) -> Seq<Seq<char>> {
    tags.map_values(|t: TagView| t.output_path(width))
}

/// Plans the output of an album: the album's directory is named after the
/// most common album, there is one directory for each disc that a tag names,
/// and every file name starts with the track number, padded to the width of
/// the largest. Without an album planning fails.
pub fn layout(tags: &Vec<Tag>) -> (r: Result<Layout, ReflacError>)
    requires
        forall|i: int| 0 <= i < tags@.len() ==> (#[trigger] tags@[i]).track is Some,
    ensures
        match r {
            Ok(plan) => {
                &&& exists|i: int|
                    names_most_common_album(tag_views(tags@), i) && plan.album@
                        == without_slashes(tag_views(tags@)[i].album->0)
                &&& texts(plan.discs@) == disc_dir_names(discs_seen(tag_views(tags@)))
                &&& texts(plan.files@) == output_paths(
                    tag_views(tags@),
                    decimal_digits(max_track(tag_views(tags@))).len(),
                )
            },
            Err(e) => e@ == ErrorView::MissingAlbum && forall|j: int|
                0 <= j < tags@.len() ==> (#[trigger] tags@[j]).album is None,
        },
{
    let album = match album_dir(tags) {
        Ok(album) => album,
        Err(e) => {
            return Err(e);
        },
    };
    let numbers = disc_numbers(tags);
    let mut discs: Vec<String> = Vec::new();
    assert(texts(discs@) =~= Seq::empty());
    let mut d: usize = 0;
    while d < numbers.len()
        invariant
            d <= numbers@.len(),
            texts(discs@) == disc_dir_names(naturals(numbers@).subrange(0, d as int)),
        decreases numbers@.len() - d,
    {
        push_text(&mut discs, disc_dir(numbers[d]));
        d += 1;
        assert(texts(discs@) =~= disc_dir_names(naturals(numbers@).subrange(0, d as int)));
    }
    assert(naturals(numbers@).subrange(0, d as int) =~= naturals(numbers@));
    let width = padding(tags);
    let ghost views = tag_views(tags@);
    let mut files: Vec<String> = Vec::new();
    assert(texts(files@) =~= Seq::empty());
    let mut i: usize = 0;
    while i < tags.len()
        invariant
            i <= tags@.len(),
            views == tag_views(tags@),
            forall|k: int| 0 <= k < tags@.len() ==> (#[trigger] tags@[k]).track is Some,
            texts(files@) == output_paths(views, width as nat).subrange(0, i as int),
        decreases tags@.len() - i,
    {
        assert(views[i as int] == tags@[i as int]@);
        push_text(&mut files, tags[i].output_path(width));
        i += 1;
        assert(texts(files@) =~= output_paths(views, width as nat).subrange(0, i as int));
    }
    assert(output_paths(views, width as nat).subrange(0, i as int) =~= output_paths(
        views,
        width as nat,
    ));
    Ok(Layout { album, discs, files })
}

} // verus!
