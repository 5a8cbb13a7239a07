//! Sharing of resolved references: tags that name the same input, or the
//! same cover, share one resolution.

use vstd::prelude::*;
use crate::error::{ErrorView, ReflacError};
use crate::tag::{copy_text, text_view, Tag};

verus! {

/// Which references are resolved, and which resolution each tag uses.
/// `firsts` holds, in rising order, the places of the tags that are the
/// first to name their reference: one resolution is made for each. `slots`
/// holds for each tag the place in `firsts` of the resolution that it uses,
/// and `None` for a tag without a reference.
#[derive(Debug)]
pub struct Sharing {
    pub firsts: Vec<usize>,
    pub slots: Vec<Option<usize>>,
}

/// The texts of the references.
pub open spec fn key_texts(keys: Seq<Option<String>>) -> Seq<Option<Seq<char>>> {
    keys.map_values(|k: Option<String>| text_view(k))
}

/// Whether place `i` holds a reference that no earlier place holds.
pub open spec fn is_first_use(keys: Seq<Option<Seq<char>>>, i: int) -> bool {
    &&& 0 <= i < keys.len()
    &&& keys[i] is Some
    &&& forall|j: int| 0 <= j < i ==> #[trigger] keys[j] != keys[i]
}

/// Whether `firsts` and `slots` describe the sharing of `keys`: `firsts`
/// rises and holds first uses only, and each place with a reference points
/// to the first use of that same reference.
pub open spec fn shares(keys: Seq<Option<Seq<char>>>, firsts: Seq<usize>, slots: Seq<
    Option<usize>,
>) -> bool {
    &&& slots.len() == keys.len()
    &&& forall|k: int| 0 <= k < firsts.len() ==> is_first_use(keys, #[trigger] firsts[k] as int)
    &&& forall|a: int, b: int| 0 <= a < b < firsts.len() ==> firsts[a] < firsts[b]
    &&& forall|t: int|
        0 <= t < keys.len() ==> match #[trigger] slots[t] {
            Some(k) => k < firsts.len() && firsts[k as int] <= t && keys[firsts[k as int] as int]
                == keys[t] && keys[t] is Some,
            None => keys[t] is None,
        }
}

impl Sharing {
    /// Whether this is the sharing of `keys`.
    pub open spec fn of(self, keys: Seq<Option<Seq<char>>>) -> bool {
        shares(keys, self.firsts@, self.slots@)
    }
}

/// Every first use of a reference has its resolution: the sharing leaves
/// no reference out.
pub proof fn lemma_every_first_use_listed(
    keys: Seq<Option<Seq<char>>>,
    firsts: Seq<usize>,
    slots: Seq<Option<usize>>,
    i: int,
)
    requires
        shares(keys, firsts, slots),
        is_first_use(keys, i),
    ensures
        slots[i] matches Some(k) && firsts[k as int] == i,
{
    let k = slots[i]->0;
    assert(firsts[k as int] <= i);
    if firsts[k as int] < i {
        assert(keys[firsts[k as int] as int] != keys[i]);
    }
}

/// No reference is resolved twice: two resolutions are for two different
/// references.
pub proof fn lemma_resolutions_differ(
    keys: Seq<Option<Seq<char>>>,
    firsts: Seq<usize>,
    slots: Seq<Option<usize>>,
    a: int,
    b: int,
)
    requires
        shares(keys, firsts, slots),
        0 <= a < firsts.len(),
        0 <= b < firsts.len(),
        a != b,
    ensures
        keys[firsts[a] as int] != keys[firsts[b] as int],
{
    if a < b {
        assert(firsts[a] < firsts[b]);
        assert(is_first_use(keys, firsts[b] as int));
    } else {
        assert(firsts[b] < firsts[a]);
        assert(is_first_use(keys, firsts[a] as int));
    }
}

/// Two tags that name the same reference use the same resolution, and that
/// resolution is made once, for the first tag that names it.
pub proof fn lemma_same_reference_same_resolution(
    keys: Seq<Option<Seq<char>>>,
    firsts: Seq<usize>,
    slots: Seq<Option<usize>>,
    s: int,
    t: int,
)
    requires
        shares(keys, firsts, slots),
        0 <= s < keys.len(),
        0 <= t < keys.len(),
        keys[s] is Some,
        keys[s] == keys[t],
    ensures
        slots[s] is Some,
        slots[s] == slots[t],
{
    let a = slots[s]->0 as int;
    let b = slots[t]->0 as int;
    if a != b {
        lemma_resolutions_differ(keys, firsts, slots, a, b);
    }
}

fn find_key(keys: &Vec<Option<String>>, firsts: &Vec<usize>, key: &String) -> (r: Option<usize>)
    requires
        forall|k: int| 0 <= k < firsts@.len() ==> firsts@[k] < keys@.len(),
    ensures
        match r {
            Some(k) => k < firsts@.len() && text_view(keys@[firsts@[k as int] as int]) == Some(
                key@,
            ),
            None => forall|k: int|
                0 <= k < firsts@.len() ==> text_view(keys@[#[trigger] firsts@[k] as int])
                    != Some(key@),
        },
{
    let mut k: usize = 0;
    while k < firsts.len()
        invariant
            k <= firsts@.len(),
            forall|j: int| 0 <= j < firsts@.len() ==> firsts@[j] < keys@.len(),
            forall|j: int|
                0 <= j < k ==> text_view(keys@[#[trigger] firsts@[j] as int]) != Some(key@),
        decreases firsts@.len() - k,
    {
        match &keys[firsts[k]] {
            Some(other) => {
                if *other == *key {
                    return Some(k);
                }
            },
            None => {},
        }
        k += 1;
    }
    None
}

/// Works out which references to resolve and which tag uses which
/// resolution.
pub fn share(keys: &Vec<Option<String>>) -> (r: Sharing)
    ensures
        r.of(key_texts(keys@)),
{
    let ghost texts = key_texts(keys@);
    let mut firsts: Vec<usize> = Vec::new();
    let mut slots: Vec<Option<usize>> = Vec::new();
    let mut t: usize = 0;
    while t < keys.len()
        invariant
            t <= keys@.len(),
            texts == key_texts(keys@),
            shares(texts.subrange(0, t as int), firsts@, slots@),
        decreases keys@.len() - t,
    {
        let ghost before = texts.subrange(0, t as int);
        let ghost after = texts.subrange(0, t + 1);
        let ghost old_firsts = firsts@;
        let ghost old_slots = slots@;
        proof {
            assert(after[t as int] == text_view(keys@[t as int]));
            assert forall|j: int| 0 <= j < t implies after[j] == before[j] by {}
            assert forall|k: int| 0 <= k < old_firsts.len() implies is_first_use(
                after,
                #[trigger] old_firsts[k] as int,
            ) && old_firsts[k] < t by {
                assert(is_first_use(before, old_firsts[k] as int));
            }
            assert forall|k: int| 0 <= k < old_firsts.len() implies text_view(
                keys@[#[trigger] old_firsts[k] as int],
            ) == after[old_firsts[k] as int] by {
                assert(is_first_use(before, old_firsts[k] as int));
            }
        }
        match &keys[t] {
            None => {
                slots.push(None);
            },
            Some(key) => {
                match find_key(keys, &firsts, key) {
                    Some(k) => {
                        slots.push(Some(k));
                    },
                    None => {
                        proof {
                            assert forall|j: int| 0 <= j < t implies #[trigger] after[j]
                                != after[t as int] by {
                                match old_slots[j] {
                                    Some(k) => {
                                        assert(before[old_firsts[k as int] as int] == before[j]);
                                        assert(text_view(keys@[old_firsts[k as int] as int])
                                            != Some(key@));
                                    },
                                    None => {},
                                }
                            }
                            assert(is_first_use(after, t as int));
                        }
                        firsts.push(t);
                        slots.push(Some(firsts.len() - 1));
                    },
                }
            },
        }
        proof {
            assert forall|x: int| 0 <= x < after.len() implies match #[trigger] slots@[x] {
                Some(k) => k < firsts@.len() && firsts@[k as int] <= x && after[firsts@[k as int] as int]
                    == after[x] && after[x] is Some,
                None => after[x] is None,
            } by {
                if x < t {
                    assert(slots@[x] == old_slots[x]);
                    match old_slots[x] {
                        Some(k) => {
                            assert(firsts@[k as int] == old_firsts[k as int]);
                        },
                        None => {},
                    }
                }
            }
            assert forall|k: int| 0 <= k < firsts@.len() implies is_first_use(
                after,
                #[trigger] firsts@[k] as int,
            ) by {
                if k < old_firsts.len() {
                    assert(firsts@[k] == old_firsts[k]);
                }
            }
            assert forall|a: int, b: int| 0 <= a < b < firsts@.len() implies firsts@[a]
                < firsts@[b] by {
                if b < old_firsts.len() {
                    assert(firsts@[a] == old_firsts[a] && firsts@[b] == old_firsts[b]);
                } else {
                    assert(firsts@[a] == old_firsts[a]);
                }
            }
        }
        t += 1;
    }
    assert(texts.subrange(0, t as int) =~= texts);
    Sharing { firsts, slots }
}

/// The inputs that the tags name, tag by tag.
pub open spec fn input_texts(tags: Seq<Tag>) -> Seq<Option<Seq<char>>> {
    tags.map_values(|t: Tag| text_view(t.input))
}

/// The covers that the tags name, tag by tag.
pub open spec fn cover_texts(tags: Seq<Tag>) -> Seq<Option<Seq<char>>> {
    tags.map_values(|t: Tag| text_view(t.cover))
}

/// The place of the first tag without an input, or the number of tags where
/// every tag has one.
pub open spec fn first_without_input(tags: Seq<Tag>, from: int) -> int
    decreases tags.len() - from,
{
    if 0 <= from < tags.len() && tags[from].input is Some {
        first_without_input(tags, from + 1)
    } else {
        from
    }
}

/// The sharing of the inputs. A tag without an input is an error: the
/// first such tag is named by its track number.
pub fn input_plan(tags: &Vec<Tag>) -> (r: Result<Sharing, ReflacError>)
    requires
        forall|i: int| 0 <= i < tags@.len() ==> (#[trigger] tags@[i]).track is Some,
    ensures
        match r {
            Ok(plan) => first_without_input(tags@, 0) == tags@.len() && plan.of(
                input_texts(tags@),
            ),
            Err(e) => {
                let i = first_without_input(tags@, 0);
                0 <= i < tags@.len() && e@ == ErrorView::MissingInput(tags@[i].track->0 as nat)
            },
        },
{
    let mut keys: Vec<Option<String>> = Vec::new();
    let mut i: usize = 0;
    while i < tags.len()
        invariant
            i <= tags@.len(),
            first_without_input(tags@, 0) == first_without_input(tags@, i as int),
            key_texts(keys@) == input_texts(tags@).subrange(0, i as int),
            forall|j: int| 0 <= j < tags@.len() ==> (#[trigger] tags@[j]).track is Some,
        decreases tags@.len() - i,
    {
        match &tags[i].input {
            Some(_) => {
                let ghost before = key_texts(keys@);
                keys.push(copy_text(&tags[i].input));
                assert(key_texts(keys@) =~= before.push(text_view(tags@[i as int].input)));
                assert(key_texts(keys@) =~= input_texts(tags@).subrange(0, i + 1));
            },
            None => {
                return Err(ReflacError::MissingInput(tags[i].track.unwrap()));
            },
        }
        i += 1;
    }
    assert(input_texts(tags@).subrange(0, i as int) =~= input_texts(tags@));
    Ok(share(&keys))
}

/// The sharing of the covers. A tag without a cover has none.
pub fn cover_plan(tags: &Vec<Tag>) -> (r: Sharing)
    ensures
        r.of(cover_texts(tags@)),
{
    let mut keys: Vec<Option<String>> = Vec::new();
    let mut i: usize = 0;
    while i < tags.len()
        invariant
            i <= tags@.len(),
            key_texts(keys@) == cover_texts(tags@).subrange(0, i as int),
        decreases tags@.len() - i,
    {
        let ghost before = key_texts(keys@);
        keys.push(copy_text(&tags[i].cover));
        assert(key_texts(keys@) =~= before.push(text_view(tags@[i as int].cover)));
        assert(key_texts(keys@) =~= cover_texts(tags@).subrange(0, i + 1));
        i += 1;
    }
    assert(cover_texts(tags@).subrange(0, i as int) =~= cover_texts(tags@));
    share(&keys)
}

} // verus!
