//! Finding the directory that holds the audio files: a search, depth first,
//! through the directories below a root and then through the archives in
//! them.

use vstd::prelude::*;
use crate::command::{archive_kind, archive_kind_of, ArchiveKind};
use crate::error::{ErrorView, ReflacError};
use crate::tag::text_view;
use crate::text::same_text;

verus! {

/// What kind of thing a directory entry is.
#[derive(Clone, Copy, PartialEq, Eq, Debug, Structural)]
pub enum EntryKind {
    File,
    Directory,
    Other,
}

/// One entry of a directory listing: its path, its kind and the extension
/// of its name, if it has one.
#[derive(Debug)]
pub struct Listed {
    pub path: String,
    pub kind: EntryKind,
    pub extension: Option<String>,
}

/// A `Listed` as mathematics sees it.
pub struct ListedView {
    pub path: Seq<char>,
    pub kind: EntryKind,
    pub extension: Option<Seq<char>>,
}

impl View for Listed {
    type V = ListedView;

    open spec fn view(&self) -> ListedView {
        ListedView { path: self.path@, kind: self.kind, extension: text_view(self.extension) }
    }
}

/// A place where the search may go on: a directory, or an archive to unpack.
#[derive(Debug)]
pub enum Candidate {
    Directory(String),
    Archive(String, ArchiveKind),
}

/// A `Candidate` as mathematics sees it.
pub enum CandidateView {
    Directory(Seq<char>),
    Archive(Seq<char>, ArchiveKind),
}

impl View for Candidate {
    type V = CandidateView;

    open spec fn view(&self) -> CandidateView {
        match *self {
            Candidate::Directory(path) => CandidateView::Directory(path@),
            Candidate::Archive(path, kind) => CandidateView::Archive(path@, kind),
        }
    }
}

/// What the caller does next on a search.
#[derive(Debug)]
pub enum SearchStep {
    /// List this directory and report its entries.
    List(String),
    /// Unpack this archive into a new directory and report that directory.
    Unpack(String, ArchiveKind),
    /// The search has ended: this directory holds audio files.
    Found(String),
    /// The search has ended: nothing below this root holds audio files.
    NotFound(String),
    /// The search has ended with the failure that the caller last reported.
    Broken,
}

/// A `SearchStep` as mathematics sees it.
pub enum SearchStepView {
    List(Seq<char>),
    Unpack(Seq<char>, ArchiveKind),
    Found(Seq<char>),
    NotFound(Seq<char>),
    Broken,
}

impl View for SearchStep {
    type V = SearchStepView;

    open spec fn view(&self) -> SearchStepView {
        match *self {
            SearchStep::List(path) => SearchStepView::List(path@),
            SearchStep::Unpack(path, kind) => SearchStepView::Unpack(path@, kind),
            SearchStep::Found(path) => SearchStepView::Found(path@),
            SearchStep::NotFound(path) => SearchStepView::NotFound(path@),
            SearchStep::Broken => SearchStepView::Broken,
        }
    }
}

/// A directory whose entries held no audio file, with the places below it
/// that have not been tried yet. They are kept in reverse: the last one of
/// `untried` is the next to try.
#[derive(Debug)]
pub struct Frame {
    pub root: String,
    pub untried: Vec<Candidate>,
}

/// A `Frame` as mathematics sees it: its root and the candidates that are
/// left, the next one first.
pub struct FrameView {
    pub root: Seq<char>,
    pub rest: Seq<CandidateView>,
}

/// The candidates as mathematics sees them.
pub open spec fn candidate_views(candidates: Seq<Candidate>) -> Seq<CandidateView> {
    candidates.map_values(|c: Candidate| c@)
}

/// The candidates as mathematics sees them, the last one first.
pub open spec fn backwards(candidates: Seq<Candidate>) -> Seq<CandidateView> {
    Seq::new(candidates.len(), |i: int| candidates[candidates.len() - 1 - i]@)
}

impl View for Frame {
    type V = FrameView;

    open spec fn view(&self) -> FrameView {
        FrameView { root: self.root@, rest: backwards(self.untried@) }
    }
}

/// The entries as mathematics sees them.
pub open spec fn listed_views(entries: Seq<Listed>) -> Seq<ListedView> {
    entries.map_values(|e: Listed| e@)
}

/// The frames as mathematics sees them.
pub open spec fn frame_views(frames: Seq<Frame>) -> Seq<FrameView> {
    frames.map_values(|f: Frame| f@)
}

/// Whether the entry is an audio file.
pub open spec fn is_audio(entry: ListedView) -> bool {
    entry.kind == EntryKind::File && entry.extension == Some("flac"@)
}

/// Whether one of the entries is an audio file.
pub open spec fn has_audio(entries: Seq<ListedView>) -> bool {
    exists|i: int| 0 <= i < entries.len() && is_audio(#[trigger] entries[i])
}

/// The directories among the entries, in the order of the listing.
pub open spec fn directories(entries: Seq<ListedView>) -> Seq<CandidateView>
    decreases entries.len(),
{
    if entries.len() == 0 {
        Seq::empty()
    } else {
        let before = directories(entries.drop_last());
        if entries.last().kind == EntryKind::Directory {
            before.push(CandidateView::Directory(entries.last().path))
        } else {
            before
        }
    }
}

/// The kind of archive that the entry is, if it is one: a file whose
/// extension is that of a known archive.
pub open spec fn archive_of(entry: ListedView) -> Option<ArchiveKind> {
    if entry.kind == EntryKind::File {
        match entry.extension {
            Some(extension) => archive_kind_of(extension),
            None => None,
        }
    } else {
        None
    }
}

/// The archives among the entries, in the order of the listing.
pub open spec fn archives(entries: Seq<ListedView>) -> Seq<CandidateView>
    decreases entries.len(),
{
    if entries.len() == 0 {
        Seq::empty()
    } else {
        let before = archives(entries.drop_last());
        match archive_of(entries.last()) {
            Some(kind) => before.push(CandidateView::Archive(entries.last().path, kind)),
            None => before,
        }
    }
}

/// The places to try below a directory without audio files: first its
/// directories, then its archives.
pub open spec fn candidates_of(entries: Seq<ListedView>) -> Seq<CandidateView> {
    directories(entries) + archives(entries)
}

/// The step that tries a candidate.
pub open spec fn step_into(candidate: CandidateView) -> SearchStepView {
    match candidate {
        CandidateView::Directory(path) => SearchStepView::List(path),
        CandidateView::Archive(path, kind) => SearchStepView::Unpack(path, kind),
    }
}

/// The state of a search: the directories that are being searched, the
/// outermost first, and the step that is due.
pub struct SearchView {
    pub stack: Seq<FrameView>,
    pub step: SearchStepView,
}

/// The search after the place that was tried last has failed with
/// `failure`: the innermost directory that has a candidate left tries it. A
/// directory without one fails in its turn, as not holding audio files. The
/// failure of the outermost ends the search.
pub open spec fn advance(stack: Seq<FrameView>, failure: SearchStepView) -> SearchView
    decreases stack.len(),
{
    if stack.len() == 0 {
        SearchView { stack, step: failure }
    } else {
        let top = stack.last();
        if top.rest.len() > 0 {
            SearchView {
                stack: stack.drop_last().push(
                    FrameView { root: top.root, rest: top.rest.drop_first() },
                ),
                step: step_into(top.rest[0]),
            }
        } else {
            advance(stack.drop_last(), SearchStepView::NotFound(top.root))
        }
    }
}

impl SearchView {
    /// The search for audio files below `root`, before anything is listed.
    pub open spec fn start(root: Seq<char>) -> SearchView {
        SearchView { stack: Seq::empty(), step: SearchStepView::List(root) }
    }

    /// Whether the search has ended.
    pub open spec fn ended(self) -> bool {
        self.step is Found || self.step is NotFound || self.step is Broken
    }

    /// The search after the directory that was to be listed turned out to
    /// hold `entries`. With an audio file among them the directory is found.
    /// Else the search goes on below it. Where no listing was due, nothing
    /// changes.
    pub open spec fn after_listed(self, entries: Seq<ListedView>) -> SearchView {
        match self.step {
            SearchStepView::List(path) => if has_audio(entries) {
                SearchView { stack: self.stack, step: SearchStepView::Found(path) }
            } else {
                advance(
                    self.stack.push(FrameView { root: path, rest: candidates_of(entries) }),
                    SearchStepView::Broken,
                )
            },
            _ => self,
        }
    }

    /// The search after the archive that was to be unpacked has been
    /// unpacked into `root`: that directory is listed next. Where no
    /// unpacking was due, nothing changes.
    pub open spec fn after_unpacked(self, root: Seq<char>) -> SearchView {
        match self.step {
            SearchStepView::Unpack(_, _) => SearchView {
                stack: self.stack,
                step: SearchStepView::List(root),
            },
            _ => self,
        }
    }

    /// The search after the step that was due has failed. A directory that
    /// cannot be listed is given up, and the directory above it goes on. An
    /// archive that cannot be unpacked ends the search of the directory that
    /// holds it, and the directory above that one goes on. Where nothing is
    /// left above, the search ends with this failure. Where the search had
    /// ended, nothing changes.
    pub open spec fn after_failure(self) -> SearchView {
        match self.step {
            SearchStepView::List(_) => advance(self.stack, SearchStepView::Broken),
            SearchStepView::Unpack(_, _) => if self.stack.len() > 0 {
                advance(self.stack.drop_last(), SearchStepView::Broken)
            } else {
                SearchView { stack: self.stack, step: SearchStepView::Broken }
            },
            _ => self,
        }
    }
}

/// Whether the state belongs to a search that was started at `root`: the
/// outermost directory is `root`, and a search that has not listed anything
/// yet, or has found nothing at all, speaks of `root`. While a directory is
/// still being searched, the search has not ended without a find.
pub open spec fn rooted_at(s: SearchView, root: Seq<char>) -> bool {
    if s.stack.len() > 0 {
        s.stack[0].root == root && !(s.step is NotFound)
    } else {
        match s.step {
            SearchStepView::List(path) => path == root,
            SearchStepView::NotFound(path) => path == root,
            SearchStepView::Unpack(_, _) => false,
            _ => true,
        }
    }
}

proof fn lemma_advance_keeps_root(stack: Seq<FrameView>, failure: SearchStepView, root: Seq<char>)
    requires
        stack.len() > 0 ==> stack[0].root == root,
        stack.len() == 0 ==> failure == SearchStepView::NotFound(root) || failure
            == SearchStepView::Broken,
    ensures
        rooted_at(advance(stack, failure), root),
    decreases stack.len(),
{
    if stack.len() > 0 {
        let top = stack.last();
        if top.rest.len() == 0 {
            if stack.len() > 1 {
                assert(stack.drop_last()[0] == stack[0]);
            }
            lemma_advance_keeps_root(stack.drop_last(), SearchStepView::NotFound(top.root), root);
        } else {
            let kept = stack.drop_last().push(
                FrameView { root: top.root, rest: top.rest.drop_first() },
            );
            if stack.len() > 1 {
                assert(kept[0] == stack[0]);
            }
        }
    }
}

/// A search stays the search of its root: it starts there, every report
/// keeps it there, and where it ends without a find, the directory that it
/// names is the root.
pub proof fn lemma_search_keeps_its_root(
    s: SearchView,
    root: Seq<char>,
    entries: Seq<ListedView>,
    unpacked: Seq<char>,
)
    ensures
        rooted_at(SearchView::start(root), root),
        rooted_at(s, root) ==> rooted_at(s.after_listed(entries), root),
        rooted_at(s, root) ==> rooted_at(s.after_unpacked(unpacked), root),
        rooted_at(s, root) ==> rooted_at(s.after_failure(), root),
        rooted_at(s, root) && s.step is NotFound ==> s.step == SearchStepView::NotFound(root),
{
    if rooted_at(s, root) {
        match s.step {
            SearchStepView::List(path) => {
                let pushed = s.stack.push(FrameView { root: path, rest: candidates_of(entries) });
                if s.stack.len() > 0 {
                    assert(pushed[0] == s.stack[0]);
                }
                lemma_advance_keeps_root(pushed, SearchStepView::Broken, root);
                lemma_advance_keeps_root(s.stack, SearchStepView::Broken, root);
            },
            SearchStepView::Unpack(_, _) => {
                if s.stack.len() > 0 {
                    if s.stack.len() > 1 {
                        assert(s.stack.drop_last()[0] == s.stack[0]);
                    }
                    lemma_advance_keeps_root(s.stack.drop_last(), SearchStepView::Broken, root);
                }
            },
            _ => {},
        }
    }
}

/// What a search meets at a directory: a model of the files, as far as the
/// search looks at them.
pub enum World {
    /// The directory cannot be listed.
    Unreadable,
    /// The directory holds these entries, and `below[k]` is what lies at the
    /// candidate at place `k` among them.
    Listing(Seq<ListedView>, Seq<Branch>),
}

/// What lies at a candidate. For a directory: what it holds. For an
/// archive: the directory into which it is unpacked and what that holds, or
/// no directory where it cannot be unpacked.
pub struct Branch {
    pub unpacked: Option<Seq<char>>,
    pub world: World,
}

impl World {
    /// Whether the model says what lies at each candidate of each listing.
    pub open spec fn fits(self) -> bool
        decreases self,
    {
        match self {
            World::Unreadable => true,
            World::Listing(entries, below) => {
                &&& below.len() == candidates_of(entries).len()
                &&& forall|k: int| 0 <= k < below.len() ==> (#[trigger] below[k]).world.fits()
            },
        }
    }
}

/// What the search of the directory `path` gives, where the files are as
/// `world` says: the directory itself where it holds an audio file; else
/// what its directories and then its archives give, each searched in the
/// same way in the order of the listing, the first find ending the search;
/// else nothing. A directory that cannot be listed, and an archive that
/// cannot be unpacked, break the search of the directory at hand.
pub open spec fn search_of(path: Seq<char>, world: World) -> SearchStepView
    decreases world,
{
    match world {
        World::Unreadable => SearchStepView::Broken,
        World::Listing(entries, below) => if has_audio(entries) {
            SearchStepView::Found(path)
        } else {
            search_below(path, candidates_of(entries), below)
        },
    }
}

/// What the search of the candidates below `path` gives, tried in order.
pub open spec fn search_below(
    path: Seq<char>,
    candidates: Seq<CandidateView>,
    below: Seq<Branch>,
) -> SearchStepView
    decreases below,
{
    if candidates.len() == 0 || below.len() == 0 {
        SearchStepView::NotFound(path)
    } else {
        let rest = search_below(path, candidates.drop_first(), below.drop_first());
        match candidates[0] {
            CandidateView::Directory(inner) => match search_of(inner, below[0].world) {
                SearchStepView::Found(found) => SearchStepView::Found(found),
                _ => rest,
            },
            CandidateView::Archive(_, _) => match below[0].unpacked {
                Some(root) => match search_of(root, below[0].world) {
                    SearchStepView::Found(found) => SearchStepView::Found(found),
                    _ => rest,
                },
                None => SearchStepView::Broken,
            },
        }
    }
}

/// The state in which the search leaves the directory that it is about to
/// list, where the files are as `world` says and every report is made as
/// the step that is due asks for it.
pub open spec fn drive(s: SearchView, world: World) -> SearchView
    decreases world,
{
    match world {
        World::Unreadable => s.after_failure(),
        World::Listing(entries, below) => if has_audio(entries) {
            s.after_listed(entries)
        } else {
            drive_below(s.after_listed(entries), below, s.stack.len())
        },
    }
}

/// The state in which the search leaves the candidates of the directory at
/// depth `depth`, the first of which it is about to try.
pub open spec fn drive_below(s: SearchView, below: Seq<Branch>, depth: nat) -> SearchView
    decreases below,
{
    if below.len() == 0 || s.ended() || s.stack.len() != depth + 1 {
        s
    } else {
        let tried = match s.step {
            SearchStepView::Unpack(_, _) => match below[0].unpacked {
                Some(root) => drive(s.after_unpacked(root), below[0].world),
                None => s.after_failure(),
            },
            _ => drive(s, below[0].world),
        };
        drive_below(tried, below.drop_first(), depth)
    }
}

proof fn lemma_advance_never_grows(stack: Seq<FrameView>, failure: SearchStepView)
    ensures
        advance(stack, failure).stack.len() <= stack.len(),
        advance(stack, failure).ended() ==> advance(stack, failure).stack.len() == 0,
        !(failure is List) && !(failure is Unpack) && !(failure is Found) ==> !(advance(
            stack,
            failure,
        ).step is Found),
    decreases stack.len(),
{
    if stack.len() > 0 && stack.last().rest.len() == 0 {
        lemma_advance_never_grows(stack.drop_last(), SearchStepView::NotFound(stack.last().root));
    }
}

proof fn lemma_advance_of_frame(
    stack: Seq<FrameView>,
    path: Seq<char>,
    candidates: Seq<CandidateView>,
    failure: SearchStepView,
)
    ensures
        candidates.len() == 0 ==> advance(
            stack.push(FrameView { root: path, rest: candidates }),
            failure,
        ) == advance(stack, SearchStepView::NotFound(path)),
        candidates.len() > 0 ==> advance(
            stack.push(FrameView { root: path, rest: candidates }),
            failure,
        ) == (SearchView {
            stack: stack.push(FrameView { root: path, rest: candidates.drop_first() }),
            step: step_into(candidates[0]),
        }),
{
    let pushed = stack.push(FrameView { root: path, rest: candidates });
    assert(pushed.drop_last() =~= stack);
    assert(pushed.last() == FrameView { root: path, rest: candidates });
}

proof fn lemma_drive_below_is_depth_first(
    stack: Seq<FrameView>,
    path: Seq<char>,
    candidates: Seq<CandidateView>,
    below: Seq<Branch>,
    failure: SearchStepView,
)
    requires
        below.len() == candidates.len(),
        forall|k: int| 0 <= k < below.len() ==> (#[trigger] below[k]).world.fits(),
    ensures
        ({
            let s = advance(stack.push(FrameView { root: path, rest: candidates }), failure);
            let end = drive_below(s, below, stack.len());
            match search_below(path, candidates, below) {
                SearchStepView::Found(found) => end.step == SearchStepView::Found(found),
                other => end == advance(stack, other),
            }
        }),
    decreases below, 1nat,
{
    let s = advance(stack.push(FrameView { root: path, rest: candidates }), failure);
    lemma_advance_of_frame(stack, path, candidates, failure);
    if candidates.len() == 0 {
        assert(drive_below(s, below, stack.len()) == s);
    } else {
        let kept = stack.push(FrameView { root: path, rest: candidates.drop_first() });
        assert(s.stack == kept);
        assert(s.stack.len() == stack.len() + 1);
        assert(!s.ended());
        let branch = below[0];
        assert(branch.world.fits());
        let rest_below = below.drop_first();
        assert forall|k: int| 0 <= k < rest_below.len() implies (
        #[trigger] rest_below[k]).world.fits() by {
            assert(rest_below[k] == below[k + 1]);
        }
        let tried = match s.step {
            SearchStepView::Unpack(_, _) => match branch.unpacked {
                Some(root) => drive(s.after_unpacked(root), branch.world),
                None => s.after_failure(),
            },
            _ => drive(s, branch.world),
        };
        assert(drive_below(s, below, stack.len()) == drive_below(tried, rest_below, stack.len()));
        match candidates[0] {
            CandidateView::Directory(inner) => {
                lemma_drive_is_depth_first(s, inner, branch.world);
                lemma_after_a_try(stack, path, candidates, below, tried, search_of(inner, branch.world));
            },
            CandidateView::Archive(_, _) => {
                match branch.unpacked {
                    Some(root) => {
                        let entered = s.after_unpacked(root);
                        lemma_drive_is_depth_first(entered, root, branch.world);
                        lemma_after_a_try(
                            stack,
                            path,
                            candidates,
                            below,
                            tried,
                            search_of(root, branch.world),
                        );
                    },
                    None => {
                        assert(kept.drop_last() =~= stack);
                        assert(tried == advance(stack, SearchStepView::Broken));
                        lemma_advance_never_grows(stack, SearchStepView::Broken);
                        assert(drive_below(tried, rest_below, stack.len()) == tried);
                    },
                }
            },
        }
    }
}

proof fn lemma_after_a_try(
    stack: Seq<FrameView>,
    path: Seq<char>,
    candidates: Seq<CandidateView>,
    below: Seq<Branch>,
    tried: SearchView,
    inner: SearchStepView,
)
    requires
        candidates.len() > 0,
        below.len() == candidates.len(),
        forall|k: int| 0 <= k < below.len() ==> (#[trigger] below[k]).world.fits(),
        match inner {
            SearchStepView::Found(found) => tried.step == SearchStepView::Found(found),
            other => tried == advance(
                stack.push(FrameView { root: path, rest: candidates.drop_first() }),
                other,
            ),
        },
    ensures
        ({
            let end = drive_below(tried, below.drop_first(), stack.len());
            let whole = match inner {
                SearchStepView::Found(found) => SearchStepView::Found(found),
                _ => search_below(path, candidates.drop_first(), below.drop_first()),
            };
            match whole {
                SearchStepView::Found(found) => end.step == SearchStepView::Found(found),
                other => end == advance(stack, other),
            }
        }),
    decreases below, 0nat,
{
    let rest_below = below.drop_first();
    match inner {
        SearchStepView::Found(found) => {
            assert(tried.ended());
            assert(drive_below(tried, rest_below, stack.len()) == tried);
        },
        other => {
            assert forall|k: int| 0 <= k < rest_below.len() implies (
            #[trigger] rest_below[k]).world.fits() by {
                assert(rest_below[k] == below[k + 1]);
            }
            lemma_drive_below_is_depth_first(
                stack,
                path,
                candidates.drop_first(),
                rest_below,
                other,
            );
        },
    }
}

/// The search is the depth-first search of the files: from a state that is
/// about to list `path`, where the files are as `world` says and every
/// report is made as asked, the search ends with the find that `search_of`
/// gives. Where `search_of` gives no find, the search goes on above `path`
/// as after any failure, which for the outermost directory is the end of the
/// search, with that same outcome.
pub proof fn lemma_drive_is_depth_first(s: SearchView, path: Seq<char>, world: World)
    requires
        s.step == SearchStepView::List(path),
        world.fits(),
    ensures
        match search_of(path, world) {
            SearchStepView::Found(found) => drive(s, world).step == SearchStepView::Found(found),
            other => drive(s, world) == advance(s.stack, other),
        },
        s.stack.len() == 0 ==> drive(s, world).step == search_of(path, world),
    decreases world,
{
    match world {
        World::Unreadable => {},
        World::Listing(entries, below) => {
            if !has_audio(entries) {
                lemma_drive_below_is_depth_first(
                    s.stack,
                    path,
                    candidates_of(entries),
                    below,
                    SearchStepView::Broken,
                );
            }
        },
    }
}

/// Whether the entry is an audio file.
pub fn entry_is_audio(entry: &Listed) -> (r: bool)
    ensures
        r == is_audio(entry@),
{
    if entry.kind == EntryKind::File {
        match &entry.extension {
            Some(extension) => same_text(extension.as_str(), "flac"),
            None => false,
        }
    } else {
        false
    }
}

/// Whether one of the entries is an audio file.
pub fn holds_audio(entries: &Vec<Listed>) -> (r: bool)
    ensures
        r == has_audio(listed_views(entries@)),
{
    let mut i: usize = 0;
    while i < entries.len()
        invariant
            i <= entries@.len(),
            forall|k: int| 0 <= k < i ==> !is_audio(#[trigger] listed_views(entries@)[k]),
        decreases entries@.len() - i,
    {
        assert(listed_views(entries@)[i as int] == entries@[i as int]@);
        if entry_is_audio(&entries[i]) {
            return true;
        }
        i += 1;
    }
    false
}

/// The places to try below a directory with these entries: first its
/// directories, then its archives, each in the order of the listing.
pub fn candidates(entries: &Vec<Listed>) -> (r: Vec<Candidate>)
    ensures
        candidate_views(r@) == candidates_of(listed_views(entries@)),
{
    let ghost views = listed_views(entries@);
    let mut r: Vec<Candidate> = Vec::new();
    assert(candidate_views(r@) =~= Seq::empty());
    let mut i: usize = 0;
    while i < entries.len()
        invariant
            i <= entries@.len(),
            views == listed_views(entries@),
            candidate_views(r@) == directories(views.subrange(0, i as int)),
        decreases entries@.len() - i,
    {
        proof {
            assert(views.subrange(0, i + 1).drop_last() =~= views.subrange(0, i as int));
            assert(views.subrange(0, i + 1).last() == entries@[i as int]@);
        }
        if entries[i].kind == EntryKind::Directory {
            let ghost before = candidate_views(r@);
            r.push(Candidate::Directory(entries[i].path.clone()));
            assert(candidate_views(r@) =~= before.push(
                CandidateView::Directory(entries@[i as int]@.path),
            ));
        }
        i += 1;
    }
    assert(views.subrange(0, i as int) =~= views);
    let mut j: usize = 0;
    while j < entries.len()
        invariant
            j <= entries@.len(),
            views == listed_views(entries@),
            candidate_views(r@) == directories(views) + archives(views.subrange(0, j as int)),
        decreases entries@.len() - j,
    {
        proof {
            assert(views.subrange(0, j + 1).drop_last() =~= views.subrange(0, j as int));
            assert(views.subrange(0, j + 1).last() == entries@[j as int]@);
        }
        if entries[j].kind == EntryKind::File {
            match &entries[j].extension {
                Some(extension) => {
                    match archive_kind(extension.as_str()) {
                        Some(kind) => {
                            let ghost before = candidate_views(r@);
                            r.push(Candidate::Archive(entries[j].path.clone(), kind));
                            assert(candidate_views(r@) =~= before.push(
                                CandidateView::Archive(entries@[j as int]@.path, kind),
                            ));
                            assert(candidate_views(r@) =~= directories(views) + archives(
                                views.subrange(0, j + 1),
                            ));
                        },
                        None => {},
                    }
                },
                None => {},
            }
        }
        j += 1;
    }
    assert(views.subrange(0, j as int) =~= views);
    r
}

/// The candidates in reverse order.
fn reversed(list: Vec<Candidate>) -> (r: Vec<Candidate>)
    ensures
        backwards(r@) == candidate_views(list@),
{
    let mut left = list;
    let mut r: Vec<Candidate> = Vec::new();
    while left.len() > 0
        invariant
            left@.len() + r@.len() == list@.len(),
            forall|k: int| 0 <= k < left@.len() ==> left@[k] == list@[k],
            forall|k: int| 0 <= k < r@.len() ==> r@[k] == list@[list@.len() - 1 - k],
        decreases left@.len(),
    {
        match left.pop() {
            Some(c) => {
                r.push(c);
            },
            None => {},
        }
    }
    assert(backwards(r@) =~= candidate_views(list@));
    r
}

/// A search for the directory that holds the audio files: the directories
/// that are being searched, the outermost first, and the step that is due.
#[derive(Debug)]
pub struct Search {
    pub stack: Vec<Frame>,
    pub step: SearchStep,
}

impl View for Search {
    type V = SearchView;

    open spec fn view(&self) -> SearchView {
        SearchView { stack: frame_views(self.stack@), step: self.step@ }
    }
}

fn copy_step(step: &SearchStep) -> (r: SearchStep)
    ensures
        r == *step,
{
    match step {
        SearchStep::List(path) => SearchStep::List(path.clone()),
        SearchStep::Unpack(path, kind) => SearchStep::Unpack(path.clone(), *kind),
        SearchStep::Found(path) => SearchStep::Found(path.clone()),
        SearchStep::NotFound(path) => SearchStep::NotFound(path.clone()),
        SearchStep::Broken => SearchStep::Broken,
    }
}

impl Search {
    /// A search for audio files below `root`.
    pub fn new(root: String) -> (r: Search)
        ensures
            r@ == SearchView::start(root@),
    {
        let r = Search { stack: Vec::new(), step: SearchStep::List(root) };
        assert(frame_views(r.stack@) =~= Seq::empty());
        r
    }

    /// What the caller does next.
    pub fn step(&self) -> (r: SearchStep)
        ensures
            r@ == self@.step,
    {
        copy_step(&self.step)
    }

    /// The error of a search that has ended without a find because nothing
    /// below its root holds audio files. It names the root.
    pub fn failure(&self) -> (r: Option<ReflacError>)
        ensures
            match self@.step {
                SearchStepView::NotFound(root) => r matches Some(e) && e@
                    == ErrorView::NoFlacFilesFound(root),
                _ => r is None,
            },
    {
        match &self.step {
            SearchStep::NotFound(root) => Some(ReflacError::NoFlacFilesFound(root.clone())),
            _ => None,
        }
    }

    fn go_on(&mut self, failure: SearchStep)
        ensures
            final(self)@ == advance(old(self)@.stack, failure@),
    {
        let mut reason = failure;
        loop
            invariant
                advance(old(self)@.stack, failure@) == advance(frame_views(self.stack@), reason@),
            decreases self.stack@.len(),
        {
            let ghost views = frame_views(self.stack@);
            match self.stack.pop() {
                None => {
                    assert(views.len() == 0);
                    assert(frame_views(self.stack@) =~= views);
                    assert(advance(views, reason@) == SearchView { stack: views, step: reason@ });
                    self.step = reason;
                    assert(self@ == advance(old(self)@.stack, failure@));
                    return ;
                },
                Some(frame) => {
                    assert(frame@ == views.last());
                    assert(frame_views(self.stack@) =~= views.drop_last());
                    let Frame { root, untried } = frame;
                    let mut untried = untried;
                    let ghost rest = backwards(untried@);
                    match untried.pop() {
                        Some(candidate) => {
                            assert(candidate@ == rest[0]);
                            assert(backwards(untried@) =~= rest.drop_first());
                            self.step = match candidate {
                                Candidate::Directory(path) => SearchStep::List(path),
                                Candidate::Archive(path, kind) => SearchStep::Unpack(path, kind),
                            };
                            let ghost below = frame_views(self.stack@);
                            let kept = Frame { root, untried };
                            self.stack.push(kept);
                            assert(frame_views(self.stack@) =~= below.push(kept@));
                            return ;
                        },
                        None => {
                            reason = SearchStep::NotFound(root);
                        },
                    }
                },
            }
        }
    }

    /// Takes the entries of the directory that was to be listed.
    pub fn listed(&mut self, entries: Vec<Listed>)
        ensures
            final(self)@ == old(self)@.after_listed(listed_views(entries@)),
    {
        let path = match &self.step {
            SearchStep::List(path) => path.clone(),
            _ => {
                return ;
            },
        };
        if holds_audio(&entries) {
            self.step = SearchStep::Found(path);
        } else {
            let ghost before = frame_views(self.stack@);
            let untried = reversed(candidates(&entries));
            let frame = Frame { root: path, untried };
            self.stack.push(frame);
            assert(frame_views(self.stack@) =~= before.push(frame@));
            self.go_on(SearchStep::Broken);
        }
    }

    /// Takes the directory into which the archive that was to be unpacked
    /// has been unpacked.
    pub fn unpacked(&mut self, root: String)
        ensures
            final(self)@ == old(self)@.after_unpacked(root@),
    {
        if let SearchStep::Unpack(_, _) = &self.step {
            self.step = SearchStep::List(root);
        }
    }

    /// Takes the report that the step that was due has failed.
    pub fn failed(&mut self)
        ensures
            final(self)@ == old(self)@.after_failure(),
    {
        match &self.step {
            SearchStep::List(_) => {
                self.go_on(SearchStep::Broken);
            },
            SearchStep::Unpack(_, _) => {
                if self.stack.len() > 0 {
                    let ghost before = frame_views(self.stack@);
                    self.stack.pop();
                    assert(frame_views(self.stack@) =~= before.drop_last());
                    self.go_on(SearchStep::Broken);
                } else {
                    self.step = SearchStep::Broken;
                }
            },
            _ => {},
        }
    }
}

} // verus!
