//! Resolving an input: a walk along the components of its path, through
//! directories and, by unpacking them, through archives.

use vstd::prelude::*;
use crate::command::{archive_kind, archive_kind_of, ArchiveKind};
use crate::error::{ErrorView, ReflacError};
use crate::paths::{join, joined, joined_all};
use crate::tag::text_view;
use crate::text::texts;

verus! {

/// What the caller found at a path.
#[derive(Debug)]
pub enum Found {
    /// Nothing exists there.
    Missing,
    /// Something that is not a regular file, such as a directory.
    Directory,
    /// A regular file, with the extension of its name if it has one.
    File(Option<String>),
}

/// What the caller does next on a walk.
#[derive(Debug)]
pub enum WalkStep {
    /// Look at this path and report what is there.
    Probe(String),
    /// The walk has ended at this path.
    Done(String),
}

/// A `WalkStep` as mathematics sees it.
pub enum WalkStepView {
    Probe(Seq<char>),
    Done(Seq<char>),
}

impl View for WalkStep {
    type V = WalkStepView;

    open spec fn view(&self) -> WalkStepView {
        match *self {
            WalkStep::Probe(path) => WalkStepView::Probe(path@),
            WalkStep::Done(path) => WalkStepView::Done(path@),
        }
    }
}

/// A walk along the components of an input's path. `progress` is the path as
/// it was written, up to the component reached. `position` is where that
/// path leads: the same, until an archive is passed, and from then on a
/// place in the unpacked tree.
#[derive(Debug)]
pub struct Walk {
    pub components: Vec<String>,
    pub index: usize,
    pub progress: String,
    pub position: String,
}

/// A `Walk` as mathematics sees it.
pub struct WalkView {
    pub components: Seq<Seq<char>>,
    pub index: nat,
    pub progress: Seq<char>,
    pub position: Seq<char>,
}

impl View for Walk {
    type V = WalkView;

    open spec fn view(&self) -> WalkView {
        WalkView {
            components: texts(self.components@),
            index: self.index as nat,
            progress: self.progress@,
            position: self.position@,
        }
    }
}

/// What the walk has found at the path it asked about.
pub enum FoundView {
    Missing,
    Directory,
    File(Option<Seq<char>>),
}

impl View for Found {
    type V = FoundView;

    open spec fn view(&self) -> FoundView {
        match *self {
            Found::Missing => FoundView::Missing,
            Found::Directory => FoundView::Directory,
            Found::File(extension) => FoundView::File(text_view(extension)),
        }
    }
}

impl WalkView {
    /// The walk before its first component.
    pub open spec fn start(components: Seq<Seq<char>>) -> WalkView {
        WalkView { components, index: 0, progress: Seq::empty(), position: Seq::empty() }
    }

    /// Whether every component has been passed.
    pub open spec fn at_end(self) -> bool {
        self.index >= self.components.len()
    }

    /// The path as written, with the next component.
    pub open spec fn next_progress(self) -> Seq<char> {
        joined(self.progress, self.components[self.index as int])
    }

    /// The path to look at next: the next component below the position.
    pub open spec fn next_position(self) -> Seq<char> {
        joined(self.position, self.components[self.index as int])
    }

    /// What the caller does next.
    pub open spec fn next(self) -> WalkStepView {
        if self.at_end() {
            WalkStepView::Done(self.position)
        } else {
            WalkStepView::Probe(self.next_position())
        }
    }

    /// The walk one component further, at `position`.
    pub open spec fn moved_to(self, position: Seq<char>) -> WalkView {
        WalkView {
            components: self.components,
            index: self.index + 1,
            progress: self.next_progress(),
            position,
        }
    }

    /// What finding `found` at the path asked about leads to. Nothing there
    /// is an error that names the path as written. A directory is entered.
    /// A file must be a known archive: then the walk waits, unchanged, for
    /// the archive to be unpacked, else the error names the path as written.
    /// A walk that is at its end does not change.
    pub open spec fn after_found(self, found: FoundView) -> Result<
        (WalkView, Option<ArchiveKind>),
        ErrorView,
    > {
        if self.at_end() {
            Ok((self, None))
        } else {
            match found {
                FoundView::Missing => Err(ErrorView::PathDoesNotExist(self.next_progress())),
                FoundView::Directory => Ok((self.moved_to(self.next_position()), None)),
                FoundView::File(None) => Err(ErrorView::InvalidInputPath(self.next_progress())),
                FoundView::File(Some(extension)) => match archive_kind_of(extension) {
                    Some(kind) => Ok((self, Some(kind))),
                    None => Err(ErrorView::InvalidInputPath(self.next_progress())),
                },
            }
        }
    }

    /// The walk after the archive at the path asked about has been unpacked
    /// into `root`, whose entries are `entries`: it goes on from the one
    /// entry where there is exactly one, else from `root`. A walk that is at
    /// its end does not change.
    pub open spec fn after_unpacked(self, root: Seq<char>, entries: Seq<Seq<char>>) -> WalkView {
        if self.at_end() {
            self
        } else if entries.len() == 1 {
            self.moved_to(entries[0])
        } else {
            self.moved_to(root)
        }
    }

    /// The walk after `k` components that all were directories.
    pub open spec fn after_directories(self, k: nat) -> WalkView
        decreases k,
    {
        if k == 0 {
            self
        } else {
            let before = self.after_directories((k - 1) as nat);
            match before.after_found(FoundView::Directory) {
                Ok((walk, _)) => walk,
                Err(_) => before,
            }
        }
    }
}

/// A path that leads through directories only resolves to itself: after `k`
/// components that all were directories, the walk stands at the first `k`
/// components joined, and the path as written is the same.
pub proof fn lemma_directories_resolve_to_the_path(components: Seq<Seq<char>>, k: nat)
    requires
        k <= components.len(),
    ensures
        ({
            let walk = WalkView::start(components).after_directories(k);
            &&& walk.index == k
            &&& walk.components == components
            &&& walk.position == joined_all(Seq::empty(), components.subrange(0, k as int))
            &&& walk.progress == walk.position
        }),
    decreases k,
{
    if k > 0 {
        lemma_directories_resolve_to_the_path(components, (k - 1) as nat);
        assert(components.subrange(0, k as int).drop_last() =~= components.subrange(
            0,
            k as int - 1,
        ));
        assert(components.subrange(0, k as int).last() == components[k as int - 1]);
    } else {
        assert(components.subrange(0, 0) =~= Seq::empty());
    }
}

/// The view of the outcome of a report.
pub open spec fn report_view(walk: Walk, r: Result<Option<ArchiveKind>, ReflacError>) -> Result<
    (WalkView, Option<ArchiveKind>),
    ErrorView,
> {
    match r {
        Ok(kind) => Ok((walk@, kind)),
        Err(e) => Err(e@),
    }
}

impl Walk {
    /// A walk along `components`, before the first of them.
    pub fn new(components: Vec<String>) -> (r: Walk)
        ensures
            r@ == WalkView::start(texts(components@)),
    {
        Walk { components, index: 0, progress: String::new(), position: String::new() }
    }

    /// What the caller does next.
    pub fn next(&self) -> (r: WalkStep)
        ensures
            r@ == self@.next(),
    {
        if self.index >= self.components.len() {
            WalkStep::Done(self.position.clone())
        } else {
            assert(texts(self.components@)[self.index as int] == self.components@[self.index as int]@);
            WalkStep::Probe(join(self.position.as_str(), self.components[self.index].as_str()))
        }
    }

    /// Takes the caller's report of what is at the path asked about. `Ok`
    /// with an archive kind asks the caller to unpack the file at that path
    /// and to report with `unpacked`. On an error the walk is unchanged.
    pub fn found(&mut self, found: Found) -> (r: Result<Option<ArchiveKind>, ReflacError>)
        ensures
            report_view(*final(self), r) == old(self)@.after_found(found@),
            r is Err ==> *final(self) == *old(self),
    {
        if self.index >= self.components.len() {
            return Ok(None);
        }
        assert(texts(self.components@)[self.index as int] == self.components@[self.index as int]@);
        let progress = join(self.progress.as_str(), self.components[self.index].as_str());
        match found {
            Found::Missing => Err(ReflacError::PathDoesNotExist(progress)),
            Found::Directory => {
                let position = join(self.position.as_str(), self.components[self.index].as_str());
                self.progress = progress;
                self.position = position;
                self.index = self.index + 1;
                Ok(None)
            },
            Found::File(None) => Err(ReflacError::InvalidInputPath(progress)),
            Found::File(Some(extension)) => match archive_kind(extension.as_str()) {
                Some(kind) => Ok(Some(kind)),
                None => Err(ReflacError::InvalidInputPath(progress)),
            },
        }
    }

    /// Takes the caller's report that the archive at the path asked about
    /// has been unpacked into `root`, which now holds `entries`.
    pub fn unpacked(&mut self, root: String, entries: Vec<String>)
        ensures
            final(self)@ == old(self)@.after_unpacked(root@, texts(entries@)),
    {
        if self.index >= self.components.len() {
            return ;
        }
        assert(texts(self.components@)[self.index as int] == self.components@[self.index as int]@);
        let progress = join(self.progress.as_str(), self.components[self.index].as_str());
        let mut found = entries;
        let position = if found.len() == 1 {
            assert(texts(entries@)[0] == entries@[0]@);
            match found.pop() {
                Some(entry) => entry,
                None => root,
            }
        } else {
            root
        };
        self.progress = progress;
        self.position = position;
        self.index = self.index + 1;
    }
}

} // verus!
