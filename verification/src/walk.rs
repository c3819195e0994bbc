//! The walk over a tree of artist directories and release directories.
//!
//! The walk itself reads no directory. It says which directory is to be
//! listed next, takes what the listing gave, and keeps what was found. A
//! listing that failed ends the walk with an error that says which step failed
//! and why.

use vstd::prelude::*;
use vstd::string::*;

use crate::check::{check_releases, diagnostics_in, releases_in, Diagnostic, DiagnosticView};
use crate::collection::{
    artist_at, by_artist, distinct_artists, has_artist, index_of, law_put_is_insert, put,
    ArtistCollection, ArtistReleasesView,
};
use crate::listing::{directories, directory_names, Entry, EntryView};
use crate::models::release::ReleaseView;
use crate::report::{header, law_report_shows_every_artist, report, report_lines};
use crate::split::{contains, occurs_at};

verus! {

/// A directory that could not be listed.
#[derive(Debug, PartialEq, Eq)]
pub enum IoError {
    /// The artist directories under `root` could not be listed.
    Artists { root: String, reason: String },
    /// The release directories of `artist` could not be listed.
    Releases { artist: String, reason: String },
}

/// An `IoError` as a mathematical value.
pub enum IoErrorView {
    Artists { root: Seq<char>, reason: Seq<char> },
    Releases { artist: Seq<char>, reason: Seq<char> },
}

impl View for IoError {
    type V = IoErrorView;

    open spec fn view(&self) -> IoErrorView {
        match self {
            IoError::Artists { root, reason } => IoErrorView::Artists {
                root: root@,
                reason: reason@,
            },
            IoError::Releases { artist, reason } => IoErrorView::Releases {
                artist: artist@,
                reason: reason@,
            },
        }
    }
}

impl IoErrorView {
    /// The message that reports the error: the step that failed, the
    /// directory it failed on, and the reason.
    pub open spec fn message(self) -> Seq<char> {
        match self {
            IoErrorView::Artists { root, reason } => "Failed to get list of artist directories in '"@
                + root + "': "@ + reason,
            IoErrorView::Releases { artist, reason } => "Failed to get list of releases for artist '"@
                + artist + "': "@ + reason,
        }
    }
}

impl IoError {
    /// The message that reports the error: the step that failed, the
    /// directory it failed on, and the reason.
    pub fn message(&self) -> (text: String)
        ensures
            text@ == self@.message(),
    {
        match self {
            IoError::Artists { root, reason } => {
                let mut text = String::from_str("Failed to get list of artist directories in '");
                text.append(root.as_str());
                text.append("': ");
                text.append(reason.as_str());
                text
            },
            IoError::Releases { artist, reason } => {
                let mut text = String::from_str("Failed to get list of releases for artist '");
                text.append(artist.as_str());
                text.append("': ");
                text.append(reason.as_str());
                text
            },
        }
    }
}

/// What an attempt to list a directory gave, as a mathematical value: the
/// entries, or the reason why there are none.
pub open spec fn listing_view(listing: Result<Vec<Entry>, String>) -> Result<
    Seq<EntryView>,
    Seq<char>,
> {
    match listing {
        Ok(entries) => Ok(entries.deep_view()),
        Err(reason) => Err(reason@),
    }
}

/// A walk as a mathematical value.
pub struct WalkView {
    /// The artist directories under the root, in the order of the listing.
    pub artists: Seq<Seq<char>>,
    /// How many of them have been visited: those before this index.
    pub visited: nat,
    /// What the visits have found.
    pub collection: Seq<ArtistReleasesView>,
}

impl WalkView {
    /// The artist whose directory is to be listed next, if one is left.
    pub open spec fn next_artist(self) -> Option<Seq<char>> {
        if self.visited < self.artists.len() {
            Some(self.artists[self.visited as int])
        } else {
            None
        }
    }

    /// The walk after the directory of its next artist gave `entries`: the
    /// releases that the directories among them describe stand under the
    /// artist, and the artist is visited.
    pub open spec fn after_visit(self, entries: Seq<EntryView>) -> WalkView {
        match self.next_artist() {
            Some(artist) => WalkView {
                artists: self.artists,
                visited: self.visited + 1,
                collection: put(
                    self.collection,
                    artist,
                    releases_in(directory_names(entries)),
                ),
            },
            None => self,
        }
    }
}

/// A walk under way.
#[derive(Debug, PartialEq, Eq)]
pub struct Walk {
    artists: Vec<String>,
    visited: usize,
    collection: ArtistCollection,
}

impl View for Walk {
    type V = WalkView;

    closed spec fn view(&self) -> WalkView {
        WalkView {
            artists: self.artists.deep_view(),
            visited: self.visited as nat,
            collection: self.collection@,
        }
    }
}

impl Walk {
    #[verifier::type_invariant]
    spec fn visited_in_range(self) -> bool {
        self.visited <= self.artists.len()
    }

    /// Starts a walk from what listing the root directory `root` gave. The
    /// directories among the entries are the artists, none of them visited
    /// yet. A listing that failed gives no walk but the error, which names
    /// `root` and the reason.
    pub fn begin(root: &str, listing: Result<Vec<Entry>, String>) -> (started: Result<Walk, IoError>)
        ensures
            match started {
                Ok(walk) => listing is Ok && walk@ == (WalkView {
                    artists: directory_names(listing->Ok_0.deep_view()),
                    visited: 0,
                    collection: Seq::empty(),
                }),
                Err(error) => listing is Err && error@ == (IoErrorView::Artists {
                    root: root@,
                    reason: listing->Err_0@,
                }),
            },
    {
        match listing {
            Ok(entries) => Ok(
                Walk {
                    artists: directories(&entries),
                    visited: 0,
                    collection: ArtistCollection::new(),
                },
            ),
            Err(reason) => Err(IoError::Artists { root: root.to_owned(), reason }),
        }
    }

    /// The artist whose directory is to be listed next, or `None` when every
    /// artist has been visited.
    pub fn next_artist(&self) -> (artist: Option<&String>)
        ensures
            match artist {
                Some(name) => self@.next_artist() == Some(name@),
                None => self@.next_artist() is None,
            },
    {
        proof {
            use_type_invariant(self);
        }
        if self.visited < self.artists.len() {
            Some(&self.artists[self.visited])
        } else {
            None
        }
    }

    /// Takes what listing the directory of the next artist gave.
    ///
    /// From entries, every directory among them is read as a release; the
    /// releases go into the collection under the artist, also when there are
    /// none, and the diagnostics of the names that describe no release are
    /// returned, in the order of the entries. A listing that failed leaves
    /// the walk as it was and returns the error, which names the artist and
    /// the reason. When no artist is left, nothing changes and nothing is
    /// reported.
    pub fn visit(&mut self, listing: Result<Vec<Entry>, String>) -> (visited: Result<
        Vec<Diagnostic>,
        IoError,
    >)
        ensures
            match (old(self)@.next_artist(), listing_view(listing)) {
                (Some(artist), Ok(entries)) => visited is Ok && visited->Ok_0.deep_view()
                    == diagnostics_in(directory_names(entries)) && final(self)@ == old(
                    self,
                )@.after_visit(entries),
                (Some(artist), Err(reason)) => visited is Err && visited->Err_0@
                    == (IoErrorView::Releases { artist, reason }) && final(self)@ == old(self)@,
                (None, _) => visited is Ok && visited->Ok_0.deep_view()
                    == Seq::<DiagnosticView>::empty() && final(self)@ == old(self)@,
            },
    {
        proof {
            use_type_invariant(&*self);
        }
        if self.visited >= self.artists.len() {
            let nothing: Vec<Diagnostic> = Vec::new();
            assert(nothing.deep_view() =~= Seq::<DiagnosticView>::empty());
            return Ok(nothing);
        }
        let artist = self.artists[self.visited].clone();
        match listing {
            Ok(entries) => {
                let names = directories(&entries);
                let (releases, diagnostics) = check_releases(&names);
                let mut collection = ArtistCollection::new();
                std::mem::swap(&mut collection, &mut self.collection);
                collection.insert(artist, releases);
                self.collection = collection;
                self.visited = self.visited + 1;
                Ok(diagnostics)
            },
            Err(reason) => Err(IoError::Releases { artist, reason }),
        }
    }

    /// Whether every artist has been visited.
    pub fn is_done(&self) -> (done: bool)
        ensures
            done == self@.next_artist() is None,
    {
        self.visited >= self.artists.len()
    }

    /// The lines of the report on what the visits have found so far.
    pub fn report(&self) -> (lines: Vec<String>)
        ensures
            lines.deep_view() == report_lines(self@.collection),
    {
        report(&self.collection)
    }

    /// What the visits have found so far.
    pub fn collection(&self) -> (collection: &ArtistCollection)
        ensures
            collection@ == self@.collection,
    {
        &self.collection
    }
}

/// The message of an error names the directory that could not be listed: the
/// root where the artists could not be listed, the artist where its releases
/// could not.
pub proof fn law_error_names_directory(error: IoErrorView)
    ensures
        match error {
            IoErrorView::Artists { root, reason } => contains(error.message(), root),
            IoErrorView::Releases { artist, reason } => contains(error.message(), artist),
        },
{
    match error {
        IoErrorView::Artists { root, reason } => {
            let at = "Failed to get list of artist directories in '"@.len() as int;
            assert(error.message().subrange(at, at + root.len()) =~= root);
            assert(occurs_at(error.message(), root, at));
        },
        IoErrorView::Releases { artist, reason } => {
            let at = "Failed to get list of releases for artist '"@.len() as int;
            assert(error.message().subrange(at, at + artist.len()) =~= artist);
            assert(occurs_at(error.message(), artist, at));
        },
    }
}

/// An artist whose directory holds no directory is in the collection all the
/// same, with no releases, and in the report with its header; and the visit
/// gives no diagnostic.
pub proof fn law_artist_without_releases(walk: WalkView, entries: Seq<EntryView>)
    requires
        distinct_artists(walk.collection),
        walk.next_artist() is Some,
        directory_names(entries).len() == 0,
    ensures
        has_artist(walk.after_visit(entries).collection, walk.next_artist()->0),
        by_artist(walk.after_visit(entries).collection)[walk.next_artist()->0] == Seq::<
            ReleaseView,
        >::empty(),
        report_lines(walk.after_visit(entries).collection).contains(
            header(walk.next_artist()->0),
        ),
        diagnostics_in(directory_names(entries)) == Seq::<DiagnosticView>::empty(),
{
    let artist = walk.next_artist()->0;
    let names = directory_names(entries);
    assert(names =~= Seq::<Seq<char>>::empty());
    assert(releases_in(names) =~= Seq::<ReleaseView>::empty());
    assert(diagnostics_in(names) =~= Seq::<DiagnosticView>::empty());
    let after = walk.after_visit(entries).collection;
    law_put_is_insert(walk.collection, artist, releases_in(names));
    let at = index_of(after, artist);
    assert(artist_at(after, artist, at));
    law_report_shows_every_artist(after, at);
}

} // verus!
