//! The releases that a walk has found, artist by artist.
//!
//! A collection keeps its artists in the order in which they first came in,
//! and keeps each artist once: what comes in under a name that is already
//! there takes the place of what was there.

use vstd::prelude::*;
use vstd::string::*;

use crate::models::release::{Release, ReleaseView};

verus! {

/// One artist with the releases found for it.
#[derive(Debug, PartialEq, Eq)]
pub struct ArtistReleases {
    /// The artist's display name: the name of the artist's directory.
    pub artist: String,
    /// The releases, in the order in which they were found.
    pub releases: Vec<Release>,
}

/// An `ArtistReleases` as a mathematical value.
pub struct ArtistReleasesView {
    pub artist: Seq<char>,
    pub releases: Seq<ReleaseView>,
}

impl View for ArtistReleases {
    type V = ArtistReleasesView;

    open spec fn view(&self) -> ArtistReleasesView {
        ArtistReleasesView { artist: self.artist@, releases: self.releases.deep_view() }
    }
}

impl DeepView for ArtistReleases {
    type V = ArtistReleasesView;

    open spec fn deep_view(&self) -> ArtistReleasesView {
        self@
    }
}

/// Whether `artist` stands at index `i` of `entries`.
pub open spec fn artist_at(entries: Seq<ArtistReleasesView>, artist: Seq<char>, i: int) -> bool {
    0 <= i < entries.len() && entries[i].artist == artist
}

/// Whether `entries` hold `artist`.
pub open spec fn has_artist(entries: Seq<ArtistReleasesView>, artist: Seq<char>) -> bool {
    exists|i: int| artist_at(entries, artist, i)
}

/// An index at which `artist` stands in `entries`, where `entries` hold it.
pub open spec fn index_of(entries: Seq<ArtistReleasesView>, artist: Seq<char>) -> int {
    choose|i: int| artist_at(entries, artist, i)
}

/// Whether no artist stands twice in `entries`.
pub open spec fn distinct_artists(entries: Seq<ArtistReleasesView>) -> bool {
    forall|i: int, j: int|
        0 <= i < j < entries.len() ==> #[trigger] entries[i].artist != #[trigger] entries[j].artist
}

/// `entries` after `releases` came in under `artist`: in the place of what
/// was there under that name, or else behind all others.
pub open spec fn put(
    entries: Seq<ArtistReleasesView>,
    artist: Seq<char>,
    releases: Seq<ReleaseView>,
) -> Seq<ArtistReleasesView> {
    if has_artist(entries, artist) {
        entries.update(index_of(entries, artist), ArtistReleasesView { artist, releases })
    } else {
        entries.push(ArtistReleasesView { artist, releases })
    }
}

/// The releases by artist: what `entries` hold, without the order of the
/// artists.
pub open spec fn by_artist(entries: Seq<ArtistReleasesView>) -> Map<Seq<char>, Seq<ReleaseView>> {
    Map::new(
        |artist: Seq<char>| has_artist(entries, artist),
        |artist: Seq<char>| entries[index_of(entries, artist)].releases,
    )
}

/// Where no artist stands twice, an artist stands at one index only.
proof fn lemma_index_of(entries: Seq<ArtistReleasesView>, artist: Seq<char>, i: int)
    requires
        distinct_artists(entries),
        artist_at(entries, artist, i),
    ensures
        has_artist(entries, artist),
        index_of(entries, artist) == i,
{
    let k = index_of(entries, artist);
    assert(artist_at(entries, artist, k));
    if k < i {
        assert(entries[k].artist != entries[i].artist);
    } else if i < k {
        assert(entries[i].artist != entries[k].artist);
    }
}

/// Putting releases under an artist is an insertion into the releases by
/// artist: the artist has the new releases, every other artist has what it
/// had, and still no artist stands twice. A new artist makes the collection
/// longer by one, a known one leaves its length.
pub proof fn law_put_is_insert(
    entries: Seq<ArtistReleasesView>,
    artist: Seq<char>,
    releases: Seq<ReleaseView>,
)
    requires
        distinct_artists(entries),
    ensures
        distinct_artists(put(entries, artist, releases)),
        has_artist(put(entries, artist, releases), artist),
        by_artist(put(entries, artist, releases)) == by_artist(entries).insert(artist, releases),
        put(entries, artist, releases).len() == entries.len() + if has_artist(entries, artist) {
            0int
        } else {
            1int
        },
{
    let after = put(entries, artist, releases);
    let at: int = if has_artist(entries, artist) {
        index_of(entries, artist)
    } else {
        entries.len() as int
    };
    assert(has_artist(entries, artist) ==> artist_at(entries, artist, at));
    assert(artist_at(after, artist, at));
    assert forall|j: int| 0 <= j < entries.len() implies #[trigger] after[j].artist
        == entries[j].artist by {}
    assert forall|i: int, j: int| 0 <= i < j < after.len() implies #[trigger] after[i].artist
        != #[trigger] after[j].artist by {
        if j == entries.len() {
            assert(!artist_at(entries, artist, i));
        } else {
            assert(entries[i].artist != entries[j].artist);
        }
    }
    lemma_index_of(after, artist, at);
    assert forall|other: Seq<char>| #[trigger]
        has_artist(after, other) == (other == artist || has_artist(entries, other)) by {
        if has_artist(after, other) {
            let k = index_of(after, other);
            assert(artist_at(after, other, k));
            if other != artist {
                assert(artist_at(entries, other, k));
            }
        }
        if has_artist(entries, other) {
            let k = index_of(entries, other);
            assert(artist_at(entries, other, k));
            assert(artist_at(after, other, k));
        }
    }
    assert forall|other: Seq<char>| has_artist(after, other) implies #[trigger] by_artist(
        after,
    )[other] == by_artist(entries).insert(artist, releases)[other] by {
        if other != artist {
            let k = index_of(entries, other);
            assert(artist_at(entries, other, k));
            assert(artist_at(after, other, k));
            lemma_index_of(after, other, k);
        }
    }
    assert(by_artist(after) =~= by_artist(entries).insert(artist, releases));
}

/// The releases found so far, artist by artist.
#[derive(Debug, PartialEq, Eq)]
pub struct ArtistCollection {
    entries: Vec<ArtistReleases>,
}

impl View for ArtistCollection {
    type V = Seq<ArtistReleasesView>;

    closed spec fn view(&self) -> Seq<ArtistReleasesView> {
        self.entries.deep_view()
    }
}

impl ArtistCollection {
    #[verifier::type_invariant]
    spec fn no_artist_twice(self) -> bool {
        distinct_artists(self.entries.deep_view())
    }

    /// A collection without artists.
    pub fn new() -> (collection: ArtistCollection)
        ensures
            collection@ == Seq::<ArtistReleasesView>::empty(),
    {
        let collection = ArtistCollection { entries: Vec::new() };
        assert(collection.entries.deep_view() =~= Seq::<ArtistReleasesView>::empty());
        collection
    }

    /// The index at which `artist` stands, if the collection holds it.
    fn find(&self, artist: &str) -> (found: Option<usize>)
        ensures
            match found {
                Some(i) => artist_at(self@, artist@, i as int),
                None => !has_artist(self@, artist@),
            },
    {
        let wanted = String::from_str(artist);
        let mut i: usize = 0;
        while i < self.entries.len()
            invariant
                i <= self.entries.len(),
                wanted@ == artist@,
                forall|j: int| 0 <= j < i ==> !artist_at(self@, artist@, j),
            decreases self.entries.len() - i,
        {
            if self.entries[i].artist == wanted {
                return Some(i);
            }
            i += 1;
        }
        None
    }

    /// Puts `releases` under `artist`: in the place of what was there under
    /// that name, or else behind all other artists.
    pub fn insert(&mut self, artist: String, releases: Vec<Release>)
        ensures
            final(self)@ == put(old(self)@, artist@, releases.deep_view()),
            distinct_artists(final(self)@),
    {
        proof {
            use_type_invariant(&*self);
        }
        let found = self.find(artist.as_str());
        let ghost before = self@;
        let entry = ArtistReleases { artist, releases };
        let mut entries: Vec<ArtistReleases> = Vec::new();
        assert(entries.deep_view() =~= Seq::<ArtistReleasesView>::empty());
        std::mem::swap(&mut entries, &mut self.entries);
        assert(entries.deep_view() == before);
        match found {
            Some(i) => {
                proof {
                    lemma_index_of(before, entry.artist@, i as int);
                }
                entries.set(i, entry);
                assert(entries.deep_view() =~= before.update(i as int, entry@));
            },
            None => {
                entries.push(entry);
                assert(entries.deep_view() =~= before.push(entry@));
                assert forall|a: int, b: int| 0 <= a < b < entries.len() implies entries.deep_view()[a].artist
                    != entries.deep_view()[b].artist by {
                    if b == entries.len() - 1 {
                        assert(!artist_at(before, entry.artist@, a));
                    }
                }
            },
        }
        self.entries = entries;
    }

    /// The releases that stand under `artist`, if the collection holds it.
    pub fn get(&self, artist: &str) -> (releases: Option<&Vec<Release>>)
        ensures
            match releases {
                Some(found) => has_artist(self@, artist@) && found.deep_view()
                    == by_artist(self@)[artist@],
                None => !has_artist(self@, artist@),
            },
    {
        proof {
            use_type_invariant(self);
        }
        match self.find(artist) {
            Some(i) => {
                proof {
                    lemma_index_of(self@, artist@, i as int);
                }
                Some(&self.entries[i].releases)
            },
            None => None,
        }
    }

    /// The artists with their releases, in the order in which the artists
    /// first came in.
    pub fn entries(&self) -> (entries: &Vec<ArtistReleases>)
        ensures
            entries.deep_view() == self@,
            distinct_artists(self@),
    {
        proof {
            use_type_invariant(self);
        }
        &self.entries
    }

    /// The number of artists.
    pub fn len(&self) -> (count: usize)
        ensures
            count == self@.len(),
    {
        self.entries.len()
    }

    /// Whether the collection is without artists.
    pub fn is_empty(&self) -> (empty: bool)
        ensures
            empty == (self@.len() == 0),
    {
        self.entries.len() == 0
    }
}

} // verus!
