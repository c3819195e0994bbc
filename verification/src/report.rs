//! The report that ends a walk: every artist, each followed by its releases.

use vstd::prelude::*;
use vstd::string::*;

use crate::check::{parse_name, NameErrorView, SEPARATOR};
use crate::collection::{ArtistCollection, ArtistReleases, ArtistReleasesView};
use crate::decimal::{
    decimal, decimal_string, is_digit, law_decimal_round_trip, lemma_decimal_digits,
};
use crate::models::release::{
    law_format_named_by_token, law_source_named_by_token, Release, ReleaseView,
};
use crate::split::{
    contains, ends_cleanly, join, law_join_then_split, lemma_clean_without_first_character, split,
};

verus! {

/// The line that announces the releases of `artist`.
pub open spec fn header(artist: Seq<char>) -> Seq<char> {
    "Releases for Artist '"@ + artist + "':"@
}

/// The line that shows `release`: its six fields in the order of a directory
/// name, with the separator between them, the year in decimal notation, and
/// format and source by their tokens.
pub open spec fn release_line(release: ReleaseView) -> Seq<char> {
    release.artist + SEPARATOR@ + release.release_name + SEPARATOR@ + release.release_id
        + SEPARATOR@ + decimal(release.year as nat) + SEPARATOR@ + release.format.token()
        + SEPARATOR@ + release.source.token()
}

/// The lines that show the releases in `releases`, one line each.
pub open spec fn release_lines(releases: Seq<ReleaseView>) -> Seq<Seq<char>> {
    releases.map_values(|release: ReleaseView| release_line(release))
}

/// The lines for one artist: two empty lines, the header, then one line for
/// each release. An artist without releases still gets the first three.
pub open spec fn artist_lines(entry: ArtistReleasesView) -> Seq<Seq<char>> {
    seq![Seq::empty(), Seq::empty(), header(entry.artist)] + release_lines(entry.releases)
}

/// The lines of the report: the lines for each artist, in the order of the
/// artists.
pub open spec fn report_lines(entries: Seq<ArtistReleasesView>) -> Seq<Seq<char>> {
    entries.map_values(|entry: ArtistReleasesView| artist_lines(entry)).flatten()
}

/// The report grows artist by artist: the report on a collection with one
/// more artist behind the others is the report on the others, followed by the
/// lines for that artist.
pub proof fn law_report_grows_by_artist(
    entries: Seq<ArtistReleasesView>,
    entry: ArtistReleasesView,
)
    ensures
        report_lines(entries.push(entry)) == report_lines(entries) + artist_lines(entry),
{
    let blocks = entries.map_values(|entry: ArtistReleasesView| artist_lines(entry));
    assert(entries.push(entry).map_values(|entry: ArtistReleasesView| artist_lines(entry))
        =~= blocks.push(artist_lines(entry)));
    blocks.lemma_flatten_push(artist_lines(entry));
}

/// Every artist of a collection is in the report, with or without releases:
/// its header is among the lines, and so is the line of each of its
/// releases.
pub proof fn law_report_shows_every_artist(entries: Seq<ArtistReleasesView>, i: int)
    requires
        0 <= i < entries.len(),
    ensures
        report_lines(entries).contains(header(entries[i].artist)),
        forall|k: int|
            0 <= k < entries[i].releases.len() ==> report_lines(entries).contains(
                release_line(#[trigger] entries[i].releases[k]),
            ),
    decreases entries.len(),
{
    let others = entries.drop_last();
    let last = entries.last();
    assert(entries =~= others.push(last));
    law_report_grows_by_artist(others, last);
    let lines = report_lines(entries);
    let before = report_lines(others);
    let n = before.len() as int;
    if i == entries.len() - 1 {
        assert(lines[n + 2] == header(last.artist));
        assert forall|k: int| 0 <= k < last.releases.len() implies lines.contains(
            release_line(#[trigger] last.releases[k]),
        ) by {
            assert(lines[n + 3 + k] == release_line(last.releases[k]));
        }
    } else {
        law_report_shows_every_artist(others, i);
        assert(others[i] == entries[i]);
        let at = choose|at: int| 0 <= at < n && before[at] == header(entries[i].artist);
        assert(lines[at] == header(entries[i].artist));
        assert forall|k: int| 0 <= k < entries[i].releases.len() implies lines.contains(
            release_line(#[trigger] entries[i].releases[k]),
        ) by {
            let line = release_line(entries[i].releases[k]);
            assert(before.contains(line));
            let at = choose|at: int| 0 <= at < n && before[at] == line;
            assert(lines[at] == line);
        }
    }
}

/// A text without a space neither holds the separator nor runs into one that
/// follows it.
proof fn lemma_clean_without_space(part: Seq<char>)
    requires
        forall|i: int| 0 <= i < part.len() ==> part[i] != ' ',
    ensures
        ends_cleanly(part, SEPARATOR@),
        !contains(part, SEPARATOR@),
{
    reveal_strlit(" - ");
    lemma_clean_without_first_character(part, SEPARATOR@);
}

/// The year, the format and the source of a release are written without a
/// space, so what writes them neither holds the separator nor runs into one.
proof fn lemma_written_fields_are_clean(release: ReleaseView)
    ensures
        ends_cleanly(decimal(release.year as nat), SEPARATOR@),
        ends_cleanly(release.format.token(), SEPARATOR@),
        !contains(release.source.token(), SEPARATOR@),
{
    let year = decimal(release.year as nat);
    let format = release.format.token();
    let source = release.source.token();
    assert forall|i: int| 0 <= i < year.len() implies year[i] != ' ' by {
        lemma_decimal_digits(release.year as nat);
        assert(is_digit(year[i]));
    }
    lemma_clean_without_space(year);
    assert(forall|i: int| 0 <= i < format.len() ==> format[i] != ' ') by {
        reveal_strlit("FLAC");
        reveal_strlit("V0");
        reveal_strlit("V2");
        reveal_strlit("320");
    }
    lemma_clean_without_space(format);
    assert(forall|i: int| 0 <= i < source.len() ==> source[i] != ' ') by {
        reveal_strlit("WEB");
        reveal_strlit("Vinyl");
        reveal_strlit("CD");
    }
    lemma_clean_without_space(source);
}

/// The six texts that the line of `release` is made of, in order.
pub open spec fn line_parts(release: ReleaseView) -> Seq<Seq<char>> {
    seq![
        release.artist,
        release.release_name,
        release.release_id,
        decimal(release.year as nat),
        release.format.token(),
        release.source.token(),
    ]
}

/// The line of a release is its six texts joined by the separator.
proof fn lemma_line_is_join(release: ReleaseView)
    ensures
        release_line(release) == join(line_parts(release), SEPARATOR@),
{
    let sep = SEPARATOR@;
    let p0 = line_parts(release);
    let p1 = p0.skip(1);
    let p2 = p1.skip(1);
    let p3 = p2.skip(1);
    let p4 = p3.skip(1);
    let p5 = p4.skip(1);
    assert(join(p5, sep) == p0[5]);
    assert(join(p4, sep) == p0[4] + sep + join(p5, sep));
    assert(join(p3, sep) == p0[3] + sep + join(p4, sep));
    assert(join(p2, sep) == p0[2] + sep + join(p3, sep));
    assert(join(p1, sep) == p0[1] + sep + join(p2, sep));
    assert(join(p0, sep) == p0[0] + sep + join(p1, sep));
    assert(release_line(release) =~= join(p0, sep));
}

/// The line that shows a release is a name that describes it: where each of
/// the three free texts ends cleanly before a separator, reading the line as
/// a directory name gives the release back, field by field.
pub proof fn law_release_line_describes_release(release: ReleaseView)
    requires
        ends_cleanly(release.artist, SEPARATOR@),
        ends_cleanly(release.release_name, SEPARATOR@),
        ends_cleanly(release.release_id, SEPARATOR@),
    ensures
        parse_name(release_line(release)) == Ok::<ReleaseView, NameErrorView>(release),
{
    let sep = SEPARATOR@;
    let parts = line_parts(release);
    lemma_written_fields_are_clean(release);
    lemma_line_is_join(release);
    assert(sep.len() > 0) by {
        reveal_strlit(" - ");
    }
    assert forall|i: int| 0 <= i < parts.len() - 1 implies ends_cleanly(
        #[trigger] parts[i],
        sep,
    ) by {}
    law_join_then_split(parts, sep);
    assert(split(release_line(release), sep) == parts);
    law_decimal_round_trip(release.year as nat);
    law_format_named_by_token(release.format);
    law_source_named_by_token(release.source);
}

/// The line that shows `release`.
pub fn render_release(release: &Release) -> (line: String)
    ensures
        line@ == release_line(release@),
{
    let mut line = release.artist.clone();
    line.append(SEPARATOR);
    line.append(release.release_name.as_str());
    line.append(SEPARATOR);
    line.append(release.release_id.as_str());
    line.append(SEPARATOR);
    line.append(decimal_string(release.year).as_str());
    line.append(SEPARATOR);
    line.append(release.format.as_str());
    line.append(SEPARATOR);
    line.append(release.source.as_str());
    line
}

/// Puts the lines for one artist behind `lines`.
fn render_artist(lines: &mut Vec<String>, entry: &ArtistReleases)
    ensures
        final(lines).deep_view() == old(lines).deep_view() + artist_lines(entry@),
{
    let ghost before = lines.deep_view();
    let mut title = String::from_str("Releases for Artist '");
    title.append(entry.artist.as_str());
    title.append("':");
    lines.push(String::new());
    lines.push(String::new());
    lines.push(title);
    let ghost releases = entry.releases.deep_view();
    let ghost head = before + seq![Seq::empty(), Seq::empty(), header(entry.artist@)];
    assert(lines.deep_view() =~= head + release_lines(releases.take(0)));
    let mut i: usize = 0;
    while i < entry.releases.len()
        invariant
            i <= entry.releases.len(),
            releases == entry.releases.deep_view(),
            lines.deep_view() == head + release_lines(releases.take(i as int)),
        decreases entry.releases.len() - i,
    {
        let ghost so_far = lines.deep_view();
        let line = render_release(&entry.releases[i]);
        lines.push(line);
        assert(lines.deep_view() =~= so_far.push(line@));
        assert(release_lines(releases.take(i + 1)) =~= release_lines(releases.take(i as int)).push(
            line@,
        ));
        i += 1;
    }
    assert(releases.take(entry.releases.len() as int) =~= releases);
    assert(head + release_lines(releases) =~= before + artist_lines(entry@));
}

/// The lines of the report on `collection`: for each artist, in the order in
/// which the artists came in, two empty lines, the header, then one line for
/// each release.
pub fn report(collection: &ArtistCollection) -> (lines: Vec<String>)
    ensures
        lines.deep_view() == report_lines(collection@),
{
    let entries = collection.entries();
    let ghost all = entries.deep_view();
    let ghost blocks = all.map_values(|entry: ArtistReleasesView| artist_lines(entry));
    let mut lines: Vec<String> = Vec::new();
    let mut i: usize = 0;
    assert(lines.deep_view() =~= blocks.take(0).flatten());
    while i < entries.len()
        invariant
            i <= entries.len(),
            all == entries.deep_view(),
            blocks == all.map_values(|entry: ArtistReleasesView| artist_lines(entry)),
            lines.deep_view() == blocks.take(i as int).flatten(),
        decreases entries.len() - i,
    {
        render_artist(&mut lines, &entries[i]);
        proof {
            assert(blocks.take(i + 1) =~= blocks.take(i as int).push(blocks[i as int]));
            blocks.take(i as int).lemma_flatten_push(blocks[i as int]);
        }
        i += 1;
    }
    assert(blocks.take(entries.len() as int) =~= blocks);
    lines
}

} // verus!
