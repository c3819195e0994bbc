use organizer::collection::ArtistCollection;
use organizer::models::release::{Format, Release, Source};
use organizer::check::parse_release_name;
use organizer::report::{render_release, report};

fn release(title: &str, year: usize, format: Format, source: Source) -> Release {
    Release {
        artist: "ArtistA".to_string(),
        release_name: title.to_string(),
        release_id: "CAT001".to_string(),
        year,
        format,
        source,
    }
}

#[test]
fn a_release_is_shown_by_its_six_fields() {
    assert_eq!(
        render_release(&release("Best Of", 2019, Format::Flac, Source::Cd)),
        "ArtistA - Best Of - CAT001 - 2019 - FLAC - CD"
    );
    assert_eq!(
        render_release(&release("Live", 7, Format::Mp3_V0, Source::Vinyl)),
        "ArtistA - Live - CAT001 - 7 - V0 - Vinyl"
    );
    assert_eq!(
        render_release(&release("", 0, Format::Mp3_320, Source::Web)),
        "ArtistA -  - CAT001 - 0 - 320 - WEB"
    );
    assert_eq!(
        render_release(&release("x", 1, Format::Mp3_V2, Source::Web)),
        "ArtistA - x - CAT001 - 1 - V2 - WEB"
    );
}

#[test]
fn the_report_on_nothing_is_empty() {
    assert!(report(&ArtistCollection::new()).is_empty());
}

#[test]
fn the_report_shows_each_artist_with_its_releases() {
    let mut collection = ArtistCollection::new();
    collection.insert(
        "ArtistA".to_string(),
        vec![
            release("Best Of", 2019, Format::Flac, Source::Cd),
            release("Live", 2020, Format::Mp3_V0, Source::Web),
        ],
    );
    collection.insert("ArtistB".to_string(), Vec::new());
    assert_eq!(
        report(&collection),
        vec![
            "",
            "",
            "Releases for Artist 'ArtistA':",
            "ArtistA - Best Of - CAT001 - 2019 - FLAC - CD",
            "ArtistA - Live - CAT001 - 2020 - V0 - WEB",
            "",
            "",
            "Releases for Artist 'ArtistB':",
        ]
    );
}

#[test]
fn the_line_of_a_release_is_a_name_that_describes_it() {
    let releases = [
        release("Best Of", 2019, Format::Flac, Source::Cd),
        release("Live at the BBC", 0, Format::Mp3_V0, Source::Vinyl),
        release("a-b", 65535, Format::Mp3_V2, Source::Web),
        release("", 7, Format::Mp3_320, Source::Web),
        release("Ænima", usize::MAX, Format::Flac, Source::Vinyl),
    ];
    for release in releases {
        assert_eq!(parse_release_name(&render_release(&release)), Ok(release));
    }
}
