use organizer::check::{
    check_releases, get_release_name, parse_release_name, Diagnostic, NameError, FIELD_COUNT,
    SEPARATOR,
};
use organizer::models::release::{Format, Release, Source};

fn names(texts: &[&str]) -> Vec<String> {
    texts.iter().map(|text| text.to_string()).collect()
}

#[test]
fn the_separator_is_a_hyphen_between_two_spaces() {
    assert_eq!(SEPARATOR, " - ");
    assert_eq!(FIELD_COUNT, 6);
}

#[test]
fn a_fitting_name_gives_its_six_fields() {
    let release = parse_release_name("ArtistA - Best Of - CAT001 - 2019 - FLAC - CD").unwrap();
    assert_eq!(
        release,
        Release {
            artist: "ArtistA".to_string(),
            release_name: "Best Of".to_string(),
            release_id: "CAT001".to_string(),
            year: 2019,
            format: Format::Flac,
            source: Source::Cd,
        }
    );
}

#[test]
fn a_name_may_use_every_format_and_source() {
    let cases = [
        ("V0", "WEB", Format::Mp3_V0, Source::Web),
        ("V2", "Vinyl", Format::Mp3_V2, Source::Vinyl),
        ("320", "CD", Format::Mp3_320, Source::Cd),
        ("FLAC", "WEB", Format::Flac, Source::Web),
    ];
    for (format_token, source_token, format, source) in cases {
        let name = format!("A - B - C - 1 - {} - {}", format_token, source_token);
        let release = parse_release_name(&name).unwrap();
        assert_eq!(release.format, format);
        assert_eq!(release.source, source);
    }
}

#[test]
fn the_free_texts_are_kept_as_they_stand() {
    let release =
        parse_release_name("Sigur Rós - Ágætis byrjun  - FATCD11- - 1999 - V0 - CD").unwrap();
    assert_eq!(release.artist, "Sigur Rós");
    assert_eq!(release.release_name, "Ágætis byrjun ");
    assert_eq!(release.release_id, "FATCD11-");
    assert_eq!(release.year, 1999);
}

#[test]
fn the_free_texts_may_be_empty() {
    let release = parse_release_name(" -  -  - 5 - V2 - WEB").unwrap();
    assert_eq!(release.artist, "");
    assert_eq!(release.release_name, "");
    assert_eq!(release.release_id, "");
    assert_eq!(release.year, 5);
}

#[test]
fn the_year_is_read_as_a_number() {
    assert_eq!(parse_release_name("A - B - C - 0 - FLAC - CD").unwrap().year, 0);
    assert_eq!(parse_release_name("A - B - C - 0099 - FLAC - CD").unwrap().year, 99);
    assert_eq!(parse_release_name("A - B - C - +1984 - FLAC - CD").unwrap().year, 1984);
    assert_eq!(parse_release_name("A - B - C - 123456 - FLAC - CD").unwrap().year, 123456);
}

#[test]
fn a_name_of_two_parts_gives_its_count() {
    let error = parse_release_name("ArtistA - Junk").unwrap_err();
    assert_eq!(error, NameError::PartCount { count: 2 });
    assert!(error.is_malformed_name());
    assert!(!error.is_unknown_variant());
}

#[test]
fn a_name_without_separator_is_one_part() {
    assert_eq!(parse_release_name("Junk").unwrap_err(), NameError::PartCount { count: 1 });
    assert_eq!(parse_release_name("").unwrap_err(), NameError::PartCount { count: 1 });
    assert_eq!(
        parse_release_name("A-B-C-2019-FLAC-CD").unwrap_err(),
        NameError::PartCount { count: 1 }
    );
}

#[test]
fn a_name_of_five_parts_gives_its_count() {
    assert_eq!(
        parse_release_name("A - B - 2019 - FLAC - CD").unwrap_err(),
        NameError::PartCount { count: 5 }
    );
}

#[test]
fn a_name_of_seven_parts_gives_its_count() {
    assert_eq!(
        parse_release_name("A - B - C - 2019 - FLAC - CD - extra").unwrap_err(),
        NameError::PartCount { count: 7 }
    );
    assert_eq!(
        parse_release_name("A - B - C - 2019 - FLAC - CD - ").unwrap_err(),
        NameError::PartCount { count: 7 }
    );
}

#[test]
fn the_count_is_looked_at_before_the_fields() {
    assert_eq!(
        parse_release_name("A - B - C - MMXX - OGG - Tape - extra").unwrap_err(),
        NameError::PartCount { count: 7 }
    );
}

#[test]
fn the_message_of_a_wrong_count_holds_the_count() {
    let error = parse_release_name("ArtistA - Junk").unwrap_err();
    assert_eq!(
        error.message("ArtistA - Junk"),
        "release 'ArtistA - Junk' has 2 instead of 6 parts"
    );
    let long = "a - b - c - d - e - f - g - h - i - j - k - l";
    let error = parse_release_name(long).unwrap_err();
    assert_eq!(error, NameError::PartCount { count: 12 });
    assert_eq!(
        error.message(long),
        "release 'a - b - c - d - e - f - g - h - i - j - k - l' has 12 instead of 6 parts"
    );
}

#[test]
fn a_year_that_is_no_number_gives_no_release() {
    let error = parse_release_name("Artist - Title - ABC123 - MMXX - FLAC - WEB").unwrap_err();
    assert_eq!(error, NameError::Year { token: "MMXX".to_string() });
    assert!(error.is_malformed_name());
    assert!(!error.is_unknown_variant());
    assert_eq!(
        error.message("Artist - Title - ABC123 - MMXX - FLAC - WEB"),
        "failed to parse 'MMXX' as a year on release 'Artist - Title - ABC123 - MMXX - FLAC - WEB'"
    );
}

#[test]
fn a_year_may_not_be_negative_empty_or_too_large() {
    assert_eq!(
        parse_release_name("A - B - C - -2019 - FLAC - CD").unwrap_err(),
        NameError::Year { token: "-2019".to_string() }
    );
    assert_eq!(
        parse_release_name("A - B - C -  - FLAC - CD").unwrap_err(),
        NameError::Year { token: String::new() }
    );
    assert_eq!(
        parse_release_name("A - B - C - 2019  - FLAC - CD").unwrap_err(),
        NameError::Year { token: "2019 ".to_string() }
    );
    assert_eq!(
        parse_release_name("A - B - C - 99999999999999999999999999 - FLAC - CD").unwrap_err(),
        NameError::Year { token: "99999999999999999999999999".to_string() }
    );
}

#[test]
fn an_unknown_format_is_an_unknown_variant() {
    let error = parse_release_name("Artist - Title - ID - 2020 - OGG - WEB").unwrap_err();
    assert_eq!(error, NameError::Format { token: "OGG".to_string() });
    assert!(error.is_unknown_variant());
    assert!(!error.is_malformed_name());
    assert_eq!(
        error.message("Artist - Title - ID - 2020 - OGG - WEB"),
        "failed to parse format 'OGG' for release 'Artist - Title - ID - 2020 - OGG - WEB'"
    );
}

#[test]
fn an_unknown_source_is_an_unknown_variant() {
    let error = parse_release_name("Artist - Title - ID - 2020 - FLAC - Tape").unwrap_err();
    assert_eq!(error, NameError::Source { token: "Tape".to_string() });
    assert!(error.is_unknown_variant());
    assert!(!error.is_malformed_name());
    assert_eq!(
        error.message("Artist - Title - ID - 2020 - FLAC - Tape"),
        "failed to parse source 'Tape' for release 'Artist - Title - ID - 2020 - FLAC - Tape'"
    );
}

#[test]
fn format_and_source_are_case_sensitive_in_a_name() {
    assert_eq!(
        parse_release_name("A - B - C - 2020 - flac - WEB").unwrap_err(),
        NameError::Format { token: "flac".to_string() }
    );
    assert_eq!(
        parse_release_name("A - B - C - 2020 - FLAC - web").unwrap_err(),
        NameError::Source { token: "web".to_string() }
    );
}

#[test]
fn the_year_is_looked_at_before_the_format_and_the_format_before_the_source() {
    assert_eq!(
        parse_release_name("A - B - C - MMXX - OGG - Tape").unwrap_err(),
        NameError::Year { token: "MMXX".to_string() }
    );
    assert_eq!(
        parse_release_name("A - B - C - 2020 - OGG - Tape").unwrap_err(),
        NameError::Format { token: "OGG".to_string() }
    );
}

#[test]
fn get_release_name_puts_the_release_behind_the_others() {
    let mut releases = Vec::new();
    assert_eq!(get_release_name(&mut releases, "A - One - X1 - 2001 - V0 - WEB"), Ok(()));
    assert_eq!(get_release_name(&mut releases, "A - Two - X2 - 2002 - V2 - CD"), Ok(()));
    assert_eq!(releases.len(), 2);
    assert_eq!(releases[0].release_name, "One");
    assert_eq!(releases[0].year, 2001);
    assert_eq!(releases[1].release_name, "Two");
    assert_eq!(releases[1].source, Source::Cd);
}

#[test]
fn get_release_name_leaves_the_releases_alone_on_an_error() {
    let mut releases = Vec::new();
    get_release_name(&mut releases, "A - One - X1 - 2001 - V0 - WEB").unwrap();
    let before = releases.clone();
    assert_eq!(
        get_release_name(&mut releases, "A - Junk"),
        Err(NameError::PartCount { count: 2 })
    );
    assert_eq!(
        get_release_name(&mut releases, "A - B - C - x - V0 - WEB"),
        Err(NameError::Year { token: "x".to_string() })
    );
    assert_eq!(
        get_release_name(&mut releases, "A - B - C - 1 - WAV - WEB"),
        Err(NameError::Format { token: "WAV".to_string() })
    );
    assert_eq!(
        get_release_name(&mut releases, "A - B - C - 1 - V0 - DVD"),
        Err(NameError::Source { token: "DVD".to_string() })
    );
    assert_eq!(releases, before);
}

#[test]
fn check_releases_reads_on_behind_a_name_that_does_not_fit() {
    let listed = names(&[
        "Artist - Title - ABC123 - MMXX - FLAC - WEB",
        "Artist - First - ID1 - 2020 - FLAC - WEB",
        "Artist - Junk",
        "Artist - Second - ID2 - 2021 - 320 - Vinyl",
        "Artist - Title - ID - 2020 - OGG - WEB",
    ]);
    let (releases, diagnostics) = check_releases(&listed);
    assert_eq!(releases.len(), 2);
    assert_eq!(releases[0].release_name, "First");
    assert_eq!(releases[1].release_name, "Second");
    assert_eq!(
        diagnostics,
        vec![
            Diagnostic {
                name: "Artist - Title - ABC123 - MMXX - FLAC - WEB".to_string(),
                error: NameError::Year { token: "MMXX".to_string() },
            },
            Diagnostic {
                name: "Artist - Junk".to_string(),
                error: NameError::PartCount { count: 2 },
            },
            Diagnostic {
                name: "Artist - Title - ID - 2020 - OGG - WEB".to_string(),
                error: NameError::Format { token: "OGG".to_string() },
            },
        ]
    );
}

#[test]
fn check_releases_of_no_names_gives_nothing() {
    let (releases, diagnostics) = check_releases(&Vec::new());
    assert!(releases.is_empty());
    assert!(diagnostics.is_empty());
}

#[test]
fn every_name_gives_a_release_or_a_diagnostic() {
    let listed = names(&["", "A - B - C - 1 - V0 - CD", " - ", "A - B - C - 1 - V0 - cd"]);
    let (releases, diagnostics) = check_releases(&listed);
    assert_eq!(releases.len() + diagnostics.len(), listed.len());
}

#[test]
fn reading_two_lists_in_a_row_is_reading_each() {
    let first = names(&["A - B - C - 1 - V0 - CD", "junk"]);
    let second = names(&["A - B - C - y - V0 - CD", "A - D - E - 2 - V2 - WEB"]);
    let mut both = first.clone();
    both.extend(second.clone());
    let (mut releases, mut diagnostics) = check_releases(&first);
    let (more_releases, more_diagnostics) = check_releases(&second);
    releases.extend(more_releases);
    diagnostics.extend(more_diagnostics);
    assert_eq!(check_releases(&both), (releases, diagnostics));
}

#[test]
fn a_diagnostic_reports_its_own_name() {
    let diagnostic = Diagnostic {
        name: "ArtistA - Junk".to_string(),
        error: NameError::PartCount { count: 2 },
    };
    assert_eq!(diagnostic.message(), "release 'ArtistA - Junk' has 2 instead of 6 parts");
    assert_eq!(diagnostic.message(), diagnostic.error.message("ArtistA - Junk"));
}
