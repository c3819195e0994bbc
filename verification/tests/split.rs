use organizer::split::split_str;
use organizer::text::{chars_of, same_text};

fn parts(text: &str, sep: &str) -> Vec<String> {
    split_str(text, sep)
}

#[test]
fn split_cuts_at_each_separator() {
    assert_eq!(parts("a - b - c", " - "), vec!["a", "b", "c"]);
}

#[test]
fn split_without_separator_gives_the_text() {
    assert_eq!(parts("abc", " - "), vec!["abc"]);
}

#[test]
fn split_of_the_empty_text_gives_one_empty_part() {
    assert_eq!(parts("", " - "), vec![""]);
}

#[test]
fn split_of_the_separator_alone_gives_two_empty_parts() {
    assert_eq!(parts(" - ", " - "), vec!["", ""]);
}

#[test]
fn split_keeps_empty_parts_at_both_ends_and_between() {
    assert_eq!(parts(" - a -  - b - ", " - "), vec!["", "a", "", "b", ""]);
}

#[test]
fn split_takes_the_leftmost_of_two_overlapping_separators() {
    assert_eq!(parts("a - - b", " - "), vec!["a", "- b"]);
    assert_eq!(parts(" - - ", " - "), vec!["", "- "]);
}

#[test]
fn split_needs_both_spaces_of_the_separator() {
    assert_eq!(parts("a-b", " - "), vec!["a-b"]);
    assert_eq!(parts("a -b", " - "), vec!["a -b"]);
    assert_eq!(parts("a- b", " - "), vec!["a- b"]);
    assert_eq!(parts("a  -  b", " - "), vec!["a ", " b"]);
}

#[test]
fn split_counts_characters_not_bytes() {
    assert_eq!(
        parts("Björk - Vespertine - ÉÉ1 - 2001", " - "),
        vec!["Björk", "Vespertine", "ÉÉ1", "2001"]
    );
    assert_eq!(parts("日本 - 語", " - "), vec!["日本", "語"]);
}

#[test]
fn split_with_an_empty_separator_cuts_nothing() {
    assert_eq!(parts("a - b", ""), vec!["a - b"]);
}

#[test]
fn split_with_a_separator_longer_than_the_text() {
    assert_eq!(parts("ab", "abc"), vec!["ab"]);
}

#[test]
fn split_with_a_one_character_separator() {
    assert_eq!(parts("a,b,,c", ","), vec!["a", "b", "", "c"]);
}

#[test]
fn split_agrees_with_the_standard_library() {
    let texts = [
        "",
        " - ",
        "a",
        "a - b",
        "a - b - c - d - e - f",
        " -  -  - ",
        "a - - b - - c",
        "- a -",
        "  -  ",
        "Motörhead - Ace of Spades - BRON531 - 1980 - V0 - Vinyl",
    ];
    for text in texts {
        let expected: Vec<String> = text.split(" - ").map(|part| part.to_string()).collect();
        assert_eq!(parts(text, " - "), expected);
    }
}

#[test]
fn joining_the_parts_gives_the_text_back() {
    let texts = ["", "a - b", " -  - ", "a - - b", "x - y - z - "];
    for text in texts {
        assert_eq!(parts(text, " - ").join(" - "), text);
    }
}

#[test]
fn no_part_holds_the_separator() {
    for part in parts("a - - b -  - c - ", " - ") {
        assert!(!part.contains(" - "));
    }
}

#[test]
fn chars_of_gives_the_characters_in_order() {
    assert_eq!(chars_of("aé日"), vec!['a', 'é', '日']);
    assert_eq!(chars_of(""), Vec::<char>::new());
}

#[test]
fn same_text_compares_every_character() {
    assert!(same_text("FLAC", "FLAC"));
    assert!(same_text("", ""));
    assert!(!same_text("FLAC", "FLAc"));
    assert!(!same_text("FLAC", "FLA"));
    assert!(!same_text("FLA", "FLAC"));
}
