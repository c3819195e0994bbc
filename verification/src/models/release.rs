//! A release and the two closed vocabularies that classify it.

use vstd::prelude::*;
use vstd::string::*;

use crate::text::same_text;

verus! {

/// The audio encoding of a release.
#[allow(non_camel_case_types)]
#[derive(Clone, Copy, Debug, PartialEq, Eq, Hash, Structural)]
pub enum Format {
    Flac,
    Mp3_V0,
    Mp3_V2,
    Mp3_320,
}

/// The medium that a release was taken from.
#[derive(Clone, Copy, Debug, PartialEq, Eq, Hash, Structural)]
pub enum Source {
    Web,
    Vinyl,
    Cd,
}

/// A token that names no variant of the vocabulary it was looked up in.
#[derive(Debug, PartialEq, Eq)]
pub struct UnknownVariant {
    /// The token as it was given.
    pub token: String,
}

/// One release, as the name of its directory describes it.
#[derive(Debug, PartialEq, Eq)]
pub struct Release {
    pub artist: String,
    pub release_name: String,
    pub release_id: String,
    pub year: usize,
    pub format: Format,
    pub source: Source,
}

/// A release as a mathematical value: its texts as sequences of characters.
pub struct ReleaseView {
    pub artist: Seq<char>,
    pub release_name: Seq<char>,
    pub release_id: Seq<char>,
    pub year: usize,
    pub format: Format,
    pub source: Source,
}

impl View for Release {
    type V = ReleaseView;

    open spec fn view(&self) -> ReleaseView {
        ReleaseView {
            artist: self.artist@,
            release_name: self.release_name@,
            release_id: self.release_id@,
            year: self.year,
            format: self.format,
            source: self.source,
        }
    }
}

impl Clone for Release {
    fn clone(&self) -> (copy: Release)
        ensures
            copy@ == self@,
    {
        Release {
            artist: self.artist.clone(),
            release_name: self.release_name.clone(),
            release_id: self.release_id.clone(),
            year: self.year,
            format: self.format,
            source: self.source,
        }
    }
}

impl DeepView for Release {
    type V = ReleaseView;

    open spec fn deep_view(&self) -> ReleaseView {
        self@
    }
}

impl Format {
    /// The token that names this format.
    pub open spec fn token(self) -> Seq<char> {
        match self {
            Format::Flac => "FLAC"@,
            Format::Mp3_V0 => "V0"@,
            Format::Mp3_V2 => "V2"@,
            Format::Mp3_320 => "320"@,
        }
    }

    /// The format that `token` names. The match is exact: case counts, and
    /// so does every character.
    pub open spec fn named(token: Seq<char>) -> Option<Format> {
        if token == Format::Flac.token() {
            Some(Format::Flac)
        } else if token == Format::Mp3_V0.token() {
            Some(Format::Mp3_V0)
        } else if token == Format::Mp3_V2.token() {
            Some(Format::Mp3_V2)
        } else if token == Format::Mp3_320.token() {
            Some(Format::Mp3_320)
        } else {
            None
        }
    }

    /// Looks `token` up among the names of the formats.
    pub fn from_str(token: &str) -> (found: Result<Format, UnknownVariant>)
        ensures
            match found {
                Ok(format) => Format::named(token@) == Some(format),
                Err(unknown) => Format::named(token@) is None && unknown.token@ == token@,
            },
    {
        if same_text(token, "FLAC") {
            Ok(Format::Flac)
        } else if same_text(token, "V0") {
            Ok(Format::Mp3_V0)
        } else if same_text(token, "V2") {
            Ok(Format::Mp3_V2)
        } else if same_text(token, "320") {
            Ok(Format::Mp3_320)
        } else {
            Err(UnknownVariant { token: token.to_owned() })
        }
    }

    /// The token that names this format.
    pub fn as_str(&self) -> (token: &'static str)
        ensures
            token@ == self.token(),
    {
        match self {
            Format::Flac => "FLAC",
            Format::Mp3_V0 => "V0",
            Format::Mp3_V2 => "V2",
            Format::Mp3_320 => "320",
        }
    }
}

impl Source {
    /// The token that names this source.
    pub open spec fn token(self) -> Seq<char> {
        match self {
            Source::Web => "WEB"@,
            Source::Vinyl => "Vinyl"@,
            Source::Cd => "CD"@,
        }
    }

    /// The source that `token` names. The match is exact: case counts, and
    /// so does every character.
    pub open spec fn named(token: Seq<char>) -> Option<Source> {
        if token == Source::Web.token() {
            Some(Source::Web)
        } else if token == Source::Vinyl.token() {
            Some(Source::Vinyl)
        } else if token == Source::Cd.token() {
            Some(Source::Cd)
        } else {
            None
        }
    }

    /// Looks `token` up among the names of the sources.
    pub fn from_str(token: &str) -> (found: Result<Source, UnknownVariant>)
        ensures
            match found {
                Ok(source) => Source::named(token@) == Some(source),
                Err(unknown) => Source::named(token@) is None && unknown.token@ == token@,
            },
    {
        if same_text(token, "WEB") {
            Ok(Source::Web)
        } else if same_text(token, "Vinyl") {
            Ok(Source::Vinyl)
        } else if same_text(token, "CD") {
            Ok(Source::Cd)
        } else {
            Err(UnknownVariant { token: token.to_owned() })
        }
    }

    /// The token that names this source.
    pub fn as_str(&self) -> (token: &'static str)
        ensures
            token@ == self.token(),
    {
        match self {
            Source::Web => "WEB",
            Source::Vinyl => "Vinyl",
            Source::Cd => "CD",
        }
    }
}

/// Every format is found again under its own token, so no two formats share
/// one.
pub proof fn law_format_named_by_token(format: Format)
    ensures
        Format::named(format.token()) == Some(format),
{
    reveal_strlit("FLAC");
    reveal_strlit("V0");
    reveal_strlit("V2");
    reveal_strlit("320");
    assert("FLAC"@.len() == 4);
    assert("V0"@[1] == '0');
    assert("V2"@[1] == '2');
    assert("320"@.len() == 3);
}

/// Every source is found again under its own token, so no two sources share
/// one.
pub proof fn law_source_named_by_token(source: Source)
    ensures
        Source::named(source.token()) == Some(source),
{
    reveal_strlit("WEB");
    reveal_strlit("Vinyl");
    reveal_strlit("CD");
    assert("WEB"@.len() == 3);
    assert("Vinyl"@.len() == 5);
    assert("CD"@.len() == 2);
}

} // verus!
