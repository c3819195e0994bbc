//! Reading a release from the name of its directory.
//!
//! A name holds six fields, with `" - "` between each two neighbours: artist,
//! release name, release id, year, format, source. A name that does not fit
//! gives no release but an error that says what is wrong with it; one name
//! that does not fit never stops the names after it from being read.

use vstd::prelude::*;
use vstd::string::*;

use crate::decimal::{decimal, decimal_string, machine_number, parse_number};
use crate::models::release::{Format, Release, ReleaseView, Source};
use crate::split::{contains, occurs_at, split, split_str};

verus! {

/// The text between the fields of a release directory name.
pub const SEPARATOR: &'static str = " - ";

/// The number of fields in a release directory name.
pub const FIELD_COUNT: usize = 6;

/// What is wrong with the name of a release directory.
///
/// The first two variants say that the name is malformed, the last two that a
/// token names no variant of its vocabulary.
#[derive(Debug, PartialEq, Eq)]
pub enum NameError {
    /// The name splits into `count` parts, and `count` is not six.
    PartCount { count: usize },
    /// The fourth part is not a non-negative whole number that fits a `usize`.
    Year { token: String },
    /// The fifth part names no format.
    Format { token: String },
    /// The sixth part names no source.
    Source { token: String },
}

/// A `NameError` as a mathematical value.
pub enum NameErrorView {
    PartCount { count: nat },
    Year { token: Seq<char> },
    Format { token: Seq<char> },
    Source { token: Seq<char> },
}

impl View for NameError {
    type V = NameErrorView;

    open spec fn view(&self) -> NameErrorView {
        match self {
            NameError::PartCount { count } => NameErrorView::PartCount { count: *count as nat },
            NameError::Year { token } => NameErrorView::Year { token: token@ },
            NameError::Format { token } => NameErrorView::Format { token: token@ },
            NameError::Source { token } => NameErrorView::Source { token: token@ },
        }
    }
}

impl DeepView for NameError {
    type V = NameErrorView;

    open spec fn deep_view(&self) -> NameErrorView {
        self@
    }
}

impl NameErrorView {
    /// Whether the error says that the name is malformed: the wrong number
    /// of parts, or a year that is no number.
    pub open spec fn is_malformed_name(self) -> bool {
        self is PartCount || self is Year
    }

    /// Whether the error says that a token names no variant of its
    /// vocabulary.
    pub open spec fn is_unknown_variant(self) -> bool {
        self is Format || self is Source
    }

    /// The message that reports this error for the directory `name`.
    pub open spec fn message(self, name: Seq<char>) -> Seq<char> {
        match self {
            NameErrorView::PartCount { count } => "release '"@ + name + "' has "@ + decimal(count)
                + " instead of 6 parts"@,
            NameErrorView::Year { token } => "failed to parse '"@ + token
                + "' as a year on release '"@ + name + "'"@,
            NameErrorView::Format { token } => "failed to parse format '"@ + token
                + "' for release '"@ + name + "'"@,
            NameErrorView::Source { token } => "failed to parse source '"@ + token
                + "' for release '"@ + name + "'"@,
        }
    }
}

/// What the directory name `name` describes: the release whose fields are the
/// six parts of the name, or the first thing that is wrong with the name. The
/// number of parts is looked at first, then the year, the format and the
/// source.
pub open spec fn parse_name(name: Seq<char>) -> Result<ReleaseView, NameErrorView> {
    let parts = split(name, SEPARATOR@);
    if parts.len() != FIELD_COUNT {
        Err(NameErrorView::PartCount { count: parts.len() })
    } else {
        match machine_number(parts[3]) {
            None => Err(NameErrorView::Year { token: parts[3] }),
            Some(year) => match Format::named(parts[4]) {
                None => Err(NameErrorView::Format { token: parts[4] }),
                Some(format) => match Source::named(parts[5]) {
                    None => Err(NameErrorView::Source { token: parts[5] }),
                    Some(source) => Ok(
                        ReleaseView {
                            artist: parts[0],
                            release_name: parts[1],
                            release_id: parts[2],
                            year,
                            format,
                            source,
                        },
                    ),
                },
            },
        }
    }
}

/// The outcome of reading a name, as a mathematical value.
pub open spec fn outcome_view(outcome: Result<Release, NameError>) -> Result<
    ReleaseView,
    NameErrorView,
> {
    match outcome {
        Ok(release) => Ok(release@),
        Err(error) => Err(error@),
    }
}

impl NameError {
    /// Whether the error says that the name is malformed.
    pub fn is_malformed_name(&self) -> (malformed: bool)
        ensures
            malformed == self@.is_malformed_name(),
    {
        match self {
            NameError::PartCount { .. } => true,
            NameError::Year { .. } => true,
            NameError::Format { .. } => false,
            NameError::Source { .. } => false,
        }
    }

    /// Whether the error says that a token names no variant of its
    /// vocabulary.
    pub fn is_unknown_variant(&self) -> (unknown: bool)
        ensures
            unknown == self@.is_unknown_variant(),
    {
        !self.is_malformed_name()
    }

    /// The message that reports this error for the directory `name`.
    pub fn message(&self, name: &str) -> (text: String)
        ensures
            text@ == self@.message(name@),
    {
        match self {
            NameError::PartCount { count } => {
                let mut text = String::from_str("release '");
                text.append(name);
                text.append("' has ");
                text.append(decimal_string(*count).as_str());
                text.append(" instead of 6 parts");
                text
            },
            NameError::Year { token } => {
                let mut text = String::from_str("failed to parse '");
                text.append(token.as_str());
                text.append("' as a year on release '");
                text.append(name);
                text.append("'");
                text
            },
            NameError::Format { token } => {
                let mut text = String::from_str("failed to parse format '");
                text.append(token.as_str());
                text.append("' for release '");
                text.append(name);
                text.append("'");
                text
            },
            NameError::Source { token } => {
                let mut text = String::from_str("failed to parse source '");
                text.append(token.as_str());
                text.append("' for release '");
                text.append(name);
                text.append("'");
                text
            },
        }
    }
}

/// Reads the release that the directory name `name` describes: splits the
/// name at the separator and reads the six parts as the six fields. A name
/// that does not fit gives the first thing that is wrong with it.
pub fn parse_release_name(name: &str) -> (outcome: Result<Release, NameError>)
    ensures
        outcome_view(outcome) == parse_name(name@),
{
    let mut parts = split_str(name, SEPARATOR);
    if parts.len() != FIELD_COUNT {
        return Err(NameError::PartCount { count: parts.len() });
    }
    let ghost tokens = parts.deep_view();
    assert(forall|i: int| 0 <= i < 6 ==> tokens[i] == parts@[i]@);
    let source_token = parts.pop().unwrap();
    let format_token = parts.pop().unwrap();
    let year_token = parts.pop().unwrap();
    let release_id = parts.pop().unwrap();
    let release_name = parts.pop().unwrap();
    let artist = parts.pop().unwrap();
    let year = match parse_number(year_token.as_str()) {
        Some(year) => year,
        None => {
            return Err(NameError::Year { token: year_token });
        },
    };
    let format = match Format::from_str(format_token.as_str()) {
        Ok(format) => format,
        Err(unknown) => {
            return Err(NameError::Format { token: unknown.token });
        },
    };
    let source = match Source::from_str(source_token.as_str()) {
        Ok(source) => source,
        Err(unknown) => {
            return Err(NameError::Source { token: unknown.token });
        },
    };
    Ok(Release { artist, release_name, release_id, year, format, source })
}

/// Reads the release that the directory name `name` describes and puts it
/// behind the others in `releases`. A name that does not fit leaves
/// `releases` as it was, and the error says what is wrong with the name.
pub fn get_release_name(releases: &mut Vec<Release>, name: &str) -> (outcome: Result<
    (),
    NameError,
>)
    ensures
        match outcome {
            Ok(()) => parse_name(name@) is Ok && final(releases).deep_view() == old(
                releases,
            ).deep_view().push(parse_name(name@)->Ok_0),
            Err(error) => parse_name(name@) == Err::<ReleaseView, NameErrorView>(error@)
                && *final(releases) == *old(releases),
        },
{
    match parse_release_name(name) {
        Ok(release) => {
            let ghost before = releases.deep_view();
            releases.push(release);
            assert(releases.deep_view() =~= before.push(release@));
            Ok(())
        },
        Err(error) => Err(error),
    }
}

/// A directory name that gave no release, with what is wrong with it.
#[derive(Debug, PartialEq, Eq)]
pub struct Diagnostic {
    /// The name as it was read.
    pub name: String,
    /// What is wrong with the name.
    pub error: NameError,
}

/// A `Diagnostic` as a mathematical value.
pub struct DiagnosticView {
    pub name: Seq<char>,
    pub error: NameErrorView,
}

impl View for Diagnostic {
    type V = DiagnosticView;

    open spec fn view(&self) -> DiagnosticView {
        DiagnosticView { name: self.name@, error: self.error@ }
    }
}

impl DeepView for Diagnostic {
    type V = DiagnosticView;

    open spec fn deep_view(&self) -> DiagnosticView {
        self@
    }
}

impl DiagnosticView {
    /// The message that reports the diagnostic.
    pub open spec fn message(self) -> Seq<char> {
        self.error.message(self.name)
    }
}

impl Diagnostic {
    /// The message that reports the diagnostic.
    pub fn message(&self) -> (text: String)
        ensures
            text@ == self@.message(),
    {
        self.error.message(self.name.as_str())
    }
}

/// The release that `name` describes, if it describes one.
pub open spec fn release_in(name: Seq<char>) -> Option<ReleaseView> {
    match parse_name(name) {
        Ok(release) => Some(release),
        Err(_) => None,
    }
}

/// The diagnostic that `name` gives, if it describes no release.
pub open spec fn diagnostic_in(name: Seq<char>) -> Option<DiagnosticView> {
    match parse_name(name) {
        Ok(_) => None,
        Err(error) => Some(DiagnosticView { name, error }),
    }
}

/// The releases that `names` describe, in the order of the names. A name
/// that describes none is passed over.
pub open spec fn releases_in(names: Seq<Seq<char>>) -> Seq<ReleaseView> {
    names.filter_map(|name: Seq<char>| release_in(name))
}

/// One diagnostic for each of `names` that describes no release, in the order
/// of the names.
pub open spec fn diagnostics_in(names: Seq<Seq<char>>) -> Seq<DiagnosticView> {
    names.filter_map(|name: Seq<char>| diagnostic_in(name))
}

/// Reads every name in `names`, whatever the names before it gave. Returns the
/// releases that the names describe, and a diagnostic for each name that
/// describes none, both in the order of the names.
pub fn check_releases(names: &Vec<String>) -> (checked: (Vec<Release>, Vec<Diagnostic>))
    ensures
        checked.0.deep_view() == releases_in(names.deep_view()),
        checked.1.deep_view() == diagnostics_in(names.deep_view()),
{
    let mut releases: Vec<Release> = Vec::new();
    let mut diagnostics: Vec<Diagnostic> = Vec::new();
    let ghost texts = names.deep_view();
    let mut i: usize = 0;
    assert(releases.deep_view() =~= releases_in(texts.take(0)));
    assert(diagnostics.deep_view() =~= diagnostics_in(texts.take(0)));
    while i < names.len()
        invariant
            i <= names.len(),
            texts == names.deep_view(),
            releases.deep_view() == releases_in(texts.take(i as int)),
            diagnostics.deep_view() == diagnostics_in(texts.take(i as int)),
        decreases names.len() - i,
    {
        proof {
            texts.lemma_filter_map_take_succ(|name: Seq<char>| release_in(name), i as int);
            texts.lemma_filter_map_take_succ(|name: Seq<char>| diagnostic_in(name), i as int);
        }
        match get_release_name(&mut releases, names[i].as_str()) {
            Ok(()) => {},
            Err(error) => {
                let ghost before = diagnostics.deep_view();
                let diagnostic = Diagnostic { name: names[i].clone(), error };
                diagnostics.push(diagnostic);
                assert(diagnostics.deep_view() =~= before.push(diagnostic@));
            },
        }
        i += 1;
    }
    assert(texts.take(names.len() as int) =~= texts);
    (releases, diagnostics)
}

/// A name of six parts, of which the fourth is a number that fits a `usize`,
/// the fifth names a format and the sixth names a source, describes a
/// release, and the six fields of that release are the six parts of the name:
/// the three texts as they stand, the year as the number that its part stands
/// for, format and source as the variants that their parts name.
pub proof fn law_fitting_name_gives_its_fields(name: Seq<char>)
    requires
        split(name, SEPARATOR@).len() == 6,
        machine_number(split(name, SEPARATOR@)[3]) is Some,
        Format::named(split(name, SEPARATOR@)[4]) is Some,
        Source::named(split(name, SEPARATOR@)[5]) is Some,
    ensures
        parse_name(name) is Ok,
        parse_name(name)->Ok_0.artist == split(name, SEPARATOR@)[0],
        parse_name(name)->Ok_0.release_name == split(name, SEPARATOR@)[1],
        parse_name(name)->Ok_0.release_id == split(name, SEPARATOR@)[2],
        Some(parse_name(name)->Ok_0.year) == machine_number(split(name, SEPARATOR@)[3]),
        Some(parse_name(name)->Ok_0.format) == Format::named(split(name, SEPARATOR@)[4]),
        Some(parse_name(name)->Ok_0.source) == Source::named(split(name, SEPARATOR@)[5]),
{
}

/// A name that does not split into six parts describes no release. It gives
/// one diagnostic, and the message of that diagnostic holds the number of
/// parts that the name does split into, in decimal notation.
pub proof fn law_wrong_part_count(name: Seq<char>)
    requires
        split(name, SEPARATOR@).len() != 6,
    ensures
        release_in(name) is None,
        releases_in(seq![name]) == Seq::<ReleaseView>::empty(),
        diagnostics_in(seq![name]) == seq![
            DiagnosticView {
                name,
                error: NameErrorView::PartCount { count: split(name, SEPARATOR@).len() },
            },
        ],
        contains(diagnostics_in(seq![name])[0].message(), decimal(split(name, SEPARATOR@).len())),
{
    let count = split(name, SEPARATOR@).len();
    let error = NameErrorView::PartCount { count };
    Seq::lemma_filter_map_singleton(name, |name: Seq<char>| release_in(name));
    Seq::lemma_filter_map_singleton(name, |name: Seq<char>| diagnostic_in(name));
    let message = error.message(name);
    let at = ("release '"@ + name + "' has "@).len() as int;
    assert(message.subrange(at, at + decimal(count).len()) =~= decimal(count));
    assert(occurs_at(message, decimal(count), at));
}

/// A name of six parts whose fourth part is no number that fits a `usize`
/// describes no release: the error is the malformed year, with the part as
/// it stands.
pub proof fn law_year_must_be_number(name: Seq<char>)
    requires
        split(name, SEPARATOR@).len() == 6,
        machine_number(split(name, SEPARATOR@)[3]) is None,
    ensures
        parse_name(name) == Err::<ReleaseView, NameErrorView>(
            NameErrorView::Year { token: split(name, SEPARATOR@)[3] },
        ),
        parse_name(name)->Err_0.is_malformed_name(),
        release_in(name) is None,
{
}

/// A name of six parts with a year, whose fifth part names no format,
/// describes no release: the error is the unknown variant, with the part as
/// it stands.
pub proof fn law_format_must_be_known(name: Seq<char>)
    requires
        split(name, SEPARATOR@).len() == 6,
        machine_number(split(name, SEPARATOR@)[3]) is Some,
        Format::named(split(name, SEPARATOR@)[4]) is None,
    ensures
        parse_name(name) == Err::<ReleaseView, NameErrorView>(
            NameErrorView::Format { token: split(name, SEPARATOR@)[4] },
        ),
        parse_name(name)->Err_0.is_unknown_variant(),
        release_in(name) is None,
{
}

/// A name of six parts with a year and a format, whose sixth part names no
/// source, describes no release: the error is the unknown variant, with the
/// part as it stands.
pub proof fn law_source_must_be_known(name: Seq<char>)
    requires
        split(name, SEPARATOR@).len() == 6,
        machine_number(split(name, SEPARATOR@)[3]) is Some,
        Format::named(split(name, SEPARATOR@)[4]) is Some,
        Source::named(split(name, SEPARATOR@)[5]) is None,
    ensures
        parse_name(name) == Err::<ReleaseView, NameErrorView>(
            NameErrorView::Source { token: split(name, SEPARATOR@)[5] },
        ),
        parse_name(name)->Err_0.is_unknown_variant(),
        release_in(name) is None,
{
}

/// Every name gives either a release or a diagnostic, never both and never
/// neither.
pub proof fn law_release_or_diagnostic(name: Seq<char>)
    ensures
        release_in(name) is Some != diagnostic_in(name) is Some,
{
}

/// What a name gives does not depend on the names around it: reading one
/// list of names behind another gives the releases of the first followed by
/// those of the second, and the same holds of the diagnostics. So a name that
/// describes no release takes nothing from the names that follow it.
pub proof fn law_names_are_read_one_by_one(first: Seq<Seq<char>>, second: Seq<Seq<char>>)
    ensures
        releases_in(first + second) == releases_in(first) + releases_in(second),
        diagnostics_in(first + second) == diagnostics_in(first) + diagnostics_in(second),
    decreases second.len(),
{
    if second.len() == 0 {
        assert(first + second =~= first);
        assert(releases_in(first) + releases_in(second) =~= releases_in(first));
        assert(diagnostics_in(first) + diagnostics_in(second) =~= diagnostics_in(first));
    } else {
        let all = first + second;
        law_names_are_read_one_by_one(first, second.drop_last());
        assert(all.drop_last() =~= first + second.drop_last());
        assert(all.last() == second.last());
        assert(releases_in(all) =~= releases_in(first) + releases_in(second));
        assert(diagnostics_in(all) =~= diagnostics_in(first) + diagnostics_in(second));
    }
}

} // verus!
