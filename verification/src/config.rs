//! The two directories that the tool is set up with.

use vstd::prelude::*;
use vstd::string::*;

verus! {

/// Whether `path` begins with a tilde that stands for a home directory: one
/// that is the whole path, or that a path separator follows.
pub open spec fn names_home(path: Seq<char>) -> bool {
    path.len() > 0 && path[0] == '~' && (path.len() == 1 || path[1] == '/' || path[1] == '\\')
}

/// Whether `expanded` can be what becomes of `path` when its tilde is
/// expanded. Only a path that names a home directory changes at all, and of
/// such a path everything behind the tilde stays: the home directory, where
/// one is known, takes the place of the tilde.
pub open spec fn expands_to(path: Seq<char>, expanded: Seq<char>) -> bool {
    if names_home(path) {
        path.skip(1).is_suffix_of(expanded)
    } else {
        expanded == path
    }
}

/// Calls `shellexpand::tilde`, which puts the current user's home directory,
/// as `dirs::home_dir` gives it, in the place of a tilde at the head of the
/// input. The contract is trusted. It claims what holds whatever the home
/// directory is: without a tilde at the head, or with anything but the end or
/// a path separator behind it, the input comes back as it is; else the
/// result ends with what follows the tilde.
#[verifier::external_body]
fn tilde(path: &str) -> (expanded: String)
    ensures
        expands_to(path@, expanded@),
{
    shellexpand::tilde(path).into_owned()
}

/// Expands a tilde at the head of `old_path` to the current user's home
/// directory.
pub fn expand_home(old_path: &str) -> (path: String)
    ensures
        expands_to(old_path@, path@),
{
    tilde(old_path)
}

/// Where releases are read from and where they are to go.
#[derive(Debug, PartialEq, Eq)]
pub struct Config {
    source_directory: String,
    target_directory: String,
}

/// A `Config` as a mathematical value: the two paths as they were set.
pub struct ConfigView {
    pub source_directory: Seq<char>,
    pub target_directory: Seq<char>,
}

impl View for Config {
    type V = ConfigView;

    closed spec fn view(&self) -> ConfigView {
        ConfigView {
            source_directory: self.source_directory@,
            target_directory: self.target_directory@,
        }
    }
}

impl Config {
    /// A configuration with the two paths as given: a tilde in them is kept
    /// until a path is asked for.
    pub fn new(source_directory: String, target_directory: String) -> (config: Config)
        ensures
            config@.source_directory == source_directory@,
            config@.target_directory == target_directory@,
    {
        Config { source_directory, target_directory }
    }

    /// The directory that releases are read from, its tilde expanded.
    pub fn source_directory(&self) -> (path: String)
        ensures
            expands_to(self@.source_directory, path@),
    {
        expand_home(self.source_directory.as_str())
    }

    /// The directory that releases are to go to, its tilde expanded.
    pub fn target_directory(&self) -> (path: String)
        ensures
            expands_to(self@.target_directory, path@),
    {
        expand_home(self.target_directory.as_str())
    }
}

} // verus!
