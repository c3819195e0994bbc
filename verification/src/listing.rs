//! What a directory holds, as far as the walk looks at it.

use vstd::prelude::*;
use vstd::string::*;

verus! {

/// One entry of a directory.
#[derive(Debug, PartialEq, Eq)]
pub struct Entry {
    /// The last segment of the entry's path.
    pub name: String,
    /// Whether the entry is a directory.
    pub is_dir: bool,
}

/// An `Entry` as a mathematical value.
pub struct EntryView {
    pub name: Seq<char>,
    pub is_dir: bool,
}

impl View for Entry {
    type V = EntryView;

    open spec fn view(&self) -> EntryView {
        EntryView { name: self.name@, is_dir: self.is_dir }
    }
}

impl DeepView for Entry {
    type V = EntryView;

    open spec fn deep_view(&self) -> EntryView {
        self@
    }
}

/// The name of `entry`, if it is a directory.
pub open spec fn directory_name(entry: EntryView) -> Option<Seq<char>> {
    if entry.is_dir {
        Some(entry.name)
    } else {
        None
    }
}

/// The names of the directories among `entries`, in the order of the
/// entries. Whatever is no directory is left out.
pub open spec fn directory_names(entries: Seq<EntryView>) -> Seq<Seq<char>> {
    entries.filter_map(|entry: EntryView| directory_name(entry))
}

/// The names of the directories among `entries`, in the order of the
/// entries. Whatever is no directory is left out.
pub fn directories(entries: &Vec<Entry>) -> (names: Vec<String>)
    ensures
        names.deep_view() == directory_names(entries.deep_view()),
{
    let mut names: Vec<String> = Vec::new();
    let ghost all = entries.deep_view();
    let mut i: usize = 0;
    assert(names.deep_view() =~= directory_names(all.take(0)));
    while i < entries.len()
        invariant
            i <= entries.len(),
            all == entries.deep_view(),
            names.deep_view() == directory_names(all.take(i as int)),
        decreases entries.len() - i,
    {
        proof {
            all.lemma_filter_map_take_succ(|entry: EntryView| directory_name(entry), i as int);
        }
        if entries[i].is_dir {
            let ghost before = names.deep_view();
            let name = entries[i].name.clone();
            names.push(name);
            assert(names.deep_view() =~= before.push(name@));
        }
        i += 1;
    }
    assert(all.take(entries.len() as int) =~= all);
    names
}

} // verus!
