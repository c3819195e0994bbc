//! Cutting a text at every occurrence of a separator.
//!
//! The model is a sequence of characters. A separator is searched from the
//! left, and occurrences never overlap: after one is found the search goes on
//! behind it.

use vstd::prelude::*;
use vstd::string::*;

use crate::text::chars_of;

verus! {

/// Whether `pat` stands in `s` at index `i`.
pub open spec fn occurs_at(s: Seq<char>, pat: Seq<char>, i: int) -> bool {
    0 <= i && i + pat.len() <= s.len() && s.subrange(i, i + pat.len()) == pat
}

/// Whether `pat` stands somewhere in `s`.
pub open spec fn contains(s: Seq<char>, pat: Seq<char>) -> bool {
    exists|i: int| occurs_at(s, pat, i)
}

/// Whether `i` is the index of the leftmost occurrence of `pat` in `s`.
pub open spec fn is_first_occurrence(s: Seq<char>, pat: Seq<char>, i: int) -> bool {
    occurs_at(s, pat, i) && forall|j: int| 0 <= j < i ==> !occurs_at(s, pat, j)
}

/// The index of the leftmost occurrence of `pat` in `s`, where there is one.
pub open spec fn first_occurrence(s: Seq<char>, pat: Seq<char>) -> int {
    choose|i: int| is_first_occurrence(s, pat, i)
}

/// The parts of `s` that lie between the occurrences of `sep`, from left to
/// right. A text without the separator is its own single part, so there is
/// always at least one part, and `n` occurrences give `n + 1` parts.
pub open spec fn split(s: Seq<char>, sep: Seq<char>) -> Seq<Seq<char>>
    decreases s.len(),
{
    if sep.len() > 0 && contains(s, sep) {
        let i = first_occurrence(s, sep);
        proof {
            lemma_first_occurrence(s, sep);
        }
        seq![s.take(i)] + split(s.skip(i + sep.len()), sep)
    } else {
        seq![s]
    }
}

/// The parts put together again, with `sep` between each two neighbours.
pub open spec fn join(parts: Seq<Seq<char>>, sep: Seq<char>) -> Seq<char>
    decreases parts.len(),
{
    if parts.len() == 0 {
        Seq::empty()
    } else if parts.len() == 1 {
        parts[0]
    } else {
        parts[0] + sep + join(parts.skip(1), sep)
    }
}

/// Among the occurrences of `pat` in `s` at or below `i` there is a leftmost.
proof fn lemma_least_occurrence(s: Seq<char>, pat: Seq<char>, i: int)
    requires
        occurs_at(s, pat, i),
    ensures
        exists|k: int| 0 <= k <= i && is_first_occurrence(s, pat, k),
    decreases i,
{
    if exists|j: int| 0 <= j < i && occurs_at(s, pat, j) {
        let j = choose|j: int| 0 <= j < i && occurs_at(s, pat, j);
        lemma_least_occurrence(s, pat, j);
    } else {
        assert(is_first_occurrence(s, pat, i));
    }
}

/// Where `pat` stands in `s`, `first_occurrence` is its leftmost occurrence.
pub proof fn lemma_first_occurrence(s: Seq<char>, pat: Seq<char>)
    requires
        contains(s, pat),
    ensures
        is_first_occurrence(s, pat, first_occurrence(s, pat)),
{
    let i = choose|i: int| occurs_at(s, pat, i);
    lemma_least_occurrence(s, pat, i);
}

/// A text has at most one leftmost occurrence of `pat`.
pub proof fn lemma_first_occurrence_is(s: Seq<char>, pat: Seq<char>, i: int)
    requires
        is_first_occurrence(s, pat, i),
    ensures
        contains(s, pat),
        first_occurrence(s, pat) == i,
{
    lemma_first_occurrence(s, pat);
    let c = first_occurrence(s, pat);
    if c < i {
        assert(!occurs_at(s, pat, c));
    } else if i < c {
        assert(!occurs_at(s, pat, i));
    }
}

/// A text always splits into at least one part.
pub proof fn law_split_gives_a_part(s: Seq<char>, sep: Seq<char>)
    ensures
        split(s, sep).len() >= 1,
{
}

/// A text that does not hold the separator is its own single part.
pub proof fn law_split_without_separator(s: Seq<char>, sep: Seq<char>)
    requires
        !contains(s, sep),
    ensures
        split(s, sep) == seq![s],
{
}

/// Splitting loses nothing: the parts of a text, put together again with the
/// separator between them, are the text.
pub proof fn law_split_then_join(s: Seq<char>, sep: Seq<char>)
    ensures
        join(split(s, sep), sep) == s,
    decreases s.len(),
{
    if sep.len() > 0 && contains(s, sep) {
        lemma_first_occurrence(s, sep);
        let i = first_occurrence(s, sep);
        let rest = s.skip(i + sep.len());
        law_split_then_join(rest, sep);
        law_split_gives_a_part(rest, sep);
        let parts = split(s, sep);
        assert(parts.skip(1) =~= split(rest, sep));
        assert(parts[0] == s.take(i));
        assert(s.take(i) + sep + rest =~= s) by {
            assert(s.subrange(i, i + sep.len()) == sep);
        }
    }
}

/// No part holds the separator.
pub proof fn law_parts_hold_no_separator(s: Seq<char>, sep: Seq<char>, k: int)
    requires
        sep.len() > 0,
        0 <= k < split(s, sep).len(),
    ensures
        !contains(split(s, sep)[k], sep),
    decreases s.len(),
{
    if contains(s, sep) {
        lemma_first_occurrence(s, sep);
        let i = first_occurrence(s, sep);
        let rest = s.skip(i + sep.len());
        let parts = split(s, sep);
        if k == 0 {
            let head = s.take(i);
            assert(parts[0] == head);
            assert forall|j: int| !occurs_at(head, sep, j) by {
                if occurs_at(head, sep, j) {
                    assert(head.subrange(j, j + sep.len()) =~= s.subrange(j, j + sep.len()));
                    assert(occurs_at(s, sep, j));
                }
            }
        } else {
            assert(parts[k] == split(rest, sep)[k - 1]);
            law_parts_hold_no_separator(rest, sep, k - 1);
        }
    }
}

/// Whether `part` can stand before `sep` without the two running into each
/// other: in `part` followed by `sep`, the leftmost occurrence of `sep` is the
/// one that follows `part`.
pub open spec fn ends_cleanly(part: Seq<char>, sep: Seq<char>) -> bool {
    is_first_occurrence(part + sep, sep, part.len() as int)
}

/// A part that holds the first character of the separator nowhere neither
/// holds the separator nor runs into one that follows it.
pub proof fn lemma_clean_without_first_character(part: Seq<char>, sep: Seq<char>)
    requires
        sep.len() > 0,
        forall|i: int| 0 <= i < part.len() ==> part[i] != sep[0],
    ensures
        ends_cleanly(part, sep),
        !contains(part, sep),
{
    let whole = part + sep;
    let n = part.len() as int;
    assert(whole.subrange(n, n + sep.len()) =~= sep);
    assert forall|j: int| 0 <= j < n implies !occurs_at(whole, sep, j) by {
        if occurs_at(whole, sep, j) {
            assert(whole.subrange(j, j + sep.len())[0] == part[j]);
        }
    }
    assert forall|j: int| !occurs_at(part, sep, j) by {
        if occurs_at(part, sep, j) {
            assert(part.subrange(j, j + sep.len())[0] == part[j]);
        }
    }
}

/// Joining loses nothing either: parts of which the last holds no separator,
/// and each of the others ends cleanly before one, are what their joined text
/// splits into.
pub proof fn law_join_then_split(parts: Seq<Seq<char>>, sep: Seq<char>)
    requires
        sep.len() > 0,
        parts.len() >= 1,
        forall|i: int| 0 <= i < parts.len() - 1 ==> ends_cleanly(#[trigger] parts[i], sep),
        !contains(parts.last(), sep),
    ensures
        split(join(parts, sep), sep) == parts,
    decreases parts.len(),
{
    if parts.len() == 1 {
        assert(seq![parts[0]] =~= parts);
    } else {
        let head = parts[0];
        let tail = parts.skip(1);
        let rest = join(tail, sep);
        let s = head + sep + rest;
        let n = head.len() as int;
        assert(ends_cleanly(head, sep));
        assert(s.subrange(n, n + sep.len()) =~= sep);
        assert forall|j: int| 0 <= j < n implies !occurs_at(s, sep, j) by {
            if occurs_at(s, sep, j) {
                assert((head + sep).subrange(j, j + sep.len()) =~= s.subrange(j, j + sep.len()));
                assert(occurs_at(head + sep, sep, j));
            }
        }
        lemma_first_occurrence_is(s, sep, n);
        assert(s.take(n) =~= head);
        assert(s.skip(n + sep.len()) =~= rest);
        assert forall|i: int| 0 <= i < tail.len() - 1 implies ends_cleanly(
            #[trigger] tail[i],
            sep,
        ) by {
            assert(tail[i] == parts[i + 1]);
        }
        assert(tail.last() == parts.last());
        law_join_then_split(tail, sep);
        assert(seq![head] + tail =~= parts);
    }
}

/// An occurrence in what follows index `start` is an occurrence in the whole.
proof fn lemma_occurs_at_skip(s: Seq<char>, pat: Seq<char>, start: int, k: int)
    requires
        0 <= start <= s.len(),
        0 <= k,
    ensures
        occurs_at(s.skip(start), pat, k) == occurs_at(s, pat, start + k),
{
    if k + pat.len() <= s.len() - start {
        assert(s.skip(start).subrange(k, k + pat.len()) =~= s.subrange(
            start + k,
            start + k + pat.len(),
        ));
    }
}

/// Whether `pat` stands in `text` at index `i`.
fn matches_at(text: &Vec<char>, pat: &Vec<char>, i: usize) -> (found: bool)
    requires
        i + pat.len() <= text.len(),
    ensures
        found == occurs_at(text@, pat@, i as int),
{
    let mut k: usize = 0;
    while k < pat.len()
        invariant
            k <= pat.len(),
            i + pat.len() <= text.len(),
            forall|j: int| 0 <= j < k ==> text@[i + j] == pat@[j],
        decreases pat.len() - k,
    {
        if text[i + k] != pat[k] {
            proof {
                let sub = text@.subrange(i as int, i + pat.len());
                assert(sub[k as int] == text@[i + k]);
            }
            return false;
        }
        k += 1;
    }
    assert(text@.subrange(i as int, i + pat.len()) =~= pat@);
    true
}

/// Cuts `text` at every occurrence of `sep`, searching from the left, and
/// returns the parts in order. With an empty `sep` nothing is cut.
pub fn split_str(text: &str, sep: &str) -> (parts: Vec<String>)
    ensures
        parts.deep_view() == split(text@, sep@),
{
    let chars = chars_of(text);
    let pat = chars_of(sep);
    let mut parts: Vec<String> = Vec::new();
    if pat.len() == 0 {
        parts.push(text.to_owned());
        assert(parts.deep_view() =~= seq![text@]);
        return parts;
    }
    let n = chars.len();
    let mut start: usize = 0;
    let mut i: usize = 0;
    assert(parts.deep_view() =~= Seq::empty());
    assert(text@.skip(0) =~= text@);
    while pat.len() <= n - i
        invariant
            chars@ == text@,
            pat@ == sep@,
            pat.len() > 0,
            n == chars.len(),
            start <= i <= n,
            forall|j: int| start <= j < i ==> !occurs_at(text@, sep@, j),
            split(text@, sep@) == parts.deep_view() + split(text@.skip(start as int), sep@),
        decreases n - i,
    {
        if matches_at(&chars, &pat, i) {
            let part = text.substring_char(start, i).to_owned();
            proof {
                let rest = text@.skip(start as int);
                let k = i - start;
                assert forall|j: int| 0 <= j < k implies !occurs_at(rest, sep@, j) by {
                    lemma_occurs_at_skip(text@, sep@, start as int, j);
                }
                lemma_occurs_at_skip(text@, sep@, start as int, k);
                lemma_first_occurrence_is(rest, sep@, k);
                assert(rest.take(k) =~= text@.subrange(start as int, i as int));
                assert(rest.skip(k + sep@.len()) =~= text@.skip(i + sep@.len()));
                assert(parts.deep_view().push(part@) + split(text@.skip(i + sep@.len()), sep@)
                    =~= parts.deep_view() + split(rest, sep@));
            }
            let ghost before = parts.deep_view();
            parts.push(part);
            assert(parts.deep_view() =~= before.push(part@));
            i = i + pat.len();
            start = i;
        } else {
            i = i + 1;
        }
    }
    let last = text.substring_char(start, n).to_owned();
    proof {
        let rest = text@.skip(start as int);
        assert forall|j: int| !occurs_at(rest, sep@, j) by {
            if 0 <= j {
                lemma_occurs_at_skip(text@, sep@, start as int, j);
            }
        }
        assert(rest =~= text@.subrange(start as int, n as int));
        assert(parts.deep_view().push(last@) =~= parts.deep_view() + seq![rest]);
    }
    let ghost before = parts.deep_view();
    parts.push(last);
    assert(parts.deep_view() =~= before.push(last@));
    parts
}

} // verus!
