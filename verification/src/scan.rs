//! Searching and splitting byte strings.

use vstd::prelude::*;
use vstd::slice::slice_subrange;

verus! {

/// Whether `pattern` stands in `text` at position `at`.
pub open spec fn occurs_at(text: Seq<u8>, pattern: Seq<u8>, at: int) -> bool {
    &&& 0 <= at
    &&& at + pattern.len() <= text.len()
    &&& text.subrange(at, at + pattern.len()) == pattern
}

/// Whether `at` is the leftmost position at which `pattern` stands in `text`.
pub open spec fn first_at(text: Seq<u8>, pattern: Seq<u8>, at: int) -> bool {
    &&& occurs_at(text, pattern, at)
    &&& forall|earlier: int| 0 <= earlier < at ==> !occurs_at(text, pattern, earlier)
}

/// The leftmost position at which `pattern` stands in `text`, if it stands
/// there at all.
pub open spec fn first_occurrence(text: Seq<u8>, pattern: Seq<u8>) -> Option<int> {
    if exists|at: int| first_at(text, pattern, at) {
        Some(choose|at: int| first_at(text, pattern, at))
    } else {
        None
    }
}

/// The pieces into which the occurrences of `separator` cut `text`, from left
/// to right, each occurrence found behind the one before it. There is always
/// at least one piece; an empty separator cuts nothing.
pub open spec fn pieces(text: Seq<u8>, separator: Seq<u8>) -> Seq<Seq<u8>>
    decreases text.len(),
{
    match first_occurrence(text, separator) {
        Some(at) => if separator.len() > 0 && first_at(text, separator, at) {
            seq![text.take(at)] + pieces(text.skip(at + separator.len()), separator)
        } else {
            seq![text]
        },
        None => seq![text],
    }
}

/// The given parts in a row, with `separator` between each two.
pub open spec fn joined(parts: Seq<Seq<u8>>, separator: Seq<u8>) -> Seq<u8>
    decreases parts.len(),
{
    if parts.len() == 0 {
        Seq::empty()
    } else if parts.len() == 1 {
        parts[0]
    } else {
        parts[0] + separator + joined(parts.drop_first(), separator)
    }
}

/// The contents of a list of slices.
pub open spec fn contents(slices: Seq<&[u8]>) -> Seq<Seq<u8>> {
    Seq::new(slices.len(), |i: int| slices[i]@)
}

/// The leftmost occurrence is the one before which there is none.
pub proof fn lemma_first_occurrence(text: Seq<u8>, pattern: Seq<u8>, at: int)
    requires
        first_at(text, pattern, at),
    ensures
        first_occurrence(text, pattern) == Some(at),
{
    // Two leftmost occurrences cannot differ: the later one would have the
    // earlier one before it.
    let chosen = choose|at: int| first_at(text, pattern, at);
    assert(first_at(text, pattern, chosen));
    assert(chosen == at);
}

/// Where the pattern stands nowhere, there is no first occurrence.
pub proof fn lemma_no_occurrence(text: Seq<u8>, pattern: Seq<u8>)
    requires
        forall|at: int| !occurs_at(text, pattern, at),
    ensures
        first_occurrence(text, pattern) is None,
{
}

/// Cutting loses nothing: the pieces of a text, put together again with the
/// separator between them, are the text.
pub proof fn lemma_pieces_rejoin(text: Seq<u8>, separator: Seq<u8>)
    ensures
        pieces(text, separator).len() >= 1,
        joined(pieces(text, separator), separator) == text,
    decreases text.len(),
{
    match first_occurrence(text, separator) {
        Some(at) => {
            if separator.len() > 0 && first_at(text, separator, at) {
                let rest = text.skip(at + separator.len());
                lemma_pieces_rejoin(rest, separator);
                let parts = pieces(text, separator);
                assert(parts.drop_first() =~= pieces(rest, separator));
                assert(text.take(at) + separator + rest =~= text);
            }
        },
        None => {},
    }
}

/// Whether two byte strings are equal.
pub fn same_bytes(left: &[u8], right: &[u8]) -> (same: bool)
    ensures
        same == (left@ == right@),
{
    if left.len() != right.len() {
        return false;
    }
    let mut i: usize = 0;
    while i < left.len()
        invariant
            left.len() == right.len(),
            i <= left.len(),
            forall|k: int| 0 <= k < i ==> left[k] == right[k],
        decreases left.len() - i,
    {
        if left[i] != right[i] {
            return false;
        }
        i += 1;
    }
    assert(left@ =~= right@);
    true
}

/// Whether `pattern` stands in `text` at position `at`.
pub fn matches_at(text: &[u8], pattern: &[u8], at: usize) -> (found: bool)
    ensures
        found == occurs_at(text@, pattern@, at as int),
{
    if pattern.len() > text.len() || at > text.len() - pattern.len() {
        return false;
    }
    same_bytes(slice_subrange(text, at, at + pattern.len()), pattern)
}

/// Finds the leftmost position at which `pattern` stands in `text`.
pub fn find(text: &[u8], pattern: &[u8]) -> (found: Option<usize>)
    ensures
        match found {
            Some(at) => first_occurrence(text@, pattern@) == Some(at as int) && first_at(
                text@,
                pattern@,
                at as int,
            ),
            None => first_occurrence(text@, pattern@) is None && forall|at: int|
                !occurs_at(text@, pattern@, at),
        },
{
    let mut at: usize = 0;
    while at < text.len()
        invariant
            at <= text.len(),
            forall|earlier: int| 0 <= earlier < at ==> !occurs_at(text@, pattern@, earlier),
        decreases text.len() - at,
    {
        if matches_at(text, pattern, at) {
            proof {
                lemma_first_occurrence(text@, pattern@, at as int);
            }
            return Some(at);
        }
        at += 1;
    }
    // Only an empty pattern stands at the very end.
    if matches_at(text, pattern, at) {
        proof {
            lemma_first_occurrence(text@, pattern@, at as int);
        }
        return Some(at);
    }
    proof {
        lemma_no_occurrence(text@, pattern@);
    }
    None
}

/// Cuts `text` at the occurrences of `separator`.
pub fn split<'a>(text: &'a [u8], separator: &[u8]) -> (parts: Vec<&'a [u8]>)
    ensures
        contents(parts@) == pieces(text@, separator@),
{
    let mut parts: Vec<&'a [u8]> = Vec::new();
    let mut start: usize = 0;
    if separator.len() == 0 {
        parts.push(text);
        return parts;
    }
    assert(text@.skip(0) =~= text@);
    loop
        invariant
            separator.len() > 0,
            start <= text.len(),
            pieces(text@, separator@) == contents(parts@) + pieces(
                text@.skip(start as int),
                separator@,
            ),
        decreases text.len() - start,
    {
        let rest = slice_subrange(text, start, text.len());
        match find(rest, separator) {
            Some(at) => {
                let part = slice_subrange(rest, 0, at);
                parts.push(part);
                assert(rest@.skip(at + separator.len()) =~= text@.skip(
                    start + at + separator.len(),
                ));
                start = start + at + separator.len();
            },
            None => {
                parts.push(rest);
                return parts;
            },
        }
    }
}

} // verus!
