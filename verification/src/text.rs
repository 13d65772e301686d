use vstd::prelude::*;

verus! {

/// Simple case folding: ASCII uppercase letters map to their lowercase
/// counterparts; every other character is unchanged.
pub open spec fn lower_char(c: char) -> char {
    match c {
        'A' => 'a',
        'B' => 'b',
        'C' => 'c',
        'D' => 'd',
        'E' => 'e',
        'F' => 'f',
        'G' => 'g',
        'H' => 'h',
        'I' => 'i',
        'J' => 'j',
        'K' => 'k',
        'L' => 'l',
        'M' => 'm',
        'N' => 'n',
        'O' => 'o',
        'P' => 'p',
        'Q' => 'q',
        'R' => 'r',
        'S' => 's',
        'T' => 't',
        'U' => 'u',
        'V' => 'v',
        'W' => 'w',
        'X' => 'x',
        'Y' => 'y',
        'Z' => 'z',
        _ => c,
    }
}

/// The case-folded form of a text: `lower_char` applied to every character.
pub open spec fn lower(s: Seq<char>) -> Seq<char> {
    s.map_values(|c: char| lower_char(c))
}

/// The query `q` occurs in `l` as a contiguous substring starting at index `i`.
pub open spec fn is_match_at(q: Seq<char>, l: Seq<char>, i: int) -> bool {
    0 <= i && i + q.len() <= l.len() && l.subrange(i, i + q.len()) == q
}

/// The query `q` occurs somewhere in `l` as a contiguous substring.
/// An empty query occurs in every text, at index 0.
pub open spec fn contains_query(q: Seq<char>, l: Seq<char>) -> bool {
    exists|i: int| is_match_at(q, l, i)
}

/// Index of the first newline in `t`, or `t.len()` when there is none.
pub open spec fn first_newline(t: Seq<char>) -> int
    decreases t.len(),
{
    if t.len() == 0 {
        0
    } else if t[0] == '\n' {
        0
    } else {
        1 + first_newline(t.subrange(1, t.len() as int))
    }
}

pub proof fn lemma_first_newline(t: Seq<char>)
    ensures
        0 <= first_newline(t) <= t.len(),
        first_newline(t) < t.len() ==> t[first_newline(t)] == '\n',
        forall|j: int| 0 <= j < first_newline(t) ==> t[j] != '\n',
    decreases t.len(),
{
    if t.len() > 0 && t[0] != '\n' {
        let rest = t.subrange(1, t.len() as int);
        lemma_first_newline(rest);
        assert forall|j: int| 0 <= j < first_newline(t) implies t[j] != '\n' by {
            if j > 0 {
                assert(rest[j - 1] == t[j]);
            }
        }
    }
}

/// A line segment that preceded a newline, with one trailing carriage
/// return stripped when present, so that `\r\n` endings behave like `\n`.
pub open spec fn strip_cr(l: Seq<char>) -> Seq<char> {
    if l.len() > 0 && l[l.len() - 1] == '\r' {
        l.subrange(0, l.len() - 1)
    } else {
        l
    }
}

/// The lines of a text: split on `'\n'`, with one `'\r'` stripped before
/// each newline. A last line without a trailing newline is kept (including
/// any `'\r'` it ends with); the empty text has no lines, and a trailing
/// newline adds no empty last line.
pub open spec fn spec_lines(t: Seq<char>) -> Seq<Seq<char>>
    decreases t.len(),
    via spec_lines_decreases
{
    if t.len() == 0 {
        Seq::empty()
    } else {
        let i: int = first_newline(t);
        if i == t.len() {
            seq![t]
        } else {
            seq![strip_cr(t.subrange(0, i))] + spec_lines(t.subrange(i + 1, t.len() as int))
        }
    }
}

#[via_fn]
proof fn spec_lines_decreases(t: Seq<char>) {
    if t.len() > 0 {
        lemma_first_newline(t);
    }
}

/// The predicate a case-sensitive search applies to each line.
pub open spec fn match_pred(q: Seq<char>) -> spec_fn(Seq<char>) -> bool {
    |l: Seq<char>| contains_query(q, l)
}

/// The predicate a case-insensitive search applies to each line: both the
/// query and the line are case-folded before the substring test.
pub open spec fn match_pred_nocase(q: Seq<char>) -> spec_fn(Seq<char>) -> bool {
    |l: Seq<char>| contains_query(lower(q), lower(l))
}

/// The lines of `t` that contain `q`, in file order.
pub open spec fn matching_lines(q: Seq<char>, t: Seq<char>) -> Seq<Seq<char>> {
    spec_lines(t).filter(match_pred(q))
}

/// The lines of `t` whose case-folded form contains the case-folded `q`,
/// in file order; the lines keep their original casing.
pub open spec fn matching_lines_nocase(q: Seq<char>, t: Seq<char>) -> Seq<Seq<char>> {
    spec_lines(t).filter(match_pred_nocase(q))
}

} // verus!
