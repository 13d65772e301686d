use vstd::prelude::*;

use crate::text::contains_query;
use crate::text::first_newline;
use crate::text::is_match_at;
use crate::seqs::lemma_filter_take_step;
use crate::text::lemma_first_newline;
use crate::text::lower;
use crate::text::lower_char;
use crate::text::match_pred;
use crate::text::match_pred_nocase;
use crate::text::matching_lines;
use crate::text::matching_lines_nocase;
use crate::text::spec_lines;
use crate::text::strip_cr;

verus! {

/// `first_newline(t)` is exactly the index of the first `'\n'` in `t`.
proof fn lemma_first_newline_at(t: Seq<char>, k: int)
    requires
        0 <= k < t.len(),
        t[k] == '\n',
        forall|j: int| 0 <= j < k ==> t[j] != '\n',
    ensures
        first_newline(t) == k,
{
    lemma_first_newline(t);
    if first_newline(t) < k {
        assert(t[first_newline(t)] == '\n');
    }
}

/// A text without any `'\n'` has its first newline at the very end.
proof fn lemma_no_newline(t: Seq<char>)
    requires
        forall|j: int| 0 <= j < t.len() ==> t[j] != '\n',
    ensures
        first_newline(t) == t.len(),
{
    lemma_first_newline(t);
    if first_newline(t) < t.len() {
        assert(t[first_newline(t)] == '\n');
    }
}

/// Splits a text into its lines: segments between `'\n'` characters, each
/// with one `'\r'` stripped when it stood right before the newline. A last
/// segment without a trailing newline is kept; a trailing newline adds no
/// empty line; the empty text has no lines.
#[verifier::loop_isolation(false)]
pub fn split_lines<'a>(source: &'a str) -> (r: Vec<&'a str>)
    ensures
        r.deep_view() == spec_lines(source@),
{
    let ghost t = source@;
    let len: usize = source.unicode_len();
    let mut r: Vec<&'a str> = Vec::new();
    let mut start: usize = 0;
    let mut i: usize = 0;
    proof {
        assert(t.subrange(0, len as int) =~= t);
    }
    while i < len
        invariant
            0 <= start <= i <= len,
            forall|m: int| start <= m < i ==> t[m] != '\n',
            r.deep_view() + spec_lines(t.subrange(start as int, len as int)) == spec_lines(t),
        decreases len - i,
    {
        let c = source.get_char(i);
        if c == '\n' {
            let mut end: usize = i;
            if end > start && source.get_char(end - 1) == '\r' {
                end = end - 1;
            }
            let line = source.substring_char(start, end);
            proof {
                let s = t.subrange(start as int, len as int);
                let k: int = i - start;
                assert forall|j: int| 0 <= j < k implies s[j] != '\n' by {
                    assert(s[j] == t[start + j]);
                }
                lemma_first_newline_at(s, k);
                assert(s.subrange(0, k) =~= t.subrange(start as int, i as int));
                assert(strip_cr(s.subrange(0, k)) =~= t.subrange(start as int, end as int));
                assert(s.subrange(k + 1, s.len() as int) =~= t.subrange(
                    i + 1,
                    len as int,
                ));
                assert(spec_lines(s) == seq![line@] + spec_lines(
                    t.subrange(i + 1, len as int),
                ));
            }
            let ghost r_old = r.deep_view();
            r.push(line);
            proof {
                assert(r.deep_view() =~= r_old.push(line@));
                assert(r.deep_view() + spec_lines(t.subrange(i + 1, len as int))
                    =~= spec_lines(t));
            }
            start = i + 1;
        }
        i = i + 1;
    }
    if start < len {
        let line = source.substring_char(start, len);
        proof {
            let s = t.subrange(start as int, len as int);
            assert forall|j: int| 0 <= j < s.len() implies s[j] != '\n' by {
                assert(s[j] == t[start + j]);
            }
            lemma_no_newline(s);
            assert(spec_lines(s) == seq![s]);
        }
        let ghost r_old = r.deep_view();
        r.push(line);
        proof {
            assert(r.deep_view() =~= r_old.push(line@));
            assert(r.deep_view() =~= spec_lines(t));
        }
    } else {
        proof {
            assert(t.subrange(start as int, len as int) =~= Seq::<char>::empty());
            assert(spec_lines(t.subrange(start as int, len as int))
                == Seq::<Seq<char>>::empty());
            assert(r.deep_view() =~= spec_lines(t));
        }
    }
    r
}

/// The case-folded form of one character, as `lower_char` describes it.
fn to_lower_char(c: char) -> (r: char)
    ensures
        r == lower_char(c),
{
    match c {
        'A' => 'a',
        'B' => 'b',
        'C' => 'c',
        'D' => 'd',
        'E' => 'e',
        'F' => 'f',
        'G' => 'g',
        'H' => 'h',
        'I' => 'i',
        'J' => 'j',
        'K' => 'k',
        'L' => 'l',
        'M' => 'm',
        'N' => 'n',
        'O' => 'o',
        'P' => 'p',
        'Q' => 'q',
        'R' => 'r',
        'S' => 's',
        'T' => 't',
        'U' => 'u',
        'V' => 'v',
        'W' => 'w',
        'X' => 'x',
        'Y' => 'y',
        'Z' => 'z',
        _ => c,
    }
}

/// The view a match is decided over: the text itself, or its case-folded
/// form when `fold` is set.
pub open spec fn folded(s: Seq<char>, fold: bool) -> Seq<char> {
    if fold {
        lower(s)
    } else {
        s
    }
}

/// Decides whether `line` contains `query` as a contiguous substring,
/// comparing case-folded characters when `fold` is set.
#[verifier::loop_isolation(false)]
fn line_contains(query: &str, line: &str, fold: bool) -> (r: bool)
    ensures
        r == contains_query(folded(query@, fold), folded(line@, fold)),
{
    let ghost q = folded(query@, fold);
    let ghost l = folded(line@, fold);
    let qlen: usize = query.unicode_len();
    let llen: usize = line.unicode_len();
    if qlen == 0 {
        proof {
            assert(l.subrange(0, 0) =~= q);
            assert(is_match_at(q, l, 0));
        }
        return true;
    }
    if qlen > llen {
        proof {
            if contains_query(q, l) {
                let i: int = choose|i: int| is_match_at(q, l, i);
                assert(false);
            }
        }
        return false;
    }
    let mut i: usize = 0;
    while i <= llen - qlen
        invariant
            0 <= i <= llen - qlen + 1,
            forall|ii: int| 0 <= ii < i ==> !is_match_at(q, l, ii),
        decreases llen - qlen - i + 1,
    {
        let mut j: usize = 0;
        let mut mismatch: bool = false;
        while j < qlen
            invariant
                0 <= j <= qlen,
                0 <= i <= llen - qlen,
                !mismatch ==> forall|jj: int| 0 <= jj < j ==> l[i + jj] == q[jj],
                mismatch ==> !is_match_at(q, l, i as int),
            decreases qlen - j,
        {
            let lc = folded_char_at(line, i + j, fold);
            let qc = folded_char_at(query, j, fold);
            if lc != qc {
                proof {
                    if is_match_at(q, l, i as int) {
                        assert(l.subrange(i as int, i + q.len())[j as int] == q[j as int]);
                    }
                }
                mismatch = true;
                break ;
            }
            j = j + 1;
        }
        if !mismatch {
            proof {
                assert(l.subrange(i as int, i + q.len()) =~= q);
                assert(is_match_at(q, l, i as int));
            }
            return true;
        }
        i = i + 1;
    }
    proof {
        if contains_query(q, l) {
            let w: int = choose|w: int| is_match_at(q, l, w);
            assert(!is_match_at(q, l, w));
        }
    }
    false
}

/// Returns, in file order, the lines of `source` that contain `query` as a
/// contiguous substring; comparison is over case-folded characters when
/// `ignore_case` is set, while the returned lines keep their original
/// casing. This is the search step of a run: the caller loads the file
/// beforehand and prints the result afterwards.
#[verifier::loop_isolation(false)]
pub fn search_lines<'a>(query: &str, source: &'a str, ignore_case: bool) -> (r: Vec<&'a str>)
    ensures
        ignore_case ==> r.deep_view() == matching_lines_nocase(query@, source@),
        !ignore_case ==> r.deep_view() == matching_lines(query@, source@),
{
    let lines = split_lines(source);
    let ghost all = spec_lines(source@);
    let ghost p = if ignore_case {
        match_pred_nocase(query@)
    } else {
        match_pred(query@)
    };
    let mut r: Vec<&'a str> = Vec::new();
    let mut k: usize = 0;
    proof {
        reveal(Seq::filter);
        assert(all.take(0) =~= Seq::<Seq<char>>::empty());
        assert(r.deep_view() =~= all.take(0).filter(p));
    }
    while k < lines.len()
        invariant
            0 <= k <= lines.len(),
            r.deep_view() == all.take(k as int).filter(p),
        decreases lines.len() - k,
    {
        let line = lines[k];
        proof {
            assert(line@ == lines.deep_view()[k as int]);
            assert(p(line@) == contains_query(
                folded(query@, ignore_case),
                folded(line@, ignore_case),
            ));
            lemma_filter_take_step(all, p, k as int);
        }
        let ghost r_old = r.deep_view();
        if line_contains(query, line, ignore_case) {
            r.push(line);
            proof {
                assert(r.deep_view() =~= r_old.push(line@));
            }
        }
        k = k + 1;
    }
    proof {
        assert(all.take(lines@.len() as int) =~= all);
    }
    r
}

/// Returns exactly the lines of `source` that contain `query` as a
/// contiguous substring, codepoint-exact, in file order.
pub fn search<'a>(query: &str, source: &'a str) -> (r: Vec<&'a str>)
    ensures
        r.deep_view() == matching_lines(query@, source@),
{
    search_lines(query, source, false)
}

/// Returns exactly the lines of `source` whose case-folded form contains
/// the case-folded `query`, in file order; the returned lines keep their
/// original casing.
pub fn insensitive_search<'a>(query: &str, source: &'a str) -> (r: Vec<&'a str>)
    ensures
        r.deep_view() == matching_lines_nocase(query@, source@),
{
    search_lines(query, source, true)
}

/// One character of `s`, case-folded when `fold` is set: the character at
/// index `i` of `folded(s@, fold)`.
fn folded_char_at(s: &str, i: usize, fold: bool) -> (r: char)
    requires
        i < s@.len(),
    ensures
        r == folded(s@, fold)[i as int],
{
    let c = s.get_char(i);
    if fold {
        to_lower_char(c)
    } else {
        c
    }
}

} // verus!
