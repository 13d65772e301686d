use vstd::prelude::*;

use crate::seqs::lemma_filter_all_false;
use crate::seqs::lemma_filter_all_true;
use crate::text::contains_query;
use crate::text::first_newline;
use crate::text::is_match_at;
use crate::text::lemma_first_newline;
use crate::text::lower;
use crate::text::match_pred;
use crate::text::match_pred_nocase;
use crate::text::matching_lines;
use crate::text::matching_lines_nocase;
use crate::text::spec_lines;
use crate::text::strip_cr;

verus! {

/// Substring containment is transitive: what occurs in a part of a text
/// occurs in the whole text.
pub proof fn lemma_contains_trans(a: Seq<char>, b: Seq<char>, c: Seq<char>)
    requires
        contains_query(a, b),
        contains_query(b, c),
    ensures
        contains_query(a, c),
{
    let i: int = choose|i: int| is_match_at(a, b, i);
    let j: int = choose|j: int| is_match_at(b, c, j);
    assert(c.subrange(j + i, j + i + a.len()) =~= a) by {
        assert forall|m: int| 0 <= m < a.len() implies c.subrange(j + i, j + i + a.len())[m]
            == a[m] by {
            assert(a[m] == b.subrange(i, i + a.len())[m]);
            assert(b[i + m] == c.subrange(j, j + b.len())[i + m]);
        }
    };
    assert(is_match_at(a, c, j + i));
}

/// Case folding preserves substring containment: if `a` occurs in `b`,
/// the folded `a` occurs in the folded `b`.
pub proof fn lemma_lower_preserves_contains(a: Seq<char>, b: Seq<char>)
    requires
        contains_query(a, b),
    ensures
        contains_query(lower(a), lower(b)),
{
    let i: int = choose|i: int| is_match_at(a, b, i);
    assert(lower(b).subrange(i, i + a.len()) =~= lower(a)) by {
        assert forall|m: int| 0 <= m < a.len() implies lower(b).subrange(i, i + a.len())[m]
            == lower(a)[m] by {
            assert(a[m] == b.subrange(i, i + a.len())[m]);
        }
    };
    assert(is_match_at(lower(a), lower(b), i));
}

/// Every line of a text occurs in that text as a contiguous substring:
/// the result of a search holds only verbatim parts of the source.
pub proof fn lemma_lines_in_text(t: Seq<char>)
    ensures
        forall|k: int|
            0 <= k < spec_lines(t).len() ==> contains_query(#[trigger] spec_lines(t)[k], t),
    decreases t.len(),
{
    if t.len() > 0 {
        lemma_first_newline(t);
        let i: int = first_newline(t);
        if i == t.len() {
            assert(t.subrange(0, t.len() as int) =~= t);
            assert(is_match_at(t, t, 0));
        } else {
            let head = strip_cr(t.subrange(0, i));
            let rest = t.subrange(i + 1, t.len() as int);
            lemma_lines_in_text(rest);
            assert(t.subrange(0, head.len() as int) =~= head);
            assert(is_match_at(head, t, 0));
            assert(t.subrange(i + 1, i + 1 + rest.len()) =~= rest);
            assert(is_match_at(rest, t, i + 1));
            assert forall|k: int| 0 <= k < spec_lines(t).len() implies contains_query(
                spec_lines(t)[k],
                t,
            ) by {
                if k == 0 {
                    assert(spec_lines(t)[0] == head);
                } else {
                    assert(spec_lines(t)[k] == spec_lines(rest)[k - 1]);
                    lemma_contains_trans(spec_lines(rest)[k - 1], rest, t);
                }
            }
        }
    }
}

/// Law: searching is deterministic. Any two results that meet `search`'s
/// contract for the same query and text are identical; there is no hidden
/// state.
pub proof fn lemma_search_deterministic(
    q: Seq<char>,
    t: Seq<char>,
    r1: Seq<Seq<char>>,
    r2: Seq<Seq<char>>,
)
    requires
        r1 == matching_lines(q, t),
        r2 == matching_lines(q, t),
    ensures
        r1 == r2,
{
}

/// Law: the case-insensitive search is deterministic in the same way.
pub proof fn lemma_insensitive_search_deterministic(
    q: Seq<char>,
    t: Seq<char>,
    r1: Seq<Seq<char>>,
    r2: Seq<Seq<char>>,
)
    requires
        r1 == matching_lines_nocase(q, t),
        r2 == matching_lines_nocase(q, t),
    ensures
        r1 == r2,
{
}

/// Law: an empty query matches every line, so the search returns the full
/// line list of the text, under either algorithm.
pub proof fn lemma_empty_query_matches_all(q: Seq<char>, t: Seq<char>)
    requires
        q.len() == 0,
    ensures
        matching_lines(q, t) == spec_lines(t),
        matching_lines_nocase(q, t) == spec_lines(t),
{
    assert forall|k: int| 0 <= k < spec_lines(t).len() implies match_pred(q)(
        #[trigger] spec_lines(t)[k],
    ) by {
        let l = spec_lines(t)[k];
        assert(l.subrange(0, 0) =~= q);
        assert(is_match_at(q, l, 0));
    }
    assert forall|k: int| 0 <= k < spec_lines(t).len() implies match_pred_nocase(q)(
        #[trigger] spec_lines(t)[k],
    ) by {
        let l = spec_lines(t)[k];
        assert(lower(l).subrange(0, 0) =~= lower(q));
        assert(is_match_at(lower(q), lower(l), 0));
    }
    lemma_filter_all_true(spec_lines(t), match_pred(q));
    lemma_filter_all_true(spec_lines(t), match_pred_nocase(q));
}

/// Law: a query that occurs nowhere in the text matches no line, so the
/// search returns an empty result.
pub proof fn lemma_absent_query_no_matches(q: Seq<char>, t: Seq<char>)
    requires
        !contains_query(q, t),
    ensures
        matching_lines(q, t) == Seq::<Seq<char>>::empty(),
{
    lemma_lines_in_text(t);
    assert forall|k: int| 0 <= k < spec_lines(t).len() implies !match_pred(q)(
        #[trigger] spec_lines(t)[k],
    ) by {
        let l = spec_lines(t)[k];
        if contains_query(q, l) {
            lemma_contains_trans(q, l, t);
        }
    }
    lemma_filter_all_false(spec_lines(t), match_pred(q));
}

/// Law: a query whose folded form occurs nowhere in the folded text
/// matches no line under the case-insensitive algorithm.
pub proof fn lemma_absent_query_no_matches_nocase(q: Seq<char>, t: Seq<char>)
    requires
        !contains_query(lower(q), lower(t)),
    ensures
        matching_lines_nocase(q, t) == Seq::<Seq<char>>::empty(),
{
    lemma_lines_in_text(t);
    assert forall|k: int| 0 <= k < spec_lines(t).len() implies !match_pred_nocase(q)(
        #[trigger] spec_lines(t)[k],
    ) by {
        let l = spec_lines(t)[k];
        if contains_query(lower(q), lower(l)) {
            lemma_lower_preserves_contains(l, t);
            lemma_contains_trans(lower(q), lower(l), lower(t));
        }
    }
    lemma_filter_all_false(spec_lines(t), match_pred_nocase(q));
}

/// Law: an empty text has no lines, so the search returns an empty result
/// whatever the query, under either algorithm.
pub proof fn lemma_empty_text_no_matches(q: Seq<char>, t: Seq<char>)
    requires
        t.len() == 0,
    ensures
        matching_lines(q, t) == Seq::<Seq<char>>::empty(),
        matching_lines_nocase(q, t) == Seq::<Seq<char>>::empty(),
{
    reveal(Seq::filter);
}

} // verus!
