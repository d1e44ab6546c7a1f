//! Properties of the matchers that relate them to the lines of the text and
//! to each other.
use vstd::prelude::*;

use crate::text::{contains, fold, lines_of};
use crate::{exact_matches, folded_matches, hit, keep, selected, views};

verus! {

/// The positions in `s` of the items that `pred` keeps, in increasing order.
pub open spec fn kept_positions(s: Seq<Seq<char>>, pred: spec_fn(Seq<char>) -> bool) -> Seq<int>
    decreases s.len(),
{
    if s.len() == 0 {
        Seq::empty()
    } else {
        let p = kept_positions(s.drop_last(), pred);
        if pred(s.last()) {
            p.push(s.len() - 1)
        } else {
            p
        }
    }
}

/// `r` is `ls` read at the strictly increasing positions `idx`.
pub open spec fn reads_at(r: Seq<Seq<char>>, ls: Seq<Seq<char>>, idx: Seq<int>) -> bool {
    &&& idx.len() == r.len()
    &&& forall|k: int|
        #![trigger idx[k]]
        0 <= k < idx.len() ==> 0 <= idx[k] < ls.len() && r[k] == ls[idx[k]]
    &&& forall|k1: int, k2: int|
        #![trigger idx[k1], idx[k2]]
        0 <= k1 < k2 < idx.len() ==> idx[k1] < idx[k2]
}

/// `s.filter(pred)` is `s` read at `kept_positions(s, pred)`: increasing
/// positions that cover every item `pred` keeps.
pub proof fn lemma_kept_positions(s: Seq<Seq<char>>, pred: spec_fn(Seq<char>) -> bool)
    ensures
        kept_positions(s, pred).len() == s.filter(pred).len(),
        forall|k: int|
            #![trigger kept_positions(s, pred)[k]]
            0 <= k < kept_positions(s, pred).len() ==> {
                &&& 0 <= kept_positions(s, pred)[k] < s.len()
                &&& s.filter(pred)[k] == s[kept_positions(s, pred)[k]]
            },
        forall|k1: int, k2: int|
            #![trigger kept_positions(s, pred)[k1], kept_positions(s, pred)[k2]]
            0 <= k1 < k2 < kept_positions(s, pred).len() ==> kept_positions(s, pred)[k1]
                < kept_positions(s, pred)[k2],
        forall|j: int|
            0 <= j < s.len() && #[trigger] pred(s[j]) ==> exists|k: int|
                0 <= k < kept_positions(s, pred).len() && #[trigger] kept_positions(s, pred)[k]
                    == j,
    decreases s.len(),
{
    reveal(Seq::filter);
    if s.len() > 0 {
        let t = s.drop_last();
        lemma_kept_positions(t, pred);
        let p = kept_positions(t, pred);
        let idx = kept_positions(s, pred);
        assert forall|j: int| 0 <= j < s.len() && #[trigger] pred(s[j]) implies exists|k: int|
            0 <= k < idx.len() && #[trigger] idx[k] == j by {
            if j < s.len() - 1 {
                assert(t[j] == s[j]);
                let k = choose|k: int| 0 <= k < p.len() && #[trigger] p[k] == j;
                assert(idx[k] == j);
            } else {
                assert(idx[p.len() as int] == j);
            }
        }
    }
}

/// Every line returned by `search` contains the needle, and every line of the
/// text that contains it is returned exactly once, in the text's order: the
/// result is the text's lines read at increasing positions that cover every
/// matching line.
pub proof fn search_returns_exactly_the_matching_lines(needle: Seq<char>, text: Seq<char>)
    ensures
        forall|k: int|
            0 <= k < exact_matches(needle, text).len() ==> contains(
                #[trigger] exact_matches(needle, text)[k],
                needle,
            ),
        exists|idx: Seq<int>|
            #[trigger] reads_at(exact_matches(needle, text), lines_of(text), idx) && forall|j: int|
                0 <= j < lines_of(text).len() && contains(#[trigger] lines_of(text)[j], needle)
                    ==> exists|k: int| 0 <= k < idx.len() && #[trigger] idx[k] == j,
{
    let ls = lines_of(text);
    let pred = keep(needle, false);
    lemma_kept_positions(ls, pred);
    assert forall|k: int| 0 <= k < exact_matches(needle, text).len() implies contains(
        #[trigger] exact_matches(needle, text)[k],
        needle,
    ) by {
        ls.lemma_filter_pred(pred, k);
    }
    let idx = kept_positions(ls, pred);
    assert forall|j: int|
        0 <= j < ls.len() && contains(#[trigger] ls[j], needle) implies exists|k: int|
        0 <= k < idx.len() && #[trigger] idx[k] == j by {
        assert(pred(ls[j]));
    }
    assert(reads_at(exact_matches(needle, text), ls, idx));
}

/// Folding both sides keeps a literal occurrence.
pub proof fn lemma_fold_keeps_contains(hay: Seq<char>, needle: Seq<char>)
    requires
        contains(hay, needle),
    ensures
        contains(fold(hay), fold(needle)),
{
    let i = choose|i: int|
        0 <= i && i + needle.len() <= hay.len() && #[trigger] hay.subrange(i, i + needle.len())
            == needle;
    assert(fold(hay).subrange(i, i + needle.len()) =~= fold(needle));
}

/// Every line that `search` returns is also returned by
/// `search_case_insensitive`, and every line that the latter returns contains
/// the needle once both are ASCII-lowercased.
pub proof fn case_insensitive_search_covers_search(needle: Seq<char>, text: Seq<char>)
    ensures
        forall|k: int|
            0 <= k < exact_matches(needle, text).len() ==> folded_matches(needle, text).contains(
                #[trigger] exact_matches(needle, text)[k],
            ),
        forall|k: int|
            0 <= k < folded_matches(needle, text).len() ==> contains(
                fold(#[trigger] folded_matches(needle, text)[k]),
                fold(needle),
            ),
{
    let ls = lines_of(text);
    assert forall|k: int| 0 <= k < exact_matches(needle, text).len() implies folded_matches(
        needle,
        text,
    ).contains(#[trigger] exact_matches(needle, text)[k]) by {
        let l = exact_matches(needle, text)[k];
        ls.lemma_filter_pred(keep(needle, false), k);
        assert(exact_matches(needle, text).contains(l));
        ls.lemma_filter_contains_rev(keep(needle, false), l);
        let j = choose|j: int| 0 <= j < ls.len() && ls[j] == l;
        lemma_fold_keeps_contains(l, needle);
        ls.lemma_filter_contains(keep(needle, true), j);
    }
    assert forall|k: int| 0 <= k < folded_matches(needle, text).len() implies contains(
        fold(#[trigger] folded_matches(needle, text)[k]),
        fold(needle),
    ) by {
        ls.lemma_filter_pred(keep(needle, true), k);
    }
}

/// Two outputs of the same request over the same text are the same lines:
/// what is printed depends on the request and the file's text alone.
pub proof fn same_request_same_output<'a, 'b>(
    needle: Seq<char>,
    text: Seq<char>,
    ignore_case: bool,
    first: Seq<&'a str>,
    second: Seq<&'b str>,
)
    requires
        views(first) == selected(needle, text, ignore_case),
        views(second) == selected(needle, text, ignore_case),
    ensures
        views(first) == views(second),
{
}

/// A filter that keeps everything changes nothing.
proof fn lemma_filter_all(s: Seq<Seq<char>>, pred: spec_fn(Seq<char>) -> bool)
    requires
        forall|l: Seq<char>| #[trigger] pred(l),
    ensures
        s.filter(pred) == s,
    decreases s.len(),
{
    reveal(Seq::filter);
    if s.len() > 0 {
        lemma_filter_all(s.drop_last(), pred);
        assert(s.drop_last().push(s.last()) =~= s);
    }
}

/// The empty needle matches every line, empty lines included, in both modes.
pub proof fn empty_needle_matches_every_line(text: Seq<char>)
    ensures
        exact_matches(Seq::empty(), text) == lines_of(text),
        folded_matches(Seq::empty(), text) == lines_of(text),
{
    assert forall|l: Seq<char>| #[trigger] hit(Seq::empty(), l, false) by {
        let e = Seq::<char>::empty();
        assert(l.subrange(0int, 0int + e.len()) =~= e);
    }
    assert forall|l: Seq<char>| #[trigger] hit(Seq::empty(), l, true) by {
        let e = fold(Seq::<char>::empty());
        assert(e =~= Seq::<char>::empty());
        assert(fold(l).subrange(0int, 0int + e.len()) =~= e);
    }
    lemma_filter_all(lines_of(text), keep(Seq::empty(), false));
    lemma_filter_all(lines_of(text), keep(Seq::empty(), true));
}

/// An empty text has no lines, so nothing matches in it, in either mode.
pub proof fn empty_text_has_no_matches(needle: Seq<char>)
    ensures
        lines_of(Seq::empty()) == Seq::<Seq<char>>::empty(),
        exact_matches(needle, Seq::empty()) == Seq::<Seq<char>>::empty(),
        folded_matches(needle, Seq::empty()) == Seq::<Seq<char>>::empty(),
{
    reveal(Seq::filter);
    assert(lines_of(Seq::empty()) =~= Seq::<Seq<char>>::empty());
}

} // verus!
