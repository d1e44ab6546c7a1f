//! Line-oriented substring search: the lines of a text that contain a search
//! term, exactly or under ASCII case folding.
use vstd::prelude::*;

mod config;
pub mod laws;
pub mod text;

pub use crate::config::{Config, ConfigError};

use crate::text::{
    chars_of, contains, contains_chars, fold, fold_chars, line_bounds, lines_of, slice_chars,
};

verus! {

/// Whether `line` is kept for `needle`: it contains it literally, or, when
/// `folded`, its ASCII-lowercased form contains the lowercased needle.
pub open spec fn hit(needle: Seq<char>, line: Seq<char>, folded: bool) -> bool {
    if folded {
        contains(fold(line), fold(needle))
    } else {
        contains(line, needle)
    }
}

/// The test that decides which lines are kept for `needle`.
pub open spec fn keep(needle: Seq<char>, folded: bool) -> spec_fn(Seq<char>) -> bool {
    |l: Seq<char>| hit(needle, l, folded)
}

/// The lines of `text` kept for `needle`, in the order of the text.
pub open spec fn selected(needle: Seq<char>, text: Seq<char>, folded: bool) -> Seq<Seq<char>> {
    lines_of(text).filter(keep(needle, folded))
}

/// The lines of `text` that contain `needle`.
pub open spec fn exact_matches(needle: Seq<char>, text: Seq<char>) -> Seq<Seq<char>> {
    selected(needle, text, false)
}

/// The lines of `text` that contain `needle` once both are ASCII-lowercased.
pub open spec fn folded_matches(needle: Seq<char>, text: Seq<char>) -> Seq<Seq<char>> {
    selected(needle, text, true)
}

/// The characters of each line handed back.
pub open spec fn views<'a>(r: Seq<&'a str>) -> Seq<Seq<char>> {
    r.map_values(|l: &'a str| l@)
}

/// The lines of `text` kept for `needle`, as slices of `text`.
pub(crate) fn select_lines<'a>(needle: &str, text: &'a str, folded: bool) -> (r: Vec<&'a str>)
    ensures
        views(r@) == selected(needle@, text@, folded),
{
    let chars = chars_of(text);
    let bounds = line_bounds(&chars);
    let key = chars_of(needle);
    let folded_key = fold_chars(&key);
    let ghost ls = lines_of(text@);
    let ghost pred = keep(needle@, folded);
    let mut r: Vec<&'a str> = Vec::new();
    let mut k: usize = 0;
    while k < bounds.len()
        invariant
            chars@ == text@,
            key@ == needle@,
            folded_key@ == fold(needle@),
            ls == lines_of(text@),
            pred == keep(needle@, folded),
            bounds@.len() == ls.len(),
            forall|j: int|
                #![trigger bounds@[j]]
                0 <= j < bounds@.len() ==> {
                    &&& bounds@[j].0 <= bounds@[j].1 <= chars@.len()
                    &&& chars@.subrange(bounds@[j].0 as int, bounds@[j].1 as int) == ls[j]
                },
            k <= bounds@.len(),
            views(r@) == ls.take(k as int).filter(pred),
        decreases bounds@.len() - k,
    {
        let (lo, hi) = bounds[k];
        let line = slice_chars(&chars, lo, hi);
        let kept = if folded {
            contains_chars(&fold_chars(&line), &folded_key)
        } else {
            contains_chars(&line, &key)
        };
        let ghost before = r@;
        proof {
            assert(ls.take(k + 1) =~= ls.take(k as int).push(ls[k as int]));
            ls.take(k as int).lemma_filter_push(ls[k as int], pred);
        }
        if kept {
            let piece = text.substring_char(lo, hi);
            r.push(piece);
            proof {
                assert(views(r@) =~= views(before).push(piece@));
            }
        }
        k = k + 1;
    }
    proof {
        assert(ls.take(k as int) =~= ls);
    }
    r
}

/// Every line of `contents` that contains `query`, in order, each line as a
/// slice of `contents`.
pub fn search<'a>(query: &str, contents: &'a str) -> (r: Vec<&'a str>)
    ensures
        views(r@) == exact_matches(query@, contents@),
{
    select_lines(query, contents, false)
}

/// Every line of `contents` that contains `query` when both are
/// ASCII-lowercased (`A`..=`Z` to `a`..=`z`, nothing else changed), in order.
/// The lines keep their own casing.
pub fn search_case_insensitive<'a>(query: &str, contents: &'a str) -> (r: Vec<&'a str>)
    ensures
        views(r@) == folded_matches(query@, contents@),
{
    select_lines(query, contents, true)
}

} // verus!
