//! Character-level text model: line splitting, substring containment and
//! ASCII case folding, each stated as a spec function and implemented over
//! vectors of characters.
use vstd::prelude::*;

verus! {

/// ASCII lowercasing of one character: `A`..=`Z` become `a`..=`z`, everything
/// else is left as it is.
pub open spec fn fold_char(c: char) -> char {
    if 'A' <= c && c <= 'Z' {
        ((c as u32) + 32) as char
    } else {
        c
    }
}

/// ASCII lowercasing of a whole text, character by character.
pub open spec fn fold(s: Seq<char>) -> Seq<char> {
    s.map_values(|c: char| fold_char(c))
}

/// `needle` occurs in `hay` as a contiguous run of characters.
pub open spec fn contains(hay: Seq<char>, needle: Seq<char>) -> bool {
    exists|i: int|
        0 <= i && i + needle.len() <= hay.len() && #[trigger] hay.subrange(i, i + needle.len())
            == needle
}

/// The pieces of `s` between `'\n'` characters, as `split('\n')` cuts them:
/// always one more piece than there are newlines.
pub open spec fn pieces(s: Seq<char>) -> Seq<Seq<char>>
    decreases s.len(),
{
    if s.len() == 0 {
        seq![Seq::empty()]
    } else {
        let p = pieces(s.drop_last());
        if s.last() == '\n' {
            p.push(Seq::empty())
        } else {
            p.update(p.len() - 1, p.last().push(s.last()))
        }
    }
}

/// A piece that was ended by `'\n'` loses a `'\r'` just before it.
pub open spec fn strip_cr(l: Seq<char>) -> Seq<char> {
    if l.len() > 0 && l.last() == '\r' {
        l.drop_last()
    } else {
        l
    }
}

/// The lines of a text: each piece ended by `'\n'` (minus a `'\r'` before the
/// newline), then the last piece if it is not empty. An empty text has no
/// lines, and a final newline does not start another line.
pub open spec fn lines_of(s: Seq<char>) -> Seq<Seq<char>> {
    let p = pieces(s);
    let ended = p.drop_last().map_values(|l: Seq<char>| strip_cr(l));
    if p.last().len() == 0 {
        ended
    } else {
        ended.push(p.last())
    }
}

/// The characters of a string slice, in order.
pub fn chars_of(s: &str) -> (r: Vec<char>)
    ensures
        r@ == s@,
{
    broadcast use vstd::string::group_string_axioms;

    let mut r: Vec<char> = Vec::new();
    for c in it: s.chars()
        invariant
            r@ == it.seq().take(it.index() as int),
    {
        r.push(c);
    }
    r
}

/// A copy of the characters `c[lo..hi]`.
pub fn slice_chars(c: &Vec<char>, lo: usize, hi: usize) -> (r: Vec<char>)
    requires
        lo <= hi <= c@.len(),
    ensures
        r@ == c@.subrange(lo as int, hi as int),
{
    let mut r: Vec<char> = Vec::new();
    let mut i: usize = lo;
    while i < hi
        invariant
            lo <= i <= hi <= c@.len(),
            r@ == c@.subrange(lo as int, i as int),
        decreases hi - i,
    {
        r.push(c[i]);
        i = i + 1;
        assert(r@ =~= c@.subrange(lo as int, i as int));
    }
    r
}

/// ASCII-lowercases every character of `c`.
pub fn fold_chars(c: &Vec<char>) -> (r: Vec<char>)
    ensures
        r@ == fold(c@),
{
    let mut r: Vec<char> = Vec::new();
    let mut i: usize = 0;
    while i < c.len()
        invariant
            i <= c@.len(),
            r@ == fold(c@.take(i as int)),
        decreases c@.len() - i,
    {
        r.push(fold_ascii_char(c[i]));
        i = i + 1;
        assert(r@ =~= fold(c@.take(i as int)));
    }
    assert(c@.take(c@.len() as int) =~= c@);
    r
}

/// Lowercases one character the ASCII way.
pub fn fold_ascii_char(c: char) -> (r: char)
    ensures
        r == fold_char(c),
{
    if 'A' <= c && c <= 'Z' {
        ((c as u8) + 32) as char
    } else {
        c
    }
}

/// The positions of the lines of `c`: entry `k` holds the start and the end
/// (exclusive) of line `k`, in the order of `lines_of`.
pub fn line_bounds(c: &Vec<char>) -> (r: Vec<(usize, usize)>)
    ensures
        r@.len() == lines_of(c@).len(),
        forall|k: int|
            #![trigger r@[k]]
            0 <= k < r@.len() ==> {
                &&& r@[k].0 <= r@[k].1 <= c@.len()
                &&& c@.subrange(r@[k].0 as int, r@[k].1 as int) == lines_of(c@)[k]
            },
{
    let n = c.len();
    let mut r: Vec<(usize, usize)> = Vec::new();
    let mut start: usize = 0;
    let mut i: usize = 0;
    proof {
        assert(c@.take(0) =~= Seq::<char>::empty());
    }
    while i < n
        invariant
            n == c@.len(),
            start <= i <= n,
            pieces(c@.take(i as int)).len() == r@.len() + 1,
            pieces(c@.take(i as int)).last() == c@.subrange(start as int, i as int),
            forall|k: int|
                #![trigger r@[k]]
                0 <= k < r@.len() ==> {
                    &&& r@[k].0 <= r@[k].1 <= i
                    &&& c@.subrange(r@[k].0 as int, r@[k].1 as int) == strip_cr(
                        pieces(c@.take(i as int))[k],
                    )
                },
        decreases n - i,
    {
        let ghost p = pieces(c@.take(i as int));
        let ghost r0 = r@;
        proof {
            assert(c@.take(i + 1).drop_last() =~= c@.take(i as int));
            assert(c@.take(i + 1).last() == c@[i as int]);
        }
        if c[i] == '\n' {
            let end: usize = if i > start && c[i - 1] == '\r' {
                i - 1
            } else {
                i
            };
            proof {
                let l = c@.subrange(start as int, i as int);
                assert(strip_cr(l) =~= c@.subrange(start as int, end as int));
                assert(pieces(c@.take(i + 1)) == p.push(Seq::<char>::empty()));
            }
            r.push((start, end));
            proof {
                let q = pieces(c@.take(i + 1));
                assert forall|k: int| #![trigger r@[k]] 0 <= k < r@.len() implies {
                    &&& r@[k].0 <= r@[k].1 <= i + 1
                    &&& c@.subrange(r@[k].0 as int, r@[k].1 as int) == strip_cr(q[k])
                } by {
                    if k < r0.len() {
                        assert(q[k] == p[k]);
                    }
                }
            }
            start = i + 1;
        } else {
            proof {
                assert(pieces(c@.take(i + 1)) == p.update(p.len() - 1, p.last().push(c@[i as int])));
                assert(c@.subrange(start as int, i + 1) =~= p.last().push(c@[i as int]));
                let q = pieces(c@.take(i + 1));
                assert forall|k: int| #![trigger r@[k]] 0 <= k < r@.len() implies {
                    &&& r@[k].0 <= r@[k].1 <= i + 1
                    &&& c@.subrange(r@[k].0 as int, r@[k].1 as int) == strip_cr(q[k])
                } by {
                    assert(q[k] == p[k]);
                }
            }
        }
        i = i + 1;
        proof {
            assert(c@.subrange(start as int, i as int) =~= pieces(c@.take(i as int)).last());
        }
    }
    let ghost p = pieces(c@);
    proof {
        assert(c@.take(n as int) =~= c@);
        let ended = p.drop_last().map_values(|l: Seq<char>| strip_cr(l));
        assert(ended.len() == r@.len());
    }
    let ghost r0 = r@;
    if start < n {
        r.push((start, n));
    }
    proof {
        assert(c@.subrange(start as int, n as int).len() == n - start);
        let ls = lines_of(c@);
        assert forall|k: int| #![trigger r@[k]] 0 <= k < r@.len() implies {
            &&& r@[k].0 <= r@[k].1 <= c@.len()
            &&& c@.subrange(r@[k].0 as int, r@[k].1 as int) == ls[k]
        } by {
            if k < r0.len() {
                assert(ls[k] == strip_cr(p[k]));
            } else {
                assert(ls[k] == p.last());
            }
        }
    }
    r
}

/// Whether `needle` stands in `hay` at position `i`.
fn matches_at(hay: &Vec<char>, i: usize, needle: &Vec<char>) -> (r: bool)
    requires
        i + needle@.len() <= hay@.len(),
    ensures
        r == (hay@.subrange(i as int, i + needle@.len()) == needle@),
{
    let m = needle.len();
    let n = hay.len();
    let mut j: usize = 0;
    while j < m
        invariant
            m == needle@.len(),
            n == hay@.len(),
            i + m <= hay@.len(),
            j <= m,
            forall|k: int| 0 <= k < j ==> hay@[i + k] == needle@[k],
        decreases m - j,
    {
        assert(i + j < hay@.len());
        if hay[i + j] != needle[j] {
            assert(hay@.subrange(i as int, i + m)[j as int] != needle@[j as int]);
            return false;
        }
        j = j + 1;
    }
    assert(hay@.subrange(i as int, i + m) =~= needle@);
    true
}

/// Whether `needle` occurs in `hay`.
pub fn contains_chars(hay: &Vec<char>, needle: &Vec<char>) -> (r: bool)
    ensures
        r == contains(hay@, needle@),
{
    let n = hay.len();
    let m = needle.len();
    if m > n {
        return false;
    }
    let mut i: usize = 0;
    while i < n - m
        invariant
            n == hay@.len(),
            m == needle@.len(),
            m <= n,
            i <= n - m,
            forall|j: int| 0 <= j < i ==> #[trigger] hay@.subrange(j, j + m) != needle@,
        decreases n - m - i,
    {
        if matches_at(hay, i, needle) {
            return true;
        }
        i = i + 1;
    }
    matches_at(hay, i, needle)
}

} // verus!
