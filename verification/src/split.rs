use vstd::prelude::*;

use crate::scalar::{find_byte, find_byte_exec, find_byte_from, lemma_find_byte_from_bounds, subvec};

verus! {

/// The sequence of views of a sequence of byte vectors.
pub open spec fn views(v: Seq<Vec<u8>>) -> Seq<Seq<u8>> {
    v.map_values(|x: Vec<u8>| x@)
}

pub proof fn lemma_views_push(s: Seq<Vec<u8>>, x: Vec<u8>)
    ensures
        views(s.push(x)) == views(s).push(x@),
{
    assert(views(s.push(x)) =~= views(s).push(x@));
}

/// ASCII whitespace: the characters that separate tokens within a line.
pub open spec fn is_ws(b: u8) -> bool {
    b == 32 || b == 9 || b == 10 || b == 11 || b == 12 || b == 13
}

/// Length of the maximal whitespace-free prefix of `s`.
pub open spec fn token_len(s: Seq<u8>) -> int
    decreases s.len(),
{
    if s.len() == 0 || is_ws(s[0]) {
        0
    } else {
        1 + token_len(s.skip(1))
    }
}

pub proof fn lemma_token_len_bounds(s: Seq<u8>)
    ensures
        0 <= token_len(s) <= s.len(),
    decreases s.len(),
{
    if s.len() > 0 && !is_ws(s[0]) {
        lemma_token_len_bounds(s.skip(1));
    }
}

/// The tokens of `s`: maximal whitespace-free runs, in order, empties dropped.
pub open spec fn split_ws(s: Seq<u8>) -> Seq<Seq<u8>>
    decreases s.len(),
    via split_ws_decreases
{
    if s.len() == 0 {
        Seq::empty()
    } else if is_ws(s[0]) {
        split_ws(s.skip(1))
    } else {
        seq![s.take(token_len(s))] + split_ws(s.skip(token_len(s)))
    }
}

#[via_fn]
proof fn split_ws_decreases(s: Seq<u8>) {
    if s.len() > 0 && !is_ws(s[0]) {
        lemma_token_len_bounds(s);
        lemma_token_len_bounds(s.skip(1));
        assert(token_len(s) == 1 + token_len(s.skip(1)));
    }
}

/// The pieces of `s` between occurrences of `b`, empties kept.
pub open spec fn split_byte(s: Seq<u8>, b: u8) -> Seq<Seq<u8>>
    decreases s.len(),
    via split_byte_decreases
{
    let d = find_byte(s, b);
    if d == -1 {
        seq![s]
    } else {
        seq![s.take(d)] + split_byte(s.skip(d + 1), b)
    }
}

#[via_fn]
proof fn split_byte_decreases(s: Seq<u8>, b: u8) {
    lemma_find_byte_from_bounds(s, b, 0);
}

/// A line with one trailing carriage return removed.
pub open spec fn strip_cr(s: Seq<u8>) -> Seq<u8> {
    if s.len() > 0 && s.last() == 13 {
        s.drop_last()
    } else {
        s
    }
}

/// The lines of `s`: pieces between newlines, each with a trailing carriage
/// return removed, and no final empty line for input that ends in a newline.
pub open spec fn split_lines(s: Seq<u8>) -> Seq<Seq<u8>>
    decreases s.len(),
    via split_lines_decreases
{
    if s.len() == 0 {
        Seq::empty()
    } else {
        let d = find_byte(s, 10);
        if d == -1 {
            seq![strip_cr(s)]
        } else {
            seq![strip_cr(s.take(d))] + split_lines(s.skip(d + 1))
        }
    }
}

#[via_fn]
proof fn split_lines_decreases(s: Seq<u8>) {
    lemma_find_byte_from_bounds(s, 10, 0);
}

proof fn lemma_find_byte_skip(s: Seq<u8>, b: u8, off: int, i: int)
    requires
        0 <= off <= i <= s.len(),
    ensures
        find_byte_from(s, b, i) == if find_byte_from(s.skip(off), b, i - off) == -1 {
            -1
        } else {
            find_byte_from(s.skip(off), b, i - off) + off
        },
    decreases s.len() - i,
{
    if i < s.len() {
        assert(s.skip(off)[i - off] == s[i]);
        if s[i] != b {
            lemma_find_byte_skip(s, b, off, i + 1);
        }
    }
}

proof fn lemma_token_len_range(s: Seq<u8>, i: int, j: int)
    requires
        0 <= i <= j <= s.len(),
        forall|k: int| i <= k < j ==> !is_ws(#[trigger] s[k]),
        j == s.len() || is_ws(s[j]),
    ensures
        token_len(s.skip(i)) == j - i,
    decreases j - i,
{
    if i < j {
        assert(s.skip(i)[0] == s[i]);
        assert(s.skip(i).skip(1) =~= s.skip(i + 1));
        lemma_token_len_range(s, i + 1, j);
    } else {
        if i < s.len() {
            assert(s.skip(i)[0] == s[i]);
        }
    }
}

/// Remove one trailing carriage return from a copied line.
fn strip_cr_exec(v: Vec<u8>) -> (r: Vec<u8>)
    ensures
        r@ == strip_cr(v@),
{
    let mut r = v;
    let ghost orig = r@;
    if r.len() > 0 && r[r.len() - 1] == 13 {
        r.pop();
        proof {
            assert(r@ =~= strip_cr(orig));
        }
    }
    r
}

fn split_lines_from(v: &Vec<u8>, start: usize) -> (r: Vec<Vec<u8>>)
    requires
        start <= v@.len(),
    ensures
        views(r@) == split_lines(v@.skip(start as int)),
    decreases v@.len() - start,
{
    proof {
        lemma_find_byte_skip(v@, 10, start as int, start as int);
        lemma_find_byte_from_bounds(v@.skip(start as int), 10, 0);
        lemma_find_byte_from_bounds(v@, 10, start as int);
    }
    if start == v.len() {
        let r: Vec<Vec<u8>> = Vec::new();
        proof {
            assert(views(r@) =~= split_lines(v@.skip(start as int)));
        }
        return r;
    }
    match find_byte_exec(v, 10, start) {
        None => {
            let line = strip_cr_exec(subvec(v, start, v.len()));
            proof {
                assert(v@.subrange(start as int, v@.len() as int) =~= v@.skip(start as int));
            }
            let mut r: Vec<Vec<u8>> = Vec::new();
            r.push(line);
            proof {
                assert(views(r@) =~= seq![strip_cr(v@.skip(start as int))]);
            }
            r
        },
        Some(d) => {
            let line = strip_cr_exec(subvec(v, start, d));
            proof {
                assert(v@.subrange(start as int, d as int) =~= v@.skip(start as int).take(
                    d - start,
                ));
            }
            let mut r = split_lines_from(v, d + 1);
            r.insert(0, line);
            proof {
                assert(v@.skip(start as int).skip(d - start + 1) =~= v@.skip(d + 1));
                assert(views(r@) =~= seq![strip_cr(v@.skip(start as int).take(d - start))]
                    + split_lines(v@.skip(d + 1)));
            }
            r
        },
    }
}

/// The lines of a model file.
pub fn split_lines_exec(v: &Vec<u8>) -> (r: Vec<Vec<u8>>)
    ensures
        views(r@) == split_lines(v@),
{
    let r = split_lines_from(v, 0);
    proof {
        assert(v@.skip(0) =~= v@);
    }
    r
}

/// End of the whitespace-free token that starts at `start`.
fn token_end(v: &Vec<u8>, start: usize) -> (j: usize)
    requires
        start < v@.len(),
        !is_ws(v@[start as int]),
    ensures
        start < j <= v@.len(),
        forall|k: int| start <= k < j ==> !is_ws(#[trigger] v@[k]),
        j == v@.len() || is_ws(v@[j as int]),
{
    let mut j: usize = start;
    while j < v.len()
        invariant
            start <= j <= v@.len(),
            !is_ws(v@[start as int]),
            forall|k: int| start <= k < j ==> !is_ws(#[trigger] v@[k]),
        decreases v@.len() - j,
    {
        let c = v[j];
        if c == 32 || c == 9 || c == 10 || c == 11 || c == 12 || c == 13 {
            return j;
        }
        j += 1;
    }
    j
}

fn split_ws_from(v: &Vec<u8>, start: usize) -> (r: Vec<Vec<u8>>)
    requires
        start <= v@.len(),
    ensures
        views(r@) == split_ws(v@.skip(start as int)),
    decreases v@.len() - start,
{
    if start == v.len() {
        let r: Vec<Vec<u8>> = Vec::new();
        proof {
            assert(views(r@) =~= split_ws(v@.skip(start as int)));
        }
        return r;
    }
    let c = v[start];
    if c == 32 || c == 9 || c == 10 || c == 11 || c == 12 || c == 13 {
        proof {
            assert(v@.skip(start as int).skip(1) =~= v@.skip(start as int + 1));
        }
        split_ws_from(v, start + 1)
    } else {
        let j = token_end(v, start);
        proof {
            lemma_token_len_range(v@, start as int, j as int);
            assert(v@.subrange(start as int, j as int) =~= v@.skip(start as int).take(
                j - start,
            ));
        }
        let tok = subvec(v, start, j);
        let mut r = split_ws_from(v, j);
        r.insert(0, tok);
        proof {
            assert(v@.skip(start as int).skip(j - start) =~= v@.skip(j as int));
            assert(views(r@) =~= seq![v@.skip(start as int).take(token_len(v@.skip(start as int)))]
                + split_ws(v@.skip(j as int)));
        }
        r
    }
}

/// The whitespace-separated tokens of one line.
pub fn split_ws_exec(v: &Vec<u8>) -> (r: Vec<Vec<u8>>)
    ensures
        views(r@) == split_ws(v@),
{
    let r = split_ws_from(v, 0);
    proof {
        assert(v@.skip(0) =~= v@);
    }
    r
}

fn split_byte_from(v: &Vec<u8>, b: u8, start: usize) -> (r: Vec<Vec<u8>>)
    requires
        start <= v@.len(),
    ensures
        views(r@) == split_byte(v@.skip(start as int), b),
    decreases v@.len() - start,
{
    proof {
        lemma_find_byte_skip(v@, b, start as int, start as int);
        lemma_find_byte_from_bounds(v@.skip(start as int), b, 0);
        lemma_find_byte_from_bounds(v@, b, start as int);
    }
    let n = v.len();
    match find_byte_exec(v, b, start) {
        None => {
            let piece = subvec(v, start, n);
            proof {
                assert(v@.subrange(start as int, v@.len() as int) =~= v@.skip(start as int));
            }
            let mut r: Vec<Vec<u8>> = Vec::new();
            r.push(piece);
            proof {
                assert(views(r@) =~= seq![v@.skip(start as int)]);
            }
            r
        },
        Some(d) => {
            let piece = subvec(v, start, d);
            proof {
                assert(v@.subrange(start as int, d as int) =~= v@.skip(start as int).take(
                    d - start,
                ));
            }
            let mut r = split_byte_from(v, b, d + 1);
            r.insert(0, piece);
            proof {
                assert(v@.skip(start as int).skip(d - start + 1) =~= v@.skip(d + 1));
                assert(views(r@) =~= seq![v@.skip(start as int).take(d - start)] + split_byte(
                    v@.skip(d + 1),
                    b,
                ));
            }
            r
        },
    }
}

/// The pieces of one face token, split at every slash.
pub fn split_byte_exec(v: &Vec<u8>, b: u8) -> (r: Vec<Vec<u8>>)
    ensures
        views(r@) == split_byte(v@, b),
{
    let r = split_byte_from(v, b, 0);
    proof {
        assert(v@.skip(0) =~= v@);
    }
    r
}

} // verus!
