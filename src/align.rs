//! Fitting a line of text into a fixed number of columns.

use vstd::prelude::*;
use vstd::string::StringExecFns;
use crate::cell::{cluster_view, joined, push_joined, push_repeat, repeat};
use crate::term::{clusters_of, graphemes};

verus! {

/// Horizontal alignment of a line.
#[derive(Clone, Copy, PartialEq, Eq, Structural, Debug)]
pub enum Align {
    Left,
    Center,
    Right,
}

/// `s` with `p` spaces of padding placed as `align` says; centered text
/// gets the odd space on its right.
pub open spec fn pad(s: Seq<char>, p: nat, align: Align) -> Seq<char> {
    match align {
        Align::Left => s + repeat(' ', p),
        Align::Right => repeat(' ', p) + s,
        Align::Center => repeat(' ', p / 2) + s + repeat(' ', ((p + 1) / 2) as nat),
    }
}

/// `s`, whose grapheme clusters are `cs`, fitted into `n` columns, one
/// column per cluster: padded with spaces up to `n` clusters when it has
/// fewer, else cut after the first `n`.
pub open spec fn fit_with(s: Seq<char>, cs: Seq<Seq<char>>, n: nat, align: Align) -> Seq<char> {
    if cs.len() < n {
        pad(s, (n - cs.len()) as nat, align)
    } else {
        joined(cs, 0, n as int)
    }
}

/// `s` fitted into `n` columns, counted in grapheme clusters.
pub open spec fn fit(s: Seq<char>, n: nat, align: Align) -> Seq<char> {
    fit_with(s, clusters_of(s), n, align)
}

/// Number of grapheme clusters of a string.
pub fn cluster_count(s: &str) -> (r: usize)
    ensures
        r == clusters_of(s@).len(),
{
    let g = graphemes(s);
    proof {
        assert(cluster_view(g@).len() == g@.len());
    }
    g.len()
}

/// Fits `s` into `n` columns with the given alignment.
pub fn fit_line(s: &str, n: usize, align: Align) -> (r: String)
    ensures
        r@ == fit(s@, n as nat, align),
{
    let clusters = graphemes(s);
    fit_clusters(s, &clusters, n, align)
}

/// Fits `s`, given with its grapheme clusters, into `n` columns.
pub fn fit_clusters(s: &str, clusters: &Vec<String>, n: usize, align: Align) -> (r: String)
    ensures
        r@ == fit_with(s@, cluster_view(clusters@), n as nat, align),
{
    let ghost cs = cluster_view(clusters@);
    assert(cs.len() == clusters@.len());
    let mut res = String::new();
    if clusters.len() < n {
        let p = n - clusters.len();
        match align {
            Align::Left => {
                res.append(s);
                push_repeat(&mut res, ' ', p);
            },
            Align::Right => {
                push_repeat(&mut res, ' ', p);
                res.append(s);
            },
            Align::Center => {
                push_repeat(&mut res, ' ', p / 2);
                res.append(s);
                push_repeat(&mut res, ' ', p - p / 2);
                assert(p - p / 2 == (p + 1) / 2);
            },
        }
        assert(res@ =~= fit_with(s@, cs, n as nat, align));
    } else {
        push_joined(&mut res, clusters, 0, n);
        assert(res@ =~= fit_with(s@, cs, n as nat, align));
    }
    res
}

/// `p` one-space clusters.
pub open spec fn space_clusters(p: nat) -> Seq<Seq<char>> {
    Seq::new(p, |_i: int| seq![' '])
}

/// The clusters of a fitted line: the line's own clusters with space
/// clusters placed as `align` says, or its first `n` clusters.
pub open spec fn fitted_clusters(cs: Seq<Seq<char>>, n: nat, align: Align) -> Seq<Seq<char>> {
    if cs.len() < n {
        let p = (n - cs.len()) as nat;
        match align {
            Align::Left => cs + space_clusters(p),
            Align::Right => space_clusters(p) + cs,
            Align::Center => space_clusters(p / 2) + cs + space_clusters(((p + 1) / 2) as nat),
        }
    } else {
        cs.subrange(0, n as int)
    }
}

/// Joining two runs of clusters one after the other.
proof fn lemma_joined_append(a: Seq<Seq<char>>, b: Seq<Seq<char>>)
    ensures
        joined(a + b, 0, (a.len() + b.len()) as int) == joined(a, 0, a.len() as int) + joined(
            b,
            0,
            b.len() as int,
        ),
    decreases b.len(),
{
    if b.len() == 0 {
        assert(a + b =~= a);
        assert(joined(b, 0, 0) =~= Seq::<char>::empty());
        assert(joined(a, 0, a.len() as int) + joined(b, 0, 0) =~= joined(a, 0, a.len() as int));
    } else {
        let b0 = b.drop_last();
        lemma_joined_append(a, b0);
        assert((a + b).drop_last() =~= a + b0);
        lemma_joined_prefix_eq(a + b, a + b0, (a.len() + b0.len()) as int);
        lemma_joined_prefix_eq(b, b0, b0.len() as int);
        assert((a + b)[(a.len() + b.len() - 1) as int] == b[b.len() - 1]);
    }
}

/// Joining depends only on the clusters joined.
proof fn lemma_joined_prefix_eq(x: Seq<Seq<char>>, y: Seq<Seq<char>>, n: int)
    requires
        0 <= n <= x.len(),
        n <= y.len(),
        forall|k: int| 0 <= k < n ==> x[k] == y[k],
    ensures
        joined(x, 0, n) == joined(y, 0, n),
    decreases n,
{
    if n > 0 {
        lemma_joined_prefix_eq(x, y, n - 1);
    }
}

/// Space clusters join into spaces.
proof fn lemma_joined_spaces(p: nat)
    ensures
        joined(space_clusters(p), 0, p as int) == repeat(' ', p),
    decreases p,
{
    if p > 0 {
        lemma_joined_spaces((p - 1) as nat);
        lemma_joined_prefix_eq(space_clusters(p), space_clusters((p - 1) as nat), p - 1);
        assert(joined(space_clusters(p), 0, p as int) =~= repeat(' ', p));
    } else {
        assert(joined(space_clusters(0), 0, 0) =~= repeat(' ', 0));
    }
}

/// A line fitted into `n` columns is exactly `n` grapheme clusters wide:
/// it is the concatenation of `n` clusters, the line's own and spaces.
pub proof fn lemma_fit_columns(s: Seq<char>, cs: Seq<Seq<char>>, n: nat, align: Align)
    requires
        s == joined(cs, 0, cs.len() as int),
    ensures
        fitted_clusters(cs, n, align).len() == n,
        fit_with(s, cs, n, align) == joined(
            fitted_clusters(cs, n, align),
            0,
            fitted_clusters(cs, n, align).len() as int,
        ),
{
    if cs.len() < n {
        let p = (n - cs.len()) as nat;
        match align {
            Align::Left => {
                lemma_joined_append(cs, space_clusters(p));
                lemma_joined_spaces(p);
            },
            Align::Right => {
                lemma_joined_append(space_clusters(p), cs);
                lemma_joined_spaces(p);
            },
            Align::Center => {
                let l = space_clusters(p / 2);
                let r = space_clusters(((p + 1) / 2) as nat);
                lemma_joined_append(l, cs);
                lemma_joined_append(l + cs, r);
                lemma_joined_spaces(p / 2);
                lemma_joined_spaces(((p + 1) / 2) as nat);
            },
        }
    } else {
        lemma_joined_prefix_eq(cs.subrange(0, n as int), cs, n as int);
    }
}

} // verus!
