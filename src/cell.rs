//! Board cell and the formatter that lays a cell into a terminal rectangle.

use std::collections::HashMap;
use vstd::prelude::*;
use vstd::string::{StrSliceExecFns, StringExecFns};
use crate::term::{
    bg_color, bg_text, clusters_of, goto, goto_text, graphemes, push_char, reset, reset_text, Rgb,
    ESC, SGR_END,
};

verus! {

broadcast use vstd::std_specs::hash::group_hash_axioms;

/// Shared cell payloads, keyed by small integer ids.
///
/// Useful when many cells of a board show the same content.
pub type ResourceTable = HashMap<u16, String>;

/// Cell content.
#[derive(Clone, Debug)]
pub enum Cell {
    /// Empty cell, filled with spaces.
    Empty,
    /// Id of a payload in the board's [`ResourceTable`]; the board must have one.
    ResourceId(u16),
    /// One code point, repeated over the whole cell.
    Char(char),
    /// Arbitrary string, written into the cell row by row. It may hold style
    /// escape sequences; styles are reset after the cell automatically.
    Content(String),
}

/// Mathematical model of a [`Cell`].
pub enum CellView {
    Empty,
    ResourceId(u16),
    Char(char),
    Content(Seq<char>),
}

impl View for Cell {
    type V = CellView;

    open spec fn view(&self) -> CellView {
        match self {
            Cell::Empty => CellView::Empty,
            Cell::ResourceId(id) => CellView::ResourceId(*id),
            Cell::Char(c) => CellView::Char(*c),
            Cell::Content(s) => CellView::Content(s@),
        }
    }
}

/// Model of an optional resource table: id to payload text.
pub open spec fn table_view(res: Option<ResourceTable>) -> Option<Map<u16, Seq<char>>> {
    match res {
        Some(rt) => Some(rt@.map_values(|s: String| s@)),
        None => None,
    }
}

/// A cell can be drawn: a resource id needs a table that holds it.
pub open spec fn renderable(c: CellView, res: Option<Map<u16, Seq<char>>>) -> bool {
    match c {
        CellView::ResourceId(id) => res is Some && res->0.contains_key(id),
        _ => true,
    }
}

/// The styled text that a resource or content cell carries.
pub open spec fn payload(c: CellView, res: Option<Map<u16, Seq<char>>>) -> Seq<char> {
    match c {
        CellView::ResourceId(id) => res->0[id],
        CellView::Content(s) => s,
        _ => Seq::empty(),
    }
}

/// `n` copies of `c`.
pub open spec fn repeat(c: char, n: nat) -> Seq<char> {
    Seq::new(n, |_i: int| c)
}

/// The first `h` rows of a rectangle filled with `c`, each row positioned
/// at column `x` below row `y`.
pub open spec fn fill_rows(c: char, w: nat, h: nat, x: u16, y: u16) -> Seq<char>
    decreases h,
{
    if h == 0 {
        Seq::empty()
    } else {
        fill_rows(c, w, (h - 1) as nat, x, y) + goto_text(x, (y + h - 1) as u16) + repeat(c, w)
    }
}

/// A cluster that opens an escape sequence.
pub open spec fn opens_escape(g: Seq<char>) -> bool {
    g.len() > 0 && g[0] == ESC
}

/// A cluster that closes an open style sequence.
pub open spec fn closes_escape(g: Seq<char>) -> bool {
    g.len() > 0 && g[0] == SGR_END
}

/// Concatenation of clusters `a..b`.
pub open spec fn joined(cs: Seq<Seq<char>>, a: int, b: int) -> Seq<char>
    decreases b - a,
{
    if b <= a {
        Seq::empty()
    } else {
        joined(cs, a, b - 1) + cs[b - 1]
    }
}

/// Output of the layout from cluster `i` on: `start` is the first cluster of
/// the current row, `count` the printable clusters seen in it, `in_esc`
/// whether an escape sequence is open, `line` the rows already written.
/// A row is cut once it holds `w` printable clusters; what is left when
/// the text ends is written as a last, shorter row; text beyond `h` rows
/// is dropped.
pub open spec fn lay_rest(
    cs: Seq<Seq<char>>,
    w: nat,
    h: nat,
    x: u16,
    y: u16,
    i: int,
    start: int,
    count: nat,
    in_esc: bool,
    line: nat,
) -> Seq<char>
    decreases cs.len() - i,
{
    if i < 0 || line >= h {
        Seq::empty()
    } else if i >= cs.len() {
        joined(cs, start, cs.len() as int)
    } else if opens_escape(cs[i]) {
        lay_rest(cs, w, h, x, y, i + 1, start, count, true, line)
    } else if in_esc {
        lay_rest(cs, w, h, x, y, i + 1, start, count, !closes_escape(cs[i]), line)
    } else if count + 1 == w {
        joined(cs, start, i + 1) + (if line + 1 < h {
            goto_text(x, (y + line + 1) as u16)
        } else {
            Seq::empty()
        }) + lay_rest(cs, w, h, x, y, i + 1, i + 1, 0, false, line + 1)
    } else {
        lay_rest(cs, w, h, x, y, i + 1, start, count + 1, false, line)
    }
}

/// Styled text split into clusters, laid into a `w`×`h` rectangle at
/// (`x`, `y`), followed by a style reset.
pub open spec fn layout_text(cs: Seq<Seq<char>>, w: nat, h: nat, x: u16, y: u16) -> Seq<char> {
    goto_text(x, y) + lay_rest(cs, w, h, x, y, 0, 0, 0, false, 0) + reset_text()
}

/// What drawing a cell into a `w`×`h` rectangle at (`x`, `y`) emits.
pub open spec fn cell_text(
    c: CellView,
    res: Option<Map<u16, Seq<char>>>,
    w: nat,
    h: nat,
    x: u16,
    y: u16,
) -> Seq<char> {
    match c {
        CellView::Empty => fill_rows(' ', w, h, x, y) + reset_text(),
        CellView::Char(ch) => fill_rows(ch, w, h, x, y) + reset_text(),
        _ => layout_text(clusters_of(payload(c, res)), w, h, x, y),
    }
}

/// The highlighted variant of a cell of `w`×`h` characters: its content
/// prefixed with a background color.
pub open spec fn highlighted(
    c: CellView,
    res: Option<Map<u16, Seq<char>>>,
    w: nat,
    h: nat,
    bg: Rgb,
) -> CellView {
    CellView::Content(
        bg_text(bg) + match c {
            CellView::Empty => repeat(' ', w * h),
            CellView::Char(ch) => repeat(ch, w * h),
            _ => payload(c, res),
        },
    )
}

/// Clusters held as strings, as text.
pub open spec fn cluster_view(v: Seq<String>) -> Seq<Seq<char>> {
    v.map_values(|g: String| g@)
}

/// Appends `n` copies of `c`.
pub(crate) fn push_repeat(s: &mut String, c: char, n: usize)
    ensures
        final(s)@ == old(s)@ + repeat(c, n as nat),
{
    let mut k: usize = 0;
    while k < n
        invariant
            k <= n,
            s@ == old(s)@ + repeat(c, k as nat),
        decreases n - k,
    {
        push_char(s, c);
        k = k + 1;
        assert(s@ =~= old(s)@ + repeat(c, k as nat));
    }
}

/// Appends clusters `a..b`.
pub(crate) fn push_joined(s: &mut String, clusters: &Vec<String>, a: usize, b: usize)
    requires
        a <= b <= clusters@.len(),
    ensures
        final(s)@ == old(s)@ + joined(cluster_view(clusters@), a as int, b as int),
{
    let ghost cs = cluster_view(clusters@);
    let mut k: usize = a;
    assert(joined(cs, a as int, a as int) =~= Seq::empty());
    assert(s@ =~= old(s)@ + joined(cs, a as int, a as int));
    while k < b
        invariant
            a <= k <= b <= clusters@.len(),
            cs == cluster_view(clusters@),
            s@ == old(s)@ + joined(cs, a as int, k as int),
        decreases b - k,
    {
        s.append(clusters[k].as_str());
        k = k + 1;
        assert(s@ =~= old(s)@ + joined(cs, a as int, k as int));
    }
}

/// Lays styled text, given as its grapheme clusters, into a `width`×`height`
/// rectangle whose top left corner is at (`x`, `y`).
///
/// Clusters inside escape sequences are copied but take no room; a row is
/// cut when it holds `width` printable clusters, text beyond `height` rows
/// is dropped, and a style reset ends the output.
pub fn layout_clusters(clusters: &Vec<String>, width: usize, height: usize, x: u16, y: u16) -> (r:
    String)
    requires
        y as int + height as int <= 65536,
    ensures
        r@ == layout_text(cluster_view(clusters@), width as nat, height as nat, x, y),
{
    let ghost cs = cluster_view(clusters@);
    let ghost w = width as nat;
    let ghost h = height as nat;
    let mut res = goto(x, y);
    let mut i: usize = 0;
    let mut start: usize = 0;
    let mut count: usize = 0;
    let mut in_esc = false;
    let mut line: usize = 0;
    while i < clusters.len() && line < height
        invariant
            cs == cluster_view(clusters@),
            w == width,
            h == height,
            y as int + height as int <= 65536,
            start <= i <= clusters@.len(),
            count <= i,
            line <= height,
            res@ + lay_rest(cs, w, h, x, y, i as int, start as int, count as nat, in_esc, line as nat)
                == goto_text(x, y) + lay_rest(cs, w, h, x, y, 0, 0, 0, false, 0),
        decreases clusters@.len() - i,
    {
        let g = &clusters[i];
        let first = if g.as_str().is_empty() {
            None
        } else {
            Some(g.as_str().get_char(0))
        };
        proof {
            assert(cs[i as int] == g@);
        }
        if first == Some(ESC) {
            in_esc = true;
        } else if in_esc {
            in_esc = first != Some(SGR_END);
        } else if count + 1 == width {
            let ghost before = res@;
            let ghost rest = lay_rest(cs, w, h, x, y, i as int + 1, i as int + 1, 0, false, line as nat + 1);
            push_joined(&mut res, clusters, start, i + 1);
            if line + 1 < height {
                let next_row = goto(x, y + (line + 1) as u16);
                res.append(next_row.as_str());
            }
            assert(res@ + rest =~= before + (joined(cs, start as int, i + 1) + (if line + 1 < height {
                goto_text(x, (y + line + 1) as u16)
            } else {
                Seq::empty()
            }) + rest));
            start = i + 1;
            count = 0;
            line = line + 1;
        } else {
            count = count + 1;
        }
        i = i + 1;
    }
    if line < height {
        let ghost before = res@;
        push_joined(&mut res, clusters, start, clusters.len());
        assert(res@ =~= before + lay_rest(
            cs,
            w,
            h,
            x,
            y,
            i as int,
            start as int,
            count as nat,
            in_esc,
            line as nat,
        ));
    }
    let tail = reset();
    res.append(tail.as_str());
    res
}

/// Fills a `width`×`height` rectangle at (`x`, `y`) with `c`.
fn prepare_str_from_char(c: char, width: usize, height: usize, x: u16, y: u16) -> (r: String)
    requires
        y as int + height as int <= 65536,
    ensures
        r@ == fill_rows(c, width as nat, height as nat, x, y) + reset_text(),
{
    let mut res = String::new();
    let mut k: usize = 0;
    while k < height
        invariant
            k <= height,
            y as int + height as int <= 65536,
            res@ == fill_rows(c, width as nat, k as nat, x, y),
        decreases height - k,
    {
        let row = goto(x, y + k as u16);
        res.append(row.as_str());
        push_repeat(&mut res, c, width);
        k = k + 1;
        assert(res@ =~= fill_rows(c, width as nat, k as nat, x, y));
    }
    let tail = reset();
    res.append(tail.as_str());
    res
}

/// Lays styled text into a `width`×`height` rectangle at (`x`, `y`).
fn prepare_str(content: &str, width: usize, height: usize, x: u16, y: u16) -> (r: String)
    requires
        y as int + height as int <= 65536,
    ensures
        r@ == layout_text(clusters_of(content@), width as nat, height as nat, x, y),
        plain_fill(content@, width as nat, height as nat) ==> r@ == plain_rows(
            clusters_of(content@),
            width as nat,
            height as nat,
            x,
            y,
            0,
        ) + reset_text(),
{
    let clusters = graphemes(content);
    proof {
        let cs = cluster_view(clusters@);
        if plain_fill(content@, width as nat, height as nat) {
            assert forall|i: int| 0 <= i < cs.len() implies !opens_escape(#[trigger] cs[i]) by {
                assert(cs[i] == clusters@[i]@);
                lemma_flatten_holds_first(cs, i);
            }
            lemma_plain_layout(cs, width as nat, height as nat, x, y);
        }
    }
    layout_clusters(&clusters, width, height, x, y)
}

/// Text without escape characters whose grapheme clusters exactly fill a
/// `w`×`h` rectangle.
pub open spec fn plain_fill(s: Seq<char>, w: nat, h: nat) -> bool {
    &&& w > 0
    &&& h > 0
    &&& clusters_of(s).len() == w * h
    &&& forall|k: int| 0 <= k < s.len() ==> s[k] != ESC
}

/// The first character of each non-empty piece occurs in the concatenation.
proof fn lemma_flatten_holds_first(cs: Seq<Seq<char>>, i: int)
    requires
        0 <= i < cs.len(),
        cs[i].len() > 0,
    ensures
        exists|k: int| 0 <= k < cs.flatten().len() && cs.flatten()[k] == cs[i][0],
    decreases i,
{
    if i == 0 {
        assert(cs.flatten() == cs[0] + cs.drop_first().flatten());
        assert(cs.flatten()[0] == cs[0][0]);
    } else {
        let rest = cs.drop_first();
        assert(rest[i - 1] == cs[i]);
        lemma_flatten_holds_first(rest, i - 1);
        let k = choose|k: int| 0 <= k < rest.flatten().len() && rest.flatten()[k] == cs[i][0];
        assert(cs.flatten() == cs[0] + rest.flatten());
        assert(cs.flatten()[cs[0].len() + k] == rest.flatten()[k]);
    }
}

impl Cell {
    /// A copy of this cell.
    pub fn duplicate(&self) -> (r: Cell)
        ensures
            r@ == self@,
    {
        match self {
            Cell::Empty => Cell::Empty,
            Cell::ResourceId(id) => Cell::ResourceId(*id),
            Cell::Char(c) => Cell::Char(*c),
            Cell::Content(s) => Cell::Content(s.clone()),
        }
    }

    /// The payload text of a resource or content cell.
    fn payload_str<'a>(&'a self, resources: &'a Option<ResourceTable>) -> (r: &'a str)
        requires
            renderable(self@, table_view(*resources)),
            self is ResourceId || self is Content,
        ensures
            r@ == payload(self@, table_view(*resources)),
    {
        match self {
            Cell::Content(s) => s.as_str(),
            Cell::ResourceId(id) => {
                let rt = resources.as_ref().unwrap();
                let found = rt.get(id);
                proof {
                    assert(rt@.contains_key(*id));
                }
                found.unwrap().as_str()
            },
            _ => {
                proof {
                    assert(false);
                }
                ""
            },
        }
    }

    /// The text that draws this cell into a `width`×`height` rectangle whose
    /// top left corner is at (`x`, `y`).
    pub fn get_content(
        &self,
        width: usize,
        height: usize,
        x: u16,
        y: u16,
        resources: &Option<ResourceTable>,
    ) -> (r: String)
        requires
            renderable(self@, table_view(*resources)),
            y as int + height as int <= 65536,
        ensures
            r@ == cell_text(self@, table_view(*resources), width as nat, height as nat, x, y),
            ({
                let s = payload(self@, table_view(*resources));
                self@ is Content && plain_fill(s, width as nat, height as nat) ==> r@ == plain_rows(
                    clusters_of(s),
                    width as nat,
                    height as nat,
                    x,
                    y,
                    0,
                ) + reset_text()
            }),
    {
        match self {
            Cell::Empty => prepare_str_from_char(' ', width, height, x, y),
            Cell::Char(c) => prepare_str_from_char(*c, width, height, x, y),
            _ => prepare_str(self.payload_str(resources), width, height, x, y),
        }
    }

    /// The highlighted variant of this cell, for a `width`×`height` cell:
    /// a content cell that starts with the background color `bg`.
    pub fn with_bg_color(
        &self,
        width: usize,
        height: usize,
        resources: &Option<ResourceTable>,
        bg: Rgb,
    ) -> (r: Cell)
        requires
            renderable(self@, table_view(*resources)),
            width * height <= usize::MAX,
        ensures
            r@ == highlighted(self@, table_view(*resources), width as nat, height as nat, bg),
    {
        let mut s = bg_color(bg);
        match self {
            Cell::Empty => push_repeat(&mut s, ' ', width * height),
            Cell::Char(c) => push_repeat(&mut s, *c, width * height),
            _ => s.append(self.payload_str(resources)),
        }
        Cell::Content(s)
    }
}

/// No cluster opens an escape sequence.
pub open spec fn plain_text(cs: Seq<Seq<char>>) -> bool {
    forall|i: int| 0 <= i < cs.len() ==> !opens_escape(#[trigger] cs[i])
}

/// Rows `r..h` of plain text cut every `w` clusters, each row positioned at
/// column `x` below row `y` and followed by its clusters.
pub open spec fn plain_rows(cs: Seq<Seq<char>>, w: nat, h: nat, x: u16, y: u16, r: nat) -> Seq<char>
    decreases h - r,
{
    if r >= h {
        Seq::empty()
    } else {
        goto_text(x, (y + r) as u16) + joined(cs, (r * w) as int, ((r + 1) * w) as int) + plain_rows(
            cs,
            w,
            h,
            x,
            y,
            r + 1,
        )
    }
}

/// Within row `r` of plain text, from its `c`-th cluster on, the layout
/// finishes the row and moves on to the next one.
proof fn lemma_plain_row(cs: Seq<Seq<char>>, w: nat, h: nat, x: u16, y: u16, r: nat, c: nat)
    requires
        plain_text(cs),
        w > 0,
        cs.len() == w * h,
        r < h,
        c < w,
    ensures
        lay_rest(cs, w, h, x, y, (r * w + c) as int, (r * w) as int, c, false, r) == joined(cs, (r * w) as int, ((r + 1) * w) as int) + (
        if r + 1 < h {
            goto_text(x, (y + r + 1) as u16)
        } else {
            Seq::empty()
        }) + lay_rest(cs, w, h, x, y, ((r + 1) * w) as int, ((r + 1) * w) as int, 0, false, r + 1),
    decreases w - c,
{
    let i = (r * w + c) as int;
    assert((r + 1) * w == r * w + w && (r + 1) * w <= h * w && r * w >= 0) by (nonlinear_arith)
        requires
            r < h,
            w > 0,
    ;
    assert(!opens_escape(cs[i]));
    if c + 1 < w {
        lemma_plain_row(cs, w, h, x, y, r, c + 1);
    }
}

/// From the start of row `r` of plain text, the layout is the remaining
/// rows.
proof fn lemma_plain_rows(cs: Seq<Seq<char>>, w: nat, h: nat, x: u16, y: u16, r: nat)
    requires
        plain_text(cs),
        w > 0,
        cs.len() == w * h,
        r < h,
    ensures
        goto_text(x, (y + r) as u16) + lay_rest(cs, w, h, x, y, (r * w) as int, (r * w) as int, 0, false, r)
            == plain_rows(cs, w, h, x, y, r),
    decreases h - r,
{
    lemma_plain_row(cs, w, h, x, y, r, 0);
    assert(r * w + 0 == r * w);
    if r + 1 < h {
        lemma_plain_rows(cs, w, h, x, y, r + 1);
    } else {
        assert(plain_rows(cs, w, h, x, y, r + 1) =~= Seq::empty());
    }
    assert(goto_text(x, (y + r) as u16) + lay_rest(cs, w, h, x, y, (r * w) as int, (r * w) as int, 0, false, r)
        =~= plain_rows(cs, w, h, x, y, r));
}

/// Plain text (no escape sequence) of exactly `w*h` clusters lays out as
/// `h` rows, each a positioning directive followed by exactly `w`
/// clusters, and one style reset at the end.
pub proof fn lemma_plain_layout(cs: Seq<Seq<char>>, w: nat, h: nat, x: u16, y: u16)
    requires
        w > 0,
        h > 0,
        cs.len() == w * h,
        plain_text(cs),
    ensures
        layout_text(cs, w, h, x, y) == plain_rows(cs, w, h, x, y, 0) + reset_text(),
{
    lemma_plain_rows(cs, w, h, x, y, 0);
    assert((y + 0) as u16 == y);
    assert(0 * w == 0);
}

/// When every cluster is one character, each row of `w` clusters is
/// exactly `w` characters.
pub proof fn lemma_plain_row_width(cs: Seq<Seq<char>>, w: nat, h: nat, r: nat)
    requires
        cs.len() == w * h,
        r < h,
        forall|k: int| 0 <= k < cs.len() ==> (#[trigger] cs[k]).len() == 1,
    ensures
        joined(cs, (r * w) as int, ((r + 1) * w) as int).len() == w,
{
    assert((r + 1) * w == r * w + w && (r + 1) * w <= h * w) by (nonlinear_arith)
        requires
            r < h,
    ;
    lemma_joined_unit_len(cs, (r * w) as int, ((r + 1) * w) as int);
}

/// Clusters of one character each join into one character per cluster.
proof fn lemma_joined_unit_len(cs: Seq<Seq<char>>, a: int, b: int)
    requires
        0 <= a <= b <= cs.len(),
        forall|k: int| 0 <= k < cs.len() ==> (#[trigger] cs[k]).len() == 1,
    ensures
        joined(cs, a, b).len() == b - a,
    decreases b - a,
{
    if a < b {
        lemma_joined_unit_len(cs, a, b - 1);
    }
}

} // verus!
