//! Game board: the cell grid, its borders, the cursor and the message
//! dialog, and the decision of what to repaint.

use vstd::prelude::*;
use vstd::arithmetic::div_mod::{
    lemma_fundamental_div_mod, lemma_fundamental_div_mod_converse, lemma_mod_pos_bound,
};
use crate::cell::{renderable, table_view, Cell, CellView, ResourceTable};
use crate::cell_grid::{
    apply_updates, cells_view, lemma_apply_after_write, lemma_apply_renderable, lemma_apply_untouched,
    touched, updates_in_grid, updates_view, CellGrid, CellUpdates,
};
use crate::chars::{
    DOUBLE_BORDER_BOTTOM_LEFT, DOUBLE_BORDER_BOTTOM_RIGHT, DOUBLE_BORDER_HOR_LINE,
    DOUBLE_BORDER_JOIN_DOWN, DOUBLE_BORDER_JOIN_LEFT, DOUBLE_BORDER_JOIN_RIGHT, DOUBLE_BORDER_JOIN_UP,
    DOUBLE_BORDER_TOP_LEFT, DOUBLE_BORDER_TOP_RIGHT, DOUBLE_BORDER_VERT_LINE, SINGLE_BORDER_CROSS,
    SINGLE_BORDER_HOR_LINE, SINGLE_BORDER_VERT_LINE,
};
use crate::cursor::{all_renderable, Cursor, Key, KeyHandleResult};
use crate::game::{cell_index, in_grid, lemma_index_in_grid, Position};
use crate::term::{clusters_of, goto, goto_text, push_char, reset, reset_text};
use crate::align::{cluster_count, fit, fit_line, Align};
use crate::cell::{cell_text, fill_rows, push_repeat, repeat};
use vstd::string::StrSliceExecFns;
use vstd::string::StringExecFns;

verus! {

/// Characters taken by `n` cells of `size` characters with the outer border
/// and, if `borders`, a line between neighbouring cells.
pub open spec fn span(n: nat, size: nat, borders: bool) -> nat {
    n * size + 2 + if borders && n > 0 {
        (n - 1) as nat
    } else {
        0
    }
}

/// `n` cells of `size` characters, with the outer border, fit in screen
/// coordinates starting at 1.
pub open spec fn side_ok(n: nat, size: nat, borders: bool) -> bool {
    1 + span(n, size, borders) <= u16::MAX + 1
}

/// Dimensions that `Board::new` accepts.
pub open spec fn size_ok(width: nat, height: nat, cw: nat, ch: nat, borders: bool) -> bool {
    &&& width > 0
    &&& height > 0
    &&& width * height <= usize::MAX
    &&& side_ok(width, cw, borders)
    &&& side_ok(height, ch, borders)
}

/// Distance between the origins of neighbouring cells.
pub open spec fn stride(size: nat, borders: bool) -> nat {
    size + if borders {
        1nat
    } else {
        0
    }
}

/// Coordinates from (`x`, `y`) over a `w`×`h` area stay on the screen.
pub open spec fn fits_screen(x: nat, y: nat, w: nat, h: nat) -> bool {
    x + w <= u16::MAX + 1 && y + h <= u16::MAX + 1
}

/// The glyph at column `w`, row `h` of the border of a `width`×`height`
/// board whose cells are `cw`×`ch`; `None` inside a cell.
pub open spec fn border_glyph(
    width: nat,
    height: nat,
    cw: nat,
    ch: nat,
    borders: bool,
    w: nat,
    h: nat,
) -> Option<char> {
    let h_line = h % (ch + 1) == 0;
    let v_line = w % (cw + 1) == 0;
    if w == 0 && h == 0 {
        Some(DOUBLE_BORDER_TOP_LEFT)
    } else if w == width - 1 && h == 0 {
        Some(DOUBLE_BORDER_TOP_RIGHT)
    } else if w == 0 && h == height - 1 {
        Some(DOUBLE_BORDER_BOTTOM_LEFT)
    } else if w == width - 1 && h == height - 1 {
        Some(DOUBLE_BORDER_BOTTOM_RIGHT)
    } else if h == 0 {
        Some(if borders && v_line { DOUBLE_BORDER_JOIN_UP } else { DOUBLE_BORDER_HOR_LINE })
    } else if h == height - 1 {
        Some(if borders && v_line { DOUBLE_BORDER_JOIN_DOWN } else { DOUBLE_BORDER_HOR_LINE })
    } else if w == 0 {
        Some(if borders && h_line { DOUBLE_BORDER_JOIN_LEFT } else { DOUBLE_BORDER_VERT_LINE })
    } else if w == width - 1 {
        Some(if borders && h_line { DOUBLE_BORDER_JOIN_RIGHT } else { DOUBLE_BORDER_VERT_LINE })
    } else if borders && h_line && v_line {
        Some(SINGLE_BORDER_CROSS)
    } else if borders && h_line {
        Some(SINGLE_BORDER_HOR_LINE)
    } else if borders && v_line {
        Some(SINGLE_BORDER_VERT_LINE)
    } else {
        None
    }
}

/// A cell's top left corner on screen is inside the board, with room for
/// the whole cell before the outer border.
proof fn lemma_origin_fits(idx: int, c: int, rows: int, cw: int, ch: int, borders: bool)
    requires
        0 <= idx < rows * c,
        c > 0,
        cw >= 0,
        ch >= 0,
    ensures
        0 <= idx % c < c,
        0 <= idx / c < rows,
        (idx % c) * stride(cw as nat, borders) + cw <= span(c as nat, cw as nat, borders) - 2,
        (idx / c) * stride(ch as nat, borders) + ch <= span(rows as nat, ch as nat, borders) - 2,
{
    lemma_fundamental_div_mod(idx, c);
    lemma_mod_pos_bound(idx, c);
    let q = idx / c;
    let r = idx % c;
    let b: int = if borders { 1 } else { 0 };
    assert(0 <= q < rows) by (nonlinear_arith)
        requires
            idx == c * q + r,
            0 <= r < c,
            0 <= idx < rows * c,
            c > 0,
    ;
    assert(r * (cw + b) + cw <= c * cw + b * (c - 1)) by (nonlinear_arith)
        requires
            0 <= r <= c - 1,
            0 <= b <= 1,
            cw >= 0,
    ;
    assert(q * (ch + b) + ch <= rows * ch + b * (rows - 1)) by (nonlinear_arith)
        requires
            0 <= q <= rows - 1,
            0 <= b <= 1,
            ch >= 0,
    ;
    assert(c * cw >= 0) by (nonlinear_arith)
        requires
            c > 0,
            cw >= 0,
    ;
    assert(rows * ch >= 0) by (nonlinear_arith)
        requires
            rows > 0,
            ch >= 0,
    ;
}

/// Marker that centers a dialog line.
pub open spec fn center_mark() -> Seq<char> {
    seq!['|', '^', '|']
}

/// Marker that aligns a dialog line to the right.
pub open spec fn right_mark() -> Seq<char> {
    seq!['|', '>', '|']
}

/// `line` starts with `mark`.
pub open spec fn has_mark(line: Seq<char>, mark: Seq<char>) -> bool {
    line.len() >= mark.len() && line.subrange(0, mark.len() as int) == mark
}

/// A dialog line fitted into `n` columns, aligned as its leading marker
/// says (the marker itself is not shown).
pub open spec fn dialog_line(line: Seq<char>, n: nat) -> Seq<char> {
    if has_mark(line, center_mark()) {
        fit(line.subrange(3, line.len() as int), n, Align::Center)
    } else if has_mark(line, right_mark()) {
        fit(line.subrange(3, line.len() as int), n, Align::Right)
    } else {
        fit(line, n, Align::Left)
    }
}

/// The largest number of grapheme clusters in a line.
pub open spec fn max_clusters(lines: Seq<Seq<char>>) -> nat
    decreases lines.len(),
{
    if lines.len() == 0 {
        0
    } else {
        let m = max_clusters(lines.drop_last());
        let c = clusters_of(lines.last()).len();
        if c > m {
            c
        } else {
            m
        }
    }
}

/// The smaller of two numbers.
pub open spec fn min(a: nat, b: nat) -> nat {
    if a < b {
        a
    } else {
        b
    }
}

/// Top of a dialog box `dw` wide at (`x`, `y`): the border row and the empty
/// row below it, then the move to the first text row.
pub open spec fn dialog_top(x: u16, y: nat, dw: nat) -> Seq<char> {
    goto_text(x, y as u16) + seq![DOUBLE_BORDER_TOP_LEFT] + repeat(DOUBLE_BORDER_HOR_LINE, (dw - 2) as nat)
        + seq![DOUBLE_BORDER_TOP_RIGHT] + goto_text(x, (y + 1) as u16) + seq![DOUBLE_BORDER_VERT_LINE]
        + repeat(' ', (dw - 2) as nat) + seq![DOUBLE_BORDER_VERT_LINE] + goto_text(x, (y + 2) as u16)
}

/// Bottom of a dialog box `dw`×`dh` at (`x`, `y`): the empty row above the
/// border and the border row.
pub open spec fn dialog_bottom(x: u16, y: nat, dw: nat, dh: nat) -> Seq<char> {
    seq![DOUBLE_BORDER_VERT_LINE] + repeat(' ', (dw - 2) as nat) + seq![DOUBLE_BORDER_VERT_LINE]
        + goto_text(x, (y + dh - 1) as u16) + seq![DOUBLE_BORDER_BOTTOM_LEFT] + repeat(
        DOUBLE_BORDER_HOR_LINE,
        (dw - 2) as nat,
    ) + seq![DOUBLE_BORDER_BOTTOM_RIGHT]
}

/// Draws the top of a dialog box.
fn push_dialog_top(res: &mut String, x: u16, y: usize, dw: usize)
    requires
        y + 2 <= u16::MAX,
        dw >= 2,
    ensures
        final(res)@ == old(res)@ + dialog_top(x, y as nat, dw as nat),
{
    let g0 = goto(x, y as u16);
    res.append(g0.as_str());
    push_char(res, DOUBLE_BORDER_TOP_LEFT);
    push_repeat(res, DOUBLE_BORDER_HOR_LINE, dw - 2);
    push_char(res, DOUBLE_BORDER_TOP_RIGHT);
    let g1 = goto(x, (y + 1) as u16);
    res.append(g1.as_str());
    push_char(res, DOUBLE_BORDER_VERT_LINE);
    push_repeat(res, ' ', dw - 2);
    push_char(res, DOUBLE_BORDER_VERT_LINE);
    let g2 = goto(x, (y + 2) as u16);
    res.append(g2.as_str());
    assert(final(res)@ =~= old(res)@ + dialog_top(x, y as nat, dw as nat));
}

/// Draws the bottom of a dialog box.
fn push_dialog_bottom(res: &mut String, x: u16, y: usize, dw: usize, dh: usize)
    requires
        y + dh <= u16::MAX + 1,
        dw >= 2,
        dh >= 1,
    ensures
        final(res)@ == old(res)@ + dialog_bottom(x, y as nat, dw as nat, dh as nat),
{
    push_char(res, DOUBLE_BORDER_VERT_LINE);
    push_repeat(res, ' ', dw - 2);
    push_char(res, DOUBLE_BORDER_VERT_LINE);
    let g = goto(x, (y + dh - 1) as u16);
    res.append(g.as_str());
    push_char(res, DOUBLE_BORDER_BOTTOM_LEFT);
    push_repeat(res, DOUBLE_BORDER_HOR_LINE, dw - 2);
    push_char(res, DOUBLE_BORDER_BOTTOM_RIGHT);
    assert(final(res)@ =~= old(res)@ + dialog_bottom(x, y as nat, dw as nat, dh as nat));
}

/// Which repaint a query makes, in order of precedence.
pub enum Repaint {
    /// The dialog is shown: only the dialog is drawn.
    Dialog,
    /// Borders and every cell are drawn.
    Full,
    /// The cells that changed are drawn.
    Sparse,
    /// Nothing to draw.
    Clean,
}

/// Board: a grid of cells with borders, an optional cursor and a modal
/// message dialog.
pub struct Board {
    /// Top left corner on screen (1-based).
    position: Position,
    /// Total width in characters, borders included.
    width: usize,
    /// Total height in characters, borders included.
    height: usize,
    rows: usize,
    columns: usize,
    cell_width: usize,
    cell_height: usize,
    cell_borders: bool,
    grid: CellGrid,
    resources: Option<ResourceTable>,
    cursor: Option<Cursor>,
    message_lines: Option<Vec<String>>,
    /// Borders and every cell must be redrawn (after the dialog was closed).
    update_all: bool,
}

impl Board {
    pub closed spec fn spec_position(&self) -> Position {
        self.position
    }

    pub closed spec fn spec_width(&self) -> nat {
        self.width as nat
    }

    pub closed spec fn spec_height(&self) -> nat {
        self.height as nat
    }

    pub closed spec fn spec_rows(&self) -> nat {
        self.rows as nat
    }

    pub closed spec fn spec_columns(&self) -> nat {
        self.columns as nat
    }

    pub closed spec fn spec_cell_width(&self) -> nat {
        self.cell_width as nat
    }

    pub closed spec fn spec_cell_height(&self) -> nat {
        self.cell_height as nat
    }

    pub closed spec fn spec_cell_borders(&self) -> bool {
        self.cell_borders
    }

    pub closed spec fn spec_grid(&self) -> CellGrid {
        self.grid
    }

    pub closed spec fn spec_resources(&self) -> Option<Map<u16, Seq<char>>> {
        table_view(self.resources)
    }

    pub closed spec fn spec_cursor(&self) -> Option<Cursor> {
        self.cursor
    }

    /// The lines of the open dialog, if one is shown.
    pub closed spec fn spec_message(&self) -> Option<Seq<Seq<char>>> {
        match self.message_lines {
            Some(v) => Some(v@.map_values(|s: String| s@)),
            None => None,
        }
    }

    /// Borders and every cell are to be redrawn.
    pub closed spec fn spec_update_all(&self) -> bool {
        self.update_all
    }

    /// The cells as the user wrote them, without the cursor's highlight.
    pub open spec fn content(&self) -> Seq<CellView> {
        match self.spec_cursor() {
            Some(c) => c.plain(&self.spec_grid()),
            None => self.spec_grid().spec_cells(),
        }
    }

    /// Screen coordinates of the top left corner of cell `idx`.
    pub open spec fn origin(&self, idx: int) -> (u16, u16) {
        (
            (self.spec_position().0 + 1 + (idx % self.spec_columns() as int) * stride(
                self.spec_cell_width(),
                self.spec_cell_borders(),
            )) as u16,
            (self.spec_position().1 + 1 + (idx / self.spec_columns() as int) * stride(
                self.spec_cell_height(),
                self.spec_cell_borders(),
            )) as u16,
        )
    }

    /// The board's consistency: geometry, grid shape, drawable cells and
    /// the cursor's highlight.
    pub open spec fn wf(&self) -> bool {
        let g = self.spec_grid();
        &&& g.wf()
        &&& g.spec_rows() == self.spec_rows()
        &&& g.spec_columns() == self.spec_columns()
        &&& g.spec_cell_width() == self.spec_cell_width()
        &&& g.spec_cell_height() == self.spec_cell_height()
        &&& self.spec_rows() > 0
        &&& self.spec_columns() > 0
        &&& self.spec_width() == span(self.spec_columns(), self.spec_cell_width(), self.spec_cell_borders())
        &&& self.spec_height() == span(self.spec_rows(), self.spec_cell_height(), self.spec_cell_borders())
        &&& fits_screen(
            self.spec_position().0 as nat,
            self.spec_position().1 as nat,
            self.spec_width(),
            self.spec_height(),
        )
        &&& self.spec_cell_width() < self.spec_width()
        &&& self.spec_cell_height() < self.spec_height()
        &&& self.spec_cell_width() * self.spec_cell_height() <= usize::MAX
        &&& all_renderable(g.spec_cells(), self.spec_resources())
        &&& match self.spec_cursor() {
            Some(c) => c.on_grid(&g, self.spec_resources()),
            None => true,
        }
        &&& match self.spec_message() {
            Some(lines) => lines.len() > 0 && self.spec_width() >= 8 && self.spec_height() >= 8,
            None => true,
        }
    }

    /// Creates a board of `width` columns and `height` rows of cells, each
    /// `cell_width`×`cell_height` characters, with lines between cells if
    /// `cell_borders`, and an optional resource table.
    pub fn new(
        width: usize,
        height: usize,
        cell_width: usize,
        cell_height: usize,
        cell_borders: bool,
        resources: Option<ResourceTable>,
    ) -> (r: Self)
        requires
            width > 0,
            height > 0,
            width * height <= usize::MAX,
            fits_screen(
                1,
                1,
                span(width as nat, cell_width as nat, cell_borders),
                span(height as nat, cell_height as nat, cell_borders),
            ),
        ensures
            r.wf(),
            r.spec_position() == Position(1, 1),
            r.spec_columns() == width,
            r.spec_rows() == height,
            r.spec_cell_width() == cell_width,
            r.spec_cell_height() == cell_height,
            r.spec_cell_borders() == cell_borders,
            r.spec_resources() == table_view(resources),
            r.spec_cursor() is None,
            r.spec_message() is None,
            !r.spec_update_all(),
            r.spec_grid().spec_update_all(),
            r.spec_grid().dirty() == Set::<int>::empty(),
            r.content() == Seq::new(width as nat * height as nat, |_i: int| CellView::Empty),
    {
        assert(width * cell_width <= u16::MAX && height * cell_height <= u16::MAX);
        assert(cell_width <= width * cell_width && cell_height <= height * cell_height) by (nonlinear_arith)
            requires
                width > 0,
                height > 0,
        ;
        assert(cell_width * cell_height <= usize::MAX) by (nonlinear_arith)
            requires
                cell_width <= u16::MAX,
                cell_height <= u16::MAX,
        ;
        let mut w_borders: usize = 2;
        let mut h_borders: usize = 2;
        if cell_borders {
            w_borders = w_borders + (width - 1);
            h_borders = h_borders + (height - 1);
        }
        let w = width * cell_width + w_borders;
        let h = height * cell_height + h_borders;
        let grid = CellGrid::new(width, height, cell_width, cell_height);
        let r = Board {
            position: Position(1, 1),
            width: w,
            height: h,
            rows: height,
            columns: width,
            cell_width,
            cell_height,
            cell_borders,
            grid,
            resources,
            cursor: None,
            message_lines: None,
            update_all: false,
        };
        r
    }

    /// Whether `new` accepts these dimensions: at least one cell each way,
    /// a cell count that fits in memory, and a board that fits on a screen.
    pub fn accepts_size(
        width: usize,
        height: usize,
        cell_width: usize,
        cell_height: usize,
        cell_borders: bool,
    ) -> (r: bool)
        ensures
            r == size_ok(width as nat, height as nat, cell_width as nat, cell_height as nat, cell_borders),
    {
        if width == 0 || height == 0 || width.checked_mul(height).is_none() {
            return false;
        }
        Board::side_fits(width, cell_width, cell_borders) && Board::side_fits(height, cell_height, cell_borders)
    }

    /// Whether `n` cells of `size` characters, with borders, fit in a
    /// screen coordinate from column or row 1.
    fn side_fits(n: usize, size: usize, borders: bool) -> (r: bool)
        requires
            n > 0,
        ensures
            r == side_ok(n as nat, size as nat, borders),
    {
        match n.checked_mul(size) {
            None => {
                assert(n * size >= 0) by (nonlinear_arith)
                    requires
                        n > 0,
                ;
                false
            },
            Some(cells) => {
                if cells > 65533 {
                    false
                } else if borders {
                    n <= 65534 && cells + (n - 1) <= 65533
                } else {
                    true
                }
            },
        }
    }

    /// Total width in characters, borders included.
    pub fn get_width(&self) -> (r: usize)
        ensures
            r == self.spec_width(),
    {
        self.width
    }

    /// Total height in characters, borders included.
    pub fn get_height(&self) -> (r: usize)
        ensures
            r == self.spec_height(),
    {
        self.height
    }

    /// Moves the board's top left corner on screen.
    pub fn set_position(&mut self, pos: Position)
        requires
            old(self).wf(),
            fits_screen(pos.0 as nat, pos.1 as nat, old(self).spec_width(), old(self).spec_height()),
        ensures
            final(self).wf(),
            final(self).spec_position() == pos,
            final(self).spec_width() == old(self).spec_width(),
            final(self).spec_height() == old(self).spec_height(),
            final(self).spec_rows() == old(self).spec_rows(),
            final(self).spec_columns() == old(self).spec_columns(),
            final(self).spec_cell_width() == old(self).spec_cell_width(),
            final(self).spec_cell_height() == old(self).spec_cell_height(),
            final(self).spec_cell_borders() == old(self).spec_cell_borders(),
            final(self).spec_grid() == old(self).spec_grid(),
            final(self).spec_resources() == old(self).spec_resources(),
            final(self).spec_cursor() == old(self).spec_cursor(),
            final(self).spec_message() == old(self).spec_message(),
            final(self).spec_update_all() == old(self).spec_update_all(),
    {
        self.position = pos;
    }

    /// The border glyph at column `w`, row `h` of the board.
    fn get_border_char(&self, w: usize, h: usize) -> (r: Option<char>)
        requires
            self.wf(),
        ensures
            r == border_glyph(
                self.spec_width(),
                self.spec_height(),
                self.spec_cell_width(),
                self.spec_cell_height(),
                self.spec_cell_borders(),
                w as nat,
                h as nat,
            ),
    {
        let h_cell_border = h % (self.cell_height + 1) == 0;
        let v_cell_border = w % (self.cell_width + 1) == 0;
        if w == 0 && h == 0 {
            Some(DOUBLE_BORDER_TOP_LEFT)
        } else if w == self.width - 1 && h == 0 {
            Some(DOUBLE_BORDER_TOP_RIGHT)
        } else if w == 0 && h == self.height - 1 {
            Some(DOUBLE_BORDER_BOTTOM_LEFT)
        } else if w == self.width - 1 && h == self.height - 1 {
            Some(DOUBLE_BORDER_BOTTOM_RIGHT)
        } else if h == 0 {
            if self.cell_borders && v_cell_border {
                Some(DOUBLE_BORDER_JOIN_UP)
            } else {
                Some(DOUBLE_BORDER_HOR_LINE)
            }
        } else if h == self.height - 1 {
            if self.cell_borders && v_cell_border {
                Some(DOUBLE_BORDER_JOIN_DOWN)
            } else {
                Some(DOUBLE_BORDER_HOR_LINE)
            }
        } else if w == 0 {
            if self.cell_borders && h_cell_border {
                Some(DOUBLE_BORDER_JOIN_LEFT)
            } else {
                Some(DOUBLE_BORDER_VERT_LINE)
            }
        } else if w == self.width - 1 {
            if self.cell_borders && h_cell_border {
                Some(DOUBLE_BORDER_JOIN_RIGHT)
            } else {
                Some(DOUBLE_BORDER_VERT_LINE)
            }
        } else if self.cell_borders {
            if h_cell_border && v_cell_border {
                Some(SINGLE_BORDER_CROSS)
            } else if h_cell_border {
                Some(SINGLE_BORDER_HOR_LINE)
            } else if v_cell_border {
                Some(SINGLE_BORDER_VERT_LINE)
            } else {
                None
            }
        } else {
            None
        }
    }

    /// Row `h` of the border, spaces inside cells.
    pub open spec fn border_row(&self, h: nat) -> Seq<char> {
        Seq::new(
            self.spec_width(),
            |w: int|
                match border_glyph(
                    self.spec_width(),
                    self.spec_height(),
                    self.spec_cell_width(),
                    self.spec_cell_height(),
                    self.spec_cell_borders(),
                    w as nat,
                    h,
                ) {
                    Some(g) => g,
                    None => ' ',
                },
        )
    }

    /// The first `n` rows of the border, each positioned at the board's left
    /// edge.
    pub open spec fn border_rows(&self, n: nat) -> Seq<char>
        decreases n,
    {
        if n == 0 {
            Seq::empty()
        } else {
            self.border_rows((n - 1) as nat) + goto_text(
                self.spec_position().0 as u16,
                (self.spec_position().1 + n - 1) as u16,
            ) + self.border_row((n - 1) as nat)
        }
    }

    /// The board's whole border.
    pub open spec fn border_text(&self) -> Seq<char> {
        self.border_rows(self.spec_height())
    }

    /// Draws the border of the board, spaces inside cells.
    pub fn get_border(&self) -> (r: String)
        requires
            self.wf(),
        ensures
            r@ == self.border_text(),
    {
        let mut res = String::new();
        let mut h: usize = 0;
        while h < self.height
            invariant
                self.wf(),
                h <= self.height,
                res@ == self.border_rows(h as nat),
            decreases self.height - h,
        {
            let row = goto(self.position.0 as u16, (self.position.1 + h) as u16);
            res.append(row.as_str());
            let ghost before = res@;
            let mut w: usize = 0;
            while w < self.width
                invariant
                    self.wf(),
                    w <= self.width,
                    h < self.height,
                    res@ == before + self.border_row(h as nat).subrange(0, w as int),
                decreases self.width - w,
            {
                match self.get_border_char(w, h) {
                    Some(g) => push_char(&mut res, g),
                    None => push_char(&mut res, ' '),
                }
                w = w + 1;
                assert(res@ =~= before + self.border_row(h as nat).subrange(0, w as int));
            }
            h = h + 1;
            assert(self.border_row((h - 1) as nat).subrange(0, self.width as int) =~= self.border_row(
                (h - 1) as nat,
            ));
        }
        res
    }

    /// Screen coordinates of the top left corner of cell `idx`.
    fn get_cell_top_left(&self, idx: usize) -> (r: (u16, u16))
        requires
            self.wf(),
            idx < self.spec_rows() * self.spec_columns(),
        ensures
            r == self.origin(idx as int),
            r.0 as nat == self.origin(idx as int).0,
            r.1 as nat + self.spec_cell_height() < u16::MAX + 1,
    {
        proof {
            lemma_origin_fits(
                idx as int,
                self.columns as int,
                self.rows as int,
                self.cell_width as int,
                self.cell_height as int,
                self.cell_borders,
            );
        }
        let step_x = if self.cell_borders {
            self.cell_width + 1
        } else {
            self.cell_width
        };
        let step_y = if self.cell_borders {
            self.cell_height + 1
        } else {
            self.cell_height
        };
        let x = self.position.0 + 1 + (idx % self.columns) * step_x;
        let y = self.position.1 + 1 + (idx / self.columns) * step_y;
        (x as u16, y as u16)
    }

    /// Which repaint the next query makes.
    pub open spec fn repaint(&self) -> Repaint {
        if self.spec_message() is Some {
            Repaint::Dialog
        } else if self.spec_update_all() || self.spec_grid().spec_update_all() {
            Repaint::Full
        } else if self.spec_grid().dirty() != Set::<int>::empty() {
            Repaint::Sparse
        } else {
            Repaint::Clean
        }
    }

    /// What drawing cell `idx` emits.
    pub open spec fn cell_text_at(&self, idx: int) -> Seq<char> {
        cell_text(
            self.spec_grid().spec_cells()[idx],
            self.spec_resources(),
            self.spec_cell_width(),
            self.spec_cell_height(),
            self.origin(idx).0,
            self.origin(idx).1,
        )
    }

    /// Cells `0..n`, each drawn at its place.
    pub open spec fn cells_text(&self, n: nat) -> Seq<char>
        decreases n,
    {
        if n == 0 {
            Seq::empty()
        } else {
            self.cells_text((n - 1) as nat) + self.cell_text_at(n - 1)
        }
    }

    /// The cells listed in `order`, each drawn at its place.
    pub open spec fn listed_text(&self, order: Seq<usize>) -> Seq<char>
        decreases order.len(),
    {
        if order.len() == 0 {
            Seq::empty()
        } else {
            self.listed_text(order.drop_last()) + self.cell_text_at(order.last() as int)
        }
    }

    /// Width of the dialog box, borders included.
    pub open spec fn dialog_width(&self) -> nat {
        min(max_clusters(self.spec_message()->0), (self.spec_width() - 8) as nat) + 4
    }

    /// Height of the dialog box, borders included.
    pub open spec fn dialog_height(&self) -> nat {
        min(self.spec_message()->0.len(), (self.spec_height() - 8) as nat) + 4
    }

    /// Screen column of the dialog's left edge (centered on the board).
    pub open spec fn dialog_x(&self) -> nat {
        (self.spec_position().0 + (self.spec_width() - self.dialog_width()) / 2) as nat
    }

    /// Screen row of the dialog's top edge (centered on the board).
    pub open spec fn dialog_y(&self) -> nat {
        (self.spec_position().1 + (self.spec_height() - self.dialog_height()) / 2) as nat
    }

    /// The first `n` text rows of the dialog, each followed by the move to
    /// the next row.
    pub open spec fn dialog_rows(&self, n: nat) -> Seq<char>
        decreases n,
    {
        if n == 0 {
            Seq::empty()
        } else {
            self.dialog_rows((n - 1) as nat) + seq![DOUBLE_BORDER_VERT_LINE, ' '] + dialog_line(
                self.spec_message()->0[n - 1],
                (self.dialog_width() - 4) as nat,
            ) + seq![' ', DOUBLE_BORDER_VERT_LINE] + goto_text(
                self.dialog_x() as u16,
                (self.dialog_y() + n + 2) as u16,
            )
        }
    }

    /// The dialog box: a double border, an empty row above and below the
    /// text, and the first lines that fit.
    pub open spec fn dialog_text(&self) -> Seq<char> {
        dialog_top(self.dialog_x() as u16, self.dialog_y(), self.dialog_width()) + self.dialog_rows(
            (self.dialog_height() - 4) as nat,
        ) + dialog_bottom(
            self.dialog_x() as u16,
            self.dialog_y(),
            self.dialog_width(),
            self.dialog_height(),
        )
    }

    /// What a repaint query returns.
    pub open spec fn repaint_text(&self) -> Option<Seq<char>> {
        match self.repaint() {
            Repaint::Dialog => Some(self.dialog_text()),
            Repaint::Clean => None,
            Repaint::Full => Some(
                (if self.spec_update_all() {
                    self.border_text()
                } else {
                    Seq::empty()
                }) + self.cells_text(self.spec_rows() * self.spec_columns()),
            ),
            Repaint::Sparse => Some(self.listed_text(self.spec_grid().dirty_order())),
        }
    }

    /// Everything but the grid's dirty tracking and the full-repaint flag
    /// is the same.
    pub open spec fn same_but_flags(&self, o: &Board) -> bool {
        &&& self.spec_position() == o.spec_position()
        &&& self.spec_width() == o.spec_width()
        &&& self.spec_height() == o.spec_height()
        &&& self.spec_rows() == o.spec_rows()
        &&& self.spec_columns() == o.spec_columns()
        &&& self.spec_cell_width() == o.spec_cell_width()
        &&& self.spec_cell_height() == o.spec_cell_height()
        &&& self.spec_cell_borders() == o.spec_cell_borders()
        &&& self.spec_resources() == o.spec_resources()
        &&& self.spec_cursor() == o.spec_cursor()
        &&& self.spec_message() == o.spec_message()
        &&& self.spec_grid().spec_cells() == o.spec_grid().spec_cells()
    }

    /// Fits a dialog line into `n` columns, aligned as its marker says.
    fn align_dialog_line(line: &str, n: usize) -> (r: String)
        ensures
            r@ == dialog_line(line@, n as nat),
    {
        let len = line.unicode_len();
        if len >= 3 && line.get_char(0) == '|' && line.get_char(2) == '|' && (line.get_char(1) == '^'
            || line.get_char(1) == '>') {
            let centered = line.get_char(1) == '^';
            proof {
                if centered {
                    assert(line@.subrange(0, 3) =~= center_mark());
                } else {
                    assert(line@.subrange(0, 3) =~= right_mark());
                    assert(!has_mark(line@, center_mark())) by {
                        assert(line@.subrange(0, 3)[1] != center_mark()[1]);
                    }
                }
            }
            let rest = line.substring_char(3, len);
            fit_line(rest, n, if centered { Align::Center } else { Align::Right })
        } else {
            proof {
                if len >= 3 {
                    assert(line@.subrange(0, 3)[0] == line@[0]);
                    assert(line@.subrange(0, 3)[1] == line@[1]);
                    assert(line@.subrange(0, 3)[2] == line@[2]);
                    assert(center_mark()[1] == '^' && right_mark()[1] == '>');
                }
            }
            fit_line(line, n, Align::Left)
        }
    }

    /// Size of the dialog box for the given lines.
    fn dialog_size(&self, lines: &Vec<String>) -> (r: (usize, usize))
        requires
            self.wf(),
            self.spec_message() == Some(lines@.map_values(|s: String| s@)),
        ensures
            r.0 == self.dialog_width(),
            r.1 == self.dialog_height(),
    {
        let ghost msg = lines@.map_values(|s: String| s@);
        let mut line_max_len: usize = 0;
        let mut i: usize = 0;
        while i < lines.len()
            invariant
                i <= lines@.len(),
                msg == lines@.map_values(|s: String| s@),
                line_max_len == max_clusters(msg.subrange(0, i as int)),
            decreases lines@.len() - i,
        {
            let c = cluster_count(lines[i].as_str());
            proof {
                let sub = msg.subrange(0, i as int + 1);
                assert(sub.drop_last() =~= msg.subrange(0, i as int));
                assert(sub.last() == lines@[i as int]@);
            }
            if c > line_max_len {
                line_max_len = c;
            }
            i = i + 1;
        }
        assert(msg.subrange(0, lines@.len() as int) =~= msg);
        let room_w = self.width - 8;
        let room_h = self.height - 8;
        let dlg_w = (if line_max_len < room_w { line_max_len } else { room_w }) + 4;
        let dlg_h = (if lines.len() < room_h { lines.len() } else { room_h }) + 4;
        (dlg_w, dlg_h)
    }

    /// Draws the dialog box with the given lines.
    fn get_message_dialog(&self, lines: &Vec<String>) -> (r: String)
        requires
            self.wf(),
            self.spec_message() == Some(lines@.map_values(|s: String| s@)),
        ensures
            r@ == self.dialog_text(),
    {
        let ghost msg = lines@.map_values(|s: String| s@);
        let (dlg_w, dlg_h) = self.dialog_size(lines);
        let x = (self.position.0 + (self.width - dlg_w) / 2) as u16;
        let y = self.position.1 + (self.height - dlg_h) / 2;
        let mut res = String::new();
        push_dialog_top(&mut res, x, y, dlg_w);
        let ghost head = res@;
        assert(head =~= dialog_top(x, y as nat, dlg_w as nat));
        let mut k: usize = 0;
        while k < dlg_h - 4
            invariant
                self.wf(),
                self.spec_message() == Some(msg),
                msg == lines@.map_values(|s: String| s@),
                dlg_w == self.dialog_width(),
                dlg_h == self.dialog_height(),
                x == self.dialog_x() as u16,
                y == self.dialog_y(),
                y + dlg_h <= u16::MAX + 1,
                dlg_h - 4 <= lines@.len(),
                k <= dlg_h - 4,
                res@ == head + self.dialog_rows(k as nat),
            decreases dlg_h - 4 - k,
        {
            let text = Board::align_dialog_line(lines[k].as_str(), dlg_w - 4);
            let ghost before = res@;
            push_char(&mut res, DOUBLE_BORDER_VERT_LINE);
            push_char(&mut res, ' ');
            res.append(text.as_str());
            push_char(&mut res, ' ');
            push_char(&mut res, DOUBLE_BORDER_VERT_LINE);
            let next = goto(x, (y + k + 3) as u16);
            res.append(next.as_str());
            proof {
                assert(msg[k as int] == lines@[k as int]@);
            }
            k = k + 1;
            assert(res@ =~= head + self.dialog_rows(k as nat));
        }
        push_dialog_bottom(&mut res, x, y, dlg_w, dlg_h);
        assert(res@ =~= self.dialog_text());
        res
    }

    /// `self` is the board after a repaint query on `o`: a dialog or a clean
    /// board is left as it was; otherwise the cells stay and nothing is
    /// dirty any more.
    pub open spec fn after_repaint(&self, o: &Board) -> bool {
        match o.repaint() {
            Repaint::Dialog | Repaint::Clean => *self == *o,
            _ => {
                &&& self.same_but_flags(o)
                &&& !self.spec_update_all()
                &&& !self.spec_grid().spec_update_all()
                &&& self.spec_grid().dirty() == Set::<int>::empty()
            },
        }
    }

    /// Draws every cell at its place.
    fn full_cells(&self) -> (r: String)
        requires
            self.wf(),
        ensures
            r@ == self.cells_text(self.spec_rows() * self.spec_columns()),
    {
        let n = self.rows * self.columns;
        let cells = self.grid.iter();
        let mut res = String::new();
        let mut i: usize = 0;
        while i < n
            invariant
                self.wf(),
                n == self.spec_rows() * self.spec_columns(),
                cells_view(cells@) == self.spec_grid().spec_cells(),
                i <= n,
                res@ == self.cells_text(i as nat),
            decreases n - i,
        {
            let (x, y) = self.get_cell_top_left(i);
            proof {
                assert(cells_view(cells@)[i as int] == cells@[i as int]@);
            }
            let t = cells[i].get_content(self.cell_width, self.cell_height, x, y, &self.resources);
            res.append(t.as_str());
            i = i + 1;
        }
        res
    }

    /// On a board of 1×1 cells without inner borders, cell `i` in column
    /// `col` and row `row` starts right after the outer border.
    proof fn lemma_unit_origin(&self, i: int, col: int, row: int)
        requires
            self.spec_cell_width() == 1,
            self.spec_cell_height() == 1,
            !self.spec_cell_borders(),
            self.spec_columns() > 0,
            0 <= col < self.spec_columns(),
            0 <= row,
            i == row * self.spec_columns() + col,
        ensures
            self.origin(i) == (
                (self.spec_position().0 + 1 + col) as u16,
                (self.spec_position().1 + 1 + row) as u16,
            ),
    {
        let c = self.spec_columns() as int;
        lemma_fundamental_div_mod_converse(i, c, row, col);
        assert(stride(self.spec_cell_width(), self.spec_cell_borders()) == 1);
        assert(stride(self.spec_cell_height(), self.spec_cell_borders()) == 1);
        assert((i % c) * 1 == col);
        assert((i / c) * 1 == row);
    }

    /// Draws every cell of a board of 1×1 cells without inner borders,
    /// walking the screen position along instead of computing it per cell.
    fn full_cells_unit(&self) -> (r: String)
        requires
            self.wf(),
            self.spec_cell_width() == 1,
            self.spec_cell_height() == 1,
            !self.spec_cell_borders(),
        ensures
            r@ == self.cells_text(self.spec_rows() * self.spec_columns()),
    {
        let n = self.rows * self.columns;
        let cells = self.grid.iter();
        let mut res = String::new();
        let mut i: usize = 0;
        let mut col: usize = 0;
        let mut row: usize = 0;
        while i < n
            invariant
                self.wf(),
                self.spec_cell_width() == 1,
                self.spec_cell_height() == 1,
                !self.spec_cell_borders(),
                n == self.spec_rows() * self.spec_columns(),
                cells_view(cells@) == self.spec_grid().spec_cells(),
                i <= n,
                col < self.columns,
                i == row * self.columns + col,
                res@ == self.cells_text(i as nat),
            decreases n - i,
        {
            proof {
                lemma_fundamental_div_mod_converse(i as int, self.columns as int, row as int, col as int);
                lemma_origin_fits(
                    i as int,
                    self.columns as int,
                    self.rows as int,
                    1,
                    1,
                    false,
                );
                assert(cells_view(cells@)[i as int] == cells@[i as int]@);
            }
            let x = (self.position.0 + 1 + col) as u16;
            let y = (self.position.1 + 1 + row) as u16;
            proof {
                self.lemma_unit_origin(i as int, col as int, row as int);
            }
            let ghost before = res@;
            match &cells[i] {
                Cell::Empty => {
                    let g = goto(x, y);
                    res.append(g.as_str());
                    push_char(&mut res, ' ');
                    let tail = reset();
                    res.append(tail.as_str());
                    proof {
                        reveal_with_fuel(fill_rows, 2);
                        assert(repeat(' ', 1) =~= seq![' ']);
                        assert(res@ =~= before + (fill_rows(' ', 1, 1, x, y) + reset_text()));
                    }
                },
                Cell::Char(c) => {
                    let g = goto(x, y);
                    res.append(g.as_str());
                    push_char(&mut res, *c);
                    let tail = reset();
                    res.append(tail.as_str());
                    proof {
                        reveal_with_fuel(fill_rows, 2);
                        assert(repeat(*c, 1) =~= seq![*c]);
                        assert(res@ =~= before + (fill_rows(*c, 1, 1, x, y) + reset_text()));
                    }
                },
                cell => {
                    let t = cell.get_content(1, 1, x, y, &self.resources);
                    res.append(t.as_str());
                },
            }
            i = i + 1;
            if col + 1 == self.columns {
                assert((row + 1) * self.columns == row * self.columns + self.columns) by (nonlinear_arith);
                col = 0;
                row = row + 1;
            } else {
                col = col + 1;
            }
        }
        res
    }

    /// Draws the listed cells at their places.
    fn listed_cells(&self, order: &Vec<usize>) -> (r: String)
        requires
            self.wf(),
            forall|j: int| 0 <= j < order@.len() ==> #[trigger] order@[j] < self.spec_rows() * self.spec_columns(),
        ensures
            r@ == self.listed_text(order@),
    {
        let cells = self.grid.iter();
        let mut res = String::new();
        let mut i: usize = 0;
        assert(order@.subrange(0, 0) =~= Seq::<usize>::empty());
        while i < order.len()
            invariant
                self.wf(),
                forall|j: int| 0 <= j < order@.len() ==> #[trigger] order@[j] < self.spec_rows() * self.spec_columns(),
                cells_view(cells@) == self.spec_grid().spec_cells(),
                i <= order@.len(),
                res@ == self.listed_text(order@.subrange(0, i as int)),
            decreases order@.len() - i,
        {
            let idx = order[i];
            let (x, y) = self.get_cell_top_left(idx);
            proof {
                assert(cells_view(cells@)[idx as int] == cells@[idx as int]@);
                let sub = order@.subrange(0, i as int + 1);
                assert(sub.drop_last() =~= order@.subrange(0, i as int));
                assert(sub.last() == idx);
            }
            let t = cells[idx].get_content(self.cell_width, self.cell_height, x, y, &self.resources);
            res.append(t.as_str());
            i = i + 1;
        }
        assert(order@.subrange(0, order@.len() as int) =~= order@);
        res
    }

    /// Whether the next repaint draws the border itself.
    pub open spec fn repaints_border(&self) -> bool {
        self.spec_message() is None && self.spec_update_all()
    }

    /// The border, unless the next repaint draws it.
    pub open spec fn extra_border(&self) -> Seq<char> {
        if self.repaints_border() {
            Seq::empty()
        } else {
            self.border_text()
        }
    }

    /// Whether the next repaint draws the border itself.
    pub fn redraws_border(&self) -> (r: bool)
        ensures
            r == self.repaints_border(),
    {
        self.message_lines.is_none() && self.update_all
    }

    /// Whether a cursor may be attached: its position is on the board.
    fn accepts_cursor(&self, cursor: &Option<Cursor>) -> (r: bool)
        ensures
            r == match *cursor {
                Some(c) => in_grid(c.spec_position(), self.spec_columns(), self.spec_rows()),
                None => true,
            },
    {
        match cursor {
            Some(c) => {
                let p = c.get_position();
                p.0 < self.columns && p.1 < self.rows
            },
            None => true,
        }
    }

    /// Whether `init_from_vec` accepts these cells and cursor: one cell per
    /// grid position, every resource id in the table, the cursor on the
    /// board.
    pub fn accepts_cells(&self, cells: &Vec<Cell>, cursor: &Option<Cursor>) -> (r: bool)
        requires
            self.wf(),
        ensures
            r == (cells@.len() == self.spec_rows() * self.spec_columns() && all_renderable(
                cells_view(cells@),
                self.spec_resources(),
            ) && match *cursor {
                Some(c) => in_grid(c.spec_position(), self.spec_columns(), self.spec_rows()),
                None => true,
            }),
    {
        if cells.len() != self.rows * self.columns {
            return false;
        }
        let mut k: usize = 0;
        while k < cells.len()
            invariant
                k <= cells@.len(),
                forall|j: int| 0 <= j < k ==> renderable(#[trigger] cells_view(cells@)[j], self.spec_resources()),
            decreases cells@.len() - k,
        {
            proof {
                assert(cells_view(cells@)[k as int] == cells@[k as int]@);
            }
            if let Cell::ResourceId(id) = &cells[k] {
                let known = match &self.resources {
                    Some(rt) => rt.contains_key(id),
                    None => false,
                };
                if !known {
                    return false;
                }
            }
            k = k + 1;
        }
        self.accepts_cursor(cursor)
    }

    /// Whether `init_from_str` accepts this text and cursor: cells of 1×1,
    /// one code point per grid position, the cursor on the board.
    pub fn accepts_str(&self, cells: &str, cursor: &Option<Cursor>) -> (r: bool)
        requires
            self.wf(),
        ensures
            r == (self.spec_cell_width() == 1 && self.spec_cell_height() == 1 && cells@.len()
                == self.spec_rows() * self.spec_columns() && match *cursor {
                Some(c) => in_grid(c.spec_position(), self.spec_columns(), self.spec_rows()),
                None => true,
            }),
    {
        self.cell_width == 1 && self.cell_height == 1 && cells.unicode_len() == self.rows * self.columns
            && self.accepts_cursor(cursor)
    }

    /// Whether the message dialog is shown.
    pub fn has_message(&self) -> (r: bool)
        ensures
            r == self.spec_message() is Some,
    {
        self.message_lines.is_some()
    }

    /// Whether `update_cells` accepts these updates now: no dialog is
    /// shown, every position is on the board and every resource id is in
    /// the table.
    pub fn accepts_updates(&self, updates: &CellUpdates) -> (r: bool)
        requires
            self.wf(),
        ensures
            r == (self.spec_message() is None && updates_in_grid(
                updates_view(updates@),
                self.spec_columns(),
                self.spec_rows(),
            ) && forall|j: int|
                0 <= j < updates@.len() ==> renderable(
                    #[trigger] updates_view(updates@)[j].0,
                    self.spec_resources(),
                )),
    {
        if self.message_lines.is_some() {
            return false;
        }
        let ghost ups = updates_view(updates@);
        let mut k: usize = 0;
        while k < updates.len()
            invariant
                k <= updates@.len(),
                ups == updates_view(updates@),
                forall|j: int| 0 <= j < k ==> in_grid(#[trigger] ups[j].1, self.spec_columns(), self.spec_rows()),
                forall|j: int| 0 <= j < k ==> renderable(#[trigger] ups[j].0, self.spec_resources()),
            decreases updates@.len() - k,
        {
            let (cell, pos) = &updates[k];
            proof {
                assert(ups[k as int] == (cell@, *pos));
            }
            if pos.0 >= self.columns || pos.1 >= self.rows {
                assert(!in_grid(ups[k as int].1, self.spec_columns(), self.spec_rows()));
                return false;
            }
            if let Cell::ResourceId(id) = cell {
                let known = match &self.resources {
                    Some(rt) => rt.contains_key(id),
                    None => false,
                };
                if !known {
                    assert(!renderable(ups[k as int].0, self.spec_resources()));
                    return false;
                }
            }
            k = k + 1;
        }
        true
    }

    /// Answers a repaint query: the text to write to the terminal, or
    /// `None` when nothing needs drawing.
    ///
    /// An open dialog is drawn alone, in full, on every query. Otherwise,
    /// after the dialog was closed the borders and every cell are drawn;
    /// after initialization every cell; else only the cells that changed.
    /// Then nothing is dirty any more.
    pub fn get_updates(&mut self) -> (r: Option<String>)
        requires
            old(self).wf(),
        ensures
            final(self).wf(),
            final(self).after_repaint(old(self)),
            match r {
                Some(s) => old(self).repaint_text() == Some(s@),
                None => old(self).repaint_text() is None,
            },
    {
        if let Some(lines) = &self.message_lines {
            return Some(self.get_message_dialog(lines));
        }
        if !self.update_all && !self.grid.has_updates() {
            return None;
        }
        let mut res = String::new();
        let update_all = self.update_all || self.grid.need_update_all();
        if self.update_all {
            let b = self.get_border();
            res.append(b.as_str());
        }
        if update_all && self.cell_width == 1 && self.cell_height == 1 && !self.cell_borders {
            let t = self.full_cells_unit();
            res.append(t.as_str());
        } else if update_all {
            let t = self.full_cells();
            res.append(t.as_str());
        } else {
            let order = self.grid.updated_iter();
            proof {
                assert forall|j: int| 0 <= j < order@.len() implies #[trigger] order@[j] < self.spec_rows()
                    * self.spec_columns() by {
                    assert(self.grid.dirty().contains(order@[j] as int));
                }
            }
            let t = self.listed_cells(&order);
            res.append(t.as_str());
        }
        self.grid.update_complete();
        self.update_all = false;
        proof {
            if old(self).update_all {
                assert(res@ =~= old(self).border_text() + old(self).cells_text(
                    old(self).spec_rows() * old(self).spec_columns(),
                ));
            } else {
                assert(res@ =~= Seq::<char>::empty() + old(self).cells_text(
                    old(self).spec_rows() * old(self).spec_columns(),
                ) || res@ =~= old(self).listed_text(old(self).spec_grid().dirty_order()));
            }
        }
        Some(res)
    }

    /// Attaches a cursor, if given, and highlights its cell.
    fn add_cursor(&mut self, cursor: Option<Cursor>)
        requires
            old(self).wf(),
            old(self).spec_cursor() is None,
            match cursor {
                Some(c) => in_grid(c.spec_position(), old(self).spec_columns(), old(self).spec_rows()),
                None => true,
            },
        ensures
            final(self).wf(),
            final(self).content() == old(self).content(),
            final(self).spec_position() == old(self).spec_position(),
            final(self).spec_width() == old(self).spec_width(),
            final(self).spec_height() == old(self).spec_height(),
            final(self).spec_rows() == old(self).spec_rows(),
            final(self).spec_columns() == old(self).spec_columns(),
            final(self).spec_cell_width() == old(self).spec_cell_width(),
            final(self).spec_cell_height() == old(self).spec_cell_height(),
            final(self).spec_cell_borders() == old(self).spec_cell_borders(),
            final(self).spec_resources() == old(self).spec_resources(),
            final(self).spec_message() == old(self).spec_message(),
            final(self).spec_update_all() == old(self).spec_update_all(),
            final(self).spec_grid().spec_update_all() == old(self).spec_grid().spec_update_all(),
            match cursor {
                Some(c) => final(self).spec_cursor() matches Some(fc) && fc.spec_position()
                    == c.spec_position() && fc.spec_background() == c.spec_background()
                    && fc.spec_wrap_around() == c.spec_wrap_around() && fc.spec_bindings()
                    == c.spec_bindings(),
                None => final(self).spec_cursor() is None && final(self).spec_grid() == old(self).spec_grid(),
            },
    {
        if let Some(mut cur) = cursor {
            cur.init(self.rows, self.columns, &mut self.grid, &self.resources);
            self.cursor = Some(cur);
        }
    }

    /// Fills the board from `cells` in row-major order and attaches the
    /// cursor, if given; a cursor already attached stays, on its cell.
    /// The next repaint draws the border and every cell.
    pub fn init_from_vec(&mut self, cells: &Vec<Cell>, cursor: Option<Cursor>)
        requires
            old(self).wf(),
            cells@.len() == old(self).spec_rows() * old(self).spec_columns(),
            all_renderable(cells_view(cells@), old(self).spec_resources()),
            match cursor {
                Some(c) => in_grid(c.spec_position(), old(self).spec_columns(), old(self).spec_rows()),
                None => true,
            },
        ensures
            final(self).wf(),
            final(self).content() == cells_view(cells@),
            final(self).repaint() == if old(self).spec_message() is Some {
                Repaint::Dialog
            } else {
                Repaint::Full
            },
            final(self).spec_update_all(),
            final(self).spec_grid().spec_update_all(),
            final(self).spec_position() == old(self).spec_position(),
            final(self).spec_width() == old(self).spec_width(),
            final(self).spec_height() == old(self).spec_height(),
            final(self).spec_rows() == old(self).spec_rows(),
            final(self).spec_columns() == old(self).spec_columns(),
            final(self).spec_cell_width() == old(self).spec_cell_width(),
            final(self).spec_cell_height() == old(self).spec_cell_height(),
            final(self).spec_cell_borders() == old(self).spec_cell_borders(),
            final(self).spec_resources() == old(self).spec_resources(),
            final(self).spec_message() == old(self).spec_message(),
            (cursor is Some || old(self).spec_cursor() is Some) <==> final(self).spec_cursor() is Some,
            match cursor {
                Some(c) => final(self).spec_cursor()->0.spec_position() == c.spec_position(),
                None => match old(self).spec_cursor() {
                    Some(c) => final(self).spec_cursor()->0.spec_position() == c.spec_position(),
                    None => true,
                },
            },
    {
        let mut kept: Option<Cursor> = None;
        std::mem::swap(&mut self.cursor, &mut kept);
        self.grid.init_from_vec(cells);
        let attach = if cursor.is_some() {
            cursor
        } else {
            kept
        };
        self.add_cursor(attach);
        self.update_all = true;
    }

    /// Fills a board of 1×1 cells from `cells`, one character cell per code
    /// point in row-major order, and attaches the cursor, if given; a
    /// cursor already attached stays, on its cell. The next repaint draws
    /// the border and every cell.
    pub fn init_from_str(&mut self, cells: &str, cursor: Option<Cursor>)
        requires
            old(self).wf(),
            old(self).spec_cell_width() == 1,
            old(self).spec_cell_height() == 1,
            cells@.len() == old(self).spec_rows() * old(self).spec_columns(),
            match cursor {
                Some(c) => in_grid(c.spec_position(), old(self).spec_columns(), old(self).spec_rows()),
                None => true,
            },
        ensures
            final(self).wf(),
            final(self).content().len() == cells@.len(),
            forall|j: int|
                0 <= j < cells@.len() ==> #[trigger] final(self).content()[j] == CellView::Char(cells@[j]),
            final(self).repaint() == if old(self).spec_message() is Some {
                Repaint::Dialog
            } else {
                Repaint::Full
            },
            final(self).spec_update_all(),
            final(self).spec_grid().spec_update_all(),
            final(self).spec_position() == old(self).spec_position(),
            final(self).spec_width() == old(self).spec_width(),
            final(self).spec_height() == old(self).spec_height(),
            final(self).spec_rows() == old(self).spec_rows(),
            final(self).spec_columns() == old(self).spec_columns(),
            final(self).spec_cell_width() == old(self).spec_cell_width(),
            final(self).spec_cell_height() == old(self).spec_cell_height(),
            final(self).spec_cell_borders() == old(self).spec_cell_borders(),
            final(self).spec_resources() == old(self).spec_resources(),
            final(self).spec_message() == old(self).spec_message(),
            (cursor is Some || old(self).spec_cursor() is Some) <==> final(self).spec_cursor() is Some,
            match cursor {
                Some(c) => final(self).spec_cursor()->0.spec_position() == c.spec_position(),
                None => match old(self).spec_cursor() {
                    Some(c) => final(self).spec_cursor()->0.spec_position() == c.spec_position(),
                    None => true,
                },
            },
    {
        let mut kept: Option<Cursor> = None;
        std::mem::swap(&mut self.cursor, &mut kept);
        self.grid.init_from_str(cells);
        let attach = if cursor.is_some() {
            cursor
        } else {
            kept
        };
        self.add_cursor(attach);
        self.update_all = true;
    }

    /// Writes cell updates, each entry a new content and its position;
    /// the cursor's highlight is kept on top of its cell.
    pub fn update_cells(&mut self, updates: CellUpdates)
        requires
            old(self).wf(),
            old(self).spec_message() is None,
            updates_in_grid(updates_view(updates@), old(self).spec_columns(), old(self).spec_rows()),
            forall|j: int|
                0 <= j < updates@.len() ==> renderable(
                    #[trigger] updates_view(updates@)[j].0,
                    old(self).spec_resources(),
                ),
        ensures
            final(self).wf(),
            final(self).content() == apply_updates(
                old(self).content(),
                updates_view(updates@),
                old(self).spec_columns(),
            ),
            final(self).spec_grid().dirty() == old(self).spec_grid().dirty().union(
                touched(updates_view(updates@), old(self).spec_columns()),
            ),
            final(self).spec_grid().spec_update_all() == old(self).spec_grid().spec_update_all(),
            final(self).spec_position() == old(self).spec_position(),
            final(self).spec_width() == old(self).spec_width(),
            final(self).spec_height() == old(self).spec_height(),
            final(self).spec_rows() == old(self).spec_rows(),
            final(self).spec_columns() == old(self).spec_columns(),
            final(self).spec_cell_width() == old(self).spec_cell_width(),
            final(self).spec_cell_height() == old(self).spec_cell_height(),
            final(self).spec_cell_borders() == old(self).spec_cell_borders(),
            final(self).spec_resources() == old(self).spec_resources(),
            final(self).spec_message() == old(self).spec_message(),
            final(self).spec_update_all() == old(self).spec_update_all(),
            old(self).spec_cursor() is Some <==> final(self).spec_cursor() is Some,
            match old(self).spec_cursor() {
                Some(c) => final(self).spec_cursor()->0.spec_position() == c.spec_position(),
                None => true,
            },
    {
        let ghost ups = updates_view(updates@);
        let ghost res = self.spec_resources();
        let ghost g0 = self.grid.spec_cells();
        let ghost cols = self.spec_columns();
        let ghost rows = self.spec_rows();
        self.grid.update_cells(&updates);
        proof {
            lemma_apply_untouched(g0, ups, cols, rows);
            lemma_apply_renderable(g0, ups, cols, rows, res);
        }
        match &mut self.cursor {
            Some(cursor) => {
                let ghost c0 = *cursor;
                proof {
                    let i = cell_index(c0.spec_position(), cols);
                    lemma_index_in_grid(c0.spec_position(), cols, rows);
                    lemma_apply_after_write(g0, i, c0.spec_original(), ups, cols, rows);
                }
                cursor.check_updates(&updates, &mut self.grid, &self.resources);
                proof {
                    let i = cell_index(c0.spec_position(), cols);
                    if touched(ups, cols).contains(i) {
                        assert(self.grid.dirty() =~= old(self).grid.dirty().union(touched(ups, cols)));
                    }
                }
            },
            None => {},
        }
    }

    /// `self` is `o` after handling a key: still consistent, with the same
    /// written content and the cursor, if any, still attached.
    pub open spec fn after_key(&self, o: &Board) -> bool {
        &&& self.wf()
        &&& self.content() == o.content()
        &&& (o.spec_cursor() is Some ==> self.spec_cursor() is Some)
        &&& self.spec_columns() == o.spec_columns()
        &&& self.spec_rows() == o.spec_rows()
    }

    /// Hands a key press to the cursor, if there is one.
    pub fn handle_key(&mut self, key: Key) -> (r: KeyHandleResult)
        requires
            old(self).wf(),
        ensures
            final(self).after_key(old(self)),
            match old(self).spec_cursor() {
                Some(c) => r == c.key_result(key, old(self).spec_columns(), old(self).spec_rows()),
                None => r == KeyHandleResult::NotHandled,
            },
            match r {
                KeyHandleResult::NewPosition(p) => final(self).spec_cursor() matches Some(c)
                    && c.spec_position() == p,
                _ => *final(self) == *old(self),
            },
            final(self).spec_grid().spec_update_all() == old(self).spec_grid().spec_update_all(),
            final(self).spec_position() == old(self).spec_position(),
            final(self).spec_width() == old(self).spec_width(),
            final(self).spec_height() == old(self).spec_height(),
            final(self).spec_rows() == old(self).spec_rows(),
            final(self).spec_columns() == old(self).spec_columns(),
            final(self).spec_cell_width() == old(self).spec_cell_width(),
            final(self).spec_cell_height() == old(self).spec_cell_height(),
            final(self).spec_cell_borders() == old(self).spec_cell_borders(),
            final(self).spec_resources() == old(self).spec_resources(),
            final(self).spec_message() == old(self).spec_message(),
            final(self).spec_update_all() == old(self).spec_update_all(),
    {
        match &mut self.cursor {
            Some(cursor) => cursor.handle_key(key, &mut self.grid, &self.resources),
            None => KeyHandleResult::NotHandled,
        }
    }

    /// Opens the modal message dialog with the given lines. Lines starting
    /// with `|^|` are centered, lines starting with `|>|` aligned right.
    pub fn show_message(&mut self, lines: &[&str])
        requires
            old(self).wf(),
            lines@.len() > 0,
            old(self).spec_width() >= 8,
            old(self).spec_height() >= 8,
        ensures
            final(self).wf(),
            final(self).spec_message() == Some(lines@.map_values(|l: &str| l@)),
            final(self).repaint() == Repaint::Dialog,
            final(self).content() == old(self).content(),
            final(self).spec_grid() == old(self).spec_grid(),
            final(self).spec_cursor() == old(self).spec_cursor(),
            final(self).spec_position() == old(self).spec_position(),
            final(self).spec_width() == old(self).spec_width(),
            final(self).spec_height() == old(self).spec_height(),
            final(self).spec_rows() == old(self).spec_rows(),
            final(self).spec_columns() == old(self).spec_columns(),
            final(self).spec_cell_width() == old(self).spec_cell_width(),
            final(self).spec_cell_height() == old(self).spec_cell_height(),
            final(self).spec_cell_borders() == old(self).spec_cell_borders(),
            final(self).spec_resources() == old(self).spec_resources(),
            final(self).spec_update_all() == old(self).spec_update_all(),
    {
        let mut v: Vec<String> = Vec::new();
        let mut i: usize = 0;
        while i < lines.len()
            invariant
                i <= lines@.len(),
                v@.len() == i,
                forall|j: int| 0 <= j < i ==> #[trigger] v@[j]@ == lines@[j]@,
            decreases lines@.len() - i,
        {
            v.push(String::from_str(lines[i]));
            i = i + 1;
        }
        self.message_lines = Some(v);
        assert(self.spec_message()->0 =~= lines@.map_values(|l: &str| l@));
    }

    /// Closes the message dialog; the next repaint draws the whole board.
    pub fn hide_message(&mut self)
        requires
            old(self).wf(),
        ensures
            final(self).wf(),
            final(self).spec_message() is None,
            final(self).spec_update_all(),
            final(self).repaint() == Repaint::Full,
            final(self).content() == old(self).content(),
            final(self).spec_grid() == old(self).spec_grid(),
            final(self).spec_cursor() == old(self).spec_cursor(),
            final(self).spec_position() == old(self).spec_position(),
            final(self).spec_width() == old(self).spec_width(),
            final(self).spec_height() == old(self).spec_height(),
            final(self).spec_rows() == old(self).spec_rows(),
            final(self).spec_columns() == old(self).spec_columns(),
            final(self).spec_cell_width() == old(self).spec_cell_width(),
            final(self).spec_cell_height() == old(self).spec_cell_height(),
            final(self).spec_cell_borders() == old(self).spec_cell_borders(),
            final(self).spec_resources() == old(self).spec_resources(),
    {
        self.message_lines = None;
        self.update_all = true;
    }
}

/// After a repaint that drew cells, nothing is dirty, and a query with no
/// change in between has nothing to draw.
pub proof fn lemma_repaint_settles(before: Board, after: Board)
    requires
        before.wf(),
        after.after_repaint(&before),
        before.repaint() != Repaint::Dialog,
    ensures
        after.spec_grid().dirty() == Set::<int>::empty(),
        after.repaint() == Repaint::Clean,
        after.repaint_text() is None,
{
}

/// Repainting twice with no change in between: the second query draws
/// nothing and leaves the board as it was.
pub proof fn lemma_repaint_twice(b0: Board, b1: Board, b2: Board)
    requires
        b0.wf(),
        b1.after_repaint(&b0),
        b2.after_repaint(&b1),
        b0.repaint() != Repaint::Dialog,
    ensures
        b1.repaint_text() is None,
        b2 == b1,
{
}

/// With a cursor, the grid shows the written content everywhere but at
/// the cursor's cell, which shows the highlighted variant of the value
/// written there; the cursor remembers that value.
pub proof fn lemma_single_highlight(b: Board)
    requires
        b.wf(),
        b.spec_cursor() is Some,
    ensures
        ({
            let c = b.spec_cursor()->0;
            let i = cell_index(c.spec_position(), b.spec_columns());
            &&& 0 <= i < b.content().len()
            &&& c.spec_original() == b.content()[i]
            &&& b.spec_grid().spec_cells() == b.content().update(
                i,
                crate::cell::highlighted(
                    b.content()[i],
                    b.spec_resources(),
                    b.spec_cell_width(),
                    b.spec_cell_height(),
                    c.spec_background(),
                ),
            )
        }),
{
    let c = b.spec_cursor()->0;
    let i = cell_index(c.spec_position(), b.spec_columns());
    lemma_index_in_grid(c.spec_position(), b.spec_columns(), b.spec_rows());
    assert(b.spec_grid().spec_cells() =~= b.content().update(
        i,
        crate::cell::highlighted(
            b.content()[i],
            b.spec_resources(),
            b.spec_cell_width(),
            b.spec_cell_height(),
            c.spec_background(),
        ),
    ));
}

/// Once the dialog is closed, the next query redraws borders and every
/// cell, whether or not any cell changed.
pub proof fn lemma_closed_dialog_repaints_all(b: Board)
    requires
        b.wf(),
        b.spec_message() is None,
        b.spec_update_all(),
    ensures
        b.repaint() == Repaint::Full,
        b.repaint_text() == Some(b.border_text() + b.cells_text(b.spec_rows() * b.spec_columns())),
{
}

/// After any sequence of key presses handled by a board with a cursor, the
/// written content is unchanged, and exactly the cursor's cell shows the
/// highlighted variant of the value written there.
pub proof fn lemma_moves_keep_content(bs: Seq<Board>)
    requires
        bs.len() > 0,
        bs[0].wf(),
        bs[0].spec_cursor() is Some,
        forall|k: int| 0 <= k < bs.len() - 1 ==> #[trigger] bs[k + 1].after_key(&bs[k]),
    ensures
        bs.last().content() == bs[0].content(),
        bs.last().spec_cursor() is Some,
        ({
            let b = bs.last();
            let c = b.spec_cursor()->0;
            let i = cell_index(c.spec_position(), b.spec_columns());
            &&& c.spec_original() == b.content()[i]
            &&& b.spec_grid().spec_cells() == b.content().update(
                i,
                crate::cell::highlighted(
                    b.content()[i],
                    b.spec_resources(),
                    b.spec_cell_width(),
                    b.spec_cell_height(),
                    c.spec_background(),
                ),
            )
        }),
    decreases bs.len(),
{
    if bs.len() > 1 {
        let init = bs.drop_last();
        assert forall|k: int| 0 <= k < init.len() - 1 implies #[trigger] init[k + 1].after_key(&init[k]) by {
            assert(init[k + 1] == bs[k + 1] && init[k] == bs[k]);
        }
        lemma_moves_keep_content(init);
        let k = bs.len() - 2;
        assert(bs[k + 1].after_key(&bs[k]));
        assert(init.last() == bs[k]);
    }
    lemma_single_highlight(bs.last());
}

/// When exactly one cell is dirty and nothing else is pending, the repaint
/// draws that cell alone, at its place.
pub proof fn lemma_single_dirty_cell(b: Board, i: int)
    requires
        b.wf(),
        b.spec_message() is None,
        !b.spec_update_all(),
        !b.spec_grid().spec_update_all(),
        b.spec_grid().dirty() == set![i],
    ensures
        b.repaint() == Repaint::Sparse,
        b.repaint_text() == Some(b.cell_text_at(i)),
{
    let g = b.spec_grid();
    let order = g.dirty_order();
    assert(g.dirty().contains(i));
    let j0 = choose|j: int| 0 <= j < order.len() && order[j] as int == i;
    assert forall|j: int| 0 <= j < order.len() implies order[j] as int == i by {
        assert(g.dirty().contains(order[j] as int));
    }
    if order.len() > 1 {
        let other = if j0 == 0 { 1int } else { 0int };
        assert(order[other] as int == i);
        assert(order[other] != order[j0]);
    }
    assert(order.len() == 1);
    assert(order.drop_last() =~= Seq::<usize>::empty());
    assert(g.dirty() != Set::<int>::empty());
    assert(b.listed_text(order) =~= b.listed_text(order.drop_last()) + b.cell_text_at(i));
    assert(b.listed_text(order.drop_last()) =~= Seq::<char>::empty());
}

} // verus!
