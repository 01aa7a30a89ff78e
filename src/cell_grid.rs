//! Fixed-size grid of cells that tracks which cells changed since the last
//! repaint.

use vstd::prelude::*;
use crate::cell::{highlighted, renderable, table_view, Cell, CellView, ResourceTable};
use crate::game::{cell_index, in_grid, lemma_index_in_grid, Position};
use crate::term::Rgb;
use vstd::std_specs::iter::IteratorSpec;

verus! {

/// Cell updates: each entry is the new content and the position it goes to.
pub type CellUpdates = Vec<(Cell, Position)>;

/// Models of cells.
pub open spec fn cells_view(v: Seq<Cell>) -> Seq<CellView> {
    v.map_values(|c: Cell| c@)
}

/// Models of cell updates.
pub open spec fn updates_view(u: Seq<(Cell, Position)>) -> Seq<(CellView, Position)> {
    u.map_values(|e: (Cell, Position)| (e.0@, e.1))
}

/// Cells after the updates are written in order: a later update of the same
/// position wins.
pub open spec fn apply_updates(
    cs: Seq<CellView>,
    ups: Seq<(CellView, Position)>,
    columns: nat,
) -> Seq<CellView>
    decreases ups.len(),
{
    if ups.len() == 0 {
        cs
    } else {
        apply_updates(cs, ups.drop_last(), columns).update(
            cell_index(ups.last().1, columns),
            ups.last().0,
        )
    }
}

/// Indices that a batch of updates touches.
pub open spec fn touched(ups: Seq<(CellView, Position)>, columns: nat) -> Set<int> {
    Set::new(|k: int| exists|j: int| 0 <= j < ups.len() && k == cell_index(ups[j].1, columns))
}

/// Every update of the batch lies inside the grid.
pub open spec fn updates_in_grid(ups: Seq<(CellView, Position)>, columns: nat, rows: nat) -> bool {
    forall|j: int| 0 <= j < ups.len() ==> in_grid(#[trigger] ups[j].1, columns, rows)
}

/// Splitting off the last update of a batch.
pub proof fn lemma_touched_last(ups: Seq<(CellView, Position)>, columns: nat)
    requires
        ups.len() > 0,
    ensures
        touched(ups, columns) == touched(ups.drop_last(), columns).insert(
            cell_index(ups.last().1, columns),
        ),
{
    let a = touched(ups, columns);
    let b = touched(ups.drop_last(), columns).insert(cell_index(ups.last().1, columns));
    assert forall|k: int| a.contains(k) implies b.contains(k) by {
        let j = choose|j: int| 0 <= j < ups.len() && k == cell_index(ups[j].1, columns);
        if j < ups.len() - 1 {
            assert(ups.drop_last()[j] == ups[j]);
        }
    }
    assert forall|k: int| b.contains(k) implies a.contains(k) by {
        if k != cell_index(ups.last().1, columns) {
            let j = choose|j: int|
                0 <= j < ups.drop_last().len() && k == cell_index(ups.drop_last()[j].1, columns);
            assert(ups[j] == ups.drop_last()[j]);
        } else {
            assert(k == cell_index(ups[ups.len() - 1].1, columns));
        }
    }
    assert(a =~= b);
}

/// Writing a batch of in-grid updates keeps the number of cells; a cell
/// that no update touches keeps its value.
pub proof fn lemma_apply_untouched(
    cs: Seq<CellView>,
    ups: Seq<(CellView, Position)>,
    columns: nat,
    rows: nat,
)
    requires
        cs.len() == columns * rows,
        updates_in_grid(ups, columns, rows),
    ensures
        apply_updates(cs, ups, columns).len() == cs.len(),
        forall|k: int|
            0 <= k < cs.len() && !touched(ups, columns).contains(k) ==> #[trigger] apply_updates(
                cs,
                ups,
                columns,
            )[k] == cs[k],
        forall|j: int|
            0 <= j < ups.len() ==> 0 <= #[trigger] cell_index(ups[j].1, columns) < cs.len(),
    decreases ups.len(),
{
    assert forall|j: int| 0 <= j < ups.len() implies 0 <= #[trigger] cell_index(ups[j].1, columns)
        < cs.len() by {
        lemma_index_in_grid(ups[j].1, columns, rows);
    }
    if ups.len() > 0 {
        let init = ups.drop_last();
        assert forall|j: int| 0 <= j < init.len() implies in_grid(#[trigger] init[j].1, columns, rows) by {
            assert(init[j] == ups[j]);
        }
        lemma_apply_untouched(cs, init, columns, rows);
        lemma_touched_last(ups, columns);
        assert(in_grid(ups[ups.len() - 1].1, columns, rows));
        lemma_index_in_grid(ups.last().1, columns, rows);
    }
}

/// Writing one cell before a batch: the batch overwrites it if it touches
/// that cell, and otherwise the write survives.
pub proof fn lemma_apply_after_write(
    cs: Seq<CellView>,
    i: int,
    v: CellView,
    ups: Seq<(CellView, Position)>,
    columns: nat,
    rows: nat,
)
    requires
        cs.len() == columns * rows,
        0 <= i < cs.len(),
        updates_in_grid(ups, columns, rows),
    ensures
        apply_updates(cs.update(i, v), ups, columns) == if touched(ups, columns).contains(i) {
            apply_updates(cs, ups, columns)
        } else {
            apply_updates(cs, ups, columns).update(i, v)
        },
    decreases ups.len(),
{
    if ups.len() == 0 {
        assert(!touched(ups, columns).contains(i));
    } else {
        let init = ups.drop_last();
        assert forall|j: int| 0 <= j < init.len() implies in_grid(#[trigger] init[j].1, columns, rows) by {
            assert(init[j] == ups[j]);
        }
        lemma_apply_after_write(cs, i, v, init, columns, rows);
        lemma_touched_last(ups, columns);
        lemma_apply_untouched(cs, init, columns, rows);
        lemma_apply_untouched(cs.update(i, v), init, columns, rows);
        assert(in_grid(ups[ups.len() - 1].1, columns, rows));
        lemma_index_in_grid(ups.last().1, columns, rows);
        let k = cell_index(ups.last().1, columns);
        if touched(init, columns).contains(i) {
        } else if k == i {
            assert(apply_updates(cs.update(i, v), ups, columns) =~= apply_updates(cs, ups, columns));
        } else {
            assert(apply_updates(cs.update(i, v), ups, columns) =~= apply_updates(cs, ups, columns).update(
                i,
                v,
            ));
        }
    }
}

/// Writing drawable cells keeps every cell drawable.
pub proof fn lemma_apply_renderable(
    cs: Seq<CellView>,
    ups: Seq<(CellView, Position)>,
    columns: nat,
    rows: nat,
    res: Option<Map<u16, Seq<char>>>,
)
    requires
        cs.len() == columns * rows,
        updates_in_grid(ups, columns, rows),
        forall|k: int| 0 <= k < cs.len() ==> renderable(#[trigger] cs[k], res),
        forall|j: int| 0 <= j < ups.len() ==> renderable(#[trigger] ups[j].0, res),
    ensures
        forall|k: int|
            0 <= k < cs.len() ==> renderable(#[trigger] apply_updates(cs, ups, columns)[k], res),
    decreases ups.len(),
{
    if ups.len() > 0 {
        let init = ups.drop_last();
        assert forall|j: int| 0 <= j < init.len() implies in_grid(#[trigger] init[j].1, columns, rows) by {
            assert(init[j] == ups[j]);
        }
        assert forall|j: int| 0 <= j < init.len() implies renderable(#[trigger] init[j].0, res) by {
            assert(init[j] == ups[j]);
        }
        lemma_apply_renderable(cs, init, columns, rows, res);
        lemma_apply_untouched(cs, init, columns, rows);
        lemma_apply_untouched(cs, ups, columns, rows);
        assert(renderable(ups[ups.len() - 1].0, res));
        let prev = apply_updates(cs, init, columns);
        let k0 = cell_index(ups.last().1, columns);
        assert forall|k: int| 0 <= k < cs.len() implies renderable(
            #[trigger] apply_updates(cs, ups, columns)[k],
            res,
        ) by {
            if k != k0 {
                assert(apply_updates(cs, ups, columns)[k] == prev[k]);
            }
        }
    } else {
        lemma_apply_untouched(cs, ups, columns, rows);
    }
}

/// A character cell.
fn char_cell(c: char) -> (r: Cell)
    ensures
        r@ == CellView::Char(c),
{
    Cell::Char(c)
}

/// Fixed rows×columns store of cells with dirty tracking.
pub struct CellGrid {
    rows: usize,
    columns: usize,
    cell_width: usize,
    cell_height: usize,
    cells: Vec<Cell>,
    update_all: bool,
    /// Dirty indices, each once, in the order they were first changed.
    updates: Vec<usize>,
}

impl CellGrid {
    /// The grid's shape and dirty list are consistent.
    pub open spec fn wf(&self) -> bool {
        &&& self.spec_cells().len() == self.spec_rows() * self.spec_columns()
        &&& self.spec_rows() * self.spec_columns() <= usize::MAX
        &&& forall|k: int| #[trigger] self.dirty().contains(k) ==> 0 <= k < self.spec_cells().len()
        &&& self.dirty_order().no_duplicates()
        &&& forall|k: int|
            #[trigger] self.dirty().contains(k) <==> exists|j: int|
                0 <= j < self.dirty_order().len() && #[trigger] self.dirty_order()[j] as int == k
        &&& self.dirty_wf()
    }

    /// The dirty list holds each index once, and only indices of cells.
    pub closed spec fn dirty_wf(&self) -> bool {
        &&& self.updates@.no_duplicates()
        &&& forall|j: int| 0 <= j < self.updates@.len() ==> #[trigger] self.updates@[j] < self.cells@.len()
    }

    pub closed spec fn spec_rows(&self) -> nat {
        self.rows as nat
    }

    pub closed spec fn spec_columns(&self) -> nat {
        self.columns as nat
    }

    pub closed spec fn spec_cell_width(&self) -> nat {
        self.cell_width as nat
    }

    pub closed spec fn spec_cell_height(&self) -> nat {
        self.cell_height as nat
    }

    /// The cells in row-major order.
    pub closed spec fn spec_cells(&self) -> Seq<CellView> {
        cells_view(self.cells@)
    }

    /// Indices changed since the last completed repaint.
    pub closed spec fn dirty(&self) -> Set<int> {
        Set::new(
            |k: int| exists|j: int| 0 <= j < self.updates@.len() && #[trigger] self.updates@[j] as int == k,
        )
    }

    /// Dirty indices in the order they were first changed.
    pub closed spec fn dirty_order(&self) -> Seq<usize> {
        self.updates@
    }

    /// Whether every cell must be redrawn.
    pub closed spec fn spec_update_all(&self) -> bool {
        self.update_all
    }

    /// Creates a grid of empty cells; every cell is to be drawn.
    pub fn new(columns: usize, rows: usize, cell_width: usize, cell_height: usize) -> (r: Self)
        requires
            columns * rows <= usize::MAX,
        ensures
            r.wf(),
            r.spec_columns() == columns,
            r.spec_rows() == rows,
            r.spec_cell_width() == cell_width,
            r.spec_cell_height() == cell_height,
            r.spec_cells() == Seq::new(columns as nat * rows as nat, |_i: int| CellView::Empty),
            r.spec_update_all(),
            r.dirty() == Set::<int>::empty(),
    {
        let n = columns * rows;
        assert(columns as nat * rows as nat == rows as nat * columns as nat) by (nonlinear_arith);
        let mut cells: Vec<Cell> = Vec::new();
        let mut k: usize = 0;
        while k < n
            invariant
                k <= n,
                cells@.len() == k,
                forall|j: int| 0 <= j < k ==> cells@[j]@ == CellView::Empty,
            decreases n - k,
        {
            cells.push(Cell::Empty);
            k = k + 1;
        }
        let r = CellGrid {
            rows,
            columns,
            cell_width,
            cell_height,
            cells,
            update_all: true,
            updates: Vec::new(),
        };
        assert(r.spec_cells() =~= Seq::new(columns as nat * rows as nat, |_i: int| CellView::Empty));
        assert(r.dirty() =~= Set::<int>::empty());
        r
    }

    /// Replaces every cell with `cells`, in row-major order; every cell is to
    /// be drawn.
    pub fn init_from_vec(&mut self, cells: &Vec<Cell>)
        requires
            old(self).wf(),
            cells@.len() == old(self).spec_rows() * old(self).spec_columns(),
        ensures
            final(self).wf(),
            final(self).spec_cells() == cells_view(cells@),
            final(self).spec_update_all(),
            final(self).dirty() == old(self).dirty(),
            final(self).spec_rows() == old(self).spec_rows(),
            final(self).spec_columns() == old(self).spec_columns(),
            final(self).spec_cell_width() == old(self).spec_cell_width(),
            final(self).spec_cell_height() == old(self).spec_cell_height(),
    {
        let mut v: Vec<Cell> = Vec::new();
        let mut k: usize = 0;
        while k < cells.len()
            invariant
                k <= cells@.len(),
                v@.len() == k,
                forall|j: int| 0 <= j < k ==> v@[j]@ == cells@[j]@,
            decreases cells@.len() - k,
        {
            v.push(cells[k].duplicate());
            k = k + 1;
        }
        self.cells = v;
        self.update_all = true;
        assert(self.spec_cells() =~= cells_view(cells@));
    }

    /// Replaces every cell with a character cell, one per code point of
    /// `cells`, in row-major order; every cell is to be drawn.
    pub fn init_from_str(&mut self, cells: &str)
        requires
            old(self).wf(),
            cells@.len() == old(self).spec_rows() * old(self).spec_columns(),
        ensures
            final(self).wf(),
            final(self).spec_cells().len() == cells@.len(),
            forall|j: int|
                0 <= j < cells@.len() ==> #[trigger] final(self).spec_cells()[j] == CellView::Char(
                    cells@[j],
                ),
            final(self).spec_update_all(),
            final(self).dirty() == old(self).dirty(),
            final(self).spec_rows() == old(self).spec_rows(),
            final(self).spec_columns() == old(self).spec_columns(),
            final(self).spec_cell_width() == old(self).spec_cell_width(),
            final(self).spec_cell_height() == old(self).spec_cell_height(),
    {
        broadcast use vstd::string::axiom_spec_iter, vstd::string::next_postcondition;

        let mut it = cells.chars();
        let mut v: Vec<Cell> = Vec::new();
        let ghost n = cells@.len();
        loop
            invariant
                it.obeys_prophetic_iter_laws(),
                n == cells@.len(),
                v@.len() <= n,
                it.remaining() == cells@.subrange(v@.len() as int, n as int),
                forall|j: int| 0 <= j < v@.len() ==> v@[j]@ == CellView::Char(cells@[j]),
            ensures
                v@.len() == n,
                forall|j: int| 0 <= j < v@.len() ==> v@[j]@ == CellView::Char(cells@[j]),
            decreases n - v@.len(),
        {
            let ghost before = it.remaining();
            let ghost k = v@.len();
            match it.next() {
                Some(c) => {
                    assert(before.len() > 0);
                    assert(c == cells@[k as int]);
                    assert(it.remaining() == before.drop_first());
                    v.push(char_cell(c));
                    assert(v@.len() == k + 1);
                    assert(it.remaining() =~= cells@.subrange(v@.len() as int, n as int));
                },
                None => {
                    assert(before.len() == 0);
                    break;
                },
            }
        }
        self.cells = v;
        self.update_all = true;
        assert forall|j: int| 0 <= j < cells@.len() implies #[trigger] self.spec_cells()[j]
            == CellView::Char(cells@[j]) by {
            assert(self.spec_cells()[j] == v@[j]@);
        }
        assert(self.spec_cells().len() == cells@.len());
    }

    /// Whether anything is to be drawn.
    pub fn has_updates(&self) -> (r: bool)
        requires
            self.wf(),
        ensures
            r == (self.spec_update_all() || self.dirty() != Set::<int>::empty()),
    {
        if self.updates.len() > 0 {
            assert(self.updates@[0] as int == self.updates@[0] as int);
            assert(self.dirty().contains(self.updates@[0] as int));
        } else {
            assert(self.dirty() =~= Set::<int>::empty());
        }
        self.update_all || self.updates.len() > 0
    }

    /// Whether every cell is to be drawn.
    pub fn need_update_all(&self) -> (r: bool)
        ensures
            r == self.spec_update_all(),
    {
        self.update_all
    }

    /// The cells in row-major order.
    pub fn iter(&self) -> (r: &Vec<Cell>)
        ensures
            cells_view(r@) == self.spec_cells(),
    {
        &self.cells
    }

    /// The dirty indices, each once.
    pub fn updated_iter(&self) -> (r: Vec<usize>)
        requires
            self.wf(),
        ensures
            r@ == self.dirty_order(),
            r@.no_duplicates(),
            forall|j: int| 0 <= j < r@.len() ==> self.dirty().contains(#[trigger] r@[j] as int),
            forall|k: int|
                #[trigger] self.dirty().contains(k) ==> exists|j: int|
                    0 <= j < r@.len() && r@[j] as int == k,
    {
        self.updates.clone()
    }

    /// Marks the repaint done: nothing is dirty any more; cells keep their
    /// values.
    pub fn update_complete(&mut self)
        requires
            old(self).wf(),
        ensures
            final(self).wf(),
            final(self).spec_cells() == old(self).spec_cells(),
            !final(self).spec_update_all(),
            final(self).dirty() == Set::<int>::empty(),
            final(self).dirty_order() == Seq::<usize>::empty(),
            final(self).spec_rows() == old(self).spec_rows(),
            final(self).spec_columns() == old(self).spec_columns(),
            final(self).spec_cell_width() == old(self).spec_cell_width(),
            final(self).spec_cell_height() == old(self).spec_cell_height(),
    {
        self.updates = Vec::new();
        self.update_all = false;
        assert(self.dirty() =~= Set::<int>::empty());
    }

    /// Adds `idx` to the dirty list unless it is there.
    fn mark(&mut self, idx: usize)
        requires
            old(self).wf(),
            idx < old(self).cells@.len(),
        ensures
            final(self).wf(),
            final(self).cells == old(self).cells,
            final(self).update_all == old(self).update_all,
            final(self).rows == old(self).rows,
            final(self).columns == old(self).columns,
            final(self).cell_width == old(self).cell_width,
            final(self).cell_height == old(self).cell_height,
            final(self).dirty() == old(self).dirty().insert(idx as int),
    {
        let mut k: usize = 0;
        let mut found = false;
        while k < self.updates.len()
            invariant
                k <= self.updates@.len(),
                found == exists|j: int| 0 <= j < k && self.updates@[j] == idx,
            decreases self.updates@.len() - k,
        {
            if self.updates[k] == idx {
                found = true;
            }
            k = k + 1;
        }
        let ghost before = self.updates@;
        if !found {
            self.updates.push(idx);
            assert(self.updates@.no_duplicates()) by {
                assert forall|a: int, b: int|
                    0 <= a < b < self.updates@.len() implies self.updates@[a] != self.updates@[b] by {
                    if b == before.len() {
                        assert(before[a] != idx);
                    } else {
                        assert(before[a] != before[b]);
                    }
                }
            }
            assert(self.updates@[before.len() as int] == idx);
            assert forall|k: int| #[trigger] old(self).dirty().contains(k) implies self.dirty().contains(k) by {
                let j = choose|j: int| 0 <= j < before.len() && #[trigger] before[j] as int == k;
                assert(self.updates@[j] == before[j]);
            }
            assert forall|k: int| #[trigger] self.dirty().contains(k) implies old(self).dirty().insert(idx as int).contains(k) by {
                let j = choose|j: int| 0 <= j < self.updates@.len() && #[trigger] self.updates@[j] as int == k;
                if j < before.len() {
                    assert(before[j] == self.updates@[j]);
                }
            }
            assert(self.dirty() =~= old(self).dirty().insert(idx as int));
        } else {
            assert(self.dirty().contains(idx as int)) by {
                let j = choose|j: int| 0 <= j < k && self.updates@[j] == idx;
                assert(self.updates@[j] as int == idx as int);
            }
            assert(self.dirty() =~= old(self).dirty().insert(idx as int));
        }
    }

    /// Writes `cell` at `pos` and marks it dirty.
    pub fn update_cell(&mut self, cell: Cell, pos: Position)
        requires
            old(self).wf(),
            in_grid(pos, old(self).spec_columns(), old(self).spec_rows()),
        ensures
            final(self).wf(),
            final(self).spec_cells() == old(self).spec_cells().update(
                cell_index(pos, old(self).spec_columns()),
                cell@,
            ),
            final(self).dirty() == old(self).dirty().insert(cell_index(pos, old(self).spec_columns())),
            final(self).spec_update_all() == old(self).spec_update_all(),
            final(self).spec_rows() == old(self).spec_rows(),
            final(self).spec_columns() == old(self).spec_columns(),
            final(self).spec_cell_width() == old(self).spec_cell_width(),
            final(self).spec_cell_height() == old(self).spec_cell_height(),
    {
        let idx = self.get_cell_pos(pos);
        let ghost c = cell@;
        self.cells.set(idx, cell);
        assert(self.spec_cells() =~= old(self).spec_cells().update(idx as int, c));
        self.mark(idx);
    }

    /// Writes each update in order and marks the touched cells dirty.
    pub fn update_cells(&mut self, updates: &CellUpdates)
        requires
            old(self).wf(),
            updates_in_grid(updates_view(updates@), old(self).spec_columns(), old(self).spec_rows()),
        ensures
            final(self).wf(),
            final(self).spec_cells() == apply_updates(
                old(self).spec_cells(),
                updates_view(updates@),
                old(self).spec_columns(),
            ),
            final(self).dirty() == old(self).dirty().union(
                touched(updates_view(updates@), old(self).spec_columns()),
            ),
            final(self).spec_update_all() == old(self).spec_update_all(),
            final(self).spec_rows() == old(self).spec_rows(),
            final(self).spec_columns() == old(self).spec_columns(),
            final(self).spec_cell_width() == old(self).spec_cell_width(),
            final(self).spec_cell_height() == old(self).spec_cell_height(),
    {
        let ghost ups = updates_view(updates@);
        let ghost cols = self.spec_columns();
        let mut k: usize = 0;
        assert(ups.subrange(0, 0) =~= Seq::<(CellView, Position)>::empty());
        assert(touched(ups.subrange(0, 0), cols) =~= Set::<int>::empty());
        assert(old(self).dirty().union(Set::<int>::empty()) =~= old(self).dirty());
        while k < updates.len()
            invariant
                k <= updates@.len(),
                ups == updates_view(updates@),
                cols == old(self).spec_columns(),
                updates_in_grid(ups, cols, old(self).spec_rows()),
                self.wf(),
                self.spec_cells() == apply_updates(old(self).spec_cells(), ups.subrange(0, k as int), cols),
                self.dirty() == old(self).dirty().union(touched(ups.subrange(0, k as int), cols)),
                self.spec_update_all() == old(self).spec_update_all(),
                self.spec_rows() == old(self).spec_rows(),
                self.spec_columns() == cols,
                self.spec_cell_width() == old(self).spec_cell_width(),
                self.spec_cell_height() == old(self).spec_cell_height(),
            decreases updates@.len() - k,
        {
            let (cell, pos) = &updates[k];
            proof {
                assert(ups[k as int] == (cell@, *pos));
                assert(in_grid(ups[k as int].1, cols, self.spec_rows()));
            }
            self.update_cell(cell.duplicate(), *pos);
            proof {
                let next = ups.subrange(0, k as int + 1);
                assert(next.drop_last() =~= ups.subrange(0, k as int));
                assert(next.last() == ups[k as int]);
                assert(touched(next, cols) =~= touched(ups.subrange(0, k as int), cols).insert(
                    cell_index(*pos, cols),
                )) by {
                    assert forall|i: int| #[trigger]
                        touched(next, cols).contains(i) implies touched(
                        ups.subrange(0, k as int),
                        cols,
                    ).insert(cell_index(*pos, cols)).contains(i) by {
                        let j = choose|j: int| 0 <= j < next.len() && i == cell_index(next[j].1, cols);
                        if j < k {
                            assert(ups.subrange(0, k as int)[j] == next[j]);
                        }
                    }
                    assert forall|i: int| #[trigger]
                        touched(ups.subrange(0, k as int), cols).contains(i) implies touched(
                        next,
                        cols,
                    ).contains(i) by {
                        let j = choose|j: int|
                            0 <= j < k && i == cell_index(ups.subrange(0, k as int)[j].1, cols);
                        assert(next[j] == ups.subrange(0, k as int)[j]);
                    }
                    assert(touched(next, cols).contains(cell_index(*pos, cols))) by {
                        assert(next[k as int] == ups[k as int]);
                    }
                }
            }
            k = k + 1;
        }
        assert(ups.subrange(0, updates@.len() as int) =~= ups);
    }

    /// Puts the highlighted variant of the cell at `pos` there, marks it
    /// dirty, and returns the cell it replaced.
    pub fn update_cell_bg_color(&mut self, pos: Position, bg: Rgb, resources: &Option<ResourceTable>) -> (r: Cell)
        requires
            old(self).wf(),
            in_grid(pos, old(self).spec_columns(), old(self).spec_rows()),
            renderable(old(self).spec_cells()[cell_index(pos, old(self).spec_columns())], table_view(*resources)),
            old(self).spec_cell_width() * old(self).spec_cell_height() <= usize::MAX,
        ensures
            final(self).wf(),
            r@ == old(self).spec_cells()[cell_index(pos, old(self).spec_columns())],
            final(self).spec_cells() == old(self).spec_cells().update(
                cell_index(pos, old(self).spec_columns()),
                highlighted(
                    r@,
                    table_view(*resources),
                    old(self).spec_cell_width(),
                    old(self).spec_cell_height(),
                    bg,
                ),
            ),
            final(self).dirty() == old(self).dirty().insert(cell_index(pos, old(self).spec_columns())),
            final(self).spec_update_all() == old(self).spec_update_all(),
            final(self).spec_rows() == old(self).spec_rows(),
            final(self).spec_columns() == old(self).spec_columns(),
            final(self).spec_cell_width() == old(self).spec_cell_width(),
            final(self).spec_cell_height() == old(self).spec_cell_height(),
    {
        let idx = self.get_cell_pos(pos);
        let original = self.cells[idx].duplicate();
        let lit = original.with_bg_color(self.cell_width, self.cell_height, resources, bg);
        self.update_cell(lit, pos);
        original
    }

    /// Row-major index of a position inside the grid.
    pub fn get_cell_pos(&self, pos: Position) -> (r: usize)
        requires
            self.wf(),
            in_grid(pos, self.spec_columns(), self.spec_rows()),
        ensures
            r == cell_index(pos, self.spec_columns()),
            r < self.spec_cells().len(),
    {
        proof {
            lemma_index_in_grid(pos, self.spec_columns(), self.spec_rows());
        }
        pos.1 * self.columns + pos.0
    }
}

/// A grid filled from a vector of the right length lists its cells in the
/// vector's order.
pub proof fn lemma_fill_then_iterate(g: CellGrid, cells: Seq<Cell>, listed: Seq<Cell>)
    requires
        g.wf(),
        cells.len() == g.spec_rows() * g.spec_columns(),
        g.spec_cells() == cells_view(cells),
        cells_view(listed) == g.spec_cells(),
    ensures
        listed.len() == cells.len(),
        forall|i: int| 0 <= i < cells.len() ==> #[trigger] listed[i]@ == cells[i]@,
{
    assert(cells_view(listed).len() == listed.len());
    assert(cells_view(cells).len() == cells.len());
    assert forall|i: int| 0 <= i < cells.len() implies #[trigger] listed[i]@ == cells[i]@ by {
        assert(cells_view(listed)[i] == listed[i]@);
        assert(cells_view(cells)[i] == cells[i]@);
    }
}

} // verus!
