//! A simple cursor: one highlighted cell that moves in four directions.

use vstd::prelude::*;
use crate::cell::{highlighted, renderable, table_view, Cell, CellView, ResourceTable};
use crate::cell_grid::{touched, updates_in_grid, updates_view, CellGrid, CellUpdates};
use crate::game::{cell_index, in_grid, lemma_index_in_grid, lemma_index_injective, Position};
use crate::term::Rgb;

verus! {

/// Cursor move direction.
#[derive(Clone, Copy, PartialEq, Eq, Structural, Debug)]
pub enum Direction {
    Left,
    Right,
    Up,
    Down,
}

/// A key press, as decoded by the terminal input layer.
#[derive(Clone, Copy, PartialEq, Eq, Structural, Debug)]
pub enum Key {
    Backspace,
    Left,
    Right,
    Up,
    Down,
    Home,
    End,
    PageUp,
    PageDown,
    BackTab,
    Delete,
    Insert,
    /// Function key.
    F(u8),
    /// Normal character.
    Char(char),
    /// Character with Alt held.
    Alt(char),
    /// Character with Ctrl held.
    Ctrl(char),
    Null,
    Esc,
}

/// Result of handing a key press to the cursor.
#[derive(Clone, Copy, PartialEq, Eq, Structural, Debug)]
pub enum KeyHandleResult {
    /// The key does not move the cursor.
    NotHandled,
    /// The key is a cursor key, but the cursor stays where it is.
    Consumed,
    /// The cursor moved to this position.
    NewPosition(Position),
}

/// Default key map: `a`/left, `d`/right, `w`/up, `s`/down.
pub open spec fn default_direction(key: Key) -> Option<Direction> {
    match key {
        Key::Char('a') | Key::Left => Some(Direction::Left),
        Key::Char('s') | Key::Down => Some(Direction::Down),
        Key::Char('w') | Key::Up => Some(Direction::Up),
        Key::Char('d') | Key::Right => Some(Direction::Right),
        _ => None,
    }
}

/// The direction bound to `key`: the first binding for it wins.
pub open spec fn lookup(bindings: Seq<(Key, Direction)>, key: Key) -> Option<Direction>
    decreases bindings.len(),
{
    if bindings.len() == 0 {
        None
    } else if bindings[0].0 == key {
        Some(bindings[0].1)
    } else {
        lookup(bindings.drop_first(), key)
    }
}

/// The direction a key means under optional custom bindings.
pub open spec fn direction_of(bindings: Option<Seq<(Key, Direction)>>, key: Key) -> Option<Direction> {
    match bindings {
        Some(b) => lookup(b, key),
        None => default_direction(key),
    }
}

/// Where one step from `p` leads in a `columns`×`rows` grid; `None` when the
/// step would leave the grid and wraparound is off.
pub open spec fn step(p: Position, d: Direction, columns: nat, rows: nat, wrap: bool) -> Option<Position> {
    match d {
        Direction::Left => if p.0 == 0 {
            if wrap { Some(Position((columns - 1) as usize, p.1)) } else { None }
        } else {
            Some(Position((p.0 - 1) as usize, p.1))
        },
        Direction::Right => if p.0 == columns - 1 {
            if wrap { Some(Position(0, p.1)) } else { None }
        } else {
            Some(Position((p.0 + 1) as usize, p.1))
        },
        Direction::Up => if p.1 == 0 {
            if wrap { Some(Position(p.0, (rows - 1) as usize)) } else { None }
        } else {
            Some(Position(p.0, (p.1 - 1) as usize))
        },
        Direction::Down => if p.1 == rows - 1 {
            if wrap { Some(Position(p.0, 0)) } else { None }
        } else {
            Some(Position(p.0, (p.1 + 1) as usize))
        },
    }
}

/// Every cell can be drawn with the given resources.
pub open spec fn all_renderable(cells: Seq<CellView>, res: Option<Map<u16, Seq<char>>>) -> bool {
    forall|k: int| 0 <= k < cells.len() ==> renderable(#[trigger] cells[k], res)
}

/// The default key map.
pub fn get_direction_default(key: Key) -> (r: Option<Direction>)
    ensures
        r == default_direction(key),
{
    match key {
        Key::Char('a') | Key::Left => Some(Direction::Left),
        Key::Char('s') | Key::Down => Some(Direction::Down),
        Key::Char('w') | Key::Up => Some(Direction::Up),
        Key::Char('d') | Key::Right => Some(Direction::Right),
        _ => None,
    }
}

/// Looks a key up in a list of bindings.
pub fn get_direction(bindings: &Vec<(Key, Direction)>, key: Key) -> (r: Option<Direction>)
    ensures
        r == lookup(bindings@, key),
{
    let mut i: usize = 0;
    assert(bindings@.subrange(0, bindings@.len() as int) =~= bindings@);
    while i < bindings.len()
        invariant
            i <= bindings@.len(),
            lookup(bindings@, key) == lookup(bindings@.subrange(i as int, bindings@.len() as int), key),
        decreases bindings@.len() - i,
    {
        let ghost rest = bindings@.subrange(i as int, bindings@.len() as int);
        assert(rest.drop_first() =~= bindings@.subrange(i + 1, bindings@.len() as int));
        assert(rest[0] == bindings@[i as int]);
        if bindings[i].0 == key {
            return Some(bindings[i].1);
        }
        i = i + 1;
    }
    assert(bindings@.subrange(i as int, bindings@.len() as int).len() == 0);
    None
}

/// Cursor: highlights the cell at its position with a background color.
pub struct Cursor {
    original_cell: Cell,
    background: Rgb,
    position: Position,
    wrap_around: bool,
    bindings: Option<Vec<(Key, Direction)>>,
    rows: usize,
    columns: usize,
}

impl Cursor {
    pub closed spec fn spec_position(&self) -> Position {
        self.position
    }

    /// The cell that the highlight covers.
    pub closed spec fn spec_original(&self) -> CellView {
        self.original_cell@
    }

    pub closed spec fn spec_background(&self) -> Rgb {
        self.background
    }

    pub closed spec fn spec_wrap_around(&self) -> bool {
        self.wrap_around
    }

    pub closed spec fn spec_bindings(&self) -> Option<Seq<(Key, Direction)>> {
        match self.bindings {
            Some(b) => Some(b@),
            None => None,
        }
    }

    pub closed spec fn spec_rows(&self) -> nat {
        self.rows as nat
    }

    pub closed spec fn spec_columns(&self) -> nat {
        self.columns as nat
    }

    /// The cursor sits on `grid`: its cell shows the highlighted variant of
    /// the cell it covers, and every cell can be drawn.
    pub open spec fn on_grid(&self, grid: &CellGrid, res: Option<Map<u16, Seq<char>>>) -> bool {
        &&& grid.wf()
        &&& self.spec_rows() == grid.spec_rows()
        &&& self.spec_columns() == grid.spec_columns()
        &&& in_grid(self.spec_position(), grid.spec_columns(), grid.spec_rows())
        &&& grid.spec_cell_width() * grid.spec_cell_height() <= usize::MAX
        &&& renderable(self.spec_original(), res)
        &&& all_renderable(grid.spec_cells(), res)
        &&& grid.spec_cells()[cell_index(self.spec_position(), grid.spec_columns())] == highlighted(
            self.spec_original(),
            res,
            grid.spec_cell_width(),
            grid.spec_cell_height(),
            self.spec_background(),
        )
    }

    /// The cells as written by the user: the grid with the covered cell put
    /// back under the cursor.
    pub open spec fn plain(&self, grid: &CellGrid) -> Seq<CellView> {
        grid.spec_cells().update(
            cell_index(self.spec_position(), grid.spec_columns()),
            self.spec_original(),
        )
    }

    /// What handling `key` reports for a cursor on a `columns`×`rows` grid.
    pub open spec fn key_result(&self, key: Key, columns: nat, rows: nat) -> KeyHandleResult {
        match direction_of(self.spec_bindings(), key) {
            None => KeyHandleResult::NotHandled,
            Some(d) => match step(self.spec_position(), d, columns, rows, self.spec_wrap_around()) {
                None => KeyHandleResult::Consumed,
                Some(p) => KeyHandleResult::NewPosition(p),
            },
        }
    }

    /// Creates a cursor at `position` with the given highlight color.
    ///
    /// `get_direction` binds keys to directions; with `None` the default map
    /// is used (`a`/left, `d`/right, `w`/up, `s`/down).
    pub fn new(
        background: Rgb,
        position: Position,
        wrap_around: bool,
        get_direction: Option<Vec<(Key, Direction)>>,
    ) -> (r: Self)
        ensures
            r.spec_background() == background,
            r.spec_position() == position,
            r.spec_wrap_around() == wrap_around,
            r.spec_bindings() == match get_direction {
                Some(b) => Some(b@),
                None => None::<Seq<(Key, Direction)>>,
            },
            r.spec_original() == CellView::Empty,
    {
        Cursor {
            original_cell: Cell::Empty,
            background,
            position,
            wrap_around,
            bindings: get_direction,
            rows: 0,
            columns: 0,
        }
    }

    /// The cursor's position.
    pub fn get_position(&self) -> (r: Position)
        ensures
            r == self.spec_position(),
    {
        self.position
    }

    /// The direction `key` means for this cursor.
    pub fn direction(&self, key: Key) -> (r: Option<Direction>)
        ensures
            r == direction_of(self.spec_bindings(), key),
    {
        match &self.bindings {
            Some(b) => get_direction(b, key),
            None => get_direction_default(key),
        }
    }

    /// Places the cursor on a grid: highlights the cell at its position.
    pub fn init(&mut self, rows: usize, columns: usize, grid: &mut CellGrid, resources: &Option<ResourceTable>)
        requires
            old(grid).wf(),
            rows == old(grid).spec_rows(),
            columns == old(grid).spec_columns(),
            in_grid(old(self).spec_position(), columns as nat, rows as nat),
            old(grid).spec_cell_width() * old(grid).spec_cell_height() <= usize::MAX,
            all_renderable(old(grid).spec_cells(), table_view(*resources)),
        ensures
            final(self).on_grid(final(grid), table_view(*resources)),
            final(self).plain(final(grid)) == old(grid).spec_cells(),
            final(self).spec_position() == old(self).spec_position(),
            final(self).spec_background() == old(self).spec_background(),
            final(self).spec_wrap_around() == old(self).spec_wrap_around(),
            final(self).spec_bindings() == old(self).spec_bindings(),
            final(grid).dirty() == old(grid).dirty().insert(
                cell_index(old(self).spec_position(), columns as nat),
            ),
            final(grid).spec_update_all() == old(grid).spec_update_all(),
            final(grid).spec_rows() == old(grid).spec_rows(),
            final(grid).spec_columns() == old(grid).spec_columns(),
            final(grid).spec_cell_width() == old(grid).spec_cell_width(),
            final(grid).spec_cell_height() == old(grid).spec_cell_height(),
    {
        self.rows = rows;
        self.columns = columns;
        let ghost before = grid.spec_cells();
        proof {
            lemma_index_in_grid(self.position, columns as nat, rows as nat);
        }
        self.original_cell = grid.update_cell_bg_color(self.position, self.background, resources);
        proof {
            let i = cell_index(self.position, columns as nat);
            let res = table_view(*resources);
            assert(renderable(before[i], res));
            assert forall|k: int| 0 <= k < grid.spec_cells().len() implies renderable(
                #[trigger] grid.spec_cells()[k],
                res,
            ) by {
                if k != i {
                    assert(grid.spec_cells()[k] == before[k]);
                }
            }
            assert(self.plain(grid) =~= before);
        }
    }

    /// Moves the cursor to `new_pos`: puts the covered cell back and
    /// highlights the cell at `new_pos`.
    fn move_cursor(&mut self, new_pos: Position, grid: &mut CellGrid, resources: &Option<ResourceTable>) -> (r:
        KeyHandleResult)
        requires
            old(self).on_grid(old(grid), table_view(*resources)),
            in_grid(new_pos, old(grid).spec_columns(), old(grid).spec_rows()),
        ensures
            r == KeyHandleResult::NewPosition(new_pos),
            final(self).on_grid(final(grid), table_view(*resources)),
            final(self).plain(final(grid)) == old(self).plain(old(grid)),
            final(self).spec_position() == new_pos,
            final(self).spec_background() == old(self).spec_background(),
            final(self).spec_wrap_around() == old(self).spec_wrap_around(),
            final(self).spec_bindings() == old(self).spec_bindings(),
            final(grid).dirty() == old(grid).dirty().insert(
                cell_index(old(self).spec_position(), old(grid).spec_columns()),
            ).insert(cell_index(new_pos, old(grid).spec_columns())),
            final(grid).spec_update_all() == old(grid).spec_update_all(),
            final(grid).spec_rows() == old(grid).spec_rows(),
            final(grid).spec_columns() == old(grid).spec_columns(),
            final(grid).spec_cell_width() == old(grid).spec_cell_width(),
            final(grid).spec_cell_height() == old(grid).spec_cell_height(),
    {
        let ghost res = table_view(*resources);
        let ghost cols = grid.spec_columns();
        let ghost i = cell_index(self.position, cols);
        let ghost j = cell_index(new_pos, cols);
        let ghost g0 = grid.spec_cells();
        proof {
            lemma_index_in_grid(self.position, cols, grid.spec_rows());
            lemma_index_in_grid(new_pos, cols, grid.spec_rows());
        }
        grid.update_cell(self.original_cell.duplicate(), self.position);
        let ghost g1 = grid.spec_cells();
        proof {
            assert forall|k: int| 0 <= k < g1.len() implies renderable(#[trigger] g1[k], res) by {
                if k != i {
                    assert(g1[k] == g0[k]);
                }
            }
            assert(renderable(g1[j], res));
        }
        self.position = new_pos;
        self.original_cell = grid.update_cell_bg_color(self.position, self.background, resources);
        proof {
            let g2 = grid.spec_cells();
            assert forall|k: int| 0 <= k < g2.len() implies renderable(#[trigger] g2[k], res) by {
                if k != j {
                    assert(g2[k] == g1[k]);
                }
            }
            assert(self.plain(grid) =~= g1);
            assert(old(self).plain(old(grid)) =~= g1);
        }
        KeyHandleResult::NewPosition(self.position)
    }

    /// Handles a key press: moves the cursor if the key means a direction.
    pub fn handle_key(&mut self, key: Key, grid: &mut CellGrid, resources: &Option<ResourceTable>) -> (r:
        KeyHandleResult)
        requires
            old(self).on_grid(old(grid), table_view(*resources)),
        ensures
            final(self).on_grid(final(grid), table_view(*resources)),
            final(self).plain(final(grid)) == old(self).plain(old(grid)),
            final(self).spec_background() == old(self).spec_background(),
            final(self).spec_wrap_around() == old(self).spec_wrap_around(),
            final(self).spec_bindings() == old(self).spec_bindings(),
            final(grid).spec_update_all() == old(grid).spec_update_all(),
            final(grid).spec_rows() == old(grid).spec_rows(),
            final(grid).spec_columns() == old(grid).spec_columns(),
            final(grid).spec_cell_width() == old(grid).spec_cell_width(),
            final(grid).spec_cell_height() == old(grid).spec_cell_height(),
            r == old(self).key_result(key, old(grid).spec_columns(), old(grid).spec_rows()),
            match r {
                KeyHandleResult::NewPosition(p) => {
                    &&& final(self).spec_position() == p
                    &&& final(grid).dirty() == old(grid).dirty().insert(
                        cell_index(old(self).spec_position(), old(grid).spec_columns()),
                    ).insert(cell_index(p, old(grid).spec_columns()))
                },
                _ => {
                    &&& *final(self) == *old(self)
                    &&& *final(grid) == *old(grid)
                },
            },
    {
        match self.direction(key) {
            None => KeyHandleResult::NotHandled,
            Some(d) => {
                let target = match d {
                    Direction::Left => self.left(),
                    Direction::Right => self.right(),
                    Direction::Up => self.up(),
                    Direction::Down => self.down(),
                };
                match target {
                    None => KeyHandleResult::Consumed,
                    Some(p) => self.move_cursor(p, grid, resources),
                }
            },
        }
    }

    /// The cell to the left, wrapping to the last column if enabled.
    fn left(&self) -> (r: Option<Position>)
        requires
            self.spec_columns() > 0,
        ensures
            r == step(self.spec_position(), Direction::Left, self.spec_columns(), self.spec_rows(), self.spec_wrap_around()),
    {
        let x = self.position.0;
        if x == 0 && !self.wrap_around {
            None
        } else if x == 0 {
            Some(Position(self.columns - 1, self.position.1))
        } else {
            Some(Position(x - 1, self.position.1))
        }
    }

    /// The cell to the right, wrapping to the first column if enabled.
    fn right(&self) -> (r: Option<Position>)
        requires
            self.spec_columns() > 0,
            self.spec_position().0 < self.spec_columns(),
        ensures
            r == step(self.spec_position(), Direction::Right, self.spec_columns(), self.spec_rows(), self.spec_wrap_around()),
    {
        let x = self.position.0;
        if x == self.columns - 1 && !self.wrap_around {
            None
        } else if x == self.columns - 1 {
            Some(Position(0, self.position.1))
        } else {
            Some(Position(x + 1, self.position.1))
        }
    }

    /// The cell above, wrapping to the last row if enabled.
    fn up(&self) -> (r: Option<Position>)
        requires
            self.spec_rows() > 0,
        ensures
            r == step(self.spec_position(), Direction::Up, self.spec_columns(), self.spec_rows(), self.spec_wrap_around()),
    {
        let y = self.position.1;
        if y == 0 && !self.wrap_around {
            None
        } else if y == 0 {
            Some(Position(self.position.0, self.rows - 1))
        } else {
            Some(Position(self.position.0, y - 1))
        }
    }

    /// The cell below, wrapping to the first row if enabled.
    fn down(&self) -> (r: Option<Position>)
        requires
            self.spec_rows() > 0,
            self.spec_position().1 < self.spec_rows(),
        ensures
            r == step(self.spec_position(), Direction::Down, self.spec_columns(), self.spec_rows(), self.spec_wrap_around()),
    {
        let y = self.position.1;
        if y == self.rows - 1 && !self.wrap_around {
            None
        } else if y == self.rows - 1 {
            Some(Position(self.position.0, 0))
        } else {
            Some(Position(self.position.0, y + 1))
        }
    }

    /// Called after `updates` were written to the grid: if one of them hit
    /// the cursor's cell, that value becomes the covered cell and the
    /// highlight is put back on top of it.
    pub fn check_updates(&mut self, updates: &CellUpdates, grid: &mut CellGrid, resources: &Option<ResourceTable>)
        requires
            old(grid).wf(),
            old(self).spec_rows() == old(grid).spec_rows(),
            old(self).spec_columns() == old(grid).spec_columns(),
            in_grid(old(self).spec_position(), old(grid).spec_columns(), old(grid).spec_rows()),
            updates_in_grid(updates_view(updates@), old(grid).spec_columns(), old(grid).spec_rows()),
            old(grid).spec_cell_width() * old(grid).spec_cell_height() <= usize::MAX,
            renderable(old(self).spec_original(), table_view(*resources)),
            all_renderable(old(grid).spec_cells(), table_view(*resources)),
            touched(updates_view(updates@), old(grid).spec_columns()).contains(
                cell_index(old(self).spec_position(), old(grid).spec_columns()),
            ) || old(grid).spec_cells()[cell_index(old(self).spec_position(), old(grid).spec_columns())]
                == highlighted(
                old(self).spec_original(),
                table_view(*resources),
                old(grid).spec_cell_width(),
                old(grid).spec_cell_height(),
                old(self).spec_background(),
            ),
        ensures
            final(self).on_grid(final(grid), table_view(*resources)),
            final(self).spec_position() == old(self).spec_position(),
            final(self).spec_background() == old(self).spec_background(),
            final(self).spec_wrap_around() == old(self).spec_wrap_around(),
            final(self).spec_bindings() == old(self).spec_bindings(),
            final(self).plain(final(grid)) == if touched(updates_view(updates@), old(grid).spec_columns()).contains(
                cell_index(old(self).spec_position(), old(grid).spec_columns()),
            ) {
                old(grid).spec_cells()
            } else {
                old(self).plain(old(grid))
            },
            final(grid).dirty() == if touched(updates_view(updates@), old(grid).spec_columns()).contains(
                cell_index(old(self).spec_position(), old(grid).spec_columns()),
            ) {
                old(grid).dirty().insert(cell_index(old(self).spec_position(), old(grid).spec_columns()))
            } else {
                old(grid).dirty()
            },
            final(grid).spec_update_all() == old(grid).spec_update_all(),
            final(grid).spec_rows() == old(grid).spec_rows(),
            final(grid).spec_columns() == old(grid).spec_columns(),
            final(grid).spec_cell_width() == old(grid).spec_cell_width(),
            final(grid).spec_cell_height() == old(grid).spec_cell_height(),
    {
        let ghost ups = updates_view(updates@);
        let ghost cols = grid.spec_columns();
        let ghost i = cell_index(self.position, cols);
        let mut k: usize = 0;
        let mut hit = false;
        while k < updates.len()
            invariant
                k <= updates@.len(),
                ups == updates_view(updates@),
                hit == exists|j: int| 0 <= j < k && cell_index(#[trigger] ups[j].1, cols) == i,
                cols == old(grid).spec_columns(),
                i == cell_index(self.position, cols),
                *grid == *old(grid),
                *self == *old(self),
                updates_in_grid(ups, cols, old(grid).spec_rows()),
                in_grid(self.position, cols, old(grid).spec_rows()),
            decreases updates@.len() - k,
        {
            proof {
                assert(ups[k as int].1 == updates@[k as int].1);
                assert(in_grid(ups[k as int].1, cols, old(grid).spec_rows()));
                if cell_index(ups[k as int].1, cols) == i {
                    lemma_index_injective(ups[k as int].1, self.position, cols, old(grid).spec_rows());
                }
            }
            if updates[k].1 == self.position {
                hit = true;
            }
            k = k + 1;
        }
        proof {
            assert(hit == touched(ups, cols).contains(i));
        }
        if hit {
            let ghost before = grid.spec_cells();
            proof {
                lemma_index_in_grid(self.position, cols, grid.spec_rows());
            }
            self.original_cell = grid.update_cell_bg_color(self.position, self.background, resources);
            proof {
                let res = table_view(*resources);
                assert forall|k: int| 0 <= k < grid.spec_cells().len() implies renderable(
                    #[trigger] grid.spec_cells()[k],
                    res,
                ) by {
                    if k != i {
                        assert(grid.spec_cells()[k] == before[k]);
                    }
                }
                assert(self.plain(grid) =~= before);
            }
        }
    }
}

/// At the left edge, a left move wraps to the last column of the same row
/// when wraparound is on, and is consumed without moving when it is off.
pub proof fn lemma_left_edge(c: Cursor, key: Key, columns: nat, rows: nat)
    requires
        columns > 0,
        c.spec_position().0 == 0,
        direction_of(c.spec_bindings(), key) == Some(Direction::Left),
    ensures
        c.spec_wrap_around() ==> c.key_result(key, columns, rows) == KeyHandleResult::NewPosition(
            Position((columns - 1) as usize, c.spec_position().1),
        ),
        !c.spec_wrap_around() ==> c.key_result(key, columns, rows) == KeyHandleResult::Consumed,
{
}

} // verus!
