//! Positions on the board, the game's life cycle and the screen layout.

use vstd::prelude::*;
use vstd::string::StringExecFns;
use crate::board::{fits_screen, Board};
use crate::cell_grid::{apply_updates, updates_in_grid, updates_view, CellUpdates};
use crate::cell::renderable;
use crate::cursor::{Key, KeyHandleResult};
use crate::info::{frame_text, Info, InfoLayout};

verus! {

/// Cell position on the board: column (*x*) and row (*y*), both zero-based.
#[derive(Clone, Copy, PartialEq, Eq, Structural, Debug)]
pub struct Position(pub usize, pub usize);

/// Row-major index of a position in a grid with `columns` columns.
pub open spec fn cell_index(p: Position, columns: nat) -> int {
    p.1 * columns + p.0
}

/// The position lies inside a `columns`×`rows` grid.
pub open spec fn in_grid(p: Position, columns: nat, rows: nat) -> bool {
    p.0 < columns && p.1 < rows
}

/// A position inside the grid has an index inside the cell vector.
pub proof fn lemma_index_in_grid(p: Position, columns: nat, rows: nat)
    requires
        in_grid(p, columns, rows),
    ensures
        0 <= cell_index(p, columns) < columns * rows,
{
    assert(p.1 * columns + p.0 < columns * rows) by (nonlinear_arith)
        requires
            p.0 < columns,
            p.1 < rows,
    ;
    assert(0 <= p.1 * columns) by (nonlinear_arith);
}

/// Distinct positions inside the grid have distinct indices.
pub proof fn lemma_index_injective(p: Position, q: Position, columns: nat, rows: nat)
    requires
        in_grid(p, columns, rows),
        in_grid(q, columns, rows),
        cell_index(p, columns) == cell_index(q, columns),
    ensures
        p == q,
{
    let a = p.1 as int;
    let b = q.1 as int;
    let c = columns as int;
    if a < b {
        assert(a * c + c <= b * c) by (nonlinear_arith)
            requires
                a < b,
                c >= 0,
        ;
    } else if b < a {
        assert(b * c + c <= a * c) by (nonlinear_arith)
            requires
                b < a,
                c >= 0,
        ;
    }
}


/// Game state.
#[derive(Clone, Copy, PartialEq, Eq, Structural, Debug)]
pub enum GameState {
    /// Initial state.
    Created,
    /// Board and information area are laid out and displayed.
    Initialized,
    /// Key presses are handled.
    Started,
    /// Key presses are ignored, except the resume key.
    Paused,
    /// Key presses are ignored.
    Stopped,
}

/// What the controller does with a key press.
#[derive(Clone, Copy, PartialEq, Eq, Structural, Debug)]
pub enum KeyAction {
    /// Hand the key to the user's key handler.
    Handle(Key),
    /// Tell the user that the cursor moved here.
    CursorMoved(Position),
    /// Nothing.
    Ignore,
}

/// Screen positions of the board and the information area, and the
/// area's total width and height, for a board `bw`×`bh` characters and an
/// area `size` across.
pub open spec fn placement(bw: nat, bh: nat, size: nat, layout: InfoLayout) -> (Position, Position, nat, nat) {
    match layout {
        InfoLayout::Left => (Position((size + 1) as usize, 1), Position(1, 1), size, bh),
        InfoLayout::Right => (Position(1, 1), Position((bw + 1) as usize, 1), size, bh),
        InfoLayout::Top => (Position(1, (size + 1) as usize), Position(1, 1), bw, size),
        InfoLayout::Bottom => (Position(1, 1), Position(1, (bh + 1) as usize), bw, size),
    }
}

/// Board and information area, placed side by side, fit on the screen.
pub open spec fn layout_fits(board: Board, info: Option<Info>) -> bool {
    match info {
        Some(i) => {
            let (bp, ip, iw, ih) = placement(
                board.spec_width(),
                board.spec_height(),
                i.spec_size(),
                i.spec_layout(),
            );
            &&& i.spec_size() >= 2
            &&& i.spec_size() + 1 <= u16::MAX
            &&& fits_screen(bp.0 as nat, bp.1 as nat, board.spec_width(), board.spec_height())
            &&& fits_screen(ip.0 as nat, ip.1 as nat, iw, ih)
        },
        None => fits_screen(1, 1, board.spec_width(), board.spec_height()),
    }
}

/// Text of an optional repaint.
pub open spec fn or_empty(t: Option<Seq<char>>) -> Seq<char> {
    match t {
        Some(s) => s,
        None => Seq::empty(),
    }
}

/// The game's state, board and information area, without the terminal:
/// the controller feeds it key presses and writes the text it returns.
pub struct GameCore {
    board: Option<Board>,
    info: Option<Info>,
    state: GameState,
    resume_key: Option<Key>,
}

impl GameCore {
    pub closed spec fn spec_board(&self) -> Option<Board> {
        self.board
    }

    pub closed spec fn spec_info(&self) -> Option<Info> {
        self.info
    }

    pub closed spec fn spec_state(&self) -> GameState {
        self.state
    }

    pub closed spec fn spec_resume_key(&self) -> Option<Key> {
        self.resume_key
    }

    /// The board is consistent and the information area placed; past
    /// creation there is a board.
    pub open spec fn wf(&self) -> bool {
        &&& match self.spec_board() {
            Some(b) => b.wf(),
            None => true,
        }
        &&& match self.spec_info() {
            Some(i) => i.placed(),
            None => true,
        }
        &&& (self.spec_state() != GameState::Created ==> self.spec_board() is Some)
    }

    /// A new game, with nothing to show yet.
    pub fn new() -> (r: Self)
        ensures
            r.wf(),
            r.spec_state() == GameState::Created,
            r.spec_board() is None,
            r.spec_info() is None,
            r.spec_resume_key() is None,
    {
        GameCore { board: None, info: None, state: GameState::Created, resume_key: None }
    }

    /// Game state.
    pub fn get_state(&self) -> (r: GameState)
        ensures
            r == self.spec_state(),
    {
        self.state
    }

    /// Places the board and the information area on the screen.
    fn layout(board: &mut Board, info: &mut Option<Info>)
        requires
            old(board).wf(),
            layout_fits(*old(board), *old(info)),
        ensures
            final(board).wf(),
            match *old(info) {
                Some(i) => {
                    let (bp, ip, iw, ih) = placement(
                        old(board).spec_width(),
                        old(board).spec_height(),
                        i.spec_size(),
                        i.spec_layout(),
                    );
                    &&& final(board).spec_position() == bp
                    &&& *final(info) matches Some(fi) && fi.spec_position() == ip && fi.spec_width() == iw
                        && fi.spec_height() == ih && fi.spec_lines() == i.spec_lines()
                        && fi.spec_size() == i.spec_size() && fi.spec_layout() == i.spec_layout()
                    &&& (*final(info))->0.placed()
                },
                None => final(board).spec_position() == Position(1, 1) && (*final(info)) is None,
            },
            final(board).content() == old(board).content(),
            final(board).spec_grid() == old(board).spec_grid(),
            final(board).spec_cursor() == old(board).spec_cursor(),
            final(board).spec_message() == old(board).spec_message(),
            final(board).spec_update_all() == old(board).spec_update_all(),
            final(board).spec_width() == old(board).spec_width(),
            final(board).spec_height() == old(board).spec_height(),
    {
        let b_w = board.get_width();
        let b_h = board.get_height();
        match info {
            Some(info) => {
                let i_size = info.get_size();
                let (b_pos, i_pos, i_w, i_h) = match info.get_layout() {
                    InfoLayout::Left => (Position(i_size + 1, 1), Position(1, 1), i_size, b_h),
                    InfoLayout::Right => (Position(1, 1), Position(b_w + 1, 1), i_size, b_h),
                    InfoLayout::Top => (Position(1, i_size + 1), Position(1, 1), b_w, i_size),
                    InfoLayout::Bottom => (Position(1, 1), Position(1, b_h + 1), b_w, i_size),
                };
                board.set_position(b_pos);
                info.set_position_and_size(i_pos, i_w, i_h);
            },
            None => {
                board.set_position(Position(1, 1));
            },
        }
    }

    /// Whether `board` and `info` fit on the screen side by side, as
    /// `init` requires.
    pub fn layout_fits(board: &Board, info: &Option<Info>) -> (r: bool)
        requires
            board.wf(),
        ensures
            r == layout_fits(*board, *info),
    {
        let b_w = board.get_width();
        let b_h = board.get_height();
        let max: usize = 65536;
        match info {
            Some(i) => {
                let size = i.get_size();
                if size < 2 || size >= max - 1 {
                    return false;
                }
                match i.get_layout() {
                    InfoLayout::Left => size + 1 + b_w <= max && 1 + b_h <= max && 1 + size <= max
                        && 1 + b_h <= max,
                    InfoLayout::Right => 1 + b_w <= max && 1 + b_h <= max && b_w + 1 + size <= max
                        && 1 + b_h <= max,
                    InfoLayout::Top => 1 + b_w <= max && size + 1 + b_h <= max && 1 + b_w <= max && 1
                        + size <= max,
                    InfoLayout::Bottom => 1 + b_w <= max && 1 + b_h <= max && 1 + b_w <= max && b_h + 1
                        + size <= max,
                }
            },
            None => 1 + b_w <= max && 1 + b_h <= max,
        }
    }

    /// Takes the board and the optional information area and lays them out.
    pub fn init(&mut self, board: Board, info: Option<Info>)
        requires
            old(self).wf(),
            old(self).spec_state() == GameState::Created || old(self).spec_state() == GameState::Stopped,
            board.wf(),
            layout_fits(board, info),
        ensures
            final(self).wf(),
            final(self).spec_state() == GameState::Initialized,
            final(self).spec_board() matches Some(b) && b.content() == board.content() && b.spec_cursor()
                == board.spec_cursor() && b.spec_message() == board.spec_message() && b.spec_grid()
                == board.spec_grid() && b.spec_update_all() == board.spec_update_all(),
            match info {
                Some(i) => {
                    let (bp, ip, iw, ih) = placement(
                        board.spec_width(),
                        board.spec_height(),
                        i.spec_size(),
                        i.spec_layout(),
                    );
                    &&& final(self).spec_board()->0.spec_position() == bp
                    &&& final(self).spec_info() matches Some(fi) && fi.spec_position() == ip
                        && fi.spec_width() == iw && fi.spec_height() == ih && fi.spec_lines()
                        == i.spec_lines()
                },
                None => final(self).spec_board()->0.spec_position() == Position(1, 1)
                    && final(self).spec_info() is None,
            },
            final(self).spec_resume_key() == old(self).spec_resume_key(),
    {
        let mut board = board;
        let mut info = info;
        GameCore::layout(&mut board, &mut info);
        self.board = Some(board);
        self.info = info;
        self.state = GameState::Initialized;
    }

    /// Text of the whole screen: the board's border and cells, then the
    /// information area's frame and lines. The border is drawn once: by the
    /// board's own repaint when that is a full one.
    pub fn initial_screen(&mut self) -> (r: String)
        requires
            old(self).wf(),
            old(self).spec_board() is Some,
        ensures
            final(self).wf(),
            final(self).spec_board() matches Some(b) && b.after_repaint(&old(self).spec_board()->0),
            final(self).spec_info() == old(self).spec_info(),
            final(self).spec_state() == old(self).spec_state(),
            final(self).spec_resume_key() == old(self).spec_resume_key(),
            r@ == old(self).spec_board()->0.extra_border() + or_empty(
                old(self).spec_board()->0.repaint_text(),
            ) + match old(self).spec_info() {
                Some(i) => frame_text(
                    i.spec_position().0 as u16,
                    i.spec_position().1 as nat,
                    i.spec_width(),
                    i.spec_height(),
                ) + or_empty(i.updates_text()),
                None => Seq::empty(),
            },
    {
        let mut res = String::new();
        match &mut self.board {
            Some(board) => {
                if !board.redraws_border() {
                    let b = board.get_border();
                    res.append(b.as_str());
                }
                if let Some(u) = board.get_updates() {
                    res.append(u.as_str());
                }
            },
            None => {},
        }
        match &self.info {
            Some(info) => {
                let b = info.get_border();
                res.append(b.as_str());
                if let Some(u) = info.get_updates() {
                    res.append(u.as_str());
                }
            },
            None => {},
        }
        assert(res@ =~= old(self).spec_board()->0.extra_border() + or_empty(
            old(self).spec_board()->0.repaint_text(),
        ) + match old(self).spec_info() {
            Some(i) => frame_text(
                i.spec_position().0 as u16,
                i.spec_position().1 as nat,
                i.spec_width(),
                i.spec_height(),
            ) + or_empty(i.updates_text()),
            None => Seq::empty(),
        });
        res
    }

    /// Text that brings the screen up to date: the board's repaint, then
    /// the information area's lines. Empty when nothing is to be written.
    pub fn screen_updates(&mut self) -> (r: String)
        requires
            old(self).wf(),
        ensures
            final(self).wf(),
            match old(self).spec_board() {
                Some(b) => final(self).spec_board() matches Some(fb) && fb.after_repaint(&b),
                None => final(self).spec_board() is None,
            },
            final(self).spec_info() == old(self).spec_info(),
            final(self).spec_state() == old(self).spec_state(),
            final(self).spec_resume_key() == old(self).spec_resume_key(),
            r@ == match old(self).spec_board() {
                Some(b) => or_empty(b.repaint_text()),
                None => Seq::empty(),
            } + match old(self).spec_info() {
                Some(i) => or_empty(i.updates_text()),
                None => Seq::empty(),
            },
    {
        let mut res = String::new();
        match &mut self.board {
            Some(board) => {
                if let Some(u) = board.get_updates() {
                    res.append(u.as_str());
                }
            },
            None => {},
        }
        match &self.info {
            Some(info) => {
                if let Some(u) = info.get_updates() {
                    res.append(u.as_str());
                }
            },
            None => {},
        }
        assert(res@ =~= match old(self).spec_board() {
            Some(b) => or_empty(b.repaint_text()),
            None => Seq::empty(),
        } + match old(self).spec_info() {
            Some(i) => or_empty(i.updates_text()),
            None => Seq::empty(),
        });
        res
    }

    /// Starts handling key presses.
    pub fn start(&mut self)
        requires
            old(self).spec_state() == GameState::Initialized || old(self).spec_state()
                == GameState::Stopped,
            old(self).wf(),
        ensures
            final(self).wf(),
            final(self).spec_state() == GameState::Started,
            final(self).spec_board() == old(self).spec_board(),
            final(self).spec_info() == old(self).spec_info(),
            final(self).spec_resume_key() == old(self).spec_resume_key(),
    {
        self.state = GameState::Started;
    }

    /// Stops handling key presses.
    pub fn stop(&mut self)
        requires
            old(self).spec_state() == GameState::Started,
            old(self).wf(),
        ensures
            final(self).wf(),
            final(self).spec_state() == GameState::Stopped,
            final(self).spec_board() == old(self).spec_board(),
            final(self).spec_info() == old(self).spec_info(),
            final(self).spec_resume_key() == old(self).spec_resume_key(),
    {
        self.state = GameState::Stopped;
    }

    /// Ignores key presses until `resume_key` is pressed; that key still
    /// goes to the key handler, which is to call `resume`.
    pub fn pause(&mut self, resume_key: Key)
        requires
            old(self).spec_state() == GameState::Started,
            old(self).wf(),
        ensures
            final(self).wf(),
            final(self).spec_state() == GameState::Paused,
            final(self).spec_resume_key() == Some(resume_key),
            final(self).spec_board() == old(self).spec_board(),
            final(self).spec_info() == old(self).spec_info(),
    {
        self.resume_key = Some(resume_key);
        self.state = GameState::Paused;
    }

    /// Handles key presses again.
    pub fn resume(&mut self)
        requires
            old(self).spec_state() == GameState::Paused,
            old(self).wf(),
        ensures
            final(self).wf(),
            final(self).spec_state() == GameState::Started,
            final(self).spec_resume_key() is None,
            final(self).spec_board() == old(self).spec_board(),
            final(self).spec_info() == old(self).spec_info(),
    {
        self.resume_key = None;
        self.state = GameState::Started;
    }

    /// Decides what a key press leads to: while paused only the resume key
    /// goes to the handler; while started the cursor sees the key first.
    pub fn on_key(&mut self, key: Key) -> (r: KeyAction)
        requires
            old(self).wf(),
        ensures
            final(self).wf(),
            final(self).spec_state() == old(self).spec_state(),
            final(self).spec_info() == old(self).spec_info(),
            final(self).spec_resume_key() == old(self).spec_resume_key(),
            old(self).spec_state() != GameState::Started ==> *final(self) == *old(self),
            r == if old(self).spec_state() == GameState::Paused {
                if old(self).spec_resume_key() == Some(key) {
                    KeyAction::Handle(key)
                } else {
                    KeyAction::Ignore
                }
            } else if old(self).spec_state() == GameState::Started {
                match old(self).spec_board() {
                    Some(b) => match b.spec_cursor() {
                        Some(c) => match c.key_result(key, b.spec_columns(), b.spec_rows()) {
                            KeyHandleResult::NotHandled => KeyAction::Handle(key),
                            KeyHandleResult::Consumed => KeyAction::Ignore,
                            KeyHandleResult::NewPosition(p) => KeyAction::CursorMoved(p),
                        },
                        None => KeyAction::Handle(key),
                    },
                    None => KeyAction::Ignore,
                }
            } else {
                KeyAction::Ignore
            },
            match old(self).spec_board() {
                Some(b) => final(self).spec_board() matches Some(fb) && fb.content() == b.content()
                    && fb.spec_message() == b.spec_message(),
                None => final(self).spec_board() is None,
            },
    {
        if self.state == GameState::Paused {
            if self.resume_key == Some(key) {
                KeyAction::Handle(key)
            } else {
                KeyAction::Ignore
            }
        } else if self.state == GameState::Started {
            match &mut self.board {
                Some(board) => match board.handle_key(key) {
                    KeyHandleResult::NotHandled => KeyAction::Handle(key),
                    KeyHandleResult::Consumed => KeyAction::Ignore,
                    KeyHandleResult::NewPosition(p) => KeyAction::CursorMoved(p),
                },
                None => KeyAction::Ignore,
            }
        } else {
            KeyAction::Ignore
        }
    }

    /// Whether `update_cells` accepts these updates now.
    pub fn accepts_updates(&self, updates: &CellUpdates) -> (r: bool)
        requires
            self.wf(),
        ensures
            r == match self.spec_board() {
                Some(b) => {
                    &&& b.spec_message() is None
                    &&& updates_in_grid(updates_view(updates@), b.spec_columns(), b.spec_rows())
                    &&& forall|j: int|
                        0 <= j < updates@.len() ==> renderable(
                            #[trigger] updates_view(updates@)[j].0,
                            b.spec_resources(),
                        )
                },
                None => true,
            },
    {
        match &self.board {
            Some(b) => b.accepts_updates(updates),
            None => true,
        }
    }

    /// Whether `show_message` accepts a dialog now: the board, if any, is
    /// at least 8 characters wide and high.
    pub fn accepts_message(&self) -> (r: bool)
        requires
            self.wf(),
        ensures
            r == match self.spec_board() {
                Some(b) => b.spec_width() >= 8 && b.spec_height() >= 8,
                None => true,
            },
    {
        match &self.board {
            Some(b) => b.get_width() >= 8 && b.get_height() >= 8,
            None => true,
        }
    }

    /// Writes cell updates to the board, if there is one.
    pub fn update_cells(&mut self, updates: CellUpdates)
        requires
            old(self).wf(),
            match old(self).spec_board() {
                Some(b) => {
                    &&& b.spec_message() is None
                    &&& updates_in_grid(updates_view(updates@), b.spec_columns(), b.spec_rows())
                    &&& forall|j: int|
                        0 <= j < updates@.len() ==> renderable(
                            #[trigger] updates_view(updates@)[j].0,
                            b.spec_resources(),
                        )
                },
                None => true,
            },
        ensures
            final(self).wf(),
            final(self).spec_state() == old(self).spec_state(),
            final(self).spec_info() == old(self).spec_info(),
            final(self).spec_resume_key() == old(self).spec_resume_key(),
            match old(self).spec_board() {
                Some(b) => final(self).spec_board() matches Some(fb) && fb.content() == apply_updates(
                    b.content(),
                    updates_view(updates@),
                    b.spec_columns(),
                ),
                None => final(self).spec_board() is None,
            },
    {
        match &mut self.board {
            Some(board) => board.update_cells(updates),
            None => {},
        }
    }

    /// Opens the message dialog on the board, if there is one.
    pub fn show_message(&mut self, lines: &[&str])
        requires
            old(self).wf(),
            lines@.len() > 0,
            match old(self).spec_board() {
                Some(b) => b.spec_width() >= 8 && b.spec_height() >= 8,
                None => true,
            },
        ensures
            final(self).wf(),
            final(self).spec_state() == old(self).spec_state(),
            final(self).spec_info() == old(self).spec_info(),
            final(self).spec_resume_key() == old(self).spec_resume_key(),
            match old(self).spec_board() {
                Some(b) => final(self).spec_board() matches Some(fb) && fb.spec_message() == Some(
                    lines@.map_values(|l: &str| l@),
                ) && fb.content() == b.content(),
                None => final(self).spec_board() is None,
            },
    {
        match &mut self.board {
            Some(board) => board.show_message(lines),
            None => {},
        }
    }

    /// Closes the message dialog, if there is a board.
    pub fn hide_message(&mut self)
        requires
            old(self).wf(),
        ensures
            final(self).wf(),
            final(self).spec_state() == old(self).spec_state(),
            final(self).spec_info() == old(self).spec_info(),
            final(self).spec_resume_key() == old(self).spec_resume_key(),
            match old(self).spec_board() {
                Some(b) => final(self).spec_board() matches Some(fb) && fb.spec_message() is None
                    && fb.content() == b.content(),
                None => final(self).spec_board() is None,
            },
    {
        match &mut self.board {
            Some(board) => board.hide_message(),
            None => {},
        }
    }
}

} // verus!
