//! Information area: a bordered panel of text lines beside the board.

use vstd::prelude::*;
use vstd::string::StringExecFns;
use crate::align::{fit, fit_line, Align};
use crate::cell::{push_repeat, repeat};
use crate::chars::{
    DOUBLE_BORDER_BOTTOM_LEFT, DOUBLE_BORDER_BOTTOM_RIGHT, DOUBLE_BORDER_HOR_LINE,
    DOUBLE_BORDER_TOP_LEFT, DOUBLE_BORDER_TOP_RIGHT, DOUBLE_BORDER_VERT_LINE,
};
use crate::game::Position;
use crate::term::{goto, goto_text, push_char};

verus! {

/// Where the information area stands relative to the board.
#[derive(Clone, Copy, PartialEq, Eq, Structural, Debug)]
pub enum InfoLayout {
    /// Left of the board.
    Left,
    /// Right of the board.
    Right,
    /// Above the board.
    Top,
    /// Below the board.
    Bottom,
}

/// The first `n` inner rows of a `w` wide frame at (`x`, `y`): the left
/// and right border of each, then the move to the next row.
pub open spec fn frame_sides(x: u16, y: nat, w: nat, n: nat) -> Seq<char>
    decreases n,
{
    if n == 0 {
        Seq::empty()
    } else {
        frame_sides(x, y, w, (n - 1) as nat) + seq![DOUBLE_BORDER_VERT_LINE] + goto_text(
            (x + w - 1) as u16,
            (y + n) as u16,
        ) + seq![DOUBLE_BORDER_VERT_LINE] + goto_text(x, (y + n + 1) as u16)
    }
}

/// A `w`×`h` double frame with its top left corner at (`x`, `y`).
pub open spec fn frame_text(x: u16, y: nat, w: nat, h: nat) -> Seq<char> {
    goto_text(x, y as u16) + seq![DOUBLE_BORDER_TOP_LEFT] + repeat(DOUBLE_BORDER_HOR_LINE, (w - 2) as nat)
        + seq![DOUBLE_BORDER_TOP_RIGHT] + goto_text(x, (y + 1) as u16) + frame_sides(
        x,
        y,
        w,
        (h - 2) as nat,
    ) + seq![DOUBLE_BORDER_BOTTOM_LEFT] + repeat(DOUBLE_BORDER_HOR_LINE, (w - 2) as nat) + seq![
        DOUBLE_BORDER_BOTTOM_RIGHT,
    ]
}

/// The first `n` text rows of an area whose text starts at (`x`, `y`) and
/// is `tw` wide: each line fitted, missing lines blank.
pub open spec fn info_rows(lines: Seq<Seq<char>>, x: u16, y: nat, tw: nat, n: nat) -> Seq<char>
    decreases n,
{
    if n == 0 {
        Seq::empty()
    } else {
        info_rows(lines, x, y, tw, (n - 1) as nat) + goto_text(x, (y + n - 1) as u16) + if n - 1
            < lines.len() {
            fit(lines[n - 1], tw, Align::Left)
        } else {
            repeat(' ', tw)
        }
    }
}

/// Information area.
pub struct Info {
    /// Top left corner on screen.
    position: Position,
    /// Total width in characters, borders included.
    width: usize,
    /// Total height in characters, borders included.
    height: usize,
    /// Size across the board's side, borders included.
    size: usize,
    layout: InfoLayout,
    lines: Vec<String>,
}

impl Info {
    pub closed spec fn spec_position(&self) -> Position {
        self.position
    }

    pub closed spec fn spec_width(&self) -> nat {
        self.width as nat
    }

    pub closed spec fn spec_height(&self) -> nat {
        self.height as nat
    }

    pub closed spec fn spec_size(&self) -> nat {
        self.size as nat
    }

    pub closed spec fn spec_layout(&self) -> InfoLayout {
        self.layout
    }

    pub closed spec fn spec_lines(&self) -> Seq<Seq<char>> {
        self.lines@.map_values(|s: String| s@)
    }

    /// The area is placed so that its frame fits on the screen.
    pub open spec fn placed(&self) -> bool {
        &&& self.spec_width() >= 2
        &&& self.spec_height() >= 2
        &&& self.spec_position().0 + self.spec_width() <= u16::MAX + 1
        &&& self.spec_position().1 + self.spec_height() <= u16::MAX + 1
    }

    /// Creates an information area `size` characters across the board's
    /// side (borders not counted), placed as `layout` says, showing `lines`.
    /// Lines that do not fit are cut; lines beyond the height are dropped.
    pub fn new(size: usize, layout: InfoLayout, lines: &[&str]) -> (r: Self)
        requires
            size + 2 <= usize::MAX,
        ensures
            r.spec_size() == size + 2,
            r.spec_layout() == layout,
            r.spec_lines() == lines@.map_values(|l: &str| l@),
            r.spec_position() == Position(1, 1),
            r.spec_width() == 1,
            r.spec_height() == 1,
    {
        let v = Info::copy_lines(lines);
        Info { position: Position(1, 1), width: 1, height: 1, size: size + 2, layout, lines: v }
    }

    /// The lines as owned strings.
    fn copy_lines(lines: &[&str]) -> (r: Vec<String>)
        ensures
            r@.map_values(|s: String| s@) == lines@.map_values(|l: &str| l@),
    {
        let mut v: Vec<String> = Vec::new();
        let mut i: usize = 0;
        while i < lines.len()
            invariant
                i <= lines@.len(),
                v@.len() == i,
                forall|j: int| 0 <= j < i ==> #[trigger] v@[j]@ == lines@[j]@,
            decreases lines@.len() - i,
        {
            v.push(String::from_str(lines[i]));
            i = i + 1;
        }
        assert(v@.map_values(|s: String| s@) =~= lines@.map_values(|l: &str| l@));
        v
    }

    /// Size across the board's side, borders included.
    pub fn get_size(&self) -> (r: usize)
        ensures
            r == self.spec_size(),
    {
        self.size
    }

    /// Where the area stands relative to the board.
    pub fn get_layout(&self) -> (r: InfoLayout)
        ensures
            r == self.spec_layout(),
    {
        self.layout
    }

    /// Places the area on screen with the given total size.
    pub fn set_position_and_size(&mut self, pos: Position, w: usize, h: usize)
        ensures
            final(self).spec_position() == pos,
            final(self).spec_width() == w,
            final(self).spec_height() == h,
            final(self).spec_size() == old(self).spec_size(),
            final(self).spec_layout() == old(self).spec_layout(),
            final(self).spec_lines() == old(self).spec_lines(),
    {
        self.position = pos;
        self.width = w;
        self.height = h;
    }

    /// Replaces the lines shown.
    pub fn update(&mut self, lines: &[&str])
        ensures
            final(self).spec_lines() == lines@.map_values(|l: &str| l@),
            final(self).spec_position() == old(self).spec_position(),
            final(self).spec_width() == old(self).spec_width(),
            final(self).spec_height() == old(self).spec_height(),
            final(self).spec_size() == old(self).spec_size(),
            final(self).spec_layout() == old(self).spec_layout(),
    {
        self.lines = Info::copy_lines(lines);
    }

    /// Draws the frame of the area.
    pub fn get_border(&self) -> (r: String)
        requires
            self.placed(),
        ensures
            r@ == frame_text(
                self.spec_position().0 as u16,
                self.spec_position().1 as nat,
                self.spec_width(),
                self.spec_height(),
            ),
    {
        let x = self.position.0 as u16;
        let y = self.position.1;
        let mut res = goto(x, y as u16);
        push_char(&mut res, DOUBLE_BORDER_TOP_LEFT);
        push_repeat(&mut res, DOUBLE_BORDER_HOR_LINE, self.width - 2);
        push_char(&mut res, DOUBLE_BORDER_TOP_RIGHT);
        let g = goto(x, (y + 1) as u16);
        res.append(g.as_str());
        let ghost head = res@;
        let mut k: usize = 0;
        while k < self.height - 2
            invariant
                self.placed(),
                x == self.spec_position().0 as u16,
                y == self.spec_position().1,
                k <= self.height - 2,
                res@ == head + frame_sides(x, y as nat, self.width as nat, k as nat),
            decreases self.height - 2 - k,
        {
            push_char(&mut res, DOUBLE_BORDER_VERT_LINE);
            let right = goto((self.position.0 + self.width - 1) as u16, (y + k + 1) as u16);
            res.append(right.as_str());
            push_char(&mut res, DOUBLE_BORDER_VERT_LINE);
            let next = goto(x, (y + k + 2) as u16);
            res.append(next.as_str());
            k = k + 1;
            assert(res@ =~= head + frame_sides(x, y as nat, self.width as nat, k as nat));
        }
        push_char(&mut res, DOUBLE_BORDER_BOTTOM_LEFT);
        push_repeat(&mut res, DOUBLE_BORDER_HOR_LINE, self.width - 2);
        push_char(&mut res, DOUBLE_BORDER_BOTTOM_RIGHT);
        assert(res@ =~= frame_text(x, y as nat, self.width as nat, self.height as nat));
        res
    }

    /// The area's text, or `None` when it has no lines.
    pub open spec fn updates_text(&self) -> Option<Seq<char>> {
        if self.spec_lines().len() == 0 {
            None
        } else {
            Some(
                info_rows(
                    self.spec_lines(),
                    (self.spec_position().0 + 1) as u16,
                    (self.spec_position().1 + 1) as nat,
                    (self.spec_width() - 2) as nat,
                    (self.spec_height() - 2) as nat,
                ),
            )
        }
    }

    /// Draws the lines inside the frame, each fitted to the inner width;
    /// `None` when there are no lines.
    pub fn get_updates(&self) -> (r: Option<String>)
        requires
            self.placed(),
        ensures
            match r {
                Some(s) => self.updates_text() == Some(s@),
                None => self.updates_text() is None,
            },
    {
        let n = self.lines.len();
        if n == 0 {
            return None;
        }
        let ghost lines = self.spec_lines();
        let x = (self.position.0 + 1) as u16;
        let y = self.position.1 + 1;
        let text_width = self.width - 2;
        let mut res = String::new();
        let mut i: usize = 0;
        while i < self.height - 2
            invariant
                self.placed(),
                lines == self.spec_lines(),
                n == lines.len(),
                x == (self.spec_position().0 + 1) as u16,
                y == self.spec_position().1 + 1,
                text_width == self.spec_width() - 2,
                i <= self.height - 2,
                res@ == info_rows(lines, x, y as nat, text_width as nat, i as nat),
            decreases self.height - 2 - i,
        {
            let g = goto(x, (y + i) as u16);
            res.append(g.as_str());
            if i < n {
                let s = fit_line(self.lines[i].as_str(), text_width, Align::Left);
                res.append(s.as_str());
                assert(lines[i as int] == self.lines@[i as int]@);
            } else {
                push_repeat(&mut res, ' ', text_width);
            }
            i = i + 1;
            assert(res@ =~= info_rows(lines, x, y as nat, text_width as nat, i as nat));
        }
        Some(res)
    }
}

} // verus!
