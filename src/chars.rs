//! Box-drawing glyphs for borders.

use vstd::prelude::*;

verus! {

pub const DOUBLE_BORDER_HOR_LINE: char = '═';

pub const DOUBLE_BORDER_VERT_LINE: char = '║';

pub const DOUBLE_BORDER_TOP_LEFT: char = '╔';

pub const DOUBLE_BORDER_TOP_RIGHT: char = '╗';

pub const DOUBLE_BORDER_BOTTOM_LEFT: char = '╚';

pub const DOUBLE_BORDER_BOTTOM_RIGHT: char = '╝';

pub const DOUBLE_BORDER_JOIN_LEFT: char = '╟';

pub const DOUBLE_BORDER_JOIN_RIGHT: char = '╢';

pub const DOUBLE_BORDER_JOIN_UP: char = '╤';

pub const DOUBLE_BORDER_JOIN_DOWN: char = '╧';

pub const SINGLE_BORDER_HOR_LINE: char = '─';

pub const SINGLE_BORDER_VERT_LINE: char = '│';

pub const SINGLE_BORDER_CROSS: char = '┼';

} // verus!
