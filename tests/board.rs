use gameboard::{Board, Cell, CellGrid, Cursor, Key, KeyHandleResult, Position, Rgb};

fn goto(x: u16, y: u16) -> String {
    format!("\x1b[{};{}H", y, x)
}

const RESET: &str = "\x1b[m";
const BLUE_BG: &str = "\x1b[48;2;0;0;200m";

fn blue_cursor(pos: Position, wrap: bool) -> Cursor {
    Cursor::new(Rgb(0, 0, 200), pos, wrap, None)
}

#[test]
fn geometry_with_and_without_inner_borders() {
    let b = Board::new(3, 2, 4, 2, true, None);
    assert_eq!(b.get_width(), 3 * 4 + 2 + 2);
    assert_eq!(b.get_height(), 2 * 2 + 2 + 1);
    let b = Board::new(3, 2, 4, 2, false, None);
    assert_eq!(b.get_width(), 14);
    assert_eq!(b.get_height(), 6);
}

#[test]
fn border_glyphs() {
    let b = Board::new(2, 2, 1, 1, true, None);
    let expected = [
        (goto(1, 1), "╔═╤═╗"),
        (goto(1, 2), "║ │ ║"),
        (goto(1, 3), "╟─┼─╢"),
        (goto(1, 4), "║ │ ║"),
        (goto(1, 5), "╚═╧═╝"),
    ]
    .iter()
    .map(|(g, r)| format!("{}{}", g, r))
    .collect::<String>();
    assert_eq!(b.get_border(), expected);
}

#[test]
fn repaint_then_nothing_to_draw() {
    let mut b = Board::new(2, 1, 1, 1, false, None);
    b.init_from_str("ab", None);
    assert_eq!(b.get_updates().unwrap(), format!("{}{}a{}{}b{}", b.get_border(), goto(2, 2), RESET, goto(3, 2), RESET));
    assert!(b.get_updates().is_none());
    assert!(b.get_updates().is_none());
}

#[test]
fn unit_cells_match_general_layout() {
    let mut fast = Board::new(2, 2, 1, 1, false, None);
    let cells = vec![Cell::Char('a'), Cell::Empty, Cell::Content(String::from("\x1b[1mzq")), Cell::Char('d')];
    fast.init_from_vec(&cells, None);
    let out = fast.get_updates().unwrap();
    assert_eq!(
        out,
        format!(
            "{}{}a{}{} {}{}\x1b[1mz{}{}d{}",
            fast.get_border(),
            goto(2, 2),
            RESET,
            goto(3, 2),
            RESET,
            goto(2, 3),
            RESET,
            goto(3, 3),
            RESET
        )
    );
}

#[test]
fn end_to_end_single_update() {
    let mut b = Board::new(3, 3, 1, 1, false, None);
    b.init_from_str("---------", None);
    assert!(b.get_updates().is_some());
    b.update_cells(vec![(Cell::Char('X'), Position(1, 1))]);
    assert_eq!(b.get_updates().unwrap(), format!("{}X{}", goto(3, 3), RESET));
    assert!(b.get_updates().is_none());
}

#[test]
fn updates_with_inner_borders_are_placed_between_lines() {
    let mut b = Board::new(2, 2, 1, 1, true, None);
    b.init_from_str("abcd", None);
    b.get_updates();
    b.update_cells(vec![(Cell::Char('Z'), Position(1, 1))]);
    assert_eq!(b.get_updates().unwrap(), format!("{}Z{}", goto(4, 4), RESET));
}

#[test]
fn dialog_takes_over_until_hidden() {
    let mut b = Board::new(10, 10, 1, 1, false, None);
    b.init_from_str(&".".repeat(100), None);
    b.get_updates();
    b.show_message(&["Hi"]);
    let dialog = format!(
        "{}╔════╗{}║    ║{}║ Hi ║{}║    ║{}╚════╝",
        goto(4, 4),
        goto(4, 5),
        goto(4, 6),
        goto(4, 7),
        goto(4, 8)
    );
    assert_eq!(b.get_updates().unwrap(), dialog);
    assert_eq!(b.get_updates().unwrap(), dialog);
    b.hide_message();
    let full = b.get_updates().unwrap();
    let mut expected = b.get_border();
    for row in 0..10u16 {
        for col in 0..10u16 {
            expected.push_str(&format!("{}.{}", goto(2 + col, 2 + row), RESET));
        }
    }
    assert_eq!(full, expected);
    assert!(b.get_updates().is_none());
}

#[test]
fn dialog_alignment_markers() {
    let mut b = Board::new(10, 10, 1, 1, false, None);
    b.init_from_str(&".".repeat(100), None);
    b.show_message(&["|^|ab", "x", "|>|r"]);
    let expected = format!(
        "{}╔══════╗{}║      ║{}║  ab  ║{}║ x    ║{}║    r ║{}║      ║{}╚══════╝",
        goto(3, 3),
        goto(3, 4),
        goto(3, 5),
        goto(3, 6),
        goto(3, 7),
        goto(3, 8),
        goto(3, 9)
    );
    assert_eq!(b.get_updates().unwrap(), expected);
}

#[test]
fn cursor_highlight_and_wraparound() {
    let mut b = Board::new(3, 3, 1, 1, false, None);
    b.init_from_str("abcdefghi", Some(blue_cursor(Position(0, 0), true)));
    let first = b.get_updates().unwrap();
    assert!(first.starts_with(&format!("{}{}{}a{}{}b{}", b.get_border(), goto(2, 2), BLUE_BG, RESET, goto(3, 2), RESET)));
    assert_eq!(b.handle_key(Key::Left), KeyHandleResult::NewPosition(Position(2, 0)));
    assert_eq!(b.get_updates().unwrap(), format!("{}a{}{}{}c{}", goto(2, 2), RESET, goto(4, 2), BLUE_BG, RESET));
    assert_eq!(b.handle_key(Key::Char('x')), KeyHandleResult::NotHandled);
    assert_eq!(b.handle_key(Key::Char('s')), KeyHandleResult::NewPosition(Position(2, 1)));
    assert_eq!(b.handle_key(Key::Up), KeyHandleResult::NewPosition(Position(2, 0)));
    assert_eq!(b.handle_key(Key::Up), KeyHandleResult::NewPosition(Position(2, 2)));
}

#[test]
fn cursor_without_wraparound_is_consumed_at_edge() {
    let mut b = Board::new(3, 3, 1, 1, false, None);
    b.init_from_str("abcdefghi", Some(blue_cursor(Position(0, 0), false)));
    b.get_updates();
    assert_eq!(b.handle_key(Key::Left), KeyHandleResult::Consumed);
    assert_eq!(b.handle_key(Key::Up), KeyHandleResult::Consumed);
    assert!(b.get_updates().is_none());
    assert_eq!(b.handle_key(Key::Right), KeyHandleResult::NewPosition(Position(1, 0)));
}

#[test]
fn board_without_cursor_handles_no_key() {
    let mut b = Board::new(2, 2, 1, 1, false, None);
    b.init_from_str("abcd", None);
    assert_eq!(b.handle_key(Key::Left), KeyHandleResult::NotHandled);
}

#[test]
fn update_under_cursor_keeps_highlight() {
    let mut b = Board::new(2, 1, 1, 1, false, None);
    b.init_from_str("ab", Some(blue_cursor(Position(0, 0), true)));
    b.get_updates();
    b.update_cells(vec![(Cell::Char('z'), Position(0, 0))]);
    assert_eq!(b.get_updates().unwrap(), format!("{}{}z{}", goto(2, 2), BLUE_BG, RESET));
    assert_eq!(b.handle_key(Key::Right), KeyHandleResult::NewPosition(Position(1, 0)));
    assert_eq!(b.get_updates().unwrap(), format!("{}z{}{}{}b{}", goto(2, 2), RESET, goto(3, 2), BLUE_BG, RESET));
}

#[test]
fn custom_key_bindings() {
    let mut b = Board::new(3, 1, 1, 1, false, None);
    let cursor = Cursor::new(
        Rgb(1, 2, 3),
        Position(1, 0),
        false,
        Some(vec![(Key::Char('h'), gameboard::Direction::Left), (Key::Char('l'), gameboard::Direction::Right)]),
    );
    b.init_from_str("abc", Some(cursor));
    assert_eq!(b.handle_key(Key::Left), KeyHandleResult::NotHandled);
    assert_eq!(b.handle_key(Key::Char('h')), KeyHandleResult::NewPosition(Position(0, 0)));
    assert_eq!(b.handle_key(Key::Char('h')), KeyHandleResult::Consumed);
}

#[test]
fn exactly_one_cell_highlighted_after_moves() {
    let mut grid = CellGrid::new(3, 2, 1, 1);
    grid.init_from_str("abcdef");
    let mut cursor = blue_cursor(Position(1, 1), true);
    cursor.init(2, 3, &mut grid, &None);
    for key in [Key::Left, Key::Left, Key::Up, Key::Char('d'), Key::Down, Key::Right] {
        cursor.handle_key(key, &mut grid, &None);
        grid.update_cells(&vec![(Cell::Char('Q'), Position(0, 0))]);
        cursor.check_updates(&vec![(Cell::Char('Q'), Position(0, 0))], &mut grid, &None);
    }
    let lit: Vec<usize> = grid
        .iter()
        .iter()
        .enumerate()
        .filter(|(_, c)| matches!(c, Cell::Content(s) if s.starts_with(BLUE_BG)))
        .map(|(i, _)| i)
        .collect();
    assert_eq!(lit.len(), 1);
}

#[test]
fn reinitializing_keeps_the_cursor() {
    let mut b = Board::new(2, 1, 1, 1, false, None);
    b.init_from_str("ab", Some(blue_cursor(Position(1, 0), false)));
    b.get_updates();
    b.init_from_str("xy", None);
    let out = b.get_updates().unwrap();
    assert_eq!(out, format!("{}{}x{}{}{}y{}", b.get_border(), goto(2, 2), RESET, goto(3, 2), BLUE_BG, RESET));
    assert_eq!(b.handle_key(Key::Left), KeyHandleResult::NewPosition(Position(0, 0)));
}

#[test]
fn initialization_checks() {
    let b = Board::new(2, 1, 1, 1, false, None);
    assert!(b.accepts_cells(&vec![Cell::Empty, Cell::Char('a')], &None));
    assert!(!b.accepts_cells(&vec![Cell::Empty], &None));
    assert!(!b.accepts_cells(&vec![Cell::Empty, Cell::ResourceId(0)], &None));
    assert!(!b.accepts_cells(&vec![Cell::Empty, Cell::Empty], &Some(blue_cursor(Position(2, 0), true))));
    assert!(b.accepts_str("ab", &Some(blue_cursor(Position(1, 0), true))));
    assert!(!b.accepts_str("abc", &None));
    let wide = Board::new(2, 1, 2, 1, false, None);
    assert!(!wide.accepts_str("ab", &None));
}

#[test]
fn sparse_repaint_draws_each_dirty_cell_once() {
    let mut b = Board::new(3, 1, 1, 1, false, None);
    b.init_from_str("abc", None);
    b.get_updates();
    b.update_cells(vec![(Cell::Char('x'), Position(2, 0)), (Cell::Char('y'), Position(0, 0)), (Cell::Char('z'), Position(2, 0))]);
    assert_eq!(b.get_updates().unwrap(), format!("{}z{}{}y{}", goto(4, 2), RESET, goto(2, 2), RESET));
    assert!(!b.accepts_updates(&vec![(Cell::Char('q'), Position(3, 0))]));
    assert!(!b.has_message());
}

#[test]
fn dialog_rows_count_clusters() {
    let mut b = Board::new(10, 10, 1, 1, false, None);
    b.init_from_str(&".".repeat(100), None);
    b.show_message(&["e\u{301}"]);
    let expected = format!(
        "{}╔═══╗{}║   ║{}║ e\u{301} ║{}║   ║{}╚═══╝",
        goto(4, 4),
        goto(4, 5),
        goto(4, 6),
        goto(4, 7),
        goto(4, 8)
    );
    assert_eq!(b.get_updates().unwrap(), expected);
}

#[test]
fn size_checks() {
    assert!(Board::accepts_size(3, 3, 10, 5, true));
    assert!(!Board::accepts_size(0, 3, 1, 1, false));
    assert!(!Board::accepts_size(3, 3, 30000, 1, false));
    assert!(!Board::accepts_size(usize::MAX, 2, 0, 0, false));
    assert!(Board::accepts_size(65533, 1, 1, 1, false));
    assert!(!Board::accepts_size(65534, 1, 1, 1, false));
}
