use gameboard::align::{cluster_count, fit_clusters, fit_line, Align};
use gameboard::cell::layout_clusters;
use gameboard::{Board, Cell, CellGrid, Position, ResourceTable};

fn goto(x: u16, y: u16) -> String {
    format!("\x1b[{};{}H", y, x)
}

const RESET: &str = "\x1b[m";

#[test]
fn grid_iterates_in_input_order() {
    let mut grid = CellGrid::new(2, 2, 1, 1);
    let cells = vec![Cell::Char('a'), Cell::Empty, Cell::ResourceId(3), Cell::Content(String::from("x"))];
    grid.init_from_vec(&cells);
    let listed = grid.iter();
    assert_eq!(listed.len(), 4);
    assert!(matches!(listed[0], Cell::Char('a')));
    assert!(matches!(listed[1], Cell::Empty));
    assert!(matches!(listed[2], Cell::ResourceId(3)));
    assert!(matches!(&listed[3], Cell::Content(s) if s == "x"));
}

#[test]
fn grid_dirty_tracking() {
    let mut grid = CellGrid::new(3, 2, 1, 1);
    assert!(grid.need_update_all());
    assert!(grid.has_updates());
    grid.update_complete();
    assert!(!grid.has_updates());
    grid.update_cells(&vec![(Cell::Char('a'), Position(2, 1)), (Cell::Char('b'), Position(2, 1))]);
    assert!(grid.has_updates());
    assert!(!grid.need_update_all());
    assert_eq!(grid.updated_iter(), vec![5]);
    assert!(matches!(grid.iter()[5], Cell::Char('b')));
    grid.update_complete();
    assert!(!grid.has_updates());
    assert!(grid.updated_iter().is_empty());
    grid.update_complete();
    assert!(!grid.has_updates());
}

#[test]
fn grid_init_from_str() {
    let mut grid = CellGrid::new(2, 1, 1, 1);
    grid.init_from_str("xo");
    assert!(matches!(grid.iter()[0], Cell::Char('x')));
    assert!(matches!(grid.iter()[1], Cell::Char('o')));
    assert_eq!(grid.get_cell_pos(Position(1, 0)), 1);
}

#[test]
fn plain_content_fills_rows() {
    let mut board = Board::new(1, 1, 3, 2, false, None);
    board.init_from_vec(&vec![Cell::Content(String::from("ABCDEF"))], None);
    let out = board.get_updates().unwrap();
    assert_eq!(out, format!("{}{}ABC{}DEF{}", board.get_border(), goto(2, 2), goto(2, 3), RESET));
}

#[test]
fn escape_sequences_take_no_room() {
    let mut board = Board::new(1, 1, 2, 2, false, None);
    board.init_from_vec(&vec![Cell::Content(String::from("\x1b[31mAB\x1b[0mCD"))], None);
    let out = board.get_updates().unwrap();
    assert_eq!(out, format!("{}{}\x1b[31mAB{}\x1b[0mCD{}", board.get_border(), goto(2, 2), goto(2, 3), RESET));
}

#[test]
fn overlong_content_is_truncated() {
    let mut board = Board::new(1, 1, 2, 1, false, None);
    board.init_from_vec(&vec![Cell::Content(String::from("ABCDE"))], None);
    assert_eq!(board.get_updates().unwrap(), format!("{}{}AB{}", board.get_border(), goto(2, 2), RESET));
}

#[test]
fn incomplete_last_row_is_written() {
    let mut board = Board::new(1, 1, 3, 2, false, None);
    board.init_from_vec(&vec![Cell::Content(String::from("ABCDE"))], None);
    assert_eq!(board.get_updates().unwrap(), format!("{}{}ABC{}DE{}", board.get_border(), goto(2, 2), goto(2, 3), RESET));
    let mut board = Board::new(1, 1, 2, 2, false, None);
    board.init_from_vec(&vec![Cell::Content(String::from("ABC"))], None);
    assert_eq!(board.get_updates().unwrap(), format!("{}{}AB{}C{}", board.get_border(), goto(2, 2), goto(2, 3), RESET));
    let mut board = Board::new(1, 1, 3, 1, false, None);
    board.init_from_vec(&vec![Cell::Content(String::from("A"))], None);
    assert_eq!(board.get_updates().unwrap(), format!("{}{}A{}", board.get_border(), goto(2, 2), RESET));
}

#[test]
fn combining_marks_stay_with_their_base() {
    let mut board = Board::new(1, 1, 2, 1, false, None);
    board.init_from_vec(&vec![Cell::Content(String::from("g\u{308}hi"))], None);
    assert_eq!(board.get_updates().unwrap(), format!("{}{}g\u{308}h{}", board.get_border(), goto(2, 2), RESET));
}

#[test]
fn char_and_empty_cells_fill_rectangle() {
    let mut board = Board::new(2, 1, 2, 2, false, None);
    board.init_from_vec(&vec![Cell::Char('#'), Cell::Empty], None);
    let out = board.get_updates().unwrap();
    assert_eq!(
        out,
        format!("{}{}##{}##{}{}  {}  {}", board.get_border(), goto(2, 2), goto(2, 3), RESET, goto(4, 2), goto(4, 3), RESET)
    );
}

#[test]
fn resource_cells_use_table() {
    let mut res = ResourceTable::new();
    res.insert(7, String::from("OX"));
    let mut board = Board::new(1, 1, 2, 1, false, Some(res));
    board.init_from_vec(&vec![Cell::ResourceId(7)], None);
    assert_eq!(board.get_updates().unwrap(), format!("{}{}OX{}", board.get_border(), goto(2, 2), RESET));
}

#[test]
fn layout_of_given_clusters() {
    let clusters: Vec<String> = ["\x1b", "[", "1", "m", "A", "B", "C"].iter().map(|s| s.to_string()).collect();
    assert_eq!(layout_clusters(&clusters, 1, 2, 5, 9), format!("{}\x1b[1mA{}B{}", goto(5, 9), goto(5, 10), RESET));
    assert_eq!(layout_clusters(&clusters, 3, 0, 5, 9), format!("{}{}", goto(5, 9), RESET));
    assert_eq!(layout_clusters(&clusters, 2, 3, 5, 9), format!("{}\x1b[1mAB{}C{}", goto(5, 9), goto(5, 10), RESET));
}

#[test]
fn cluster_counting() {
    assert_eq!(cluster_count(""), 0);
    assert_eq!(cluster_count("abc"), 3);
    assert_eq!(cluster_count("g\u{308}x"), 2);
}

#[test]
fn fitting_lines() {
    assert_eq!(fit_line("ab", 5, Align::Left), "ab   ");
    assert_eq!(fit_line("ab", 5, Align::Right), "   ab");
    assert_eq!(fit_line("ab", 5, Align::Center), " ab  ");
    assert_eq!(fit_line("abcdef", 4, Align::Center), "abcd");
    assert_eq!(fit_line("g\u{308}g\u{308}", 1, Align::Left), "g\u{308}");
    assert_eq!(fit_line("abc", 0, Align::Left), "");
    assert_eq!(fit_line("e\u{301}x", 4, Align::Left), "e\u{301}x  ");
    assert_eq!(fit_line("e\u{301}", 4, Align::Center), " e\u{301}  ");
}

#[test]
fn fitting_given_clusters() {
    let clusters: Vec<String> = ["ab", "c"].iter().map(|s| s.to_string()).collect();
    assert_eq!(fit_clusters("abc", &clusters, 1, Align::Left), "ab");
    assert_eq!(fit_clusters("abc", &clusters, 3, Align::Right), " abc");
    assert_eq!(fit_clusters("abc", &clusters, 5, Align::Right), "   abc");
    assert_eq!(fit_clusters("abc", &clusters, 5, Align::Center), " abc  ");
    assert_eq!(fit_clusters("abc", &clusters, 2, Align::Center), "abc");
}

#[test]
fn formatter_entry_points() {
    let cell = Cell::Content(String::from("\x1b[31mAB\x1b[0mCD"));
    assert_eq!(
        cell.get_content(2, 2, 7, 3, &None),
        format!("{}\x1b[31mAB{}\x1b[0mCD{}", goto(7, 3), goto(7, 4), RESET)
    );
    let lit = Cell::Char('o').with_bg_color(2, 1, &None, gameboard::Rgb(10, 20, 30));
    assert!(matches!(&lit, Cell::Content(s) if s == "\x1b[48;2;10;20;30moo"));
    assert_eq!(lit.get_content(2, 1, 1, 1, &None), format!("{}\x1b[48;2;10;20;30moo{}", goto(1, 1), RESET));
    let mut res = ResourceTable::new();
    res.insert(1, String::from("xy"));
    let lit = Cell::ResourceId(1).with_bg_color(2, 1, &Some(res), gameboard::Rgb(0, 0, 0));
    assert!(matches!(&lit, Cell::Content(s) if s == "\x1b[48;2;0;0;0mxy"));
    assert_eq!(Cell::Empty.get_content(1, 2, 4, 4, &None), format!("{} {} {}", goto(4, 4), goto(4, 5), RESET));
    let lit = Cell::Content(String::from("x")).with_bg_color(3, 1, &None, gameboard::Rgb(1, 1, 1));
    assert_eq!(lit.get_content(3, 1, 2, 2, &None), format!("{}\x1b[48;2;1;1;1mx{}", goto(2, 2), RESET));
}
