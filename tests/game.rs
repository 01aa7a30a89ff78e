use gameboard::{Board, Cell, Cursor, GameCore, GameState, Info, InfoLayout, Key, KeyAction, Position, Rgb};

fn goto(x: u16, y: u16) -> String {
    format!("\x1b[{};{}H", y, x)
}

#[test]
fn life_cycle() {
    let mut game = GameCore::new();
    assert_eq!(game.get_state(), GameState::Created);
    let mut board = Board::new(2, 2, 1, 1, false, None);
    board.init_from_str("abcd", None);
    game.init(board, None);
    assert_eq!(game.get_state(), GameState::Initialized);
    game.start();
    assert_eq!(game.get_state(), GameState::Started);
    game.pause(Key::Char('p'));
    assert_eq!(game.get_state(), GameState::Paused);
    assert_eq!(game.on_key(Key::Char('q')), KeyAction::Ignore);
    assert_eq!(game.on_key(Key::Char('p')), KeyAction::Handle(Key::Char('p')));
    game.resume();
    assert_eq!(game.get_state(), GameState::Started);
    assert_eq!(game.on_key(Key::Char('q')), KeyAction::Handle(Key::Char('q')));
    game.stop();
    assert_eq!(game.get_state(), GameState::Stopped);
    assert_eq!(game.on_key(Key::Char('q')), KeyAction::Ignore);
    game.start();
    assert_eq!(game.get_state(), GameState::Started);
}

#[test]
fn cursor_keys_go_to_the_cursor_first() {
    let mut game = GameCore::new();
    let mut board = Board::new(2, 1, 1, 1, false, None);
    board.init_from_str("ab", Some(Cursor::new(Rgb(9, 9, 9), Position(0, 0), false, None)));
    game.init(board, None);
    game.start();
    assert_eq!(game.on_key(Key::Right), KeyAction::CursorMoved(Position(1, 0)));
    assert_eq!(game.on_key(Key::Right), KeyAction::Ignore);
    assert_eq!(game.on_key(Key::Char('q')), KeyAction::Handle(Key::Char('q')));
}

#[test]
fn layout_puts_info_beside_board() {
    let mut game = GameCore::new();
    let mut board = Board::new(3, 3, 1, 1, false, None);
    board.init_from_str("abcdefghi", None);
    let info = Info::new(5, InfoLayout::Right, &["hello"]);
    game.init(board, Some(info));
    let screen = game.initial_screen();
    let info_frame = format!(
        "{}╔═════╗{}║{}║{}║{}║{}║{}║{}╚═════╝",
        goto(6, 1),
        goto(6, 2),
        goto(12, 2),
        goto(6, 3),
        goto(12, 3),
        goto(6, 4),
        goto(12, 4),
        goto(6, 5)
    );
    let info_text = format!("{}hello{}     {}     ", goto(7, 2), goto(7, 3), goto(7, 4));
    assert!(screen.ends_with(&format!("{}{}", info_frame, info_text)));
    assert!(screen.starts_with(&format!("{}╔═══╗", goto(1, 1))));
    assert_eq!(game.screen_updates(), info_text);
}

#[test]
fn layout_info_above_board() {
    let mut game = GameCore::new();
    let mut board = Board::new(2, 2, 1, 1, false, None);
    board.init_from_str("abcd", None);
    game.init(board, Some(Info::new(2, InfoLayout::Top, &[])));
    let screen = game.initial_screen();
    assert!(screen.starts_with(&format!("{}╔══╗", goto(1, 5))));
    assert!(screen.contains(&format!("{}a\x1b[m{}b\x1b[m", goto(2, 6), goto(3, 6))));
    assert_eq!(screen.matches('╔').count(), 2);
    assert_eq!(game.screen_updates(), "");
}

#[test]
fn info_lines_are_cut_and_padded() {
    let mut info = Info::new(3, InfoLayout::Left, &["abcdef", "x"]);
    assert_eq!(info.get_size(), 5);
    assert_eq!(info.get_layout(), InfoLayout::Left);
    info.set_position_and_size(Position(1, 1), 5, 5);
    assert_eq!(info.get_updates().unwrap(), format!("{}abc{}x  {}   ", goto(2, 2), goto(2, 3), goto(2, 4)));
    info.update(&["a\u{308}"]);
    assert_eq!(info.get_updates().unwrap(), format!("{}a\u{308}  {}   {}   ", goto(2, 2), goto(2, 3), goto(2, 4)));
    info.update(&[]);
    assert!(info.get_updates().is_none());
}

#[test]
fn game_forwards_updates_and_dialog() {
    let mut game = GameCore::new();
    let mut board = Board::new(8, 8, 1, 1, false, None);
    board.init_from_str(&"-".repeat(64), None);
    game.init(board, None);
    let screen = game.initial_screen();
    assert_eq!(screen.matches('╔').count(), 1);
    game.update_cells(vec![(Cell::Char('X'), Position(0, 0))]);
    assert_eq!(game.screen_updates(), format!("{}X\x1b[m", goto(2, 2)));
    game.show_message(&["ok"]);
    assert!(game.screen_updates().contains("║ ok ║"));
    game.hide_message();
    assert!(game.screen_updates().starts_with(&format!("{}╔", goto(1, 1))));
    assert_eq!(game.screen_updates(), "");
}
