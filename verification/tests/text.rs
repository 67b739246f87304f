use four_in_a_row::Board;
use four_in_a_row::Cell;
use four_in_a_row::GRID_H;
use four_in_a_row::GRID_W;
use four_in_a_row::render::default_xoe;
use four_in_a_row::render::hovered_xoe;
use four_in_a_row::step::Key;
use four_in_a_row::step::StepResult;

fn fresh() -> Board {
    Board::new((GRID_W, GRID_H))
}

#[test]
fn render_fresh_board_shows_turn_cursor_and_empty_grid() {
    let board = fresh();
    let plain_row = "⬜️⬜️⬜️⬜️⬜️\r\n";
    let cursor_row = "⬜️⬜️🔲⬜️⬜️\r\n";
    let expected = format!(
        "❌'s turn!\r\n{}{}{}{}{}",
        plain_row, plain_row, cursor_row, plain_row, plain_row
    );
    assert_eq!(board.render(), expected);
}

#[test]
fn render_shows_placed_tiles_and_other_player() {
    let mut board = fresh();
    assert_eq!(board.step(Key::Place), StepResult::Placed);
    let plain_row = "⬜️⬜️⬜️⬜️⬜️\r\n";
    let placed_row = "⬜️⬜️✖️ ⬜️⬜️\r\n";
    let expected = format!(
        "⭕️'s turn!\r\n{}{}{}{}{}",
        plain_row, plain_row, placed_row, plain_row, plain_row
    );
    assert_eq!(board.render(), expected);
}

#[test]
fn render_shows_occupied_title_until_cleared() {
    let mut board = fresh();
    assert_eq!(board.step(Key::Place), StepResult::Placed);
    assert_eq!(board.step(Key::Place), StepResult::Occupied);
    let rendered = board.render();
    assert!(rendered.starts_with("Occupied by ❌\r\n"));
    board.clear_title();
    assert!(board.render().starts_with("⭕️'s turn!\r\n"));
}

#[test]
fn cell_display_picks_by_kind() {
    let default_table = default_xoe();
    let hovered_table = hovered_xoe();
    assert_eq!(Cell::X.display(default_table.as_slice()), "❌");
    assert_eq!(Cell::O.display(default_table.as_slice()), "⭕️");
    assert_eq!(Cell::Empty.display(default_table.as_slice()), "⬜️");
    assert_eq!(Cell::X.display(hovered_table.as_slice()), "✖️ ");
    assert_eq!(Cell::O.display(hovered_table.as_slice()), "🔘");
    assert_eq!(Cell::Empty.display(hovered_table.as_slice()), "🔲");
}

#[test]
fn get_display_string_handles_missing_cell() {
    let table = default_xoe();
    assert_eq!(Cell::get_display_string(None, table.as_slice()), " ");
    let cell = Cell::O;
    assert_eq!(Cell::get_display_string(Some(&cell), table.as_slice()), "⭕️");
}

#[test]
fn parse_input_reads_two_coordinates() {
    let mut board = fresh();
    assert_eq!(board.parse_input(&String::from("3 4")), Some((3, 4)));
    assert_eq!(board.parse_input(&String::from("  7 \t 1  ")), Some((7, 1)));
    assert_eq!(board.parse_input(&String::from("0 0 trailing words")), Some((0, 0)));
    assert_eq!(board.parse_input(&String::from("+5 +0")), Some((5, 0)));
}

#[test]
fn parse_input_trims_unicode_whitespace_at_the_ends() {
    let mut board = fresh();
    assert_eq!(board.parse_input(&String::from("\u{a0}1 2")), Some((1, 2)));
    assert_eq!(board.parse_input(&String::from("1 2\u{a0}")), Some((1, 2)));
    assert_eq!(
        board.parse_input(&String::from("\u{2003}\u{a0}3 4\u{2028}")),
        Some((3, 4))
    );
    assert_eq!(board.parse_input(&String::from("\u{a0}\u{2000}")), None);
    assert_eq!(board.parse_input(&String::from("1\u{a0}2")), None);
    assert_eq!(board.parse_input(&String::from("1\u{a0}2 3")), None);
}

#[test]
fn cell_display_accepts_a_longer_table() {
    let mut table = four_in_a_row::render::default_xoe();
    table.push("extra");
    assert_eq!(Cell::X.display(table.as_slice()), "❌");
    assert_eq!(Cell::Empty.display(table.as_slice()), "⬜️");
    assert_eq!(Cell::get_display_string(None, table.as_slice()), " ");
}

#[test]
fn parse_input_rejects_bad_tokens() {
    let mut board = fresh();
    assert_eq!(board.parse_input(&String::from("")), None);
    assert_eq!(board.parse_input(&String::from("   ")), None);
    assert_eq!(board.parse_input(&String::from("5")), None);
    assert_eq!(board.parse_input(&String::from("a 1")), None);
    assert_eq!(board.parse_input(&String::from("1 b")), None);
    assert_eq!(board.parse_input(&String::from("12a 3")), None);
    assert_eq!(board.parse_input(&String::from("-1 2")), None);
    assert_eq!(board.parse_input(&String::from("+ 2")), None);
    assert_eq!(
        board.parse_input(&String::from("99999999999999999999999999 1")),
        None
    );
}
