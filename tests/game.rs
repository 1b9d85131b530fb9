use tictactoe::game::{Game, MoveError, Player, TurnResult};

const PLUS: i32 = 1;
const MINUS: i32 = -1;

fn board_of(cells: [[i32; 3]; 3]) -> Game {
    let mut game = Game::new(true);
    for x in 0..3 {
        for y in 0..3 {
            if cells[x][y] != 0 {
                assert_eq!(game.choose_field(x, y, &cells[x][y]), Ok(()));
            }
        }
    }
    game
}

#[test]
fn new_game_is_empty_and_undecided() {
    let game = Game::new(true);
    for x in 0..3 {
        for y in 0..3 {
            assert_eq!(game.cell(x, y), 0);
        }
    }
    assert!(!game.won);
    assert!(!game.tie);
    assert!(game.player_one_start);
    assert!(!Game::new(false).player_one_start);
}

#[test]
fn place_on_empty_cell_then_again() {
    let mut game = Game::new(true);
    assert_eq!(game.choose_field(2, 1, &MINUS), Ok(()));
    assert_eq!(game.cell(2, 1), MINUS);
    assert_eq!(game.choose_field(2, 1, &MINUS), Err(MoveError::CellOccupied));
    assert_eq!(game.choose_field(2, 1, &PLUS), Err(MoveError::CellOccupied));
    assert_eq!(game.cell(2, 1), MINUS);
}

#[test]
fn place_twice_on_origin() {
    let mut game = Game::new(true);
    assert_eq!(game.choose_field(0, 0, &PLUS), Ok(()));
    assert_eq!(game.choose_field(0, 0, &PLUS), Err(MoveError::CellOccupied));
    assert_eq!(game.cell(0, 0), PLUS);
}

#[test]
fn marker_other_than_plus_counts_as_minus() {
    let mut game = Game::new(true);
    assert_eq!(game.choose_field(1, 1, &7), Ok(()));
    assert_eq!(game.cell(1, 1), MINUS);
    assert_eq!(game.choose_field(0, 1, &0), Ok(()));
    assert_eq!(game.cell(0, 1), MINUS);
}

#[test]
fn other_marker_values_are_evaluated_as_minus() {
    // A row summing to 1 is no win, whatever value the mover's marker has.
    let mut game = board_of([[1, 0, 0], [0, 0, 0], [0, 0, 0]]);
    game.check_winner(&3);
    assert!(!game.won);
    // A full row of minus is a win for a mover whose marker is not 1.
    let mut game = board_of([[0, 0, 0], [-1, -1, -1], [0, 0, 0]]);
    game.check_winner(&7);
    assert!(game.won);
}

#[test]
fn top_row_of_plus_wins() {
    let mut game = board_of([[1, 1, 1], [0, 0, 0], [0, 0, 0]]);
    game.check_winner(&PLUS);
    assert!(game.won);
    assert!(!game.tie);
}

#[test]
fn middle_column_wins() {
    let mut game = board_of([[0, -1, 0], [0, -1, 0], [1, -1, 1]]);
    game.check_winner(&MINUS);
    assert!(game.won);
}

#[test]
fn main_diagonal_of_minus_wins_for_either_marker() {
    let cells = [[-1, 0, 0], [0, -1, 0], [0, 0, -1]];
    let mut game = board_of(cells);
    game.check_winner(&MINUS);
    assert!(game.won);
    let mut game = board_of(cells);
    game.check_winner(&PLUS);
    assert!(game.won);
}

#[test]
fn anti_diagonal_wins_for_either_marker() {
    let cells = [[0, 0, -1], [0, -1, 1], [-1, 1, 0]];
    let mut game = board_of(cells);
    game.check_winner(&PLUS);
    assert!(game.won);
    assert!(!game.tie);
    let mut game = board_of([[0, 0, 1], [0, 1, 0], [1, 0, 0]]);
    game.check_winner(&MINUS);
    assert!(game.won);
}

#[test]
fn only_the_anti_diagonal_is_read_from_the_reflection() {
    let mut game = board_of([[1, 0, 0], [0, 1, 0], [0, 0, -1]]);
    game.check_winner(&PLUS);
    assert!(!game.won);
    let mut game = board_of([[-1, 0, 1], [0, 1, 0], [0, 0, -1]]);
    game.check_winner(&PLUS);
    assert!(!game.won);
}

#[test]
fn drawn_board_is_a_tie() {
    let mut game = board_of([[1, -1, 1], [1, -1, -1], [-1, 1, 1]]);
    game.check_winner(&PLUS);
    assert!(game.tie);
    assert!(!game.won);
    let mut game = board_of([[1, -1, 1], [1, -1, -1], [-1, 1, 1]]);
    game.check_winner(&MINUS);
    assert!(game.tie);
    assert!(!game.won);
}

#[test]
fn full_board_with_a_line_is_won_and_tied() {
    let mut game = board_of([[1, 1, 1], [-1, -1, 1], [1, -1, -1]]);
    game.check_winner(&PLUS);
    assert!(game.won);
    assert!(game.tie);
}

#[test]
fn open_lines_give_no_outcome() {
    for cells in [
        [[0, 0, 0], [0, 0, 0], [0, 0, 0]],
        [[1, -1, 0], [-1, 0, 1], [0, 1, -1]],
        [[1, 1, 0], [-1, -1, 0], [0, 0, 0]],
        [[-1, 1, 0], [1, 0, 1], [0, 1, -1]],
    ] {
        for marker in [PLUS, MINUS] {
            let mut game = board_of(cells);
            game.check_winner(&marker);
            assert!(!game.won);
            assert!(!game.tie);
        }
    }
}

#[test]
fn flags_are_never_cleared() {
    let mut game = board_of([[1, 1, 1], [0, 0, 0], [0, 0, 0]]);
    game.check_winner(&PLUS);
    assert!(game.won);
    game.won = true;
    game.tie = true;
    game.check_winner(&PLUS);
    assert!(game.won);
    assert!(game.tie);
}

#[test]
fn scenario_top_row_for_plus() {
    let mut game = Game::new(true);
    assert_eq!(game.choose_field(0, 0, &PLUS), Ok(()));
    assert_eq!(game.choose_field(1, 1, &MINUS), Ok(()));
    assert_eq!(game.choose_field(0, 1, &PLUS), Ok(()));
    assert_eq!(game.choose_field(2, 2, &MINUS), Ok(()));
    assert_eq!(game.choose_field(0, 2, &PLUS), Ok(()));
    for y in 0..3 {
        assert_eq!(game.cell(0, y), PLUS);
    }
    game.check_winner(&PLUS);
    assert!(game.won);
}

#[test]
fn int_converter_symbols() {
    assert_eq!(Game::int_converter(1), "x");
    assert_eq!(Game::int_converter(-1), "o");
    assert_eq!(Game::int_converter(0), " ");
    assert_eq!(Game::int_converter(5), " ");
}

#[test]
fn render_empty_board() {
    let game = Game::new(true);
    assert_eq!(
        game.render(),
        " |0|1|2|\n--------\n0| | | |\n--------\n1| | | |\n--------\n2| | | |\n--------\n\n"
    );
}

#[test]
fn render_marked_board() {
    let game = board_of([[1, 0, -1], [0, -1, 0], [1, 1, 0]]);
    assert_eq!(
        game.render(),
        " |0|1|2|\n--------\n0|x| |o|\n--------\n1| |o| |\n--------\n2|x|x| |\n--------\n\n"
    );
}

#[test]
fn play_turn_results() {
    let mut game = Game::new(true);
    assert_eq!(game.play_turn(0, 0, &PLUS), TurnResult::Continue);
    assert_eq!(game.play_turn(0, 0, &MINUS), TurnResult::Occupied);
    assert_eq!(game.cell(0, 0), PLUS);
    assert_eq!(game.play_turn(1, 0, &MINUS), TurnResult::Continue);
    assert_eq!(game.play_turn(0, 1, &PLUS), TurnResult::Continue);
    assert_eq!(game.play_turn(1, 1, &MINUS), TurnResult::Continue);
    assert_eq!(game.play_turn(0, 2, &PLUS), TurnResult::Won);
    assert!(game.won);
}

#[test]
fn play_turn_tie() {
    let mut game = board_of([[1, -1, 1], [1, -1, -1], [-1, 1, 0]]);
    assert_eq!(game.play_turn(2, 2, &PLUS), TurnResult::Tie);
    assert!(game.tie);
    assert!(!game.won);
}

#[test]
fn player_new_keeps_fields() {
    let p = Player::new(String::from("Player 1"), 1);
    assert_eq!(p.name, "Player 1");
    assert_eq!(p.marker, 1);
}
