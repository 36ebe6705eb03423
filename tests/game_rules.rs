use connect_four::board::{get, Board, BOARD_HEIGHT, BOARD_SIZE, BOARD_WIDTH};
use connect_four::game::{Action, Column, Game, Player, State, Tile};
use connect_four::randomizer::Randomizer;

const TIE_GAME: [usize; 42] = [
    5, 4, 5, 0, 6, 2, 4, 5, 5, 0, 4, 1, 1, 0, 4, 5, 6, 5, 3, 1, 1, 2, 2, 6, 2, 6, 6, 3, 6, 2, 0,
    3, 0, 3, 3, 4, 3, 1, 4, 2, 1, 0,
];

const LAST_MOVE_WINS: [usize; 42] = [
    4, 6, 0, 2, 6, 5, 1, 2, 5, 2, 3, 4, 1, 1, 4, 0, 3, 5, 5, 6, 2, 4, 3, 0, 1, 3, 1, 5, 0, 1, 3,
    0, 2, 6, 2, 4, 3, 0, 4, 6, 6, 5,
];

fn place(game: &mut Game, column: usize) {
    game.handle_action(&Action::PlaceTile(Column::new(column)));
}

fn play(first: Player, columns: &[usize]) -> Game {
    let mut game = Game::new(&first);
    for &c in columns {
        place(&mut game, c);
    }
    game
}

fn tile(board: &Board, row: usize, column: usize) -> Tile {
    board[row * BOARD_WIDTH + column]
}

fn p1() -> Tile {
    Tile::Full(Player::Player1)
}

fn p2() -> Tile {
    Tile::Full(Player::Player2)
}

fn count_tiles(board: &Board) -> usize {
    board.iter().filter(|t| **t != Tile::Empty).count()
}

fn columns_without_gaps(board: &Board) -> bool {
    for column in 0..BOARD_WIDTH {
        let mut seen_empty = false;
        for row in 0..BOARD_HEIGHT {
            match tile(board, row, column) {
                Tile::Empty => seen_empty = true,
                Tile::Full(_) => {
                    if seen_empty {
                        return false;
                    }
                }
            }
        }
    }
    true
}

struct Fixed(i32);

impl Randomizer for Fixed {
    fn random_value(&mut self, _min: i32, _max: i32) -> i32 {
        self.0
    }
}

#[test]
fn new_game_is_empty_with_first_player_to_move() {
    for p in [Player::Player1, Player::Player2] {
        let game = Game::new(&p);
        assert_eq!(*game.state(), State::Turn(p));
        assert_eq!(game.board().len(), BOARD_SIZE);
        assert!(game.board().iter().all(|t| *t == Tile::Empty));
    }
}

#[test]
fn tile_lands_at_the_bottom_and_stacks() {
    let game = play(Player::Player1, &[3, 3, 3]);
    assert_eq!(tile(game.board(), 0, 3), p1());
    assert_eq!(tile(game.board(), 1, 3), p2());
    assert_eq!(tile(game.board(), 2, 3), p1());
    assert_eq!(tile(game.board(), 3, 3), Tile::Empty);
    assert_eq!(count_tiles(game.board()), 3);
}

#[test]
fn columns_never_hold_floating_tiles() {
    let mut game = Game::new(&Player::Player1);
    for (i, &c) in TIE_GAME.iter().enumerate() {
        place(&mut game, c);
        assert!(columns_without_gaps(game.board()));
        assert_eq!(count_tiles(game.board()), i + 1);
    }
}

#[test]
fn turns_alternate_from_the_first_player() {
    for first in [Player::Player1, Player::Player2] {
        let mut game = Game::new(&first);
        let mut expected = first;
        for &c in &TIE_GAME[..20] {
            assert_eq!(*game.state(), State::Turn(expected));
            let row = (0..BOARD_HEIGHT).find(|&r| tile(game.board(), r, c) == Tile::Empty).unwrap();
            place(&mut game, c);
            assert_eq!(tile(game.board(), row, c), Tile::Full(expected));
            expected = expected.other();
        }
        assert_eq!(*game.state(), State::Turn(expected));
    }
}

#[test]
fn bottom_row_four_wins_for_player_one() {
    let game = play(Player::Player1, &[0, 0, 1, 1, 2, 2]);
    assert_eq!(*game.state(), State::Turn(Player::Player1));
    let game = play(Player::Player1, &[0, 0, 1, 1, 2, 2, 3]);
    assert_eq!(*game.state(), State::Win(Player::Player1));
    for c in 0..4 {
        assert_eq!(tile(game.board(), 0, c), p1());
    }
    for c in 0..3 {
        assert_eq!(tile(game.board(), 1, c), p2());
    }
}

#[test]
fn vertical_four_wins() {
    let game = play(Player::Player1, &[0, 1, 0, 1, 0, 1]);
    assert_eq!(*game.state(), State::Turn(Player::Player1));
    let game = play(Player::Player1, &[0, 1, 0, 1, 0, 1, 0]);
    assert_eq!(*game.state(), State::Win(Player::Player1));
}

#[test]
fn rising_diagonal_wins() {
    let game = play(Player::Player1, &[0, 1, 1, 2, 2, 3, 2, 3, 3, 6, 3]);
    assert_eq!(*game.state(), State::Win(Player::Player1));
    assert_eq!(tile(game.board(), 0, 0), p1());
    assert_eq!(tile(game.board(), 1, 1), p1());
    assert_eq!(tile(game.board(), 2, 2), p1());
    assert_eq!(tile(game.board(), 3, 3), p1());
}

#[test]
fn falling_diagonal_wins() {
    let game = play(Player::Player1, &[3, 2, 2, 1, 1, 0, 1, 0, 0, 6, 0]);
    assert_eq!(*game.state(), State::Win(Player::Player1));
    assert_eq!(tile(game.board(), 0, 3), p1());
    assert_eq!(tile(game.board(), 3, 0), p1());
}

#[test]
fn three_in_a_row_is_no_win() {
    let game = play(Player::Player2, &[0, 6, 1, 6, 2, 5]);
    assert_eq!(*game.state(), State::Turn(Player::Player2));
}

#[test]
fn second_player_can_win() {
    let game = play(Player::Player1, &[6, 0, 6, 1, 5, 2, 4, 3]);
    assert_eq!(*game.state(), State::Win(Player::Player2));
}

#[test]
fn full_board_without_line_is_a_tie() {
    let game = play(Player::Player1, &TIE_GAME[..41]);
    assert_eq!(*game.state(), State::Turn(Player::Player2));
    let game = play(Player::Player1, &TIE_GAME);
    assert_eq!(*game.state(), State::Tie);
    assert_eq!(count_tiles(game.board()), BOARD_SIZE);
}

#[test]
fn last_cell_with_a_line_is_a_win_not_a_tie() {
    let game = play(Player::Player1, &LAST_MOVE_WINS[..41]);
    assert_eq!(*game.state(), State::Turn(Player::Player2));
    let game = play(Player::Player1, &LAST_MOVE_WINS);
    assert_eq!(count_tiles(game.board()), BOARD_SIZE);
    assert_eq!(*game.state(), State::Win(Player::Player2));
}

#[test]
fn drop_into_full_column_changes_nothing() {
    let mut game = play(Player::Player1, &[0, 0, 0, 0, 0, 0]);
    assert!(game.column_is_full(&Column::new(0)));
    assert!(!game.column_is_full(&Column::new(1)));
    let board_before = *game.board();
    let state_before = *game.state();
    assert_eq!(state_before, State::Turn(Player::Player1));
    place(&mut game, 0);
    assert_eq!(*game.board(), board_before);
    assert_eq!(*game.state(), state_before);
    place(&mut game, 0);
    assert_eq!(*game.board(), board_before);
    assert_eq!(*game.state(), state_before);
}

#[test]
fn drop_after_win_changes_nothing() {
    let mut game = play(Player::Player1, &[0, 0, 1, 1, 2, 2, 3]);
    let board_before = *game.board();
    place(&mut game, 4);
    place(&mut game, 6);
    assert_eq!(*game.board(), board_before);
    assert_eq!(*game.state(), State::Win(Player::Player1));
}

#[test]
fn drop_after_tie_changes_nothing() {
    let mut game = play(Player::Player1, &TIE_GAME);
    let board_before = *game.board();
    place(&mut game, 0);
    assert_eq!(*game.board(), board_before);
    assert_eq!(*game.state(), State::Tie);
}

#[test]
fn restart_resets_from_any_state() {
    let in_progress = play(Player::Player1, &[0, 1, 2]);
    let won = play(Player::Player1, &[0, 0, 1, 1, 2, 2, 3]);
    let tied = play(Player::Player1, &TIE_GAME);
    for mut game in [in_progress, won, tied] {
        for p in [Player::Player2, Player::Player1] {
            game.handle_action(&Action::Restart(p));
            assert_eq!(*game.state(), State::Turn(p));
            assert!(game.board().iter().all(|t| *t == Tile::Empty));
            place(&mut game, 5);
            assert_eq!(tile(game.board(), 0, 5), Tile::Full(p));
        }
    }
}

#[test]
fn column_index_must_be_on_the_grid() {
    assert!(Column::try_new(BOARD_WIDTH).is_none());
    assert!(Column::try_new(usize::MAX).is_none());
    assert_eq!(Column::try_new(6).map(|c| c.index()), Some(6));
    assert_eq!(Column::new(0).index(), 0);
}

#[test]
fn column_is_full_only_when_every_cell_is_taken() {
    let mut game = Game::new(&Player::Player1);
    for i in 0..BOARD_HEIGHT {
        assert!(!game.column_is_full(&Column::new(2)));
        place(&mut game, 2);
        assert_eq!(count_tiles(game.board()), i + 1);
    }
    assert!(game.column_is_full(&Column::new(2)));
}

#[test]
fn get_reads_cells_and_is_empty_off_the_grid() {
    let game = play(Player::Player1, &[6, 6]);
    assert_eq!(get(game.board(), 0, 6), p1());
    assert_eq!(get(game.board(), 1, 6), p2());
    assert_eq!(get(game.board(), 2, 6), Tile::Empty);
    assert_eq!(get(game.board(), 0, BOARD_WIDTH), Tile::Empty);
    assert_eq!(get(game.board(), BOARD_HEIGHT, 0), Tile::Empty);
    assert_eq!(get(game.board(), usize::MAX, usize::MAX), Tile::Empty);
}

#[test]
fn player_names() {
    assert_eq!(Player::Player1.as_str(), "Player 1");
    assert_eq!(Player::Player2.as_str(), "Player 2");
    assert_eq!(Player::Player1.other(), Player::Player2);
    assert_eq!(Player::Player2.other(), Player::Player1);
}

#[test]
fn random_player_follows_the_draw() {
    assert_eq!(Player::from_random_value(0), Player::Player1);
    assert_eq!(Player::from_random_value(1), Player::Player2);
    assert_eq!(Player::random(&mut Fixed(0)), Player::Player1);
    assert_eq!(Player::random(&mut Fixed(1)), Player::Player2);
}
