use vstd::prelude::*;
use crate::board::{BOARD_SIZE, BOARD_WIDTH, board_full, column_full, gravity, has_win, placed};
use crate::game::{
    Action, GameModel, Player, State, Tile, initial, lemma_initial_valid, lemma_place_step_valid,
    other, place_step, step, valid,
};

verus! {

/// The game after drop requests into `columns`, in order.
pub open spec fn play(m: GameModel, columns: Seq<int>) -> GameModel
    decreases columns.len(),
{
    if columns.len() == 0 {
        m
    } else {
        play(place_step(m, columns[0]), columns.drop_first())
    }
}

/// Each drop of `columns` names a column of the grid, and each one made
/// while the match is in progress goes into a column that is not full.
pub open spec fn all_accepted(m: GameModel, columns: Seq<int>) -> bool
    decreases columns.len(),
{
    if columns.len() == 0 {
        true
    } else {
        &&& 0 <= columns[0] < BOARD_WIDTH
        &&& (m.state is Turn ==> !column_full(m.board, columns[0]))
        &&& all_accepted(place_step(m, columns[0]), columns.drop_first())
    }
}

/// The player to move after `n` accepted drops in a match that `p` opened.
pub open spec fn nth_player(p: Player, n: nat) -> Player {
    if n % 2 == 0 {
        p
    } else {
        other(p)
    }
}

/// Every sequence of drops from a fresh match keeps the game reachable:
/// in particular, no column ever holds a floating tile.
pub proof fn lemma_play_valid(m: GameModel, columns: Seq<int>)
    requires
        valid(m),
        forall|i: int| 0 <= i < columns.len() ==> 0 <= #[trigger] columns[i] < BOARD_WIDTH,
    ensures
        valid(play(m, columns)),
        gravity(play(m, columns).board),
    decreases columns.len(),
{
    if columns.len() > 0 {
        lemma_place_step_valid(m, columns[0]);
        let rest = columns.drop_first();
        assert forall|i: int| 0 <= i < rest.len() implies 0 <= #[trigger] rest[i] < BOARD_WIDTH by {
            assert(rest[i] == columns[i + 1]);
        }
        lemma_play_valid(place_step(m, columns[0]), rest);
    }
}

/// Drop requests leave a finished match as it is.
pub proof fn lemma_play_finished(m: GameModel, columns: Seq<int>)
    requires
        !(m.state is Turn),
    ensures
        play(m, columns) == m,
    decreases columns.len(),
{
    if columns.len() > 0 {
        lemma_play_finished(place_step(m, columns[0]), columns.drop_first());
    }
}

/// While a match that `p` opened is in progress, the turn passes from one
/// player to the other with every accepted drop.
pub proof fn lemma_turns_alternate(m: GameModel, p: Player, columns: Seq<int>)
    requires
        m.state == State::Turn(p),
        all_accepted(m, columns),
        play(m, columns).state is Turn,
    ensures
        play(m, columns).state == State::Turn(nth_player(p, columns.len())),
    decreases columns.len(),
{
    if columns.len() > 0 {
        let m1 = place_step(m, columns[0]);
        let rest = columns.drop_first();
        if m1.state is Turn {
            assert(m1.state == State::Turn(other(p)));
            lemma_turns_alternate(m1, other(p), rest);
            assert(nth_player(other(p), rest.len()) == nth_player(p, columns.len())) by {
                assert(other(other(p)) == p);
            }
        } else {
            lemma_play_finished(m1, rest);
        }
    }
}

/// A drop into a full column, or into a finished match, changes nothing.
pub proof fn lemma_rejected_drop(m: GameModel, column: int)
    requires
        !(m.state is Turn) || column_full(m.board, column),
    ensures
        place_step(m, column) == m,
{
}

/// A drop that fills the last cell and also makes four in a row is a win,
/// not a tie.
pub proof fn lemma_win_before_tie(m: GameModel, p: Player, column: int)
    requires
        m.state == State::Turn(p),
        !column_full(m.board, column),
        board_full(placed(m.board, column, p)),
        has_win(placed(m.board, column, p), p),
    ensures
        place_step(m, column).state == State::Win(p),
{
}

/// A restart from any game gives an empty grid with the chosen player to move.
pub proof fn lemma_restart(m: GameModel, p: Player)
    ensures
        step(m, Action::Restart(p)) == initial(p),
        step(m, Action::Restart(p)).state == State::Turn(p),
        step(m, Action::Restart(p)).board.len() == BOARD_SIZE,
        forall|i: int| 0 <= i < BOARD_SIZE ==> #[trigger] step(m, Action::Restart(p)).board[i] == Tile::Empty,
        valid(step(m, Action::Restart(p))),
{
    lemma_initial_valid(p);
}

} // verus!
