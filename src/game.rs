use vstd::prelude::*;
use crate::randomizer::Randomizer;
use crate::board::{
    Board, BOARD_HEIGHT, BOARD_SIZE, BOARD_WIDTH, board_full, cell, column_full, first_empty_from, gravity,
    has_line, has_win, in_bounds, landing_row, lemma_cell, lemma_first_empty, lemma_landing_row,
    lemma_placed_keeps_gravity, lemma_win_kept, line_of_four, placed, tile_at,
};

verus! {

/// A participant in the match.
#[derive(Clone, Copy, PartialEq, Eq, Structural, Debug)]
pub enum Player {
    Player1,
    Player2,
}

/// One cell of the grid.
#[derive(Clone, Copy, PartialEq, Eq, Structural, Debug)]
pub enum Tile {
    Empty,
    Full(Player),
}

/// Where the match stands: whose turn it is, or how it ended.
#[derive(Clone, Copy, PartialEq, Eq, Structural, Debug)]
pub enum State {
    Turn(Player),
    Win(Player),
    Tie,
}

/// What a caller asks the game to do.
#[derive(Debug)]
pub enum Action {
    PlaceTile(Column),
    Restart(Player),
}

/// A column index known to lie on the grid.
#[derive(Clone, Copy, Debug)]
pub struct Column(usize);

impl Column {
    #[verifier::type_invariant]
    spec fn on_grid(self) -> bool {
        self.0 < BOARD_WIDTH
    }

    /// The column at index `i`, which must be on the grid.
    pub fn new(i: usize) -> (c: Column)
        requires
            i < BOARD_WIDTH,
        ensures
            c@ == i,
    {
        Column(i)
    }

    /// The column at index `i`, or `None` when `i` is off the grid.
    pub fn try_new(i: usize) -> (r: Option<Column>)
        ensures
            r is Some <==> i < BOARD_WIDTH,
            r matches Some(c) ==> c@ == i,
    {
        if i < BOARD_WIDTH {
            Some(Column(i))
        } else {
            None
        }
    }

    /// The index of the column.
    pub fn index(&self) -> (i: usize)
        ensures
            i == self@,
            i < BOARD_WIDTH,
    {
        proof {
            use_type_invariant(self);
        }
        self.0
    }
}

impl View for Column {
    type V = int;

    closed spec fn view(&self) -> int {
        self.0 as int
    }
}

/// The player whose turn follows `p`'s.
pub open spec fn other(p: Player) -> Player {
    match p {
        Player::Player1 => Player::Player2,
        Player::Player2 => Player::Player1,
    }
}

/// The name under which `p` is shown.
pub open spec fn label(p: Player) -> Seq<char> {
    match p {
        Player::Player1 => "Player 1"@,
        Player::Player2 => "Player 2"@,
    }
}

impl Player {
    /// The player who moves after this one.
    pub fn other(&self) -> (r: Player)
        ensures
            r == other(*self),
    {
        match self {
            Player::Player1 => Player::Player2,
            Player::Player2 => Player::Player1,
        }
    }

    /// A player picked by `rng`, each of the two being one outcome of a draw
    /// between 0 and 1.
    pub fn random(rng: &mut impl Randomizer) -> (p: Player) {
        Player::from_random_value(rng.random_value(0, 1))
    }

    /// The player that a draw of `v` between 0 and 1 stands for.
    pub fn from_random_value(v: i32) -> (p: Player)
        requires
            0 <= v <= 1,
        ensures
            v == 0 ==> p == Player::Player1,
            v == 1 ==> p == Player::Player2,
    {
        if v == 0 {
            Player::Player1
        } else {
            Player::Player2
        }
    }

    /// The name under which this player is shown.
    pub fn as_str(&self) -> (s: &str)
        ensures
            s@ == label(*self),
    {
        match self {
            Player::Player1 => "Player 1",
            Player::Player2 => "Player 2",
        }
    }
}

/// The four cells of a possible line, as offsets of flat indices from its
/// first cell, and the rows and columns that a first cell may have so that
/// the whole line stays on the grid.
struct WinOrientation {
    offsets: [usize; 4],
    row_start: usize,
    row_end: usize,
    col_start: usize,
    col_end: usize,
}

/// `o` lists the lines of direction `(dr, dc)`: its offsets step by one
/// cell in that direction, and its ranges admit exactly the first cells
/// whose line lies on the grid.
#[verifier::opaque]
spec fn describes(o: WinOrientation, dr: int, dc: int) -> bool {
    &&& o.offsets[0] == 0
    &&& o.offsets[1] == dr * BOARD_WIDTH + dc
    &&& o.offsets[2] == 2 * (dr * BOARD_WIDTH + dc)
    &&& o.offsets[3] == 3 * (dr * BOARD_WIDTH + dc)
    &&& forall|row: int, column: int|
        (o.row_start <= row < o.row_end && o.col_start <= column < o.col_end) <==> (
        #[trigger] in_bounds(row, column) && in_bounds(row + 3 * dr, column + 3 * dc))
}

/// Row step of the `i`-th orientation: horizontal, vertical, and the two diagonals.
spec fn dir_row(i: int) -> int {
    if i == 0 {
        0
    } else {
        1
    }
}

/// Column step of the `i`-th orientation.
spec fn dir_col(i: int) -> int {
    if i == 0 {
        1
    } else if i == 1 {
        0
    } else if i == 2 {
        1
    } else {
        -1
    }
}

/// The game as a value: the tiles and the state.
pub struct GameModel {
    pub board: Seq<Tile>,
    pub state: State,
}

/// A fresh match that `p` opens: an empty grid and `p` to move.
pub open spec fn initial(p: Player) -> GameModel {
    GameModel { board: Seq::new(BOARD_SIZE as nat, |i: int| Tile::Empty), state: State::Turn(p) }
}

/// The state after `p` moved onto board `b`: a win for `p` comes before a
/// full board, and otherwise the turn passes.
pub open spec fn outcome(b: Seq<Tile>, p: Player) -> State {
    if has_win(b, p) {
        State::Win(p)
    } else if board_full(b) {
        State::Tie
    } else {
        State::Turn(other(p))
    }
}

/// The game after a request to drop a tile into `column`: accepted only on
/// someone's turn and into a column that is not full, otherwise nothing changes.
pub open spec fn place_step(m: GameModel, column: int) -> GameModel {
    match m.state {
        State::Turn(p) => if column_full(m.board, column) {
            m
        } else {
            let b = placed(m.board, column, p);
            GameModel { board: b, state: outcome(b, p) }
        },
        _ => m,
    }
}

/// The game after `action`.
pub open spec fn step(m: GameModel, action: Action) -> GameModel {
    match action {
        Action::PlaceTile(c) => place_step(m, c@),
        Action::Restart(p) => initial(p),
    }
}

/// What holds of every game that play can reach: the grid has no floating
/// tile, a game in progress has no line of four and room left, a won game
/// has a line for the winner only, and a tied game is full with no line.
pub open spec fn valid(m: GameModel) -> bool {
    &&& m.board.len() == BOARD_SIZE
    &&& gravity(m.board)
    &&& match m.state {
        State::Turn(_) => !has_win(m.board, Player::Player1) && !has_win(m.board, Player::Player2)
            && !board_full(m.board),
        State::Win(p) => has_win(m.board, p) && !has_win(m.board, other(p)),
        State::Tie => board_full(m.board) && !has_win(m.board, Player::Player1) && !has_win(
            m.board,
            Player::Player2,
        ),
    }
}

/// A match of Connect Four.
pub struct Game {
    board: Board,
    state: State,
    win_orientations: [WinOrientation; 4],
}

impl View for Game {
    type V = GameModel;

    closed spec fn view(&self) -> GameModel {
        GameModel { board: self.board@, state: self.state }
    }
}

impl Game {
    /// The game is in a reachable state and its orientation table is right.
    pub closed spec fn wf(&self) -> bool {
        &&& valid(self@)
        &&& self.table_ok()
    }

    /// The orientation table lists the four directions of a line.
    closed spec fn table_ok(&self) -> bool {
        forall|i: int| 0 <= i < 4 ==> describes(#[trigger] self.win_orientations[i], dir_row(i), dir_col(i))
    }

    /// A fresh match with `first_player` to move.
    pub fn new(first_player: &Player) -> (g: Game)
        ensures
            g.wf(),
            valid(g@),
            g@ == initial(*first_player),
    {
        let horizontal = WinOrientation {
            offsets: [0, 1, 2, 3],
            row_start: 0,
            row_end: BOARD_HEIGHT,
            col_start: 0,
            col_end: BOARD_WIDTH - 3,
        };

        let vertical = WinOrientation {
            offsets: [0, BOARD_WIDTH, BOARD_WIDTH * 2, BOARD_WIDTH * 3],
            row_start: 0,
            row_end: BOARD_HEIGHT - 3,
            col_start: 0,
            col_end: BOARD_WIDTH,
        };

        let diagonal_bottom_left = WinOrientation {
            offsets: [0, BOARD_WIDTH + 1, BOARD_WIDTH * 2 + 2, BOARD_WIDTH * 3 + 3],
            row_start: 0,
            row_end: BOARD_HEIGHT - 3,
            col_start: 0,
            col_end: BOARD_WIDTH - 3,
        };

        let diagonal_bottom_right = WinOrientation {
            offsets: [0, BOARD_WIDTH - 1, BOARD_WIDTH * 2 - 2, BOARD_WIDTH * 3 - 3],
            row_start: 0,
            row_end: BOARD_HEIGHT - 3,
            col_start: 3,
            col_end: BOARD_WIDTH,
        };

        let g = Game {
            board: [Tile::Empty; BOARD_SIZE],
            state: State::Turn(*first_player),
            win_orientations: [horizontal, vertical, diagonal_bottom_left, diagonal_bottom_right],
        };
        proof {
            reveal(describes);
            assert(g.board@ =~= initial(*first_player).board);
            lemma_initial_valid(*first_player);
            assert(describes(g.win_orientations[0], dir_row(0), dir_col(0)));
            assert(describes(g.win_orientations[1], dir_row(1), dir_col(1)));
            assert(describes(g.win_orientations[2], dir_row(2), dir_col(2)));
            assert(describes(g.win_orientations[3], dir_row(3), dir_col(3)));
        }
        g
    }

    /// The grid, read-only.
    pub fn board(&self) -> (b: &Board)
        ensures
            b@ == self@.board,
    {
        &self.board
    }

    /// The current state.
    pub fn state(&self) -> (s: &State)
        ensures
            *s == self@.state,
    {
        &self.state
    }

    /// Whether every cell of `column` is occupied, which on a grid without
    /// floating tiles is whether its top cell is.
    pub fn column_is_full(&self, column: &Column) -> (r: bool)
        requires
            gravity(self@.board),
        ensures
            r == column_full(self@.board, column@),
            r == self@.board[cell(BOARD_HEIGHT - 1, column@)] is Full,
    {
        proof {
            use_type_invariant(column);
        }
        let mut row: usize = 0;
        while row < BOARD_HEIGHT
            invariant
                gravity(self@.board),
                column@ < BOARD_WIDTH,
                row <= BOARD_HEIGHT,
                forall|r: int| 0 <= r < row ==> (#[trigger] self@.board[cell(r, column@)]) is Full,
            decreases BOARD_HEIGHT - row,
        {
            let index = row * BOARD_WIDTH + column.0;
            if let Tile::Empty = self.board[index] {
                proof {
                    if row < BOARD_HEIGHT - 1 {
                        assert(self@.board[cell(row as int, column@)] is Empty);
                        assert(self@.board[cell(BOARD_HEIGHT - 1, column@)] is Empty);
                    }
                }
                return false;
            }
            row += 1;
        }
        true
    }

    /// Drops `player`'s tile into the lowest empty cell of `column`; a full
    /// column is left as it is.
    fn place_tile(&mut self, column: &Column, player: Player)
        ensures
            final(self)@.board == placed(old(self)@.board, column@, player),
            final(self).state == old(self).state,
            final(self).win_orientations == old(self).win_orientations,
    {
        proof {
            use_type_invariant(column);
            lemma_first_empty(self@.board, column@, 0);
        }
        let ghost b = self@.board;
        let mut row: usize = 0;
        while row < BOARD_HEIGHT
            invariant
                self@.board == b,
                b == old(self)@.board,
                self.state == old(self).state,
                self.win_orientations == old(self).win_orientations,
                b.len() == BOARD_SIZE,
                column@ < BOARD_WIDTH,
                row <= BOARD_HEIGHT,
                forall|r: int| 0 <= r < row ==> (#[trigger] b[cell(r, column@)]) is Full,
                landing_row(b, column@) == first_empty_from(b, column@, row as int),
            decreases BOARD_HEIGHT - row,
        {
            let i = row * BOARD_WIDTH + column.0;
            if let Tile::Empty = self.board[i] {
                assert(b[cell(row as int, column@)] is Empty);
                self.board[i] = Tile::Full(player);
                assert(self@.board == b.update(cell(row as int, column@), Tile::Full(player)));
                return;
            }
            row += 1;
        }
        assert(first_empty_from(b, column@, BOARD_HEIGHT as int) == BOARD_HEIGHT);
    }

    /// Applies `action`: a drop is accepted only on someone's turn and into
    /// a column that is not full, and a restart always begins a fresh match.
    pub fn handle_action(&mut self, action: &Action)
        requires
            old(self).wf(),
        ensures
            final(self).wf(),
            valid(final(self)@),
            final(self)@ == step(old(self)@, *action),
    {
        match action {
            Action::PlaceTile(column) => match self.state {
                State::Turn(player) => {
                    proof {
                        use_type_invariant(column);
                    }
                    if self.column_is_full(column) {
                        return;
                    }
                    let ghost before = self@;
                    self.place_tile(column, player);
                    proof {
                        lemma_place_step_valid(before, column@);
                    }
                    self.update_state(player);
                }
                _ => {},
            },
            Action::Restart(player) => *self = Game::new(player),
        }
    }

    /// Sets the state after `player`'s tile landed: a win for `player`,
    /// else a tie on a full board, else the other player's turn.
    fn update_state(&mut self, player: Player)
        requires
            old(self).table_ok(),
            gravity(old(self)@.board),
        ensures
            final(self)@.board == old(self)@.board,
            final(self).win_orientations == old(self).win_orientations,
            final(self).state == outcome(old(self)@.board, player),
    {
        if self.check_win(player) {
            self.state = State::Win(player);
            return;
        }

        if self.check_tie() {
            self.state = State::Tie;
            return;
        }

        self.state = State::Turn(player.other());
    }

    /// Whether `player` holds each of the cells at `index` plus an offset.
    fn check_win_at_index(&self, index: usize, win_offsets: &[usize; 4], player: Player) -> (r: bool)
        requires
            forall|k: int| 0 <= k < 4 ==> index + #[trigger] win_offsets[k] < BOARD_SIZE,
        ensures
            r == (forall|k: int| 0 <= k < 4 ==> self.board@[index + #[trigger] win_offsets[k]] == Tile::Full(player)),
    {
        let mut count: usize = 0;
        let mut k: usize = 0;
        while k < 4
            invariant
                k <= 4,
                count <= k,
                forall|j: int| 0 <= j < 4 ==> index + #[trigger] win_offsets[j] < BOARD_SIZE,
                count == k <==> (forall|j: int| 0 <= j < k ==> self.board@[index + #[trigger] win_offsets[j]] == Tile::Full(player)),
            decreases 4 - k,
        {
            if self.board[index + win_offsets[k]] == Tile::Full(player) {
                count += 1;
            }
            k += 1;
        }
        count == 4
    }

    /// Whether `player` has a line of four among the lines that `o` lists,
    /// `o` being the orientation of direction `(dr, dc)`.
    #[verifier::rlimit(40)]
    fn check_win_orientation(&self, o: &WinOrientation, player: Player, dr: Ghost<int>, dc: Ghost<int>) -> (r: bool)
        requires
            describes(*o, dr@, dc@),
            0 <= dr@ <= 1,
            -1 <= dc@ <= 1,
        ensures
            r == has_line(self@.board, player, dr@, dc@),
    {
        let ghost b = self@.board;
        let mut row: usize = o.row_start;
        while row < o.row_end
            invariant
                b == self@.board,
                describes(*o, dr@, dc@),
                0 <= dr@ <= 1,
                -1 <= dc@ <= 1,
                o.row_start <= row,
                forall|r: int, c: int|
                    o.row_start <= r < row && o.col_start <= c < o.col_end ==> !#[trigger] line_of_four(b, player, r, c, dr@, dc@),
            decreases o.row_end - row,
        {
            let mut col: usize = o.col_start;
            while col < o.col_end
                invariant
                    b == self@.board,
                    describes(*o, dr@, dc@),
                    0 <= dr@ <= 1,
                    -1 <= dc@ <= 1,
                    o.row_start <= row < o.row_end,
                    o.col_start <= col,
                    forall|r: int, c: int|
                        o.row_start <= r < row && o.col_start <= c < o.col_end ==> !#[trigger] line_of_four(b, player, r, c, dr@, dc@),
                    forall|c: int| o.col_start <= c < col ==> !#[trigger] line_of_four(b, player, row as int, c, dr@, dc@),
                decreases o.col_end - col,
            {
                proof {
                    lemma_line_cells(*o, dr@, dc@, b, player, row as int, col as int);
                }
                let i = row * BOARD_WIDTH + col;
                if self.board[i] != Tile::Full(player) {
                    col += 1;
                    continue;
                }
                if self.check_win_at_index(i, &o.offsets, player) {
                    return true;
                }
                col += 1;
            }
            row += 1;
        }
        proof {
            reveal(describes);
            assert forall|r: int, c: int| !#[trigger] line_of_four(b, player, r, c, dr@, dc@) by {
                if line_of_four(b, player, r, c, dr@, dc@) {
                    assert(in_bounds(r, c));
                    assert(in_bounds(r + 3 * dr@, c + 3 * dc@));
                }
            }
        }
        false
    }

    /// Whether `player` has four in a row in any orientation.
    fn check_win(&self, player: Player) -> (r: bool)
        requires
            self.table_ok(),
        ensures
            r == has_win(self@.board, player),
    {
        let mut i: usize = 0;
        while i < 4
            invariant
                self.table_ok(),
                i <= 4,
                forall|j: int| 0 <= j < i ==> !#[trigger] has_line(self@.board, player, dir_row(j), dir_col(j)),
            decreases 4 - i,
        {
            let ghost j = i as int;
            assert(describes(self.win_orientations[j], dir_row(j), dir_col(j)));
            if self.check_win_orientation(&self.win_orientations[i], player, Ghost(dir_row(j)), Ghost(dir_col(j))) {
                return true;
            }
            i += 1;
        }
        assert(!has_line(self@.board, player, dir_row(0), dir_col(0)));
        assert(!has_line(self@.board, player, dir_row(1), dir_col(1)));
        assert(!has_line(self@.board, player, dir_row(2), dir_col(2)));
        assert(!has_line(self@.board, player, dir_row(3), dir_col(3)));
        false
    }

    /// Whether every column is full.
    fn check_tie(&self) -> (r: bool)
        requires
            gravity(self@.board),
        ensures
            r == board_full(self@.board),
    {
        let mut col: usize = 0;
        while col < BOARD_WIDTH
            invariant
                gravity(self@.board),
                col <= BOARD_WIDTH,
                forall|c: int| 0 <= c < col ==> #[trigger] column_full(self@.board, c),
            decreases BOARD_WIDTH - col,
        {
            if !self.column_is_full(&Column::new(col)) {
                return false;
            }
            col += 1;
        }
        true
    }
}

/// A fresh match is in a reachable state.
pub proof fn lemma_initial_valid(p: Player)
    ensures
        valid(initial(p)),
{
    let b = initial(p).board;
    assert(b[cell(0, 0)] is Empty);
    assert(!column_full(b, 0));
    assert(!has_win(b, Player::Player1));
    assert(!has_win(b, Player::Player2));
}

/// A drop request keeps the game in a reachable state.
pub proof fn lemma_place_step_valid(m: GameModel, column: int)
    requires
        valid(m),
        0 <= column < BOARD_WIDTH,
    ensures
        valid(place_step(m, column)),
{
    if let State::Turn(p) = m.state {
        if !column_full(m.board, column) {
            let b = placed(m.board, column, p);
            lemma_landing_row(m.board, column);
            lemma_placed_keeps_gravity(m.board, column, p);
            let i = cell(landing_row(m.board, column), column);
            lemma_cell(landing_row(m.board, column), column, 0, 0);
            if has_win(b, other(p)) {
                lemma_win_kept(m.board, i, p, other(p));
            }
        }
    }
}

/// The first cell of a line that `o` admits, plus each of its offsets,
/// gives the cells of the line, all on the grid.
proof fn lemma_line_cells(o: WinOrientation, dr: int, dc: int, b: Seq<Tile>, p: Player, row: int, column: int)
    requires
        describes(o, dr, dc),
        0 <= dr <= 1,
        -1 <= dc <= 1,
        o.row_start <= row < o.row_end,
        o.col_start <= column < o.col_end,
    ensures
        in_bounds(row, column),
        0 <= cell(row, column) < BOARD_SIZE,
        forall|k: int| 0 <= k < 4 ==> cell(row, column) + #[trigger] o.offsets[k] < BOARD_SIZE,
        tile_at(b, row, column) == b[cell(row, column)],
        line_of_four(b, p, row, column, dr, dc) <==> (forall|k: int|
            0 <= k < 4 ==> b[cell(row, column) + #[trigger] o.offsets[k]] == Tile::Full(p)),
{
    reveal(describes);
    assert(in_bounds(row, column));
    assert(in_bounds(row + 3 * dr, column + 3 * dc));
    lemma_cell(row, column, 0, 0);
    lemma_cell(row + 3 * dr, column + 3 * dc, 0, 0);
    let c = cell(row, column);
    assert(cell(row + dr, column + dc) == c + o.offsets[1]);
    assert(cell(row + 2 * dr, column + 2 * dc) == c + o.offsets[2]);
    assert(cell(row + 3 * dr, column + 3 * dc) == c + o.offsets[3]);
    if forall|k: int| 0 <= k < 4 ==> b[c + #[trigger] o.offsets[k]] == Tile::Full(p) {
        assert(b[c + o.offsets[0]] == Tile::Full(p));
        assert(b[c + o.offsets[1]] == Tile::Full(p));
        assert(b[c + o.offsets[2]] == Tile::Full(p));
        assert(b[c + o.offsets[3]] == Tile::Full(p));
    }
}

} // verus!
