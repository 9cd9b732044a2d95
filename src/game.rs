use vstd::prelude::*;

verus! {

/// One of the two players. `X` is the human and moves first; `O` is the
/// computer opponent.
#[derive(Clone, Copy, Debug, PartialEq, Eq, Structural)]
pub enum Player {
    X,
    O,
}

/// A 3x3 grid, row-major; `None` is an empty cell.
pub type Board = [[Option<Player>; 3]; 3];

/// The mark at row `r`, column `c`.
pub open spec fn cell_at(b: Board, r: int, c: int) -> Option<Player> {
    b[r][c]
}

/// The board with the cell at row `r`, column `c` replaced by `v`.
pub open spec fn board_set(b: Board, r: int, c: int, v: Option<Player>) -> Board {
    vstd::array::spec_array_update(b, r, vstd::array::spec_array_update(b[r], c, v))
}

/// The `i`-th cell of line `k`, as (row, column). The eight lines are the
/// three rows, the three columns, the main diagonal and the anti-diagonal,
/// in that order.
pub open spec fn line_cell(k: int, i: int) -> (int, int) {
    if k < 3 {
        (k, i)
    } else if k < 6 {
        (i, k - 3)
    } else if k == 6 {
        (i, i)
    } else {
        (i, 2 - i)
    }
}

/// The player who holds all three cells of line `k`, if one does.
pub open spec fn line_owner(b: Board, k: int) -> Option<Player> {
    let (r0, c0) = line_cell(k, 0);
    let (r1, c1) = line_cell(k, 1);
    let (r2, c2) = line_cell(k, 2);
    match cell_at(b, r0, c0) {
        Some(p) => if cell_at(b, r1, c1) == Some(p) && cell_at(b, r2, c2) == Some(p) {
            Some(p)
        } else {
            None
        },
        None => None,
    }
}

/// The owner of the first complete line among lines `k..8`.
pub open spec fn first_owner_from(b: Board, k: int) -> Option<Player>
    decreases 8 - k,
{
    if k >= 8 || k < 0 {
        None
    } else if line_owner(b, k) is Some {
        line_owner(b, k)
    } else {
        first_owner_from(b, k + 1)
    }
}

/// The winner on board `b`: the owner of the first complete line.
pub open spec fn winner_of(b: Board) -> Option<Player> {
    first_owner_from(b, 0)
}

/// Every cell of `b` is marked.
pub open spec fn board_full(b: Board) -> bool {
    forall|r: int, c: int| 0 <= r < 3 && 0 <= c < 3 ==> (#[trigger] cell_at(b, r, c)) is Some
}

/// The board with no marks.
pub open spec fn empty_board() -> Board {
    [[None, None, None], [None, None, None], [None, None, None]]
}

/// The other player.
pub open spec fn other(p: Player) -> Player {
    match p {
        Player::X => Player::O,
        Player::O => Player::X,
    }
}

/// `(row, col)` names a cell of the board.
pub open spec fn in_range(row: int, col: int) -> bool {
    0 <= row < 3 && 0 <= col < 3
}

impl GameState {
    /// A move at `(row, col)` is taken: the game is on, the cell exists and
    /// is empty.
    pub open spec fn accepts(self, row: int, col: int) -> bool {
        !self.game_over && in_range(row, col) && cell_at(self.board, row, col) is None
    }

    /// The state after the player to move marks `(row, col)`, without any
    /// answer from the opponent. A move that is not taken changes nothing.
    pub open spec fn after_mark(self, row: int, col: int) -> GameState {
        if !self.accepts(row, col) {
            self
        } else {
            let b = board_set(self.board, row, col, Some(self.current_turn));
            if winner_of(b) is Some {
                GameState { board: b, winner: winner_of(b), game_over: true, ..self }
            } else if board_full(b) {
                GameState { board: b, game_over: true, ..self }
            } else {
                GameState { board: b, current_turn: other(self.current_turn), ..self }
            }
        }
    }
}

/// Where a game stands.
#[derive(Clone, Copy, Debug, PartialEq, Eq, Structural)]
pub enum GameResult {
    InProgress,
    Won(Player),
    Draw,
}

/// The text shown for a cell: "X", "O", or a space for an empty cell.
pub open spec fn cell_text(cell: Option<Player>) -> Seq<char> {
    match cell {
        Some(Player::X) => seq!['X'],
        Some(Player::O) => seq!['O'],
        None => seq![' '],
    }
}

/// The state of one game: the board, the player to move, the winner once there
/// is one, and whether the game has ended.
#[derive(Clone, Copy, Debug)]
pub struct GameState {
    pub board: Board,
    pub current_turn: Player,
    pub winner: Option<Player>,
    pub game_over: bool,
}

impl GameState {
    /// A fresh game: empty board, `X` to move, no winner.
    pub open spec fn initial() -> GameState {
        GameState { board: empty_board(), current_turn: Player::X, winner: None, game_over: false }
    }

    pub fn new() -> (r: GameState)
        ensures
            r == GameState::initial(),
    {
        GameState {
            board: [[None, None, None], [None, None, None], [None, None, None]],
            current_turn: Player::X,
            winner: None,
            game_over: false,
        }
    }

    /// The owner of the first complete line, in the order rows, columns,
    /// main diagonal, anti-diagonal.
    pub fn check_winner(&self) -> (r: Option<Player>)
        ensures
            r == winner_of(self.board),
    {
        let lines: [[(usize, usize); 3]; 8] = [
            [(0, 0), (0, 1), (0, 2)],
            [(1, 0), (1, 1), (1, 2)],
            [(2, 0), (2, 1), (2, 2)],
            [(0, 0), (1, 0), (2, 0)],
            [(0, 1), (1, 1), (2, 1)],
            [(0, 2), (1, 2), (2, 2)],
            [(0, 0), (1, 1), (2, 2)],
            [(0, 2), (1, 1), (2, 0)],
        ];
        let mut k: usize = 0;
        while k < 8
            invariant
                0 <= k <= 8,
                first_owner_from(self.board, k as int) == winner_of(self.board),
                forall|j: int, i: int|
                    0 <= j < 8 && 0 <= i < 3 ==> {
                        let (r, c) = #[trigger] lines[j][i];
                        (r as int, c as int) == line_cell(j, i)
                    },
            decreases 8 - k,
        {
            let line = lines[k];
            let (ar, ac) = line[0];
            let (br, bc) = line[1];
            let (cr, cc) = line[2];
            let a = self.board[ar][ac];
            let b = self.board[br][bc];
            let c = self.board[cr][cc];
            if let (Some(p1), Some(p2), Some(p3)) = (a, b, c) {
                if p1 == p2 && p2 == p3 {
                    return Some(p1);
                }
            }
            k = k + 1;
        }
        None
    }

    /// Every cell is marked.
    pub fn is_draw(&self) -> (r: bool)
        ensures
            r == board_full(self.board),
    {
        let mut i: usize = 0;
        while i < 3
            invariant
                0 <= i <= 3,
                forall|r: int, c: int|
                    0 <= r < i && 0 <= c < 3 ==> (#[trigger] cell_at(self.board, r, c)) is Some,
            decreases 3 - i,
        {
            let row = self.board[i];
            let mut j: usize = 0;
            while j < 3
                invariant
                    0 <= i < 3,
                    0 <= j <= 3,
                    row == self.board[i as int],
                    forall|r: int, c: int|
                        0 <= r < i && 0 <= c < 3 ==> (#[trigger] cell_at(self.board, r, c)) is Some,
                    forall|c: int| 0 <= c < j ==> (#[trigger] cell_at(self.board, i as int, c)) is Some,
                decreases 3 - j,
            {
                if row[j].is_none() {
                    assert(cell_at(self.board, i as int, j as int) is None);
                    return false;
                }
                j = j + 1;
            }
            i = i + 1;
        }
        true
    }

    /// Hands the move to the other player.
    pub fn switch_turn(&mut self)
        ensures
            *final(self) == (GameState { current_turn: other(old(self).current_turn), ..*old(self) }),
    {
        self.current_turn = match self.current_turn {
            Player::X => Player::O,
            Player::O => Player::X,
        };
    }

    /// The player to move marks `(row, col)`; then the game is won if a line
    /// is complete, drawn if the board is full, and otherwise the turn
    /// passes. Nothing changes if the game is over, the cell is outside the
    /// board, or the cell is already marked. The opponent does not answer.
    pub fn place_mark(&mut self, row: usize, col: usize)
        ensures
            *final(self) == old(self).after_mark(row as int, col as int),
    {
        if self.game_over || row >= 3 || col >= 3 || self.board[row][col].is_some() {
            return;
        }
        self.board[row][col] = Some(self.current_turn);
        if let Some(w) = self.check_winner() {
            self.winner = Some(w);
            self.game_over = true;
        } else if self.is_draw() {
            self.game_over = true;
        } else {
            self.switch_turn();
        }
    }

    /// Where the game stands: over with a winner, over without one, or on.
    pub open spec fn result_of(self) -> GameResult {
        if !self.game_over {
            GameResult::InProgress
        } else {
            match self.winner {
                Some(p) => GameResult::Won(p),
                None => GameResult::Draw,
            }
        }
    }

    /// Throws the game away and starts a fresh one.
    pub fn reset(&mut self)
        ensures
            *final(self) == GameState::initial(),
    {
        *self = Self::new();
    }

    /// The text shown for a cell.
    pub fn cell_to_string(cell: Option<Player>) -> (r: &'static str)
        ensures
            r@ == cell_text(cell),
    {
        match cell {
            Some(Player::X) => {
                proof {
                    reveal_strlit("X");
                }
                "X"
            },
            Some(Player::O) => {
                proof {
                    reveal_strlit("O");
                }
                "O"
            },
            None => {
                proof {
                    reveal_strlit(" ");
                }
                " "
            },
        }
    }

    /// The text shown for the cell at `(row, col)`.
    pub fn cell_display(&self, row: usize, col: usize) -> (r: &'static str)
        requires
            in_range(row as int, col as int),
        ensures
            r@ == cell_text(cell_at(self.board, row as int, col as int)),
    {
        Self::cell_to_string(self.board[row][col])
    }

    /// Whether the game has ended, won or drawn.
    pub fn is_game_over(&self) -> (r: bool)
        ensures
            r == self.game_over,
    {
        self.game_over
    }

    /// The winner, once there is one.
    pub fn winner(&self) -> (r: Option<Player>)
        ensures
            r == self.winner,
    {
        self.winner
    }

    /// Where the game stands.
    pub fn result(&self) -> (r: GameResult)
        ensures
            r == self.result_of(),
    {
        if !self.game_over {
            GameResult::InProgress
        } else {
            match self.winner {
                Some(p) => GameResult::Won(p),
                None => GameResult::Draw,
            }
        }
    }
}

impl Default for GameState {
    /// A fresh game.
    fn default() -> (r: GameState)
        ensures
            r == GameState::initial(),
    {
        GameState::new()
    }
}

} // verus!
