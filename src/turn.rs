use crate::game::{cell_at, Board, GameState, Player};
use rand::seq::SliceRandom;
use vstd::prelude::*;

verus! {

/// The empty cells among the first `n` cells in row-major order, as
/// (row, column).
pub open spec fn empties_upto(b: Board, n: int) -> Seq<(usize, usize)>
    decreases n,
{
    if n <= 0 {
        seq![]
    } else {
        let prev = empties_upto(b, n - 1);
        let r = (n - 1) / 3;
        let c = (n - 1) % 3;
        if cell_at(b, r, c) is None {
            prev.push((r as usize, c as usize))
        } else {
            prev
        }
    }
}

/// All empty cells of `b` in row-major order.
pub open spec fn empty_cells_of(b: Board) -> Seq<(usize, usize)> {
    empties_upto(b, 9)
}

impl GameState {
    /// The opponent is to move: the game is on and it is `O`'s turn.
    pub open spec fn reply_due(self) -> bool {
        !self.game_over && self.current_turn == Player::O
    }

    /// The state after the player to move takes the empty cell numbered
    /// `pick` (modulo their number) in row-major order; with no empty cell,
    /// nothing changes.
    pub open spec fn after_reply(self, pick: int) -> GameState {
        let e = empty_cells_of(self.board);
        if e.len() == 0 {
            self
        } else {
            let (r, c) = e[pick % (e.len() as int)];
            self.after_mark(r as int, c as int)
        }
    }

    /// The state after a move at `(row, col)`: the mark is placed and, if
    /// that hands the move to `O` in a game still on, the opponent answers
    /// with the empty cell numbered `pick`. A move that is not taken changes
    /// nothing.
    pub open spec fn after_turn(self, row: int, col: int, pick: int) -> GameState {
        if !self.accepts(row, col) {
            self
        } else {
            let t = self.after_mark(row, col);
            if t.reply_due() {
                t.after_reply(pick)
            } else {
                t
            }
        }
    }

    /// The empty cells, in row-major order.
    pub fn empty_cells(&self) -> (r: Vec<(usize, usize)>)
        ensures
            r@ == empty_cells_of(self.board),
    {
        let mut cells: Vec<(usize, usize)> = Vec::new();
        let mut k: usize = 0;
        while k < 9
            invariant
                0 <= k <= 9,
                cells@ == empties_upto(self.board, k as int),
            decreases 9 - k,
        {
            let r: usize = k / 3;
            let c: usize = k % 3;
            if self.board[r][c].is_none() {
                cells.push((r, c));
            }
            k = k + 1;
        }
        cells
    }

    /// The player to move takes the empty cell numbered `pick` (modulo their
    /// number) in row-major order. With no empty cell nothing happens.
    pub fn ai_move_at(&mut self, pick: usize)
        ensures
            *final(self) == old(self).after_reply(pick as int),
    {
        let cells = self.empty_cells();
        if cells.len() > 0 {
            let (i, j) = cells[pick % cells.len()];
            self.place_mark(i, j);
        }
    }

    /// The player to move takes an empty cell drawn at random. With no empty
    /// cell nothing happens.
    pub fn ai_move(&mut self)
        ensures
            exists|k: int|
                0 <= k < 9 && *final(self) == #[trigger] old(self).after_reply(k),
    {
        let cells = self.empty_cells();
        let choice = choose_cell(&cells);
        match choice {
            Some((i, j)) => {
                self.place_mark(i, j);
                proof {
                    let k = choose|k: int| 0 <= k < cells@.len() && cells@[k] == (i, j);
                    vstd::arithmetic::div_mod::lemma_small_mod(k as nat, cells@.len());
                    lemma_empties_len(old(self).board, 9);
                    assert(*self == old(self).after_reply(k));
                }
            },
            None => {
                assert(*self == old(self).after_reply(0));
            },
        }
    }

    /// A move at `(row, col)` by the player to move, answered by the
    /// opponent with the empty cell numbered `pick` when the game goes on
    /// and it is `O`'s turn. Nothing changes if the game is over, the cell
    /// is outside the board, or it is already marked.
    pub fn make_move_with(&mut self, row: usize, col: usize, pick: usize)
        ensures
            *final(self) == old(self).after_turn(row as int, col as int, pick as int),
    {
        if self.game_over || row >= 3 || col >= 3 || self.board[row][col].is_some() {
            return;
        }
        self.place_mark(row, col);
        if !self.game_over && self.current_turn == Player::O {
            self.ai_move_at(pick);
        }
    }

    /// A move at `(row, col)` by the player to move, answered by the
    /// opponent with a random empty cell when the game goes on and it is
    /// `O`'s turn. Nothing changes if the game is over, the cell is outside
    /// the board, or it is already marked.
    pub fn make_move(&mut self, row: usize, col: usize)
        ensures
            exists|k: int|
                0 <= k < 9 && *final(self) == #[trigger] old(self).after_turn(
                    row as int,
                    col as int,
                    k,
                ),
    {
        if self.game_over || row >= 3 || col >= 3 || self.board[row][col].is_some() {
            assert(*self == old(self).after_turn(row as int, col as int, 0));
            return;
        }
        self.place_mark(row, col);
        if !self.game_over && self.current_turn == Player::O {
            let ghost mid = *self;
            self.ai_move();
            proof {
                let k = choose|k: int| 0 <= k < 9 && *self == #[trigger] mid.after_reply(k);
                assert(*self == old(self).after_turn(row as int, col as int, k));
            }
        } else {
            assert(*self == old(self).after_turn(row as int, col as int, 0));
        }
    }
}

/// There are at most `n` empty cells among the first `n`.
pub proof fn lemma_empties_len(b: Board, n: int)
    requires
        0 <= n,
    ensures
        empties_upto(b, n).len() <= n,
    decreases n,
{
    if n > 0 {
        lemma_empties_len(b, n - 1);
    }
}

/// Relies on rand's `SliceRandom::choose`, drawing from `thread_rng`: `None`
/// exactly when the slice is empty, otherwise one of its elements.
#[verifier::external_body]
fn choose_cell(cells: &Vec<(usize, usize)>) -> (r: Option<(usize, usize)>)
    ensures
        match r {
            None => cells@.len() == 0,
            Some(x) => exists|k: int| 0 <= k < cells@.len() && cells@[k] == x,
        },
{
    cells.choose(&mut rand::thread_rng()).copied()
}

} // verus!
