use crate::game::{board_full, cell_at, in_range, other, winner_of, Board, GameResult, GameState, Player};
use crate::turn::{empties_upto, empty_cells_of};
use vstd::prelude::*;

verus! {

/// The state after playing `moves` in order from `s`, each a move at
/// (row, column) followed by the opponent's answer numbered by the third
/// component.
pub open spec fn play(s: GameState, moves: Seq<(int, int, int)>) -> GameState
    decreases moves.len(),
{
    if moves.len() == 0 {
        s
    } else {
        let (r, c, k) = moves[0];
        play(s.after_turn(r, c, k), moves.drop_first())
    }
}

impl GameState {
    /// The state is one that play can reach: the stored winner and end flag
    /// agree with the board, and while the game is on it is `X`'s turn.
    pub open spec fn wf(self) -> bool {
        &&& self.winner == winner_of(self.board)
        &&& self.game_over == (winner_of(self.board) is Some || board_full(self.board))
        &&& !self.game_over ==> self.current_turn == Player::X
    }
}

/// Marking a cell leaves every marked cell as it was, and a cell that is
/// already marked is never marked again.
pub proof fn lemma_mark_keeps_marks(s: GameState, row: int, col: int)
    ensures
        forall|r: int, c: int|
            in_range(r, c) && (#[trigger] cell_at(s.board, r, c)) is Some ==> cell_at(
                s.after_mark(row, col).board,
                r,
                c,
            ) == cell_at(s.board, r, c),
        in_range(row, col) && cell_at(s.board, row, col) is Some ==> s.after_mark(row, col) == s,
{
}

/// A whole turn, the move and the opponent's answer, leaves every marked
/// cell as it was.
pub proof fn lemma_turn_keeps_marks(s: GameState, row: int, col: int, pick: int)
    ensures
        forall|r: int, c: int|
            in_range(r, c) && (#[trigger] cell_at(s.board, r, c)) is Some ==> cell_at(
                s.after_turn(row, col, pick).board,
                r,
                c,
            ) == cell_at(s.board, r, c),
{
    lemma_mark_keeps_marks(s, row, col);
    let t = s.after_mark(row, col);
    let e = empty_cells_of(t.board);
    if e.len() > 0 {
        let (r2, c2) = e[pick % (e.len() as int)];
        lemma_mark_keeps_marks(t, r2 as int, c2 as int);
    }
}

/// Over any sequence of moves, a cell once marked keeps its mark.
pub proof fn lemma_marks_persist(s: GameState, moves: Seq<(int, int, int)>)
    ensures
        forall|r: int, c: int|
            in_range(r, c) && (#[trigger] cell_at(s.board, r, c)) is Some ==> cell_at(
                play(s, moves).board,
                r,
                c,
            ) == cell_at(s.board, r, c),
    decreases moves.len(),
{
    if moves.len() > 0 {
        let (r0, c0, k0) = moves[0];
        lemma_turn_keeps_marks(s, r0, c0, k0);
        lemma_marks_persist(s.after_turn(r0, c0, k0), moves.drop_first());
    }
}

/// Each accepted mark that leaves the game on hands the move to the other
/// player; one that ends the game leaves the turn where it was.
pub proof fn lemma_turn_alternates(s: GameState, row: int, col: int)
    requires
        s.accepts(row, col),
    ensures
        !s.after_mark(row, col).game_over ==> s.after_mark(row, col).current_turn == other(
            s.current_turn,
        ),
        s.after_mark(row, col).game_over ==> s.after_mark(row, col).current_turn
            == s.current_turn,
{
}

/// A move once the game is over changes nothing: board, turn, winner and
/// result stay as they are.
pub proof fn lemma_over_is_fixed(s: GameState, row: int, col: int, pick: int)
    requires
        s.game_over,
    ensures
        s.after_turn(row, col, pick) == s,
        s.after_mark(row, col) == s,
{
}

/// A move at a cell outside the board, or at a marked cell, changes nothing.
pub proof fn lemma_rejected_is_noop(s: GameState, row: int, col: int, pick: int)
    requires
        !in_range(row, col) || cell_at(s.board, row, col) is Some,
    ensures
        s.after_turn(row, col, pick) == s,
{
}

/// Once the game is won or drawn, no sequence of moves changes the state,
/// so the result stays until the game is reset.
pub proof fn lemma_result_is_final(s: GameState, moves: Seq<(int, int, int)>)
    requires
        s.result_of() != GameResult::InProgress,
    ensures
        play(s, moves) == s,
        play(s, moves).result_of() == s.result_of(),
    decreases moves.len(),
{
    if moves.len() > 0 {
        let (r0, c0, k0) = moves[0];
        lemma_result_is_final(s.after_turn(r0, c0, k0), moves.drop_first());
    }
}

/// The cells listed among the first `n` are on the board and empty, and the
/// list is empty only if each of those cells is marked.
proof fn lemma_empties_upto(b: Board, n: int)
    requires
        0 <= n <= 9,
    ensures
        forall|i: int|
            0 <= i < empties_upto(b, n).len() ==> {
                let (r, c) = #[trigger] empties_upto(b, n)[i];
                in_range(r as int, c as int) && cell_at(b, r as int, c as int) is None
            },
        empties_upto(b, n).len() == 0 ==> forall|k: int|
            0 <= k < n ==> (#[trigger] cell_at(b, k / 3, k % 3)) is Some,
    decreases n,
{
    if n > 0 {
        lemma_empties_upto(b, n - 1);
    }
}

/// When the board has an empty cell, the opponent's answer is an accepted
/// move on it.
proof fn lemma_reply_accepted(t: GameState, pick: int)
    requires
        !t.game_over,
        !board_full(t.board),
        0 <= pick,
    ensures
        empty_cells_of(t.board).len() > 0,
        ({
            let e = empty_cells_of(t.board);
            let (r, c) = e[pick % (e.len() as int)];
            t.accepts(r as int, c as int)
        }),
{
    lemma_empties_upto(t.board, 9);
    let e = empty_cells_of(t.board);
    if e.len() == 0 {
        assert forall|r: int, c: int| 0 <= r < 3 && 0 <= c < 3 implies (#[trigger] cell_at(
            t.board,
            r,
            c,
        )) is Some by {
            let k = 3 * r + c;
            assert(k / 3 == r && k % 3 == c);
            assert(cell_at(t.board, k / 3, k % 3) is Some);
        }
        assert(false);
    }
    let i = pick % (e.len() as int);
    assert(0 <= i < e.len());
}

/// From a state that play can reach, a turn leads to another such state: the
/// stored result matches the board, and while the game is on, after the
/// opponent's answer it is `X`'s turn again.
pub proof fn lemma_turn_keeps_wf(s: GameState, row: int, col: int, pick: int)
    requires
        s.wf(),
        0 <= pick,
    ensures
        s.after_turn(row, col, pick).wf(),
{
    if s.accepts(row, col) {
        let t = s.after_mark(row, col);
        if t.reply_due() {
            lemma_reply_accepted(t, pick);
        }
    }
}

/// A fresh game is a state that play can reach.
pub proof fn lemma_initial_wf()
    ensures
        GameState::initial().wf(),
{
    let s = GameState::initial();
    assert(cell_at(s.board, 0, 0) is None);
    assert(!board_full(s.board));
    assert(winner_of(s.board) is None) by {
        reveal_with_fuel(crate::game::first_owner_from, 9);
    }
}

} // verus!
