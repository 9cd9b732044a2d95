use tictactoe::game::Board;
use tictactoe::{GameResult, GameState, Player};

const E: Option<Player> = None;
const X: Option<Player> = Some(Player::X);
const O: Option<Player> = Some(Player::O);

fn with_board(board: Board) -> GameState {
    let mut s = GameState::new();
    s.board = board;
    s
}

fn same_state(a: &GameState, b: &GameState) -> bool {
    a.board == b.board
        && a.current_turn == b.current_turn
        && a.winner == b.winner
        && a.game_over == b.game_over
}

fn count_marks(s: &GameState) -> usize {
    let mut n = 0;
    for r in 0..3 {
        for c in 0..3 {
            if s.board[r][c].is_some() {
                n += 1;
            }
        }
    }
    n
}

#[test]
fn new_game_is_empty_with_x_to_move() {
    let s = GameState::new();
    assert_eq!(s.board, [[E; 3]; 3]);
    assert_eq!(s.current_turn, Player::X);
    assert_eq!(s.winner(), None);
    assert!(!s.is_game_over());
    assert_eq!(s.result(), GameResult::InProgress);
}

#[test]
fn row_zero_win_when_opponent_does_not_block() {
    let mut s = GameState::new();
    s.make_move_with(0, 0, 2);
    assert_eq!(s.board[1][0], O);
    assert_eq!(s.result(), GameResult::InProgress);
    s.make_move_with(0, 1, 1);
    assert_eq!(s.board[1][1], O);
    assert_eq!(s.result(), GameResult::InProgress);
    s.make_move_with(0, 2, 0);
    assert_eq!(s.result(), GameResult::Won(Player::X));
    assert_eq!(s.winner(), Some(Player::X));
    assert!(s.is_game_over());
    assert_eq!(count_marks(&s), 5);
}

#[test]
fn row_zero_blocked_when_opponent_takes_it() {
    let mut s = GameState::new();
    s.make_move_with(0, 0, 0);
    assert_eq!(s.board[0][1], O);
    s.make_move_with(0, 2, 0);
    assert_eq!(s.board[1][0], O);
    assert_eq!(s.result(), GameResult::InProgress);
    assert_ne!(s.board[0], [X, X, X]);
}

#[test]
fn move_on_marked_cell_is_ignored() {
    let mut s = GameState::new();
    s.make_move_with(1, 1, 0);
    assert_eq!(s.board[1][1], X);
    assert_eq!(s.board[0][0], O);
    let before = s;
    s.make_move_with(1, 1, 3);
    assert!(same_state(&s, &before));
    s.make_move_with(0, 0, 3);
    assert!(same_state(&s, &before));
    s.make_move(1, 1);
    assert!(same_state(&s, &before));
    assert_eq!(s.current_turn, Player::X);
}

#[test]
fn move_after_win_is_ignored() {
    let mut s = GameState::new();
    s.make_move_with(0, 0, 2);
    s.make_move_with(0, 1, 1);
    s.make_move_with(0, 2, 0);
    assert_eq!(s.result(), GameResult::Won(Player::X));
    let before = s;
    for r in 0..3 {
        for c in 0..3 {
            s.make_move_with(r, c, 0);
            s.make_move(r, c);
            s.place_mark(r, c);
            assert!(same_state(&s, &before));
        }
    }
}

fn play_draw() -> GameState {
    let mut s = GameState::new();
    let moves = [(0, 0, 0), (0, 2, 1), (1, 0, 1), (2, 1, 0)];
    for &(r, c, k) in moves.iter() {
        s.make_move_with(r, c, k);
        assert_eq!(s.result(), GameResult::InProgress);
        assert!(!s.is_draw());
    }
    assert_eq!(count_marks(&s), 8);
    s.make_move_with(2, 2, 0);
    s
}

#[test]
fn full_board_without_line_is_a_draw() {
    let s = play_draw();
    assert_eq!(s.board, [[X, O, X], [X, O, O], [O, X, X]]);
    assert!(s.is_draw());
    assert_eq!(s.result(), GameResult::Draw);
    assert_eq!(s.winner(), None);
    assert!(s.is_game_over());
}

#[test]
fn move_after_draw_is_ignored() {
    let mut s = play_draw();
    let before = s;
    s.make_move_with(1, 1, 0);
    s.make_move(0, 0);
    assert!(same_state(&s, &before));
}

#[test]
fn out_of_range_move_is_ignored() {
    let mut s = GameState::new();
    let before = s;
    s.make_move_with(3, 0, 0);
    s.make_move_with(0, 3, 0);
    s.make_move_with(usize::MAX, usize::MAX, 0);
    s.make_move(5, 1);
    s.place_mark(1, 7);
    assert!(same_state(&s, &before));
}

#[test]
fn reset_starts_over() {
    let mut s = GameState::new();
    s.make_move_with(1, 1, 4);
    s.reset();
    assert!(same_state(&s, &GameState::new()));
    let mut w = GameState::new();
    w.make_move_with(0, 0, 2);
    w.make_move_with(0, 1, 1);
    w.make_move_with(0, 2, 0);
    w.reset();
    assert!(same_state(&w, &GameState::new()));
    assert_eq!(w.result(), GameResult::InProgress);
    let mut d = play_draw();
    d.reset();
    assert!(same_state(&d, &GameState::new()));
}

#[test]
fn random_opponent_answers_on_an_empty_cell() {
    for _ in 0..50 {
        let mut s = GameState::new();
        s.make_move(1, 1);
        assert_eq!(s.board[1][1], X);
        assert_eq!(count_marks(&s), 2);
        assert_eq!(s.current_turn, Player::X);
        assert_eq!(s.result(), GameResult::InProgress);
    }
}

#[test]
fn random_games_keep_marks_and_turn() {
    for _ in 0..50 {
        let mut s = GameState::new();
        let mut steps = 0;
        while !s.is_game_over() && steps < 20 {
            let before = s;
            let cell = s.empty_cells()[0];
            s.make_move(cell.0, cell.1);
            for r in 0..3 {
                for c in 0..3 {
                    if before.board[r][c].is_some() {
                        assert_eq!(s.board[r][c], before.board[r][c]);
                    }
                }
            }
            assert!(count_marks(&s) > count_marks(&before));
            if !s.is_game_over() {
                assert_eq!(s.current_turn, Player::X);
                assert_eq!(count_marks(&s), count_marks(&before) + 2);
            }
            steps += 1;
        }
        assert!(s.is_game_over());
        let r = s.result();
        assert!(r == GameResult::Draw || r == GameResult::Won(Player::X) || r == GameResult::Won(Player::O));
    }
}

#[test]
fn ai_move_marks_one_empty_cell() {
    let mut s = with_board([[X, O, X], [E, O, X], [O, X, E]]);
    s.current_turn = Player::O;
    s.ai_move();
    assert_eq!(count_marks(&s), 8);
    assert!(s.board[1][0] == O || s.board[2][2] == O);
}

#[test]
fn ai_move_on_full_board_does_nothing() {
    let mut s = with_board([[X, O, X], [X, O, O], [O, X, X]]);
    let before = s;
    s.ai_move();
    s.ai_move_at(3);
    assert!(same_state(&s, &before));
}

#[test]
fn ai_move_at_takes_pick_modulo_count() {
    let mut s = GameState::new();
    s.current_turn = Player::O;
    s.ai_move_at(13);
    assert_eq!(s.board[1][1], O);
    assert_eq!(s.current_turn, Player::X);
    assert_eq!(count_marks(&s), 1);
}

#[test]
fn empty_cells_in_row_major_order() {
    let s = with_board([[X, E, O], [E, E, X], [O, E, E]]);
    assert_eq!(s.empty_cells(), vec![(0, 1), (1, 0), (1, 1), (2, 1), (2, 2)]);
    assert_eq!(GameState::new().empty_cells().len(), 9);
    assert!(with_board([[X, O, X], [X, O, O], [O, X, X]]).empty_cells().is_empty());
}

#[test]
fn place_mark_alternates_turn() {
    let mut s = GameState::new();
    s.place_mark(0, 0);
    assert_eq!(s.current_turn, Player::O);
    assert_eq!(s.board[0][0], X);
    s.place_mark(1, 1);
    assert_eq!(s.current_turn, Player::X);
    assert_eq!(s.board[1][1], O);
    s.place_mark(1, 1);
    assert_eq!(s.current_turn, Player::X);
    assert_eq!(s.board[1][1], O);
}

#[test]
fn winning_mark_freezes_turn() {
    let mut s = with_board([[O, O, E], [X, X, E], [E, E, E]]);
    s.current_turn = Player::O;
    s.place_mark(0, 2);
    assert_eq!(s.result(), GameResult::Won(Player::O));
    assert_eq!(s.current_turn, Player::O);
}

#[test]
fn check_winner_each_line() {
    let lines: [[(usize, usize); 3]; 8] = [
        [(0, 0), (0, 1), (0, 2)],
        [(1, 0), (1, 1), (1, 2)],
        [(2, 0), (2, 1), (2, 2)],
        [(0, 0), (1, 0), (2, 0)],
        [(0, 1), (1, 1), (2, 1)],
        [(0, 2), (1, 2), (2, 2)],
        [(0, 0), (1, 1), (2, 2)],
        [(0, 2), (1, 1), (2, 0)],
    ];
    for line in lines.iter() {
        for &p in [Player::X, Player::O].iter() {
            let mut b = [[E; 3]; 3];
            for &(r, c) in line.iter() {
                b[r][c] = Some(p);
            }
            assert_eq!(with_board(b).check_winner(), Some(p));
            b[line[1].0][line[1].1] = None;
            assert_eq!(with_board(b).check_winner(), None);
        }
    }
}

#[test]
fn check_winner_mixed_line_is_none() {
    assert_eq!(with_board([[X, X, O], [O, O, X], [X, O, X]]).check_winner(), None);
    assert_eq!(GameState::new().check_winner(), None);
}

#[test]
fn check_winner_takes_first_line() {
    assert_eq!(with_board([[E, E, E], [O, O, O], [X, X, X]]).check_winner(), Some(Player::O));
    assert_eq!(with_board([[O, X, E], [O, X, E], [O, X, E]]).check_winner(), Some(Player::O));
}

#[test]
fn is_draw_needs_every_cell() {
    assert!(!GameState::new().is_draw());
    assert!(!with_board([[X, O, X], [X, O, O], [O, X, E]]).is_draw());
    assert!(with_board([[X, O, X], [X, O, O], [O, X, X]]).is_draw());
}

#[test]
fn switch_turn_flips() {
    let mut s = GameState::new();
    s.switch_turn();
    assert_eq!(s.current_turn, Player::O);
    s.switch_turn();
    assert_eq!(s.current_turn, Player::X);
}

#[test]
fn cell_text() {
    assert_eq!(GameState::cell_to_string(X), "X");
    assert_eq!(GameState::cell_to_string(O), "O");
    assert_eq!(GameState::cell_to_string(E), " ");
    let s = with_board([[X, E, E], [E, O, E], [E, E, E]]);
    assert_eq!(s.cell_display(0, 0), "X");
    assert_eq!(s.cell_display(1, 1), "O");
    assert_eq!(s.cell_display(2, 2), " ");
}

#[test]
fn default_is_a_fresh_game() {
    let s = GameState::default();
    assert!(same_state(&s, &GameState::new()));
}
