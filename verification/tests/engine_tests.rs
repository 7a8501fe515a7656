use flipout::bitboard;
use flipout::bitboard::Direction;
use flipout::board::{Board, Turn};
use flipout::minimax;

const D3: u64 = 1 << 44;
const C4: u64 = 1 << 37;
const F5: u64 = 1 << 26;
const E6: u64 = 1 << 19;
const D4: u64 = 1 << 36;
const E4: u64 = 1 << 35;
const D5: u64 = 1 << 28;
const E5: u64 = 1 << 27;

#[test]
fn start_position_counts() {
    let board = Board::new();
    assert_eq!(board.count_black(), 2);
    assert_eq!(board.count_white(), 2);
    assert_eq!(board.black & board.white, 0);
    assert_eq!(board.black, E4 | D5);
    assert_eq!(board.white, D4 | E5);
    assert!(board.is_black_turn());
    assert_eq!(board.count_stone(), 4);
    assert_eq!(board.count_hole(), 60);
    assert_eq!(board.legal_moves().count_ones(), 4);
}

#[test]
fn start_legal_moves_are_the_four_diagonal_cells() {
    let board = Board::new();
    assert_eq!(board.legal_moves(), D3 | C4 | F5 | E6);
    assert_eq!(board.legal_moves_as_vec(), vec![E6, F5, C4, D3]);
}

#[test]
fn move_at_d3_flips_exactly_d4() {
    let mut board = Board::new();
    assert_eq!(board.reversible_stones(D3), D4);
    assert_eq!(board.count_reversible_stones(D3), 1);
    board.put_stone(D3);
    assert_eq!(board.count_black(), 4);
    assert_eq!(board.count_white(), 1);
    assert_eq!(board.black, E4 | D5 | D3 | D4);
    assert_eq!(board.white, E5);
    assert!(!board.is_black_turn());
}

#[test]
fn put_stone_keeps_masks_disjoint_and_adds_one_stone() {
    // walk a short opening, checking the two invariants after every move
    let mut board = Board::new();
    for _ in 0..6 {
        let moves = board.legal_moves_as_vec();
        if moves.is_empty() {
            break;
        }
        let before = board.count_stone();
        board.put_stone(moves[0]);
        assert_eq!(board.black & board.white, 0);
        assert_eq!(board.count_stone(), before + 1);
    }
}

#[test]
fn legality_matches_reversible_stones_on_every_cell() {
    let mut boards = vec![Board::new()];
    let mut second = Board::new();
    second.put_stone(D3);
    boards.push(second);
    for board in boards {
        let moves = board.legal_moves();
        for i in 0..64 {
            let pos = 1u64 << i;
            let legal = board.is_legal_move(pos);
            assert_eq!(legal, board.reversible_stones(pos) != 0);
            assert_eq!(legal, moves & pos != 0);
        }
    }
}

#[test]
fn bitboard_level_generators_agree() {
    let board = Board::new();
    let moves = bitboard::legal_moves(board.black, board.white);
    for i in 0..64 {
        let pos = 1u64 << i;
        let rev = bitboard::reversible_stones(board.black, board.white, pos);
        assert_eq!(moves & pos != 0, rev != 0);
    }
}

#[test]
fn full_board_is_game_over() {
    let board = Board { black: u64::MAX ^ 0xF, white: 0xF, turn: Turn::Black };
    assert_eq!(board.count_hole(), 0);
    assert!(board.is_game_over());
    // endgame evaluation is the raw stone count difference
    assert_eq!(board.eval_score(Turn::Black), 60 - 4);
    assert_eq!(board.eval_score(Turn::White), 4 - 60);
}

// A synthetic near-full board: `a1` and `f8` empty, a single white stone
// at `g8`, black everywhere else.  Black can only play `f8`; white and
// (afterwards) black have nothing.
fn near_full_board() -> Board {
    let a1 = 1u64 << 63;
    let f8 = 1u64 << 2;
    let g8 = 1u64 << 1;
    Board { black: !(a1 | f8 | g8), white: g8, turn: Turn::Black }
}

#[test]
fn near_full_board_has_one_child_then_none() {
    let board = near_full_board();
    let f8 = 1u64 << 2;
    assert_eq!(board.legal_moves(), f8);
    assert!(!board.is_game_over());

    let children = board.children();
    assert_eq!(children.len(), 1);

    let child = children[0];
    assert_eq!(child.turn, Turn::White);
    assert_eq!(child.white, 0);
    assert_eq!(child.count_hole(), 1);
    assert!(child.children().is_empty());
    assert!(child.is_game_over());
}

#[test]
fn stuck_board_with_holes_is_game_over() {
    let board = near_full_board().children()[0];
    assert!(board.count_hole() > 0);
    assert_eq!(board.legal_moves(), 0);
    assert!(board.is_game_over());
}

#[test]
fn forced_pass_yields_exactly_one_child() {
    // white to move on the near-full board: white is stuck, black can play
    let mut board = near_full_board();
    board.turn = Turn::White;
    let children = board.children();
    assert_eq!(children.len(), 1);
    assert_eq!(children[0].turn, Turn::Black);
    assert_eq!(children[0].black, board.black);
    assert_eq!(children[0].white, board.white);
}

#[test]
fn start_evaluation_is_balanced() {
    let board = Board::new();
    assert_eq!(board.eval_score(Turn::Black), 0);
    assert_eq!(board.eval_score(Turn::White), 0);
}

#[test]
fn corner_bonus_and_neighbour_neutralization() {
    let a1 = 1u64 << 63;
    let b1 = 1u64 << 62;

    // black owns the corner and its neighbour: 30 + 1
    let board = Board { black: a1 | b1, white: 0, turn: Turn::Black };
    assert_eq!(board.eval_score(Turn::Black), 31);

    // the corner is occupied by white, so black's neighbour is still
    // neutralized: 1 against white's 30
    let board = Board { black: b1, white: a1, turn: Turn::Black };
    assert_eq!(board.eval_score(Turn::Black), 1 - 30);

    // an open corner: the neighbour keeps its penalty
    let board = Board { black: b1, white: 0, turn: Turn::Black };
    assert_eq!(board.eval_score(Turn::Black), -12);
}

fn plain_minimax(board: &Board, me: Turn, depth: i32) -> i32 {
    if depth <= 0 {
        return board.eval_score(me);
    }
    let children = board.children();
    if children.is_empty() {
        return board.eval_score(me);
    }
    let scores = children.iter().map(|c| plain_minimax(c, me, depth - 1));
    if me == board.turn {
        scores.max().unwrap()
    } else {
        scores.min().unwrap()
    }
}

#[test]
fn alpha_beta_matches_plain_minimax() {
    let mut mid = Board::new();
    mid.put_stone(D3);
    mid.put_stone(C4 >> 8); // c5, a reply for white
    let positions = vec![Board::new(), mid, near_full_board()];
    for board in positions {
        for depth in 0..=4 {
            for me in [Turn::Black, Turn::White] {
                assert_eq!(
                    minimax::minimax(&board, me, depth),
                    plain_minimax(&board, me, depth),
                    "depth {depth}"
                );
            }
        }
    }
}

#[test]
fn shift_moves_a_cell_one_step() {
    let e4 = 1u64 << 35;
    let e3 = 1u64 << 43;
    let f5 = 1u64 << 26;
    let a1 = 1u64 << 63;
    assert_eq!(bitboard::shift(e4, Direction::Up), e3);
    assert_eq!(bitboard::shift(e3, Direction::Down), e4);
    assert_eq!(bitboard::shift(e4, Direction::DownRight), f5);
    assert_eq!(bitboard::shift(f5, Direction::UpLeft), e4);
    // the edges drop what crosses them
    assert_eq!(bitboard::shift(a1, Direction::Up), 0);
    assert_eq!(bitboard::shift(a1, Direction::Left), 0);
    assert_eq!(bitboard::shift(a1, Direction::UpRight), 0);
    assert_eq!(bitboard::shift(1u64, Direction::Down), 0);
    assert_eq!(bitboard::shift(1u64, Direction::Right), 0);
}
