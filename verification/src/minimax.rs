//! Depth-limited minimax with alpha-beta pruning.
//!
//! `minimax_spec` is the plain, unpruned tree walk: at a maximizing node
//! the best child score, at a minimizing node the worst, and the static
//! evaluation at the leaves.  The executable `alpha_beta` prunes, and its
//! contract proves that pruning never changes the answer: `minimax`
//! returns exactly the unpruned score.

use vstd::prelude::*;
use crate::board::Board;
use crate::board::Turn;
use crate::board::lemma_children_spec_wf;

verus! {

/// The larger of two values.
pub open spec fn max_i(a: int, b: int) -> int {
    if a >= b {
        a
    } else {
        b
    }
}

/// The smaller of two values.
pub open spec fn min_i(a: int, b: int) -> int {
    if a <= b {
        a
    } else {
        b
    }
}

/// The unpruned minimax score of `b` for `me` at the given search depth:
/// the static evaluation at depth zero or at a terminal node, otherwise
/// the best (or, for the opponent, worst) score among the children.
pub open spec fn minimax_spec(b: Board, me: Turn, depth: int) -> int
    decreases depth, 0int, 0nat,
{
    if depth <= 0 || b.children_spec().len() == 0 {
        b.eval_spec(me)
    } else {
        best_score_spec(b.children_spec(), me, depth - 1, b.turn == me)
    }
}

/// The best score among `cs` when maximizing, the worst when not.
pub open spec fn best_score_spec(cs: Seq<Board>, me: Turn, depth: int, maximizing: bool) -> int
    decreases depth, 1int, cs.len(),
{
    if cs.len() <= 1 {
        minimax_spec(cs[0], me, depth)
    } else {
        let rest = best_score_spec(cs.drop_last(), me, depth, maximizing);
        let last = minimax_spec(cs.last(), me, depth);
        if maximizing {
            max_i(rest, last)
        } else {
            min_i(rest, last)
        }
    }
}

/// Evaluations, and hence minimax scores, stay within the fixed band of
/// the positional table.
pub proof fn lemma_minimax_bounds(b: Board, me: Turn, depth: int)
    requires
        b.wf(),
    ensures
        -2880 <= minimax_spec(b, me, depth) <= 2880,
    decreases depth, 0int, 0nat,
{
    if depth <= 0 || b.children_spec().len() == 0 {
        crate::board::lemma_eval_bounds(b, me);
    } else {
        lemma_children_spec_wf(b);
        lemma_best_bounds(b.children_spec(), me, depth - 1, b.turn == me);
    }
}

proof fn lemma_best_bounds(cs: Seq<Board>, me: Turn, depth: int, maximizing: bool)
    requires
        cs.len() >= 1,
        forall|i: int| 0 <= i < cs.len() ==> (#[trigger] cs[i]).wf(),
    ensures
        -2880 <= best_score_spec(cs, me, depth, maximizing) <= 2880,
    decreases depth, 1int, cs.len(),
{
    if cs.len() <= 1 {
        lemma_minimax_bounds(cs[0], me, depth);
    } else {
        lemma_best_bounds(cs.drop_last(), me, depth, maximizing);
        lemma_minimax_bounds(cs.last(), me, depth);
    }
}

/// The best score is no worse than any single element's score.
proof fn lemma_best_element(cs: Seq<Board>, me: Turn, depth: int, maximizing: bool, i: int)
    requires
        0 <= i < cs.len(),
    ensures
        maximizing ==> best_score_spec(cs, me, depth, maximizing) >= minimax_spec(cs[i], me, depth),
        !maximizing ==> best_score_spec(cs, me, depth, maximizing) <= minimax_spec(
            cs[i],
            me,
            depth,
        ),
    decreases cs.len(),
{
    if cs.len() <= 1 {
    } else {
        if i < cs.len() - 1 {
            lemma_best_element(cs.drop_last(), me, depth, maximizing, i);
        }
    }
}

/// Returns the unpruned minimax score of `board` for `me`: pruning never
/// changes the chosen score.
pub fn minimax(board: &Board, me: Turn, depth: i32) -> (r: i32)
    requires
        board.wf(),
    ensures
        r == minimax_spec(*board, me, depth as int),
{
    proof {
        lemma_minimax_bounds(*board, me, depth as int);
    }
    alpha_beta(board, me, depth, i32::MIN, i32::MAX)
}

/// Alpha-beta search inside the window `alpha < beta`: exact inside the
/// window, and a sound bound whenever the true score falls outside it.
fn alpha_beta(board: &Board, me: Turn, depth: i32, alpha: i32, beta: i32) -> (r: i32)
    requires
        board.wf(),
        alpha < beta,
    ensures
        minimax_spec(*board, me, depth as int) <= alpha ==> r <= alpha,
        minimax_spec(*board, me, depth as int) >= beta ==> r >= beta,
        alpha < minimax_spec(*board, me, depth as int) < beta ==> r == minimax_spec(
            *board,
            me,
            depth as int,
        ),
    decreases depth,
{
    if depth <= 0 {
        return board.eval_score(me);
    }

    let children = board.children();

    if children.len() == 0 {
        // game over
        return board.eval_score(me);
    }

    let ghost cs = board.children_spec();
    let ghost d = depth - 1;
    let ghost v = best_score_spec(cs, me, d as int, board.turn == me);
    proof {
        assert(minimax_spec(*board, me, depth as int) == best_score_spec(
            cs,
            me,
            depth - 1,
            board.turn == me,
        ));
    }

    if me == board.turn {
        let mut alpha_cur = alpha;
        let mut idx: usize = 0;
        while idx < children.len()
            invariant
                board.wf(),
                alpha < beta,
                depth >= 1,
                me == board.turn,
                children@ == cs,
                cs == board.children_spec(),
                d == depth - 1,
                v == best_score_spec(cs, me, d as int, true),
                forall|i: int| 0 <= i < children@.len() ==> (#[trigger] children@[i]).wf(),
                0 <= idx <= children.len(),
                alpha <= alpha_cur < beta,
                idx == 0 ==> alpha_cur == alpha,
                idx > 0 ==> alpha_cur == max_i(
                    alpha as int,
                    best_score_spec(cs.take(idx as int), me, d as int, true),
                ),
            decreases children.len() - idx,
        {
            let child = children[idx];
            let ab = alpha_beta(&child, me, depth - 1, alpha_cur, beta);
            let ghost vi = minimax_spec(cs[idx as int], me, d as int);
            proof {
                lemma_best_step(cs, me, d as int, true, idx as int);
                if idx > 0 {
                    assert(best_score_spec(cs.take(idx as int + 1), me, d as int, true) == max_i(
                        best_score_spec(cs.take(idx as int), me, d as int, true),
                        vi,
                    ));
                }
                if ab >= beta {
                    // the child refutes this node: its true score reaches beta
                    assert(vi >= beta);
                    lemma_best_element(cs, me, d as int, true, idx as int);
                }
            }
            if ab > alpha_cur {
                alpha_cur = ab;
            }
            if alpha_cur >= beta {
                return alpha_cur;
            }
            idx += 1;
        }
        proof {
            assert(cs.take(children@.len() as int) =~= cs);
        }
        alpha_cur
    } else {
        let mut beta_cur = beta;
        let mut idx: usize = 0;
        while idx < children.len()
            invariant
                board.wf(),
                alpha < beta,
                depth >= 1,
                me != board.turn,
                children@ == cs,
                cs == board.children_spec(),
                d == depth - 1,
                v == best_score_spec(cs, me, d as int, false),
                forall|i: int| 0 <= i < children@.len() ==> (#[trigger] children@[i]).wf(),
                0 <= idx <= children.len(),
                alpha < beta_cur <= beta,
                idx == 0 ==> beta_cur == beta,
                idx > 0 ==> beta_cur == min_i(
                    beta as int,
                    best_score_spec(cs.take(idx as int), me, d as int, false),
                ),
            decreases children.len() - idx,
        {
            let child = children[idx];
            let ab = alpha_beta(&child, me, depth - 1, alpha, beta_cur);
            let ghost vi = minimax_spec(cs[idx as int], me, d as int);
            proof {
                lemma_best_step(cs, me, d as int, false, idx as int);
                if idx > 0 {
                    assert(best_score_spec(cs.take(idx as int + 1), me, d as int, false) == min_i(
                        best_score_spec(cs.take(idx as int), me, d as int, false),
                        vi,
                    ));
                }
                if ab <= alpha {
                    assert(vi <= alpha);
                    lemma_best_element(cs, me, d as int, false, idx as int);
                }
            }
            if ab < beta_cur {
                beta_cur = ab;
            }
            if alpha >= beta_cur {
                return beta_cur;
            }
            idx += 1;
        }
        proof {
            assert(cs.take(children@.len() as int) =~= cs);
        }
        beta_cur
    }
}

/// Extending a prefix by one element combines its best score with the
/// element's score.
proof fn lemma_best_step(cs: Seq<Board>, me: Turn, depth: int, maximizing: bool, i: int)
    requires
        0 <= i < cs.len(),
    ensures
        i > 0 ==> best_score_spec(cs.take(i + 1), me, depth, maximizing) == (if maximizing {
            max_i(
                best_score_spec(cs.take(i), me, depth, maximizing),
                minimax_spec(cs[i], me, depth),
            )
        } else {
            min_i(
                best_score_spec(cs.take(i), me, depth, maximizing),
                minimax_spec(cs[i], me, depth),
            )
        }),
        i == 0 ==> best_score_spec(cs.take(1), me, depth, maximizing) == minimax_spec(
            cs[0],
            me,
            depth,
        ),
{
    if i == 0 {
        assert(cs.take(1).len() == 1);
        assert(cs.take(1)[0] == cs[0]);
    } else {
        let p = cs.take(i + 1);
        assert(p.len() == i + 1);
        assert(p.drop_last() =~= cs.take(i));
        assert(p.last() == cs[i]);
    }
}

} // verus!
