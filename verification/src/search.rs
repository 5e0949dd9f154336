//! The search engine: recursive negamax over the position capability and
//! the static evaluator, in two forms. `negamax_basic` expands every
//! child; `negamax_ab` prunes with an alpha-beta window. Both return the
//! negamax value `nmax` of the position — pruning never changes the
//! reported score, only the number of nodes expanded — together with the
//! principal variation, ordered from the deepest ply up to the move
//! played at the root (callers reverse it for reporting).

use vstd::prelude::*;

use crate::board::{ChessMove, Position, PositionV};
use crate::eval::{eval_of, evaluate, lemma_eval_bounds};
use crate::movegen::{applied, apply_move, checkmate_of, fen_position, is_checkmate, legal_moves, legal_moves_of, position_from_fen};
use crate::score::{
    SCORE_LOSS, SCORE_WIN, lemma_neg_score_antitone, lemma_neg_score_involutive, neg_score,
    score_neg, valid_score,
};

verus! {

/// A raw evaluation clamped onto the score scale.
pub open spec fn clamp_score(x: int) -> i64 {
    if x < SCORE_LOSS {
        SCORE_LOSS
    } else if x > SCORE_WIN {
        SCORE_WIN
    } else {
        x as i64
    }
}

/// The larger of two scores.
pub open spec fn max_score(a: i64, b: i64) -> i64 {
    if a >= b {
        a
    } else {
        b
    }
}

/// The negamax value of a position at a given depth, from the side to
/// move's perspective: the forced-loss sentinel on checkmate, the static
/// evaluation at depth zero, and otherwise the best saturating-negated
/// child value over all legal moves.
pub open spec fn nmax(p: PositionV, d: nat) -> i64
    decreases d, 1nat, 0nat,
{
    if checkmate_of(p) {
        SCORE_LOSS
    } else if d == 0 {
        clamp_score(eval_of(p))
    } else {
        best_of(p, d, legal_moves_of(p).len())
    }
}

/// The best negated child value over the first `n` legal moves, the
/// forced-loss sentinel when there is none: a stalemate or a dead end
/// counts as lost for the side to move.
pub open spec fn best_of(p: PositionV, d: nat, n: nat) -> i64
    decreases d, 0nat, n,
{
    if n == 0 || d == 0 {
        SCORE_LOSS
    } else {
        max_score(
            best_of(p, d, (n - 1) as nat),
            neg_score(nmax(applied(p, legal_moves_of(p)[n - 1]), (d - 1) as nat)),
        )
    }
}

/// Every negamax value lies on the score scale.
pub proof fn lemma_nmax_valid(p: PositionV, d: nat)
    ensures
        valid_score(nmax(p, d)),
    decreases d, 1nat, 0nat,
{
    if !checkmate_of(p) && d > 0 {
        lemma_best_valid(p, d, legal_moves_of(p).len());
    }
}

/// Every prefix best lies on the score scale.
pub proof fn lemma_best_valid(p: PositionV, d: nat, n: nat)
    ensures
        valid_score(best_of(p, d, n)),
    decreases d, 0nat, n,
{
    if n > 0 && d > 0 {
        lemma_best_valid(p, d, (n - 1) as nat);
        lemma_nmax_valid(applied(p, legal_moves_of(p)[n - 1]), (d - 1) as nat);
    }
}

/// The prefix best can only grow as more moves are considered.
pub proof fn lemma_best_mono(p: PositionV, d: nat, m: nat, n: nat)
    requires
        m <= n,
    ensures
        best_of(p, d, m) <= best_of(p, d, n),
    decreases n,
{
    if m < n && n > 0 {
        lemma_best_mono(p, d, m, (n - 1) as nat);
    }
}

/// Whenever more moves are considered, each one's negated value stays
/// below the prefix best.
pub proof fn lemma_best_of_covers(p: PositionV, d: nat, n: nat)
    requires
        d >= 1,
    ensures
        forall|j: int|
            0 <= j < n ==> neg_score(
                nmax(applied(p, #[trigger] legal_moves_of(p)[j]), (d - 1) as nat),
            ) <= best_of(p, d, n),
    decreases n,
{
    if n > 0 {
        lemma_best_of_covers(p, d, (n - 1) as nat);
    }
}

/// The move at index `k` is the earliest legal move attaining the best
/// score: the score equals its negated child value, and every earlier
/// move's negated child value is strictly below it — the carried line is
/// replaced only on a strictly greater score.
pub open spec fn earliest_at(p: PositionV, d: nat, m: ChessMove, s: i64, k: int) -> bool {
    &&& 0 <= k < legal_moves_of(p).len()
    &&& legal_moves_of(p)[k] == m
    &&& s == neg_score(nmax(applied(p, legal_moves_of(p)[k]), (d - 1) as nat))
    &&& forall|j: int|
        0 <= j < k ==> neg_score(
            nmax(applied(p, #[trigger] legal_moves_of(p)[j]), (d - 1) as nat),
        ) < s
}

/// The move played at a node is the earliest legal move attaining the
/// best score.
pub open spec fn root_move_earliest(p: PositionV, d: nat, m: ChessMove, s: i64) -> bool {
    exists|k: int| #[trigger] earliest_at(p, d, m, s, k)
}

/// A principal variation is consistent, ply by ply. The sequence is
/// ordered deepest first, so the move played at the root is its last
/// entry: that move is the earliest legal move attaining the node's
/// score, the score is the saturating negation of the child's negamax
/// value, and the rest of the sequence is a consistent variation of the
/// child at one less depth — so the reversed sequence is a legal line
/// from the root. The line ends only where the depth runs out or the
/// value is the forced-loss sentinel (a checkmate, a stalemate, or a
/// node whose every line loses), so elsewhere it reaches the full depth.
pub open spec fn pv_consistent(p: PositionV, line: Seq<ChessMove>, d: nat, s: i64) -> bool
    decreases line.len(),
{
    if line.len() == 0 {
        d == 0 || s == SCORE_LOSS
    } else {
        &&& d >= 1
        &&& s != SCORE_LOSS
        &&& root_move_earliest(p, d, line.last(), s)
        &&& pv_consistent(
            applied(p, line.last()),
            line.drop_last(),
            (d - 1) as nat,
            nmax(applied(p, line.last()), (d - 1) as nat),
        )
    }
}

/// The outcome of a search: the best score found and the principal
/// variation, ordered from the deepest ply up to the move played at the
/// root. The sequence is rebuilt from the child's sequence whenever a
/// strictly better score is found; callers reverse it to obtain
/// root-to-leaf order.
pub struct SearchResult {
    pub score: i64,
    pub moves: Vec<ChessMove>,
}

/// Exhaustive negamax without pruning: expands every legal move and
/// returns exactly the negamax value, with the principal variation.
pub fn negamax_basic(p: &Position, depth: usize) -> (r: SearchResult)
    requires
        p.wf(),
    ensures
        r.score == nmax(p@, depth as nat),
        valid_score(r.score),
        r.moves@.len() <= depth,
        checkmate_of(p@) ==> r.score == SCORE_LOSS && r.moves@.len() == 0,
        r.moves@.len() > 0 ==> depth >= 1 && r.score > SCORE_LOSS && legal_moves_of(
            p@,
        ).contains(r.moves@.last()) && r.score == neg_score(
            nmax(applied(p@, r.moves@.last()), (depth - 1) as nat),
        ),
        depth >= 1 && !checkmate_of(p@) && r.score > SCORE_LOSS ==> r.moves@.len() > 0,
        pv_consistent(p@, r.moves@, depth as nat, r.score),
    decreases depth,
{
    if is_checkmate(p) {
        return SearchResult { score: SCORE_LOSS, moves: Vec::new() };
    }
    if depth == 0 {
        let e = evaluate(p);
        proof {
            lemma_eval_bounds(p@);
        }
        return SearchResult { score: e, moves: Vec::new() };
    }
    let moves = legal_moves(p);
    let ghost ms = legal_moves_of(p@);
    let ghost dd = depth as nat;
    let mut value: i64 = SCORE_LOSS;
    let mut stack: Vec<ChessMove> = Vec::new();
    let mut i: usize = 0;
    while i < moves.len()
        invariant
            p.wf(),
            !checkmate_of(p@),
            depth >= 1,
            dd == depth as nat,
            moves@ == ms,
            ms == legal_moves_of(p@),
            0 <= i <= ms.len(),
            value == best_of(p@, dd, i as nat),
            valid_score(value),
            stack@.len() == 0 <==> value == SCORE_LOSS,
            stack@.len() <= depth,
            stack@.len() > 0 ==> ms.contains(stack@.last()) && value == neg_score(
                nmax(applied(p@, stack@.last()), (depth - 1) as nat),
            ),
            stack@.len() > 0 ==> pv_consistent(p@, stack@, dd, value),
        decreases ms.len() - i,
    {
        proof {
            assert(ms.contains(ms[i as int])) by {
                assert(0 <= (i as int) < ms.len() && ms[i as int] == ms[i as int]);
            }
        }
        let child = apply_move(p, &moves[i]);
        let cres = negamax_basic(&child, depth - 1);
        let new_value = score_neg(cres.score);
        proof {
            let t = neg_score(nmax(applied(p@, ms[i as int]), (depth - 1) as nat));
            assert(new_value == t);
            assert(best_of(p@, dd, (i + 1) as nat) == max_score(best_of(p@, dd, i as nat), t));
        }
        if new_value > value {
            proof {
                let ms_i = ms[i as int];
                let child_v = applied(p@, ms_i);
                let new_line = cres.moves@.push(ms_i);
                lemma_best_of_covers(p@, dd, i as nat);
                assert(new_line.last() == ms_i);
                assert(new_line.drop_last() =~= cres.moves@);
                assert(root_move_earliest(p@, dd, ms_i, new_value)) by {
                    assert(earliest_at(p@, dd, ms_i, new_value, i as int)) by {
                        assert(legal_moves_of(p@)[i as int] == ms_i);
                        assert(new_value == neg_score(
                            nmax(applied(p@, legal_moves_of(p@)[i as int]), (dd - 1) as nat),
                        ));
                        assert(forall|j: int|
                            0 <= j < i as int ==> neg_score(
                                nmax(applied(p@, #[trigger] legal_moves_of(p@)[j]), (
                                dd - 1) as nat),
                            ) < new_value);
                    }
                }
                assert(pv_consistent(child_v, cres.moves@, (dd - 1) as nat, nmax(child_v, (
                dd - 1) as nat)));
                assert(pv_consistent(p@, new_line, dd, new_value));
            }
            let mut new_stack = cres.moves;
            new_stack.push(moves[i]);
            stack = new_stack;
            value = new_value;
        }
        i += 1;
    }
    proof {
        assert(nmax(p@, dd) == best_of(p@, dd, ms.len()));
        if stack@.len() == 0 {
            assert(pv_consistent(p@, stack@, dd, SCORE_LOSS));
        }
    }
    if stack.len() == 0 {
        // Defensive fallback: no child improved on the sentinel, so the
        // position counts as lost for the side to move.
        SearchResult { score: SCORE_LOSS, moves: stack }
    } else {
        SearchResult { score: value, moves: stack }
    }
}

/// Negamax with alpha-beta pruning over the window `[alpha, beta]`.
/// Fail-hard bounds: a result at or below `alpha` proves the negamax
/// value is at most `alpha`, one at or past `beta` proves it is at least
/// `beta`, and one strictly inside the window is exact — so at the full
/// window the pruning search returns exactly the value the exhaustive
/// search returns.
pub fn negamax_ab(p: &Position, depth: usize, alpha: i64, beta: i64) -> (r: SearchResult)
    requires
        p.wf(),
        valid_score(alpha),
        valid_score(beta),
        alpha < beta,
    ensures
        valid_score(r.score),
        r.score <= alpha ==> nmax(p@, depth as nat) <= alpha,
        r.score >= beta ==> nmax(p@, depth as nat) >= beta,
        alpha < r.score < beta ==> r.score == nmax(p@, depth as nat),
        checkmate_of(p@) ==> r.score == SCORE_LOSS && r.moves@.len() == 0,
        r.moves@.len() <= depth,
        r.moves@.len() > 0 ==> depth >= 1 && r.score > SCORE_LOSS && legal_moves_of(
            p@,
        ).contains(r.moves@.last()),
        r.moves@.len() > 0 && alpha < r.score && (r.score < beta || beta == SCORE_WIN)
            ==> r.score == neg_score(nmax(applied(p@, r.moves@.last()), (depth - 1) as nat))
            && pv_consistent(p@, r.moves@, depth as nat, r.score),
        depth >= 1 && !checkmate_of(p@) && r.score > SCORE_LOSS ==> r.moves@.len() > 0,
    decreases depth,
{
    if is_checkmate(p) {
        return SearchResult { score: SCORE_LOSS, moves: Vec::new() };
    }
    if depth == 0 {
        let e = evaluate(p);
        proof {
            lemma_eval_bounds(p@);
        }
        return SearchResult { score: e, moves: Vec::new() };
    }
    let moves = legal_moves(p);
    let ghost ms = legal_moves_of(p@);
    let ghost dd = depth as nat;
    let mut value: i64 = SCORE_LOSS;
    let mut cur_alpha: i64 = alpha;
    let mut stack: Vec<ChessMove> = Vec::new();
    let mut i: usize = 0;
    while i < moves.len() && cur_alpha < beta
        invariant
            p.wf(),
            !checkmate_of(p@),
            depth >= 1,
            dd == depth as nat,
            moves@ == ms,
            ms == legal_moves_of(p@),
            0 <= i <= ms.len(),
            valid_score(alpha),
            valid_score(beta),
            alpha < beta,
            valid_score(value),
            valid_score(cur_alpha),
            cur_alpha == max_score(alpha, value),
            cur_alpha < beta ==> best_of(p@, dd, i as nat) <= max_score(alpha, value),
            cur_alpha < beta ==> value <= max_score(alpha, best_of(p@, dd, i as nat)),
            cur_alpha >= beta ==> best_of(p@, dd, i as nat) >= beta,
            stack@.len() == 0 <==> value == SCORE_LOSS,
            stack@.len() <= depth,
            stack@.len() > 0 ==> ms.contains(stack@.last()),
            stack@.len() > 0 && value > alpha && (value < beta || beta == SCORE_WIN)
                ==> value == neg_score(nmax(applied(p@, stack@.last()), (depth - 1) as nat))
                && pv_consistent(p@, stack@, dd, value),
        decreases ms.len() - i,
    {
        proof {
            assert(ms.contains(ms[i as int])) by {
                assert(0 <= (i as int) < ms.len() && ms[i as int] == ms[i as int]);
            }
            lemma_neg_score_antitone(cur_alpha, beta);
        }
        let child_alpha = score_neg(beta);
        let child_beta = score_neg(cur_alpha);
        let child = apply_move(p, &moves[i]);
        let cres = negamax_ab(&child, depth - 1, child_alpha, child_beta);
        let new_value = score_neg(cres.score);
        proof {
            let cv = nmax(applied(p@, ms[i as int]), (depth - 1) as nat);
            let t = neg_score(cv);
            lemma_nmax_valid(applied(p@, ms[i as int]), (depth - 1) as nat);
            lemma_neg_score_involutive(cres.score);
            lemma_neg_score_involutive(cv);
            lemma_neg_score_involutive(beta);
            lemma_neg_score_involutive(cur_alpha);
            // Translate the child's fail-hard clauses through negation.
            if new_value >= beta {
                lemma_neg_score_order(cres.score, child_alpha);
                assert(cres.score <= child_alpha);
                assert(t >= beta);
            }
            if new_value <= cur_alpha {
                assert(cres.score >= child_beta);
                assert(t <= cur_alpha);
            }
            if cur_alpha < new_value < beta {
                assert(child_alpha < cres.score < child_beta);
                assert(cres.score == cv);
                assert(new_value == t);
            }
            assert(best_of(p@, dd, (i + 1) as nat) == max_score(best_of(p@, dd, i as nat), t));
        }
        if new_value > value {
            proof {
                let ms_i = ms[i as int];
                let child_v = applied(p@, ms_i);
                let cv = nmax(child_v, (depth - 1) as nat);
                let new_line = cres.moves@.push(ms_i);
                assert(new_line.last() == ms_i);
                assert(new_line.drop_last() =~= cres.moves@);
                if new_value > alpha && (new_value < beta || beta == SCORE_WIN) {
                    // An update that lands inside the window (or tops a
                    // full window) carries an exact child value, so the
                    // consistency of the new line follows from the
                    // child's own clauses.
                    assert(new_value > cur_alpha);
                    if new_value < beta {
                        lemma_neg_score_antitone(new_value, beta);
                        lemma_neg_score_antitone(cur_alpha, new_value);
                        assert(child_alpha < cres.score < child_beta);
                        assert(cres.score == cv);
                    } else {
                        assert(beta == SCORE_WIN && new_value == SCORE_WIN);
                        assert(cres.score == SCORE_LOSS);
                        assert(cres.moves@.len() == 0);
                        assert(cv == SCORE_LOSS);
                    }
                    assert(pv_consistent(child_v, cres.moves@, (dd - 1) as nat, cv));
                    lemma_best_of_covers(p@, dd, i as nat);
                    assert(root_move_earliest(p@, dd, ms_i, new_value)) by {
                        assert(earliest_at(p@, dd, ms_i, new_value, i as int)) by {
                            assert(legal_moves_of(p@)[i as int] == ms_i);
                            assert(new_value == neg_score(
                                nmax(applied(p@, legal_moves_of(p@)[i as int]), (dd - 1) as nat),
                            ));
                            assert(forall|j: int|
                                0 <= j < i as int ==> neg_score(
                                    nmax(applied(p@, #[trigger] legal_moves_of(p@)[j]), (
                                    dd - 1) as nat),
                                ) < new_value);
                        }
                    }
                    assert(pv_consistent(p@, new_line, dd, new_value));
                }
            }
            let mut new_stack = cres.moves;
            new_stack.push(moves[i]);
            stack = new_stack;
            value = new_value;
        }
        if value > cur_alpha {
            cur_alpha = value;
        }
        i += 1;
    }
    proof {
        assert(nmax(p@, dd) == best_of(p@, dd, ms.len()));
        if cur_alpha >= beta {
            lemma_best_mono(p@, dd, i as nat, ms.len());
        }
    }
    if stack.len() == 0 {
        // Defensive fallback: no child improved on the sentinel, so the
        // position counts as lost for the side to move.
        SearchResult { score: SCORE_LOSS, moves: stack }
    } else {
        SearchResult { score: value, moves: stack }
    }
}

/// Comparing two negated scores compares the scores the other way: the
/// shape in which the child's window bounds come back.
proof fn lemma_neg_score_order(x: i64, y: i64)
    requires
        valid_score(x),
        valid_score(y),
    ensures
        neg_score(x) >= neg_score(y) ==> x <= y,
        neg_score(x) <= neg_score(y) ==> x >= y,
{
    if x < y {
        lemma_neg_score_antitone(x, y);
    }
    if y < x {
        lemma_neg_score_antitone(y, x);
    }
}

/// Search a position to a fixed depth with the full window: returns
/// exactly the negamax value and the principal variation. The score of a
/// non-empty variation is the saturating negation of the value of the
/// position reached by its first move, searched one ply shallower.
pub fn search(p: &Position, depth: usize) -> (r: SearchResult)
    requires
        p.wf(),
    ensures
        r.score == nmax(p@, depth as nat),
        valid_score(r.score),
        r.moves@.len() <= depth,
        checkmate_of(p@) ==> r.score == SCORE_LOSS && r.moves@.len() == 0,
        r.moves@.len() > 0 ==> depth >= 1 && legal_moves_of(p@).contains(r.moves@.last())
            && r.score == neg_score(nmax(applied(p@, r.moves@.last()), (depth - 1) as nat)),
        depth >= 1 && !checkmate_of(p@) && r.score > SCORE_LOSS ==> r.moves@.len() > 0,
        pv_consistent(p@, r.moves@, depth as nat, r.score),
{
    let r = negamax_ab(p, depth, SCORE_LOSS, SCORE_WIN);
    proof {
        lemma_nmax_valid(p@, depth as nat);
        if r.moves@.len() == 0 {
            assert(pv_consistent(p@, r.moves@, depth as nat, r.score));
        }
    }
    r
}

/// Parse a position from its standard notation and search it to a fixed
/// depth with the full window: what a driver does for each request. Text
/// that does not describe a position yields nothing.
pub fn search_fen(fen: &[u8], depth: usize) -> (r: Option<SearchResult>)
    ensures
        match r {
            Some(res) => fen_position(fen@) is Some && res.score == nmax(
                fen_position(fen@)->Some_0,
                depth as nat,
            ),
            None => fen_position(fen@) is None,
        },
{
    match position_from_fen(fen) {
        Some(p) => Some(search(&p, depth)),
        None => None,
    }
}

/// Pruning never changes the reported value: for one position and one
/// depth, the score of the pruning search at the full window and the
/// score of the exhaustive search are the same — both are the negamax
/// value of the position.
pub fn searches_agree(p: &Position, depth: usize) -> (r: (i64, i64))
    requires
        p.wf(),
    ensures
        r.0 == r.1,
        r.0 == nmax(p@, depth as nat),
{
    let pruned = search(p, depth);
    let exhaustive = negamax_basic(p, depth);
    (pruned.score, exhaustive.score)
}

/// A node's consistent variation is unique: for one position, depth and
/// score there is exactly one sequence the consistency relation admits —
/// so two conforming searches return the same line, not only the same
/// score.
pub proof fn lemma_pv_unique(p: PositionV, d: nat, s: i64, l1: Seq<ChessMove>, l2: Seq<ChessMove>)
    requires
        pv_consistent(p, l1, d, s),
        pv_consistent(p, l2, d, s),
    ensures
        l1 == l2,
    decreases l1.len(),
{
    if l1.len() == 0 {
        assert(l2.len() == 0);
        assert(l1 =~= l2);
    } else {
        assert(l2.len() != 0);
        let k1 = choose|k: int| earliest_at(p, d, l1.last(), s, k);
        let k2 = choose|k: int| earliest_at(p, d, l2.last(), s, k);
        assert(earliest_at(p, d, l1.last(), s, k1));
        assert(earliest_at(p, d, l2.last(), s, k2));
        if k1 < k2 {
            assert(neg_score(nmax(applied(p, legal_moves_of(p)[k1]), (d - 1) as nat)) < s);
        }
        if k2 < k1 {
            assert(neg_score(nmax(applied(p, legal_moves_of(p)[k2]), (d - 1) as nat)) < s);
        }
        assert(k1 == k2);
        assert(l1.last() == l2.last());
        lemma_pv_unique(
            applied(p, l1.last()),
            (d - 1) as nat,
            nmax(applied(p, l1.last()), (d - 1) as nat),
            l1.drop_last(),
            l2.drop_last(),
        );
        assert(l1 =~= l1.drop_last().push(l1.last()));
        assert(l2 =~= l2.drop_last().push(l2.last()));
        assert(l1 =~= l2);
    }
}

} // verus!
