//! the decisions the negamax search takes at each node: what a
//! transposition table entry does to the alpha-beta window, which bound a
//! result is stored with, how mate scores count the distance to the mate,
//! and how deep the children are searched
use vstd::prelude::*;
use crate::bounds::EvalBound;
use crate::entry::TableEntry;
use crate::values::{Depth, Value, MATE_IN_MAX_PLY_SCORE};

verus! {

/// what a table entry does to a search: it answers the search outright, or
/// the search goes on in this window
#[derive(Debug, Clone, Copy, PartialEq, Eq, Structural)]
pub enum Probe {
    /// the entry's result is the node's result
    Cutoff,
    /// search on with this alpha and beta
    Window(Value, Value),
}

/// what an entry of `entry_depth`, `bound` and `eval` does to a search to
/// `to_depth` in the window `alpha`..`beta`: an entry from a shallower search
/// leaves the window alone; an exact one answers; a lower bound raises alpha
/// and an upper bound lowers beta, answering where the window closes
pub open spec fn probed(entry_depth: Depth, bound: EvalBound, eval: Value, to_depth: Depth, alpha: Value, beta: Value) -> Probe {
    if entry_depth.0 < to_depth.0 {
        Probe::Window(alpha, beta)
    } else {
        match bound {
            EvalBound::Exact => Probe::Cutoff,
            EvalBound::LowerBound => {
                let a = if eval.0 > alpha.0 { eval } else { alpha };
                if a.0 >= beta.0 {
                    Probe::Cutoff
                } else {
                    Probe::Window(a, beta)
                }
            },
            EvalBound::UpperBound => {
                let b = if eval.0 < beta.0 { eval } else { beta };
                if alpha.0 >= b.0 {
                    Probe::Cutoff
                } else {
                    Probe::Window(alpha, b)
                }
            },
        }
    }
}

/// what a valid table entry does to a search to `to_depth` in the window
/// `alpha`..`beta`
pub fn probe(entry: &TableEntry, to_depth: Depth, alpha: Value, beta: Value) -> (r: Probe)
    requires
        entry.bound_code() != 3,
    ensures
        r == probed(entry.spec_depth(), EvalBound::from_code(entry.bound_code()), entry.spec_eval(), to_depth, alpha, beta),
{
    if entry.depth().0 < to_depth.0 {
        return Probe::Window(alpha, beta);
    }
    let eval = entry.eval();
    match entry.bound() {
        EvalBound::Exact => Probe::Cutoff,
        EvalBound::LowerBound => {
            let a = if eval.0 > alpha.0 { eval } else { alpha };
            if a.0 >= beta.0 {
                Probe::Cutoff
            } else {
                Probe::Window(a, beta)
            }
        },
        EvalBound::UpperBound => {
            let b = if eval.0 < beta.0 { eval } else { beta };
            if alpha.0 >= b.0 {
                Probe::Cutoff
            } else {
                Probe::Window(alpha, b)
            }
        },
    }
}

/// the bound a node's result is stored with: at or below the alpha the node
/// was searched with it is an upper bound, at or above beta a lower bound,
/// and in between exact
pub open spec fn bound_of(value: Value, alpha: Value, beta: Value) -> EvalBound {
    if value.0 <= alpha.0 {
        EvalBound::UpperBound
    } else if value.0 >= beta.0 {
        EvalBound::LowerBound
    } else {
        EvalBound::Exact
    }
}

/// the bound a node's result is stored with
pub fn store_bound(value: Value, alpha: Value, beta: Value) -> (r: EvalBound)
    ensures
        r == bound_of(value, alpha, beta),
{
    if value.0 <= alpha.0 {
        EvalBound::UpperBound
    } else if value.0 >= beta.0 {
        EvalBound::LowerBound
    } else {
        EvalBound::Exact
    }
}

/// a mate score one ply further from the mate: mates within the horizon
/// count one ply down toward zero, every other score stays
pub open spec fn farther_from_mate(v: Value) -> Value {
    if v.0 >= MATE_IN_MAX_PLY_SCORE {
        Value((v.0 - 1) as i16)
    } else if v.0 <= -MATE_IN_MAX_PLY_SCORE {
        Value((v.0 + 1) as i16)
    } else {
        v
    }
}

/// the best value of a node, as its parent sees it one ply from the mate
pub fn mate_distance(best: Value) -> (r: Value)
    ensures
        r == farther_from_mate(best),
{
    let mut v = best;
    if v.0 >= MATE_IN_MAX_PLY_SCORE {
        v.0 = v.0 - 1;
    } else if v.0 <= -MATE_IN_MAX_PLY_SCORE {
        v.0 = v.0 + 1;
    }
    v
}

/// the depth the children of a node are searched to: nothing more once the
/// line has been extended as far as it may be; otherwise one ply less, or as
/// deep again where the node has three moves or fewer
pub open spec fn child_depth(to_depth: Depth, extensions: Depth, max_extend: Depth, few_moves: bool) -> Depth {
    if extensions.0 >= max_extend.0 {
        Depth(0)
    } else if few_moves {
        to_depth
    } else {
        Depth((to_depth.0 - 1) as u16)
    }
}

/// the depth the children of a node to `to_depth` (at least one ply) are
/// searched to
pub fn next_depth(to_depth: Depth, extensions: Depth, max_extend: Depth, few_moves: bool) -> (r: Depth)
    requires
        to_depth.0 >= 1,
    ensures
        r == child_depth(to_depth, extensions, max_extend, few_moves),
{
    if extensions.0 >= max_extend.0 {
        Depth(0)
    } else if few_moves {
        to_depth
    } else {
        Depth(to_depth.0 - 1)
    }
}

/// a probe never widens the window: where the search goes on, alpha is no
/// lower and beta no higher than before, and an entry from a deep enough
/// search leaves a window that is still open
pub proof fn lemma_probe_narrows(entry_depth: Depth, bound: EvalBound, eval: Value, to_depth: Depth, alpha: Value, beta: Value)
    ensures
        probed(entry_depth, bound, eval, to_depth, alpha, beta) matches Probe::Window(a, b) ==> {
            &&& a.0 >= alpha.0
            &&& b.0 <= beta.0
            &&& entry_depth.0 >= to_depth.0 ==> a.0 < b.0
        },
{
}

/// a result stored from a search as deep as the one that finds it answers
/// that search again where it is exact, or where the search's window lies
/// on the same side of it: a result that failed high at beta fails high
/// again at that beta, whatever alpha, and one that failed low at alpha
/// fails low again at that alpha, whatever beta
pub proof fn lemma_stored_result_answers_again(
    value: Value,
    stored_alpha: Value,
    stored_beta: Value,
    entry_depth: Depth,
    to_depth: Depth,
    alpha: Value,
    beta: Value,
)
    requires
        entry_depth.0 >= to_depth.0,
    ensures
        bound_of(value, stored_alpha, stored_beta) == EvalBound::Exact ==> probed(
            entry_depth,
            EvalBound::Exact,
            value,
            to_depth,
            alpha,
            beta,
        ) == Probe::Cutoff,
        bound_of(value, stored_alpha, stored_beta) == EvalBound::LowerBound && beta.0 <= stored_beta.0 ==> probed(
            entry_depth,
            EvalBound::LowerBound,
            value,
            to_depth,
            alpha,
            beta,
        ) == Probe::Cutoff,
        bound_of(value, stored_alpha, stored_beta) == EvalBound::UpperBound && alpha.0 >= stored_alpha.0 ==> probed(
            entry_depth,
            EvalBound::UpperBound,
            value,
            to_depth,
            alpha,
            beta,
        ) == Probe::Cutoff,
{
}

/// a mate found deeper in the tree is counted one ply farther away at each
/// node above it, and never stops being a mate score of the same side
pub proof fn lemma_mate_distance_counts_plies(v: Value)
    requires
        v.0 >= MATE_IN_MAX_PLY_SCORE || v.0 <= -MATE_IN_MAX_PLY_SCORE,
    ensures
        v.0 > 0 ==> farther_from_mate(v).0 == v.0 - 1,
        v.0 < 0 ==> farther_from_mate(v).0 == v.0 + 1,
        v.0 > 0 ==> farther_from_mate(v).0 >= MATE_IN_MAX_PLY_SCORE - 1,
        v.0 < 0 ==> farther_from_mate(v).0 <= -MATE_IN_MAX_PLY_SCORE + 1,
{
}

} // verus!
