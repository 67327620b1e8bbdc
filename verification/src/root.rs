//! the bookkeeping of the iterative deepening search at the root: which move
//! is best so far, its principal variation, and the totals reported to the
//! interface
use vstd::prelude::*;
use std::sync::Arc;
use std::sync::RwLock;
use crate::board::{BoardState, legal_moves, after_move, movegen_new, movegen_moves, in_mask};
use crate::negamax::{negamax, node_result, callable};
use crate::opts::EngineOpts;
use crate::quiescence::sound_eval;
use crate::search::{SearchOptions, root_options, SEARCH_PATH_LEN};
use crate::table::VL;
use crate::ordering::{prio_iterator, take_rest, to_come, captures_kept, removed_by, distinct_to_come};
use crate::pieces::Move;
use crate::position::Position;
use crate::search::{MV, SearchResult};
use crate::position::resets_clock;
use crate::values::{Depth, Value, MIN_SCORE, MAX_PLY};

verus! {

/// The root node of the search
#[derive(Debug)]
pub struct RootNode {
    /// the current board state
    pub board: Position,
    /// the principal variation
    pub pv: Vec<MV>,
    /// the current evaluation of the root node
    pub eval: Value,
    /// the previous evaluation of the root node
    pub previous_eval: Value,
}

impl RootNode {
    /// the root of a search from `board`, with nothing searched yet
    pub fn new(board: Position) -> (r: RootNode)
        ensures
            r.board == board,
            r.pv@.len() == 0,
            r.eval == Value::spec_min_legal(),
            r.previous_eval == Value::spec_min_legal(),
    {
        RootNode { board, pv: Vec::new(), eval: Value::min_legal(), previous_eval: Value::min_legal() }
    }

    /// a depth is done: its best value becomes the root's evaluation, and the
    /// evaluation before it the previous one
    pub fn finish_depth(&mut self, best_value: Value)
        ensures
            final(self).previous_eval == old(self).eval,
            final(self).eval == best_value,
            final(self).board == old(self).board,
            final(self).pv@ == old(self).pv@,
    {
        self.previous_eval = self.eval;
        self.eval = best_value;
    }
}

/// what the iterative deepening loop keeps while it goes through the moves
/// of the root, depth after depth
#[derive(Debug, Clone, Copy, PartialEq, Eq, Structural)]
pub struct RootTally {
    /// the best move found so far
    pub best_move: Option<Move>,
    /// its value, at the depth being searched
    pub best_value: Value,
    /// all the nodes searched, over every depth
    pub total_nodes: u32,
    /// all the transposition table hits
    pub tb_hits: u32,
    /// the deepest line any root move reached
    pub max_depth: Depth,
    /// the shallowest line any root move reached
    pub min_depth: Depth,
}

/// the tally a search starts from
pub open spec fn initial_tally() -> RootTally {
    RootTally {
        best_move: None,
        best_value: Value::spec_min_legal(),
        total_nodes: 0,
        tb_hits: 0,
        max_depth: Depth(0),
        min_depth: Depth(MAX_PLY / 2),
    }
}

/// the larger of two depths
pub open spec fn deeper(a: Depth, b: Depth) -> Depth {
    if a.0 >= b.0 {
        a
    } else {
        b
    }
}

/// the smaller of two depths
pub open spec fn shallower(a: Depth, b: Depth) -> Depth {
    if a.0 <= b.0 {
        a
    } else {
        b
    }
}

impl RootTally {
    /// nothing searched yet: no best move, the lowest value, no nodes, and
    /// the depth range still empty
    pub fn new() -> (r: RootTally)
        ensures
            r == initial_tally(),
    {
        RootTally {
            best_move: None,
            best_value: Value::min_legal(),
            total_nodes: 0,
            tb_hits: 0,
            max_depth: Depth::zero(),
            min_depth: Depth::max_depth(),
        }
    }

    /// a new depth begins: the best value is searched for afresh, the best
    /// move and the totals carry over
    pub fn start_depth(&mut self)
        ensures
            *final(self) == (RootTally { best_value: Value::spec_min_legal(), ..*old(self) }),
    {
        self.best_value = Value::min_legal();
    }

    /// count the search of one root move: its nodes and the move itself, its
    /// table hits, and the depth it reached. Where it beats the best value so
    /// far it becomes the best move, the root's principal variation becomes
    /// this move followed by the one the search found, and the move and its
    /// value are returned as the new best guess.
    pub fn record(&mut self, root: &mut RootNode, mv: Move, result: SearchResult) -> (guess: Option<MV>)
        requires
            old(self).total_nodes + result.nodes_searched + 1 <= u32::MAX,
            old(self).tb_hits + result.tb_hits <= u32::MAX,
        ensures
            final(self).total_nodes == old(self).total_nodes + result.nodes_searched + 1,
            final(self).best_value.0 >= old(self).best_value.0,
            final(self).tb_hits == old(self).tb_hits + result.tb_hits,
            final(self).max_depth == deeper(old(self).max_depth, result.depth),
            final(self).min_depth == shallower(old(self).min_depth, result.depth),
            final(root).board == old(root).board,
            final(root).eval == old(root).eval,
            final(root).previous_eval == old(root).previous_eval,
            result.next_position_value.0 > old(self).best_value.0 ==> {
                &&& final(self).best_value == result.next_position_value
                &&& final(self).best_move == Some(mv)
                &&& final(root).pv@ == seq![MV(mv, result.next_position_value)] + result.pv@
                &&& guess == Some(MV(mv, result.next_position_value))
            },
            result.next_position_value.0 <= old(self).best_value.0 ==> {
                &&& final(self).best_value == old(self).best_value
                &&& final(self).best_move == old(self).best_move
                &&& final(root).pv@ == old(root).pv@
                &&& guess is None
            },
    {
        self.total_nodes = self.total_nodes + result.nodes_searched + 1;
        self.tb_hits = self.tb_hits + result.tb_hits;
        if result.depth.0 > self.max_depth.0 {
            self.max_depth = result.depth;
        }
        if result.depth.0 < self.min_depth.0 {
            self.min_depth = result.depth;
        }
        if result.next_position_value.0 > self.best_value.0 {
            let value = result.next_position_value;
            self.best_value = value;
            self.best_move = Some(mv);
            let mut pv = Vec::new();
            pv.push(MV(mv, value));
            let mut rest = result.pv;
            pv.append(&mut rest);
            root.pv = pv;
            Some(MV(mv, value))
        } else {
            None
        }
    }
}

/// is there time for one more depth? the next depth is expected to take the
/// last one's time `(1 + depth) / 3` times over, and it is not started where
/// that would run past the deadline
pub open spec fn time_for_next_depth(last_depth_nanos: u128, target_depth: Depth, time_left: Option<i128>) -> bool {
    match time_left {
        Some(left) => left >= last_depth_nanos * ((1 + target_depth.0) / 3),
        None => true,
    }
}

/// should the search go one depth deeper, given how long the depth just
/// finished took, which depth that was, and how long is left until the
/// deadline, if there is one?
pub fn worth_deepening(last_depth_nanos: u128, target_depth: Depth, time_left: Option<i128>) -> (r: bool)
    requires
        target_depth.0 < u16::MAX,
        last_depth_nanos * ((1 + target_depth.0) / 3) <= u128::MAX,
    ensures
        r == time_for_next_depth(last_depth_nanos, target_depth, time_left),
{
    let factor: u128 = ((1 + target_depth.0) / 3) as u128;
    let estimate: u128 = last_depth_nanos * factor;
    match time_left {
        Some(left) => left >= 0 && left as u128 >= estimate,
        None => true,
    }
}

/// the moves of the root in the order they are searched: `first` (the first
/// move of the last principal variation) where it is given, then every other
/// legal move, in the ordering's order; a move between the same two squares
/// as `first` is only searched as `first`
pub fn root_moves(board: &BoardState, first: Option<Move>) -> (r: Vec<Move>)
    requires
        crate::board::generable(board@),
        first matches Some(m) ==> m.on_board(),
    ensures
        first matches Some(m) ==> r@.len() >= 1 && r@[0] == m,
        forall|k: int| 0 <= k < r@.len() && !(first is Some && k == 0) ==> legal_moves(board@).contains(
            #[trigger] r@[k],
        ),
        forall|x: Move| #[trigger] legal_moves(board@).contains(x) ==> r@.contains(x) || (first matches Some(m)
            && m.source == x.source && m.dest == x.dest),
        first is None || board@.en_passant is None ==> r@.no_duplicates(),
{
    let ghost legal = legal_moves(board@);
    let mut prio: Vec<Move> = Vec::new();
    if let Some(m) = first {
        prio.push(m);
    }
    let base = movegen_new(board);
    let mut ordering = prio_iterator(base, board, prio.as_slice());
    let ghost start = ordering;
    let ghost opp = board@.color_bb(board@.side_to_move.spec_other());
    let ghost caps = ordering.prio().subrange(0, ordering.prio().len() - prio@.len());
    proof {
        assert forall|x: Move| #[trigger] legal.contains(x) && !removed_by(prio@, x) implies to_come(start, x) by {
            if in_mask(opp, x) {
                assert(captures_kept(movegen_moves(base), prio@, opp).contains(x));
                assert(caps.to_set().contains(x));
                let i = choose|i: int| 0 <= i < caps.len() && caps[i] == x;
                assert(ordering.prio()[i] == x);
            }
        }
        assert forall|x: Move| #[trigger] caps.contains(x) implies legal.contains(x) by {
            assert(caps.to_set().contains(x));
        }
    }
    let mut moves: Vec<Move> = Vec::new();
    if first.is_some() {
        if let Some(m) = ordering.next_move() {
            moves.push(m);
        }
    }
    let ghost after_head = ordering;
    proof {
        if first is Some {
            let p = start.prio();
            assert(p.subrange(p.len() - 1, p.len() as int) == prio@);
            assert(p.subrange(p.len() - 1, p.len() as int)[0] == p.last());
            assert(moves@[0] == first.unwrap());
        }
        assert forall|x: Move| #[trigger] to_come(after_head, x) implies legal.contains(x) by {
            if after_head.prio().contains(x) {
                let i = choose|i: int| 0 <= i < after_head.prio().len() && after_head.prio()[i] == x;
                assert(i < caps.len());
                assert(start.prio()[i] == x);
                assert(caps[i] == x);
                assert(caps.contains(x));
            }
        }
        assert forall|x: Move| #[trigger] to_come(start, x) implies to_come(after_head, x) || moves@.contains(x) by {
            if first is Some && start.prio().contains(x) && !after_head.prio().contains(x) {
                let i = choose|i: int| 0 <= i < start.prio().len() && start.prio()[i] == x;
                if i < start.prio().len() - 1 {
                    assert(after_head.prio()[i] == x);
                }
                assert(moves@[0] == x);
            }
        }
    }
    let ghost head = moves@;
    let ghost distinct = first is None || board@.en_passant is None;
    proof {
        if distinct {
            let g = after_head.generated();
            assert(after_head.prio() == caps) by {
                if first is None {
                    assert(caps == start.prio());
                } else {
                    assert(start.prio().drop_last() =~= caps);
                }
            }
            assert forall|x: Move| #[trigger] after_head.prio().contains(x) implies !g.contains(x) by {
                assert(caps.to_set().contains(x));
            }
            assert(distinct_to_come(after_head));
            if let Some(m) = first {
                assert(removed_by(prio@, m)) by {
                    assert(prio@[0] == m);
                }
                assert(!caps.contains(m)) by {
                    if caps.contains(m) {
                        assert(caps.to_set().contains(m));
                    }
                }
                assert(!to_come(after_head, m));
            }
        }
    }
    take_rest(&mut ordering, &mut moves);
    proof {
        if first is Some {
            assert(moves@[0] == head[0]);
        }
        assert forall|k: int| 0 <= k < moves@.len() && !(first is Some && k == 0) implies legal.contains(#[trigger] moves@[k]) by {
            if k >= head.len() {
                assert(to_come(after_head, moves@[k]));
            }
        }
        assert forall|x: Move| #[trigger] legal.contains(x) implies moves@.contains(x) || (first matches Some(m)
            && m.source == x.source && m.dest == x.dest) by {
            if !removed_by(prio@, x) {
                assert(to_come(start, x));
                if head.contains(x) {
                    let i = choose|i: int| 0 <= i < head.len() && head[i] == x;
                    assert(moves@[i] == x);
                }
            } else {
                let i = choose|i: int| 0 <= i < prio@.len() && (#[trigger] prio@[i]).source == x.source && prio@[i].dest == x.dest;
                assert(prio@[i] == first.unwrap());
            }
        }
        if distinct {
            let rest = moves@.subrange(head.len() as int, moves@.len() as int);
            assert forall|i: int, j: int| 0 <= i < j < moves@.len() implies moves@[i] != moves@[j] by {
                if i >= head.len() {
                    assert(moves@[i] == rest[i - head.len()] && moves@[j] == rest[j - head.len()]);
                } else {
                    assert(to_come(after_head, moves@[j]));
                }
            }
        }
    }
    moves
}

/// search one move `mv` of the root, `target_depth` plies deep in all (at
/// least one), with the game played so far in `history`: the position after
/// it is searched in the window from `alpha`, the best score found so far at
/// this depth, up to the highest legal score, and its score is turned to the
/// side to move at the root
pub fn search_root_move<E: Fn(&Position, bool) -> Value, K: Fn() -> bool>(
    root: &Position,
    mv: Move,
    target_depth: Depth,
    alpha: Value,
    history: &[u64],
    opts: &EngineOpts,
    table: &Arc<RwLock<VL>>,
    eval: &E,
    searching: &K,
) -> (r: SearchResult)
    requires
        callable(*eval, *searching),
        legal_moves(root.chessboard@).contains(mv),
        mv.on_board(),
        root.halfmove_clock < usize::MAX,
        crate::board::playable(root.chessboard@),
        target_depth.0 >= 1,
        alpha.0 != i16::MIN,
        history@.len() + SEARCH_PATH_LEN <= usize::MAX,
    ensures
        exists|next: Position, o: SearchOptions, child: SearchResult| {
            &&& next.chessboard@ == after_move(root.chessboard@, mv)
            &&& next.halfmove_clock == (if resets_clock(root.chessboard@, mv) {
                0
            } else {
                root.halfmove_clock + 1
            })
            &&& root_options(o, history@)
            &&& #[trigger] node_result(next, Depth((target_depth.0 - 1) as u16), alpha, Value::spec_max_legal(), *opts, o, *eval, *searching, child)
            &&& r == (SearchResult { next_position_value: Value((-child.next_position_value.0) as i16), ..child })
        },
{
    let next = root.make_move(mv);
    let options = SearchOptions::new(history);
    let child = negamax(next, Depth(target_depth.0 - 1), alpha, Value::max_legal(), options, opts, table, eval, searching);
    let value = Value(-child.next_position_value.0);
    let ghost c = child;
    let r = SearchResult { next_position_value: value, ..child };
    proof {
        assert(root_options(options, history@));
        assert(r == (SearchResult { next_position_value: Value((-c.next_position_value.0) as i16), ..c }));
    }
    r
}

/// what the interface keeps while a search reports to it: the best move it
/// was told of, and the move the engine expects in reply
#[derive(Debug, Clone, Copy, PartialEq, Eq, Structural)]
pub struct Reports {
    /// the best move reported, with its value
    pub best: Option<MV>,
    /// the reply the engine would ponder on
    pub ponder: Option<MV>,
}

impl Reports {
    /// nothing reported yet
    pub fn new() -> (r: Reports)
        ensures
            r.best is None,
            r.ponder is None,
    {
        Reports { best: None, ponder: None }
    }

    /// the best move of a finished depth: it replaces whatever came before
    pub fn best_move(&mut self, mv: MV)
        ensures
            final(self).best == Some(mv),
            final(self).ponder == old(self).ponder,
    {
        self.best = Some(mv);
    }

    /// the reply to ponder on
    pub fn ponder_move(&mut self, mv: MV)
        ensures
            final(self).ponder == Some(mv),
            final(self).best == old(self).best,
    {
        self.ponder = Some(mv);
    }

    /// a guess from a depth still being searched: kept only where nothing
    /// was reported yet, or it is worth more than the best so far
    pub fn best_guess(&mut self, mv: MV)
        ensures
            final(self).best == (match old(self).best {
                Some(b) => if b.1.0 < mv.1.0 {
                    Some(mv)
                } else {
                    Some(b)
                },
                None => Some(mv),
            }),
            final(self).ponder == old(self).ponder,
    {
        let better = match self.best {
            Some(b) => b.1.0 < mv.1.0,
            None => true,
        };
        if better {
            self.best = Some(mv);
        }
    }

    /// what a `go` answers once the search is over: the best move reported,
    /// else `fallback` (a legal move kept aside; `None` only where there is
    /// none), and a move to ponder on only next to a reported best move
    pub fn answer(&self, fallback: Option<Move>) -> (r: (Option<Move>, Option<Move>))
        ensures
            r.0 == (match self.best {
                Some(b) => Some(b.0),
                None => fallback,
            }),
            r.1 == (match (self.best, self.ponder) {
                (Some(_), Some(p)) => Some(p.0),
                _ => None,
            }),
    {
        let mv = match self.best {
            Some(b) => Some(b.0),
            None => fallback,
        };
        let ponder = match (self.best, self.ponder) {
            (Some(_), Some(p)) => Some(p.0),
            _ => None,
        };
        (mv, ponder)
    }
}

} // verus!
