//! Negamax search algorithm.
//!
//! https://en.wikipedia.org/wiki/Negamax
use vstd::prelude::*;
use std::sync::Arc;
use std::sync::RwLock;
use crate::board::{BoardState, playable, legal_moves, after_move, board_hash, movegen_new, movegen_len, movegen_remove, movegen_moves, movegen_promoting, movegen_unsplit, in_mask, is_legal, BoardView};
use crate::bounds::EvalBound;
use crate::entry::TableEntry;
use crate::opts::{EngineOpts, Opts};
use crate::ordering::{prio_iterator, take_moves, take_rest, to_come, captures_kept, removed_by, distinct_to_come};
use crate::pieces::{Move, has_square};
use crate::position::{Position, resets_clock};
use crate::quiescence::{quiescence, sound_eval, no_moves, quiesce_result, raised, negated};
use crate::search::{SearchOptions, SearchResult, MV, draw_rule, drawn_by_rule, root_options, SEARCH_PATH_LEN};
use crate::shared::{TT, shared_get, shared_insert};
use crate::table::{TEntry, VL};
use crate::values::{Depth, Value};
use crate::window::{Probe, probe, probed, store_bound, mate_distance, farther_from_mate, next_depth, child_depth};

verus! {

/// how many plies a line may be extended by, in all
pub const MAX_EXTEND: u16 = 8;

/// how many more plies a line with `extensions` so far may still be extended by
pub open spec fn extension_room(extensions: Depth) -> int {
    if extensions.0 < MAX_EXTEND {
        MAX_EXTEND - extensions.0
    } else {
        0
    }
}

/// the result of a node drawn by rule: a draw, with nothing searched below it
pub open spec fn drawn_result(r: SearchResult, from_draw: bool) -> bool {
    &&& r.pv@.len() == 0
    &&& r.next_position_value == Value(0)
    &&& r.nodes_searched == 1
    &&& r.tb_hits == 0
    &&& r.depth == Depth(1)
    &&& r.from_draw == from_draw
    &&& !r.aborted
}

/// the result a table entry `e` answers a search with
pub open spec fn entry_result(e: TableEntry, r: SearchResult) -> bool {
    &&& r.pv@ == seq![MV(e.spec_mv(), e.spec_eval())]
    &&& r.next_position_value == e.spec_eval()
    &&& r.nodes_searched == 1
    &&& r.tb_hits == 1
    &&& r.depth == e.spec_depth()
    &&& !r.from_draw
    &&& !r.aborted
}

/// the search of `pos` to `to_depth` in the window `alpha`..`beta` was
/// answered by a valid entry stored for the position's hash, as
/// [`probed`] decides
pub open spec fn answered_by_table(pos: Position, to_depth: Depth, alpha: Value, beta: Value, r: SearchResult) -> bool {
    exists|e: TableEntry| {
        &&& e.key == board_hash(pos.chessboard@)
        &&& e.spec_is_valid()
        &&& e.bound_code() != 3
        &&& probed(e.spec_depth(), EvalBound::from_code(e.bound_code()), e.spec_eval(), to_depth, alpha, beta) == Probe::Cutoff
        &&& entry_result(e, r)
    }
}

/// the first of the best children: the first one no later child beats
pub open spec fn best_child(s: Seq<MV>) -> MV
    decreases s.len(),
{
    if s.len() <= 1 {
        s[0]
    } else {
        let b = best_child(s.drop_last());
        if b.1.0 < s.last().1.0 {
            s.last()
        } else {
            b
        }
    }
}

/// the result of a node that searched the children `s` (each a legal move,
/// with its score for the side to move): the first best child heads the
/// principal variation, and its score is the node's, one ply farther from a
/// mate
pub open spec fn from_children(pos: Position, s: Seq<MV>, r: SearchResult) -> bool {
    &&& s.len() > 0
    &&& forall|i: int| 0 <= i < s.len() ==> legal_moves(pos.chessboard@).contains(#[trigger] s[i].0)
    &&& r.next_position_value == farther_from_mate(best_child(s).1)
    &&& r.pv@.len() >= 1
    &&& r.pv@[0] == best_child(s)
    &&& !r.aborted
}

/// every pair of squares that a legal move of `pos` joins was searched
pub open spec fn covers(pos: Position, s: Seq<MV>) -> bool {
    forall|m: Move| #[trigger] legal_moves(pos.chessboard@).contains(m) ==> exists|i: int|
        0 <= i < s.len() && s[i].0.source == m.source && s[i].0.dest == m.dest
}

/// the stop flag and the evaluation may be asked at any time
pub open spec fn callable<E: Fn(&Position, bool) -> Value, K: Fn() -> bool>(eval: E, searching: K) -> bool {
    &&& sound_eval(eval)
    &&& searching.requires(())
}

/// the result of a search with nothing below its node
fn single_node(value: Value) -> (r: SearchResult)
    ensures
        r.pv@.len() == 0,
        r.next_position_value == value,
        r.nodes_searched == 1,
        r.tb_hits == 0,
        r.depth == Depth(1),
        !r.from_draw,
        !r.aborted,
{
    SearchResult {
        pv: Vec::new(),
        next_position_value: value,
        nodes_searched: 1,
        tb_hits: 0,
        depth: Depth(1),
        from_draw: false,
        aborted: false,
    }
}

/// a drawn result; `from_draw` where the draw depends on the path that
/// reached the position
fn draw_result(from_draw: bool) -> (r: SearchResult)
    ensures
        drawn_result(r, from_draw),
{
    SearchResult {
        pv: Vec::new(),
        next_position_value: Value(0),
        nodes_searched: 1,
        tb_hits: 0,
        depth: Depth(1),
        from_draw,
        aborted: false,
    }
}

/// the moves a node searches, in order: the move of its table entry first,
/// then the ordered moves of `base_gen` (all the legal moves of `board`),
/// which the entry's move is taken from; and are they three or fewer? (only
/// counted where the line may still be extended)
#[verifier::loop_isolation(false)]
fn node_children(board: &BoardState, base_gen: chess::MoveGen, tt_move: Option<Move>, extensions: Depth) -> (r: (
    Vec<Move>,
    bool,
))
    requires
        movegen_moves(base_gen) == legal_moves(board@),
        movegen_moves(base_gen).finite(),
        !movegen_promoting(base_gen),
        forall|m: Move| #[trigger] movegen_moves(base_gen).contains(m) ==> m.on_board(),
        forall|m: Move| #[trigger] movegen_moves(base_gen).contains(m) ==> has_square(
            board@.color_bb(board@.side_to_move),
            m.source as int,
        ),
        tt_move matches Some(t) ==> legal_moves(board@).contains(t),
        board@.en_passant is None ==> movegen_unsplit(base_gen),
    ensures
        extensions.0 < MAX_EXTEND && (tt_move is None || board@.en_passant is None) ==> (r.1 <==> searched_moves(
            board@,
            tt_move,
        ).len() <= 3),
        forall|k: int| 0 <= k < r.0@.len() ==> legal_moves(board@).contains(#[trigger] r.0@[k]),
        tt_move matches Some(t) ==> r.0@.len() >= 1 && r.0@[0] == t,
        forall|x: Move| #[trigger] legal_moves(board@).contains(x) ==> (tt_move matches Some(t) && t.source
            == x.source && t.dest == x.dest) || r.0@.contains(x),
{
    let ghost b = board@;
    let ghost legal = legal_moves(b);
    let mut base_gen = base_gen;
    let mut children: Vec<Move> = Vec::new();
    if let Some(m) = tt_move {
        movegen_remove(&mut base_gen, m);
        children.push(m);
    }
    let ghost base = movegen_moves(base_gen);
    let no_prio: Vec<Move> = Vec::new();
    let mut mgen = prio_iterator(base_gen, board, no_prio.as_slice());
    let ghost ordering = mgen;
    proof {
        let opp = b.color_bb(b.side_to_move.spec_other());
        assert(mgen.prio().subrange(0, mgen.prio().len() - 0) == mgen.prio());
        assert forall|x: Move| #[trigger] base.contains(x) implies to_come(mgen, x) by {
            if in_mask(opp, x) {
                assert(captures_kept(base, no_prio@, opp).contains(x));
                assert(mgen.prio().to_set().contains(x));
            } else {
                assert(!removed_by(no_prio@, x));
            }
        }
        assert forall|x: Move| #[trigger] to_come(mgen, x) implies base.contains(x) by {
            if mgen.prio().contains(x) {
                assert(mgen.prio().to_set().contains(x));
            }
        }
    }
    let ghost first = children@;
    let ghost exact = tt_move is None || b.en_passant is None;
    let ghost searched_set = searched_moves(b, tt_move);
    proof {
        let opp = b.color_bb(b.side_to_move.spec_other());
        let caps = mgen.prio();
        assert(mgen.prio().subrange(0, mgen.prio().len() - 0) == caps);
        assert forall|x: Move| #[trigger] mgen.prio().contains(x) implies !mgen.generated().contains(x) by {
            assert(caps.to_set().contains(x));
        }
        assert(distinct_to_come(mgen));
        if exact {
            if let Some(t) = tt_move {
                assert(base =~= legal.filter(|x: Move| !(x.source == t.source && x.dest == t.dest)));
                assert(!to_come(mgen, t));
            } else {
                assert(base == legal);
            }
        }
    }
    // with three moves or fewer, search one ply deeper
    if extensions.0 < MAX_EXTEND {
        take_moves(&mut mgen, &mut children, 4);
    }
    let few = children.len() <= 3;
    proof {
        if extensions.0 < MAX_EXTEND && exact {
            lemma_few_children(legal, base, tt_move, first, children@, ordering, mgen);
        }
    }
    let ghost mid = mgen;
    let ghost early = children@;
    take_rest(&mut mgen, &mut children);
    proof {
        assert(forall|x: Move| #[trigger] base.contains(x) ==> legal.contains(x));
        assert forall|k: int| 0 <= k < children@.len() implies legal.contains(#[trigger] children@[k]) by {
            if k < first.len() {
                assert(children@[k] == early[k]);
                assert(early[k] == first[k]);
            } else if k < early.len() {
                assert(children@[k] == early[k]);
                assert(to_come(ordering, early[k]));
            } else {
                assert(to_come(mid, children@[k]));
                assert(to_come(ordering, children@[k]));
            }
        }
        if tt_move is Some {
            assert(children@[0] == early[0]);
            assert(early[0] == first[0]);
        }
        assert forall|x: Move| #[trigger] legal.contains(x) implies (tt_move matches Some(t) && t.source == x.source
            && t.dest == x.dest) || children@.contains(x) by {
            if !(tt_move matches Some(t) && t.source == x.source && t.dest == x.dest) {
                assert(base.contains(x));
                assert(to_come(ordering, x));
            }
        }
    }
    (children, few)
}

/// a move a node may have taken from its table entry: with the table on,
/// a legal move
pub open spec fn tt_choice(pos: Position, use_tt: bool, tt: Option<Move>) -> bool {
    tt matches Some(t) ==> use_tt && legal_moves(pos.chessboard@).contains(t)
}

/// `few` tells whether a node that may still extend its line searches three
/// moves or fewer, counting the move of its table entry as all the moves
/// between its two squares (where that entry's move is one the generator
/// also holds for an en passant capture, the count is left open)
pub open spec fn few_for(pos: Position, search_options: SearchOptions, use_tt: bool, few: bool) -> bool {
    ||| search_options.extensions.0 >= MAX_EXTEND
    ||| exists|tt: Option<Move>| #[trigger] tt_choice(pos, use_tt, tt) && ((tt is None
        || pos.chessboard@.en_passant is None) ==> (few <==> searched_moves(pos.chessboard@, tt).len() <= 3))
}

/// the moves a node searches: the legal moves, where the move of a table
/// entry stands for every move between its two squares
pub open spec fn searched_moves(b: BoardView, tt: Option<Move>) -> Set<Move> {
    match tt {
        Some(t) => legal_moves(b).filter(|x: Move| !(x.source == t.source && x.dest == t.dest)).insert(t),
        None => legal_moves(b),
    }
}

/// the first moves a node takes, up to four, are three or fewer exactly
/// where the node searches three moves or fewer
proof fn lemma_few_children(
    legal: Set<Move>,
    base: Set<Move>,
    tt_move: Option<Move>,
    first: Seq<Move>,
    early: Seq<Move>,
    ordering: crate::ordering::OrderedMoves,
    rest: crate::ordering::OrderedMoves,
)
    requires
        legal.finite(),
        base == (match tt_move {
            Some(t) => legal.filter(|x: Move| !(x.source == t.source && x.dest == t.dest)),
            None => legal,
        }),
        tt_move matches Some(t) ==> legal.contains(t) && first == seq![t],
        tt_move is None ==> first.len() == 0,
        forall|x: Move| #[trigger] to_come(ordering, x) <==> base.contains(x),
        distinct_to_come(ordering),
        early.subrange(0, first.len() as int) == first,
        early.len() >= first.len(),
        early.len() > first.len() ==> early.len() <= 4,
        forall|i: int| first.len() <= i < early.len() ==> to_come(ordering, #[trigger] early[i]),
        forall|m: Move| #[trigger] to_come(ordering, m) ==> to_come(rest, m) || early.contains(m),
        early.len() < 4 ==> rest.prio().len() == 0 && rest.generated().len() == 0,
        rest.generated().finite(),
        early.subrange(first.len() as int, early.len() as int).no_duplicates(),
    ensures
        (early.len() <= 3) <==> (match tt_move {
            Some(t) => legal.filter(|x: Move| !(x.source == t.source && x.dest == t.dest)).insert(t),
            None => legal,
        }).len() <= 3,
{
    let all = match tt_move {
        Some(t) => base.insert(t),
        None => base,
    };
    assert(base.subset_of(legal));
    vstd::set_lib::lemma_set_subset_finite(legal, base);
    assert(early.no_duplicates()) by {
        assert forall|i: int, j: int| 0 <= i < j < early.len() implies early[i] != early[j] by {
            let added = early.subrange(first.len() as int, early.len() as int);
            if i >= first.len() {
                assert(early[i] == added[i - first.len()] && early[j] == added[j - first.len()]);
            } else {
                assert(early[i] == first[i]);
                assert(base.contains(early[j]));
            }
        }
    }
    assert(early.to_set().subset_of(all)) by {
        assert forall|x: Move| early.to_set().contains(x) implies all.contains(x) by {
            let i = choose|i: int| 0 <= i < early.len() && early[i] == x;
            if i < first.len() {
                assert(early[i] == first[i]);
            }
        }
    }
    early.unique_seq_to_set();
    vstd::set_lib::lemma_len_subset(early.to_set(), all);
    if early.len() < 4 {
        assert(all.subset_of(early.to_set())) by {
            assert forall|x: Move| all.contains(x) implies early.to_set().contains(x) by {
                if base.contains(x) {
                    assert(to_come(ordering, x));
                    assert(!rest.prio().contains(x));
                    if rest.generated().contains(x) {
                        assert(rest.generated().remove(x).len() + 1 == rest.generated().len());
                    }
                } else {
                    assert(early[0] == first[0]);
                }
            }
        }
        assert(early.to_set() =~= all);
    }
}

/// the children `children` of `pos` searched one after the other, as
/// [`negamax`] searches them, and what they came to: each child with its
/// score for the side to move, one for each child searched, all of them
/// unless alpha-beta stopped early
pub open spec fn searched<E: Fn(&Position, bool) -> Value, K: Fn() -> bool>(
    pos: Position,
    to_depth: Depth,
    search_options: SearchOptions,
    children: Seq<Move>,
    s: Seq<MV>,
    alpha: Value,
    beta: Value,
    opts: EngineOpts,
    eval: E,
    searching: K,
    r: SearchResult,
) -> bool {
    let use_ab = opts.use_ab;
    &&& from_children(pos, s, r)
    &&& forall|i: int| 0 <= i < s.len() ==> #[trigger] child_score(
        pos,
        to_depth,
        search_options,
        s[i],
        raised(alpha, s.subrange(0, i)),
        beta,
        opts,
        eval,
        searching,
    )
    &&& s.len() <= children.len()
    &&& forall|k: int| 0 <= k < s.len() ==> (#[trigger] s[k]).0 == children[k]
    &&& !use_ab ==> s.len() == children.len()
    &&& use_ab ==> below_beta_before_last(alpha, beta, s)
    &&& use_ab && s.len() < children.len() ==> raised(alpha, s).0 >= beta.0
}

/// with alpha-beta, the children are searched while alpha, raised by the
/// score of each child searched, stays below beta: no child before the last
/// one searched brought it to beta
pub open spec fn below_beta_before_last(alpha: Value, beta: Value, s: Seq<MV>) -> bool {
    forall|k: int| 0 <= k < s.len() - 1 ==> (#[trigger] raised(alpha, s.subrange(0, k + 1))).0 < beta.0
}

/// search the children of a node, one ply deeper each, and keep the best;
/// with alpha-beta, stop once one reaches beta. Where the search is no longer
/// wanted after a child, answer with the node's own evaluation instead.
fn search_children<E: Fn(&Position, bool) -> Value, K: Fn() -> bool>(
    pos: &Position,
    children: &Vec<Move>,
    to_depth: Depth,
    search_options: SearchOptions<'_>,
    Ghost(few): Ghost<bool>,
    next_depth: Depth,
    next_options: SearchOptions<'_>,
    alpha: Value,
    beta: Value,
    opts: &EngineOpts,
    table: &Arc<RwLock<VL>>,
    eval: &E,
    searching: &K,
) -> (r: SearchResult)
    requires
        callable(*eval, *searching),
        alpha.0 != i16::MIN,
        beta.0 != i16::MIN,
        children@.len() >= 1,
        forall|k: int| 0 <= k < children@.len() ==> legal_moves(pos.chessboard@).contains(#[trigger] children@[k]),
        forall|m: Move| #[trigger] legal_moves(pos.chessboard@).contains(m) ==> m.on_board(),
        pos.halfmove_clock < usize::MAX,
        playable(pos.chessboard@),
        to_depth.0 >= 1,
        next_depth == child_depth(to_depth, search_options.extensions, Depth(MAX_EXTEND), few),
        few_for(*pos, search_options, opts.use_tt, few),
        child_options(*pos, to_depth, next_depth, search_options, next_options),
        next_options.game_history@.len() + SEARCH_PATH_LEN <= usize::MAX,
    ensures
        r.next_position_value.0 != i16::MIN,
        r.aborted ==> searching.ensures((), false) && eval.ensures((pos, false), r.next_position_value),
        !r.aborted ==> exists|s: Seq<MV>| #[trigger] searched(
            *pos,
            to_depth,
            search_options,
            children@,
            s,
            alpha,
            beta,
            *opts,
            *eval,
            *searching,
            r,
        ),
    decreases to_depth.0, extension_room(search_options.extensions), 0int,
{
    let ghost alpha0 = alpha;
    let mut alpha = alpha;
    let mut best: Option<MV> = None;
    let mut best_from_draw = false;
    let mut pv: Vec<MV> = Vec::new();
    let mut total_nodes: u32 = 0;
    let mut tb_hits: u32 = 0;
    let mut max_depth: u16 = 0;
    let ghost mut s: Seq<MV> = Seq::empty();
    let ghost legal = legal_moves(pos.chessboard@);

    let mut i: usize = 0;
    while i < children.len()
        invariant_except_break
            opts.use_ab ==> forall|k: int| 0 <= k < s.len() ==> (#[trigger] raised(alpha0, s.subrange(0, k + 1))).0 < beta.0,
        invariant
            callable(*eval, *searching),
            beta.0 != i16::MIN,
            legal == legal_moves(pos.chessboard@),
            forall|m: Move| #[trigger] legal.contains(m) ==> m.on_board(),
            forall|k: int| 0 <= k < children@.len() ==> legal.contains(#[trigger] children@[k]),
            children@.len() >= 1,
            pos.halfmove_clock < usize::MAX,
            playable(pos.chessboard@),
            to_depth.0 >= 1,
            next_depth == child_depth(to_depth, search_options.extensions, Depth(MAX_EXTEND), few),
            few_for(*pos, search_options, opts.use_tt, few),
            child_options(*pos, to_depth, next_depth, search_options, next_options),
            forall|j: int| 0 <= j < s.len() ==> #[trigger] child_score(
                *pos,
                to_depth,
                search_options,
                s[j],
                raised(alpha0, s.subrange(0, j)),
                beta,
                *opts,
                *eval,
                *searching,
            ),
            next_options.game_history@.len() + SEARCH_PATH_LEN <= usize::MAX,
            0 <= i <= children@.len(),
            s.len() == i,
            forall|j: int| 0 <= j < i ==> (#[trigger] s[j]).0 == children@[j],
            forall|j: int| 0 <= j < i ==> (#[trigger] s[j]).1.0 != i16::MIN,
            alpha.0 != i16::MIN,
            alpha0.0 != i16::MIN,
            alpha == raised(alpha0, s),
            i == 0 ==> best is None,
            i > 0 ==> best == Some(best_child(s)) && pv@.len() >= 1 && pv@[0] == best_child(s),
            opts.use_ab ==> below_beta_before_last(alpha0, beta, s),
        ensures
            i >= 1,
            !opts.use_ab ==> i == children@.len(),
            s.len() == i,
            forall|j: int| 0 <= j < i ==> (#[trigger] s[j]).0 == children@[j],
            forall|j: int| 0 <= j < i ==> (#[trigger] s[j]).1.0 != i16::MIN,
            best == Some(best_child(s)) && pv@.len() >= 1 && pv@[0] == best_child(s),
            alpha == raised(alpha0, s),
            opts.use_ab ==> below_beta_before_last(alpha0, beta, s),
            opts.use_ab && i < children@.len() ==> alpha.0 >= beta.0,
        decreases children@.len() - i,
    {
        let mv = children[i];
        let next = pos.make_move(mv);
        let ghost after = next;
        let child = negamax(next, next_depth, Value(-beta.0), Value(-alpha.0), next_options, opts, table, eval, searching);
        let value = Value(-child.next_position_value.0);
        total_nodes = total_nodes.wrapping_add(child.nodes_searched).wrapping_add(1);
        tb_hits = tb_hits.wrapping_add(child.tb_hits);
        if child.depth.0 > max_depth {
            max_depth = child.depth.0;
        }

        if !searching() {
            let r = SearchResult {
                pv: child.pv,
                next_position_value: eval(pos, false),
                nodes_searched: total_nodes,
                tb_hits: child.tb_hits,
                depth: child.depth,
                from_draw: child.from_draw,
                aborted: true,
            };
            return r;
        }

        let ghost prev = s;
        proof {
            assert(child_score(*pos, to_depth, search_options, MV(mv, value), raised(alpha0, prev), beta, *opts, *eval, *searching)) by {
                assert(child_options(*pos, to_depth, child_depth(to_depth, search_options.extensions, Depth(MAX_EXTEND), few), search_options, next_options));
                assert(moved(*pos, MV(mv, value).0, after));
                assert(negated(MV(mv, value).1, child));
            }
            s = s.push(MV(mv, value));
            assert(s.drop_last() == prev);
            assert forall|j: int| 0 <= j < s.len() implies #[trigger] child_score(
                *pos,
                to_depth,
                search_options,
                s[j],
                raised(alpha0, s.subrange(0, j)),
                beta,
                *opts,
                *eval,
                *searching,
            ) by {
                if j < prev.len() {
                    assert(s.subrange(0, j) == prev.subrange(0, j));
                    assert(s[j] == prev[j]);
                } else {
                    assert(s.subrange(0, j) == prev);
                }
            }
        }
        let better = match best {
            Some(b) => b.1.0 < value.0,
            None => true,
        };
        if better {
            best = Some(MV(mv, value));
            best_from_draw = child.from_draw;
            // Build the principal variation by prepending the current move
            let mut line: Vec<MV> = Vec::new();
            line.push(MV(mv, value));
            let mut rest = child.pv;
            line.append(&mut rest);
            pv = line;
        }

        if value.0 > alpha.0 {
            alpha = value;
        }
        i = i + 1;
        proof {
            assert forall|k: int| 0 <= k < prev.len() implies #[trigger] s.subrange(0, k + 1) == prev.subrange(0, k + 1) by {
                assert(s.subrange(0, k + 1) =~= prev.subrange(0, k + 1));
            }
            assert(s.subrange(0, s.len() as int) == s);
            if opts.use_ab {
                assert forall|k: int| 0 <= k < s.len() - 1 implies (#[trigger] raised(alpha0, s.subrange(0, k + 1))).0 < beta.0 by {
                    assert(s.subrange(0, k + 1) == prev.subrange(0, k + 1));
                }
            }
        }

        if opts.use_ab && alpha.0 >= beta.0 {
            break;
        }
    }

    let best_value = match best {
        Some(b) => mate_distance(b.1),
        None => mate_distance(Value::min_legal()),
    };

    let r = SearchResult {
        pv,
        next_position_value: best_value,
        nodes_searched: total_nodes,
        tb_hits,
        depth: Depth(max_depth.wrapping_add(1)),
        from_draw: best_from_draw,
        aborted: false,
    };
    proof {
        assert forall|j: int| 0 <= j < s.len() implies legal_moves(pos.chessboard@).contains(#[trigger] s[j].0) by {
            assert(s[j].0 == children@[j]);
        }
        assert(from_children(*pos, s, r));
        assert(searched(*pos, to_depth, search_options, children@, s, alpha0, beta, *opts, *eval, *searching, r));
    }
    r
}

/// a node that searched all its children, the move of its table entry
/// first, searched every pair of squares a legal move joins
proof fn lemma_searched_covers(pos: Position, children: Seq<Move>, tt_move: Option<Move>, s: Seq<MV>)
    requires
        s.len() == children.len(),
        forall|k: int| 0 <= k < s.len() ==> (#[trigger] s[k]).0 == children[k],
        tt_move matches Some(t) ==> children.len() >= 1 && children[0] == t,
        forall|x: Move| #[trigger] legal_moves(pos.chessboard@).contains(x) ==> (tt_move matches Some(t) && t.source
            == x.source && t.dest == x.dest) || children.contains(x),
    ensures
        covers(pos, s),
{
    assert forall|m: Move| #[trigger] legal_moves(pos.chessboard@).contains(m) implies exists|k: int|
        0 <= k < s.len() && s[k].0.source == m.source && s[k].0.dest == m.dest by {
        if children.contains(m) {
            let k = choose|k: int| 0 <= k < children.len() && children[k] == m;
            assert(s[k].0 == m);
        } else {
            assert(s[0].0 == children[0]);
        }
    }
}

/// a node that searched its children answers as [`node_result`] says, in
/// any window around the one it searched in
proof fn lemma_answered_by_children<E: Fn(&Position, bool) -> Value, K: Fn() -> bool>(
    pos: Position,
    to_depth: Depth,
    search_options: SearchOptions,
    children: Seq<Move>,
    tt_move: Option<Move>,
    s: Seq<MV>,
    alpha_in: Value,
    beta_in: Value,
    alpha: Value,
    beta: Value,
    opts: EngineOpts,
    eval: E,
    searching: K,
    r: SearchResult,
)
    requires
        searched(pos, to_depth, search_options, children, s, alpha, beta, opts, eval, searching, r),
        tt_move matches Some(t) ==> children.len() >= 1 && children[0] == t,
        forall|x: Move| #[trigger] legal_moves(pos.chessboard@).contains(x) ==> (tt_move matches Some(t) && t.source
            == x.source && t.dest == x.dest) || children.contains(x),
        narrowed(pos, to_depth, alpha_in, beta_in, opts.use_tt, alpha, beta),
        to_depth.0 > 0,
        draw_rule(pos, search_options) is None,
        r.next_position_value.0 != i16::MIN,
    ensures
        node_result(pos, to_depth, alpha_in, beta_in, opts, search_options, eval, searching, r),
{
    if s.len() == children.len() {
        lemma_searched_covers(pos, children, tt_move, s);
    }
    assert forall|i: int| #![trigger s[i]] 0 <= i < s.len() implies child_score(
        pos,
        to_depth,
        search_options,
        s[i],
        raised(alpha, s.subrange(0, i)),
        beta,
        opts,
        eval,
        searching,
    ) by {
        assert(child_score(pos, to_depth, search_options, s[i], raised(alpha, s.subrange(0, i)), beta, opts, eval, searching));
    }
    assert(answered_by_children(pos, to_depth, search_options, s, alpha, beta, opts, eval, searching, r));
    assert(from_children(pos, s, r));
}

/// what [`negamax`] answers for `pos` searched to `to_depth` in the window
/// `alpha`..`beta`: a score with a negation, and a draw where a draw rule
/// holds. Otherwise a table entry for the position answered, or the node was
/// left to the quiescence search (at depth zero), or it was scored by the
/// evaluation (without moves, or where the stop flag said the search was no
/// longer wanted), or it searched its children, each of them as this search
/// answers for it: every pair of squares a legal move joins, unless
/// alpha-beta cut it short. The quiescence search and the children search in
/// the node's own window, or in the one a valid table entry for the
/// position narrowed it to ([`narrowed`]).
pub open spec fn node_result<E: Fn(&Position, bool) -> Value, K: Fn() -> bool>(
    pos: Position,
    to_depth: Depth,
    alpha: Value,
    beta: Value,
    opts: EngineOpts,
    search_options: SearchOptions,
    eval: E,
    searching: K,
    r: SearchResult,
) -> bool
    decreases to_depth.0, extension_room(search_options.extensions), 2int,
{
    &&& r.next_position_value.0 != i16::MIN
    &&& draw_rule(pos, search_options) matches Some(d) ==> drawn_result(r, d)
    &&& draw_rule(pos, search_options) is None ==> {
        ||| opts.use_tt && answered_by_table(pos, to_depth, alpha, beta, r)
        ||| to_depth.0 == 0 && exists|a: Value, b: Value| {
            &&& #[trigger] narrowed(pos, to_depth, alpha, beta, opts.use_tt, a, b)
            &&& quiesce_result(pos, a, b, opts.use_ab, eval, r)
        }
        ||| to_depth.0 > 0 && no_moves(pos.chessboard@) && r.pv@.len() == 0 && r.nodes_searched == 1
            && eval.ensures((&pos, true), r.next_position_value)
        ||| to_depth.0 > 0 && !no_moves(pos.chessboard@) && r.aborted && searching.ensures((), false)
            && eval.ensures((&pos, false), r.next_position_value)
        ||| to_depth.0 > 0 && exists|s: Seq<MV>, a: Value, b: Value| {
            &&& #[trigger] narrowed(pos, to_depth, alpha, beta, opts.use_tt, a, b)
            &&& #[trigger] from_children(pos, s, r)
            &&& answered_by_children(pos, to_depth, search_options, s, a, b, opts, eval, searching, r)
        }
    }
}

/// the result of a node that searched its children `s` in the window
/// `alpha`..`beta`: each child's score is the negation of what the search of
/// the child answers, in the window turned around from alpha (as the
/// children before it raised it) to beta; without alpha-beta, every pair of
/// squares a legal move joins is searched; with it, until the first child
/// that brought alpha to beta, or all of them
pub open spec fn answered_by_children<E: Fn(&Position, bool) -> Value, K: Fn() -> bool>(
    pos: Position,
    to_depth: Depth,
    search_options: SearchOptions,
    s: Seq<MV>,
    alpha: Value,
    beta: Value,
    opts: EngineOpts,
    eval: E,
    searching: K,
    r: SearchResult,
) -> bool
    decreases to_depth.0, extension_room(search_options.extensions), 1int,
{
    &&& from_children(pos, s, r)
    &&& !opts.use_ab ==> covers(pos, s)
    &&& opts.use_ab ==> below_beta_before_last(alpha, beta, s) && (covers(pos, s) || raised(alpha, s).0 >= beta.0)
    &&& forall|i: int| 0 <= i < s.len() ==> #[trigger] child_score(
        pos,
        to_depth,
        search_options,
        s[i],
        raised(alpha, s.subrange(0, i)),
        beta,
        opts,
        eval,
        searching,
    )
}

/// the window `a`..`b` a node searches in: its own window `alpha`..`beta`,
/// or, with the table on, the window a valid entry stored for the position
/// narrows it to, as [`probed`] decides
pub open spec fn narrowed(pos: Position, to_depth: Depth, alpha: Value, beta: Value, use_tt: bool, a: Value, b: Value) -> bool {
    ||| a == alpha && b == beta
    ||| use_tt && exists|e: TableEntry| #[trigger] entry_window(e, pos, to_depth, alpha, beta, a, b)
}

/// `e` is a valid entry stored for `pos` that narrows the window
/// `alpha`..`beta` of a search to `to_depth` down to `a`..`b`
pub open spec fn entry_window(e: TableEntry, pos: Position, to_depth: Depth, alpha: Value, beta: Value, a: Value, b: Value) -> bool {
    &&& e.key == board_hash(pos.chessboard@)
    &&& e.spec_is_valid()
    &&& e.bound_code() != 3
    &&& probed(e.spec_depth(), EvalBound::from_code(e.bound_code()), e.spec_eval(), to_depth, alpha, beta) == Probe::Window(a, b)
}

/// `next` is `pos` after the move `m`, with the fifty-move counter kept up
pub open spec fn moved(pos: Position, m: Move, next: Position) -> bool {
    &&& next.chessboard@ == after_move(pos.chessboard@, m)
    &&& next.halfmove_clock == (if resets_clock(pos.chessboard@, m) {
        0
    } else {
        pos.halfmove_clock + 1
    })
}

/// the options a node passes to its children: the position on the search
/// path, and one more extension where the children are searched as deep as
/// the node
pub open spec fn child_options(pos: Position, to_depth: Depth, next: Depth, o: SearchOptions, co: SearchOptions) -> bool {
    &&& co.game_history@ == o.game_history@
    &&& co.path@ == o.path@.drop_first().push(board_hash(pos.chessboard@))
    &&& co.extensions == (if next.0 == to_depth.0 {
        Depth((o.extensions.0 + 1) as u16)
    } else {
        o.extensions
    })
}

/// `x` holds a move of `pos` and its score for the side to move there: the
/// negation of what the search of the position after it answers, to the
/// depth the node gives its children (as deep as the node where it searches
/// three moves or fewer, see [`few_for`], else one ply less, and at depth
/// zero once the line has been extended all it may), in the window turned
/// around from `alpha`..`beta`
pub open spec fn child_score<E: Fn(&Position, bool) -> Value, K: Fn() -> bool>(
    pos: Position,
    to_depth: Depth,
    search_options: SearchOptions,
    x: MV,
    alpha: Value,
    beta: Value,
    opts: EngineOpts,
    eval: E,
    searching: K,
) -> bool
    decreases to_depth.0, extension_room(search_options.extensions), 0int,
{
    exists|few: bool, next: Position, co: SearchOptions, c: SearchResult| {
        &&& to_depth.0 >= 1
        &&& few_for(pos, search_options, opts.use_tt, few)
        &&& #[trigger] child_options(pos, to_depth, child_depth(to_depth, search_options.extensions, Depth(MAX_EXTEND), few), search_options, co)
        &&& #[trigger] moved(pos, x.0, next)
        &&& #[trigger] negated(x.1, c)
        &&& node_result(
            next,
            child_depth(to_depth, search_options.extensions, Depth(MAX_EXTEND), few),
            Value((-beta.0) as i16),
            Value((-alpha.0) as i16),
            opts,
            co,
            eval,
            searching,
            c,
        )
    }
}

/// the negamax search, with alpha-beta pruning and a transposition table.
///
/// `eval` scores a position for the side to move (told whether that side has
/// any legal move left), and `searching` tells whether the search is still
/// wanted: where it is not, the node answers with its own evaluation and the
/// result is marked as aborted.
///
/// A node drawn by rule scores a draw. Otherwise a valid table entry for the
/// position may answer it, or narrow its window; a node at depth zero is
/// left to the quiescence search; a node without moves is scored by `eval`;
/// and any other node searches its children, the move of the table entry
/// first, then the ordered moves, one ply deeper where it has three moves or
/// fewer, until one of them reaches beta.
#[verifier::rlimit(60)]
pub fn negamax<E: Fn(&Position, bool) -> Value, K: Fn() -> bool>(
    pos: Position,
    to_depth: Depth,
    alpha: Value,
    beta: Value,
    search_options: SearchOptions<'_>,
    opts: &EngineOpts,
    table: &Arc<RwLock<VL>>,
    eval: &E,
    searching: &K,
) -> (r: SearchResult)
    requires
        callable(*eval, *searching),
        alpha.0 != i16::MIN,
        beta.0 != i16::MIN,
        search_options.game_history@.len() + SEARCH_PATH_LEN <= usize::MAX,
        playable(pos.chessboard@),
    ensures
        node_result(pos, to_depth, alpha, beta, *opts, search_options, *eval, *searching, r),
    decreases to_depth.0, extension_room(search_options.extensions), 1int,
{
    let ghost alpha_in = alpha;
    let ghost beta_in = beta;
    let mut alpha = alpha;
    let mut beta = beta;
    let board = &pos.chessboard;
    let ghost b = board@;
    let ghost legal = legal_moves(b);
    let current_hash = board.get_hash();
    // a position that already occurred is a draw, whoever looks better
    if let Some(from_draw) = drawn_by_rule(&pos, &search_options) {
        return draw_result(from_draw);
    }

    // the initial move generator
    proof {
        crate::board::lemma_playable_generable(b);
    }
    let mut base_gen = movegen_new(board);
    let out_of_moves = movegen_len(&base_gen) == 0;
    proof {
        let all = movegen_moves(base_gen);
        assert(all.filter(|x: Move| in_mask(u64::MAX, x)) == all) by {
            assert forall|x: Move| all.contains(x) implies in_mask(u64::MAX, x) by {
                crate::pieces::lemma_full_bitboard(x.dest as int);
            }
        }
        if out_of_moves {
            assert(legal =~= Set::<Move>::empty());
        } else {
            assert(!(legal =~= Set::<Move>::empty()));
        }
    }

    let alpha_orig = alpha;
    let mut tt_move: Option<Move> = None;
    let ghost mut narrowing: Option<TableEntry> = None;
    if opts.use_tt {
        if let Some(tt_entry) = shared_get(table, current_hash) {
            if tt_entry.is_valid_entry() {
                match probe(&tt_entry, to_depth, alpha, beta) {
                    Probe::Cutoff => {
                        let r = tt_entry.search_result();
                        assert(answered_by_table(pos, to_depth, alpha, beta, r));
                        return r;
                    },
                    Probe::Window(a, b) => {
                        proof {
                            narrowing = Some(tt_entry);
                        }
                        alpha = a;
                        beta = b;
                    },
                }
                let m = tt_entry.mv();
                if is_legal(board, m) {
                    tt_move = Some(m);
                }
            }
        }
    }

    proof {
        if let Some(e) = narrowing {
            assert(entry_window(e, pos, to_depth, alpha_in, beta_in, alpha, beta));
        }
        assert(narrowed(pos, to_depth, alpha_in, beta_in, opts.use_tt, alpha, beta));
    }
    if to_depth.0 == 0 {
        // leaf node → do quiescence, not raw eval
        return quiescence(pos, alpha, beta, search_options, opts, eval);
    }

    if out_of_moves {
        return single_node(eval(&pos, true));
    }

    let (children, few) = node_children(board, base_gen, tt_move, search_options.extensions);
    let next_depth = next_depth(to_depth, search_options.extensions, Depth(MAX_EXTEND), few);

    let mut next_options = search_options.descend(current_hash);
    if next_depth.0 == to_depth.0 {
        next_options.extensions = Depth(search_options.extensions.0 + 1);
    }
    proof {
        assert(tt_choice(pos, opts.use_tt, tt_move));
        assert(few_for(pos, search_options, opts.use_tt, few));
        assert(!(legal =~= Set::<Move>::empty()));
        let x = legal.choose();
        assert(legal.contains(x));
        if children@.len() == 0 {
            assert(!children@.contains(x));
        }
    }
    let search_result = search_children(
        &pos,
        &children,
        to_depth,
        search_options,
        Ghost(few),
        next_depth,
        next_options,
        alpha,
        beta,
        opts,
        table,
        eval,
        searching,
    );
    if search_result.aborted {
        return search_result;
    }
    proof {
        let s = choose|s: Seq<MV>| searched(pos, to_depth, search_options, children@, s, alpha, beta, *opts, *eval, *searching, search_result);
        lemma_answered_by_children(pos, to_depth, search_options, children@, tt_move, s, alpha_in, beta_in, alpha, beta, *opts, *eval, *searching, search_result);
    }

    // a draw that depends on the path is never stored for other paths
    if opts.use_tt && !search_result.from_draw && search_result.pv.len() > 0 {
        let bound = store_bound(search_result.next_position_value, alpha_orig, beta);
        let entry = TableEntry::new_from_result(current_hash, to_depth, &search_result, bound);
        proof {
            crate::entry::lemma_pack_unpack(current_hash, search_result.next_position_value, to_depth, search_result.pv@[0].0, bound, false);
        }
        shared_insert(table, current_hash, entry);
    }

    search_result
}

/// same as [`negamax`], but with a fixed signature to be used across
/// benchmarks: a search from a position with nothing played before it, with
/// the options `opt`, on the table `tt`
pub fn ng_bench<E: Fn(&Position, bool) -> Value, K: Fn() -> bool>(
    position: Position,
    to_depth: Depth,
    alpha: Value,
    beta: Value,
    opt: Opts,
    tt: &TT,
    eval: &E,
    searching: &K,
) -> (r: SearchResult)
    requires
        callable(*eval, *searching),
        alpha.0 != i16::MIN,
        beta.0 != i16::MIN,
        playable(position.chessboard@),
    ensures
        exists|o: SearchOptions| root_options(o, Seq::empty()) && #[trigger] node_result(position, to_depth, alpha, beta, opt.spec_engine_opts(), o, *eval, *searching, r),
{
    let none: &[u64] = &[];
    let options = SearchOptions::new(none);
    let table = tt.get();
    let r = negamax(position, to_depth, alpha, beta, options, &opt.engine_opts(), &table, eval, searching);
    assert(options.game_history@ =~= Seq::<u64>::empty());
    assert(root_options(options, Seq::empty()));
    r
}

} // verus!
