//! a quiescence search: the static evaluation is only trusted once the
//! exchanges of pieces have been played out
//!
//! + https://en.wikipedia.org/wiki/Quiescence_search
//! + https://www.chessprogramming.org/Quiescence_Search
//! + https://www.chessprogramming.org/Horizon_Effect
use vstd::prelude::*;
use crate::board::{BoardView, legal_moves, after_move, movegen_new, movegen_moves, in_mask, playable};
use crate::opts::EngineOpts;
use crate::ordering::{prio_iterator, captures_kept, removed_by};
use crate::pieces::{Move, popcount};
use crate::position::{Position, is_capture};
use crate::search::{SearchOptions, SearchResult, MV};
use crate::values::{Depth, Value};

verus! {

/// an evaluation the search may call on any position: the flag tells it that
/// the side to move has no legal move left. The search negates the scores it
/// gets, so none of them is `i16::MIN`.
pub open spec fn sound_eval<E: Fn(&Position, bool) -> Value>(eval: E) -> bool {
    &&& forall|p: &Position, out: bool| #[trigger] eval.requires((p, out))
    &&& forall|p: &Position, out: bool, v: Value| #[trigger] eval.ensures((p, out), v) ==> v.0 != i16::MIN
}

/// has the side to move no legal move?
pub open spec fn no_moves(b: BoardView) -> bool {
    legal_moves(b) == Set::<Move>::empty()
}

/// the legal moves that take a piece standing on their destination
pub open spec fn takes_piece(b: BoardView, m: Move) -> bool {
    legal_moves(b).contains(m) && in_mask(b.color_bb(b.side_to_move.spec_other()), m)
}

/// the highest of `a` and the values of `s`
pub open spec fn raised(a: Value, s: Seq<MV>) -> Value
    decreases s.len(),
{
    if s.len() == 0 {
        a
    } else {
        let b = raised(a, s.drop_last());
        if s.last().1.0 >= b.0 {
            s.last().1
        } else {
            b
        }
    }
}

/// what a quiescence search of `pos` in the window `alpha`..`beta` returns,
/// for a stand-pat score `stand_pat` and the captures `s` it searched, each
/// with its score for the side to move: with alpha-beta, a stand pat at or
/// above beta answers at once, and the first capture that reaches beta
/// answers with its score; otherwise every capture that takes a piece was
/// searched, and the answer is the best of alpha, the stand pat and the
/// captures. Each capture's score is the negation of what the search of the
/// position after it answers, in the window turned around from alpha (as
/// the stand pat and the captures before it raised it) to beta.
pub open spec fn quiesced<E: Fn(&Position, bool) -> Value>(
    pos: Position,
    alpha: Value,
    beta: Value,
    use_ab: bool,
    eval: E,
    stand_pat: Value,
    s: Seq<MV>,
    r: SearchResult,
) -> bool
    decreases popcount(pos.chessboard@.occupied()), 1int,
{
    let a = stood(alpha, stand_pat);
    &&& searched_captures(pos.chessboard@, s)
    &&& forall|i: int| 0 <= i < s.len() ==> #[trigger] captured_score(
        pos,
        raised(a, s.subrange(0, i)),
        beta,
        use_ab,
        eval,
        s[i],
    )
    &&& !r.aborted
    &&& if use_ab && stand_pat.0 >= beta.0 {
        &&& s.len() == 0
        &&& r.next_position_value == stand_pat
        &&& r.pv@.len() == 0
        &&& r.nodes_searched == 1
        &&& r.depth == Depth(0)
        &&& !r.from_draw
    } else if use_ab && s.len() > 0 && s.last().1.0 >= beta.0 {
        &&& forall|i: int| 0 <= i < s.len() - 1 ==> (#[trigger] s[i]).1.0 < beta.0
        &&& r.next_position_value == s.last().1
        &&& r.pv@ == seq![s.last()]
    } else {
        &&& use_ab ==> forall|i: int| 0 <= i < s.len() ==> (#[trigger] s[i]).1.0 < beta.0
        &&& r.next_position_value == raised(a, s)
        &&& !r.from_draw
        &&& s.len() == 0 ==> r.nodes_searched == 1 && r.depth == Depth(0)
        &&& r.pv@ == (match last_raise(a, s) {
            Some(x) => seq![x],
            None => Seq::<MV>::empty(),
        })
        &&& forall|m: Move| #[trigger] takes_piece(pos.chessboard@, m) ==> exists|i: int|
            0 <= i < s.len() && s[i].0 == m
    }
}

/// `x` holds a capture of `pos` and its score for the side to move there:
/// the negation of what the quiescence search of the position after it
/// answers, in the window turned around from `a`..`b`
pub open spec fn captured_score<E: Fn(&Position, bool) -> Value>(
    pos: Position,
    a: Value,
    b: Value,
    use_ab: bool,
    eval: E,
    x: MV,
) -> bool
    decreases popcount(pos.chessboard@.occupied()), 0int,
{
    exists|next: Position, c: SearchResult| {
        &&& #[trigger] capture_played(pos, x.0, next)
        &&& #[trigger] negated(x.1, c)
        &&& quiesce_result(next, Value((-b.0) as i16), Value((-a.0) as i16), use_ab, eval, c)
    }
}

/// the lower bound of the window once the side to move has stood pat: the
/// higher of `alpha` and the static evaluation
pub open spec fn stood(alpha: Value, stand_pat: Value) -> Value {
    if stand_pat.0 > alpha.0 {
        stand_pat
    } else {
        alpha
    }
}

/// the moves of `s` are legal captures on `b`
pub open spec fn searched_captures(b: BoardView, s: Seq<MV>) -> bool {
    forall|i: int| 0 <= i < s.len() ==> legal_moves(b).contains(#[trigger] s[i].0) && b.is_capture(s[i].0)
}

/// `next` is `pos` after the capture `m`: a piece fewer on the board, and the
/// fifty-move counter started again
pub open spec fn capture_played(pos: Position, m: Move, next: Position) -> bool {
    &&& popcount(next.chessboard@.occupied()) < popcount(pos.chessboard@.occupied())
    &&& next.chessboard@ == after_move(pos.chessboard@, m)
    &&& next.halfmove_clock == 0
}

/// `v` is the value of `c` seen from the other side
pub open spec fn negated(v: Value, c: SearchResult) -> bool {
    v == Value((-c.next_position_value.0) as i16)
}

/// what the quiescence search of `pos` in the window `alpha`..`beta`
/// answers: a score with a negation, from a stand pat that the evaluation
/// gave and the captures it searched, as [`quiesced`] describes
pub open spec fn quiesce_result<E: Fn(&Position, bool) -> Value>(
    pos: Position,
    alpha: Value,
    beta: Value,
    use_ab: bool,
    eval: E,
    r: SearchResult,
) -> bool
    decreases popcount(pos.chessboard@.occupied()), 2int,
{
    &&& r.next_position_value.0 != i16::MIN
    &&& exists|stand_pat: Value, s: Seq<MV>|
        #![trigger eval.ensures((&pos, no_moves(pos.chessboard@)), stand_pat), searched_captures(pos.chessboard@, s)]
        {
            &&& eval.ensures((&pos, no_moves(pos.chessboard@)), stand_pat)
            &&& quiesced(pos, alpha, beta, use_ab, eval, stand_pat, s, r)
        }
}

/// the last of the captures `s` that raised alpha, from `a` on, to its
/// score or matched it: its score is where alpha ends
pub open spec fn last_raise(a: Value, s: Seq<MV>) -> Option<MV>
    decreases s.len(),
{
    if s.len() == 0 {
        None
    } else if s.last().1.0 >= raised(a, s.drop_last()).0 {
        Some(s.last())
    } else {
        last_raise(a, s.drop_last())
    }
}

/// the highest of values that are none of them `i16::MIN` is not `i16::MIN`
proof fn lemma_raised_not_min(a: Value, s: Seq<MV>)
    requires
        a.0 != i16::MIN,
        forall|i: int| 0 <= i < s.len() ==> (#[trigger] s[i]).1.0 != i16::MIN,
    ensures
        raised(a, s).0 != i16::MIN,
    decreases s.len(),
{
    if s.len() > 0 {
        lemma_raised_not_min(a, s.drop_last());
        assert(s.last() == s[s.len() - 1]);
    }
}

/// while captures that take a piece are left, the generator hands one out:
/// the one after the `k` already searched
proof fn lemma_captures_come_first(b: BoardView, caps: Seq<Move>, k: int)
    requires
        0 <= k < caps.len(),
        forall|m: Move| #[trigger] caps.contains(m) ==> legal_moves(b).contains(m) && in_mask(
            b.color_bb(b.side_to_move.spec_other()),
            m,
        ),
        forall|m: Move| #[trigger] legal_moves(b).contains(m) ==> m.on_board(),
    ensures
        b.is_capture(caps[caps.len() - k - 1]),
{
    let m = caps[caps.len() - k - 1];
    assert(caps.contains(m));
    crate::pieces::lemma_union_has_square(b.colors[0], b.colors[1], m.dest as int);
}

/// the result of a search that looked at nothing below its node
fn leaf_result(value: Value) -> (r: SearchResult)
    ensures
        r.pv@.len() == 0,
        r.next_position_value == value,
        r.nodes_searched == 1,
        r.tb_hits == 0,
        r.depth == Depth(0),
        !r.from_draw,
        !r.aborted,
{
    SearchResult {
        pv: Vec::new(),
        next_position_value: value,
        nodes_searched: 1,
        tb_hits: 0,
        depth: Depth(0),
        from_draw: false,
        aborted: false,
    }
}

/// make sure that we only statically evaluate after all capture moves have been
/// played (end of piece exchange)
///
/// NOTE: this function does not search moves that put a player into check,
/// as checks cannot be generated apart from quiet moves.
#[verifier::loop_isolation(false)]
#[verifier::rlimit(80)]
pub fn quiescence<E: Fn(&Position, bool) -> Value>(
    pos: Position,
    alpha: Value,
    beta: Value,
    _search_options: SearchOptions<'_>,
    opts: &EngineOpts,
    eval: &E,
) -> (r: SearchResult)
    requires
        sound_eval(*eval),
        alpha.0 != i16::MIN,
        beta.0 != i16::MIN,
        pos.halfmove_clock < usize::MAX,
        playable(pos.chessboard@),
    ensures
        quiesce_result(pos, alpha, beta, opts.use_ab, *eval, r),
    decreases popcount(pos.chessboard@.occupied()),
{
    let ghost start_alpha = alpha;
    let mut alpha = alpha;
    let mut nodes: u32 = 1;
    let board = &pos.chessboard;
    let ghost b = board@;
    let ghost legal = legal_moves(b);
    let ghost opp = b.color_bb(b.side_to_move.spec_other());
    proof {
        crate::board::lemma_playable_generable(b);
    }
    let mg = movegen_new(board);
    let no_prio: Vec<Move> = Vec::new();
    let mut pgen = prio_iterator(mg, board, no_prio.as_slice());
    let ghost caps = pgen.prio();
    proof {
        assert(caps.subrange(0, caps.len() - 0) == caps);
        assert(pgen.generated().subset_of(legal));
        assert forall|m: Move| #[trigger] caps.contains(m) implies legal.contains(m) && in_mask(opp, m) by {
            assert(caps.to_set().contains(m));
        }
        assert forall|m: Move| #[trigger] takes_piece(b, m) implies caps.contains(m) by {
            assert(captures_kept(legal, no_prio@, opp).contains(m));
            assert(caps.to_set().contains(m));
        }
    }

    // the first move is generated to tell a mate or stalemate apart from a
    // position with moves available. it is the highest priority move overall,
    // which is a capture only if one exists.
    let ghost first = pgen;
    let mut current_move = pgen.next_move();
    let out_of_moves = current_move.is_none();
    proof {
        assert(pgen.generated().subset_of(first.generated()));
        if caps.len() > 0 {
            assert(caps.contains(caps.last()));
        }
        if out_of_moves {
            assert forall|m: Move| !legal.contains(m) by {
                if legal.contains(m) {
                    if in_mask(opp, m) {
                        assert(takes_piece(b, m));
                        assert(caps.contains(m));
                    } else {
                        assert(movegen_moves(mg).contains(m) && !in_mask(opp, m) && !removed_by(no_prio@, m));
                    }
                }
            }
            assert(legal =~= Set::<Move>::empty());
        } else {
            let m = current_move.unwrap();
            assert(legal.contains(m));
            assert(!(legal =~= Set::<Move>::empty()));
        }
    }
    let stand_pat = eval(&pos, out_of_moves);

    // 1. stand-pat test
    if opts.use_ab && stand_pat.0 >= beta.0 {
        let r = leaf_result(stand_pat);
        assert(quiesced(pos, start_alpha, beta, opts.use_ab, *eval, stand_pat, Seq::<MV>::empty(), r));
        assert(eval.ensures((&pos, no_moves(pos.chessboard@)), stand_pat));
        assert(r.next_position_value.0 != i16::MIN);
        return r;
    }
    if stand_pat.0 > alpha.0 {
        alpha = stand_pat;
    }

    proof {
        assert forall|i: int| 0 <= i < pgen.prio().len() implies legal.contains(#[trigger] pgen.prio()[i]) by {
            assert(pgen.prio()[i] == caps[i]);
            assert(caps.contains(caps[i]));
        }
    }
    let ghost start = alpha;
    let ghost mut s: Seq<MV> = Seq::empty();
    let mut pv: Option<Move> = None;
    let mut max_depth: u16 = 0;
    loop
        invariant
            pgen.wf(),
            pgen.generated().finite(),
            pgen.generated().subset_of(legal),
            forall|i: int| 0 <= i < pgen.prio().len() ==> legal.contains(#[trigger] pgen.prio()[i]),
            s.len() < caps.len() ==> {
                &&& pgen.prio() == caps.subrange(0, caps.len() - s.len() - 1)
                &&& current_move == Some(caps[caps.len() - s.len() - 1])
            },
            s.len() >= caps.len() ==> pgen.prio().len() == 0,
            current_move matches Some(m) ==> legal.contains(m),
            forall|i: int| 0 <= i < s.len() && i < caps.len() ==> (#[trigger] s[i]).0 == caps[caps.len() - 1 - i],
            forall|i: int| 0 <= i < s.len() ==> legal.contains(#[trigger] s[i].0) && b.is_capture(s[i].0),
            alpha == raised(start, s),
            s.len() == 0 ==> nodes == 1 && max_depth == 0,
            opts.use_ab ==> forall|i: int| 0 <= i < s.len() ==> (#[trigger] s[i]).1.0 < beta.0,
            pv == (match last_raise(start, s) {
                Some(x) => Some(x.0),
                None => None::<Move>,
            }),
            last_raise(start, s) matches Some(x) ==> x.1 == alpha,
            forall|i: int| 0 <= i < s.len() ==> (#[trigger] s[i]).1.0 != i16::MIN,
            forall|i: int| 0 <= i < s.len() ==> #[trigger] captured_score(
                pos,
                raised(start, s.subrange(0, i)),
                beta,
                opts.use_ab,
                *eval,
                s[i],
            ),
        decreases pgen.prio().len() + pgen.generated().len() + (if current_move is Some { 1int } else { 0 }),
    {
        let mv = match current_move {
            Some(mv) => mv,
            None => {
                break;
            },
        };
        // only captures are searched: a quiet move leaks out of the generator
        // once the captures are done, and every position has one
        if !is_capture(board, mv) {
            proof {
                if s.len() < caps.len() {
                    lemma_captures_come_first(b, caps, s.len() as int);
                }
            }
            break;
        }
        proof {
            assert(b.is_capture(mv));
            assert(crate::position::resets_clock(b, mv));
        }

        let next = pos.make_move(mv);
        let ghost after = next;
        let child = quiescence(next, Value(-beta.0), Value(-alpha.0), _search_options, opts, eval);
        let value = Value(-child.next_position_value.0);
        let ghost prev = s;
        proof {
            assert(captured_score(pos, raised(start, prev), beta, opts.use_ab, *eval, MV(mv, value))) by {
                assert(capture_played(pos, MV(mv, value).0, after));
                assert(negated(MV(mv, value).1, child));
            }
            s = s.push(MV(mv, value));
            assert(s.drop_last() == prev);
            assert(s.subrange(0, prev.len() as int) == prev);
            assert forall|i: int| 0 <= i < s.len() implies #[trigger] captured_score(
                pos,
                raised(start, s.subrange(0, i)),
                beta,
                opts.use_ab,
                *eval,
                s[i],
            ) by {
                if i < prev.len() {
                    assert(s.subrange(0, i) == prev.subrange(0, i));
                    assert(s[i] == prev[i]);
                }
            }
        }

        if child.depth.0 > max_depth {
            max_depth = child.depth.0;
        }
        nodes = nodes.wrapping_add(child.nodes_searched);

        if opts.use_ab && value.0 >= beta.0 {
            let mut line = Vec::new();
            line.push(MV(mv, value));
            let r = SearchResult {
                pv: line,
                next_position_value: value,
                nodes_searched: nodes,
                depth: Depth(max_depth.wrapping_add(1)),
                tb_hits: 0,
                from_draw: child.from_draw,
                aborted: false,
            };
            assert(r.pv@ == seq![s.last()]);
            assert(start == stood(start_alpha, stand_pat));
            assert forall|i: int| #![trigger s[i]] 0 <= i < s.len() implies captured_score(
                pos,
                raised(stood(start_alpha, stand_pat), s.subrange(0, i)),
                beta,
                opts.use_ab,
                *eval,
                s[i],
            ) by {
                assert(captured_score(pos, raised(start, s.subrange(0, i)), beta, opts.use_ab, *eval, s[i]));
            }
            assert(eval.ensures((&pos, no_moves(pos.chessboard@)), stand_pat));
            assert(quiesced(pos, start_alpha, beta, opts.use_ab, *eval, stand_pat, s, r));
            assert(r.next_position_value.0 != i16::MIN);
            return r;
        }

        if value.0 >= alpha.0 {
            alpha = value;
            pv = Some(mv);
        }
        proof {
            assert(s.last() == MV(mv, value));
            assert(s.drop_last() == prev);
        }

        current_move = pgen.next_move();
    }

    let mut line = Vec::new();
    if let Some(pm) = pv {
        line.push(MV(pm, alpha));
    }
    let r = SearchResult {
        pv: line,
        next_position_value: alpha,
        nodes_searched: nodes,
        depth: Depth(max_depth),
        tb_hits: 0,
        from_draw: false,
        aborted: false,
    };
    proof {
        let a = stood(start_alpha, stand_pat);
        assert(a == start);
        assert forall|i: int| #![trigger s[i]] 0 <= i < s.len() implies captured_score(
            pos,
            raised(a, s.subrange(0, i)),
            beta,
            opts.use_ab,
            *eval,
            s[i],
        ) by {
            assert(captured_score(pos, raised(start, s.subrange(0, i)), beta, opts.use_ab, *eval, s[i]));
        }
        lemma_raised_not_min(a, s);
        assert(r.next_position_value == raised(a, s));
        assert(!(opts.use_ab && s.len() > 0 && s.last().1.0 >= beta.0));
        assert(r.pv@ == (match last_raise(a, s) {
            Some(x) => seq![x],
            None => Seq::<MV>::empty(),
        }));
        assert forall|m: Move| #[trigger] takes_piece(b, m) implies exists|i: int| 0 <= i < s.len() && s[i].0 == m by {
            assert(caps.contains(m));
            let j = choose|j: int| 0 <= j < caps.len() && caps[j] == m;
            let i = caps.len() - 1 - j;
            assert(s[i].0 == caps[caps.len() - 1 - i]);
        }
    }
    assert(quiesced(pos, start_alpha, beta, opts.use_ab, *eval, stand_pat, s, r));
    assert(eval.ensures((&pos, no_moves(pos.chessboard@)), stand_pat));
    r
}

} // verus!
