//! move ordering: which moves the search tries first
//!
//! https://www.chessprogramming.org/Move_Ordering
use vstd::prelude::*;
use crate::board::{
    BoardState, legal_moves, movegen_moves, movegen_mask, movegen_ordered, movegen_promoting, movegen_unsplit,
    movegen_new, movegen_set_mask, movegen_next, movegen_remove, in_mask, generable,
};
use crate::pieces::{Move, Piece, Color, has_square};
use crate::values::Value;
use crate::position::Position;
use crate::history::MoveHistory;
use crate::material::{initial_value, initial_values};

verus! {

/// the four center squares
pub const CENTER_4: u64 = 0x0000_0018_1800_0000;

/// the sixteen center squares
pub const CENTER_16: u64 = 0x0000_3c3c_3c3c_0000;

/// the moves of a generator that land on a mask
pub open spec fn landing_on(moves: Set<Move>, mask: u64) -> Set<Move> {
    moves.filter(|m: Move| in_mask(mask, m))
}

/// move every remaining move landing on `mask` from the generator to the end
/// of `buf`
fn drain_mask(mg: &mut chess::MoveGen, mask: u64, buf: &mut Vec<Move>)
    requires
        movegen_moves(*old(mg)).finite(),
        !movegen_promoting(*old(mg)),
    ensures
        ({
            let added = final(buf)@.subrange(old(buf)@.len() as int, final(buf)@.len() as int);
            &&& final(buf)@.subrange(0, old(buf)@.len() as int) == old(buf)@
            &&& final(buf)@.len() >= old(buf)@.len()
            &&& added.no_duplicates()
            &&& added.to_set() == landing_on(movegen_moves(*old(mg)), mask)
        }),
        movegen_moves(*final(mg)) == movegen_moves(*old(mg)).filter(|m: Move| !in_mask(mask, m)),
        movegen_moves(*final(mg)).finite(),
        movegen_mask(*final(mg)) == mask,
        movegen_ordered(*final(mg)),
        !movegen_promoting(*final(mg)),
        movegen_unsplit(*final(mg)) == movegen_unsplit(*old(mg)),
{
    let ghost start = movegen_moves(*mg);
    let ghost base = buf@;
    let ghost unsplit = movegen_unsplit(*mg);
    movegen_set_mask(mg, mask);
    loop
        invariant_except_break
            movegen_moves(*mg).finite(),
            movegen_unsplit(*mg) == unsplit,
            movegen_mask(*mg) == mask,
            movegen_ordered(*mg),
            buf@.len() >= base.len(),
            buf@.subrange(0, base.len() as int) == base,
            buf@.subrange(base.len() as int, buf@.len() as int).no_duplicates(),
            forall|m: Move| #[trigger]
                buf@.subrange(base.len() as int, buf@.len() as int).contains(m) ==> start.contains(m)
                    && in_mask(mask, m) && !movegen_moves(*mg).contains(m),
            forall|m: Move| #[trigger]
                start.contains(m) ==> (movegen_moves(*mg).contains(m) || buf@.subrange(
                    base.len() as int,
                    buf@.len() as int,
                ).contains(m)),
            forall|m: Move| #[trigger] movegen_moves(*mg).contains(m) ==> start.contains(m),
        ensures
            buf@.len() >= base.len(),
            buf@.subrange(0, base.len() as int) == base,
            buf@.subrange(base.len() as int, buf@.len() as int).no_duplicates(),
            buf@.subrange(base.len() as int, buf@.len() as int).to_set() == landing_on(start, mask),
            movegen_moves(*mg) == start.filter(|m: Move| !in_mask(mask, m)),
            movegen_moves(*mg).finite(),
            movegen_mask(*mg) == mask,
            movegen_ordered(*mg),
            !movegen_promoting(*mg),
            movegen_unsplit(*mg) == unsplit,
        decreases movegen_moves(*mg).len(),
    {
        let ghost before = buf@;
        let ghost moves_before = movegen_moves(*mg);
        match movegen_next(mg) {
            Some(m) => {
                buf.push(m);
                proof {
                    let added = buf@.subrange(base.len() as int, buf@.len() as int);
                    let prev = before.subrange(base.len() as int, before.len() as int);
                    assert(added == prev.push(m));
                    assert(buf@.subrange(0, base.len() as int) == before.subrange(0, base.len() as int));
                    assert forall|x: Move| #[trigger] added.contains(x) implies start.contains(x)
                        && in_mask(mask, x) && !movegen_moves(*mg).contains(x) by {
                        if x != m {
                            assert(prev.contains(x));
                        }
                    }
                    assert forall|x: Move| #[trigger] start.contains(x) implies (movegen_moves(*mg).contains(x)
                        || added.contains(x)) by {
                        if movegen_moves(*mg).contains(x) {
                        } else if x == m {
                            assert(added[added.len() - 1] == m);
                        } else {
                            assert(!moves_before.contains(x));
                            assert(prev.contains(x));
                            let i = choose|i: int| 0 <= i < prev.len() && prev[i] == x;
                            assert(added[i] == x);
                        }
                    }
                    assert forall|i: int, j: int| 0 <= i < added.len() && 0 <= j < added.len() && i != j
                        implies added[i] != added[j] by {
                        if i == added.len() - 1 {
                            assert(prev.contains(added[j]));
                        } else if j == added.len() - 1 {
                            assert(prev.contains(added[i]));
                        }
                    }
                    assert(moves_before.len() > 0) by {
                        assert(moves_before.contains(m));
                    }
                }
            },
            None => {
                proof {
                    let added = buf@.subrange(base.len() as int, buf@.len() as int);
                    assert forall|x: Move| added.to_set().contains(x) <==> landing_on(start, mask).contains(x) by {
                        if landing_on(start, mask).contains(x) {
                            assert(!movegen_moves(*mg).contains(x));
                        }
                    }
                    assert(added.to_set() == landing_on(start, mask));
                    assert(movegen_moves(*mg) == start.filter(|x: Move| !in_mask(mask, x)));
                }
                break;
            },
        }
    }
}

/// A struct that holds a vector of moves, ordered by importance
#[derive(Debug)]
pub struct MoveOrdering(pub Vec<Move>);

impl MoveOrdering {
    /// returns the number of moves in the vector.
    pub fn len(&self) -> (r: usize)
        ensures
            r == self.0@.len(),
    {
        self.0.len()
    }

    /// are there any moves left?
    pub fn is_empty(&self) -> (r: bool)
        ensures
            r == (self.0@.len() == 0),
    {
        self.0.len() == 0
    }

    /// returns the last move in the vector, or None if it is empty.
    pub fn pop(&mut self) -> (r: Option<Move>)
        ensures
            old(self).0@.len() == 0 ==> r is None && final(self).0@.len() == 0,
            old(self).0@.len() > 0 ==> r == Some(old(self).0@.last()) && final(self).0@
                == old(self).0@.drop_last(),
    {
        self.0.pop()
    }
}

/// which of the masks a move falls into first; past the last mask if none
pub open spec fn group_of(masks: Seq<u64>, m: Move) -> int
    decreases masks.len(),
{
    if masks.len() == 0 {
        0
    } else if in_mask(masks[0], m) {
        0
    } else {
        1 + group_of(masks.drop_first(), m)
    }
}

/// a list of the legal moves of a position, each once, grouped by the first
/// mask their destination falls into, group after group
pub open spec fn ordered_by_masks(s: Seq<Move>, moves: Set<Move>, masks: Seq<u64>) -> bool {
    &&& s.no_duplicates()
    &&& s.to_set() == moves
    &&& forall|i: int, j: int|
        0 <= i < j < s.len() ==> group_of(masks, #[trigger] s[i]) <= group_of(masks, #[trigger] s[j])
}

proof fn lemma_group_of(masks: Seq<u64>, m: Move, k: int)
    requires
        0 <= k < masks.len(),
    ensures
        in_mask(masks[k], m) ==> group_of(masks, m) <= k,
        group_of(masks, m) == k ==> in_mask(masks[k], m),
        group_of(masks, m) <= masks.len(),
    decreases masks.len(),
{
    if k > 0 && !in_mask(masks[0], m) {
        lemma_group_of(masks.drop_first(), m, k - 1);
    }
    lemma_group_of_bound(masks, m);
    lemma_group_of_bound(masks.drop_first(), m);
}

proof fn lemma_group_of_bound(masks: Seq<u64>, m: Move)
    ensures
        group_of(masks, m) <= masks.len(),
        group_of(masks, m) >= 0,
    decreases masks.len(),
{
    if masks.len() > 0 {
        lemma_group_of_bound(masks.drop_first(), m);
    }
}

/// any two orderings of the same moves, whatever masks group them, hold the
/// same moves and as many: the ordered, principal-variation-first and
/// unordered lists of a position all list its legal moves, each once
pub proof fn lemma_orderings_hold_the_same_moves(
    s1: Seq<Move>,
    s2: Seq<Move>,
    moves: Set<Move>,
    masks1: Seq<u64>,
    masks2: Seq<u64>,
)
    requires
        ordered_by_masks(s1, moves, masks1),
        ordered_by_masks(s2, moves, masks2),
    ensures
        s1.to_set() == s2.to_set(),
        s1.len() == s2.len(),
        s1.len() == moves.len(),
{
    s1.unique_seq_to_set();
    s2.unique_seq_to_set();
}

/// drain the generator mask after mask, appending each mask's moves to
/// `buf`
fn drain_masks(mg: &mut chess::MoveGen, masks: &[u64], buf: &mut Vec<Move>)
    requires
        movegen_moves(*old(mg)).finite(),
        !movegen_promoting(*old(mg)),
        old(buf)@.len() == 0,
        masks@.len() > 0,
        masks@.last() == u64::MAX,
        forall|m: Move| #[trigger] movegen_moves(*old(mg)).contains(m) ==> m.on_board(),
    ensures
        ordered_by_masks(final(buf)@, movegen_moves(*old(mg)), masks@),
{
    let ghost start = movegen_moves(*mg);
    assert forall|m: Move| #[trigger] movegen_moves(*mg).contains(m) implies start.contains(m) && group_of(masks@, m) >= 0 by {
        lemma_group_of_bound(masks@, m);
    }
    let mut k: usize = 0;
    while k < masks.len()
        invariant
            0 <= k <= masks@.len(),
            masks@.len() > 0,
            masks@.last() == u64::MAX,
            movegen_moves(*mg).finite(),
            !movegen_promoting(*mg),
            buf@.no_duplicates(),
            forall|m: Move| #[trigger] buf@.contains(m) ==> start.contains(m) && group_of(masks@, m) < k,
            forall|m: Move| start.contains(m) ==> (#[trigger] movegen_moves(*mg).contains(m) || buf@.contains(m)),
            forall|m: Move| #[trigger] movegen_moves(*mg).contains(m) ==> start.contains(m) && group_of(masks@, m) >= k,
            forall|m: Move| #[trigger] start.contains(m) ==> m.on_board(),
            forall|i: int, j: int|
                0 <= i < j < buf@.len() ==> group_of(masks@, #[trigger] buf@[i]) <= group_of(masks@, #[trigger] buf@[j]),
        decreases masks@.len() - k,
    {
        let ghost before = buf@;
        let ghost moves_before = movegen_moves(*mg);
        drain_mask(mg, masks[k], buf);
        proof {
            let added = buf@.subrange(before.len() as int, buf@.len() as int);
            assert(buf@ == before + added);
            assert forall|m: Move| #[trigger] added.contains(m) implies moves_before.contains(m) && group_of(masks@, m) == k by {
                assert(added.to_set().contains(m));
                lemma_group_of(masks@, m, k as int);
            }
            assert forall|m: Move| #[trigger] movegen_moves(*mg).contains(m) implies start.contains(m) && group_of(masks@, m) >= k + 1 by {
                lemma_group_of(masks@, m, k as int);
            }
            assert forall|m: Move| #[trigger] buf@.contains(m) implies start.contains(m) && group_of(masks@, m) < k + 1 by {
                let i = choose|i: int| 0 <= i < buf@.len() && buf@[i] == m;
                if i >= before.len() {
                    assert(added[i - before.len()] == m);
                    assert(added.contains(m));
                } else {
                    assert(before[i] == m);
                    assert(before.contains(m));
                }
            }
            assert forall|m: Move| start.contains(m) implies (#[trigger] movegen_moves(*mg).contains(m) || buf@.contains(m)) by {
                if !before.contains(m) {
                    assert(moves_before.contains(m));
                    if in_mask(masks@[k as int], m) {
                        assert(landing_on(moves_before, masks@[k as int]).contains(m));
                        assert(added.to_set().contains(m));
                        let i = choose|i: int| 0 <= i < added.len() && added[i] == m;
                        assert(buf@[before.len() + i] == m);
                    }
                } else {
                    let i = choose|i: int| 0 <= i < before.len() && before[i] == m;
                    assert(buf@[i] == m);
                }
            }
            assert forall|i: int, j: int| 0 <= i < j < buf@.len() implies group_of(masks@, #[trigger] buf@[i]) <= group_of(masks@, #[trigger] buf@[j]) by {
                if j >= before.len() {
                    assert(added.contains(buf@[j])) by { assert(added[j - before.len()] == buf@[j]); }
                    if i >= before.len() {
                        assert(added.contains(buf@[i])) by { assert(added[i - before.len()] == buf@[i]); }
                    } else {
                        assert(before.contains(buf@[i])) by { assert(before[i] == buf@[i]); }
                    }
                } else {
                    assert(before[i] == buf@[i] && before[j] == buf@[j]);
                }
            }
            assert forall|i: int, j: int| 0 <= i < buf@.len() && 0 <= j < buf@.len() && i != j implies buf@[i] != buf@[j] by {
                if i >= before.len() && j >= before.len() {
                    assert(added[i - before.len()] == buf@[i] && added[j - before.len()] == buf@[j]);
                } else if i < before.len() && j < before.len() {
                    assert(before[i] == buf@[i] && before[j] == buf@[j]);
                } else if i < before.len() {
                    assert(before.contains(buf@[i])) by { assert(before[i] == buf@[i]); }
                    assert(added.contains(buf@[j])) by { assert(added[j - before.len()] == buf@[j]); }
                } else {
                    assert(before.contains(buf@[j])) by { assert(before[j] == buf@[j]); }
                    assert(added.contains(buf@[i])) by { assert(added[i - before.len()] == buf@[i]); }
                }
            }
        }
        k = k + 1;
    }
    proof {
        assert forall|m: Move| buf@.to_set().contains(m) <==> start.contains(m) by {
            if start.contains(m) && !buf@.contains(m) {
                assert(movegen_moves(*mg).contains(m));
                crate::pieces::lemma_full_bitboard(m.dest as int);
                lemma_group_of(masks@, m, masks@.len() - 1);
            }
        }
        assert(buf@.to_set() == start);
    }
}

/// return all moves possible from this position, ordered by importance
pub fn ordered_moves(b: &BoardState) -> (r: MoveOrdering)
    requires
        generable(b@),
    ensures
        ordered_by_masks(
            r.0@,
            legal_moves(b@),
            seq![b@.piece_bb(Piece::Queen), b@.piece_bb(Piece::Rook), b@.piece_bb(Piece::Bishop), b@.piece_bb(Piece::Knight), b@.piece_bb(Piece::Pawn), u64::MAX],
        ),
{
    let mut moves = Vec::new();
    let mut mg = movegen_new(b);
    let masks = [
        b.pieces(Piece::Queen),
        b.pieces(Piece::Rook),
        b.pieces(Piece::Bishop),
        b.pieces(Piece::Knight),
        b.pieces(Piece::Pawn),
        u64::MAX,
    ];
    drain_masks(&mut mg, &masks, &mut moves);
    assert(masks@ == seq![b@.piece_bb(Piece::Queen), b@.piece_bb(Piece::Rook), b@.piece_bb(Piece::Bishop), b@.piece_bb(Piece::Knight), b@.piece_bb(Piece::Pawn), u64::MAX]);
    MoveOrdering(moves)
}

/// the square a bitboard of one square holds
pub proof fn lemma_single_square(sq: int)
    requires
        0 <= sq < 64,
    ensures
        has_square(1u64 << (sq as u64), sq),
{
    let s = sq as u64;
    assert(((1u64 << s) >> s) & 1 == 1) by (bit_vector)
        requires
            s < 64,
    ;
}

/// move the first occurrence of `m` to the front of `v`, where it occurs
fn bring_to_front(v: &mut Vec<Move>, m: Move)
    ensures
        old(v)@.contains(m) ==> exists|k: int|
            0 <= k < old(v)@.len() && old(v)@[k] == m && final(v)@ == seq![m] + old(v)@.remove(k),
        !old(v)@.contains(m) ==> final(v)@ == old(v)@,
{
    let mut i: usize = 0;
    while i < v.len()
        invariant
            i <= v@.len(),
            v@ == old(v)@,
            forall|j: int| 0 <= j < i ==> v@[j] != m,
        decreases v@.len() - i,
    {
        if v[i] == m {
            let x = v.remove(i);
            v.insert(0, x);
            assert(v@ =~= seq![m] + old(v)@.remove(i as int));
            return;
        }
        i = i + 1;
    }
}

/// return all moves possible from this position, ordered by importance,
/// prioritising the principal variation: its move first, where it is legal,
/// then the others that land where it does
pub fn pv_ordered_moves(b: &BoardState, pv: &Move) -> (r: MoveOrdering)
    requires
        pv.dest < 64,
        generable(b@),
    ensures
        ordered_by_masks(
            r.0@,
            legal_moves(b@),
            seq![1u64 << pv.dest, b@.piece_bb(Piece::Queen), b@.piece_bb(Piece::Rook), b@.piece_bb(Piece::Bishop), b@.piece_bb(Piece::Knight), b@.piece_bb(Piece::Pawn), u64::MAX],
        ),
        legal_moves(b@).contains(*pv) ==> r.0@[0] == *pv,
{
    let mut moves = Vec::new();
    let mut mg = movegen_new(b);
    let masks = [
        1u64 << pv.dest,
        b.pieces(Piece::Queen),
        b.pieces(Piece::Rook),
        b.pieces(Piece::Bishop),
        b.pieces(Piece::Knight),
        b.pieces(Piece::Pawn),
        u64::MAX,
    ];
    drain_masks(&mut mg, &masks, &mut moves);
    let ghost ms = seq![1u64 << pv.dest, b@.piece_bb(Piece::Queen), b@.piece_bb(Piece::Rook), b@.piece_bb(Piece::Bishop), b@.piece_bb(Piece::Knight), b@.piece_bb(Piece::Pawn), u64::MAX];
    assert(masks@ == ms);
    let ghost drained = moves@;
    bring_to_front(&mut moves, *pv);
    proof {
        if drained.contains(*pv) {
            let k = choose|k: int|
                0 <= k < drained.len() && drained[k] == *pv && moves@ == seq![*pv] + drained.remove(k);
            lemma_single_square(pv.dest as int);
            assert(group_of(ms, *pv) == 0);
            assert forall|i: int, j: int| 0 <= i < j < moves@.len() implies group_of(ms, #[trigger] moves@[i])
                <= group_of(ms, #[trigger] moves@[j]) by {
                lemma_group_of_bound(ms, moves@[j]);
                if i > 0 {
                    let i0 = if i - 1 < k { i - 1 } else { i };
                    let j0 = if j - 1 < k { j - 1 } else { j };
                    assert(moves@[i] == drained[i0]);
                    assert(moves@[j] == drained[j0]);
                }
            }
            assert forall|i: int, j: int| 0 <= i < moves@.len() && 0 <= j < moves@.len() && i != j implies moves@[i] != moves@[j] by {
                let i0 = if i == 0 { k } else if i - 1 < k { i - 1 } else { i };
                let j0 = if j == 0 { k } else if j - 1 < k { j - 1 } else { j };
                assert(moves@[i] == drained[i0]);
                assert(moves@[j] == drained[j0]);
            }
            assert forall|x: Move| moves@.contains(x) <==> drained.contains(x) by {
                if drained.contains(x) {
                    let p = drained.index_of(x);
                    if p == k {
                        assert(moves@[0] == x);
                    } else if p < k {
                        assert(moves@[p + 1] == x);
                    } else {
                        assert(moves@[p] == x);
                    }
                }
                if moves@.contains(x) {
                    let p = moves@.index_of(x);
                    let p0 = if p == 0 { k } else if p - 1 < k { p - 1 } else { p };
                    assert(drained[p0] == x);
                }
            }
            assert(moves@.to_set() =~= drained.to_set());
        }
    }
    MoveOrdering(moves)
}

/// return all moves possible from this position, unordered
pub fn unordered_moves(b: &BoardState) -> (r: MoveOrdering)
    requires
        generable(b@),
    ensures
        r.0@.no_duplicates(),
        r.0@.to_set() == legal_moves(b@),
{
    let mut moves = Vec::new();
    let mut mg = movegen_new(b);
    let masks = [u64::MAX];
    drain_masks(&mut mg, &masks, &mut moves);
    MoveOrdering(moves)
}

/// the actual logic of move ordering: append the generator's moves to `buf`,
/// those landing on queens first, then rooks, bishops, knights, pawns and
/// the rest
pub fn move_gen_ordering(b: &BoardState, mg: chess::MoveGen, buf: &mut Vec<Move>)
    requires
        movegen_moves(mg).finite(),
        !movegen_promoting(mg),
        forall|m: Move| #[trigger] movegen_moves(mg).contains(m) ==> m.on_board(),
    ensures
        final(buf)@.subrange(0, old(buf)@.len() as int) == old(buf)@,
        final(buf)@.len() >= old(buf)@.len(),
        ordered_by_masks(
            final(buf)@.subrange(old(buf)@.len() as int, final(buf)@.len() as int),
            movegen_moves(mg),
            seq![b@.piece_bb(Piece::Queen), b@.piece_bb(Piece::Rook), b@.piece_bb(Piece::Bishop), b@.piece_bb(Piece::Knight), b@.piece_bb(Piece::Pawn), u64::MAX],
        ),
{
    let mut mg = mg;
    let mut ordered = Vec::new();
    let masks = [
        b.pieces(Piece::Queen),
        b.pieces(Piece::Rook),
        b.pieces(Piece::Bishop),
        b.pieces(Piece::Knight),
        b.pieces(Piece::Pawn),
        u64::MAX,
    ];
    drain_masks(&mut mg, &masks, &mut ordered);
    let ghost before = buf@;
    let ghost o = ordered@;
    buf.append(&mut ordered);
    assert(buf@.subrange(0, before.len() as int) == before);
    assert(buf@.subrange(before.len() as int, buf@.len() as int) == o);
    assert(masks@ == seq![b@.piece_bb(Piece::Queen), b@.piece_bb(Piece::Rook), b@.piece_bb(Piece::Bishop), b@.piece_bb(Piece::Knight), b@.piece_bb(Piece::Pawn), u64::MAX]);
}

/// can MVV-LVA score this move? a piece stands on both squares: it is a
/// capture, and not one en passant
pub open spec fn scorable(b: crate::board::BoardView, m: Move) -> bool {
    &&& m.on_board()
    &&& b.piece_at(m.source as int) is Some
    &&& b.piece_at(m.dest as int) is Some
}

/// the MVV-LVA score of a capture: the captured piece's value less the
/// capturing piece's, a king counting for nothing
pub open spec fn mvv_lva(b: crate::board::BoardView, m: Move) -> int {
    initial_value(b.piece_at(m.dest as int).unwrap()) - initial_value(b.piece_at(m.source as int).unwrap())
}

/// a capture scores above zero where it takes a stronger kind of piece than
/// the one taking it (pawn, knight, bishop, rook, queen, weakest first), zero
/// for the same kind, below zero for a weaker one; a king taking a piece
/// scores what that piece is worth
pub proof fn lemma_mvv_lva_sign(b: crate::board::BoardView, m: Move)
    requires
        scorable(b, m),
        b.piece_at(m.dest as int) != Some(Piece::King),
    ensures
        b.piece_at(m.source as int) != Some(Piece::King) ==> {
            let a = b.piece_at(m.source as int).unwrap().index();
            let c = b.piece_at(m.dest as int).unwrap().index();
            &&& (mvv_lva(b, m) > 0 <==> c > a)
            &&& (mvv_lva(b, m) == 0 <==> c == a)
        },
        b.piece_at(m.source as int) == Some(Piece::King) ==> mvv_lva(b, m) == crate::material::initial_value(
            b.piece_at(m.dest as int).unwrap(),
        ) && mvv_lva(b, m) > 0,
{
    let a = b.piece_at(m.source as int).unwrap();
    let c = b.piece_at(m.dest as int).unwrap();
    if a != Piece::King {
        crate::material::lemma_piece_values_ordered(a, c);
        crate::material::lemma_piece_values_ordered(c, a);
    } else {
        crate::material::lemma_piece_values_ordered(c, c);
    }
}

/// what a piece is worth in an exchange: its value at the start of the game,
/// and nothing for a king, which only ever takes a piece nothing defends
fn exchange_value(p: Piece) -> (r: Value)
    ensures
        r.0 == initial_value(p),
{
    match p {
        Piece::King => Value(0),
        _ => initial_values(p),
    }
}

/// Assigns a score to a capture move based on MVV-LVA
pub fn mvv_lva_score(b: &BoardState, mv: &Move) -> (r: Value)
    requires
        scorable(b@, *mv),
    ensures
        r.0 == mvv_lva(b@, *mv),
{
    let capturing = b.piece_on(mv.source).unwrap();
    let captured = b.piece_on(mv.dest).unwrap();
    let capturing_value = exchange_value(capturing);
    let captured_value = exchange_value(captured);
    Value(captured_value.0 - capturing_value.0)
}

/// the score an ordering by heuristics gives a move: a capture its MVV-LVA
/// score, any other move 8000 if it is a killer move at `ply`, plus its
/// history score (as the `u32` a value adds, wrapping as values do)
pub fn score_move(pos: &Position, mv: &Move, hist: &MoveHistory, ply: usize) -> (r: Value)
    requires
        mv.on_board(),
        pos.chessboard@.piece_at(mv.dest as int) is Some ==> pos.chessboard@.piece_at(mv.source as int) is Some,
    ensures
        pos.chessboard@.piece_at(mv.dest as int) is Some ==> r.0 == mvv_lva(pos.chessboard@, *mv),
        pos.chessboard@.piece_at(mv.dest as int) is None ==> r.0 == vstd::wrapping::i16_specs::wrapping_add(
            if hist.killers@[(ply % 512) as int]@[0] == Some(*mv) || hist.killers@[(ply % 512) as int]@[1] == Some(*mv) {
                8000i16
            } else {
                0i16
            },
            (hist.history@[mv.source as int]@[mv.dest as int] as u32) as i16,
        ),
{
    if pos.chessboard.piece_on(mv.dest).is_some() {
        return mvv_lva_score(&pos.chessboard, mv);
    }
    let killer: i16 = if hist.is_killer(mv, ply) { 8000 } else { 0 };
    let h = hist.history_score(mv) as u32;
    Value(killer.wrapping_add(h as i16))
}

/// are the moves sorted by ascending MVV-LVA score?
pub open spec fn sorted_by_mvv_lva(b: crate::board::BoardView, s: Seq<Move>) -> bool {
    forall|i: int, j: int| 0 <= i < j < s.len() ==> mvv_lva(b, #[trigger] s[i]) <= mvv_lva(b, #[trigger] s[j])
}

/// sort captures by ascending MVV-LVA score, keeping equal scores in order;
/// fewer than two are left as they are, unscored
fn sort_by_mvv_lva(b: &BoardState, v: &mut Vec<Move>)
    requires
        old(v)@.len() >= 2 ==> forall|i: int| 0 <= i < old(v)@.len() ==> scorable(b@, #[trigger] old(v)@[i]),
    ensures
        final(v)@.to_multiset() == old(v)@.to_multiset(),
        sorted_by_mvv_lva(b@, final(v)@),
{
    let n = v.len();
    let mut i: usize = 1;
    if n < 2 {
        return;
    }
    while i < n
        invariant
            1 <= i <= n,
            v@.len() == n,
            v@.to_multiset() == old(v)@.to_multiset(),
            forall|k: int| 0 <= k < n ==> scorable(b@, #[trigger] v@[k]),
            forall|x: int, y: int| 0 <= x < y < i ==> mvv_lva(b@, #[trigger] v@[x]) <= mvv_lva(b@, #[trigger] v@[y]),
        decreases n - i,
    {
        let mut j: usize = i;
        while j > 0 && mvv_lva_score(b, &v[j - 1]).0 > mvv_lva_score(b, &v[j]).0
            invariant
                0 <= j <= i < n,
                v@.len() == n,
                v@.to_multiset() == old(v)@.to_multiset(),
                forall|k: int| 0 <= k < n ==> scorable(b@, #[trigger] v@[k]),
                forall|x: int, y: int| 0 <= x < y < j ==> mvv_lva(b@, #[trigger] v@[x]) <= mvv_lva(b@, #[trigger] v@[y]),
                forall|x: int, y: int| j <= x < y <= i ==> mvv_lva(b@, #[trigger] v@[x]) <= mvv_lva(b@, #[trigger] v@[y]),
                forall|x: int, y: int| 0 <= x < j && j < y <= i ==> mvv_lva(b@, #[trigger] v@[x]) <= mvv_lva(b@, #[trigger] v@[y]),
            decreases j,
        {
            let x = v[j - 1];
            let y = v[j];
            let ghost before = v@;
            v.set(j - 1, y);
            v.set(j, x);
            proof {
                vstd::seq_lib::to_multiset_update(before, j - 1, y);
                vstd::seq_lib::to_multiset_update(before.update(j - 1, y), j as int, x);
                let m0 = before.to_multiset();
                assert(before.contains(x) && before.contains(y)) by {
                    assert(before[j - 1] == x && before[j as int] == y);
                }
                assert(m0.count(x) > 0 && m0.count(y) > 0) by {
                    broadcast use vstd::seq_lib::group_to_multiset_ensures;
                }
                assert(m0.insert(y).remove(x).insert(x).remove(y) =~= m0) by {
                    broadcast use vstd::multiset::group_multiset_axioms;
                }
            }
            j = j - 1;
        }
        i = i + 1;
    }
}

/// An wrapper around the move generator that orders the moves based on some
/// heuristics: first the prioritised moves, from the end of the list, then the
/// generator's moves mask after mask.
pub struct OrderedMoves {
    /// prioritised moves (eg PV)
    prio_moves: Vec<Move>,
    /// the internal move generator
    mgen: chess::MoveGen,
    /// the positions to generate first
    masks: [u64; 8],
    /// current mask index
    cur_mask: usize,
}

impl OrderedMoves {
    /// the prioritised moves still to come, the last one first
    pub closed spec fn prio(self) -> Seq<Move> {
        self.prio_moves@
    }

    /// the moves the generator still holds
    pub closed spec fn generated(self) -> Set<Move> {
        movegen_moves(self.mgen)
    }

    /// the masks, in the order the generator goes through them
    pub closed spec fn mask_order(self) -> Seq<u64> {
        self.masks@
    }

    /// the mask the generator is on
    pub closed spec fn current(self) -> int {
        self.cur_mask as int
    }

    /// is the generator half way through the promotions of one pawn move?
    pub closed spec fn in_promotion(self) -> bool {
        movegen_promoting(self.mgen)
    }

    /// the state every ordering keeps
    pub closed spec fn wf(self) -> bool {
        &&& self.cur_mask < 8
        &&& self.masks@[7] == u64::MAX
        &&& movegen_mask(self.mgen) == self.masks@[self.cur_mask as int]
        &&& movegen_ordered(self.mgen)
        &&& movegen_moves(self.mgen).finite()
        &&& forall|m: Move| #[trigger] movegen_moves(self.mgen).contains(m) ==> m.on_board()
    }

    /// the next move: the last prioritised one while any are left, then the
    /// generator's next move on the first mask, from the current one on, that
    /// any move still lands on
    pub fn next_move(&mut self) -> (r: Option<Move>)
        requires
            old(self).wf(),
        ensures
            final(self).wf(),
            final(self).generated().finite(),
            final(self).mask_order() == old(self).mask_order(),
            old(self).prio().len() > 0 ==> {
                &&& r == Some(old(self).prio().last())
                &&& final(self).prio() == old(self).prio().drop_last()
                &&& final(self).generated() == old(self).generated()
                &&& final(self).current() == old(self).current()
            },
            old(self).prio().len() == 0 ==> {
                &&& final(self).prio().len() == 0
                &&& old(self).current() <= final(self).current()
                &&& forall|k: int, m: Move| old(self).current() <= k < final(self).current() && #[trigger] old(self).generated().contains(m)
                    ==> !#[trigger] in_mask(old(self).mask_order()[k], m)
                &&& match r {
                    Some(m) => {
                        &&& old(self).generated().contains(m)
                        &&& in_mask(old(self).mask_order()[final(self).current()], m)
                        &&& final(self).generated() == old(self).generated().remove(m)
                    },
                    None => old(self).generated().len() == 0 && final(self).generated() == old(self).generated(),
                }
            },
    {
        if let Some(prio) = self.prio_moves.pop() {
            return Some(prio);
        }
        let ghost start = movegen_moves(self.mgen);
        let ghost first = self.cur_mask as int;
        loop
            invariant
                self.wf(),
                self.prio_moves@.len() == 0,
                self.masks@ == old(self).masks@,
                old(self).prio_moves@.len() == 0,
                first == old(self).cur_mask,
                start == movegen_moves(old(self).mgen),
                first <= self.cur_mask,
                movegen_moves(self.mgen) == start,
                forall|k: int, m: Move| first <= k < self.cur_mask && k < 8 && #[trigger] start.contains(m) ==> !#[trigger] in_mask(self.masks@[k], m),
            decreases 8 - self.cur_mask,
        {
            if let Some(mv) = movegen_next(&mut self.mgen) {
                return Some(mv);
            }
            if self.cur_mask >= 7 {
                proof {
                    assert forall|m: Move| !start.contains(m) by {
                        if start.contains(m) {
                            crate::pieces::lemma_full_bitboard(m.dest as int);
                        }
                    }
                    assert(start == Set::<Move>::empty());
                }
                return None;
            }
            self.cur_mask = self.cur_mask + 1;
            movegen_set_mask(&mut self.mgen, self.masks[self.cur_mask]);
        }
    }
}

/// is `m` still to come from an ordering?
pub open spec fn to_come(o: OrderedMoves, m: Move) -> bool {
    o.prio().contains(m) || o.generated().contains(m)
}

/// hand the moves of an ordering to `children`, in the ordering's order,
/// until `children` holds `limit` moves or the ordering has run out; every
/// move that was still to come has come, or still is
pub fn take_moves(moves: &mut OrderedMoves, children: &mut Vec<Move>, limit: usize)
    requires
        old(moves).wf(),
        old(moves).generated().finite(),
    ensures
        final(moves).wf(),
        final(moves).generated().finite(),
        final(children)@.subrange(0, old(children)@.len() as int) == old(children)@,
        final(children)@.len() >= old(children)@.len(),
        final(children)@.len() > old(children)@.len() ==> final(children)@.len() <= limit,
        forall|i: int| old(children)@.len() <= i < final(children)@.len() ==> to_come(*old(moves), #[trigger] final(children)@[i]),
        forall|m: Move| to_come(*final(moves), m) ==> to_come(*old(moves), m),
        forall|m: Move| #[trigger] to_come(*old(moves), m) ==> to_come(*final(moves), m) || final(children)@.contains(m),
        final(children)@.len() < limit ==> final(moves).prio().len() == 0 && final(moves).generated().len() == 0,
        distinct_to_come(*old(moves)) ==> {
            &&& distinct_to_come(*final(moves))
            &&& final(children)@.subrange(old(children)@.len() as int, final(children)@.len() as int).no_duplicates()
            &&& forall|i: int| old(children)@.len() <= i < final(children)@.len() ==> !to_come(*final(moves), #[trigger] final(children)@[i])
        },
{
    let ghost start = *moves;
    let ghost before = children@;
    while children.len() < limit
        invariant
            moves.wf(),
            moves.generated().finite(),
            children@.subrange(0, before.len() as int) == before,
            children@.len() >= before.len(),
            children@.len() > before.len() ==> children@.len() <= limit,
            forall|i: int| before.len() <= i < children@.len() ==> to_come(start, #[trigger] children@[i]),
            forall|m: Move| to_come(*moves, m) ==> to_come(start, m),
            forall|m: Move| #[trigger] to_come(start, m) ==> to_come(*moves, m) || children@.contains(m),
            distinct_to_come(start) ==> {
                &&& distinct_to_come(*moves)
                &&& children@.subrange(before.len() as int, children@.len() as int).no_duplicates()
                &&& forall|i: int| before.len() <= i < children@.len() ==> !to_come(*moves, #[trigger] children@[i])
            },
        ensures
            children@.len() < limit ==> moves.prio().len() == 0 && moves.generated().len() == 0,
        decreases moves.prio().len() + moves.generated().len(),
    {
        let ghost prev = *moves;
        let ghost held = children@;
        match moves.next_move() {
            Some(m) => {
                children.push(m);
                proof {
                    assert(children@.subrange(0, before.len() as int) == held.subrange(0, before.len() as int));
                    assert(children@[children@.len() - 1] == m);
                    if prev.prio().len() > 0 {
                        assert(prev.prio().contains(prev.prio().last()));
                        assert forall|x: Move| to_come(*moves, x) implies to_come(prev, x) by {
                            if moves.prio().contains(x) {
                                let i = choose|i: int| 0 <= i < moves.prio().len() && moves.prio()[i] == x;
                                assert(prev.prio()[i] == x);
                            }
                        }
                        assert forall|x: Move| #[trigger] to_come(prev, x) implies to_come(*moves, x) || x == m by {
                            if prev.prio().contains(x) && x != m {
                                let i = choose|i: int| 0 <= i < prev.prio().len() && prev.prio()[i] == x;
                                assert(i != prev.prio().len() - 1);
                                assert(moves.prio()[i] == x);
                            }
                        }
                    }
                    assert forall|x: Move| #[trigger] to_come(start, x) implies to_come(*moves, x) || children@.contains(x) by {
                        if held.contains(x) {
                            let i = choose|i: int| 0 <= i < held.len() && held[i] == x;
                            assert(children@[i] == x);
                        }
                        if x == m {
                            assert(children@[children@.len() - 1] == x);
                        }
                    }
                    if distinct_to_come(start) {
                        lemma_next_keeps_distinct(prev, *moves, m);
                        let added = children@.subrange(before.len() as int, children@.len() as int);
                        let old_added = held.subrange(before.len() as int, held.len() as int);
                        assert(added == old_added.push(m));
                        assert forall|i: int| before.len() <= i < children@.len() implies !to_come(*moves, #[trigger] children@[i]) by {
                            if i < held.len() {
                                assert(children@[i] == held[i]);
                                assert(!to_come(prev, held[i]));
                            }
                        }
                        assert(!old_added.contains(m)) by {
                            if old_added.contains(m) {
                                let j = choose|j: int| 0 <= j < old_added.len() && old_added[j] == m;
                                assert(held[before.len() + j] == m);
                                assert(!to_come(prev, held[before.len() + j]));
                            }
                        }
                    }
                }
            },
            None => {
                proof {
                    assert forall|x: Move| !to_come(*moves, x) by {}
                }
                break;
            },
        }
    }
}

/// hand every move left in an ordering to `children`, in the ordering's order
pub fn take_rest(moves: &mut OrderedMoves, children: &mut Vec<Move>)
    requires
        old(moves).wf(),
        old(moves).generated().finite(),
    ensures
        final(moves).wf(),
        final(children)@.subrange(0, old(children)@.len() as int) == old(children)@,
        final(children)@.len() >= old(children)@.len(),
        forall|i: int| old(children)@.len() <= i < final(children)@.len() ==> to_come(*old(moves), #[trigger] final(children)@[i]),
        forall|m: Move| #[trigger] to_come(*old(moves), m) ==> final(children)@.contains(m),
        distinct_to_come(*old(moves)) ==> final(children)@.subrange(old(children)@.len() as int, final(children)@.len() as int).no_duplicates(),
{
    let ghost start = *moves;
    let ghost before = children@;
    loop
        invariant
            moves.wf(),
            moves.generated().finite(),
            children@.subrange(0, before.len() as int) == before,
            children@.len() >= before.len(),
            forall|i: int| before.len() <= i < children@.len() ==> to_come(start, #[trigger] children@[i]),
            forall|m: Move| to_come(*moves, m) ==> to_come(start, m),
            forall|m: Move| #[trigger] to_come(start, m) ==> to_come(*moves, m) || children@.contains(m),
            distinct_to_come(start) ==> {
                &&& distinct_to_come(*moves)
                &&& children@.subrange(before.len() as int, children@.len() as int).no_duplicates()
                &&& forall|i: int| before.len() <= i < children@.len() ==> !to_come(*moves, #[trigger] children@[i])
            },
        ensures
            forall|m: Move| #[trigger] to_come(start, m) ==> children@.contains(m),
        decreases moves.prio().len() + moves.generated().len(),
    {
        let ghost prev = *moves;
        let ghost held = children@;
        match moves.next_move() {
            Some(m) => {
                children.push(m);
                proof {
                    assert(children@.subrange(0, before.len() as int) == held.subrange(0, before.len() as int));
                    assert(children@[children@.len() - 1] == m);
                    if prev.prio().len() > 0 {
                        assert(prev.prio().contains(prev.prio().last()));
                        assert forall|x: Move| to_come(*moves, x) implies to_come(prev, x) by {
                            if moves.prio().contains(x) {
                                let i = choose|i: int| 0 <= i < moves.prio().len() && moves.prio()[i] == x;
                                assert(prev.prio()[i] == x);
                            }
                        }
                        assert forall|x: Move| #[trigger] to_come(prev, x) implies to_come(*moves, x) || x == m by {
                            if prev.prio().contains(x) && x != m {
                                let i = choose|i: int| 0 <= i < prev.prio().len() && prev.prio()[i] == x;
                                assert(i != prev.prio().len() - 1);
                                assert(moves.prio()[i] == x);
                            }
                        }
                    }
                    assert forall|x: Move| #[trigger] to_come(start, x) implies to_come(*moves, x) || children@.contains(x) by {
                        if held.contains(x) {
                            let i = choose|i: int| 0 <= i < held.len() && held[i] == x;
                            assert(children@[i] == x);
                        }
                        if x == m {
                            assert(children@[children@.len() - 1] == x);
                        }
                    }
                    if distinct_to_come(start) {
                        lemma_next_keeps_distinct(prev, *moves, m);
                        let added = children@.subrange(before.len() as int, children@.len() as int);
                        let old_added = held.subrange(before.len() as int, held.len() as int);
                        assert(added == old_added.push(m));
                        assert forall|i: int| before.len() <= i < children@.len() implies !to_come(*moves, #[trigger] children@[i]) by {
                            if i < held.len() {
                                assert(children@[i] == held[i]);
                                assert(!to_come(prev, held[i]));
                            }
                        }
                        assert(!old_added.contains(m)) by {
                            if old_added.contains(m) {
                                let j = choose|j: int| 0 <= j < old_added.len() && old_added[j] == m;
                                assert(held[before.len() + j] == m);
                                assert(!to_come(prev, held[before.len() + j]));
                            }
                        }
                    }
                }
            },
            None => {
                proof {
                    assert forall|x: Move| !to_come(*moves, x) by {}
                }
                break;
            },
        }
    }
}

/// no move is still to come from an ordering twice: the prioritised moves
/// are distinct, and none is held by the generator as well
pub open spec fn distinct_to_come(o: OrderedMoves) -> bool {
    &&& o.prio().no_duplicates()
    &&& forall|x: Move| #[trigger] o.prio().contains(x) ==> !o.generated().contains(x)
}

/// handing out a move keeps the moves to come distinct, and that move is no
/// longer to come
proof fn lemma_next_keeps_distinct(prev: OrderedMoves, next: OrderedMoves, m: Move)
    requires
        distinct_to_come(prev),
        prev.prio().len() > 0 ==> m == prev.prio().last() && next.prio() == prev.prio().drop_last()
            && next.generated() == prev.generated(),
        prev.prio().len() == 0 ==> next.prio().len() == 0 && prev.generated().contains(m) && next.generated()
            == prev.generated().remove(m),
    ensures
        distinct_to_come(next),
        !to_come(next, m),
        to_come(prev, m),
{
    if prev.prio().len() > 0 {
        let p = prev.prio();
        assert(p.contains(p.last()));
        assert forall|x: Move| #[trigger] next.prio().contains(x) implies !next.generated().contains(x) by {
            let i = choose|i: int| 0 <= i < next.prio().len() && next.prio()[i] == x;
            assert(p[i] == x);
            assert(p.contains(x));
        }
        assert(!next.prio().contains(m)) by {
            if next.prio().contains(m) {
                let i = choose|i: int| 0 <= i < next.prio().len() && next.prio()[i] == m;
                assert(p[i] == p[p.len() - 1]);
            }
        }
        assert(next.prio().no_duplicates()) by {
            assert forall|i: int, j: int| 0 <= i < j < next.prio().len() implies next.prio()[i] != next.prio()[j] by {
                assert(p[i] == next.prio()[i] && p[j] == next.prio()[j]);
            }
        }
    } else {
        assert(!next.prio().contains(m));
    }
}

/// does a prioritised move share its squares with `x`? the generator drops
/// such moves, all promotions of one pawn move together
pub open spec fn removed_by(prio: Seq<Move>, x: Move) -> bool {
    exists|i: int| 0 <= i < prio.len() && (#[trigger] prio[i]).source == x.source && prio[i].dest == x.dest
}

/// the masks an ordering goes through once the captures are out: queens,
/// rooks, bishops, knights and pawns, the four and the sixteen center squares,
/// and everything
pub open spec fn ordering_masks(b: crate::board::BoardView) -> Seq<u64> {
    seq![
        b.piece_bb(Piece::Queen),
        b.piece_bb(Piece::Rook),
        b.piece_bb(Piece::Bishop),
        b.piece_bb(Piece::Knight),
        b.piece_bb(Piece::Pawn),
        CENTER_4,
        CENTER_16,
        u64::MAX,
    ]
}

/// an ordering built from a generator loses no move and holds none twice:
/// the captures it sorted and the moves left in the generator are moves of
/// the generator, no move is in both, and every move but those sharing their
/// squares with a prioritised move is in one of them
pub proof fn lemma_prio_ordering_keeps_every_move(
    moves: Set<Move>,
    prio: Seq<Move>,
    opp: u64,
    caps: Seq<Move>,
    generated: Set<Move>,
)
    requires
        caps.to_set() == moves.filter(|x: Move| in_mask(opp, x) && !removed_by(prio, x)),
        generated.subset_of(moves.filter(|x: Move| !in_mask(opp, x))),
        forall|x: Move| #[trigger] moves.contains(x) && !in_mask(opp, x) && !removed_by(prio, x) ==> generated.contains(x),
    ensures
        caps.to_set().union(generated).subset_of(moves),
        forall|x: Move| #[trigger] moves.contains(x) && !removed_by(prio, x) ==> caps.to_set().union(generated).contains(x),
        caps.to_set().disjoint(generated),
{
    assert forall|x: Move| #[trigger] moves.contains(x) && !removed_by(prio, x) implies caps.to_set().union(generated).contains(x) by {
        if in_mask(opp, x) {
            assert(caps.to_set().contains(x));
        }
    }
}

/// the moves of a list that share no squares with a prioritised move
fn without_prio(moves: Vec<Move>, prio: &[Move]) -> (r: Vec<Move>)
    requires
        moves@.no_duplicates(),
    ensures
        r@.no_duplicates(),
        r@.to_set() == moves@.to_set().filter(|x: Move| !removed_by(prio@, x)),
{
    let mut r: Vec<Move> = Vec::new();
    let mut i: usize = 0;
    while i < moves.len()
        invariant
            i <= moves@.len(),
            moves@.no_duplicates(),
            r@.no_duplicates(),
            forall|x: Move| #[trigger] r@.contains(x) <==> (moves@.take(i as int).contains(x) && !removed_by(prio@, x)),
        decreases moves@.len() - i,
    {
        let m = moves[i];
        let mut shared = false;
        let mut k: usize = 0;
        while k < prio.len()
            invariant
                k <= prio@.len(),
                shared <==> exists|j: int| 0 <= j < k && (#[trigger] prio@[j]).source == m.source && prio@[j].dest == m.dest,
            decreases prio@.len() - k,
        {
            if prio[k].source == m.source && prio[k].dest == m.dest {
                shared = true;
            }
            k = k + 1;
        }
        assert(shared == removed_by(prio@, m));
        proof {
            let t0 = moves@.take(i as int);
            let t1 = moves@.take(i as int + 1);
            assert(t1 == t0.push(m));
            assert forall|x: Move| t1.contains(x) <==> (t0.contains(x) || x == m) by {
                if t1.contains(x) {
                    let j = choose|j: int| 0 <= j < t1.len() && t1[j] == x;
                    if j < t0.len() {
                        assert(t0[j] == x);
                    }
                }
                if t0.contains(x) {
                    let j = choose|j: int| 0 <= j < t0.len() && t0[j] == x;
                    assert(t1[j] == x);
                }
                if x == m {
                    assert(t1[t0.len() as int] == x);
                }
            }
            assert(!t0.contains(m)) by {
                if t0.contains(m) {
                    let j = choose|j: int| 0 <= j < t0.len() && t0[j] == m;
                    assert(moves@[j] == moves@[i as int]);
                }
            }
        }
        if !shared {
            let ghost before = r@;
            r.push(m);
            proof {
                assert forall|a: int, b: int| 0 <= a < b < r@.len() implies r@[a] != r@[b] by {
                    if b == r@.len() - 1 {
                        assert(before.contains(r@[a])) by {
                            assert(before[a] == r@[a]);
                        }
                    } else {
                        assert(before[a] == r@[a] && before[b] == r@[b]);
                    }
                }
                assert forall|x: Move| #[trigger] r@.contains(x) <==> (before.contains(x) || x == m) by {
                    if r@.contains(x) {
                        let j = choose|j: int| 0 <= j < r@.len() && r@[j] == x;
                        if j < before.len() {
                            assert(before[j] == x);
                        }
                    }
                    if before.contains(x) {
                        let j = choose|j: int| 0 <= j < before.len() && before[j] == x;
                        assert(r@[j] == x);
                    }
                    if x == m {
                        assert(r@[before.len() as int] == x);
                    }
                }
            }
        }
        i = i + 1;
    }
    assert(moves@.take(moves@.len() as int) =~= moves@);
    assert(r@.to_set() =~= moves@.to_set().filter(|x: Move| !removed_by(prio@, x)));
    r
}

/// the captures a generator holds besides the moves that share their squares
/// with a prioritised move: those an ordering sorts by MVV-LVA
pub open spec fn captures_kept(moves: Set<Move>, prio: Seq<Move>, opp: u64) -> Set<Move> {
    moves.filter(|x: Move| in_mask(opp, x) && !removed_by(prio, x))
}

/// constructor for [`OrderedMoves`]: the prioritised moves come first (the
/// last of `prio` first), then the captures from the best MVV-LVA score down,
/// then the rest mask after mask. The generator's moves start on pieces of
/// the side to move, so that MVV-LVA can score every capture.
///
/// prio_moves will have elements removed from the end, so order them from
/// least important to most important
pub fn prio_iterator(mgen: chess::MoveGen, pos: &BoardState, prio: &[Move]) -> (r: OrderedMoves)
    requires
        movegen_moves(mgen).finite(),
        !movegen_promoting(mgen),
        forall|m: Move| #[trigger] movegen_moves(mgen).contains(m) ==> m.on_board(),
        forall|i: int| 0 <= i < prio@.len() ==> (#[trigger] prio@[i]).on_board(),
        forall|m: Move| #[trigger] movegen_moves(mgen).contains(m) ==> has_square(
            pos@.color_bb(pos@.side_to_move),
            m.source as int,
        ),
    ensures
        r.wf(),
        r.generated().finite(),
        r.mask_order() == ordering_masks(pos@),
        r.current() == 0,
        movegen_unsplit(mgen) ==> r.generated() == movegen_moves(mgen).filter(
            |x: Move| !in_mask(pos@.color_bb(pos@.side_to_move.spec_other()), x) && !removed_by(prio@, x),
        ),
        ({
            let opp = pos@.color_bb(pos@.side_to_move.spec_other());
            let caps = r.prio().subrange(0, r.prio().len() - prio@.len());
            &&& r.prio().len() >= prio@.len()
            &&& r.prio().subrange(r.prio().len() - prio@.len(), r.prio().len() as int) == prio@
            &&& caps.no_duplicates()
            &&& caps.to_set() == captures_kept(movegen_moves(mgen), prio@, opp)
            &&& sorted_by_mvv_lva(pos@, caps)
            &&& r.generated().subset_of(movegen_moves(mgen).filter(|x: Move| !in_mask(opp, x)))
            &&& forall|x: Move| #[trigger] movegen_moves(mgen).contains(x) && !in_mask(opp, x) && !removed_by(prio@, x)
                ==> r.generated().contains(x)
        }),
{
    let ghost orig = movegen_moves(mgen);
    let ghost unsplit = movegen_unsplit(mgen);
    let mut mgen = mgen;
    let mut k: usize = 0;
    while k < prio.len()
        invariant
            k <= prio@.len(),
            movegen_unsplit(mgen) == unsplit,
            unsplit ==> movegen_moves(mgen) == orig.filter(|x: Move| !removed_by(prio@.subrange(0, k as int), x)),
            forall|i: int| 0 <= i < prio@.len() ==> (#[trigger] prio@[i]).on_board(),
            !movegen_promoting(mgen),
            movegen_moves(mgen).subset_of(orig),
            forall|x: Move| #[trigger] orig.contains(x) && !removed_by(prio@.subrange(0, k as int), x) ==> movegen_moves(mgen).contains(x),
            orig.finite(),
        decreases prio@.len() - k,
    {
        movegen_remove(&mut mgen, prio[k]);
        proof {
            let p = prio@[k as int];
            let pre = prio@.subrange(0, k as int);
            let post = prio@.subrange(0, k + 1);
            assert forall|x: Move| #[trigger] orig.contains(x) && !removed_by(post, x) implies movegen_moves(mgen).contains(x) by {
                if removed_by(pre, x) {
                    let i = choose|i: int| 0 <= i < pre.len() && (#[trigger] pre[i]).source == x.source && pre[i].dest == x.dest;
                    assert(post[i] == pre[i]);
                }
                assert(!(x.source == p.source && x.dest == p.dest)) by {
                    assert(post[k as int] == p);
                }
            }
            if unsplit {
                assert(movegen_moves(mgen) =~= orig.filter(|x: Move| !removed_by(post, x))) by {
                    assert forall|x: Move| #[trigger] orig.contains(x) && removed_by(post, x) && !removed_by(pre, x)
                        implies x.source == p.source && x.dest == p.dest by {
                        let i = choose|i: int| 0 <= i < post.len() && (#[trigger] post[i]).source == x.source && post[i].dest == x.dest;
                        if i < k {
                            assert(pre[i] == post[i]);
                        }
                    }
                    assert forall|x: Move| #[trigger] orig.contains(x) && removed_by(pre, x) implies removed_by(post, x) by {
                        let i = choose|i: int| 0 <= i < pre.len() && (#[trigger] pre[i]).source == x.source && pre[i].dest == x.dest;
                        assert(post[i] == pre[i]);
                    }
                    assert forall|x: Move| #[trigger] orig.contains(x) && x.source == p.source && x.dest == p.dest implies removed_by(post, x) by {
                        assert(post[k as int] == p);
                    }
                }
            }
        }
        k = k + 1;
    }
    assert(prio@.subrange(0, prio@.len() as int) == prio@);
    let ghost kept = movegen_moves(mgen);
    proof {
        vstd::set_lib::lemma_set_subset_finite(orig, kept);
    }
    let masks = [
        pos.pieces(Piece::Queen),
        pos.pieces(Piece::Rook),
        pos.pieces(Piece::Bishop),
        pos.pieces(Piece::Knight),
        pos.pieces(Piece::Pawn),
        CENTER_4,
        CENTER_16,
        u64::MAX,
    ];
    // collect capture moves and sort by mvv-lva; a generator may keep a move
    // it was asked to drop, which the prioritised moves stand for
    let opp = pos.color_combined(pos.side_to_move().other());
    let mut drained: Vec<Move> = Vec::new();
    drain_mask(&mut mgen, opp, &mut drained);
    assert(drained@.subrange(0, drained@.len() as int) == drained@);
    let mut prio_moves = without_prio(drained, prio);
    let ghost unsorted = prio_moves@;
    proof {
        let c = captures_kept(orig, prio@, opp);
        assert(unsorted.to_set() =~= c) by {
            assert forall|x: Move| unsorted.to_set().contains(x) <==> c.contains(x) by {
                if c.contains(x) {
                    assert(kept.contains(x));
                    assert(landing_on(kept, opp).contains(x));
                }
            }
        }
        unsorted.unique_seq_to_set();
        assert forall|i: int| 0 <= i < unsorted.len() implies scorable(pos@, #[trigger] unsorted[i]) by {
            let m = unsorted[i];
            assert(unsorted.to_set().contains(m));
            assert(orig.contains(m));
            crate::pieces::lemma_union_has_square(pos@.colors[0], pos@.colors[1], m.source as int);
            crate::pieces::lemma_union_has_square(pos@.colors[0], pos@.colors[1], m.dest as int);
        }
    }
    sort_by_mvv_lva(pos, &mut prio_moves);
    let ghost caps = prio_moves@;
    proof {
        unsorted.lemma_multiset_has_no_duplicates();
        assert forall|x: Move| caps.to_multiset().contains(x) implies caps.to_multiset().count(x) == 1 by {
        }
        caps.lemma_multiset_has_no_duplicates_conv();
        caps.to_multiset_ensures();
        unsorted.to_multiset_ensures();
        assert forall|x: Move| caps.to_set().contains(x) <==> unsorted.to_set().contains(x) by {
            assert(caps.to_set().contains(x) == caps.contains(x));
            assert(unsorted.to_set().contains(x) == unsorted.contains(x));
            assert(caps.contains(x) <==> caps.to_multiset().count(x) > 0);
            assert(unsorted.contains(x) <==> unsorted.to_multiset().count(x) > 0);
            assert(caps.to_multiset() == unsorted.to_multiset());
        }
        assert(caps.to_set() == unsorted.to_set());
    }
    prio_moves.extend_from_slice(prio);
    proof {
        assert(prio_moves@.subrange(0, caps.len() as int) == caps);
        assert(prio_moves@.subrange(caps.len() as int, prio_moves@.len() as int) == prio@);
    }
    movegen_set_mask(&mut mgen, masks[0]);
    let r = OrderedMoves { prio_moves, mgen, masks, cur_mask: 0 };
    proof {
        if unsplit {
            assert(movegen_moves(r.mgen) =~= orig.filter(
                |x: Move| !in_mask(opp, x) && !removed_by(prio@, x),
            ));
        }
        assert(masks@ == ordering_masks(pos@));
        assert forall|m: Move| #[trigger] movegen_moves(r.mgen).contains(m) implies m.on_board() by {
            assert(orig.contains(m));
        }
        assert forall|x: Move| #[trigger] orig.contains(x) && !in_mask(opp, x) && !removed_by(prio@, x)
            implies movegen_moves(r.mgen).contains(x) by {
            assert(kept.contains(x));
        }
    }
    r
}

impl OrderedMoves {
    /// number of moves contained by this iterator
    pub fn len(&mut self) -> (r: usize)
        requires
            old(self).wf(),
            !old(self).in_promotion(),
            old(self).prio().len() + old(self).generated().len() <= usize::MAX,
        ensures
            final(self).wf(),
            r == old(self).prio().len() + old(self).generated().len(),
            final(self).prio() == old(self).prio(),
            final(self).generated() == old(self).generated(),
            final(self).mask_order() == old(self).mask_order(),
            final(self).current() == old(self).current(),
    {
        movegen_set_mask(&mut self.mgen, u64::MAX);
        let mgen_len = crate::board::movegen_len(&self.mgen);
        proof {
            let all = movegen_moves(self.mgen);
            assert(all.filter(|x: Move| in_mask(u64::MAX, x)) == all) by {
                assert forall|x: Move| all.contains(x) implies in_mask(u64::MAX, x) by {
                    crate::pieces::lemma_full_bitboard(x.dest as int);
                }
            }
        }
        movegen_set_mask(&mut self.mgen, self.masks[self.cur_mask]);
        self.prio_moves.len() + mgen_len
    }

    /// is the iterator finished?
    pub fn is_empty(&mut self) -> (r: bool)
        requires
            old(self).wf(),
            !old(self).in_promotion(),
            old(self).prio().len() + old(self).generated().len() <= usize::MAX,
        ensures
            final(self).wf(),
            r == (old(self).prio().len() == 0 && old(self).generated().len() == 0),
            final(self).prio() == old(self).prio(),
            final(self).generated() == old(self).generated(),
            final(self).mask_order() == old(self).mask_order(),
            final(self).current() == old(self).current(),
    {
        self.len() == 0
    }

    /// get the first move from the iterator, leaving it to come next
    pub fn first(&mut self) -> (r: Option<Move>)
        requires
            old(self).wf(),
        ensures
            final(self).wf(),
            final(self).mask_order() == old(self).mask_order(),
            old(self).prio().len() > 0 ==> r == Some(old(self).prio().last()),
            r matches Some(m) ==> final(self).prio().last() == m,
            r is None ==> old(self).prio().len() == 0 && old(self).generated().len() == 0,
    {
        if let Some(m) = self.next_move() {
            self.prio_moves.push(m);
            Some(m)
        } else {
            None
        }
    }
}

} // verus!
