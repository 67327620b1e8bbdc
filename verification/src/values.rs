//! centipawn scores and search depths
use vstd::prelude::*;
use vstd::std_specs::ops::NegSpec;

verus! {

/// upper limit for how deeply the engine will search in plies.
pub const MAX_PLY: u16 = 128;

/// maximum depth at which the engine can claim a forced checkmate sequence.
pub const MAX_MATE_PLY: u16 = 128;

/// A *centipawn* value in the evaluation function, used to score positions.
#[derive(Debug, Clone, Copy, PartialEq, Eq, Structural, PartialOrd, Ord)]
pub struct Value(pub i16);

/// A depth in *plies*.
#[derive(Debug, Default, Clone, Copy, PartialEq, Eq, Structural, PartialOrd, Ord)]
pub struct Depth(pub u16);

/// one ply of search depth
pub open spec fn spec_one_ply() -> Depth {
    Depth(1)
}

/// one ply of search depth
#[verifier::when_used_as_spec(spec_one_ply)]
pub fn one_ply() -> (r: Depth)
    ensures
        r == spec_one_ply(),
{
    Depth(1)
}

/// one full move (two plies)
pub fn one_move() -> (r: Depth)
    ensures
        r.0 == 2,
{
    Depth(2)
}

/// the checkmate score, in centipawns
pub const MATE_SCORE: i16 = 32_000;

/// the lowest legal score, in centipawns
pub const MIN_SCORE: i16 = -32_600;

/// the highest legal score, in centipawns
pub const MAX_SCORE: i16 = 32_600;

/// checkmate within the search horizon: `MATE_SCORE - MAX_MATE_PLY - MAX_PLY`
pub const MATE_IN_MAX_PLY_SCORE: i16 = 31_744;

impl Value {
    /// minimum legal value
    pub open spec fn spec_min_legal() -> Value {
        Value(MIN_SCORE)
    }

    /// minimum legal value
    #[verifier::when_used_as_spec(spec_min_legal)]
    pub fn min_legal() -> (r: Value)
        ensures
            r == Self::spec_min_legal(),
    {
        Value(MIN_SCORE)
    }

    /// maximum legal value
    pub open spec fn spec_max_legal() -> Value {
        Value(MAX_SCORE)
    }

    /// maximum legal value
    #[verifier::when_used_as_spec(spec_max_legal)]
    pub fn max_legal() -> (r: Value)
        ensures
            r == Self::spec_max_legal(),
    {
        Value(MAX_SCORE)
    }

    /// positions without advantage for either side.
    pub fn zero() -> (r: Value)
        ensures
            r.0 == 0,
    {
        Value(0)
    }

    /// the smallest positive value
    pub fn one() -> (r: Value)
        ensures
            r.0 == 1,
    {
        Value(1)
    }

    /// represents a draw score, equal to [`Value::zero`].
    pub open spec fn spec_draw() -> Value {
        Value(0)
    }

    /// represents a draw score, equal to [`Value::zero`].
    #[verifier::when_used_as_spec(spec_draw)]
    pub fn draw() -> (r: Value)
        ensures
            r == Self::spec_draw(),
    {
        Value(0)
    }

    /// represents a known winning score for the side to move.
    pub fn known_win() -> (r: Value)
        ensures
            r.0 == 10_000,
    {
        Value(10_000)
    }

    /// checkmate, highest legal value in the evaluation function
    pub open spec fn spec_mate() -> Value {
        Value(MATE_SCORE)
    }

    /// checkmate, highest legal value in the evaluation function
    #[verifier::when_used_as_spec(spec_mate)]
    pub fn mate() -> (r: Value)
        ensures
            r == Self::spec_mate(),
    {
        Value(MATE_SCORE)
    }

    /// a value higher than [`Value::mate`], used to represent an infinite score.
    pub fn infinite() -> (r: Value)
        ensures
            r.0 == 32_001,
    {
        Value(32_001)
    }

    /// undefined, used to represent an invalid score.
    pub fn none() -> (r: Value)
        ensures
            r.0 == 32_002,
    {
        Value(32_002)
    }

    /// checkmate within the search horizon
    pub open spec fn spec_mate_in_max_ply() -> Value {
        Value(MATE_IN_MAX_PLY_SCORE)
    }

    /// checkmate within the search horizon
    #[verifier::when_used_as_spec(spec_mate_in_max_ply)]
    pub fn mate_in_max_ply() -> (r: Value)
        ensures
            r == Self::spec_mate_in_max_ply(),
    {
        Value(MATE_IN_MAX_PLY_SCORE)
    }

    /// being checkmated within the search horizon
    pub open spec fn spec_mated_in_max_ply() -> Value {
        Value(-31_744i16)
    }

    /// being checkmated within the search horizon
    #[verifier::when_used_as_spec(spec_mated_in_max_ply)]
    pub fn mated_in_max_ply() -> (r: Value)
        ensures
            r == Self::spec_mated_in_max_ply(),
    {
        Value(-MATE_IN_MAX_PLY_SCORE)
    }

/// Returns the absolute value of a [`Value`].
    pub fn abs(self) -> (r: Value)
        requires
            self.0 != i16::MIN,
        ensures
            r.0 == (if self.0 < 0 { -self.0 } else { self.0 as int }),
    {
        if self.0 < 0 {
            Value(-self.0)
        } else {
            self
        }
    }
}

/// the two horizon constants are the mate score moved in by both ply limits
pub proof fn lemma_mate_horizon()
    ensures
        Value::spec_mate_in_max_ply().0 == Value::spec_mate().0 - MAX_MATE_PLY - MAX_PLY,
        Value::spec_mated_in_max_ply().0 == -Value::spec_mate().0 + MAX_MATE_PLY + MAX_PLY,
{
}

impl Depth {
    /// the deepest iterative deepening target: half of [`MAX_PLY`]
    pub fn max_depth() -> (r: Depth)
        ensures
            r.0 == MAX_PLY / 2,
    {
        Depth(64)
    }

    /// no depth at all
    pub fn zero() -> (r: Depth)
        ensures
            r.0 == 0,
    {
        Depth(0)
    }
}

/// the score of checkmating the opponent `ply` plies from now
pub fn mate_in(ply: i16) -> (r: Value)
    requires
        ply >= MATE_SCORE - i16::MAX,
    ensures
        r.0 == MATE_SCORE - ply,
{
    Value(MATE_SCORE - ply)
}

/// the score of being checkmated `ply` plies from now
pub fn mated_in(ply: i16) -> (r: Value)
    requires
        ply >= i16::MIN + MATE_SCORE,
    ensures
        r.0 == -MATE_SCORE + ply,
{
    Value(-MATE_SCORE + ply)
}

/// how a score reads to a user: a mate in so many moves (negative where the
/// side to move is the one mated), a centipawn count, or an endless bound
#[derive(Debug, Clone, Copy, PartialEq, Eq, Structural)]
pub enum Score {
    /// a forced mate in this many moves, from the side to move's view
    Mate(i16),
    /// centipawns
    Centipawns(i16),
    /// the lowest score there is
    MinusInfinity,
    /// the highest score there is
    Infinity,
}

/// how a score reads: a mate where it is within the search horizon, in
/// moves rounded up, at least one; otherwise centipawns, or a bound where it
/// is the lowest or highest legal score (integer division rounds toward
/// zero, as Rust's does)
pub open spec fn score_of(v: Value) -> Score {
    if v.0 >= MATE_IN_MAX_PLY_SCORE {
        let moves = crate::ops::div_toward_zero(MATE_SCORE - v.0 + 1, 2);
        Score::Mate(if moves >= 1 { moves as i16 } else { 1i16 })
    } else if v.0 <= -MATE_IN_MAX_PLY_SCORE {
        let moves = crate::ops::div_toward_zero(-1 - v.0 - MATE_SCORE, 2);
        Score::Mate(if moves <= -1 { moves as i16 } else { -1i16 })
    } else if v.0 == MIN_SCORE {
        Score::MinusInfinity
    } else if v.0 == MAX_SCORE {
        Score::Infinity
    } else {
        Score::Centipawns(v.0)
    }
}

impl Value {
    /// how this score reads to a user, as the interface shows it
    pub fn score(&self) -> (r: Score)
        ensures
            r == score_of(*self),
    {
        if self.0 >= MATE_IN_MAX_PLY_SCORE {
            let moves = (MATE_SCORE - self.0 + 1) / 2;
            Score::Mate(if moves >= 1 { moves } else { 1 })
        } else if self.0 <= -MATE_IN_MAX_PLY_SCORE {
            let moves = (-1 - self.0 - MATE_SCORE) / 2;
            Score::Mate(if moves <= -1 { moves } else { -1 })
        } else if self.0 == MIN_SCORE {
            Score::MinusInfinity
        } else if self.0 == MAX_SCORE {
            Score::Infinity
        } else {
            Score::Centipawns(self.0)
        }
    }
}

/// a mate score reads as the number of moves of the side that mates needed
/// to deliver it: the fewest whole moves (of two plies each) that cover the
/// plies to the mate, and at least one. A mate three plies away reads as a
/// mate in two, one four plies away too. Being mated reads the same way,
/// negated.
pub proof fn lemma_mate_reads_in_moves(v: Value)
    ensures
        v.0 >= MATE_IN_MAX_PLY_SCORE ==> (score_of(v) matches Score::Mate(n) && n >= 1 && MATE_SCORE - v.0 <= 2 * n
            && (n == 1 || 2 * n - 1 <= MATE_SCORE - v.0)),
        v.0 <= -MATE_IN_MAX_PLY_SCORE ==> (score_of(v) matches Score::Mate(n) && n <= -1 && MATE_SCORE + v.0 <= -2 * n
            && (n == -1 || -2 * n - 1 <= MATE_SCORE + v.0)),
{
}

/// a score and its negation read as each other's mirror: a mate in n moves
/// for one side is being mated in n for the other, and centipawns change
/// sign; a score within the search horizon reads as itself in centipawns
pub proof fn lemma_score_mirrors(v: Value)
    requires
        v.0 != i16::MIN,
    ensures
        match score_of(v) {
            Score::Mate(n) => score_of(Value((-v.0) as i16)) == Score::Mate((-n) as i16),
            Score::Centipawns(c) => score_of(Value((-v.0) as i16)) == Score::Centipawns((-c) as i16),
            Score::Infinity => score_of(Value((-v.0) as i16)) == Score::MinusInfinity,
            Score::MinusInfinity => score_of(Value((-v.0) as i16)) == Score::Infinity,
        },
        -MATE_IN_MAX_PLY_SCORE < v.0 < MATE_IN_MAX_PLY_SCORE ==> score_of(v) == Score::Centipawns(v.0),
{
}

/// negating a score twice gives it back, for every score but `i16::MIN`,
/// which has no negation; negating the lowest legal score gives the highest
pub proof fn lemma_neg_involutive(v: Value)
    requires
        v.0 != i16::MIN,
    ensures
        NegSpec::neg_req(v),
        NegSpec::neg_req(NegSpec::neg_spec(v)),
        NegSpec::neg_spec(NegSpec::neg_spec(v)) == v,
        NegSpec::neg_spec(Value::spec_min_legal()) == Value::spec_max_legal(),
{
}

} // verus!
