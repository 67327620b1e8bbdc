//! chess is a timed game, here we deal with that: how long a search may run,
//! worked out from the clocks. Durations are counted in nanoseconds, and the
//! moment the search must stop as an offset from now.
use vstd::prelude::*;
use crate::pieces::Color;

verus! {

/// the longest duration there is: `u64::MAX` seconds and just under one more
pub const MAX_DURATION_NANOS: u128 = 18_446_744_073_709_551_615_999_999_999;

/// The duration before the search should end to allow for submitting the
/// move: 5 ms.
pub const SUBMIT_NANOS: u128 = 5_000_000;

/// If the time-remaining difference between the players is greater than this,
/// maybe we should change our time management a bit: 15 s.
pub const CONCERN_THRESHOLD_NANOS: u128 = 15_000_000_000;

/// the moves still to play before the next time control, as the search
/// estimates them: 50 where the GUI gives none, and at least one
pub open spec fn moves_left(moves_to_go: Option<u8>) -> int {
    match moves_to_go {
        Some(m) => if m >= 1 {
            m as int
        } else {
            1
        },
        None => 50,
    }
}

/// the clocks of the side to move and of its opponent: (our time, our
/// increment, their time, their increment)
pub open spec fn sides(
    side: Color,
    white_time: Option<u128>,
    black_time: Option<u128>,
    white_increment: Option<u128>,
    black_increment: Option<u128>,
) -> (Option<u128>, Option<u128>, Option<u128>, Option<u128>) {
    match side {
        Color::White => (white_time, white_increment, black_time, black_increment),
        Color::Black => (black_time, black_increment, white_time, white_increment),
    }
}

/// the whole increment, where there is one
pub open spec fn increment_part(our_inc: Option<u128>) -> int {
    match our_inc {
        Some(i) => i as int,
        None => 0,
    }
}

/// an even share of the clock over the moves left, where there is a clock
pub open spec fn clock_part(ours: Option<u128>, est: int) -> int {
    match ours {
        Some(t) => t as int / est,
        None => 0,
    }
}

/// a share of the difference in increments: more time where ours is larger,
/// less where theirs is
pub open spec fn increment_difference_part(our_inc: Option<u128>, their_inc: Option<u128>, est: int) -> int {
    match (our_inc, their_inc) {
        (Some(i1), Some(i2)) => if i1 > i2 {
            (i1 - i2) / est
        } else if i1 < i2 {
            -((i2 - i1) / est)
        } else {
            0
        },
        _ => 0,
    }
}

/// a share of a clear difference in clocks: hurry where the opponent has
/// more than half the concern threshold more, take longer where we have more
/// than the threshold more, and the submit margin off where they are equal
pub open spec fn clock_difference_part(ours: Option<u128>, theirs: Option<u128>, est: int) -> int {
    let quarter = if est / 4 >= 1 { est / 4 } else { 1 };
    match (ours, theirs) {
        (Some(t1), Some(t2)) => if t1 < t2 {
            if t2 - t1 > CONCERN_THRESHOLD_NANOS / 2 {
                -((t2 - t1) / est)
            } else {
                0
            }
        } else if t1 == t2 {
            -(SUBMIT_NANOS as int)
        } else if t1 - t2 > CONCERN_THRESHOLD_NANOS {
            (t1 - t2) / quarter
        } else {
            0
        },
        _ => 0,
    }
}

/// when the search must stop, in nanoseconds from now: the submit margin
/// off, the whole increment and an even share of the clock on, a share of
/// the difference in increments on or off, a share of a clear difference in
/// clocks on or off, and never later than our clock allows
pub open spec fn deadline(
    side: Color,
    white_time: Option<u128>,
    black_time: Option<u128>,
    white_increment: Option<u128>,
    black_increment: Option<u128>,
    moves_to_go: Option<u8>,
) -> int {
    let (ours, our_inc, theirs, their_inc) = sides(side, white_time, black_time, white_increment, black_increment);
    let est = moves_left(moves_to_go);
    let planned = -(SUBMIT_NANOS as int) + increment_part(our_inc) + clock_part(ours, est)
        + increment_difference_part(our_inc, their_inc, est) + clock_difference_part(ours, theirs, est);
    match ours {
        Some(t) => if planned < t {
            planned
        } else {
            t as int
        },
        None => planned,
    }
}

/// an even share of a duration over `parts`, rounded down
fn share(x: u128, parts: u128) -> (r: i128)
    requires
        parts >= 1,
        x <= MAX_DURATION_NANOS,
    ensures
        r == x as int / parts as int,
        0 <= r <= x,
{
    assert(x / parts <= x) by (nonlinear_arith)
        requires
            parts >= 1,
    ;
    (x / parts) as i128
}

/// the share of the difference in increments
fn increment_difference(our_inc: Option<u128>, their_inc: Option<u128>, est: u128) -> (r: i128)
    requires
        est >= 1,
        our_inc matches Some(t) ==> t <= MAX_DURATION_NANOS,
        their_inc matches Some(t) ==> t <= MAX_DURATION_NANOS,
    ensures
        r == increment_difference_part(our_inc, their_inc, est as int),
        -(MAX_DURATION_NANOS as int) <= r <= MAX_DURATION_NANOS,
{
    match (our_inc, their_inc) {
        (Some(i1), Some(i2)) => if i1 > i2 {
            share(i1 - i2, est)
        } else if i1 < i2 {
            -share(i2 - i1, est)
        } else {
            0
        },
        _ => 0,
    }
}

/// the share of a clear difference in clocks
fn clock_difference(ours: Option<u128>, theirs: Option<u128>, est: u128) -> (r: i128)
    requires
        est >= 1,
        ours matches Some(t) ==> t <= MAX_DURATION_NANOS,
        theirs matches Some(t) ==> t <= MAX_DURATION_NANOS,
    ensures
        r == clock_difference_part(ours, theirs, est as int),
        -(MAX_DURATION_NANOS as int) <= r <= MAX_DURATION_NANOS,
{
    let quarter: u128 = if est / 4 >= 1 {
        est / 4
    } else {
        1
    };
    match (ours, theirs) {
        (Some(t1), Some(t2)) => if t1 < t2 {
            if t2 - t1 > CONCERN_THRESHOLD_NANOS / 2 {
                -share(t2 - t1, est)
            } else {
                0
            }
        } else if t1 == t2 {
            -(SUBMIT_NANOS as i128)
        } else if t1 - t2 > CONCERN_THRESHOLD_NANOS {
            share(t1 - t2, quarter)
        } else {
            0
        },
        _ => 0,
    }
}

/// Work out when the search should stop, in nanoseconds from now, from the
/// remaining time and increment of both players and the moves until the next
/// time control.
pub fn search_deadline(
    side: Color,
    white_time: Option<u128>,
    black_time: Option<u128>,
    white_increment: Option<u128>,
    black_increment: Option<u128>,
    moves_to_go: Option<u8>,
) -> (r: i128)
    requires
        white_time matches Some(t) ==> t <= MAX_DURATION_NANOS,
        black_time matches Some(t) ==> t <= MAX_DURATION_NANOS,
        white_increment matches Some(t) ==> t <= MAX_DURATION_NANOS,
        black_increment matches Some(t) ==> t <= MAX_DURATION_NANOS,
    ensures
        r == deadline(side, white_time, black_time, white_increment, black_increment, moves_to_go),
{
    let (ours, our_inc, theirs, their_inc) = match side {
        Color::White => (white_time, white_increment, black_time, black_increment),
        Color::Black => (black_time, black_increment, white_time, white_increment),
    };
    let est: u128 = match moves_to_go {
        Some(m) => if m >= 1 {
            m as u128
        } else {
            1
        },
        None => 50,
    };
    let inc: i128 = match our_inc {
        Some(i) => i as i128,
        None => 0,
    };
    let clock: i128 = match ours {
        Some(t) => share(t, est),
        None => 0,
    };
    let planned = -(SUBMIT_NANOS as i128) + inc + clock + increment_difference(our_inc, their_inc, est)
        + clock_difference(ours, theirs, est);
    match ours {
        Some(t) => if planned < t as i128 {
            planned
        } else {
            t as i128
        },
        None => planned,
    }
}

/// the search never plans to stop later than the side to move's clock
/// allows, whatever the increments and the opponent's clock
pub proof fn lemma_deadline_within_clock(
    side: Color,
    white_time: Option<u128>,
    black_time: Option<u128>,
    white_increment: Option<u128>,
    black_increment: Option<u128>,
    moves_to_go: Option<u8>,
)
    ensures
        sides(side, white_time, black_time, white_increment, black_increment).0 matches Some(t) ==> deadline(
            side,
            white_time,
            black_time,
            white_increment,
            black_increment,
            moves_to_go,
        ) <= t,
{
}

/// a larger share of a larger difference: `x / est` never falls as `x` grows
proof fn lemma_share_monotone(x: int, y: int, est: int)
    requires
        0 <= x <= y,
        est >= 1,
    ensures
        x / est <= y / est,
{
    vstd::arithmetic::div_mod::lemma_div_is_ordered(x, y, est);
}

/// the share of the difference in increments never grows with the
/// opponent's increment, and never falls with ours
proof fn lemma_increment_difference_monotone(i1: u128, j1: u128, i2: u128, j2: u128, est: int)
    requires
        i1 <= j1,
        j2 <= i2,
        est >= 1,
    ensures
        increment_difference_part(Some(i1), Some(i2), est) <= increment_difference_part(Some(j1), Some(j2), est),
{
    if i1 > i2 {
        lemma_share_monotone(i1 - i2, j1 - j2, est);
    } else if i1 < i2 {
        if j1 < j2 {
            lemma_share_monotone(j2 - j1, i2 - i1, est);
        } else {
            assert(0 <= (i2 - i1) / est) by (nonlinear_arith)
                requires
                    i2 - i1 >= 0,
                    est >= 1,
            ;
            assert(0 <= (j1 - j2) / est) by (nonlinear_arith)
                requires
                    j1 - j2 >= 0,
                    est >= 1,
            ;
        }
    } else {
        assert(0 <= (j1 - j2) / est) by (nonlinear_arith)
            requires
                j1 - j2 >= 0,
                est >= 1,
        ;
    }
}

/// the deadline follows the increments the right way round: with the clocks
/// and the other increment as they are, a larger increment for the
/// opponent never gives the side to move a later deadline, and a larger one
/// for the side to move never an earlier one
pub proof fn lemma_deadline_follows_increments(
    white_time: Option<u128>,
    black_time: Option<u128>,
    our_inc: u128,
    their_inc: u128,
    more: u128,
    moves_to_go: Option<u8>,
)
    requires
        their_inc <= more,
        our_inc <= more,
    ensures
        deadline(Color::White, white_time, black_time, Some(our_inc), Some(more), moves_to_go) <= deadline(
            Color::White,
            white_time,
            black_time,
            Some(our_inc),
            Some(their_inc),
            moves_to_go,
        ),
        deadline(Color::Black, white_time, black_time, Some(more), Some(our_inc), moves_to_go) <= deadline(
            Color::Black,
            white_time,
            black_time,
            Some(their_inc),
            Some(our_inc),
            moves_to_go,
        ),
        deadline(Color::White, white_time, black_time, Some(our_inc), Some(their_inc), moves_to_go) <= deadline(
            Color::White,
            white_time,
            black_time,
            Some(more),
            Some(their_inc),
            moves_to_go,
        ),
        deadline(Color::Black, white_time, black_time, Some(their_inc), Some(our_inc), moves_to_go) <= deadline(
            Color::Black,
            white_time,
            black_time,
            Some(their_inc),
            Some(more),
            moves_to_go,
        ),
{
    let est = moves_left(moves_to_go);
    lemma_increment_difference_monotone(our_inc, our_inc, more, their_inc, est);
    lemma_increment_difference_monotone(our_inc, more, their_inc, their_inc, est);
}

} // verus!
