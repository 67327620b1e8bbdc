//! history of good moves that caused cutoffs
use vstd::prelude::*;
use crate::pieces::Move;

verus! {

/// how many plies the killer move table remembers, cyclically
pub const KILLER_PLIES: usize = 512;

/// store moves that have historically been good, so we can use them again in
/// move ordering!
#[derive(Debug)]
pub struct MoveHistory {
    /// for each source and destination square, how much cutoffs by a move
    /// between them were worth
    pub history: [[usize; 64]; 64],
    /// for each ply (modulo [`KILLER_PLIES`]), the two most recent quiet moves
    /// that caused a cutoff, newest first
    pub killers: [[Option<Move>; 2]; 512],
}

impl MoveHistory {
    /// new empty history
    pub fn empty() -> (r: MoveHistory)
        ensures
            forall|i: int, j: int| 0 <= i < 64 && 0 <= j < 64 ==> #[trigger] r.history@[i]@[j] == 0,
            forall|i: int, j: int| 0 <= i < 512 && 0 <= j < 2 ==> #[trigger] r.killers@[i]@[j] is None,
    {
        let r = MoveHistory { history: [[0usize; 64]; 64], killers: [[None, None]; 512] };
        assert forall|i: int, j: int| 0 <= i < 512 && 0 <= j < 2 implies #[trigger] r.killers@[i]@[j] is None by {
            assert(r.killers@[i] == [None::<Move>, None]);
        }
        r
    }

    /// has this non-capture move caused a cutoff in the past?
    pub fn is_killer(&self, mv: &Move, ply: usize) -> (r: bool)
        ensures
            r == (self.killers@[(ply % 512) as int]@[0] == Some(*mv) || self.killers@[(ply % 512) as int]@[1] == Some(*mv)),
    {
        let entry = self.killers[ply % KILLER_PLIES];
        entry[0] == Some(*mv) || entry[1] == Some(*mv)
    }

    /// get the historical value of this move
    pub fn history_score(&self, mv: &Move) -> (r: usize)
        requires
            mv.on_board(),
        ensures
            r == self.history@[mv.source as int]@[mv.dest as int],
    {
        self.history[mv.source as usize][mv.dest as usize]
    }

    /// this was a killer move, save it!
    pub fn save_killer(&mut self, mv: &Move, ply: usize)
        ensures
            final(self).history == old(self).history,
            forall|i: int| 0 <= i < 512 && i != (ply % 512) as int ==> #[trigger] final(self).killers@[i] == old(self).killers@[i],
            old(self).killers@[(ply % 512) as int]@[0] == Some(*mv) ==> final(self).killers@[(ply % 512) as int] == old(self).killers@[(ply % 512) as int],
            old(self).killers@[(ply % 512) as int]@[0] != Some(*mv) ==> {
                &&& final(self).killers@[(ply % 512) as int]@[0] == Some(*mv)
                &&& final(self).killers@[(ply % 512) as int]@[1] == old(self).killers@[(ply % 512) as int]@[0]
            },
    {
        let idx = ply % KILLER_PLIES;
        let mut entry = self.killers[idx];
        if entry[0] != Some(*mv) {
            entry[1] = entry[0];
            entry[0] = Some(*mv);
            self.killers[idx] = entry;
        }
    }

    /// mark this move as a historical cutoff, worth the square of the ply
    pub fn log_history(&mut self, mv: &Move, ply: usize)
        requires
            mv.on_board(),
            old(self).history@[mv.source as int]@[mv.dest as int] + ply * ply <= usize::MAX,
        ensures
            final(self).killers == old(self).killers,
            forall|i: int, j: int| 0 <= i < 64 && 0 <= j < 64 && (i != mv.source || j != mv.dest)
                ==> #[trigger] final(self).history@[i]@[j] == old(self).history@[i]@[j],
            final(self).history@[mv.source as int]@[mv.dest as int] == old(self).history@[mv.source as int]@[mv.dest as int] + ply * ply,
    {
        let s = mv.source as usize;
        let d = mv.dest as usize;
        let mut row = self.history[s];
        assert(ply * ply <= usize::MAX) by (nonlinear_arith)
            requires
                row@[d as int] + ply * ply <= usize::MAX,
                row@[d as int] >= 0,
        ;
        row[d] = row[d] + ply * ply;
        self.history[s] = row;
    }
}

} // verus!
