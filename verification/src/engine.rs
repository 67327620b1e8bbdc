//! the engine's game state: the position it thinks on, the positions played
//! in the game so far, its options and its transposition table, which it
//! keeps from one search to the next
use vstd::prelude::*;
use crate::board::{legal_moves, after_move, board_hash, parse_fen};
use crate::opts::EngineOpts;
use crate::pieces::Move;
use crate::position::{Position, record_move, resets_clock, history_after};
use crate::shared::{TT, shared_resize, shared_clear};
use crate::table::table_entries;

verus! {

/// what can go wrong with the engine's state
#[derive(Debug, Clone, Copy, PartialEq, Eq, Structural)]
pub enum EngineError {
    /// the table's lock is poisoned: a thread panicked while it wrote to the
    /// table
    TablePoisoned,
}

/// this is why you're here, right?
#[derive(Debug)]
pub struct Engine {
    /// the board the engine will think on
    pub board: Position,
    /// the transposition table
    pub table: TT,
    /// hashes of the positions played since the last irreversible move,
    /// oldest first. used to detect repetition.
    pub history: Vec<u64>,
    /// this instance's options
    pub eng_opts: EngineOpts,
}

impl Engine {
    /// create a new engine, on the starting position, with nothing played
    /// and an empty table of the default size
    pub fn new(eng_opts: EngineOpts) -> (r: Engine)
        ensures
            parse_fen("rnbqkbnr/pppppppp/8/8/8/8/PPPPPPPP/RNBQKBNR w KQkq - 0 1"@) == Some(r.board.chessboard@),
            r.board.halfmove_clock == 0,
            r.history@.len() == 0,
            r.eng_opts == eng_opts,
    {
        Engine { board: Position::default(), table: TT::new(), history: Vec::new(), eng_opts }
    }

    /// register a new move that has been played in the game. positions from
    /// before an irreversible move can never occur again, so they are
    /// dropped.
    pub fn make_move(&mut self, mv: Move)
        requires
            legal_moves(old(self).board.chessboard@).contains(mv),
            mv.on_board(),
            old(self).board.halfmove_clock < usize::MAX,
        ensures
            final(self).board.chessboard@ == after_move(old(self).board.chessboard@, mv),
            final(self).board.halfmove_clock == (if resets_clock(old(self).board.chessboard@, mv) {
                0
            } else {
                old(self).board.halfmove_clock + 1
            }),
            final(self).history@ == history_after(
                old(self).history@,
                old(self).board.chessboard@,
                final(self).board.chessboard@,
                mv,
            ),
            final(self).table == old(self).table,
            final(self).eng_opts == old(self).eng_opts,
    {
        self.board = record_move(&self.board, &mut self.history, mv);
    }

    /// add a new position to the engine history.
    pub fn log_position(&mut self, pos: Position)
        ensures
            final(self).history@ == old(self).history@.push(board_hash(pos.chessboard@)),
            final(self).board == old(self).board,
            final(self).table == old(self).table,
            final(self).eng_opts == old(self).eng_opts,
    {
        self.history.push(pos.chessboard.get_hash());
    }

    /// forget the game history and start it again from the current board.
    /// used whenever a new position is set over UCI.
    pub fn reset_history(&mut self)
        ensures
            final(self).history@ == seq![board_hash(old(self).board.chessboard@)],
            final(self).board == old(self).board,
            final(self).table == old(self).table,
            final(self).eng_opts == old(self).eng_opts,
    {
        self.history.clear();
        let hash = self.board.chessboard.get_hash();
        self.history.push(hash);
    }

    /// resize the transposition table to `size` bytes (no more than
    /// `usize::MAX / 1000`, which no memory holds): its new capacity in
    /// entries
    pub fn resize_table(&mut self, size: usize) -> (r: Result<usize, EngineError>)
        requires
            size <= usize::MAX / 1000,
        ensures
            r matches Ok(n) ==> n == table_entries(size as nat),
            final(self).table == old(self).table,
            final(self).board == old(self).board,
            final(self).history@ == old(self).history@,
            final(self).eng_opts == old(self).eng_opts,
    {
        match shared_resize(&self.table.get(), size) {
            Some(n) => Ok(n),
            None => Err(EngineError::TablePoisoned),
        }
    }

    /// forget every transposition table entry, so that a new game doesn't
    /// inherit the previous one's results.
    pub fn clear_table(&mut self) -> (r: Result<(), EngineError>)
        ensures
            final(self).table == old(self).table,
            final(self).board == old(self).board,
            final(self).history@ == old(self).history@,
            final(self).eng_opts == old(self).eng_opts,
    {
        if shared_clear(&self.table.get()) {
            Ok(())
        } else {
            Err(EngineError::TablePoisoned)
        }
    }

    /// # begin setting up the engine
    /// 1. load opening book
    /// 2. load parameters from file
    /// 3. load endgame tablebases
    /// 4. ...
    pub fn setup(&mut self) -> (r: Result<(), EngineError>)
        ensures
            r is Ok,
    {
        Ok(())
    }

    /// # Clean up after engine done
    /// 1. de-allocate any no-drop resources
    /// 2. save metrics
    pub fn clean_up(&mut self) -> (r: Result<(), EngineError>)
        ensures
            r is Ok,
    {
        Ok(())
    }
}

} // verus!
