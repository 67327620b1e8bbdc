//! the definition of a position: a board, and how long since the last pawn
//! move or capture
use vstd::prelude::*;
use crate::board::{BoardState, BoardView, legal_moves, after_move, board_hash, playable};
use crate::pieces::{Move, Piece, Color, popcount, count_squares, file_of, square_file, has_square, lemma_union_has_square};
use crate::search::{occurrences, equals_hash};

verus! {

/// the number of halfmoves without a pawn move or a capture after which the
/// game is drawn.
pub const FIFTY_MOVE_LIMIT: usize = 100;

/// a position in a game
#[derive(Debug, Clone, PartialEq, Eq)]
pub struct Position {
    /// the board
    pub chessboard: BoardState,
    /// how many halfmoves have been played since the last pawn move or
    /// capture. the board does not track this, and drops it when parsing a
    /// FEN, so it is maintained here.
    pub halfmove_clock: usize,
}

/// does `mv` restart the fifty-move counter? only pawn moves and captures do.
pub open spec fn resets_clock(b: BoardView, mv: Move) -> bool {
    b.piece_at(mv.source as int) == Some(Piece::Pawn) || b.piece_at(mv.dest as int) is Some
}

/// does `mv` make every position played so far unreachable? pawn moves,
/// captures, and moves that change castling rights do.
pub open spec fn irreversible(previous: BoardView, current: BoardView, mv: Move) -> bool {
    resets_clock(previous, mv) || previous.castle_rights[0] != current.castle_rights[0]
        || previous.castle_rights[1] != current.castle_rights[1]
}

/// too little material for either side to ever deliver checkmate: no pawn,
/// rook or queen, and at most one minor piece
pub open spec fn insufficient_material(b: BoardView) -> bool {
    (b.piece_bb(Piece::Pawn) | b.piece_bb(Piece::Rook) | b.piece_bb(Piece::Queen)) == 0
        && popcount(b.piece_bb(Piece::Knight) | b.piece_bb(Piece::Bishop)) <= 1
}

/// a pawn, rook or queen on the board, of either side, is always enough
/// material: the position is never a dead draw
pub proof fn lemma_heavy_piece_is_sufficient(b: BoardView, sq: int, c: Color, p: Piece)
    requires
        p == Piece::Pawn || p == Piece::Rook || p == Piece::Queen,
        has_square(b.color_bb(c), sq),
        has_square(b.piece_bb(p), sq),
    ensures
        !insufficient_material(b),
{
    let x = b.piece_bb(p);
    let s = sq as u64;
    assert((x >> s) & 1 == 1 ==> x != 0) by (bit_vector);
    let all = b.piece_bb(Piece::Pawn) | b.piece_bb(Piece::Rook) | b.piece_bb(Piece::Queen);
    if p == Piece::Pawn {
        lemma_union_has_square(b.piece_bb(Piece::Pawn), b.piece_bb(Piece::Rook), sq);
        lemma_union_has_square(b.piece_bb(Piece::Pawn) | b.piece_bb(Piece::Rook), b.piece_bb(Piece::Queen), sq);
    } else if p == Piece::Rook {
        lemma_union_has_square(b.piece_bb(Piece::Pawn), b.piece_bb(Piece::Rook), sq);
        lemma_union_has_square(b.piece_bb(Piece::Pawn) | b.piece_bb(Piece::Rook), b.piece_bb(Piece::Queen), sq);
    } else {
        lemma_union_has_square(b.piece_bb(Piece::Pawn) | b.piece_bb(Piece::Rook), b.piece_bb(Piece::Queen), sq);
    }
    assert((all >> s) & 1 == 1 ==> all != 0) by (bit_vector);
}

/// kings alone are a dead draw
pub proof fn lemma_bare_kings_insufficient(b: BoardView)
    requires
        forall|p: Piece| p != Piece::King ==> #[trigger] b.piece_bb(p) == 0,
    ensures
        insufficient_material(b),
{
    assert(b.piece_bb(Piece::Pawn) == 0 && b.piece_bb(Piece::Rook) == 0 && b.piece_bb(Piece::Queen) == 0);
    assert(b.piece_bb(Piece::Knight) == 0 && b.piece_bb(Piece::Bishop) == 0);
    assert(0u64 | 0u64 | 0u64 == 0u64) by (bit_vector);
    assert(0u64 | 0u64 == 0u64) by (bit_vector);
}

/// whether a position is a dead draw does not depend on which side owns
/// which pieces, nor on whose move it is: the position with the colours of
/// all pieces swapped is judged the same
pub proof fn lemma_insufficient_ignores_colours(b: BoardView)
    requires
        b.colors.len() == 2,
    ensures
        insufficient_material(b) == insufficient_material(
            BoardView { colors: seq![b.colors[1], b.colors[0]], side_to_move: b.side_to_move.spec_other(), ..b },
        ),
{
}

impl Position {
    /// make a move on the board, advancing the halfmove clock, or restarting
    /// it on a pawn move or a capture
    pub fn make_move(&self, mv: Move) -> (r: Position)
        requires
            legal_moves(self.chessboard@).contains(mv),
            mv.on_board(),
            self.halfmove_clock < usize::MAX,
        ensures
            r.chessboard@ == after_move(self.chessboard@, mv),
            r.halfmove_clock == (if resets_clock(self.chessboard@, mv) {
                0
            } else {
                self.halfmove_clock + 1
            }),
            self.chessboard@.is_capture(mv) ==> popcount(r.chessboard@.occupied()) < popcount(
                self.chessboard@.occupied(),
            ),
            playable(self.chessboard@) ==> playable(r.chessboard@),
    {
        let new_pos = self.chessboard.make_move_new(mv);
        let halfmove_clock = if resets_fifty_move_clock(&self.chessboard, mv) {
            0
        } else {
            self.halfmove_clock + 1
        };
        Position { chessboard: new_pos, halfmove_clock }
    }

    /// has the game been drawn by the fifty-move rule?
    pub fn is_fifty_move_draw(&self) -> (r: bool)
        ensures
            r == (self.halfmove_clock >= FIFTY_MOVE_LIMIT),
    {
        self.halfmove_clock >= FIFTY_MOVE_LIMIT
    }

    /// is there too little material left for either side to ever deliver
    /// checkmate? covers king versus king, and king and a single minor piece
    /// versus king.
    pub fn is_insufficient_material(&self) -> (r: bool)
        ensures
            r == insufficient_material(self.chessboard@),
    {
        let board = &self.chessboard;
        // any pawn, rook or queen can still mate (or promote into something
        // that can), so those end it immediately.
        if board.pieces(Piece::Pawn) | board.pieces(Piece::Rook) | board.pieces(Piece::Queen) != 0 {
            return false;
        }
        // a single minor piece cannot force mate, whichever side owns it.
        count_squares(board.pieces(Piece::Knight) | board.pieces(Piece::Bishop)) <= 1
    }

    /// the position of a board, with the halfmove clock at zero
    pub fn from_board(board: BoardState) -> (r: Position)
        ensures
            r.chessboard == board,
            r.halfmove_clock == 0,
    {
        Position { chessboard: board, halfmove_clock: 0 }
    }
}

impl From<BoardState> for Position {
    fn from(board: BoardState) -> (r: Position)
        ensures
            r.chessboard == board,
            r.halfmove_clock == 0,
    {
        Position::from_board(board)
    }
}

impl vstd::std_specs::convert::FromSpecImpl<BoardState> for Position {
    open spec fn obeys_from_spec() -> bool {
        true
    }

    open spec fn from_spec(board: BoardState) -> Position {
        Position { chessboard: board, halfmove_clock: 0 }
    }
}

impl Default for Position {
    fn default() -> (r: Position)
        ensures
            crate::board::parse_fen("rnbqkbnr/pppppppp/8/8/8/8/PPPPPPPP/RNBQKBNR w KQkq - 0 1"@) == Some(r.chessboard@),
            r.halfmove_clock == 0,
    {
        Position { chessboard: BoardState::start_position(), halfmove_clock: 0 }
    }
}

/// does `mv` restart the fifty-move counter?
///
/// only pawn moves and captures do. note that this is a strict subset of
/// [`is_irreversible`]: giving up castling rights makes earlier positions
/// unreachable, but does not reset the fifty-move clock.
pub fn resets_fifty_move_clock(previous: &BoardState, mv: Move) -> (r: bool)
    requires
        mv.on_board(),
    ensures
        r == resets_clock(previous@, mv),
{
    previous.piece_on(mv.source) == Some(Piece::Pawn) || previous.piece_on(mv.dest).is_some()
}

/// does `mv` make every position played so far unreachable?
///
/// true for pawn moves, captures, and moves that give up castling rights.
/// after any of those, no earlier position can be repeated.
pub fn is_irreversible(previous: &BoardState, current: &BoardState, mv: Move) -> (r: bool)
    requires
        mv.on_board(),
    ensures
        r == irreversible(previous@, current@, mv),
{
    resets_fifty_move_clock(previous, mv) || previous.castle_rights(Color::White) != current.castle_rights(Color::White)
        || previous.castle_rights(Color::Black) != current.castle_rights(Color::Black)
}

/// does `mv` capture a piece? covers en passant, where the destination square
/// is empty but the moving pawn changes file.
pub fn is_capture(board: &BoardState, mv: Move) -> (r: bool)
    requires
        mv.on_board(),
    ensures
        r == board@.is_capture(mv),
{
    board.piece_on(mv.dest).is_some() || (board.piece_on(mv.source) == Some(Piece::Pawn)
        && square_file(mv.source) != square_file(mv.dest))
}

/// the history of a game after `mv` was played from `previous` to reach
/// `current`: the hashes since the last irreversible move, the new one last
pub open spec fn history_after(history: Seq<u64>, previous: BoardView, current: BoardView, mv: Move) -> Seq<u64> {
    if irreversible(previous, current, mv) {
        seq![board_hash(current)]
    } else {
        history.push(board_hash(current))
    }
}

/// register a move played in a game: the position after it, and the hashes
/// of the positions since the last irreversible move, which forgets every
/// earlier position where the move is irreversible and then adds the new one
pub fn record_move(board: &Position, history: &mut Vec<u64>, mv: Move) -> (r: Position)
    requires
        legal_moves(board.chessboard@).contains(mv),
        mv.on_board(),
        board.halfmove_clock < usize::MAX,
    ensures
        r.chessboard@ == after_move(board.chessboard@, mv),
        r.halfmove_clock == (if resets_clock(board.chessboard@, mv) {
            0
        } else {
            board.halfmove_clock + 1
        }),
        final(history)@ == history_after(old(history)@, board.chessboard@, r.chessboard@, mv),
{
    let next = board.make_move(mv);
    if is_irreversible(&board.chessboard, &next.chessboard, mv) {
        history.clear();
    }
    history.push(next.chessboard.get_hash());
    next
}

/// a position just recorded is in the history: searching from it, it counts
/// as played once at least, so returning to it is seen as a repetition;
/// a reversible move keeps every position recorded before it
pub proof fn lemma_recorded_position_repeats(history: Seq<u64>, previous: BoardView, current: BoardView, mv: Move, h: u64)
    ensures
        occurrences(history_after(history, previous, current, mv), board_hash(current)) >= 1,
        !irreversible(previous, current, mv) ==> occurrences(history_after(history, previous, current, mv), h)
            >= occurrences(history, h),
{
    let after = history_after(history, previous, current, mv);
    let f = equals_hash(board_hash(current));
    let g = equals_hash(h);
    if irreversible(previous, current, mv) {
        Seq::<u64>::empty().lemma_filter_len_push(f, board_hash(current));
        assert(after == Seq::<u64>::empty().push(board_hash(current)));
        assert(Seq::<u64>::empty().filter(f) =~= Seq::<u64>::empty());
    } else {
        history.lemma_filter_len_push(f, board_hash(current));
        history.lemma_filter_len_push(g, board_hash(current));
    }
}

/// every move that restarts the fifty-move clock also makes the earlier
/// positions unreachable
pub proof fn lemma_reset_is_irreversible(previous: BoardView, current: BoardView, mv: Move)
    requires
        resets_clock(previous, mv),
    ensures
        irreversible(previous, current, mv),
{
}

} // verus!
