//! the chess board: the plain facts the engine reads, next to the `chess`
//! crate's own board, which generates the legal moves, plays them and hashes
//! positions.
use vstd::prelude::*;
use crate::fen::{fen_readable, is_readable_fen};
use crate::pieces::{Color, Piece, Move, has_square, file_of, popcount, bitboard_has};

verus! {

#[verifier::external_type_specification]
#[verifier::external_body]
pub struct ExChessBoard(chess::Board);

#[verifier::external_type_specification]
#[verifier::external_body]
pub struct ExMoveGen(chess::MoveGen);

/// what a [`BoardState`] holds: one bitboard per piece kind (pawn first), one per
/// color (white first), the side to move, each side's castle rights (0 none,
/// 1 king side, 2 queen side, 3 both) and the square of a pawn that may be
/// taken en passant.
pub struct BoardView {
    pub pieces: Seq<u64>,
    pub colors: Seq<u64>,
    pub side_to_move: Color,
    pub castle_rights: Seq<u8>,
    pub en_passant: Option<u8>,
}

/// a position on the board, as the `chess` crate accepts it. The plain
/// fields are read off the crate's board whenever one is made, and neither
/// changes after, so the contracts of the crate's calls on `inner` speak of
/// the view of the plain fields.
#[derive(Debug, Clone, Copy, PartialEq, Eq)]
pub struct BoardState {
    pieces: [u64; 6],
    colors: [u64; 2],
    side_to_move: Color,
    castle_rights: [u8; 2],
    en_passant: Option<u8>,
    inner: chess::Board,
}

impl View for BoardState {
    type V = BoardView;

    closed spec fn view(&self) -> BoardView {
        BoardView {
            pieces: self.pieces@,
            colors: self.colors@,
            side_to_move: self.side_to_move,
            castle_rights: self.castle_rights@,
            en_passant: self.en_passant,
        }
    }
}

impl BoardView {
    /// every occupied square
    pub open spec fn occupied(self) -> u64 {
        self.colors[0] | self.colors[1]
    }

    /// the squares of one kind of piece, of either color
    pub open spec fn piece_bb(self, p: Piece) -> u64 {
        self.pieces[p.index()]
    }

    /// the squares of one side's pieces
    pub open spec fn color_bb(self, c: Color) -> u64 {
        self.colors[c.index()]
    }

    /// the piece standing on `sq`, found as the `chess` crate finds it
    pub open spec fn piece_at(self, sq: int) -> Option<Piece> {
        if !has_square(self.occupied(), sq) {
            None
        } else if has_square(self.pieces[0], sq) {
            Some(Piece::Pawn)
        } else if has_square(self.pieces[1], sq) {
            Some(Piece::Knight)
        } else if has_square(self.pieces[2], sq) {
            Some(Piece::Bishop)
        } else if has_square(self.pieces[3], sq) {
            Some(Piece::Rook)
        } else if has_square(self.pieces[4], sq) {
            Some(Piece::Queen)
        } else {
            Some(Piece::King)
        }
    }

    /// the color of the piece standing on `sq`
    pub open spec fn color_at(self, sq: int) -> Option<Color> {
        if has_square(self.colors[0], sq) {
            Some(Color::White)
        } else if has_square(self.colors[1], sq) {
            Some(Color::Black)
        } else {
            None
        }
    }

    /// does `m` take a piece? covers en passant, where the destination square
    /// is empty but the moving pawn changes file.
    pub open spec fn is_capture(self, m: Move) -> bool {
        self.piece_at(m.dest as int) is Some || (self.piece_at(m.source as int) == Some(
            Piece::Pawn,
        ) && file_of(m.source as int) != file_of(m.dest as int))
    }
}

/// the legal moves in a position, as `chess::MoveGen::new_legal` generates them
pub uninterp spec fn legal_moves(b: BoardView) -> Set<Move>;

/// the position after a legal move, as `chess::Board::make_move_new` plays it
pub uninterp spec fn after_move(b: BoardView, m: Move) -> BoardView;

/// the zobrist hash of a position, as `chess::Board::get_hash` computes it
pub uninterp spec fn board_hash(b: BoardView) -> u64;

/// the pieces giving check, as `chess::Board::checkers` reports them
pub uninterp spec fn checkers_of(b: BoardView) -> u64;

/// the position a FEN string describes, as `chess::Board::from_str` reads it
pub uninterp spec fn parse_fen(s: Seq<char>) -> Option<BoardView>;

/// the FEN string of a position, as `chess::Board`'s `Display` writes it
pub uninterp spec fn fen_of(b: BoardView) -> Seq<char>;

/// the moves a move generator still holds
pub uninterp spec fn movegen_moves(mg: chess::MoveGen) -> Set<Move>;

/// the destination squares a move generator currently iterates over
pub uninterp spec fn movegen_mask(mg: chess::MoveGen) -> u64;

/// has the generator been ordered for its mask (by `new_legal` or
/// `set_iterator_mask`) and only iterated since?
pub uninterp spec fn movegen_ordered(mg: chess::MoveGen) -> bool;

/// has the generator been ordered for its mask and not iterated since?
pub uninterp spec fn movegen_fresh(mg: chess::MoveGen) -> bool;

/// is the generator half way through the promotions of one pawn move?
pub uninterp spec fn movegen_promoting(mg: chess::MoveGen) -> bool;

/// does the generator keep the moves of each square they start from in one
/// entry? `MoveGen::new_legal` gives a pawn that may take en passant a
/// second entry for that capture, and otherwise one entry to each piece
/// with moves; nothing after that adds an entry
pub uninterp spec fn movegen_unsplit(mg: chess::MoveGen) -> bool;

/// can the `chess` crate generate the moves of this position? its generator
/// keeps at most 18 entries, one for each piece of the side to move that has
/// a move and two for captures en passant, so the side to move has at most
/// 16 pieces
pub open spec fn generable(b: BoardView) -> bool {
    popcount(b.color_bb(b.side_to_move)) <= 16
}

/// neither side has more than 16 pieces: moves never add a piece, so every
/// position reached from this one is [`generable`]
pub open spec fn playable(b: BoardView) -> bool {
    popcount(b.colors[0]) <= 16 && popcount(b.colors[1]) <= 16
}

/// the square of a destination, as a bitboard
pub open spec fn in_mask(mask: u64, m: Move) -> bool {
    has_square(mask, m.dest as int)
}

impl BoardState {
    /// the squares of one kind of piece
    pub fn pieces(&self, p: Piece) -> (r: u64)
        ensures
            r == self@.piece_bb(p),
    {
        self.pieces[p.to_index()]
    }

    /// the squares of one side's pieces
    pub fn color_combined(&self, c: Color) -> (r: u64)
        ensures
            r == self@.color_bb(c),
    {
        self.colors[c.to_index()]
    }

    /// every occupied square
    pub fn combined(&self) -> (r: u64)
        ensures
            r == self@.occupied(),
    {
        self.colors[0] | self.colors[1]
    }

    /// whose turn is it?
    pub fn side_to_move(&self) -> (r: Color)
        ensures
            r == self@.side_to_move,
    {
        self.side_to_move
    }

    /// a side's castle rights: 0 none, 1 king side, 2 queen side, 3 both
    pub fn castle_rights(&self, c: Color) -> (r: u8)
        ensures
            r == self@.castle_rights[c.index()],
    {
        self.castle_rights[c.to_index()]
    }

    /// the square of a pawn that may be taken en passant
    pub fn en_passant(&self) -> (r: Option<u8>)
        ensures
            r == self@.en_passant,
    {
        self.en_passant
    }

    /// the piece standing on a square
    pub fn piece_on(&self, sq: u8) -> (r: Option<Piece>)
        requires
            sq < 64,
        ensures
            r == self@.piece_at(sq as int),
    {
        if !bitboard_has(self.colors[0] | self.colors[1], sq) {
            None
        } else if bitboard_has(self.pieces[0], sq) {
            Some(Piece::Pawn)
        } else if bitboard_has(self.pieces[1], sq) {
            Some(Piece::Knight)
        } else if bitboard_has(self.pieces[2], sq) {
            Some(Piece::Bishop)
        } else if bitboard_has(self.pieces[3], sq) {
            Some(Piece::Rook)
        } else if bitboard_has(self.pieces[4], sq) {
            Some(Piece::Queen)
        } else {
            Some(Piece::King)
        }
    }

    /// the color of the piece standing on a square
    pub fn color_on(&self, sq: u8) -> (r: Option<Color>)
        requires
            sq < 64,
        ensures
            r == self@.color_at(sq as int),
    {
        if bitboard_has(self.colors[0], sq) {
            Some(Color::White)
        } else if bitboard_has(self.colors[1], sq) {
            Some(Color::Black)
        } else {
            None
        }
    }

    /// the zobrist hash of the position, through `chess::Board::get_hash`
    #[verifier::external_body]
    pub fn get_hash(&self) -> (r: u64)
        ensures
            r == board_hash(self@),
    {
        self.inner.get_hash()
    }

    /// the pieces giving check, through `chess::Board::checkers`
    #[verifier::external_body]
    pub fn checkers(&self) -> (r: u64)
        ensures
            r == checkers_of(self@),
    {
        self.inner.checkers().0
    }

    /// the FEN string of the position, through `chess::Board`'s `Display`
    #[verifier::external_body]
    pub fn to_fen(&self) -> (r: String)
        ensures
            r@ == fen_of(self@),
    {
        self.inner.to_string()
    }

    /// the starting position, through `chess::Board::default`, which reads the
    /// starting position's FEN string
    #[verifier::external_body]
    pub fn start_position() -> (r: BoardState)
        ensures
            parse_fen("rnbqkbnr/pppppppp/8/8/8/8/PPPPPPPP/RNBQKBNR w KQkq - 0 1"@) == Some(r@),
    {
        let c = chess::Board::default();
        BoardState {
            pieces: chess::ALL_PIECES.map(|x| c.pieces(x).0),
            colors: chess::ALL_COLORS.map(|x| c.color_combined(x).0),
            side_to_move: if c.side_to_move() == chess::Color::White { Color::White } else { Color::Black },
            castle_rights: chess::ALL_COLORS.map(|x| c.castle_rights(x).to_index() as u8),
            en_passant: c.en_passant().map(|s| s.to_int()),
            inner: c,
        }
    }

    /// read a FEN string, through `chess::Board::from_str`: `None` where the
    /// crate refuses the string or the position. The crate finds the king of
    /// the side to move before it checks the position, and cannot do without
    /// one, so the string has the form [`fen_readable`] describes: there the
    /// board field places every piece on a square of its own, and the king
    /// of the side to move among them. The en passant field is read through
    /// `Square::from_str`, which refuses rather than fails on any text.
    #[verifier::external_body]
    fn read_board(fen: &str) -> (r: Option<BoardState>)
        requires
            fen_readable(fen@),
        ensures
            match r {
                Some(b) => parse_fen(fen@) == Some(b@),
                None => parse_fen(fen@) is None,
            },
    {
        let c = match <chess::Board as core::str::FromStr>::from_str(fen) {
            Ok(c) => c,
            Err(_) => return None,
        };
        Some(BoardState {
            pieces: chess::ALL_PIECES.map(|x| c.pieces(x).0),
            colors: chess::ALL_COLORS.map(|x| c.color_combined(x).0),
            side_to_move: if c.side_to_move() == chess::Color::White { Color::White } else { Color::Black },
            castle_rights: chess::ALL_COLORS.map(|x| c.castle_rights(x).to_index() as u8),
            en_passant: c.en_passant().map(|s| s.to_int()),
            inner: c,
        })
    }

    /// play a legal move, through `chess::Board::make_move_new`. The side to
    /// move changes, a capture leaves one piece fewer on the board, and no
    /// side ever gains a piece (a promotion replaces the pawn).
    #[verifier::external_body]
    pub fn make_move_new(&self, m: Move) -> (r: BoardState)
        requires
            legal_moves(self@).contains(m),
        ensures
            r@ == after_move(self@, m),
            r@.side_to_move == self@.side_to_move.spec_other(),
            self@.is_capture(m) ==> popcount(r@.occupied()) < popcount(self@.occupied()),
            popcount(r@.colors[0]) <= popcount(self@.colors[0]),
            popcount(r@.colors[1]) <= popcount(self@.colors[1]),
    {
        let sq = chess::ALL_SQUARES;
        let promo = m.promotion.map(|x| chess::ALL_PIECES[x.to_index()]);
        let c = self.inner.make_move_new(chess::ChessMove::new(sq[m.source as usize], sq[m.dest as usize], promo));
        BoardState {
            pieces: chess::ALL_PIECES.map(|x| c.pieces(x).0),
            colors: chess::ALL_COLORS.map(|x| c.color_combined(x).0),
            side_to_move: if c.side_to_move() == chess::Color::White { Color::White } else { Color::Black },
            castle_rights: chess::ALL_COLORS.map(|x| c.castle_rights(x).to_index() as u8),
            en_passant: c.en_passant().map(|s| s.to_int()),
            inner: c,
        }
    }
}

impl BoardState {
    /// can the move generator take this position, and every one reached from
    /// it? neither side has more than 16 pieces
    pub fn is_playable(&self) -> (r: bool)
        ensures
            r == playable(self@),
    {
        crate::pieces::count_squares(self.colors[0]) <= 16 && crate::pieces::count_squares(self.colors[1]) <= 16
    }

    /// read a FEN string: `None` where it lacks the form
    /// [`fen_readable`] describes (eight ranks of eight squares, a side to
    /// move with a king on the board, and the fields after it), or where the
    /// crate refuses the string or the position
    pub fn from_fen(fen: &str) -> (r: Option<BoardState>)
        ensures
            match r {
                Some(b) => fen_readable(fen@) && parse_fen(fen@) == Some(b@),
                None => !fen_readable(fen@) || parse_fen(fen@) is None,
            },
    {
        if is_readable_fen(fen) {
            BoardState::read_board(fen)
        } else {
            None
        }
    }

    /// read a FEN string of a position the engine can play: `None` where
    /// [`BoardState::from_fen`] gives none, or where a side has more than 16
    /// pieces
    pub fn from_playable_fen(fen: &str) -> (r: Option<BoardState>)
        ensures
            match r {
                Some(b) => fen_readable(fen@) && parse_fen(fen@) == Some(b@) && playable(b@),
                None => !fen_readable(fen@) || match parse_fen(fen@) {
                    Some(v) => !playable(v),
                    None => true,
                },
            },
    {
        match BoardState::from_fen(fen) {
            Some(b) => if b.is_playable() {
                Some(b)
            } else {
                None
            },
            None => None,
        }
    }
}

/// a playable position's side to move can have its moves generated
pub proof fn lemma_playable_generable(b: BoardView)
    requires
        playable(b),
    ensures
        generable(b),
{
}

impl Default for BoardState {
    fn default() -> (r: BoardState)
        ensures
            parse_fen("rnbqkbnr/pppppppp/8/8/8/8/PPPPPPPP/RNBQKBNR w KQkq - 0 1"@) == Some(r@),
    {
        BoardState::start_position()
    }
}

/// a legal move generator for `b`, through `chess::MoveGen::new_legal`,
/// which starts every move on a piece of the side to move. The generator
/// keeps its entries in a list of 18, which a side to move with more than 16
/// pieces could overflow.
#[verifier::external_body]
pub fn movegen_new(b: &BoardState) -> (r: chess::MoveGen)
    requires
        generable(b@),
    ensures
        movegen_moves(r) == legal_moves(b@),
        movegen_moves(r).finite(),
        forall|m: Move| #[trigger] movegen_moves(r).contains(m) ==> m.on_board(),
        forall|m: Move| #[trigger] movegen_moves(r).contains(m) ==> has_square(
            b@.color_bb(b@.side_to_move),
            m.source as int,
        ),
        movegen_mask(r) == u64::MAX,
        movegen_ordered(r),
        movegen_fresh(r),
        !movegen_promoting(r),
        b@.en_passant is None ==> movegen_unsplit(r),
{
    chess::MoveGen::new_legal(&b.inner)
}

/// only iterate moves landing on `mask`, through
/// `chess::MoveGen::set_iterator_mask`, which reorders the generator for the
/// mask and restarts its iteration. Within a run of the four promotions of
/// one pawn move the mask is left alone: a new mask there would have the
/// crate skip or repeat promotions.
#[verifier::external_body]
pub fn movegen_set_mask(mg: &mut chess::MoveGen, mask: u64)
    requires
        !movegen_promoting(*old(mg)),
    ensures
        movegen_moves(*final(mg)) == movegen_moves(*old(mg)),
        movegen_mask(*final(mg)) == mask,
        movegen_ordered(*final(mg)),
        movegen_fresh(*final(mg)),
        !movegen_promoting(*final(mg)),
        movegen_unsplit(*final(mg)) == movegen_unsplit(*old(mg)),
{
    mg.set_iterator_mask(chess::BitBoard(mask))
}

/// the next move landing on the mask, through `chess::MoveGen::next`. The
/// generator hands out the four promotions of one pawn move in a row; which
/// move comes first among the others is left to the crate. `None` comes only
/// where no move on the mask is left, provided the generator was ordered for
/// its mask.
#[verifier::external_body]
pub fn movegen_next(mg: &mut chess::MoveGen) -> (r: Option<Move>)
    ensures
        movegen_mask(*final(mg)) == movegen_mask(*old(mg)),
        movegen_ordered(*old(mg)) ==> movegen_ordered(*final(mg)),
        movegen_unsplit(*final(mg)) == movegen_unsplit(*old(mg)),
        match r {
            Some(m) => {
                &&& movegen_moves(*old(mg)).contains(m)
                &&& in_mask(movegen_mask(*old(mg)), m)
                &&& movegen_moves(*final(mg)) == movegen_moves(*old(mg)).remove(m)
            },
            None => {
                &&& movegen_moves(*final(mg)) == movegen_moves(*old(mg))
                &&& !movegen_promoting(*final(mg))
                &&& movegen_ordered(*old(mg)) ==> forall|x: Move| #[trigger]
                    movegen_moves(*old(mg)).contains(x) ==> !in_mask(movegen_mask(*old(mg)), x)
            },
        },
{
    match mg.next() {
        Some(m) => Some(Move {
            source: m.get_source().to_int(),
            dest: m.get_dest().to_int(),
            promotion: m.get_promotion().map(|p| Piece::from_index(p.to_index())),
        }),
        None => None,
    }
}

/// never iterate moves from `m`'s source to `m`'s destination, through
/// `chess::MoveGen::remove_move`, which clears the destination from the
/// first of the generator's entries for that source (with a promotion, all
/// four go). A pawn that may take en passant has a second entry for that
/// capture, so removing it from a pawn that has other moves too removes
/// nothing: either every move between the two squares goes, or none does,
/// and with one entry for each square they all go. What it returns, and
/// whether the generator is still ordered for its mask, is left unsaid.
#[verifier::external_body]
pub fn movegen_remove(mg: &mut chess::MoveGen, m: Move)
    requires
        !movegen_promoting(*old(mg)),
        m.on_board(),
    ensures
        movegen_moves(*final(mg)) == movegen_moves(*old(mg)).filter(
            |x: Move| !(x.source == m.source && x.dest == m.dest),
        ) || movegen_moves(*final(mg)) == movegen_moves(*old(mg)),
        movegen_unsplit(*old(mg)) ==> movegen_moves(*final(mg)) == movegen_moves(*old(mg)).filter(
            |x: Move| !(x.source == m.source && x.dest == m.dest),
        ),
        movegen_mask(*final(mg)) == movegen_mask(*old(mg)),
        !movegen_promoting(*final(mg)),
        movegen_unsplit(*final(mg)) == movegen_unsplit(*old(mg)),
{
    let sq = chess::ALL_SQUARES;
    let promo = m.promotion.map(|x| chess::ALL_PIECES[x.to_index()]);
    mg.remove_move(chess::ChessMove::new(sq[m.source as usize], sq[m.dest as usize], promo));
}

/// is `mv` one of the legal moves of `b`? the move generator hands out every
/// legal move until one matches
pub fn is_legal(b: &BoardState, mv: Move) -> (r: bool)
    requires
        generable(b@),
    ensures
        r == legal_moves(b@).contains(mv),
{
    let mut mg = movegen_new(b);
    let ghost legal = legal_moves(b@);
    loop
        invariant
            legal == legal_moves(b@),
            forall|m: Move| #[trigger] legal.contains(m) ==> m.on_board(),
            movegen_moves(mg).finite(),
            movegen_moves(mg).subset_of(legal),
            movegen_mask(mg) == u64::MAX,
            movegen_ordered(mg),
            legal.contains(mv) ==> movegen_moves(mg).contains(mv),
        decreases movegen_moves(mg).len(),
    {
        match movegen_next(&mut mg) {
            Some(m) => {
                if m == mv {
                    return true;
                }
            },
            None => {
                proof {
                    if legal.contains(mv) {
                        crate::pieces::lemma_full_bitboard(mv.dest as int);
                    }
                }
                return false;
            },
        }
    }
}

/// how many moves land on the mask, through `chess::MoveGen`'s
/// `ExactSizeIterator::len`; exact right after the generator was ordered.
#[verifier::external_body]
pub fn movegen_len(mg: &chess::MoveGen) -> (r: usize)
    requires
        movegen_fresh(*mg),
        !movegen_promoting(*mg),
    ensures
        r == movegen_moves(*mg).filter(|x: Move| in_mask(movegen_mask(*mg), x)).len(),
{
    mg.len()
}

} // verus!
