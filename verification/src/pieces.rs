//! plain descriptions of colors, pieces, squares and moves
use vstd::prelude::*;

verus! {

/// the side a piece belongs to
#[derive(Debug, Clone, Copy, PartialEq, Eq, Structural, Hash)]
pub enum Color {
    White,
    Black,
}

impl Color {
    /// White is 0, Black is 1
    pub open spec fn index(self) -> int {
        match self {
            Color::White => 0,
            Color::Black => 1,
        }
    }

    /// White is 0, Black is 1
    pub fn to_index(self) -> (r: usize)
        ensures
            r == self.index(),
    {
        match self {
            Color::White => 0,
            Color::Black => 1,
        }
    }

    /// the other side
    pub open spec fn spec_other(self) -> Color {
        match self {
            Color::White => Color::Black,
            Color::Black => Color::White,
        }
    }

    /// the other side
    #[verifier::when_used_as_spec(spec_other)]
    pub fn other(self) -> (r: Color)
        ensures
            r == self.spec_other(),
    {
        match self {
            Color::White => Color::Black,
            Color::Black => Color::White,
        }
    }
}

/// a kind of chess piece
#[derive(Debug, Clone, Copy, PartialEq, Eq, Structural, Hash)]
pub enum Piece {
    Pawn,
    Knight,
    Bishop,
    Rook,
    Queen,
    King,
}

impl Piece {
    /// Pawn is 0 up to King at 5
    pub open spec fn index(self) -> int {
        match self {
            Piece::Pawn => 0,
            Piece::Knight => 1,
            Piece::Bishop => 2,
            Piece::Rook => 3,
            Piece::Queen => 4,
            Piece::King => 5,
        }
    }

    /// Pawn is 0 up to King at 5
    pub fn to_index(self) -> (r: usize)
        ensures
            r == self.index(),
    {
        match self {
            Piece::Pawn => 0,
            Piece::Knight => 1,
            Piece::Bishop => 2,
            Piece::Rook => 3,
            Piece::Queen => 4,
            Piece::King => 5,
        }
    }

    /// the piece with the given index
    pub open spec fn spec_from_index(i: int) -> Piece {
        if i == 0 {
            Piece::Pawn
        } else if i == 1 {
            Piece::Knight
        } else if i == 2 {
            Piece::Bishop
        } else if i == 3 {
            Piece::Rook
        } else if i == 4 {
            Piece::Queen
        } else {
            Piece::King
        }
    }

    /// the piece with the given index
    pub fn from_index(i: usize) -> (r: Piece)
        requires
            i < 6,
        ensures
            r == Piece::spec_from_index(i as int),
            r.index() == i,
    {
        if i == 0 {
            Piece::Pawn
        } else if i == 1 {
            Piece::Knight
        } else if i == 2 {
            Piece::Bishop
        } else if i == 3 {
            Piece::Rook
        } else if i == 4 {
            Piece::Queen
        } else {
            Piece::King
        }
    }
}

/// a chess move from `source` to `dest` (squares 0 = a1 up to 63 = h8),
/// with the piece a pawn promotes to, if any
#[derive(Debug, Clone, Copy, PartialEq, Eq, Structural, Hash)]
pub struct Move {
    pub source: u8,
    pub dest: u8,
    pub promotion: Option<Piece>,
}

impl Move {
    /// both squares lie on the board
    pub open spec fn on_board(self) -> bool {
        self.source < 64 && self.dest < 64
    }

    /// a move from `source` to `dest`
    pub fn new(source: u8, dest: u8, promotion: Option<Piece>) -> (r: Move)
        ensures
            r == (Move { source, dest, promotion }),
    {
        Move { source, dest, promotion }
    }

    /// the null move a1a1, the default move
    pub fn null() -> (r: Move)
        ensures
            r == (Move { source: 0, dest: 0, promotion: None }),
    {
        Move { source: 0, dest: 0, promotion: None }
    }
}

impl Default for Move {
    fn default() -> (r: Move)
        ensures
            r == (Move { source: 0, dest: 0, promotion: None }),
    {
        Move::null()
    }
}

/// the rank (row, 0 = first rank) of a square
pub open spec fn rank_of(sq: int) -> int {
    sq / 8
}

/// the file (column, 0 = a-file) of a square
pub open spec fn file_of(sq: int) -> int {
    sq % 8
}

/// the rank (row, 0 = first rank) of a square
pub fn square_rank(sq: u8) -> (r: u8)
    requires
        sq < 64,
    ensures
        r == rank_of(sq as int),
        r < 8,
{
    sq / 8
}

/// the file (column, 0 = a-file) of a square
pub fn square_file(sq: u8) -> (r: u8)
    requires
        sq < 64,
    ensures
        r == file_of(sq as int),
        r < 8,
{
    sq % 8
}

/// is square `sq` part of bitboard `bb`?
pub open spec fn has_square(bb: u64, sq: int) -> bool {
    0 <= sq < 64 && (bb >> (sq as u64)) & 1 == 1
}

/// every square is part of the full bitboard
pub proof fn lemma_full_bitboard(sq: int)
    requires
        0 <= sq < 64,
    ensures
        has_square(u64::MAX, sq),
{
    let s = sq as u64;
    assert((u64::MAX >> s) & 1 == 1) by (bit_vector)
        requires
            s < 64,
    ;
}

/// a square of either of two bitboards is a square of their union
pub proof fn lemma_union_has_square(a: u64, b: u64, sq: int)
    requires
        has_square(a, sq) || has_square(b, sq),
    ensures
        has_square(a | b, sq),
{
    let s = sq as u64;
    assert(((a >> s) & 1 == 1 || (b >> s) & 1 == 1) ==> ((a | b) >> s) & 1 == 1) by (bit_vector)
        requires
            s < 64,
    ;
}

/// is square `sq` part of bitboard `bb`?
pub fn bitboard_has(bb: u64, sq: u8) -> (r: bool)
    requires
        sq < 64,
    ensures
        r == has_square(bb, sq as int),
{
    (bb >> sq) & 1 == 1
}

/// the number of squares in a bitboard
pub open spec fn popcount(x: u64) -> nat
    decreases x,
{
    if x == 0 {
        0
    } else {
        (x % 2) as nat + popcount(x / 2)
    }
}

/// the number of squares in a bitboard, through `u64::count_ones`, which
/// counts the one bits of its argument.
#[verifier::external_body]
pub(crate) fn count_squares(x: u64) -> (r: u32)
    ensures
        r == popcount(x),
{
    x.count_ones()
}

/// the set squares of a bitboard below `n`, lowest first
pub open spec fn squares_below(bb: u64, n: nat) -> Seq<u64>
    decreases n,
{
    if n == 0 {
        Seq::empty()
    } else {
        squares_below(bb, (n - 1) as nat) + if has_square(bb, n - 1) {
            seq![(n - 1) as u64]
        } else {
            Seq::empty()
        }
    }
}

/// the bits of `bb` from `p` up
pub open spec fn bits_from(bb: u64, p: u64) -> u64 {
    if p >= 64 {
        0
    } else {
        bb & (u64::MAX << p)
    }
}

proof fn lemma_bits_from_step(orig: u64, bb: u64, p: u64)
    requires
        p < 64,
        bb == bits_from(orig, p),
    ensures
        (bb & (1u64 << p) != 0) == has_square(orig, p as int),
        (bb & (1u64 << p) != 0) ==> bb ^ (1u64 << p) == bits_from(orig, (p + 1) as u64),
        (bb & (1u64 << p) == 0) ==> bb == bits_from(orig, (p + 1) as u64),
{
    assert((bb & (1u64 << p) != 0) == ((orig >> p) & 1 == 1)) by (bit_vector)
        requires
            p < 64,
            bb == orig & (u64::MAX << p),
    ;
    if p + 1 < 64 {
        assert((bb & (1u64 << p) != 0) ==> bb ^ (1u64 << p) == orig & (u64::MAX << ((p + 1) as u64))) by (bit_vector)
            requires
                p + 1 < 64,
                bb == orig & (u64::MAX << p),
        ;
        assert((bb & (1u64 << p) == 0) ==> bb == orig & (u64::MAX << ((p + 1) as u64))) by (bit_vector)
            requires
                p + 1 < 64,
                bb == orig & (u64::MAX << p),
        ;
    } else {
        assert((bb & (1u64 << p) != 0) ==> bb ^ (1u64 << p) == 0) by (bit_vector)
            requires
                p == 63,
                bb == orig & (u64::MAX << p),
        ;
        assert((bb & (1u64 << p) == 0) ==> bb == 0) by (bit_vector)
            requires
                p == 63,
                bb == orig & (u64::MAX << p),
        ;
    }
}

/// no square from `p` up is set once those bits are all clear
proof fn lemma_no_squares_above(orig: u64, p: u64, n: nat)
    requires
        p <= n <= 64,
        bits_from(orig, p) == 0,
    ensures
        squares_below(orig, n) == squares_below(orig, p as nat),
    decreases n,
{
    if n > p {
        lemma_no_squares_above(orig, p, (n - 1) as nat);
        let q = (n - 1) as u64;
        assert(!has_square(orig, q as int)) by {
            assert((orig >> q) & 1 == 0) by (bit_vector)
                requires
                    p <= q < 64,
                    orig & (u64::MAX << p) == 0,
            ;
        }
        assert(squares_below(orig, n) =~= squares_below(orig, (n - 1) as nat));
    }
}

/// append the squares of a bitboard, lowest first
pub fn get_positions_from_bitboard(v: &mut Vec<u64>, bb: usize)
    ensures
        final(v)@ == old(v)@ + squares_below(bb as u64, 64),
{
    let orig: u64 = bb as u64;
    let mut bits: u64 = orig;
    let mut pointer: u64 = 0;
    assert(orig & (u64::MAX << 0u64) == orig) by (bit_vector);
    assert(v@ =~= old(v)@ + squares_below(orig, 0));
    while bits > 0 && pointer < 64
        invariant
            pointer <= 64,
            bits == bits_from(orig, pointer),
            v@ == old(v)@ + squares_below(orig, pointer as nat),
        decreases 64 - pointer,
    {
        proof {
            lemma_bits_from_step(orig, bits, pointer);
        }
        let ghost before = v@;
        if bits & (1u64 << pointer) != 0 {
            bits = bits ^ (1u64 << pointer);
            v.push(pointer);
        }
        assert(v@ =~= old(v)@ + squares_below(orig, (pointer + 1) as nat));
        pointer = pointer + 1;
    }
    proof {
        lemma_no_squares_above(orig, pointer, 64);
    }
}

} // verus!
