//! the material a side has on the board, counted in centipawns
use vstd::prelude::*;
use crate::board::BoardState;
use crate::pieces::{Piece, Color, popcount, count_squares, rank_of, file_of, square_rank, square_file};
use crate::values::Value;

verus! {

/// the value of a piece at the start of the game; the king has none
pub open spec fn initial_value(p: Piece) -> int {
    match p {
        Piece::Pawn => 100,
        Piece::Knight => 280,
        Piece::Bishop => 310,
        Piece::Rook => 500,
        Piece::Queen => 900,
        Piece::King => 0,
    }
}

/// the value of a piece in the middle game; the king has none
pub open spec fn midgame_value(p: Piece) -> int {
    match p {
        Piece::Pawn => 95,
        Piece::Knight => 310,
        Piece::Bishop => 300,
        Piece::Rook => 500,
        Piece::Queen => 900,
        Piece::King => 0,
    }
}

/// the value of a piece in the end game; the king has none
pub open spec fn endgame_value(p: Piece) -> int {
    match p {
        Piece::Pawn => 240,
        Piece::Knight => 200,
        Piece::Bishop => 300,
        Piece::Rook => 600,
        Piece::Queen => 1050,
        Piece::King => 0,
    }
}

/// the value of a piece at the start of the game (pawn to queen)
pub fn initial_values(p: Piece) -> (r: Value)
    requires
        p != Piece::King,
    ensures
        r.0 == initial_value(p),
{
    match p {
        Piece::Pawn => Value(100),
        Piece::Knight => Value(280),
        Piece::Bishop => Value(310),
        Piece::Rook => Value(500),
        _ => Value(900),
    }
}

/// the value of a piece in the middle game (pawn to queen)
pub fn midgame_values(p: Piece) -> (r: Value)
    requires
        p != Piece::King,
    ensures
        r.0 == midgame_value(p),
{
    match p {
        Piece::Pawn => Value(95),
        Piece::Knight => Value(310),
        Piece::Bishop => Value(300),
        Piece::Rook => Value(500),
        _ => Value(900),
    }
}

/// the value of a piece in the end game (pawn to queen)
pub fn endgame_values(p: Piece) -> (r: Value)
    requires
        p != Piece::King,
    ensures
        r.0 == endgame_value(p),
{
    match p {
        Piece::Pawn => Value(240),
        Piece::Knight => Value(200),
        Piece::Bishop => Value(300),
        Piece::Rook => Value(600),
        _ => Value(1050),
    }
}

/// the total material on the board at which the middle game begins
pub const MIDDLEGAME_SCORE: i16 = 6666;

/// the total material on the board at which the end game begins
pub const ENDGAME_SCORE: i16 = 3333;

/// the total material on the board at the start of the game
pub const START_COUNT: i16 = 8810;

pub proof fn lemma_popcount_bound(x: u64)
    ensures
        popcount(x) <= 64,
{
    vstd::arithmetic::power2::lemma2_to64();
    lemma_popcount_le_bits(x, 64);
}

proof fn lemma_popcount_le_bits(x: u64, n: nat)
    requires
        n <= 64,
        x < vstd::arithmetic::power2::pow2(n),
    ensures
        popcount(x) <= n,
    decreases n,
{
    vstd::arithmetic::power2::lemma2_to64();
    if x != 0 {
        assert(n > 0);
        vstd::arithmetic::power2::lemma_pow2_unfold(n);
        assert(x / 2 < vstd::arithmetic::power2::pow2((n - 1) as nat));
        lemma_popcount_le_bits(x / 2, (n - 1) as nat);
    }
}

/// the piece kinds counted as material, pawn to queen, by index
pub open spec fn material_piece(i: int) -> Piece {
    Piece::spec_from_index(i)
}

/// the value, at the start of the game, of the pieces of kinds `0..n`
/// (pawn first) standing on squares of `side`
pub open spec fn material_of(pieces: Seq<u64>, side: u64, n: int) -> int
    decreases n,
{
    if n <= 0 {
        0
    } else {
        material_of(pieces, side, n - 1) + initial_value(material_piece(n - 1)) * popcount(
            pieces[n - 1] & side,
        )
    }
}

proof fn lemma_material_of_monotone(pieces: Seq<u64>, side: u64, n: int, m: int)
    requires
        0 <= n <= m <= 5,
    ensures
        0 <= material_of(pieces, side, n) <= material_of(pieces, side, m),
    decreases m,
{
    if n < m {
        lemma_material_of_monotone(pieces, side, n, m - 1);
        let c = popcount(pieces[m - 1] & side);
        let v = initial_value(material_piece(m - 1));
        assert(0 <= v * c) by (nonlinear_arith)
            requires
                0 <= v,
                0 <= c,
        ;
    } else if n > 0 {
        lemma_material_of_monotone(pieces, side, n - 1, n - 1);
        let c = popcount(pieces[n - 1] & side);
        let v = initial_value(material_piece(n - 1));
        assert(0 <= v * c) by (nonlinear_arith)
            requires
                0 <= v,
                0 <= c,
        ;
    }
}

/// a side's material counts each of its pawns 100, knights 280, bishops
/// 310, rooks 500 and queens 900, and its king nothing: a lone rook is 500,
/// a lone knight 280
pub proof fn lemma_material_counts_pieces(pieces: Seq<u64>, side: u64)
    ensures
        material_of(pieces, side, 5) == 100 * popcount(pieces[0] & side) + 280 * popcount(pieces[1] & side) + 310
            * popcount(pieces[2] & side) + 500 * popcount(pieces[3] & side) + 900 * popcount(pieces[4] & side),
{
    reveal_with_fuel(material_of, 6);
}

/// the stronger a kind of piece, the more it is worth: pawn, knight, bishop,
/// rook, queen, each above the one before, and the king worth nothing
pub proof fn lemma_piece_values_ordered(a: Piece, b: Piece)
    requires
        a != Piece::King,
        b != Piece::King,
    ensures
        a.index() < b.index() ==> initial_value(a) < initial_value(b),
        initial_value(a) > 0,
        initial_value(Piece::King) == 0,
{
}

/// the value, at the start of the game, of the pieces a side has on the
/// board (pawns to queens); the sum has to fit in a [`Value`]
pub fn material_count_for_side(pos: &BoardState, color: Color) -> (r: Value)
    requires
        material_of(pos@.pieces, pos@.color_bb(color), 5) <= i16::MAX,
    ensures
        r.0 == material_of(pos@.pieces, pos@.color_bb(color), 5),
{
    let side = pos.color_combined(color);
    let mut value: i16 = 0;
    let mut idx: usize = 0;
    while idx < 5
        invariant
            idx <= 5,
            side == pos@.color_bb(color),
            value == material_of(pos@.pieces, side, idx as int),
            material_of(pos@.pieces, side, 5) <= i16::MAX,
        decreases 5 - idx,
    {
        let piece = Piece::from_index(idx);
        let bb = pos.pieces(piece) & side;
        let count = count_squares(bb);
        proof {
            lemma_material_of_monotone(pos@.pieces, side, idx as int, idx as int + 1);
            lemma_material_of_monotone(pos@.pieces, side, idx as int + 1, 5);
            lemma_popcount_bound(bb);
            assert(material_piece(idx as int) == piece);
        }
        let add = initial_values(piece).0 * (count as i16);
        value = value + add;
        idx = idx + 1;
    }
    Value(value)
}

/// the value, at the start of the game, of all pieces on the board (pawns
/// to queens, both sides); the sum has to fit in a [`Value`]
pub fn total_material(pos: &BoardState) -> (r: Value)
    requires
        material_of(pos@.pieces, u64::MAX, 5) <= i16::MAX,
    ensures
        r.0 == material_of(pos@.pieces, u64::MAX, 5),
{
    let mut value: i16 = 0;
    let mut idx: usize = 0;
    while idx < 5
        invariant
            idx <= 5,
            value == material_of(pos@.pieces, u64::MAX, idx as int),
            material_of(pos@.pieces, u64::MAX, 5) <= i16::MAX,
        decreases 5 - idx,
    {
        let piece = Piece::from_index(idx);
        let bb = pos.pieces(piece);
        let count = count_squares(bb);
        proof {
            lemma_material_of_monotone(pos@.pieces, u64::MAX, idx as int, idx as int + 1);
            lemma_material_of_monotone(pos@.pieces, u64::MAX, idx as int + 1, 5);
            lemma_popcount_bound(bb);
            assert(bb & u64::MAX == bb) by (bit_vector);
            assert(material_piece(idx as int) == piece);
        }
        let add = initial_values(piece).0 * (count as i16);
        value = value + add;
        idx = idx + 1;
    }
    Value(value)
}

/// bitboard of dark squares
pub const DARK_SQUARES: u64 = 0xAA55_AA55_AA55_AA55;

/// bitboard of light squares
pub const LIGHT_SQUARES: u64 = 0x55AA_55AA_55AA_55AA;

/// check how much are my bishops blocked by other pieces: each bishop counts
/// the pieces standing on squares of its own color.
pub fn bishop_penalty(pos: &BoardState, side: Color) -> (r: Value)
    ensures
        ({
            let bishops = pos@.piece_bb(Piece::Bishop) & pos@.color_bb(side);
            r.0 == popcount(pos@.occupied() & DARK_SQUARES) * popcount(bishops & DARK_SQUARES)
                + popcount(pos@.occupied() & LIGHT_SQUARES) * popcount(bishops & LIGHT_SQUARES)
        }),
{
    let bishop_squares = pos.pieces(Piece::Bishop) & pos.color_combined(side);
    let dark_bishops = bishop_squares & DARK_SQUARES;
    let light_bishops = bishop_squares & LIGHT_SQUARES;
    let a = count_squares(pos.combined() & DARK_SQUARES);
    let b = count_squares(dark_bishops);
    let c = count_squares(pos.combined() & LIGHT_SQUARES);
    let d = count_squares(light_bishops);
    proof {
        lemma_popcount_bound(pos@.occupied() & DARK_SQUARES);
        lemma_popcount_bound(dark_bishops);
        lemma_popcount_bound(pos@.occupied() & LIGHT_SQUARES);
        lemma_popcount_bound(light_bishops);
    }
    assert(a * b <= 64 * 64 && c * d <= 64 * 64) by (nonlinear_arith)
        requires
            a <= 64,
            b <= 64,
            c <= 64,
            d <= 64,
    ;
    let dark = a * b;
    let light = c * d;
    Value(dark as i16 + light as i16)
}

/// Converts a square to a pesto index: the row and column of the square in
/// a piece-square table, which is written from the side's far rank down, so
/// black's rows count from the first rank and white's from the eighth
pub fn sq_pi(sq: u8, color: Color) -> (r: (usize, usize))
    requires
        sq < 64,
    ensures
        r.0 == (if color == Color::Black {
            rank_of(sq as int)
        } else {
            7 - rank_of(sq as int)
        }),
        r.1 == file_of(sq as int),
        r.0 < 8,
        r.1 < 8,
{
    let rank = square_rank(sq) as usize;
    let file = square_file(sq) as usize;
    let rank = if color == Color::Black {
        rank
    } else {
        7 - rank
    };
    (rank, file)
}

} // verus!
