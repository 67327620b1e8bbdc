//! transposition table entries, packed into a single 64 bit word
use vstd::prelude::*;
use crate::bounds::EvalBound;
use crate::pieces::{Move, Piece, popcount, count_squares};
use crate::values::{Value, Depth};
use crate::search::MV;

verus! {

/// # A single transposition table entry.
/// ## Memory Layout of `value`, from the high bits down
/// * evaluation value: 16 bits
/// * depth: 16 bits
/// * source square: 8 bits
/// * destination square: 8 bits
/// * promotion: 3 bits
/// * bound: 2 bits
/// * is_pv: 1 bit
/// * 8 unused bits
/// * is_valid_entry: 1 bit
/// * 1 parity bit, which makes the number of set bits odd
#[derive(Debug, Clone, Copy, PartialEq, Eq, Structural)]
pub struct TableEntry {
    /// the full hash key of the position
    pub key: u64,
    /// the packed value of this entry
    pub value: u64,
}

/// the three bits that store a promotion: none, then knight, bishop, rook and
/// queen; a pawn or a king has no code and is stored as none
pub open spec fn promotion_code(p: Option<Piece>) -> u64 {
    match p {
        Some(Piece::Knight) => 1,
        Some(Piece::Bishop) => 2,
        Some(Piece::Rook) => 3,
        Some(Piece::Queen) => 4,
        _ => 0,
    }
}

/// the promotion stored in three bits; codes past the queen store none
pub open spec fn promotion_of_code(code: u64) -> Option<Piece> {
    if code == 1 {
        Some(Piece::Knight)
    } else if code == 2 {
        Some(Piece::Bishop)
    } else if code == 3 {
        Some(Piece::Rook)
    } else if code == 4 {
        Some(Piece::Queen)
    } else {
        None
    }
}

/// the promotions a table entry can hold: none, knight, bishop, rook, queen
pub open spec fn storable_promotion(p: Option<Piece>) -> bool {
    promotion_of_code(promotion_code(p)) == p
}

/// every field in its place, the valid bit set, the parity bit still clear
pub open spec fn packed_fields(
    eval: i16,
    depth: u16,
    source: u8,
    dest: u8,
    promotion: u64,
    bound: u64,
    is_pv: u64,
) -> u64 {
    ((eval as u64) << 48u64) | ((depth as u64) << 32u64) | ((source as u64) << 24u64) | ((
    dest as u64) << 16u64) | (promotion << 13u64) | (bound << 11u64) | (is_pv << 10u64) | 2u64
}

/// the parity bit that makes the number of set bits of `v | bit` odd
pub open spec fn parity_bit(v: u64) -> u64 {
    1u64 ^ ((popcount(v) % 2) as u64)
}

/// the word that [`TableEntry::pack`] stores
pub open spec fn packed_word(
    eval: Value,
    depth: Depth,
    mv: Move,
    bound: EvalBound,
    is_pv: bool,
) -> u64 {
    let v = packed_fields(
        eval.0,
        depth.0,
        mv.source,
        mv.dest,
        promotion_code(mv.promotion),
        bound.code(),
        if is_pv { 1 } else { 0 },
    );
    v | parity_bit(v)
}

proof fn lemma_fields_unpack(
    eval: i16,
    depth: u16,
    source: u8,
    dest: u8,
    promotion: u64,
    bound: u64,
    is_pv: u64,
    parity: u64,
)
    requires
        promotion < 8,
        bound < 4,
        is_pv < 2,
        parity < 2,
    ensures
        ({
            let v = packed_fields(eval, depth, source, dest, promotion, bound, is_pv) | parity;
            &&& (v >> 48u64) as i16 == eval
            &&& (v >> 32u64) as u16 == depth
            &&& (v >> 24u64) as u8 == source
            &&& (v >> 16u64) as u8 == dest
            &&& 7u64 & (v >> 13u64) == promotion
            &&& 3u64 & (v >> 11u64) == bound
            &&& (v >> 10u64) & 1u64 == is_pv
            &&& v & 2u64 == 2u64
            &&& v & 1u64 == parity
        }),
{
    assert({
        let v = (((eval as u64) << 48u64) | ((depth as u64) << 32u64) | ((source as u64) << 24u64)
            | ((dest as u64) << 16u64) | (promotion << 13u64) | (bound << 11u64) | (is_pv << 10u64)
            | 2u64) | parity;
        &&& (v >> 48u64) as i16 == eval
        &&& (v >> 32u64) as u16 == depth
        &&& (v >> 24u64) as u8 == source
        &&& (v >> 16u64) as u8 == dest
        &&& 7u64 & (v >> 13u64) == promotion
        &&& 3u64 & (v >> 11u64) == bound
        &&& (v >> 10u64) & 1u64 == is_pv
        &&& v & 2u64 == 2u64
        &&& v & 1u64 == parity
    }) by (bit_vector)
        requires
            promotion < 8,
            bound < 4,
            is_pv < 2,
            parity < 2,
    ;
}

/// setting the clear lowest bit adds one set bit
proof fn lemma_popcount_set_low_bit(v: u64)
    requires
        v & 1u64 == 0,
    ensures
        popcount(v | 1u64) == popcount(v) + 1,
{
    assert((v | 1u64) % 2 == 1 && (v | 1u64) / 2 == v / 2 && v % 2 == 0) by (bit_vector)
        requires
            v & 1u64 == 0,
    ;
    assert(v | 1u64 != 0) by (bit_vector);
    reveal_with_fuel(popcount, 2);
}

/// with its parity bit set, a word with a clear lowest bit has an odd number
/// of set bits
proof fn lemma_parity_odd(v: u64)
    requires
        v & 1u64 == 0,
    ensures
        popcount(v | parity_bit(v)) % 2 == 1,
        parity_bit(v) < 2,
{
    let p = (popcount(v) % 2) as u64;
    assert(p < 2);
    assert(p == 0 ==> 1u64 ^ p == 1u64) by (bit_vector);
    assert(p == 1 ==> 1u64 ^ p == 0u64) by (bit_vector);
    if popcount(v) % 2 == 0 {
        lemma_popcount_set_low_bit(v);
    } else {
        assert(v | 0u64 == v) by (bit_vector);
    }
}

impl TableEntry {
    /// the evaluation stored in the top 16 bits
    pub open spec fn spec_eval(self) -> Value {
        Value((self.value >> 48u64) as i16)
    }

    /// the depth stored below the evaluation
    pub open spec fn spec_depth(self) -> Depth {
        Depth((self.value >> 32u64) as u16)
    }

    /// the move stored below the depth
    pub open spec fn spec_mv(self) -> Move {
        Move {
            source: (self.value >> 24u64) as u8,
            dest: (self.value >> 16u64) as u8,
            promotion: promotion_of_code(7u64 & (self.value >> 13u64)),
        }
    }

    /// the two bits that store the bound
    pub open spec fn bound_code(self) -> u64 {
        3u64 & (self.value >> 11u64)
    }

    /// the principal variation bit
    pub open spec fn spec_is_pv(self) -> bool {
        (self.value >> 10u64) & 1u64 == 1u64
    }

    /// the valid bit is set and the number of set bits is odd
    pub open spec fn spec_is_valid(self) -> bool {
        self.value & 2u64 == 2u64 && popcount(self.value) % 2 == 1
    }

    /// pack a new entry with the given values
    pub fn pack(key: u64, eval: Value, depth: Depth, mv: Move, bound: EvalBound, is_pv: bool) -> (r: TableEntry)
        ensures
            r.key == key,
            r.value == packed_word(eval, depth, mv, bound, is_pv),
    {
        let promotion: u64 = match mv.promotion {
            Some(Piece::Knight) => 1,
            Some(Piece::Bishop) => 2,
            Some(Piece::Rook) => 3,
            Some(Piece::Queen) => 4,
            _ => 0,
        };
        let pv: u64 = if is_pv { 1 } else { 0 };
        let (e, d, src, dst, b) = (eval.0, depth.0, mv.source, mv.dest, bound.to_code());
        // since we just created this entry, it is valid (unlike the empty ones
        // initially in the table), hence the final `2`
        let mut value: u64 = ((e as u64) << 48u64) | ((d as u64) << 32u64) | ((src as u64) << 24u64)
            | ((dst as u64) << 16u64) | (promotion << 13u64) | (b << 11u64) | (pv << 10u64) | 2u64;
        // parity bit, set to 1 if the number of bits set in the value is even
        let ones = count_squares(value);
        let parity = 1u64 ^ ((ones & 1u32) as u64);
        assert(parity == parity_bit(value)) by {
            assert(ones & 1u32 == ones % 2) by (bit_vector);
        }
        value = value | parity;
        TableEntry { key, value }
    }

    /// an entry that holds nothing
    pub fn new_empty() -> (r: TableEntry)
        ensures
            r.key == 0,
            r.value == 0,
            !r.spec_is_valid(),
    {
        assert(0u64 & 2u64 == 0u64) by (bit_vector);
        TableEntry { key: 0, value: 0 }
    }

    /// get the depth of this entry's value
    pub fn depth(&self) -> (r: Depth)
        ensures
            r == self.spec_depth(),
    {
        Depth((self.value >> 32u64) as u16)
    }

    /// get the evaluation value from this entry
    pub fn eval(&self) -> (r: Value)
        ensures
            r == self.spec_eval(),
    {
        Value((self.value >> 48u64) as i16)
    }

    /// the move stored in this entry, with the evaluation stored next to it
    pub fn mv_struct(&self) -> (r: MV)
        ensures
            r == MV(self.spec_mv(), self.spec_eval()),
    {
        MV(self.mv(), self.eval())
    }

    /// get the move stored in this entry
    pub fn mv(&self) -> (r: Move)
        ensures
            r == self.spec_mv(),
    {
        let code = 7u64 & (self.value >> 13u64);
        let promotion = if code == 1 {
            Some(Piece::Knight)
        } else if code == 2 {
            Some(Piece::Bishop)
        } else if code == 3 {
            Some(Piece::Rook)
        } else if code == 4 {
            Some(Piece::Queen)
        } else {
            None
        };
        Move { source: (self.value >> 24u64) as u8, dest: (self.value >> 16u64) as u8, promotion }
    }

    /// get the [`EvalBound`] for this entry; the code 3 stores no bound
    pub fn bound(&self) -> (r: EvalBound)
        requires
            self.bound_code() != 3,
        ensures
            r == EvalBound::from_code(self.bound_code()),
            r.code() == self.bound_code(),
    {
        let v = self.value;
        let code = 3u64 & (v >> 11u64);
        assert(3u64 & (v >> 11u64) < 4) by (bit_vector);
        if code == 0 {
            EvalBound::Exact
        } else if code == 1 {
            EvalBound::LowerBound
        } else {
            EvalBound::UpperBound
        }
    }

    /// check if the entry is in the principal variation
    pub fn is_pv(&self) -> (r: bool)
        ensures
            r == self.spec_is_pv(),
    {
        (self.value >> 10u64) & 1u64 == 1u64
    }

    /// check if the entry is valid using the 'valid' bit and the parity bit
    pub fn is_valid_entry(&self) -> (r: bool)
        ensures
            r == self.spec_is_valid(),
    {
        let val = self.value;
        let ones = count_squares(val);
        assert(ones & 1u32 == ones % 2) by (bit_vector);
        (val & 2u64) == 2u64 && ones & 1u32 == 1u32
    }

    /// the full hash key of the position
    pub fn key(&self) -> (r: u64)
        ensures
            r == self.key,
    {
        self.key
    }
}

/// what [`TableEntry::pack`] stores, its getters give back: the evaluation,
/// the depth, the move (a promotion to a pawn or a king reads back as none),
/// the bound and the principal variation flag. The entry is valid.
pub proof fn lemma_pack_unpack(key: u64, eval: Value, depth: Depth, mv: Move, bound: EvalBound, is_pv: bool)
    ensures
        ({
            let e = TableEntry { key, value: packed_word(eval, depth, mv, bound, is_pv) };
            &&& e.spec_eval() == eval
            &&& e.spec_depth() == depth
            &&& e.spec_mv().source == mv.source
            &&& e.spec_mv().dest == mv.dest
            &&& e.spec_mv().promotion == promotion_of_code(promotion_code(mv.promotion))
            &&& (storable_promotion(mv.promotion) ==> e.spec_mv() == mv)
            &&& e.bound_code() == bound.code()
            &&& e.bound_code() != 3
            &&& EvalBound::from_code(e.bound_code()) == bound
            &&& e.spec_is_pv() == is_pv
            &&& e.spec_is_valid()
        }),
{
    let pv: u64 = if is_pv { 1 } else { 0 };
    let v = packed_fields(eval.0, depth.0, mv.source, mv.dest, promotion_code(mv.promotion), bound.code(), pv);
    lemma_fields_unpack(eval.0, depth.0, mv.source, mv.dest, promotion_code(mv.promotion), bound.code(), pv, 0);
    assert(v | 0u64 == v) by (bit_vector);
    lemma_parity_odd(v);
    lemma_fields_unpack(eval.0, depth.0, mv.source, mv.dest, promotion_code(mv.promotion), bound.code(), pv, parity_bit(v));
}


/// a word has its lowest bit and the set bits of the word shifted down by one
proof fn lemma_popcount_step(x: u64)
    ensures
        popcount(x) == x % 2 + popcount(x / 2),
{
    if x == 0 {
        assert(0u64 / 2 == 0u64);
    }
}

/// flipping one bit of a word changes whether it has an odd number of set
/// bits
proof fn lemma_flip_changes_parity(v: u64, k: u64)
    requires
        k < 64,
    ensures
        popcount(v ^ (1u64 << k)) % 2 != popcount(v) % 2,
    decreases k,
{
    let x = v ^ (1u64 << k);
    lemma_popcount_step(x);
    lemma_popcount_step(v);
    if k == 0 {
        assert(x == v ^ 1u64) by (bit_vector)
            requires
                x == v ^ (1u64 << k),
                k == 0,
        ;
        assert((v ^ 1u64) % 2 != v % 2 && (v ^ 1u64) / 2 == v / 2) by (bit_vector);
    } else {
        assert(x % 2 == v % 2 && x / 2 == (v / 2) ^ (1u64 << ((k - 1) as u64))) by (bit_vector)
            requires
                x == v ^ (1u64 << k),
                0 < k < 64,
        ;
        lemma_flip_changes_parity(v / 2, (k - 1) as u64);
    }
}

/// a valid entry with any one bit of its value flipped is no longer valid:
/// the valid bit is cleared, or the number of set bits turns even
pub proof fn lemma_flipped_bit_invalid(e: TableEntry, k: u64)
    requires
        e.spec_is_valid(),
        k < 64,
    ensures
        !(TableEntry { key: e.key, value: e.value ^ (1u64 << k) }).spec_is_valid(),
{
    let v = e.value;
    if k == 1 {
        assert((v ^ (1u64 << k)) & 2u64 == 0u64) by (bit_vector)
            requires
                v & 2u64 == 2u64,
                k == 1,
        ;
    } else {
        lemma_flip_changes_parity(v, k);
    }
}

} // verus!
