//! the form of a FEN string the engine reads: a board of eight ranks of
//! eight squares each, a side to move, and the two fields after it
use vstd::prelude::*;

verus! {

/// what a reading of a FEN string from the left has seen so far
#[derive(Clone, Copy)]
pub struct FenScan {
    /// the spaces seen, counted up to three
    pub spaces: u8,
    /// the slashes of the board field, counted up to eight
    pub slashes: u8,
    /// the squares the current rank covers so far, counted up to nine
    pub width: u8,
    /// every finished rank covers eight squares, and the board field holds
    /// nothing but piece letters, the digits 1 to 8 and slashes
    pub board_ok: bool,
    /// the board field places a white king
    pub white_king: bool,
    /// the board field places a black king
    pub black_king: bool,
    /// the side the side-to-move field names: 1 white, 2 black, 0 neither
    pub side: u8,
    /// the characters of the side-to-move field, counted up to two
    pub side_len: u8,
}

/// a letter that places a piece
pub open spec fn piece_letter(c: char) -> bool {
    c == 'p' || c == 'n' || c == 'b' || c == 'r' || c == 'q' || c == 'k' || c == 'P' || c == 'N' || c == 'B'
        || c == 'R' || c == 'Q' || c == 'K'
}

/// nothing read yet
pub open spec fn fen_start() -> FenScan {
    FenScan {
        spaces: 0,
        slashes: 0,
        width: 0,
        board_ok: true,
        white_king: false,
        black_king: false,
        side: 0,
        side_len: 0,
    }
}

/// `a + b`, counted up to `cap`
pub open spec fn capped(a: int, b: int, cap: u8) -> u8 {
    if a + b < cap {
        (a + b) as u8
    } else {
        cap
    }
}

/// one more character read
pub open spec fn fen_step(st: FenScan, c: char) -> FenScan {
    if st.spaces == 0 {
        if c == ' ' {
            FenScan { spaces: 1, board_ok: st.board_ok && st.width == 8, ..st }
        } else if c == '/' {
            FenScan { slashes: capped(st.slashes as int, 1, 8), width: 0, board_ok: st.board_ok && st.width == 8, ..st }
        } else if '1' <= c <= '8' {
            FenScan { width: capped(st.width as int, c as int - '0' as int, 9), ..st }
        } else if piece_letter(c) {
            FenScan {
                width: capped(st.width as int, 1, 9),
                white_king: st.white_king || c == 'K',
                black_king: st.black_king || c == 'k',
                ..st
            }
        } else {
            FenScan { board_ok: false, ..st }
        }
    } else if st.spaces == 1 {
        if c == ' ' {
            FenScan { spaces: 2, ..st }
        } else {
            FenScan {
                side_len: capped(st.side_len as int, 1, 2),
                side: if c == 'w' || c == 'W' {
                    1
                } else if c == 'b' || c == 'B' {
                    2
                } else {
                    0
                },
                ..st
            }
        }
    } else if c == ' ' {
        FenScan { spaces: capped(st.spaces as int, 1, 3), ..st }
    } else {
        st
    }
}

/// what reading all of `s` has seen
pub open spec fn fen_scan(s: Seq<char>) -> FenScan
    decreases s.len(),
{
    if s.len() == 0 {
        fen_start()
    } else {
        fen_step(fen_scan(s.drop_last()), s.last())
    }
}

/// a FEN string the engine hands to the chess crate: its board field has
/// eight ranks of eight squares, written with piece letters and the digits 1
/// to 8, then come a side to move of one letter (`w`, `W`, `b` or `B`) and
/// at least two more fields, and the side to move has a king on the board
pub open spec fn fen_readable(s: Seq<char>) -> bool {
    let st = fen_scan(s);
    &&& st.board_ok
    &&& st.slashes == 7
    &&& st.spaces >= 3
    &&& st.side_len == 1
    &&& (st.side == 1 && st.white_king || st.side == 2 && st.black_king)
}

/// read one more character
fn step(st: FenScan, c: char) -> (r: FenScan)
    ensures
        r == fen_step(st, c),
{
    if st.spaces == 0 {
        if c == ' ' {
            FenScan { spaces: 1, board_ok: st.board_ok && st.width == 8, ..st }
        } else if c == '/' {
            let slashes = if st.slashes < 7 { st.slashes + 1 } else { 8 };
            FenScan { slashes, width: 0, board_ok: st.board_ok && st.width == 8, ..st }
        } else if '1' <= c && c <= '8' {
            let d: u8 = (c as u32 - '0' as u32) as u8;
            let width = if (st.width as u32) + (d as u32) < 9 { st.width + d } else { 9 };
            FenScan { width, ..st }
        } else if c == 'p' || c == 'n' || c == 'b' || c == 'r' || c == 'q' || c == 'k' || c == 'P' || c == 'N'
            || c == 'B' || c == 'R' || c == 'Q' || c == 'K' {
            let width = if st.width < 8 { st.width + 1 } else { 9 };
            FenScan { width, white_king: st.white_king || c == 'K', black_king: st.black_king || c == 'k', ..st }
        } else {
            FenScan { board_ok: false, ..st }
        }
    } else if st.spaces == 1 {
        if c == ' ' {
            FenScan { spaces: 2, ..st }
        } else {
            let side_len = if st.side_len < 1 { st.side_len + 1 } else { 2 };
            let side: u8 = if c == 'w' || c == 'W' {
                1
            } else if c == 'b' || c == 'B' {
                2
            } else {
                0
            };
            FenScan { side_len, side, ..st }
        }
    } else if c == ' ' {
        let spaces = if st.spaces < 2 { st.spaces + 1 } else { 3 };
        FenScan { spaces, ..st }
    } else {
        st
    }
}

/// does `fen` have the form [`fen_readable`] describes?
pub fn is_readable_fen(fen: &str) -> (r: bool)
    ensures
        r == fen_readable(fen@),
{
    let len = fen.unicode_len();
    let mut st = FenScan {
        spaces: 0,
        slashes: 0,
        width: 0,
        board_ok: true,
        white_king: false,
        black_king: false,
        side: 0,
        side_len: 0,
    };
    let mut k: usize = 0;
    proof {
        assert(fen@.take(0) =~= Seq::<char>::empty());
    }
    while k < len
        invariant
            len == fen@.len(),
            k <= len,
            st == fen_scan(fen@.take(k as int)),
            st.spaces <= 3,
            st.slashes <= 8,
            st.width <= 9,
            st.side_len <= 2,
        decreases len - k,
    {
        let c = fen.get_char(k);
        proof {
            assert(fen@.take(k + 1).drop_last() =~= fen@.take(k as int));
        }
        st = step(st, c);
        k = k + 1;
    }
    proof {
        assert(fen@.take(len as int) =~= fen@);
    }
    st.board_ok && st.slashes == 7 && st.spaces >= 3 && st.side_len == 1 && (st.side == 1 && st.white_king
        || st.side == 2 && st.black_king)
}

} // verus!
