//! text pictures of boards and bitboards
use vstd::prelude::*;
use crate::pieces::{Move, rank_of, file_of, square_rank, square_file};

verus! {

/// how one square of a bitboard is drawn: `#` where the bit is set
pub open spec fn square_mark(bb: u64, square: int) -> Seq<char> {
    if (bb >> (square as u64)) & 1u64 == 1u64 {
        " #"@
    } else {
        " ."@
    }
}

/// the first `n` squares of a row of the picture, from the a-file on
pub open spec fn row_marks(bb: u64, row: int, n: nat) -> Seq<char>
    decreases n,
{
    if n == 0 {
        Seq::empty()
    } else {
        row_marks(bb, row, (n - 1) as nat) + square_mark(bb, row * 8 + n - 1)
    }
}

/// the label of the `row`-th row of the picture: rank 8 for the first
pub open spec fn rank_label(row: int) -> Seq<char> {
    seq![(56 - row) as char]
}

/// the first `k` rows of the picture, each a rank label, its squares and a
/// line break
pub open spec fn picture_rows(bb: u64, k: nat) -> Seq<char>
    decreases k,
{
    if k == 0 {
        Seq::empty()
    } else {
        picture_rows(bb, (k - 1) as nat) + rank_label(k - 1) + row_marks(bb, k - 1, 8) + "\n"@
    }
}

/// the picture of a bitboard: eight labelled rows, then the file letters
pub open spec fn bitboard_picture(bb: u64) -> Seq<char> {
    picture_rows(bb, 8) + "+ a b c d e f g h"@
}

/// the label of a row of the picture, as text
fn rank_text(row: u64) -> (r: &'static str)
    requires
        row < 8,
    ensures
        r@ == rank_label(row as int),
{
    let r = match row {
        0 => "8",
        1 => "7",
        2 => "6",
        3 => "5",
        4 => "4",
        5 => "3",
        6 => "2",
        _ => "1",
    };
    proof {
        reveal_strlit("8");
        reveal_strlit("7");
        reveal_strlit("6");
        reveal_strlit("5");
        reveal_strlit("4");
        reveal_strlit("3");
        reveal_strlit("2");
        reveal_strlit("1");
        assert(r@ =~= rank_label(row as int));
    }
    r
}

/// convert a bitboard (u64) to a FEN string, displaying 1s as # and
/// 0s as empty squares.
pub fn bitboard_to_fen(bb: u64) -> (r: String)
    ensures
        r@ == bitboard_picture(bb),
{
    let mut r = String::new();
    let mut row: u64 = 0;
    while row < 8
        invariant
            row <= 8,
            r@ == picture_rows(bb, row as nat),
        decreases 8 - row,
    {
        r.append(rank_text(row));
        let ghost before = r@;
        let mut col: u64 = 0;
        while col < 8
            invariant
                row < 8,
                col <= 8,
                r@ == before + row_marks(bb, row as int, col as nat),
            decreases 8 - col,
        {
            let square = row * 8 + col;
            if (bb >> square) & 1 == 1 {
                r.append(" #");
            } else {
                r.append(" .");
            }
            assert(r@ =~= before + row_marks(bb, row as int, (col + 1) as nat));
            col = col + 1;
        }
        r.append("\n");
        assert(r@ =~= picture_rows(bb, (row + 1) as nat));
        row = row + 1;
    }
    r.append("+ a b c d e f g h");
    r
}

/// whether a character is numeric, as `char::is_numeric` tells it: of one
/// of Unicode's number categories, which hold the ASCII digits
pub uninterp spec fn numeric_char(c: char) -> bool;

/// is `c` numeric? through `char::is_numeric`, which is true of the ASCII
/// digits among others; what it says of other characters is left to its
/// Unicode tables
#[verifier::external_body]
fn char_is_numeric(c: char) -> (r: bool)
    ensures
        r == numeric_char(c),
        '0' <= c <= '9' ==> r,
{
    c.is_numeric()
}

/// add a character to the end of a string, through `String::push`
#[verifier::external_body]
fn push_char(s: &mut String, c: char)
    ensures
        final(s)@ == old(s)@.push(c),
{
    s.push(c)
}

/// the rows of a FEN board, as `str::split` with `/` cuts them: the text
/// between slashes, an empty row where two follow each other
pub open spec fn split_slash(s: Seq<char>) -> Seq<Seq<char>>
    decreases s.len(),
{
    if s.len() == 0 {
        seq![Seq::empty()]
    } else {
        let rows = split_slash(s.drop_last());
        if s.last() == '/' {
            rows.push(Seq::empty())
        } else {
            rows.update(rows.len() - 1, rows.last().push(s.last()))
        }
    }
}

/// the text before the first space
pub open spec fn first_word(s: Seq<char>) -> Seq<char>
    decreases s.len(),
{
    if s.len() == 0 || s[0] == ' ' {
        Seq::empty()
    } else {
        seq![s[0]] + first_word(s.drop_first())
    }
}

/// the rows of a FEN that are drawn: its board rows, the eighth cut at its
/// first space, where the side to move and the other fields begin
pub open spec fn shown_rows(fen: Seq<char>) -> Seq<Seq<char>> {
    shown_of(split_slash(fen))
}

/// rows as they are drawn: the eighth cut at its first space
pub open spec fn shown_of(rows: Seq<Seq<char>>) -> Seq<Seq<char>> {
    if rows.len() > 7 {
        rows.update(7, first_word(rows[7]))
    } else {
        rows
    }
}

/// every numeric character of the rows is an ASCII digit
pub open spec fn digits_only(rows: Seq<Seq<char>>) -> bool {
    forall|i: int, j: int|
        0 <= i < rows.len() && 0 <= j < rows[i].len() && numeric_char(#[trigger] rows[i][j]) ==> '0' <= rows[i][j]
            <= '9'
}

/// can the FEN be drawn? eight or nine rows, as `8 - row` is no label past
/// the ninth, and no numeric character but the digits, which are the only
/// ones that count empty squares
pub open spec fn fen_printable(fen: Seq<char>) -> bool {
    &&& 8 <= shown_rows(fen).len() <= 9
    &&& digits_only(shown_rows(fen))
}

/// the picture of a piece letter, black's filled and white's outlined; any
/// other character stands for itself
pub open spec fn glyph(c: char) -> char {
    if c == 'p' {
        '\u{265F}'
    } else if c == 'P' {
        '\u{2659}'
    } else if c == 'r' {
        '\u{265C}'
    } else if c == 'R' {
        '\u{2656}'
    } else if c == 'n' {
        '\u{265E}'
    } else if c == 'N' {
        '\u{2658}'
    } else if c == 'b' {
        '\u{265D}'
    } else if c == 'B' {
        '\u{2657}'
    } else if c == 'k' {
        '\u{265A}'
    } else if c == 'K' {
        '\u{2654}'
    } else if c == 'q' {
        '\u{265B}'
    } else if c == 'Q' {
        '\u{2655}'
    } else {
        c
    }
}

/// `n` empty squares
pub open spec fn empty_squares(n: nat) -> Seq<char>
    decreases n,
{
    if n == 0 {
        Seq::empty()
    } else {
        empty_squares((n - 1) as nat) + " . "@
    }
}

/// how one character of a row is drawn: a digit as that many empty squares,
/// anything else as its picture between spaces
pub open spec fn cell(c: char) -> Seq<char> {
    if '0' <= c <= '9' {
        empty_squares((c as int - '0' as int) as nat)
    } else {
        seq![' ', glyph(c), ' ']
    }
}

/// how a row is drawn, character after character
pub open spec fn row_picture(row: Seq<char>) -> Seq<char>
    decreases row.len(),
{
    if row.len() == 0 {
        Seq::empty()
    } else {
        row_picture(row.drop_last()) + cell(row.last())
    }
}

/// the first `k` rows drawn, each after its label and ended by a line break
pub open spec fn rows_picture(rows: Seq<Seq<char>>, k: nat) -> Seq<char>
    decreases k,
{
    if k == 0 {
        Seq::empty()
    } else {
        rows_picture(rows, (k - 1) as nat) + rank_label(k - 1) + row_picture(rows[k - 1]) + "\n"@
    }
}

/// the picture of a FEN: its rows, then the file letters
pub open spec fn fen_picture(fen: Seq<char>) -> Seq<char> {
    rows_picture(shown_rows(fen), shown_rows(fen).len()) + "+ a  b  c  d  e  f  g  h"@
}

proof fn lemma_split_slash_len(s: Seq<char>)
    ensures
        split_slash(s).len() >= 1,
    decreases s.len(),
{
    if s.len() > 0 {
        lemma_split_slash_len(s.drop_last());
    }
}

proof fn lemma_split_slash_push(s: Seq<char>, c: char)
    ensures
        split_slash(s.push(c)) == (if c == '/' {
            split_slash(s).push(Seq::empty())
        } else {
            split_slash(s).update(split_slash(s).len() - 1, split_slash(s).last().push(c))
        }),
{
    assert(s.push(c).drop_last() =~= s);
}

proof fn lemma_first_word_push(s: Seq<char>, c: char)
    ensures
        s.contains(' ') ==> first_word(s.push(c)) == first_word(s),
        !s.contains(' ') ==> first_word(s) == s,
        !s.contains(' ') && c == ' ' ==> first_word(s.push(c)) == s,
        !s.contains(' ') && c != ' ' ==> first_word(s.push(c)) == s.push(c),
    decreases s.len(),
{
    if s.len() > 0 {
        let t = s.drop_first();
        lemma_first_word_push(t, c);
        assert(s.push(c).drop_first() =~= t.push(c));
        if s[0] != ' ' {
            assert(s.contains(' ') ==> t.contains(' ')) by {
                if s.contains(' ') {
                    let i = choose|i: int| 0 <= i < s.len() && s[i] == ' ';
                    assert(t[i - 1] == ' ');
                }
            }
            assert(t.contains(' ') ==> s.contains(' ')) by {
                if t.contains(' ') {
                    let i = choose|i: int| 0 <= i < t.len() && t[i] == ' ';
                    assert(s[i + 1] == ' ');
                }
            }
            assert(!s.contains(' ') ==> seq![s[0]] + t == s) by {
                assert(seq![s[0]] + t =~= s);
            }
            assert(!s.contains(' ') && c != ' ' ==> seq![s[0]] + t.push(c) == s.push(c)) by {
                assert(seq![s[0]] + t.push(c) =~= s.push(c));
            }
        } else {
            assert(s.contains(' ')) by {
                assert(s[0] == ' ');
            }
        }
    } else {
        assert(s.push(c) =~= seq![c]);
        assert(seq![c].drop_first() =~= Seq::<char>::empty());
        if c != ' ' {
            assert(seq![c] + first_word(Seq::<char>::empty()) =~= seq![c]);
        }
    }
}

proof fn lemma_rows_picture_prefix(a: Seq<Seq<char>>, b: Seq<Seq<char>>, k: nat)
    requires
        k <= a.len(),
        k <= b.len(),
        forall|i: int| 0 <= i < k ==> a[i] == b[i],
    ensures
        rows_picture(a, k) == rows_picture(b, k),
    decreases k,
{
    if k > 0 {
        lemma_rows_picture_prefix(a, b, (k - 1) as nat);
    }
}

/// the picture drawn from the start of a FEN, up to the end of its last row
pub open spec fn partial_picture(p: Seq<char>) -> Seq<char> {
    let sh = shown_of(split_slash(p));
    let n = sh.len();
    rows_picture(sh, (n - 1) as nat) + rank_label(n - 1) + row_picture(sh[n - 1])
}

/// one more character of a FEN: a slash starts a new row; a space in the
/// eighth row ends what is drawn of it; any other character is drawn at the
/// end of the last row
proof fn lemma_picture_step(p: Seq<char>, c: char)
    ensures
        ({
            let rows = split_slash(p);
            let n = rows.len();
            let rows2 = split_slash(p.push(c));
            let sh = shown_of(rows);
            let sh2 = shown_of(rows2);
            let cut = n == 8 && (rows[7].contains(' ') || c == ' ');
            &&& n >= 1
            &&& sh.len() == n
            &&& sh2.len() == rows2.len()
            &&& (rows2.len() == 8 && rows2[7].contains(' ')) == (c != '/' && cut)
            &&& c == '/' ==> {
                &&& rows2.len() == n + 1
                &&& digits_only(sh2) == digits_only(sh)
                &&& partial_picture(p.push(c)) == partial_picture(p) + "\n"@ + rank_label(n as int)
            }
            &&& (c != '/' && cut) ==> sh2 == sh && rows2.len() == n
            &&& (c != '/' && !cut) ==> {
                &&& rows2.len() == n
                &&& digits_only(sh2) == (digits_only(sh) && (numeric_char(c) ==> '0' <= c <= '9'))
                &&& partial_picture(p.push(c)) == partial_picture(p) + cell(c)
            }
        }),
{
    let rows = split_slash(p);
    let n = rows.len();
    let rows2 = split_slash(p.push(c));
    let sh = shown_of(rows);
    let sh2 = shown_of(rows2);
    lemma_split_slash_len(p);
    lemma_split_slash_push(p, c);
    let cut = n == 8 && (rows[7].contains(' ') || c == ' ');
    if c == '/' {
        assert(rows2 == rows.push(Seq::empty()));
        assert(!rows2[n as int].contains(' '));
        assert forall|i: int| 0 <= i < n implies sh2[i] == sh[i] by {}
        assert(sh2[n as int] == Seq::<char>::empty()) by {
            if n == 7 {
                assert(first_word(Seq::<char>::empty()) == Seq::<char>::empty());
            }
        }
        assert(digits_only(sh2) == digits_only(sh)) by {
            if digits_only(sh) {
                assert forall|i: int, j: int|
                    0 <= i < sh2.len() && 0 <= j < sh2[i].len() && numeric_char(#[trigger] sh2[i][j]) implies '0'
                    <= sh2[i][j] <= '9' by {
                    assert(sh2[i] == sh[i]);
                }
            }
            if digits_only(sh2) {
                assert forall|i: int, j: int|
                    0 <= i < sh.len() && 0 <= j < sh[i].len() && numeric_char(#[trigger] sh[i][j]) implies '0'
                    <= sh[i][j] <= '9' by {
                    assert(sh2[i] == sh[i]);
                    assert(sh2[i][j] == sh[i][j]);
                }
            }
        }
        lemma_rows_picture_prefix(sh, sh2, (n - 1) as nat);
        assert(row_picture(Seq::<char>::empty()) == Seq::<char>::empty());
        assert(partial_picture(p.push(c)) =~= partial_picture(p) + "\n"@ + rank_label(n as int));
    } else {
        let last = rows[n - 1];
        assert(rows2 == rows.update(n - 1, last.push(c)));
        if n - 1 == 7 {
            lemma_first_word_push(last, c);
        }
        assert(n - 1 == 7 ==> (rows2[7].contains(' ') <==> (rows[7].contains(' ') || c == ' '))) by {
            if n - 1 == 7 {
                if rows[7].contains(' ') {
                    let i = choose|i: int| 0 <= i < rows[7].len() && rows[7][i] == ' ';
                    assert(rows2[7][i] == ' ');
                }
                if c == ' ' {
                    assert(rows2[7][rows[7].len() as int] == ' ');
                }
                if rows2[7].contains(' ') {
                    let i = choose|i: int| 0 <= i < rows2[7].len() && rows2[7][i] == ' ';
                    if i < rows[7].len() {
                        assert(rows[7][i] == ' ');
                    }
                }
            }
        }
        assert forall|i: int| 0 <= i < n - 1 implies sh2[i] == sh[i] by {}
        if cut {
            assert(sh2 =~= sh);
        } else {
            let before = sh[n - 1];
            assert(sh2[n - 1] == before.push(c));
            assert(sh2 == sh.update(n - 1, before.push(c)));
            assert(digits_only(sh2) == (digits_only(sh) && (numeric_char(c) ==> '0' <= c <= '9'))) by {
                assert(sh2[n - 1][before.len() as int] == c);
                if digits_only(sh) && (numeric_char(c) ==> '0' <= c <= '9') {
                    assert forall|i: int, j: int|
                        0 <= i < sh2.len() && 0 <= j < sh2[i].len() && numeric_char(#[trigger] sh2[i][j]) implies '0'
                        <= sh2[i][j] <= '9' by {
                        if i == n - 1 && j < before.len() {
                            assert(sh2[i][j] == sh[i][j]);
                        }
                    }
                }
                if digits_only(sh2) {
                    assert forall|i: int, j: int|
                        0 <= i < sh.len() && 0 <= j < sh[i].len() && numeric_char(#[trigger] sh[i][j]) implies '0'
                        <= sh[i][j] <= '9' by {
                        assert(sh2[i][j] == sh[i][j]);
                    }
                }
            }
            lemma_rows_picture_prefix(sh, sh2, (n - 1) as nat);
            assert(before.push(c).drop_last() =~= before);
            assert(partial_picture(p.push(c)) =~= partial_picture(p) + cell(c));
        }
    }
}

/// the picture of a piece letter
fn glyph_of(c: char) -> (r: char)
    ensures
        r == glyph(c),
{
    if c == 'p' {
        '\u{265F}'
    } else if c == 'P' {
        '\u{2659}'
    } else if c == 'r' {
        '\u{265C}'
    } else if c == 'R' {
        '\u{2656}'
    } else if c == 'n' {
        '\u{265E}'
    } else if c == 'N' {
        '\u{2658}'
    } else if c == 'b' {
        '\u{265D}'
    } else if c == 'B' {
        '\u{2657}'
    } else if c == 'k' {
        '\u{265A}'
    } else if c == 'K' {
        '\u{2654}'
    } else if c == 'q' {
        '\u{265B}'
    } else if c == 'Q' {
        '\u{2655}'
    } else {
        c
    }
}

/// draw one character of a row
fn push_cell(out: &mut String, c: char)
    ensures
        final(out)@ == old(out)@ + cell(c),
{
    if '0' <= c && c <= '9' {
        let n: u32 = (c as u32) - ('0' as u32);
        let mut i: u32 = 0;
        while i < n
            invariant
                i <= n,
                n == c as int - '0' as int,
                out@ == old(out)@ + empty_squares(i as nat),
            decreases n - i,
        {
            out.append(" . ");
            i = i + 1;
        }
    } else {
        push_char(out, ' ');
        push_char(out, glyph_of(c));
        push_char(out, ' ');
        assert(out@ =~= old(out)@ + cell(c));
    }
}

/// the label of a row of a FEN picture, where there are at most nine
fn push_label(out: &mut String, row: usize)
    requires
        row <= 8,
    ensures
        final(out)@ == old(out)@ + rank_label(row as int),
{
    let c = match row {
        0 => '8',
        1 => '7',
        2 => '6',
        3 => '5',
        4 => '4',
        5 => '3',
        6 => '2',
        7 => '1',
        _ => '0',
    };
    push_char(out, c);
    assert(out@ =~= old(out)@ + rank_label(row as int));
}

/// Convert a FEN string to a visual representation of the board, where it
/// can be drawn: eight or nine rows, with no numeric character in them but
/// the digits. `None` where it cannot.
pub fn fen_to_str_checked(fen: &str) -> (r: Option<String>)
    ensures
        r is Some <==> fen_printable(fen@),
        r matches Some(s) ==> s@ == fen_picture(fen@),
{
    let len = fen.unicode_len();
    let mut out = String::new();
    push_label(&mut out, 0);
    let mut rows: usize = 1;
    let mut ok = true;
    let mut cut = false;
    let mut k: usize = 0;
    proof {
        assert(fen@.take(0) =~= Seq::<char>::empty());
        let sh = shown_of(split_slash(Seq::<char>::empty()));
        assert(sh =~= seq![Seq::<char>::empty()]);
        assert(row_picture(Seq::<char>::empty()) == Seq::<char>::empty());
        assert(out@ =~= partial_picture(fen@.take(0)));
    }
    while k < len
        invariant
            len == fen@.len(),
            k <= len,
            rows == (if split_slash(fen@.take(k as int)).len() < 10 {
                split_slash(fen@.take(k as int)).len()
            } else {
                10
            }),
            cut == (split_slash(fen@.take(k as int)).len() == 8 && split_slash(fen@.take(k as int))[7].contains(' ')),
            ok == (split_slash(fen@.take(k as int)).len() <= 9 && digits_only(shown_of(split_slash(fen@.take(k as int))))),
            ok ==> out@ == partial_picture(fen@.take(k as int)),
        decreases len - k,
    {
        let c = fen.get_char(k);
        proof {
            lemma_picture_step(fen@.take(k as int), c);
            assert(fen@.take(k as int + 1) =~= fen@.take(k as int).push(c));
        }
        if c == '/' {
            if ok {
                if rows >= 9 {
                    ok = false;
                } else {
                    out.append("\n");
                    push_label(&mut out, rows);
                }
            }
            if rows < 10 {
                rows = rows + 1;
            }
            cut = false;
        } else if rows == 8 && (cut || c == ' ') {
            cut = true;
        } else if ok {
            if char_is_numeric(c) && !('0' <= c && c <= '9') {
                ok = false;
            } else {
                push_cell(&mut out, c);
            }
        }
        k = k + 1;
    }
    proof {
        assert(fen@.take(len as int) =~= fen@);
    }
    if ok && rows >= 8 {
        out.append("\n");
        out.append("+ a  b  c  d  e  f  g  h");
        Some(out)
    } else {
        None
    }
}

/// Convert a FEN string to a visual representation of the board
pub fn fen_to_str(fen: String) -> (r: String)
    requires
        fen_printable(fen@),
    ensures
        r@ == fen_picture(fen@),
{
    fen_to_str_checked(fen.as_str()).unwrap()
}

/// the colour a move is highlighted in: red for a capture, blue for a pawn
/// move, light blue for any other
pub open spec fn highlight(capture: bool, pawn_move: bool) -> Seq<char> {
    if capture {
        "\x1b[1;31m"@
    } else if pawn_move {
        "\x1b[1;34m"@
    } else {
        "\x1b[1;94m"@
    }
}

/// the end of a highlight
pub open spec fn reset_colour() -> Seq<char> {
    "\x1b[0m"@
}

/// is `sq` the square in `row` (rank, 0 for the first) and `col` (file)?
pub open spec fn on_square(sq: u8, row: int, col: int) -> bool {
    rank_of(sq as int) == row && file_of(sq as int) == col
}

/// a square's text, highlighted where the move starts or ends there: the
/// colour once for each of its ends on the square, the reset after it
pub open spec fn marked(text: Seq<char>, row: int, col: int, m: Move, colour: Seq<char>) -> Seq<char> {
    let to = on_square(m.dest, row, col);
    let from = on_square(m.source, row, col);
    (if to { colour } else { Seq::empty() }) + (if from { colour } else { Seq::empty() }) + text + (if to || from {
        reset_colour()
    } else {
        Seq::empty()
    })
}

/// how many squares a row of a FEN covers: a digit its value, any other
/// character one
pub open spec fn row_width(s: Seq<char>) -> int
    decreases s.len(),
{
    if s.len() == 0 {
        0
    } else {
        row_width(s.drop_last()) + if '0' <= s.last() <= '9' {
            s.last() as int - '0' as int
        } else {
            1
        }
    }
}

/// `n` empty squares from `col` on, each highlighted where the move touches
/// it
pub open spec fn marked_empties(row: int, col: int, n: nat, m: Move, colour: Seq<char>) -> Seq<char>
    decreases n,
{
    if n == 0 {
        Seq::empty()
    } else {
        marked_empties(row, col, (n - 1) as nat, m, colour) + marked(" . "@, row, col + n - 1, m, colour)
    }
}

/// how a row of a FEN is drawn with the move highlighted
pub open spec fn marked_row(s: Seq<char>, row: int, m: Move, colour: Seq<char>) -> Seq<char>
    decreases s.len(),
{
    if s.len() == 0 {
        Seq::empty()
    } else {
        let c = s.last();
        let col = row_width(s.drop_last());
        marked_row(s.drop_last(), row, m, colour) + if '0' <= c <= '9' {
            marked_empties(row, col, (c as int - '0' as int) as nat, m, colour)
        } else {
            marked(seq![' ', glyph(c), ' '], row, col, m, colour)
        }
    }
}

/// the first `k` rows of a FEN board drawn with the move highlighted, each
/// after its label, on lines of their own
pub open spec fn marked_rows(rows: Seq<Seq<char>>, k: nat, m: Move, colour: Seq<char>) -> Seq<char>
    decreases k,
{
    if k == 0 {
        Seq::empty()
    } else {
        marked_rows(rows, (k - 1) as nat, m, colour) + (if k > 1 { "\n"@ } else { Seq::empty() }) + rank_label(k - 1)
            + marked_row(rows[k - 1], 8 - k, m, colour)
    }
}

/// the rows of the board of a full FEN: those of its first field
pub open spec fn board_rows(full_fen: Seq<char>) -> Seq<Seq<char>> {
    split_slash(first_word(full_fen))
}

/// can the board of the FEN be drawn with a highlight? at most eight rows,
/// as the row count would pass below the first rank, and no numeric
/// character in them but the digits
pub open spec fn highlight_printable(full_fen: Seq<char>) -> bool {
    &&& board_rows(full_fen).len() <= 8
    &&& digits_only(board_rows(full_fen))
}

/// the picture of a FEN's board with a move highlighted, then the file
/// letters
pub open spec fn highlighted_picture(full_fen: Seq<char>, m: Move, capture: bool, pawn_move: bool) -> Seq<char> {
    let rows = board_rows(full_fen);
    marked_rows(rows, rows.len(), m, highlight(capture, pawn_move)) + "\n+ a  b  c  d  e  f  g  h"@
}

/// the highlighted picture drawn from the start of a board, up to the end of
/// its last row
pub open spec fn partial_marked(p: Seq<char>, m: Move, colour: Seq<char>) -> Seq<char> {
    let rows = split_slash(p);
    marked_rows(rows, rows.len(), m, colour)
}

proof fn lemma_first_word_prefix(s: Seq<char>, k: int)
    requires
        0 <= k <= s.len(),
        forall|i: int| 0 <= i < k ==> s[i] != ' ',
        k == s.len() || s[k] == ' ',
    ensures
        first_word(s) == s.take(k),
    decreases s.len(),
{
    if k > 0 {
        lemma_first_word_prefix(s.drop_first(), k - 1);
        assert(seq![s[0]] + s.drop_first().take(k - 1) =~= s.take(k));
    } else {
        assert(s.take(0) =~= Seq::<char>::empty());
    }
}

/// one more character of a board: a slash starts a new row, any other
/// character is drawn at the end of the last row
proof fn lemma_marked_step(p: Seq<char>, c: char, m: Move, colour: Seq<char>)
    ensures
        ({
            let rows = split_slash(p);
            let n = rows.len();
            let rows2 = split_slash(p.push(c));
            &&& n >= 1
            &&& c == '/' ==> {
                &&& rows2.len() == n + 1
                &&& digits_only(rows2) == digits_only(rows)
                &&& row_width(rows2[n as int]) == 0
                &&& partial_marked(p.push(c), m, colour) == partial_marked(p, m, colour) + "\n"@ + rank_label(n as int)
            }
            &&& c != '/' ==> {
                &&& rows2.len() == n
                &&& digits_only(rows2) == (digits_only(rows) && (numeric_char(c) ==> '0' <= c <= '9'))
                &&& row_width(rows2[n - 1]) == row_width(rows[n - 1]) + if '0' <= c <= '9' {
                    c as int - '0' as int
                } else {
                    1
                }
                &&& partial_marked(p.push(c), m, colour) == partial_marked(p, m, colour) + if '0' <= c <= '9' {
                    marked_empties(8 - n, row_width(rows[n - 1]), (c as int - '0' as int) as nat, m, colour)
                } else {
                    marked(seq![' ', glyph(c), ' '], 8 - n, row_width(rows[n - 1]), m, colour)
                }
            }
        }),
{
    let rows = split_slash(p);
    let n = rows.len();
    let rows2 = split_slash(p.push(c));
    lemma_split_slash_len(p);
    lemma_split_slash_push(p, c);
    if c == '/' {
        assert(rows2 == rows.push(Seq::empty()));
        assert(digits_only(rows2) == digits_only(rows)) by {
            if digits_only(rows) {
                assert forall|i: int, j: int|
                    0 <= i < rows2.len() && 0 <= j < rows2[i].len() && numeric_char(#[trigger] rows2[i][j]) implies '0'
                    <= rows2[i][j] <= '9' by {
                    assert(rows2[i] == rows[i]);
                }
            }
            if digits_only(rows2) {
                assert forall|i: int, j: int|
                    0 <= i < rows.len() && 0 <= j < rows[i].len() && numeric_char(#[trigger] rows[i][j]) implies '0'
                    <= rows[i][j] <= '9' by {
                    assert(rows2[i] == rows[i]);
                    assert(rows2[i][j] == rows[i][j]);
                }
            }
        }
        assert(marked_rows(rows2, n, m, colour) == marked_rows(rows, n, m, colour)) by {
            lemma_marked_rows_prefix(rows, rows2, n, m, colour);
        }
        assert(marked_row(Seq::<char>::empty(), 8 - (n + 1), m, colour) == Seq::<char>::empty());
        assert(partial_marked(p.push(c), m, colour) =~= partial_marked(p, m, colour) + "\n"@ + rank_label(n as int));
    } else {
        let last = rows[n - 1];
        assert(rows2 == rows.update(n - 1, last.push(c)));
        assert(last.push(c).drop_last() =~= last);
        assert(digits_only(rows2) == (digits_only(rows) && (numeric_char(c) ==> '0' <= c <= '9'))) by {
            assert(rows2[n - 1][last.len() as int] == c);
            if digits_only(rows) && (numeric_char(c) ==> '0' <= c <= '9') {
                assert forall|i: int, j: int|
                    0 <= i < rows2.len() && 0 <= j < rows2[i].len() && numeric_char(#[trigger] rows2[i][j]) implies '0'
                    <= rows2[i][j] <= '9' by {
                    if i == n - 1 && j < last.len() {
                        assert(rows2[i][j] == rows[i][j]);
                    }
                }
            }
            if digits_only(rows2) {
                assert forall|i: int, j: int|
                    0 <= i < rows.len() && 0 <= j < rows[i].len() && numeric_char(#[trigger] rows[i][j]) implies '0'
                    <= rows[i][j] <= '9' by {
                    assert(rows2[i][j] == rows[i][j]);
                }
            }
        }
        assert(marked_rows(rows2, (n - 1) as nat, m, colour) == marked_rows(rows, (n - 1) as nat, m, colour)) by {
            lemma_marked_rows_prefix(rows, rows2, (n - 1) as nat, m, colour);
        }
        assert(partial_marked(p.push(c), m, colour) =~= partial_marked(p, m, colour) + if '0' <= c <= '9' {
            marked_empties(8 - n, row_width(rows[n - 1]), (c as int - '0' as int) as nat, m, colour)
        } else {
            marked(seq![' ', glyph(c), ' '], 8 - n, row_width(rows[n - 1]), m, colour)
        });
    }
}

proof fn lemma_marked_rows_prefix(a: Seq<Seq<char>>, b: Seq<Seq<char>>, k: nat, m: Move, colour: Seq<char>)
    requires
        k <= a.len(),
        k <= b.len(),
        forall|i: int| 0 <= i < k ==> a[i] == b[i],
    ensures
        marked_rows(a, k, m, colour) == marked_rows(b, k, m, colour),
    decreases k,
{
    if k > 0 {
        lemma_marked_rows_prefix(a, b, (k - 1) as nat, m, colour);
    }
}

/// draw a square's text, highlighted where the move touches the square
fn push_marked(out: &mut String, text: &str, row: usize, col: usize, m: Move, colour: &str)
    requires
        m.on_board(),
    ensures
        final(out)@ == old(out)@ + marked(text@, row as int, col as int, m, colour@),
{
    let to = square_rank(m.dest) as usize == row && square_file(m.dest) as usize == col;
    let from = square_rank(m.source) as usize == row && square_file(m.source) as usize == col;
    if to {
        out.append(colour);
    }
    if from {
        out.append(colour);
    }
    out.append(text);
    if to || from {
        out.append("\x1b[0m");
    }
    assert(out@ =~= old(out)@ + marked(text@, row as int, col as int, m, colour@));
}

/// draw one character of a row with the move highlighted
fn push_marked_cell(out: &mut String, c: char, row: usize, col: usize, m: Move, colour: &str)
    requires
        m.on_board(),
        col + 9 <= usize::MAX,
    ensures
        final(out)@ == old(out)@ + if '0' <= c <= '9' {
            marked_empties(row as int, col as int, (c as int - '0' as int) as nat, m, colour@)
        } else {
            marked(seq![' ', glyph(c), ' '], row as int, col as int, m, colour@)
        },
{
    if '0' <= c && c <= '9' {
        let n: usize = ((c as u32) - ('0' as u32)) as usize;
        let mut i: usize = 0;
        while i < n
            invariant
                i <= n,
                n == c as int - '0' as int,
                n <= 9,
                col + 9 <= usize::MAX,
                m.on_board(),
                out@ == old(out)@ + marked_empties(row as int, col as int, i as nat, m, colour@),
            decreases n - i,
        {
            push_marked(out, " . ", row, col + i, m, colour);
            i = i + 1;
        }
    } else {
        let mut text = String::new();
        push_char(&mut text, ' ');
        push_char(&mut text, glyph_of(c));
        push_char(&mut text, ' ');
        assert(text@ =~= seq![' ', glyph(c), ' ']);
        push_marked(out, text.as_str(), row, col, m, colour);
    }
}

/// Highlight the last played move in the visual representation of the
/// board, where the board can be drawn: at most eight rows, with no numeric
/// character in them but the digits. `None` where it cannot. The FEN is
/// shorter than `usize::MAX / 16` characters, as any string in memory is,
/// so that counting columns cannot overflow.
pub fn fen_to_string_highlighted_checked(full_fen: &str, mv: Move, capture: bool, pawn_move: bool) -> (r: Option<String>)
    requires
        mv.on_board(),
        full_fen@.len() <= usize::MAX / 16,
    ensures
        r is Some <==> highlight_printable(full_fen@),
        r matches Some(s) ==> s@ == highlighted_picture(full_fen@, mv, capture, pawn_move),
{
    let colour: &str = if capture {
        "\x1b[1;31m"
    } else if pawn_move {
        "\x1b[1;34m"
    } else {
        "\x1b[1;94m"
    };
    let len = full_fen.unicode_len();
    let mut out = String::new();
    push_label(&mut out, 0);
    let mut rows: usize = 1;
    let mut col: usize = 0;
    let mut ok = true;
    let mut k: usize = 0;
    proof {
        assert(full_fen@.take(0) =~= Seq::<char>::empty());
        assert(marked_row(Seq::<char>::empty(), 7, mv, colour@) == Seq::<char>::empty());
        assert(split_slash(Seq::<char>::empty()) == seq![Seq::<char>::empty()]);
        assert(marked_rows(seq![Seq::<char>::empty()], 0, mv, colour@) == Seq::<char>::empty());
        assert(out@ =~= partial_marked(full_fen@.take(0), mv, colour@));
    }
    while k < len
        invariant_except_break
            forall|i: int| 0 <= i < k ==> full_fen@[i] != ' ',
        invariant
            len == full_fen@.len(),
            k <= len,
            colour@ == highlight(capture, pawn_move),
            mv.on_board(),
            1 <= rows <= 9,
            rows == (if split_slash(full_fen@.take(k as int)).len() < 9 {
                split_slash(full_fen@.take(k as int)).len()
            } else {
                9
            }),
            ok == (split_slash(full_fen@.take(k as int)).len() <= 8 && digits_only(split_slash(full_fen@.take(k as int)))),
            ok ==> col == row_width(split_slash(full_fen@.take(k as int))[rows - 1]),
            ok ==> col <= 9 * k,
            len <= usize::MAX / 16,
            ok ==> out@ == partial_marked(full_fen@.take(k as int), mv, colour@),
        ensures
            k == len || full_fen@[k as int] == ' ',
            forall|i: int| 0 <= i < k ==> full_fen@[i] != ' ',
        decreases len - k,
    {
        let c = full_fen.get_char(k);
        if c == ' ' {
            break;
        }
        proof {
            lemma_marked_step(full_fen@.take(k as int), c, mv, colour@);
            assert(full_fen@.take(k as int + 1) =~= full_fen@.take(k as int).push(c));
        }
        if c == '/' {
            if ok {
                if rows >= 8 {
                    ok = false;
                } else {
                    out.append("\n");
                    push_label(&mut out, rows);
                    col = 0;
                }
            }
            if rows < 9 {
                rows = rows + 1;
            }
        } else if ok {
            if char_is_numeric(c) && !('0' <= c && c <= '9') {
                ok = false;
            } else {
                push_marked_cell(&mut out, c, 8 - rows, col, mv, colour);
                col = col + if '0' <= c && c <= '9' {
                    ((c as u32) - ('0' as u32)) as usize
                } else {
                    1
                };
            }
        }
        k = k + 1;
    }
    proof {
        lemma_first_word_prefix(full_fen@, k as int);
    }
    if ok {
        out.append("\n+ a  b  c  d  e  f  g  h");
        Some(out)
    } else {
        None
    }
}

/// Highlight the last played move in the visual representation of the board
/// (for a FEN shorter than `usize::MAX / 16` characters, as any string in
/// memory is)
pub fn fen_to_string_highlighted(full_fen: String, mv: Move, capture: bool, pawn_move: bool) -> (r: String)
    requires
        mv.on_board(),
        full_fen@.len() <= usize::MAX / 16,
        highlight_printable(full_fen@),
    ensures
        r@ == highlighted_picture(full_fen@, mv, capture, pawn_move),
{
    fen_to_string_highlighted_checked(full_fen.as_str(), mv, capture, pawn_move).unwrap()
}


/// the text without its colour codes: every occurrence of `colour` and of
/// the reset taken out, read from the left
pub open spec fn uncoloured(s: Seq<char>, colour: Seq<char>) -> Seq<char>
    decreases s.len(),
{
    if s.len() == 0 {
        s
    } else if 0 < colour.len() <= s.len() && s.take(colour.len() as int) == colour {
        uncoloured(s.skip(colour.len() as int), colour)
    } else if 4 <= s.len() && s.take(4) == reset_colour() {
        uncoloured(s.skip(4), colour)
    } else {
        seq![s[0]] + uncoloured(s.drop_first(), colour)
    }
}

/// no escape character in the text
pub open spec fn escape_free(s: Seq<char>) -> bool {
    forall|i: int| 0 <= i < s.len() ==> s[i] != '\x1b'
}

/// a colour code: it starts with an escape, and is no reset
pub open spec fn colour_code(colour: Seq<char>) -> bool {
    &&& colour.len() > 2
    &&& colour[0] == '\x1b'
    &&& colour[2] != '0'
}

/// text without escapes comes through untouched
proof fn lemma_uncoloured_plain(x: Seq<char>, y: Seq<char>, colour: Seq<char>)
    requires
        escape_free(x),
        colour_code(colour),
    ensures
        uncoloured(x + y, colour) == x + uncoloured(y, colour),
    decreases x.len(),
{
    reveal_strlit("\x1b[0m");
    if x.len() == 0 {
        assert(x + y =~= y);
        assert(x + uncoloured(y, colour) =~= uncoloured(y, colour));
    } else {
        let s = x + y;
        assert(s[0] == x[0]);
        if colour.len() <= s.len() {
            assert(s.take(colour.len() as int)[0] == s[0]);
        }
        if s.len() >= 4 {
            assert(s.take(4)[0] == s[0]);
        }
        assert(reset_colour()[0] == '\x1b');
        lemma_uncoloured_plain(x.drop_first(), y, colour);
        assert(s.drop_first() =~= x.drop_first() + y);
        assert(seq![x[0]] + (x.drop_first() + uncoloured(y, colour)) =~= x + uncoloured(y, colour));
    }
}

/// a colour code is taken out
proof fn lemma_uncoloured_colour(y: Seq<char>, colour: Seq<char>)
    requires
        colour_code(colour),
    ensures
        uncoloured(colour + y, colour) == uncoloured(y, colour),
{
    let s = colour + y;
    assert(s.take(colour.len() as int) =~= colour);
    assert(s.skip(colour.len() as int) =~= y);
}

/// a reset is taken out
proof fn lemma_uncoloured_reset(y: Seq<char>, colour: Seq<char>)
    requires
        colour_code(colour),
    ensures
        uncoloured(reset_colour() + y, colour) == uncoloured(y, colour),
{
    reveal_strlit("\x1b[0m");
    let s = reset_colour() + y;
    assert(s[2] == '0');
    if colour.len() <= s.len() {
        assert(s.take(colour.len() as int)[2] == s[2]);
    }
    assert(s.take(4) =~= reset_colour());
    assert(s.skip(4) =~= y);
}

/// a highlighted square comes through as its bare text
proof fn lemma_uncoloured_marked(text: Seq<char>, row: int, col: int, m: Move, colour: Seq<char>, y: Seq<char>)
    requires
        escape_free(text),
        colour_code(colour),
    ensures
        uncoloured(marked(text, row, col, m, colour) + y, colour) == text + uncoloured(y, colour),
{
    let to = on_square(m.dest, row, col);
    let from = on_square(m.source, row, col);
    let a: Seq<char> = if to { colour } else { Seq::empty() };
    let b: Seq<char> = if from { colour } else { Seq::empty() };
    let c: Seq<char> = if to || from { reset_colour() } else { Seq::empty() };
    assert(marked(text, row, col, m, colour) + y =~= a + (b + (text + (c + y))));
    if to || from {
        lemma_uncoloured_reset(y, colour);
    } else {
        assert(c + y =~= y);
    }
    lemma_uncoloured_plain(text, c + y, colour);
    if from {
        lemma_uncoloured_colour(text + (c + y), colour);
    } else {
        assert(b + (text + (c + y)) =~= text + (c + y));
    }
    if to {
        lemma_uncoloured_colour(b + (text + (c + y)), colour);
    } else {
        assert(a + (b + (text + (c + y))) =~= b + (text + (c + y)));
    }
}

/// highlighted empty squares come through as plain ones
proof fn lemma_uncoloured_empties(row: int, col: int, n: nat, m: Move, colour: Seq<char>, y: Seq<char>)
    requires
        colour_code(colour),
    ensures
        uncoloured(marked_empties(row, col, n, m, colour) + y, colour) == empty_squares(n) + uncoloured(y, colour),
    decreases n,
{
    if n == 0 {
        assert(Seq::<char>::empty() + y =~= y);
        assert(Seq::<char>::empty() + uncoloured(y, colour) =~= uncoloured(y, colour));
    } else {
        reveal_strlit(" . ");
        let piece = marked(" . "@, row, col + n - 1, m, colour);
        let rest = marked_empties(row, col, (n - 1) as nat, m, colour);
        assert(rest + piece + y =~= rest + (piece + y));
        lemma_uncoloured_empties(row, col, (n - 1) as nat, m, colour, piece + y);
        lemma_uncoloured_marked(" . "@, row, col + n - 1, m, colour, y);
        assert(empty_squares((n - 1) as nat) + (" . "@ + uncoloured(y, colour)) =~= empty_squares(n) + uncoloured(
            y,
            colour,
        ));
    }
}

/// a highlighted row comes through as its plain picture
proof fn lemma_uncoloured_row(r: Seq<char>, row: int, m: Move, colour: Seq<char>, y: Seq<char>)
    requires
        escape_free(r),
        colour_code(colour),
    ensures
        uncoloured(marked_row(r, row, m, colour) + y, colour) == row_picture(r) + uncoloured(y, colour),
    decreases r.len(),
{
    if r.len() == 0 {
        assert(Seq::<char>::empty() + y =~= y);
        assert(Seq::<char>::empty() + uncoloured(y, colour) =~= uncoloured(y, colour));
    } else {
        let c = r.last();
        let col = row_width(r.drop_last());
        let piece = if '0' <= c <= '9' {
            marked_empties(row, col, (c as int - '0' as int) as nat, m, colour)
        } else {
            marked(seq![' ', glyph(c), ' '], row, col, m, colour)
        };
        let rest = marked_row(r.drop_last(), row, m, colour);
        assert(rest + piece + y =~= rest + (piece + y));
        lemma_uncoloured_row(r.drop_last(), row, m, colour, piece + y);
        if '0' <= c <= '9' {
            lemma_uncoloured_empties(row, col, (c as int - '0' as int) as nat, m, colour, y);
        } else {
            assert(r[r.len() - 1] != '\x1b');
            assert(escape_free(seq![' ', glyph(c), ' ']));
            lemma_uncoloured_marked(seq![' ', glyph(c), ' '], row, col, m, colour, y);
        }
        assert(row_picture(r.drop_last()) + (cell(c) + uncoloured(y, colour)) =~= row_picture(r) + uncoloured(
            y,
            colour,
        ));
    }
}

/// the highlighted rows, ended by a line break, come through as the plain
/// rows
proof fn lemma_uncoloured_rows(rows: Seq<Seq<char>>, k: nat, m: Move, colour: Seq<char>, y: Seq<char>)
    requires
        1 <= k <= rows.len(),
        k <= 8,
        forall|i: int| 0 <= i < k ==> escape_free(#[trigger] rows[i]),
        colour_code(colour),
    ensures
        uncoloured(marked_rows(rows, k, m, colour) + "\n"@ + y, colour) == rows_picture(rows, k) + uncoloured(
            y,
            colour,
        ),
    decreases k,
{
    reveal_strlit("\n");
    let label = rank_label(k - 1);
    let mrow = marked_row(rows[k - 1], 8 - k, m, colour);
    let tail = label + mrow + "\n"@ + y;
    assert(escape_free(label));
    assert(escape_free("\n"@));
    lemma_uncoloured_plain("\n"@, y, colour);
    lemma_uncoloured_row(rows[k - 1], 8 - k, m, colour, "\n"@ + y);
    assert(label + mrow + "\n"@ + y =~= label + (mrow + ("\n"@ + y)));
    lemma_uncoloured_plain(label, mrow + ("\n"@ + y), colour);
    assert(uncoloured(tail, colour) == label + row_picture(rows[k - 1]) + "\n"@ + uncoloured(y, colour)) by {
        assert(label + (row_picture(rows[k - 1]) + ("\n"@ + uncoloured(y, colour))) =~= label + row_picture(
            rows[k - 1],
        ) + "\n"@ + uncoloured(y, colour));
    }
    if k == 1 {
        assert(marked_rows(rows, 0, m, colour) == Seq::<char>::empty());
        assert(marked_rows(rows, k, m, colour) =~= label + mrow);
        assert(marked_rows(rows, k, m, colour) + "\n"@ + y =~= tail);
        assert(rows_picture(rows, 0) + label + row_picture(rows[0]) + "\n"@ + uncoloured(y, colour) =~= label
            + row_picture(rows[0]) + "\n"@ + uncoloured(y, colour));
    } else {
        let before = marked_rows(rows, (k - 1) as nat, m, colour);
        assert(marked_rows(rows, k, m, colour) + "\n"@ + y =~= before + "\n"@ + tail);
        lemma_uncoloured_rows(rows, (k - 1) as nat, m, colour, tail);
        assert(rows_picture(rows, (k - 1) as nat) + (label + row_picture(rows[k - 1]) + "\n"@ + uncoloured(y, colour))
            =~= rows_picture(rows, k) + uncoloured(y, colour));
    }
}

/// the text before the first space holds no space, and no character the
/// whole text lacks
proof fn lemma_first_word_chars(s: Seq<char>, c: char)
    ensures
        !first_word(s).contains(' '),
        !s.contains(c) ==> !first_word(s).contains(c),
    decreases s.len(),
{
    if s.len() > 0 && s[0] != ' ' {
        lemma_first_word_chars(s.drop_first(), c);
        let w = first_word(s);
        assert(w == seq![s[0]] + first_word(s.drop_first()));
        assert forall|i: int| 0 < i < w.len() implies w[i] == first_word(s.drop_first())[i - 1] by {}
        if !s.contains(c) {
            assert(!s.drop_first().contains(c)) by {
                if s.drop_first().contains(c) {
                    let i = choose|i: int| 0 <= i < s.drop_first().len() && s.drop_first()[i] == c;
                    assert(s[i + 1] == c);
                }
            }
            assert(w[0] != c) by {
                assert(s[0] == w[0]);
            }
        }
    }
}

/// the rows of a text hold no character the text lacks
proof fn lemma_split_slash_chars(s: Seq<char>, c: char)
    requires
        !s.contains(c),
    ensures
        forall|i: int| 0 <= i < split_slash(s).len() ==> !(#[trigger] split_slash(s)[i]).contains(c),
    decreases s.len(),
{
    if s.len() > 0 {
        let t = s.drop_last();
        assert(!t.contains(c)) by {
            if t.contains(c) {
                let i = choose|i: int| 0 <= i < t.len() && t[i] == c;
                assert(s[i] == c);
            }
        }
        lemma_split_slash_chars(t, c);
        lemma_split_slash_len(t);
        let rows = split_slash(t);
        if s.last() != '/' {
            let last = rows.last().push(s.last());
            assert(s[s.len() - 1] != c);
            assert(!last.contains(c)) by {
                if last.contains(c) {
                    let i = choose|i: int| 0 <= i < last.len() && last[i] == c;
                    if i < rows.last().len() {
                        assert(rows[rows.len() - 1][i] == c);
                    }
                }
            }
        }
    }
}

/// Taking the colour codes out of a highlighted board gives the plain
/// picture of its board field, as [`fen_to_str`] draws it: the highlight
/// only adds the colour and the reset around the squares of the move.
pub proof fn lemma_highlight_removed(full_fen: Seq<char>, m: Move, capture: bool, pawn_move: bool)
    requires
        highlight_printable(full_fen),
        !first_word(full_fen).contains('\x1b'),
    ensures
        uncoloured(highlighted_picture(full_fen, m, capture, pawn_move), highlight(capture, pawn_move)) == fen_picture(
            first_word(full_fen),
        ),
{
    reveal_strlit("\x1b[1;31m");
    reveal_strlit("\x1b[1;34m");
    reveal_strlit("\x1b[1;94m");
    reveal_strlit("\n+ a  b  c  d  e  f  g  h");
    reveal_strlit("+ a  b  c  d  e  f  g  h");
    reveal_strlit("\n");
    let colour = highlight(capture, pawn_move);
    assert(colour_code(colour));
    let w = first_word(full_fen);
    let rows = board_rows(full_fen);
    lemma_first_word_chars(full_fen, ' ');
    lemma_split_slash_chars(w, '\x1b');
    lemma_split_slash_chars(w, ' ');
    lemma_split_slash_len(w);
    assert forall|i: int| 0 <= i < rows.len() implies escape_free(#[trigger] rows[i]) by {
        assert(!rows[i].contains('\x1b'));
        assert forall|j: int| 0 <= j < rows[i].len() implies rows[i][j] != '\x1b' by {
            if rows[i][j] == '\x1b' {
                assert(rows[i].contains('\x1b'));
            }
        }
    }
    let files = "+ a  b  c  d  e  f  g  h"@;
    assert("\n+ a  b  c  d  e  f  g  h"@ =~= "\n"@ + files);
    assert(escape_free(files));
    lemma_uncoloured_plain(files, Seq::empty(), colour);
    assert(files + Seq::<char>::empty() =~= files);
    assert(uncoloured(Seq::<char>::empty(), colour) == Seq::<char>::empty());
    assert(marked_rows(rows, rows.len(), m, colour) + ("\n"@ + files) =~= marked_rows(rows, rows.len(), m, colour)
        + "\n"@ + files);
    lemma_uncoloured_rows(rows, rows.len(), m, colour, files);
    if rows.len() > 7 {
        lemma_first_word_push(rows[7], ' ');
        assert(shown_rows(w) =~= rows);
    } else {
        assert(shown_rows(w) == rows);
    }
}

/// how many colour codes and how many resets a text holds, read from the
/// left as [`uncoloured`] takes them out
pub open spec fn code_counts(s: Seq<char>, colour: Seq<char>) -> (int, int)
    decreases s.len(),
{
    if s.len() == 0 {
        (0, 0)
    } else if 0 < colour.len() <= s.len() && s.take(colour.len() as int) == colour {
        let c = code_counts(s.skip(colour.len() as int), colour);
        (c.0 + 1, c.1)
    } else if 4 <= s.len() && s.take(4) == reset_colour() {
        let c = code_counts(s.skip(4), colour);
        (c.0, c.1 + 1)
    } else {
        code_counts(s.drop_first(), colour)
    }
}

/// is `sq` in `row`, on one of the `n` files from `col` on?
pub open spec fn hits(sq: u8, row: int, col: int, n: int) -> int {
    if rank_of(sq as int) == row && col <= file_of(sq as int) < col + n {
        1
    } else {
        0
    }
}

/// how many of the first `k` rows drawn hold `sq`
pub open spec fn rows_hits(sq: u8, rows: Seq<Seq<char>>, k: nat) -> int
    decreases k,
{
    if k == 0 {
        0
    } else {
        rows_hits(sq, rows, (k - 1) as nat) + hits(sq, 8 - k, 0, row_width(rows[k - 1]))
    }
}

/// text without escapes holds no code
proof fn lemma_counts_plain(x: Seq<char>, y: Seq<char>, colour: Seq<char>)
    requires
        escape_free(x),
        colour_code(colour),
    ensures
        code_counts(x + y, colour) == code_counts(y, colour),
    decreases x.len(),
{
    reveal_strlit("\x1b[0m");
    if x.len() == 0 {
        assert(x + y =~= y);
    } else {
        let s = x + y;
        assert(s[0] == x[0]);
        if colour.len() <= s.len() {
            assert(s.take(colour.len() as int)[0] == s[0]);
        }
        if s.len() >= 4 {
            assert(s.take(4)[0] == s[0]);
        }
        assert(reset_colour()[0] == '\x1b');
        lemma_counts_plain(x.drop_first(), y, colour);
        assert(s.drop_first() =~= x.drop_first() + y);
    }
}

/// a colour code counts once
proof fn lemma_counts_colour(y: Seq<char>, colour: Seq<char>)
    requires
        colour_code(colour),
    ensures
        code_counts(colour + y, colour) == (code_counts(y, colour).0 + 1, code_counts(y, colour).1),
{
    let s = colour + y;
    assert(s.take(colour.len() as int) =~= colour);
    assert(s.skip(colour.len() as int) =~= y);
}

/// a reset counts once
proof fn lemma_counts_reset(y: Seq<char>, colour: Seq<char>)
    requires
        colour_code(colour),
    ensures
        code_counts(reset_colour() + y, colour) == (code_counts(y, colour).0, code_counts(y, colour).1 + 1),
{
    reveal_strlit("\x1b[0m");
    let s = reset_colour() + y;
    assert(s[2] == '0');
    if colour.len() <= s.len() {
        assert(s.take(colour.len() as int)[2] == s[2]);
    }
    assert(s.take(4) =~= reset_colour());
    assert(s.skip(4) =~= y);
}

/// two different squares of the board are never the same square of a row
proof fn lemma_one_square_each(a: u8, b: u8, row: int, col: int)
    requires
        a < 64,
        b < 64,
        a != b,
    ensures
        !(on_square(a, row, col) && on_square(b, row, col)),
{
    assert(a == rank_of(a as int) * 8 + file_of(a as int));
    assert(b == rank_of(b as int) * 8 + file_of(b as int));
}

/// a square's text holds a colour for each end of the move on it, and a
/// reset where there is one
proof fn lemma_counts_marked(text: Seq<char>, row: int, col: int, m: Move, colour: Seq<char>, y: Seq<char>)
    requires
        escape_free(text),
        colour_code(colour),
        m.on_board(),
        m.source != m.dest,
    ensures
        code_counts(marked(text, row, col, m, colour) + y, colour) == (
            code_counts(y, colour).0 + hits(m.dest, row, col, 1) + hits(m.source, row, col, 1),
            code_counts(y, colour).1 + hits(m.dest, row, col, 1) + hits(m.source, row, col, 1),
        ),
{
    let to = on_square(m.dest, row, col);
    let from = on_square(m.source, row, col);
    lemma_one_square_each(m.dest, m.source, row, col);
    let a: Seq<char> = if to { colour } else { Seq::empty() };
    let b: Seq<char> = if from { colour } else { Seq::empty() };
    let c: Seq<char> = if to || from { reset_colour() } else { Seq::empty() };
    assert(marked(text, row, col, m, colour) + y =~= a + (b + (text + (c + y))));
    if to || from {
        lemma_counts_reset(y, colour);
    } else {
        assert(c + y =~= y);
    }
    lemma_counts_plain(text, c + y, colour);
    if from {
        lemma_counts_colour(text + (c + y), colour);
    } else {
        assert(b + (text + (c + y)) =~= text + (c + y));
    }
    if to {
        lemma_counts_colour(b + (text + (c + y)), colour);
    } else {
        assert(a + (b + (text + (c + y))) =~= b + (text + (c + y)));
    }
}

/// a run of empty squares holds a colour and a reset for each end of the
/// move among them
proof fn lemma_counts_empties(row: int, col: int, n: nat, m: Move, colour: Seq<char>, y: Seq<char>)
    requires
        colour_code(colour),
        m.on_board(),
        m.source != m.dest,
    ensures
        code_counts(marked_empties(row, col, n, m, colour) + y, colour) == (
            code_counts(y, colour).0 + hits(m.dest, row, col, n as int) + hits(m.source, row, col, n as int),
            code_counts(y, colour).1 + hits(m.dest, row, col, n as int) + hits(m.source, row, col, n as int),
        ),
    decreases n,
{
    if n == 0 {
        assert(Seq::<char>::empty() + y =~= y);
    } else {
        reveal_strlit(" . ");
        let piece = marked(" . "@, row, col + n - 1, m, colour);
        let rest = marked_empties(row, col, (n - 1) as nat, m, colour);
        assert(rest + piece + y =~= rest + (piece + y));
        lemma_counts_empties(row, col, (n - 1) as nat, m, colour, piece + y);
        lemma_counts_marked(" . "@, row, col + n - 1, m, colour, y);
    }
}

/// a drawn row holds a colour and a reset for each end of the move on it
proof fn lemma_counts_row(r: Seq<char>, row: int, m: Move, colour: Seq<char>, y: Seq<char>)
    requires
        escape_free(r),
        colour_code(colour),
        m.on_board(),
        m.source != m.dest,
    ensures
        code_counts(marked_row(r, row, m, colour) + y, colour) == (
            code_counts(y, colour).0 + hits(m.dest, row, 0, row_width(r)) + hits(m.source, row, 0, row_width(r)),
            code_counts(y, colour).1 + hits(m.dest, row, 0, row_width(r)) + hits(m.source, row, 0, row_width(r)),
        ),
    decreases r.len(),
{
    if r.len() == 0 {
        assert(Seq::<char>::empty() + y =~= y);
    } else {
        let c = r.last();
        let col = row_width(r.drop_last());
        let piece = if '0' <= c <= '9' {
            marked_empties(row, col, (c as int - '0' as int) as nat, m, colour)
        } else {
            marked(seq![' ', glyph(c), ' '], row, col, m, colour)
        };
        let rest = marked_row(r.drop_last(), row, m, colour);
        assert(rest + piece + y =~= rest + (piece + y));
        lemma_counts_row(r.drop_last(), row, m, colour, piece + y);
        if '0' <= c <= '9' {
            lemma_counts_empties(row, col, (c as int - '0' as int) as nat, m, colour, y);
        } else {
            assert(r[r.len() - 1] != '\x1b');
            assert(escape_free(seq![' ', glyph(c), ' ']));
            lemma_counts_marked(seq![' ', glyph(c), ' '], row, col, m, colour, y);
        }
    }
}

/// the drawn rows hold a colour and a reset for each end of the move on them
proof fn lemma_counts_rows(rows: Seq<Seq<char>>, k: nat, m: Move, colour: Seq<char>, y: Seq<char>)
    requires
        1 <= k <= rows.len(),
        k <= 8,
        forall|i: int| 0 <= i < k ==> escape_free(#[trigger] rows[i]),
        colour_code(colour),
        m.on_board(),
        m.source != m.dest,
    ensures
        code_counts(marked_rows(rows, k, m, colour) + "\n"@ + y, colour) == (
            code_counts(y, colour).0 + rows_hits(m.dest, rows, k) + rows_hits(m.source, rows, k),
            code_counts(y, colour).1 + rows_hits(m.dest, rows, k) + rows_hits(m.source, rows, k),
        ),
    decreases k,
{
    reveal_strlit("\n");
    let label = rank_label(k - 1);
    let mrow = marked_row(rows[k - 1], 8 - k, m, colour);
    let tail = label + mrow + "\n"@ + y;
    assert(escape_free(label));
    assert(escape_free("\n"@));
    lemma_counts_plain("\n"@, y, colour);
    lemma_counts_row(rows[k - 1], 8 - k, m, colour, "\n"@ + y);
    assert(label + mrow + "\n"@ + y =~= label + (mrow + ("\n"@ + y)));
    lemma_counts_plain(label, mrow + ("\n"@ + y), colour);
    let hd = hits(m.dest, 8 - k, 0, row_width(rows[k - 1]));
    let hs = hits(m.source, 8 - k, 0, row_width(rows[k - 1]));
    assert(code_counts(tail, colour) == (code_counts(y, colour).0 + hd + hs, code_counts(y, colour).1 + hd + hs));
    assert(rows_hits(m.dest, rows, k) == rows_hits(m.dest, rows, (k - 1) as nat) + hd);
    assert(rows_hits(m.source, rows, k) == rows_hits(m.source, rows, (k - 1) as nat) + hs);
    if k == 1 {
        assert(marked_rows(rows, 0, m, colour) == Seq::<char>::empty());
        assert(marked_rows(rows, k, m, colour) =~= label + mrow);
        assert(marked_rows(rows, k, m, colour) + "\n"@ + y =~= tail);
    } else {
        let before = marked_rows(rows, (k - 1) as nat, m, colour);
        assert(marked_rows(rows, k, m, colour) + "\n"@ + y =~= before + "\n"@ + tail);
        lemma_counts_rows(rows, (k - 1) as nat, m, colour, tail);
    }
}

/// on a board of eight rows of eight squares, the first `k` rows drawn hold
/// the squares of the top `k` ranks
proof fn lemma_rows_hits_full(sq: u8, rows: Seq<Seq<char>>, k: nat)
    requires
        sq < 64,
        k <= 8,
        k <= rows.len(),
        forall|i: int| 0 <= i < k ==> row_width(#[trigger] rows[i]) == 8,
    ensures
        rows_hits(sq, rows, k) == (if rank_of(sq as int) >= 8 - k { 1int } else { 0 }),
    decreases k,
{
    if k > 0 {
        lemma_rows_hits_full(sq, rows, (k - 1) as nat);
        assert(row_width(rows[k - 1]) == 8);
    }
}

/// On a board of eight ranks of eight squares, the highlighted picture of a
/// move between two squares holds its colour code exactly twice and the
/// reset exactly twice: around the cells of the move's two squares.
pub proof fn lemma_highlight_codes(full_fen: Seq<char>, m: Move, capture: bool, pawn_move: bool)
    requires
        highlight_printable(full_fen),
        !first_word(full_fen).contains('\x1b'),
        board_rows(full_fen).len() == 8,
        forall|i: int| 0 <= i < 8 ==> row_width(#[trigger] board_rows(full_fen)[i]) == 8,
        m.on_board(),
        m.source != m.dest,
    ensures
        code_counts(highlighted_picture(full_fen, m, capture, pawn_move), highlight(capture, pawn_move)) == (2int, 2int),
{
    reveal_strlit("\x1b[1;31m");
    reveal_strlit("\x1b[1;34m");
    reveal_strlit("\x1b[1;94m");
    reveal_strlit("\n+ a  b  c  d  e  f  g  h");
    reveal_strlit("+ a  b  c  d  e  f  g  h");
    reveal_strlit("\n");
    let colour = highlight(capture, pawn_move);
    assert(colour_code(colour));
    let w = first_word(full_fen);
    let rows = board_rows(full_fen);
    lemma_split_slash_chars(w, '\x1b');
    assert forall|i: int| 0 <= i < rows.len() implies escape_free(#[trigger] rows[i]) by {
        assert(!rows[i].contains('\x1b'));
        assert forall|j: int| 0 <= j < rows[i].len() implies rows[i][j] != '\x1b' by {
            if rows[i][j] == '\x1b' {
                assert(rows[i].contains('\x1b'));
            }
        }
    }
    let files = "+ a  b  c  d  e  f  g  h"@;
    assert("\n+ a  b  c  d  e  f  g  h"@ =~= "\n"@ + files);
    assert(escape_free(files));
    lemma_counts_plain(files, Seq::empty(), colour);
    assert(files + Seq::<char>::empty() =~= files);
    assert(marked_rows(rows, rows.len(), m, colour) + ("\n"@ + files) =~= marked_rows(rows, rows.len(), m, colour)
        + "\n"@ + files);
    lemma_counts_rows(rows, 8, m, colour, files);
    lemma_rows_hits_full(m.dest, rows, 8);
    lemma_rows_hits_full(m.source, rows, 8);
}

} // verus!
