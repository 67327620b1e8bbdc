//! what a search produces and what it passes down to its children
use vstd::prelude::*;
use vstd::std_specs::ops::NegSpecImpl;
use crate::pieces::Move;
use crate::values::{Value, Depth};
use crate::board::board_hash;
use crate::position::{Position, insufficient_material, FIFTY_MOVE_LIMIT};

verus! {

/// how many plies of the current search path are remembered for repetition
/// detection. a repetition cycle is 4 plies, so this covers two of them.
pub const SEARCH_PATH_LEN: usize = 8;

/// A move and its value
#[derive(Debug, Clone, Copy, PartialEq, Eq, Structural)]
pub struct MV(pub Move, pub Value);

impl Default for MV {
    fn default() -> (r: MV)
        ensures
            r == MV(Move { source: 0, dest: 0, promotion: None }, Value(0)),
    {
        MV(Move::null(), Value(0))
    }
}

/// The result of a single negamax search call
#[derive(Debug)]
pub struct SearchResult {
    /// The principal variation
    pub pv: Vec<MV>,
    /// The value of the best move found
    pub next_position_value: Value,
    /// how many nodes were searched by this call and its recursive sub-calls
    pub nodes_searched: u32,
    /// how many transposition table hits were made
    pub tb_hits: u32,
    /// actual depth the search reached
    pub depth: Depth,
    /// did this value come from a draw that depends on how the position was
    /// reached (a repetition, or the fifty-move counter)? such a value is only
    /// correct along the path that produced it, so it must never be written to
    /// the transposition table.
    pub from_draw: bool,
    /// was the search stopped before it finished?
    pub aborted: bool,
}

impl Default for SearchResult {
    fn default() -> (r: SearchResult)
        ensures
            r.pv@.len() == 0,
            r.next_position_value == Value(0),
            r.nodes_searched == 0,
            r.tb_hits == 0,
            r.depth == Depth(0),
            !r.from_draw,
            !r.aborted,
    {
        SearchResult {
            pv: Vec::new(),
            next_position_value: Value(0),
            nodes_searched: 0,
            tb_hits: 0,
            depth: Depth(0),
            from_draw: false,
            aborted: false,
        }
    }
}

impl core::ops::Neg for SearchResult {
    type Output = Self;

    fn neg(self) -> (r: Self) {
        let mut s = self;
        s.next_position_value = Value(-s.next_position_value.0);
        s
    }
}

impl NegSpecImpl for SearchResult {
    open spec fn obeys_neg_spec() -> bool {
        true
    }

    open spec fn neg_req(self) -> bool {
        self.next_position_value.0 != i16::MIN
    }

    open spec fn neg_spec(self) -> SearchResult {
        SearchResult { next_position_value: Value((-self.next_position_value.0) as i16), ..self }
    }
}

/// information for a search root to pass to its children, in order to inform
/// dependent heuristics.
#[derive(Debug, Copy, Clone)]
pub struct SearchOptions<'a> {
    /// how many times have we already extended the search? this is necessary to
    /// ensure the recursion terminates, and to prevent stack overflow.
    pub extensions: Depth,
    /// hashes of the positions actually played in the game since the last
    /// irreversible move, oldest first. constant for the whole search.
    pub game_history: &'a [u64],
    /// hashes of the positions along the current search path. oldest at index
    /// 0, newest at index [`SEARCH_PATH_LEN`]` - 1`, zero-padded at the front.
    pub path: [u64; SEARCH_PATH_LEN],
}

impl<'a> Default for SearchOptions<'a> {
    /// options for a search with no game history and no path yet
    fn default() -> (r: SearchOptions<'a>)
        ensures
            r.extensions == Depth(0),
            r.game_history@.len() == 0,
            r.path@ == Seq::new(SEARCH_PATH_LEN as nat, |i: int| 0u64),
    {
        let none: &'a [u64] = &[];
        SearchOptions::new(none)
    }
}

/// the options a search starts from at the root, after the game `history`:
/// no path and no extension yet
pub open spec fn root_options(o: SearchOptions, history: Seq<u64>) -> bool {
    &&& o.extensions == Depth(0)
    &&& o.game_history@ == history
    &&& o.path@ == Seq::new(SEARCH_PATH_LEN as nat, |i: int| 0u64)
}

/// the test for a hash equal to `h`
pub open spec fn equals_hash(h: u64) -> spec_fn(u64) -> bool {
    |x: u64| x == h
}

/// how many times `h` occurs in `s`
pub open spec fn occurrences(s: Seq<u64>, h: u64) -> nat {
    s.filter(equals_hash(h)).len()
}

/// how many of the first `n` elements of `s` are `h`, counted by a loop
fn count_in(s: &[u64], h: u64) -> (r: usize)
    ensures
        r == occurrences(s@, h),
{
    let mut count: usize = 0;
    let mut i: usize = 0;
    while i < s.len()
        invariant
            i <= s@.len(),
            count == occurrences(s@.subrange(0, i as int), h),
            count <= i,
        decreases s@.len() - i,
    {
        proof {
            let t = s@.subrange(0, i as int);
            assert(s@.subrange(0, i as int + 1) == t.push(s@[i as int]));
            t.lemma_filter_len_push(equals_hash(h), s@[i as int]);
        }
        if s[i] == h {
            count = count + 1;
        }
        i = i + 1;
    }
    assert(s@.subrange(0, s@.len() as int) == s@);
    count
}

impl<'a> SearchOptions<'a> {
    /// options for a search from the root of a game with this history
    pub fn new(game_history: &'a [u64]) -> (r: SearchOptions<'a>)
        ensures
            r.extensions == Depth(0),
            r.game_history@ == game_history@,
            r.path@ == Seq::new(SEARCH_PATH_LEN as nat, |i: int| 0u64),
    {
        let r = SearchOptions { extensions: Depth(0), game_history, path: [0u64; SEARCH_PATH_LEN] };
        assert(r.path@ == Seq::new(SEARCH_PATH_LEN as nat, |i: int| 0u64));
        r
    }

    /// how many times `hash` has already occurred, counting both the moves
    /// actually played in the game and the current search path.
    pub fn repetition_count(&self, hash: u64) -> (r: usize)
        requires
            self.game_history@.len() + SEARCH_PATH_LEN <= usize::MAX,
        ensures
            r == occurrences(self.game_history@, hash) + occurrences(self.path@, hash),
    {
        let a = count_in(self.game_history, hash);
        let b = count_in(&self.path, hash);
        assert(occurrences(self.game_history@, hash) <= self.game_history@.len()) by {
            self.game_history@.lemma_filter_len(equals_hash(hash));
        }
        assert(occurrences(self.path@, hash) <= SEARCH_PATH_LEN) by {
            self.path@.lemma_filter_len(equals_hash(hash));
        }
        a + b
    }

    /// descend one ply: record `hash` as the newest position on the search
    /// path, dropping the oldest one.
    pub fn descend(self, hash: u64) -> (r: SearchOptions<'a>)
        ensures
            r.extensions == self.extensions,
            r.game_history@ == self.game_history@,
            r.path@ == self.path@.drop_first().push(hash),
    {
        let mut s = self;
        let mut i: usize = 0;
        while i < SEARCH_PATH_LEN - 1
            invariant
                i < SEARCH_PATH_LEN,
                s.extensions == self.extensions,
                s.game_history@ == self.game_history@,
                forall|j: int| 0 <= j < i ==> s.path@[j] == self.path@[j + 1],
                forall|j: int| i <= j < SEARCH_PATH_LEN ==> s.path@[j] == self.path@[j],
            decreases SEARCH_PATH_LEN - i,
        {
            s.path[i] = s.path[i + 1];
            i = i + 1;
        }
        s.path[SEARCH_PATH_LEN - 1] = hash;
        assert(s.path@ == self.path@.drop_first().push(hash));
        s
    }
}

/// is a node drawn before any of its moves is searched? `Some(true)` where
/// the draw depends on how the position was reached: it has occurred before,
/// in the game or on the search path, or the fifty-move counter has run
/// out; such a result must never be stored for other paths. `Some(false)`
/// where too little material is left for either side to mate. `None` where
/// the position has to be searched.
pub open spec fn draw_rule(pos: Position, options: SearchOptions) -> Option<bool> {
    if occurrences(options.game_history@, board_hash(pos.chessboard@)) + occurrences(
        options.path@,
        board_hash(pos.chessboard@),
    ) >= 1 || pos.halfmove_clock >= FIFTY_MOVE_LIMIT {
        Some(true)
    } else if insufficient_material(pos.chessboard@) {
        Some(false)
    } else {
        None
    }
}

/// `h` occurs in `s` exactly where some element of `s` is `h`
pub proof fn lemma_occurrences_contains(s: Seq<u64>, h: u64)
    ensures
        occurrences(s, h) >= 1 <==> s.contains(h),
{
    let f = s.filter(equals_hash(h));
    if s.contains(h) {
        let i = choose|i: int| 0 <= i < s.len() && s[i] == h;
        s.filter_lemma(equals_hash(h));
        assert(f.contains(s[i]));
    }
    if f.len() >= 1 {
        s.filter_lemma(equals_hash(h));
        assert(equals_hash(h)(f[0]));
        s.lemma_filter_contains_rev(equals_hash(h), f[0]);
    }
}

/// the draw rules: a position already seen in the game or on the search
/// path, or reached after a hundred halfmoves without a pawn move or a
/// capture, is a draw that depends on the path; otherwise a position with a
/// pawn, rook or queen on the board, of either side, is searched; and bare
/// kings are a dead draw
pub proof fn lemma_draw_rules(pos: Position, options: SearchOptions)
    ensures
        ({
            let h = board_hash(pos.chessboard@);
            let seen = options.game_history@.contains(h) || options.path@.contains(h);
            &&& (seen || pos.halfmove_clock >= 100) ==> draw_rule(pos, options) == Some(true)
            &&& !seen && pos.halfmove_clock < 100 ==> {
                &&& draw_rule(pos, options) is None <==> !insufficient_material(pos.chessboard@)
                &&& (forall|p: crate::pieces::Piece| p != crate::pieces::Piece::King ==> #[trigger] pos.chessboard@.piece_bb(p)
                    == 0) ==> draw_rule(pos, options) == Some(false)
            }
        }),
{
    let h = board_hash(pos.chessboard@);
    lemma_occurrences_contains(options.game_history@, h);
    lemma_occurrences_contains(options.path@, h);
    if forall|p: crate::pieces::Piece| p != crate::pieces::Piece::King ==> #[trigger] pos.chessboard@.piece_bb(p) == 0 {
        crate::position::lemma_bare_kings_insufficient(pos.chessboard@);
    }
}

/// a position not seen before, with the fifty-move counter still running and
/// a pawn, rook or queen of either side on the board, is searched
pub proof fn lemma_heavy_piece_is_searched(pos: Position, options: SearchOptions, sq: int, c: crate::pieces::Color, p: crate::pieces::Piece)
    requires
        !options.game_history@.contains(board_hash(pos.chessboard@)),
        !options.path@.contains(board_hash(pos.chessboard@)),
        pos.halfmove_clock < 100,
        p == crate::pieces::Piece::Pawn || p == crate::pieces::Piece::Rook || p == crate::pieces::Piece::Queen,
        crate::pieces::has_square(pos.chessboard@.color_bb(c), sq),
        crate::pieces::has_square(pos.chessboard@.piece_bb(p), sq),
    ensures
        draw_rule(pos, options) is None,
{
    lemma_draw_rules(pos, options);
    crate::position::lemma_heavy_piece_is_sufficient(pos.chessboard@, sq, c, p);
}

/// is a node drawn before any of its moves is searched? (see [`draw_rule`])
pub fn drawn_by_rule(pos: &Position, options: &SearchOptions) -> (r: Option<bool>)
    requires
        options.game_history@.len() + SEARCH_PATH_LEN <= usize::MAX,
    ensures
        r == draw_rule(*pos, *options),
{
    let hash = pos.chessboard.get_hash();
    if options.repetition_count(hash) >= 1 || pos.is_fifty_move_draw() {
        Some(true)
    } else if pos.is_insufficient_material() {
        Some(false)
    } else {
        None
    }
}

/// the positions actually played stay visible however deep the search goes:
/// descending never changes how often a hash occurs in the game history, and
/// the path holds the last [`SEARCH_PATH_LEN`] positions descended through.
pub proof fn lemma_history_survives_descent(path: Seq<u64>, hash: u64, x: u64)
    requires
        path.len() == SEARCH_PATH_LEN,
    ensures
        path.drop_first().push(x).len() == SEARCH_PATH_LEN,
        path.drop_first().push(x).last() == x,
        occurrences(path.drop_first().push(x), hash) == occurrences(path, hash) - (if path[0] == hash { 1int } else { 0 }) + (if x == hash { 1int } else { 0 }),
{
    let f = equals_hash(hash);
    let t = path.drop_first();
    t.lemma_filter_len_push(f, x);
    assert(path == seq![path[0]] + t);
    t.lemma_filter_prepend(path[0], f);
}

} // verus!
