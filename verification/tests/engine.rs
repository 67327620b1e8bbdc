use sandy_engine::board::movegen_new;
use sandy_engine::board::movegen_next;
use sandy_engine::board::BoardState;
use sandy_engine::bounds::EvalBound;
use sandy_engine::entry::TableEntry;
use sandy_engine::ordering::ordered_moves;
use sandy_engine::ordering::prio_iterator;
use sandy_engine::ordering::pv_ordered_moves;
use sandy_engine::pieces::Move;
use sandy_engine::pieces::Piece;
use sandy_engine::position::is_irreversible;
use sandy_engine::position::Position;
use sandy_engine::search::SearchOptions;
use sandy_engine::search::SearchResult;
use sandy_engine::search::MV;
use sandy_engine::search::SEARCH_PATH_LEN;
use sandy_engine::table::TEntry;
use sandy_engine::table::TranspositionTable;
use sandy_engine::table::VL;
use sandy_engine::values::one_ply;
use sandy_engine::values::Depth;
use sandy_engine::values::Value;

/// the squares of the board, a1 = 0 up to h8 = 63
fn sq(name: &str) -> u8 {
    let b = name.as_bytes();
    (b[1] - b'1') * 8 + (b[0] - b'a')
}

/// a move written as in UCI, such as `e2e4` or `a7a8q`
fn mv(text: &str) -> Move {
    let promotion = match text.as_bytes().get(4) {
        Some(b'q') => Some(Piece::Queen),
        Some(b'r') => Some(Piece::Rook),
        Some(b'b') => Some(Piece::Bishop),
        Some(b'n') => Some(Piece::Knight),
        _ => None,
    };
    Move::new(sq(&text[0..2]), sq(&text[2..4]), promotion)
}

fn board(fen: &str) -> BoardState {
    BoardState::from_fen(fen).unwrap()
}

/// all legal moves of a board, in the move generator's order
fn legal(b: &BoardState) -> Vec<Move> {
    let mut mg = movegen_new(b);
    let mut r = Vec::new();
    while let Some(m) = movegen_next(&mut mg) {
        r.push(m);
    }
    r
}

/// the positions actually played in the game must stay visible however deep
/// the search goes.
#[test]
fn game_history_survives_descent() {
    let root_hash = 0xdead_beef_u64;
    let history = [root_hash];
    let mut options = SearchOptions {
        extensions: Depth(0),
        game_history: &history,
        path: [0; SEARCH_PATH_LEN],
    };

    assert_eq!(options.repetition_count(root_hash), 1);

    for ply in 1..(SEARCH_PATH_LEN as u64 * 4) {
        options = options.descend(ply);
        assert_eq!(
            options.repetition_count(root_hash),
            1,
            "root position was forgotten after {ply} plies",
        );
    }

    // the search path itself is remembered too, for the most recent plies
    assert_eq!(options.repetition_count(SEARCH_PATH_LEN as u64 * 4 - 1), 1);
}

#[test]
fn test_pack_then_unpack() {
    let key = 0x1234567890abcdef;
    let eval = Value(0x1234);
    let depth = Depth(0x1234);
    let mv = Move::new(sq("a7"), sq("a8"), Some(Piece::Queen));
    let bound = EvalBound::Exact;
    let entry = TableEntry::pack(key, eval, depth, mv, bound, true);
    assert_eq!(eval, entry.eval());
    assert_eq!(depth, entry.depth());
    assert_eq!(mv, entry.mv());
    assert_eq!(bound, entry.bound());
    assert!(entry.is_pv());
}

#[test]
fn test_pack_then_unpack_with_promotion() {
    let key = 0x1234567890abcdef;
    let eval = Value(0x1234);
    let depth = Depth(0x1234);
    let mv = Move::new(sq("a7"), sq("a8"), Some(Piece::Queen));
    let bound = EvalBound::Exact;
    let entry = TableEntry::pack(key, eval, depth, mv, bound, true);
    assert_eq!(eval, entry.eval());
    assert_eq!(depth, entry.depth());
    assert_eq!(mv, entry.mv());
    assert_eq!(bound, entry.bound());
    assert!(entry.is_pv());
}

#[test]
fn test_pack_then_unpack_with_no_promotion() {
    let key = 0x1234567890abcdef;
    let eval = Value(0x1234);
    let depth = Depth(0x1234);
    let mv = Move::new(sq("a7"), sq("a8"), None);
    let bound = EvalBound::Exact;
    let entry = TableEntry::pack(key, eval, depth, mv, bound, false);
    assert_eq!(eval, entry.eval());
    assert_eq!(depth, entry.depth());
    assert_eq!(mv, entry.mv());
    assert_eq!(bound, entry.bound());
    assert!(!entry.is_pv());
}

#[test]
fn test_pack_then_unpack_edge_case_values() {
    let key = 0x1234567890abcdef;
    let eval = Value(0x7fff);
    let depth = Depth(0xffff);
    let mv = Move::new(sq("h8"), sq("h1"), Some(Piece::Queen));
    let bound = EvalBound::UpperBound;
    let entry = TableEntry::pack(key, eval, depth, mv, bound, true);
    assert_eq!(eval, entry.eval());
    assert_eq!(depth, entry.depth());
    assert_eq!(mv, entry.mv());
    assert_eq!(bound, entry.bound());
    assert!(entry.is_pv());
}

fn one_result() -> SearchResult {
    SearchResult {
        pv: vec![MV(Move::default(), Value::one())],
        next_position_value: Value::one(),
        nodes_searched: 1,
        tb_hits: 0,
        depth: one_ply(),
        from_draw: false,
        aborted: false,
    }
}

/// build a table with a handful of entries in it
fn populated() -> VL {
    let mut table = VL::new(1 << 16);
    let result = one_result();
    for hash in 1..8u64 {
        table.insert(
            hash,
            TableEntry::new_from_result(hash, one_ply(), &result, EvalBound::Exact),
        );
    }
    table
}

/// clearing must leave a table that can still be written to.
#[test]
fn clear_leaves_the_table_usable() {
    let mut table = populated();
    let capacity = table.capacity();

    table.clear();

    assert_eq!(table.entry_count(), 0);
    assert_eq!(table.capacity(), capacity);
    assert!(table.get(3).is_none(), "cleared entry was still readable");

    let result = one_result();
    table.insert(
        3,
        TableEntry::new_from_result(3, one_ply(), &result, EvalBound::Exact),
    );
    assert!(table.get(3).is_some());
}

/// after shrinking, the occupancy count must not describe the old table
#[test]
fn resize_resets_occupancy() {
    let mut table = populated();
    assert!(table.entry_count() > 0);

    table.resize(1 << 12);

    assert!(
        table.entry_count() <= table.capacity(),
        "{} entries in a table of {}",
        table.entry_count(),
        table.capacity()
    );
    assert!(table.hashfull() <= 1000);
}

/// a hash that isn't in the table must not return another entry's result
#[test]
fn get_misses_are_none() {
    let table = populated();
    assert!(table.get(u64::MAX).is_none());
    let _ = BoardState::default();
}

const ORDERING_FENS: [&str; 4] = [
    "8/8/8/6Q1/8/8/8/5K1k b - - 0 1",
    "8/8/8/6Q1/8/8/8/4K2k w - - 0 1",
    "r1bqk2r/2ppbppp/p1n2n2/1p2p3/4P3/1B3N2/PPPP1PPP/RNBQR1K1 b kq - 0 1",
    "8/8/8/3k4/8/8/8/5RQK w - - 0 1",
];

fn ordering_boards() -> Vec<BoardState> {
    let mut boards = vec![BoardState::default()];
    for fen in ORDERING_FENS {
        boards.push(board(fen));
    }
    boards
}

#[test]
fn ordered_same_as_mg() {
    let boards = [BoardState::default(), board("8/8/8/6Q1/8/8/8/5K1k b - - 0 1")];

    for b in boards {
        let ordered = ordered_moves(&b);

        let mg = legal(&b);

        assert_eq!(ordered.len(), mg.len());
        for (i, m) in ordered.0.into_iter().enumerate() {
            assert!(mg.contains(&m), "move {} not found in mg", i);
        }
    }
}

#[test]
fn pv_ordered_same_as_mg() {
    for b in ordering_boards() {
        let mg = legal(&b);

        for m in &mg {
            let pv_ordered = pv_ordered_moves(&b, m);
            assert_eq!(pv_ordered.len(), mg.len(), "\npv: {:?}, \nmg: {:?}", pv_ordered, mg);
            assert_eq!(pv_ordered.0.first(), Some(m), "pv: {:?}", pv_ordered);
            for (i, m) in pv_ordered.0.iter().enumerate() {
                assert!(mg.contains(m), "move {} not found in mg", i);
            }
        }
    }
}

#[test]
fn prio_ordered_same_as_mg() {
    for b in ordering_boards() {
        let mg = legal(&b);

        for m in &mg {
            let mut prio_ordered = prio_iterator(movegen_new(&b), &b, &[*m]);
            assert_eq!(prio_ordered.len(), mg.len(), "\nmg: {:?}", mg);
            assert_eq!(prio_ordered.first(), Some(*m));
            let mut i = 0;
            while let Some(m) = prio_ordered.next_move() {
                assert!(mg.contains(&m), "move {} not found in mg", i);
                i += 1;
            }
        }
    }
}

#[test]
fn prio_ordered_same_as_ordered() {
    for b in ordering_boards() {
        let mg = legal(&b);

        for m in &mg {
            let mut prio_ordered = prio_iterator(movegen_new(&b), &b, &[*m]);
            let pv_ordered = pv_ordered_moves(&b, m);

            assert_eq!(prio_ordered.len(), pv_ordered.len(), "\nord: {:?}", pv_ordered);
            assert_eq!(prio_ordered.first(), Some(*m));
            let mut i = 0;
            while let Some(m) = prio_ordered.next_move() {
                assert!(pv_ordered.0.contains(&m), "move {} not found in pv", i);
                i += 1;
            }
        }
    }
}

/// only pawn moves and captures reset the counter; losing castling rights
/// makes earlier positions unreachable but leaves the clock running.
#[test]
fn halfmove_clock_resets_on_pawn_moves_and_captures() {
    let b = board("r3k3/8/8/8/8/8/1P6/R3K3 w Q - 0 1");
    let mut pos = Position::from(b.clone());
    pos.halfmove_clock = 20;

    let quiet = mv("a1b1");
    assert_eq!(pos.make_move(quiet).halfmove_clock, 21);
    assert!(is_irreversible(
        &pos.chessboard,
        &pos.make_move(quiet).chessboard,
        quiet
    ));

    let pawn = mv("b2b3");
    assert_eq!(pos.make_move(pawn).halfmove_clock, 0);

    let capture = mv("a1a8");
    assert!(b.piece_on(capture.dest).is_some());
    assert_eq!(pos.make_move(capture).halfmove_clock, 0);
}
