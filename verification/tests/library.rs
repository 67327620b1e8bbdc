use sandy_engine::board::movegen_new;
use sandy_engine::board::BoardState;
use sandy_engine::bounds::EvalBound;
use sandy_engine::entry::TableEntry;
use sandy_engine::history::MoveHistory;
use sandy_engine::material::material_count_for_side;
use sandy_engine::material::sq_pi;
use sandy_engine::material::total_material;
use sandy_engine::ordering::mvv_lva_score;
use sandy_engine::ordering::score_move;
use sandy_engine::ordering::prio_iterator;
use sandy_engine::ordering::pv_ordered_moves;
use sandy_engine::ordering::unordered_moves;
use sandy_engine::opts::DebugLevel;
use sandy_engine::opts::OptionError;
use sandy_engine::opts::Opts;
use sandy_engine::opts::UciOption;
use sandy_engine::pieces::get_positions_from_bitboard;
use sandy_engine::pieces::Color;
use sandy_engine::pieces::Move;
use sandy_engine::pieces::Piece;
use sandy_engine::position::record_move;
use sandy_engine::position::Position;
use sandy_engine::root::worth_deepening;
use sandy_engine::root::RootNode;
use sandy_engine::root::RootTally;
use sandy_engine::search::drawn_by_rule;
use sandy_engine::search::SearchOptions;
use sandy_engine::search::SearchResult;
use sandy_engine::search::MV;
use sandy_engine::shared::TT;
use sandy_engine::table::TableAccess;
use sandy_engine::table::TEntry;
use sandy_engine::table::TranspositionTable;
use sandy_engine::table::VL;
use sandy_engine::timing::search_deadline;
use sandy_engine::util::bitboard_to_fen;
use sandy_engine::util::fen_to_str;
use sandy_engine::util::fen_to_str_checked;
use sandy_engine::util::fen_to_string_highlighted;
use sandy_engine::util::fen_to_string_highlighted_checked;
use sandy_engine::values::mate_in;
use sandy_engine::values::mated_in;
use sandy_engine::values::Depth;
use sandy_engine::values::Score;
use sandy_engine::values::Value;
use sandy_engine::window::mate_distance;
use sandy_engine::window::next_depth;
use sandy_engine::window::probe;
use sandy_engine::window::store_bound;
use sandy_engine::window::Probe;

const START: &str = "rnbqkbnr/pppppppp/8/8/8/8/PPPPPPPP/RNBQKBNR w KQkq - 0 1";

fn sq(name: &str) -> u8 {
    let b = name.as_bytes();
    (b[1] - b'1') * 8 + (b[0] - b'a')
}

fn mv(text: &str) -> Move {
    Move::new(sq(&text[0..2]), sq(&text[2..4]), None)
}

fn board(fen: &str) -> BoardState {
    BoardState::from_fen(fen).unwrap()
}

fn result(value: i16, nodes: u32, depth: u16, pv: Vec<MV>) -> SearchResult {
    SearchResult {
        pv,
        next_position_value: Value(value),
        nodes_searched: nodes,
        tb_hits: 1,
        depth: Depth(depth),
        from_draw: false,
        aborted: false,
    }
}

#[test]
fn empty_bitboard_picture() {
    assert_eq!(
        bitboard_to_fen(0),
        "8 . . . . . . . .\n7 . . . . . . . .\n6 . . . . . . . .\n5 . . . . . . . .\n4 . . . . . . . .\n3 . . . . . . . .\n2 . . . . . . . .\n1 . . . . . . . .\n+ a b c d e f g h"
    );
}

#[test]
fn bitboard_picture_marks_set_bits() {
    assert_eq!(
        bitboard_to_fen(1 | (1 << 9) | (1 << 63)),
        "8 # . . . . . . .\n7 . # . . . . . .\n6 . . . . . . . .\n5 . . . . . . . .\n4 . . . . . . . .\n3 . . . . . . . .\n2 . . . . . . . .\n1 . . . . . . . #\n+ a b c d e f g h"
    );
}

#[test]
fn start_position_picture() {
    assert_eq!(
        fen_to_str(START.to_string()),
        "8 \u{265c}  \u{265e}  \u{265d}  \u{265b}  \u{265a}  \u{265d}  \u{265e}  \u{265c} \n7 \u{265f}  \u{265f}  \u{265f}  \u{265f}  \u{265f}  \u{265f}  \u{265f}  \u{265f} \n6 .  .  .  .  .  .  .  . \n5 .  .  .  .  .  .  .  . \n4 .  .  .  .  .  .  .  . \n3 .  .  .  .  .  .  .  . \n2 \u{2659}  \u{2659}  \u{2659}  \u{2659}  \u{2659}  \u{2659}  \u{2659}  \u{2659} \n1 \u{2656}  \u{2658}  \u{2657}  \u{2655}  \u{2654}  \u{2657}  \u{2658}  \u{2656} \n+ a  b  c  d  e  f  g  h"
    );
}

#[test]
fn fen_pictures_need_eight_rows_and_plain_digits() {
    assert!(fen_to_str_checked("8/8/8/8/8/8/8 w - - 0 1").is_none());
    assert!(fen_to_str_checked("8/8/8/8/8/8/8/8/8/8").is_none());
    // an Arabic-Indic three is numeric, but no decimal digit
    assert!(fen_to_str_checked("8/8/8/8/8/8/8/\u{663}k4").is_none());
    assert_eq!(
        fen_to_str_checked("4k3/8/8/8/8/8/8/4K3 w - - 0 1").unwrap(),
        "8 .  .  .  .  \u{265a}  .  .  . \n7 .  .  .  .  .  .  .  . \n6 .  .  .  .  .  .  .  . \n5 .  .  .  .  .  .  .  . \n4 .  .  .  .  .  .  .  . \n3 .  .  .  .  .  .  .  . \n2 .  .  .  .  .  .  .  . \n1 .  .  .  .  \u{2654}  .  .  . \n+ a  b  c  d  e  f  g  h"
    );
}

#[test]
fn highlighted_king_move() {
    assert_eq!(
        fen_to_string_highlighted("4k3/8/8/8/8/8/8/4K3 w - - 0 1".to_string(), mv("e1e2"), false, false),
        "8 .  .  .  .  \u{265a}  .  .  . \n7 .  .  .  .  .  .  .  . \n6 .  .  .  .  .  .  .  . \n5 .  .  .  .  .  .  .  . \n4 .  .  .  .  .  .  .  . \n3 .  .  .  .  .  .  .  . \n2 .  .  .  . \u{1b}[1;94m . \u{1b}[0m .  .  . \n1 .  .  .  . \u{1b}[1;94m \u{2654} \u{1b}[0m .  .  . \n+ a  b  c  d  e  f  g  h"
    );
}

#[test]
fn highlighted_pawn_move_and_capture() {
    assert_eq!(
        fen_to_string_highlighted("4k3/8/8/8/8/8/4P3/4K3 w - - 0 1".to_string(), mv("e2e4"), false, true),
        "8 .  .  .  .  \u{265a}  .  .  . \n7 .  .  .  .  .  .  .  . \n6 .  .  .  .  .  .  .  . \n5 .  .  .  .  .  .  .  . \n4 .  .  .  . \u{1b}[1;34m . \u{1b}[0m .  .  . \n3 .  .  .  .  .  .  .  . \n2 .  .  .  . \u{1b}[1;34m \u{2659} \u{1b}[0m .  .  . \n1 .  .  .  .  \u{2654}  .  .  . \n+ a  b  c  d  e  f  g  h"
    );
    assert_eq!(
        fen_to_string_highlighted_checked("4k3/8/8/8/8/8/8/r3K3 w - - 0 1", mv("e1a1"), true, false).unwrap(),
        "8 .  .  .  .  \u{265a}  .  .  . \n7 .  .  .  .  .  .  .  . \n6 .  .  .  .  .  .  .  . \n5 .  .  .  .  .  .  .  . \n4 .  .  .  .  .  .  .  . \n3 .  .  .  .  .  .  .  . \n2 .  .  .  .  .  .  .  . \n1\u{1b}[1;31m \u{265c} \u{1b}[0m .  .  . \u{1b}[1;31m \u{2654} \u{1b}[0m .  .  . \n+ a  b  c  d  e  f  g  h"
    );
    assert!(fen_to_string_highlighted_checked("8/8/8/8/8/8/8/8/8", mv("e1a1"), true, false).is_none());
}

#[test]
fn deadline_with_even_clocks() {
    // 60 s each, no increment: a fiftieth of the clock, less the submit
    // margin twice over
    assert_eq!(
        search_deadline(Color::White, Some(60_000_000_000), Some(60_000_000_000), None, None, None),
        1_190_000_000
    );
}

#[test]
fn deadline_hurries_when_behind_on_the_clock() {
    assert_eq!(
        search_deadline(Color::Black, Some(40_000_000_000), Some(10_000_000_000), None, None, None),
        -405_000_000
    );
}

#[test]
fn deadline_takes_longer_when_ahead() {
    assert_eq!(
        search_deadline(
            Color::White,
            Some(100_000_000_000),
            Some(10_000_000_000),
            Some(2_000_000_000),
            Some(1_000_000_000),
            Some(20)
        ),
        25_045_000_000
    );
}

#[test]
fn deadline_never_past_the_clock() {
    assert_eq!(
        search_deadline(Color::White, Some(1_000_000_000), None, Some(10_000_000_000), None, Some(0)),
        1_000_000_000
    );
}

#[test]
fn deepening_needs_time_for_the_next_depth() {
    assert!(!worth_deepening(100_000_000, Depth(5), Some(150_000_000)));
    assert!(worth_deepening(100_000_000, Depth(5), Some(250_000_000)));
    assert!(worth_deepening(100_000_000, Depth(5), None));
    assert!(worth_deepening(100_000_000, Depth(1), Some(0)));
    assert!(!worth_deepening(100_000_000, Depth(1), Some(-1)));
}

#[test]
fn root_tally_keeps_the_best_move() {
    let mut root = RootNode::new(Position::default());
    let mut tally = RootTally::new();
    assert_eq!(tally.best_value, Value(-32_600));
    let a = mv("e2e4");
    let b = mv("d2d4");
    let reply = MV(mv("e7e5"), Value(-10));

    let guess = tally.record(&mut root, a, result(10, 5, 3, vec![reply]));
    assert_eq!(guess, Some(MV(a, Value(10))));
    assert_eq!(root.pv, vec![MV(a, Value(10)), reply]);
    assert_eq!(tally.total_nodes, 6);
    assert_eq!(tally.tb_hits, 1);

    let guess = tally.record(&mut root, b, result(5, 7, 6, vec![]));
    assert_eq!(guess, None);
    assert_eq!(tally.best_move, Some(a));
    assert_eq!(tally.best_value, Value(10));
    assert_eq!(root.pv, vec![MV(a, Value(10)), reply]);
    assert_eq!(tally.total_nodes, 14);
    assert_eq!(tally.max_depth, Depth(6));
    assert_eq!(tally.min_depth, Depth(3));

    root.finish_depth(tally.best_value);
    assert_eq!(root.eval, Value(10));
    assert_eq!(root.previous_eval, Value(-32_600));
    tally.start_depth();
    assert_eq!(tally.best_value, Value(-32_600));
    assert_eq!(tally.best_move, Some(a));
}

#[test]
fn history_restarts_after_irreversible_moves() {
    let start = Position::from(board("4k3/8/8/8/8/8/P7/R3K3 w - - 0 1"));
    let mut history = vec![start.chessboard.get_hash()];

    let after_rook = record_move(&start, &mut history, mv("a1b1"));
    assert_eq!(after_rook.halfmove_clock, 1);
    assert_eq!(history.len(), 2);
    assert_eq!(
        history[1],
        board("4k3/8/8/8/8/8/P7/1R2K3 b - - 1 1").get_hash()
    );

    let after_pawn = record_move(&after_rook, &mut history, mv("e8e7"));
    assert_eq!(history.len(), 3);
    let after_push = record_move(&after_pawn, &mut history, mv("a2a4"));
    assert_eq!(after_push.halfmove_clock, 0);
    assert_eq!(history, vec![after_push.chessboard.get_hash()]);
}

#[test]
fn setting_options() {
    let mut opts = Opts::new();
    assert_eq!(opts.receive_option("use_ab", Some("off")), Ok(Opts::new().ab(false)));
    assert!(!opts.use_ab);
    assert_eq!(opts.receive_option("hash", Some("64")).map(|o| o.hash_size), Ok(65536));
    assert_eq!(opts.receive_option("hash", Some("+7")).map(|o| o.hash_size), Ok(7168));
    assert_eq!(
        opts.receive_option("search_debug", Some("5")).map(|o| o.search),
        Ok(DebugLevel::trace)
    );
}

#[test]
fn refused_options_leave_the_options_alone() {
    let mut opts = Opts::new();
    let before = opts;
    assert_eq!(
        opts.receive_option("hash", Some("2000")),
        Err(OptionError::TooHigh("hash", 2000, 1024))
    );
    assert_eq!(
        opts.receive_option("search_debug", Some("-1")),
        Err(OptionError::TooLow("search_debug", -1, 0))
    );
    assert_eq!(
        opts.receive_option("use_tt", Some("maybe")),
        Err(OptionError::NeedsOnOff("use_tt"))
    );
    assert_eq!(opts.receive_option("use_pv", None), Err(OptionError::NeedsOnOff("use_pv")));
    assert_eq!(
        opts.receive_option("threads", Some("4")),
        Err(OptionError::Unknown("threads".to_string()))
    );
    assert_eq!(opts, before);
}

#[test]
fn bench_log_returns_the_bench_options() {
    let mut opts = Opts::new().ab(false);
    let before = opts;
    let bench = opts.receive_option("bench_log", Some("on")).unwrap();
    assert_eq!(bench, Opts::bench().ab(false));
    assert_eq!(opts, before);
    assert_eq!(opts.receive_option("bench_log", Some("off")), Ok(before));
}

#[test]
fn registered_options() {
    let options = Opts::register_options();
    assert_eq!(options.len(), 10);
    assert_eq!(
        options[0],
        UciOption::Check { name: "use_ab".to_string(), default: Some(true) }
    );
    assert_eq!(
        options[9],
        UciOption::Spin { name: "hash".to_string(), default: Some(16), min: Some(0), max: Some(1024) }
    );
}

#[test]
fn debug_levels_nest() {
    assert!(DebugLevel::trace.trace() && DebugLevel::trace.error());
    assert!(!DebugLevel::info.debug() && DebugLevel::info.info() && DebugLevel::info.warn());
    assert!(DebugLevel::off.off() && !DebugLevel::off.error());
    assert_eq!(DebugLevel::from_level(2), DebugLevel::warn);
}

#[test]
fn pawn_takes_queen_scores_high() {
    let b = board("4k3/8/8/3q4/4P3/8/8/4K3 w - - 0 1");
    assert_eq!(mvv_lva_score(&b, &mv("e4d5")), Value(800));
    let b = board("k7/8/8/3p4/4Q3/8/8/4K3 w - - 0 1");
    assert_eq!(mvv_lva_score(&b, &mv("e4d5")), Value(-800));
}

#[test]
fn start_material() {
    let b = BoardState::default();
    assert_eq!(material_count_for_side(&b, Color::White), Value(3880));
    assert_eq!(material_count_for_side(&b, Color::Black), Value(3880));
    assert_eq!(total_material(&b), Value(7760));
}

#[test]
fn pv_move_comes_first() {
    let b = BoardState::default();
    let pv = mv("b1a3");
    let ordered = pv_ordered_moves(&b, &pv);
    assert_eq!(ordered.0[0], pv);
    assert_eq!(ordered.0[1], mv("a2a3"));
    assert_eq!(ordered.len(), unordered_moves(&b).len());
}

#[test]
fn insufficient_material_positions() {
    for fen in [
        "4k3/8/8/8/8/8/8/4K3 w - - 0 1",
        "4k3/8/8/8/8/8/8/3BK3 w - - 0 1",
        "4k3/8/8/8/8/8/8/3NK3 w - - 0 1",
    ] {
        assert!(Position::from(board(fen)).is_insufficient_material(), "{fen}");
    }
    assert!(!Position::from(board("4k3/8/8/8/8/8/P7/4K3 w - - 0 1")).is_insufficient_material());
    assert!(!Position::from(board("4k3/8/8/8/8/8/8/2NBK3 w - - 0 1")).is_insufficient_material());
}

#[test]
fn fifty_moves_draw() {
    let mut pos = Position::default();
    pos.halfmove_clock = 99;
    assert!(!pos.is_fifty_move_draw());
    pos.halfmove_clock = 100;
    assert!(pos.is_fifty_move_draw());
}

#[test]
fn table_gives_back_what_was_stored() {
    let mut table = VL::new(1 << 10);
    assert_eq!(table.capacity(), 32);
    let entry = TableEntry::new_from_result(
        77,
        Depth(3),
        &result(42, 1, 3, vec![MV(mv("e2e4"), Value(42))]),
        EvalBound::LowerBound,
    );
    table.insert(77, entry);
    assert_eq!(table.get(77), Some(entry));
    assert_eq!(table.entry_count(), 1);
    assert_eq!(table.hashfull(), 31);
    // the same slot, another hash: the newer entry wins, the count stays
    let other = TableEntry::new_from_result(
        77 + 32,
        Depth(1),
        &result(1, 1, 1, vec![MV(mv("d2d4"), Value(1))]),
        EvalBound::Exact,
    );
    table.insert(77 + 32, other);
    assert_eq!(table.get(77), None);
    assert_eq!(table.entry_count(), 1);
    assert!(!TableEntry::new_empty().is_valid_entry());
    assert_eq!(VL::new(0).capacity(), 0);
}

#[test]
fn entry_round_trip_of_a_result() {
    let entry = TableEntry::new_from_result(
        5,
        Depth(4),
        &result(-300, 1, 4, vec![MV(mv("g1f3"), Value(-300))]),
        EvalBound::UpperBound,
    );
    let back = entry.search_result();
    assert_eq!(back.next_position_value, Value(-300));
    assert_eq!(back.pv[0].0, mv("g1f3"));
    assert_eq!(entry.bound(), EvalBound::UpperBound);
    assert_eq!(entry.depth(), Depth(4));
}

#[test]
fn killer_moves_are_remembered() {
    let mut history = MoveHistory::empty();
    let a = mv("g1f3");
    let b = mv("b1c3");
    assert!(!history.is_killer(&a, 3));
    history.save_killer(&a, 3);
    history.save_killer(&b, 3);
    assert!(history.is_killer(&a, 3) && history.is_killer(&b, 3));
    assert!(history.is_killer(&a, 3 + 512));
    history.log_history(&a, 4);
    history.log_history(&a, 2);
    assert_eq!(history.history_score(&a), 20);
}

#[test]
fn score_arithmetic() {
    assert_eq!(Value(5) + Value(3), Value(8));
    assert_eq!(-Value(7), Value(-7));
    assert_eq!(Value(7) / 2i16, Value(3));
    assert_eq!(Value(-7) / 2i16, Value(-3));
    assert_eq!(mate_in(3), Value(31_997));
    assert_eq!(mated_in(3), Value(-31_997));
    assert_eq!(Value(-12).abs(), Value(12));
    assert_eq!(EvalBound::from_bounds(Value(1), Value(1), Value(2)), EvalBound::Exact);
    assert_eq!(EvalBound::from_bounds(Value(2), Value(1), Value(2)), EvalBound::LowerBound);
    assert_eq!(EvalBound::from_bounds(Value(3), Value(1), Value(2)), EvalBound::UpperBound);
    let negated = -result(12, 1, 1, vec![]);
    assert_eq!(negated.next_position_value, Value(-12));
}

#[test]
fn repetitions_count_history_and_path() {
    let history = [1u64, 2, 1];
    let options = SearchOptions::new(&history).descend(1).descend(3);
    assert_eq!(options.repetition_count(1), 3);
    assert_eq!(options.repetition_count(3), 1);
    assert_eq!(options.repetition_count(4), 0);
}

#[test]
fn board_reads_and_writes_fen() {
    let b = BoardState::default();
    assert_eq!(b.to_fen(), START);
    assert!(BoardState::from_fen("not a fen").is_none());
    assert_eq!(b.piece_on(sq("e1")), Some(Piece::King));
    assert_eq!(b.color_on(sq("e8")), Some(Color::Black));
    assert_eq!(b.checkers(), 0);
    let checked = board("4k3/8/8/8/8/8/8/4RK2 b - - 0 1");
    assert_eq!(checked.checkers(), 1 << sq("e1"));
    assert_ne!(b.get_hash(), checked.get_hash());
}

#[test]
fn table_handles_share_one_table() {
    let mut tt = TT::new();
    let first = tt.get();
    let second = tt.get_mut();
    let entry = TableEntry::new_from_result(
        9,
        Depth(2),
        &result(7, 1, 2, vec![MV(mv("e2e4"), Value(7))]),
        EvalBound::Exact,
    );
    first.write().unwrap().insert(9, entry);
    assert_eq!(second.read().unwrap().get(9), Some(entry));
    assert_eq!(second.share().read().unwrap().entry_count(), 1);
    assert_eq!(tt.get().read().unwrap().capacity(), 8);
}

#[test]
fn pesto_indices() {
    assert_eq!(sq_pi(sq("h7"), Color::White), (1, 7));
    assert_eq!(sq_pi(sq("h2"), Color::Black), (1, 7));
    assert_eq!(sq_pi(sq("a1"), Color::White), (7, 0));
    assert_eq!(sq_pi(sq("a1"), Color::Black), (0, 0));
}

#[test]
fn scores_read_as_mates_or_centipawns() {
    assert_eq!(Value(31_999).score(), Score::Mate(1));
    assert_eq!(Value(31_996).score(), Score::Mate(2));
    assert_eq!(Value(-32_000).score(), Score::Mate(-1));
    assert_eq!(Value(-31_998).score(), Score::Mate(-1));
    assert_eq!(Value(-31_996).score(), Score::Mate(-2));
    assert_eq!(Value(32_600).score(), Score::Mate(1));
    assert_eq!(Value(-32_600).score(), Score::Mate(-1));
    assert_eq!(Value(150).score(), Score::Centipawns(150));
    assert_eq!(Value(-31_743).score(), Score::Centipawns(-31_743));
}

#[test]
fn squares_of_a_bitboard() {
    let mut v = vec![99];
    get_positions_from_bitboard(&mut v, 0b1010_0001 | (1usize << 40));
    assert_eq!(v, vec![99, 0, 5, 7, 40]);
    let mut empty = Vec::new();
    get_positions_from_bitboard(&mut empty, 0);
    assert!(empty.is_empty());
}

fn stored(value: i16, depth: u16, bound: EvalBound) -> TableEntry {
    TableEntry::pack(1, Value(value), Depth(depth), mv("e2e4"), bound, false)
}

#[test]
fn table_entries_narrow_the_window() {
    // a shallower entry changes nothing
    assert_eq!(
        probe(&stored(50, 2, EvalBound::Exact), Depth(3), Value(-100), Value(100)),
        Probe::Window(Value(-100), Value(100))
    );
    assert_eq!(probe(&stored(50, 3, EvalBound::Exact), Depth(3), Value(-100), Value(100)), Probe::Cutoff);
    assert_eq!(
        probe(&stored(50, 4, EvalBound::LowerBound), Depth(3), Value(-100), Value(100)),
        Probe::Window(Value(50), Value(100))
    );
    assert_eq!(probe(&stored(150, 4, EvalBound::LowerBound), Depth(3), Value(-100), Value(100)), Probe::Cutoff);
    assert_eq!(
        probe(&stored(50, 4, EvalBound::UpperBound), Depth(3), Value(-100), Value(100)),
        Probe::Window(Value(-100), Value(50))
    );
    assert_eq!(probe(&stored(-150, 4, EvalBound::UpperBound), Depth(3), Value(-100), Value(100)), Probe::Cutoff);
}

#[test]
fn results_are_stored_with_their_bound() {
    assert_eq!(store_bound(Value(-100), Value(-100), Value(100)), EvalBound::UpperBound);
    assert_eq!(store_bound(Value(100), Value(-100), Value(100)), EvalBound::LowerBound);
    assert_eq!(store_bound(Value(0), Value(-100), Value(100)), EvalBound::Exact);
}

#[test]
fn mates_count_plies_and_depth_extends() {
    assert_eq!(mate_distance(Value(31_999)), Value(31_998));
    assert_eq!(mate_distance(Value(-31_999)), Value(-31_998));
    assert_eq!(mate_distance(Value(250)), Value(250));
    assert_eq!(next_depth(Depth(4), Depth(0), Depth(8), false), Depth(3));
    assert_eq!(next_depth(Depth(4), Depth(0), Depth(8), true), Depth(4));
    assert_eq!(next_depth(Depth(4), Depth(8), Depth(8), true), Depth(0));
}

#[test]
fn repeated_position_is_drawn() {
    // white is a queen up, but this position has already been played
    let b = board("4k3/8/8/8/8/8/8/Q6K w - - 0 1");
    let history = [b.get_hash()];
    let pos = Position::from(b);
    assert_eq!(drawn_by_rule(&pos, &SearchOptions::new(&history)), Some(true));
    assert_eq!(drawn_by_rule(&pos, &SearchOptions::new(&[])), None);
    // seen on the search path instead
    let options = SearchOptions::new(&[]).descend(b.get_hash());
    assert_eq!(drawn_by_rule(&pos, &options), Some(true));
}

#[test]
fn fifty_moves_without_progress_are_drawn() {
    let mut pos = Position::from(board("4k3/8/8/8/8/8/8/R3K3 w - - 0 1"));
    pos.halfmove_clock = 99;
    assert_eq!(drawn_by_rule(&pos, &SearchOptions::new(&[])), None);
    pos.halfmove_clock = 100;
    assert_eq!(drawn_by_rule(&pos, &SearchOptions::new(&[])), Some(true));
}

#[test]
fn bare_material_is_drawn_for_every_path() {
    for fen in [
        "4k3/8/8/8/8/8/8/4K3 w - - 0 1",
        "4k3/8/8/8/8/8/8/3BK3 w - - 0 1",
        "4k3/8/8/8/8/8/8/3NK3 w - - 0 1",
    ] {
        assert_eq!(drawn_by_rule(&Position::from(board(fen)), &SearchOptions::new(&[])), Some(false), "{fen}");
    }
    let pawn = Position::from(board("4k3/8/8/8/8/8/P7/4K3 w - - 0 1"));
    assert_eq!(drawn_by_rule(&pawn, &SearchOptions::new(&[])), None);
}

#[test]
fn default_search_options_remember_nothing() {
    let options = SearchOptions::default();
    assert_eq!(options.extensions, Depth(0));
    assert!(options.game_history.is_empty());
    assert_eq!(options.repetition_count(0), 8);
    assert_eq!(options.repetition_count(5), 0);
}

#[test]
fn a_lone_king_capture_comes_first() {
    let b = board("4k3/8/8/8/8/8/3p4/4K3 w - - 0 1");
    let mut ordering = prio_iterator(movegen_new(&b), &b, &[]);
    assert_eq!(ordering.first(), Some(mv("e1d2")));
    assert_eq!(ordering.len(), 5);
}

/// a king capture is ordered among the others by its MVV-LVA score: the king
/// taking a knight (280) comes before the pawn taking a pawn (0)
#[test]
fn king_captures_are_ordered_with_the_others() {
    let b = board("4k3/8/8/8/8/3p4/2P2n2/4K3 w - - 0 1");
    let mut ordering = prio_iterator(movegen_new(&b), &b, &[]);
    assert_eq!(ordering.next_move(), Some(mv("e1f2")));
    assert_eq!(ordering.next_move(), Some(mv("c2d3")));
}

#[test]
fn new_opts_log_at_info() {
    let o = Opts::new();
    assert_eq!(o.search, DebugLevel::info);
    assert_eq!(o.eval, DebugLevel::info);
    assert_eq!(o.comm, DebugLevel::info);
    assert_eq!(o.tt, DebugLevel::info);
    assert_eq!(o.uci, DebugLevel::info);
    assert_eq!(o.opts, DebugLevel::info);
    assert_eq!(o.hash_size, 16 * 1024);
}

#[test]
fn db_sets_every_module() {
    let o = Opts::new().db(DebugLevel::trace);
    assert_eq!(o.search, DebugLevel::trace);
    assert_eq!(o.eval, DebugLevel::trace);
    assert_eq!(o.comm, DebugLevel::trace);
    assert_eq!(o.tt, DebugLevel::trace);
    assert_eq!(o.uci, DebugLevel::trace);
    assert_eq!(o.opts, DebugLevel::trace);
    assert_eq!(o.use_ab, Opts::new().use_ab);
    let d = Opts::new().debug(DebugLevel::warn);
    assert_eq!(d.tt, DebugLevel::warn);
    assert_eq!(d.opts, DebugLevel::warn);
}

#[test]
fn crowded_board_is_refused() {
    let fen = "7k/NNNNN3/8/NNNNNNNN/8/NNNNNNNN/8/K7 w - - 0 1";
    let b = BoardState::from_fen(fen);
    assert!(b.is_some());
    assert!(!b.unwrap().is_playable());
    assert!(BoardState::from_playable_fen(fen).is_none());
    assert!(BoardState::default().is_playable());
    assert!(BoardState::from_playable_fen("8/8/8/6Q1/8/8/8/5K1k w - - 0 1").is_some());
}

#[test]
fn bench_positions_all_read() {
    let all = sandy_engine::bench::bench_positions();
    assert_eq!(all.len(), 50);
    assert!(all.iter().all(|b| b.is_some()));
    assert_eq!(all[0], Some(BoardState::default()));
    let short = sandy_engine::bench::short_benches();
    assert_eq!(short.len(), 4);
    assert!(short.iter().all(|b| b.is_some()));
}

#[test]
fn unreadable_fens_read_as_none() {
    let read = sandy_engine::bench::read_fens(&["not a fen", "8/8/8/8/8/8/8/K6k w - - 0 1"]);
    assert_eq!(read.len(), 2);
    assert!(read[0].is_none());
    assert!(read[1].is_some());
}

#[test]
fn highlight_removed_gives_plain_picture() {
    let fen = "r1bk3r/1ppq1pp1/p2p1n1p/4p3/2PnP3/Q2PB1P1/P3BPKP/1R4NR b - - 2 17";
    let lit = fen_to_string_highlighted(fen.to_string(), mv("d7d8"), false, false);
    let plain = lit.replace("\u{1b}[1;94m", "").replace("\u{1b}[0m", "");
    assert_eq!(plain, fen_to_str("r1bk3r/1ppq1pp1/p2p1n1p/4p3/2PnP3/Q2PB1P1/P3BPKP/1R4NR".to_string()));
    assert_eq!(lit.matches("\u{1b}[1;94m").count(), 2);
    assert_eq!(lit.matches("\u{1b}[0m").count(), 2);
}

#[test]
fn flipped_bit_spoils_entry() {
    let e = TableEntry::pack(7, Value(12), Depth(3), mv("e2e4"), EvalBound::Exact, false);
    assert!(e.is_valid_entry());
    for k in 0..64u32 {
        let f = TableEntry { key: e.key, value: e.value ^ (1u64 << k) };
        assert!(!f.is_valid_entry());
    }
}

#[test]
fn prio_ordering_hands_out_each_move_once() {
    let boards = [
        BoardState::default(),
        board("8/8/8/6Q1/8/8/8/5K1k b - - 0 1"),
        board("8/8/8/6Q1/8/8/8/4K2k w - - 0 1"),
        board("r1bqk2r/2ppbppp/p1n2n2/1p2p3/4P3/1B3N2/PPPP1PPP/RNBQR1K1 b kq - 0 1"),
        board("8/8/8/3k4/8/8/8/5RQK w - - 0 1"),
    ];
    for b in boards {
        let mg = unordered_moves(&b).0;
        for m in &mg {
            let mut prio_ordered = prio_iterator(movegen_new(&b), &b, &[*m]);
            assert_eq!(prio_ordered.len(), mg.len());
            assert_eq!(prio_ordered.first(), Some(*m));
            let mut seen = Vec::new();
            while let Some(x) = prio_ordered.next_move() {
                assert!(mg.contains(&x));
                assert!(!seen.contains(&x));
                seen.push(x);
            }
            assert_eq!(seen.len(), mg.len());
        }
    }
}

#[test]
fn kingless_fens_are_refused() {
    assert!(BoardState::from_fen("8/8/8/8/8/8/8/8 w - - 0 1").is_none());
    assert!(BoardState::from_playable_fen("8/8/8/8/8/8/8/8 w - - 0 1").is_none());
    assert!(BoardState::from_fen("4k3/8/8/8/8/8/8/8 w - - 0 1").is_none());
    assert!(BoardState::from_fen("4k3/8/8/8/8/8/8/4K3 w - - 0 1").is_some());
    assert!(BoardState::from_fen("4k3/8/8/8/8/8/8/4K3 w").is_none());
    assert!(BoardState::from_fen("4k3/8/8/8/8/8/8/4K3/8 w - - 0 1").is_none());
    assert!(BoardState::from_fen("4k3/8/8/8/8/8/8/4K4 w - - 0 1").is_none());
    assert!(sandy_engine::fen::is_readable_fen("4k3/8/8/8/8/8/8/4K3 b KQkq - 0 1"));
    assert!(!sandy_engine::fen::is_readable_fen("4k3/8/8/8/8/8/8/4K3 x - - 0 1"));
}

#[test]
fn default_opts_turn_nothing_on() {
    let o = Opts::default();
    assert!(!o.use_ab && !o.use_pv && !o.use_tt);
    assert_eq!(o.search, DebugLevel::info);
    assert_eq!(o.opts, DebugLevel::info);
    assert_eq!(DebugLevel::default(), DebugLevel::info);
}

#[test]
fn entry_move_comes_with_its_eval() {
    let e = TableEntry::pack(7, Value(12), Depth(3), mv("e2e4"), EvalBound::Exact, false);
    assert_eq!(e.mv_struct(), MV(mv("e2e4"), Value(12)));
}

#[test]
fn scored_moves() {
    let b = board("4k3/8/8/3q4/4P3/8/8/4K3 w - - 0 1");
    let pos = Position::from(b);
    let mut hist = MoveHistory::empty();
    assert_eq!(score_move(&pos, &mv("e4d5"), &hist, 0), Value(800));
    assert_eq!(score_move(&pos, &mv("e1d1"), &hist, 0), Value(0));
    hist.save_killer(&mv("e1d1"), 3);
    hist.log_history(&mv("e1d1"), 3);
    assert_eq!(score_move(&pos, &mv("e1d1"), &hist, 3), Value(8009));
    assert_eq!(score_move(&pos, &mv("e1d1"), &hist, 4), Value(9));
}
