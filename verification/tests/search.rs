use sandy_engine::board::movegen_new;
use sandy_engine::board::movegen_next;
use sandy_engine::board::movegen_set_mask;
use sandy_engine::board::BoardState;
use sandy_engine::negamax::negamax;
use sandy_engine::negamax::ng_bench;
use sandy_engine::opts::Opts;
use sandy_engine::ordering::mvv_lva_score;
use sandy_engine::pieces::Color;
use sandy_engine::pieces::Move;
use sandy_engine::pieces::Piece;
use sandy_engine::position::Position;
use sandy_engine::position::FIFTY_MOVE_LIMIT;
use sandy_engine::quiescence::quiescence;
use sandy_engine::engine::Engine;
use sandy_engine::root::Reports;
use sandy_engine::root::root_moves;
use sandy_engine::root::RootNode;
use sandy_engine::root::RootTally;
use sandy_engine::root::search_root_move;
use sandy_engine::search::MV;
use sandy_engine::search::SearchOptions;
use sandy_engine::search::SearchResult;
use sandy_engine::search::SEARCH_PATH_LEN;
use sandy_engine::shared::TT;
use sandy_engine::values::Depth;
use sandy_engine::values::Value;

fn board(fen: &str) -> BoardState {
    BoardState::from_fen(fen).unwrap()
}

/// the squares of the board, a1 = 0 up to h8 = 63
fn sq(name: &str) -> u8 {
    let b = name.as_bytes();
    (b[1] - b'1') * 8 + (b[0] - b'a')
}

/// a move written as in UCI, such as `e2e4`
fn mv(text: &str) -> Move {
    Move::new(sq(&text[0..2]), sq(&text[2..4]), None)
}

/// the side that does not move
fn other(c: Color) -> Color {
    match c {
        Color::White => Color::Black,
        Color::Black => Color::White,
    }
}

/// an evaluation for the tests: a mate or stalemate where the side to move
/// has no move, else the material balance from the side to move's view and
/// a tempo bonus
fn material_eval(pos: &Position, out_of_moves: bool) -> Value {
    let b = &pos.chessboard;
    if out_of_moves {
        return if b.checkers() == 0 { Value(0) } else { Value(-32_000) };
    }
    let stm = b.side_to_move();
    let worth = [(Piece::Pawn, 100), (Piece::Knight, 280), (Piece::Bishop, 310), (Piece::Rook, 500), (Piece::Queen, 900)];
    let mut v: i32 = 25;
    for (p, w) in worth {
        let mine = (b.pieces(p) & b.color_combined(stm)).count_ones() as i32;
        let theirs = (b.pieces(p) & b.color_combined(other(stm))).count_ones() as i32;
        v += w * (mine - theirs);
    }
    Value(v as i16)
}

/// the search is always wanted
fn searching() -> bool {
    true
}

/// the negamax search from a position with nothing played before it, as the
/// tests run it: all improvements and a fresh table
fn ng_test(b: BoardState, to_depth: Depth, alpha: Value, beta: Value, opts: Opts) -> SearchResult {
    let table = TT::new();
    ng_bench(Position::from(b), to_depth, alpha, beta, opts, &table, &material_eval, &searching)
}

/// the positions the MVV-LVA order is checked on
fn bench_positions() -> Vec<BoardState> {
    [
        "rnbqkbnr/pppppppp/8/8/8/8/PPPPPPPP/RNBQKBNR w KQkq - 0 1",
        "r3k2r/p1ppqpb1/bn2pnp1/3PN3/1p2P3/2N2Q1p/PPPBBPPP/R3K2R w KQkq - 0 10",
        "8/2p5/3p4/KP5r/1R3p1k/8/4P1P1/8 w - - 0 11",
        "4rrk1/pp1n3p/3q2pQ/2p1pb2/2PP4/2P3N1/P2B2PP/4RRK1 b - - 7 19",
        "rq3rk1/ppp2ppp/1bnpb3/3N2B1/3NP3/7P/PPPQ1PP1/2KR3R w - - 7 14",
        "r1bq1r1k/1pp1n1pp/1p1p4/4p2Q/4Pp2/1BNP4/PPP2PPP/3R1RK1 w - - 2 14",
        "r3r1k1/2p2ppp/p1p1bn2/8/1q2P3/2NPQN2/PPP3PP/R4RK1 b - - 2 15",
        "r1bbk1nr/pp3p1p/2n5/1N4p1/2Np1B2/8/PPP2PPP/2KR1B1R w kq - 0 13",
        "r1bq1rk1/ppp1nppp/4n3/3p3Q/3P4/1BP1B3/PP1N2PP/R4RK1 w - - 1 16",
        "4r1k1/r1q2ppp/ppp2n2/4P3/5Rb1/1N1BQ3/PPP3PP/R5K1 w - - 1 17",
        "2rqkb1r/ppp2p2/2npb1p1/1N1Nn2p/2P1PP2/8/PP2B1PP/R1BQK2R b KQ - 0 11",
        "r1bq1r1k/b1p1npp1/p2p3p/1p6/3PP3/1B2NN2/PP3PPP/R2Q1RK1 w - - 1 16",
        "3r1rk1/p5pp/bpp1pp2/8/q1PP1P2/b3P3/P2NQRPP/1R2B1K1 b - - 6 22",
        "r1q2rk1/2p1bppp/2Pp4/p6b/Q1PNp3/4B3/PP1R1PPP/2K4R w - - 2 18",
        "4k2r/1pb2ppp/1p2p3/1R1p4/3P4/2r1PN2/P4PPP/1R4K1 b - - 3 22",
        "3q2k1/pb3p1p/4pbp1/2r5/PpN2N2/1P2P2P/5PP1/Q2R2K1 b - - 4 26",
        "6k1/6p1/6Pp/ppp5/3pn2P/1P3K2/1PP2P2/3N4 b - - 0 1",
        "3b4/5kp1/1p1p1p1p/pP1PpP1P/P1P1P3/3KN3/8/8 w - - 0 1",
        "2K5/p7/7P/5pR1/8/5k2/r7/8 w - - 0 1",
        "8/6pk/1p6/8/PP3p1p/5P2/4KP1q/3Q4 w - - 0 1",
        "7k/3p2pp/4q3/8/4Q3/5Kp1/P6b/8 w - - 0 1",
        "8/2p5/8/2kPKp1p/2p4P/2P5/3P4/8 w - - 0 1",
        "8/1p3pp1/7p/5P1P/2k3P1/8/2K2P2/8 w - - 0 1",
        "8/pp2r1k1/2p1p3/3pP2p/1P1P1P1P/P5KR/8/8 w - - 0 1",
        "8/3p4/p1bk3p/Pp6/1Kp1PpPp/2P2P1P/2P5/5B2 b - - 0 1",
        "5k2/7R/4P2p/5K2/p1r2P1p/8/8/8 b - - 0 1",
        "6k1/6p1/P6p/r1N5/5p2/7P/1b3PP1/4R1K1 w - - 0 1",
        "1r3k2/4q3/2Pp3b/3Bp3/2Q2p2/1p1P2P1/1P2KP2/3N4 w - - 0 1",
        "6k1/4pp1p/3p2p1/P1pPb3/R7/1r2P1PP/3B1P2/6K1 w - - 0 1",
        "8/3p3B/5p2/5P2/p7/PP5b/k7/6K1 w - - 0 1",
        "8/8/8/8/5kp1/P7/8/1K1N4 w - - 0 1",
        "8/8/8/5N2/8/p7/8/2NK3k w - - 0 1",
        "8/3k4/8/8/8/4B3/4KB2/2B5 w - - 0 1",
        "8/8/1P6/5pr1/8/4R3/7k/2K5 w - - 0 1",
        "8/2p4P/8/kr6/6R1/8/8/1K6 w - - 0 1",
        "8/8/3P3k/8/1p6/8/1P6/1K3n2 b - - 0 1",
        "8/R7/2q5/8/6k1/8/1P5p/K6R w - - 0 124",
        "6k1/3b3r/1p1p4/p1n2p2/1PPNpP1q/P3Q1p1/1R1RB1P1/5K2 b - - 0 1",
        "r2r1n2/pp2bk2/2p1p2p/3q4/3PN1QP/2P3R1/P4PP1/5RK1 w - - 0 1",
        "8/8/8/8/8/6k1/6p1/6K1 w - -",
        "7k/7P/6K1/8/3B4/8/8/8 b - -",
        "3rr1k1/2pq1p1p/p2b1np1/Pp3b2/8/N2n1Q1P/1P1PNPP1/R1BK1B1R b - - 0 23",
        "r1bk3r/1ppq1pp1/p2p1n1p/4p3/2PnP3/Q2PB1P1/P3BPKP/1R4NR b - - 2 17",
        "R1bq1r1k/6pp/2pP1b2/5P2/4pPB1/1r1nP2K/NP2Q2P/2B3NR b - - 10 24",
        "r1b3k1/p7/Pp1nqP2/3p1r1p/7Q/1PR1RN1P/5PB1/7K w - - 1 33",
        "1rbr3k/8/2pq1bpp/2n2P2/2Q1pPB1/R3P3/1PN1K2P/2B3NR b - - 7 28",
        "5r1k/8/b1pq1b1p/R1n2p2/2Q1pP2/1r2P2B/1PN4P/2B2KNR b - - 3 28",
        "rn1qkb2/pbpp1ppr/1p6/P3p3/4n1pP/2N2P1B/1PPP4/R1BQK1NR b KQq - 1 9",
        "8/1pB1rnbk/6pn/7q/P3B2P/1P6/6P1/2Q1R2K b - - 0 34",
        "rn3rk1/p7/bp2p2p/1q1pPp1Q/P2Nn3/1Pb2NPP/5PB1/3RR1K1 w - - 2 23",
    ]
    .iter()
    .map(|f| board(f))
    .collect()
}

/// a few positions to compare whole searches on
fn short_benches() -> Vec<BoardState> {
    [
        "rnbqkbnr/pppppppp/8/8/8/8/PPPPPPPP/RNBQKBNR w KQkq - 0 1",
        "8/8/8/8/5kp1/P7/8/1K1N4 w - - 0 1",
        "8/8/1P6/5pr1/8/4R3/7k/2K5 w - - 0 1",
        "8/R7/2q5/8/6k1/8/1P5p/K6R w - - 0 124",
    ]
    .iter()
    .map(|f| board(f))
    .collect()
}

#[test]
fn assert_total_order() {
    for b in bench_positions() {
        let mut mgen = movegen_new(&b);
        movegen_set_mask(&mut mgen, b.color_combined(other(b.side_to_move())));
        let mut moves = Vec::new();
        while let Some(m) = movegen_next(&mut mgen) {
            moves.push(m);
        }

        let mvv_lva = |m: &Move| mvv_lva_score(&b, m);

        for i in 0..moves.len() {
            for j in 0..moves.len() {
                let a = mvv_lva(&moves[i]);
                let b = mvv_lva(&moves[j]);
                assert!(a <= b || a >= b, "Incomparable: {a:?} vs {b:?}");
                if a == b {
                    assert_eq!(b, a, "Equality not symmetric: {a:?} vs {b:?}");
                }
            }
        }

        for i in 0..moves.len() {
            for j in 0..moves.len() {
                for k in 0..moves.len() {
                    let a = mvv_lva(&moves[i]);
                    let b = mvv_lva(&moves[j]);
                    let c = mvv_lva(&moves[k]);
                    if a <= b && b <= c {
                        assert!(a <= c, "Transitivity failed: {a:?} <= {b:?} <= {c:?} but {a:?} !<= {c:?}");
                    }
                }
            }
        }
    }
}

/// a king that takes is scored as worth nothing in the exchange
#[test]
fn king_captures_are_scored() {
    let b = board("8/2p5/8/2kPKp1p/2p4P/2P5/3P4/8 w - - 0 1");
    assert_eq!(mvv_lva_score(&b, &mv("e5f5")), Value(100));
}

#[test]
fn startpos_is_positive() {
    let pos = board("rnbqkbnr/pppppppp/8/8/8/8/PPPPPPPP/RNBQKBNR w KQkq - 0 1");
    let val = ng_test(pos, Depth(4), Value::min_legal(), Value::max_legal(), Opts::new());
    assert!(val.next_position_value > Value::zero(), "startpos was {:?}", val.next_position_value);
}

#[test]
fn mate_is_mate() {
    let pos = board("8/8/8/8/8/8/8/5KQk b - - 0 1");
    for x in 1..10 {
        assert_eq!(pos.side_to_move(), Color::Black);
        assert_eq!(
            ng_test(pos, Depth(x), Value::min_legal(), Value::max_legal(), Opts::new()).next_position_value,
            Value(-32_000)
        );
    }
}

#[test]
fn mate_in_1_is_mate() {
    let pos = board("8/8/8/6Q1/8/8/8/5K1k w - - 0 1");
    for x in 1..5 {
        assert_eq!(
            ng_test(pos, Depth(x), Value::min_legal(), Value::max_legal(), Opts::new()).next_position_value,
            Value(32_000 - 1),
            "depth = {x}"
        );
    }
}

#[test]
fn mate_in_1_is_mate_ngm() {
    let pos = board("8/8/8/6Q1/8/8/8/5K1k w - - 0 1");
    for x in 1..5 {
        assert_eq!(
            ng_test(pos, Depth(x), Value::min_legal(), Value::max_legal(), Opts::new()).next_position_value,
            Value(32_000 - 1),
            "depth = {x}"
        );
    }
}

#[test]
fn mate_in_2_is_mate_ngm() {
    let pos = board("8/8/8/6Q1/8/8/8/4K2k w - - 0 1");
    assert_ne!(
        ng_test(pos, Depth(1), Value::min_legal(), Value::max_legal(), Opts::new()).next_position_value,
        Value(32_000),
        "depth = 1"
    );
    assert_ne!(
        ng_test(pos, Depth(2), Value::min_legal(), Value::max_legal(), Opts::new()).next_position_value,
        Value(32_000),
        "depth = 2"
    );
    for x in 3..5 {
        assert_eq!(
            ng_test(pos, Depth(x), Value::min_legal(), Value::max_legal(), Opts::new()).next_position_value,
            Value(32_000 - 3),
            "depth = {x}"
        );
    }
}

/// alpha-beta pruning and the principal variation do not change what a
/// search from the full window answers
#[test]
fn score_same_with_or_without_ab_pv() {
    for pos in short_benches() {
        for x in 1..3 {
            assert_eq!(
                ng_test(pos, Depth(x), Value::min_legal(), Value::max_legal(), Opts::new().ab(false).pv(false))
                    .next_position_value,
                ng_test(pos, Depth(x), Value::min_legal(), Value::max_legal(), Opts::new().ab(true).pv(true))
                    .next_position_value,
                "depth = {x}"
            );
        }
    }
}

/// the same at three plies, one position at a time
fn same_score_at_three_plies(k: usize) {
    let pos = short_benches()[k];
    assert_eq!(
        ng_test(pos, Depth(3), Value::min_legal(), Value::max_legal(), Opts::new().ab(false).pv(false)).next_position_value,
        ng_test(pos, Depth(3), Value::min_legal(), Value::max_legal(), Opts::new().ab(true).pv(true)).next_position_value,
    );
}

#[test]
fn same_score_at_three_plies_knight_ending() {
    same_score_at_three_plies(1);
}

#[test]
fn same_score_at_three_plies_rook_ending() {
    same_score_at_three_plies(2);
}

#[test]
fn same_score_at_three_plies_queen_against_rooks() {
    same_score_at_three_plies(3);
}

/// a repeated position is scored as a draw, not as a win for whoever is ahead.
#[test]
fn repetition_scores_as_draw() {
    // white is a queen up, but this position has already been played
    let b = board("4k3/8/8/8/8/8/8/Q6K w - - 0 1");
    let history = [b.get_hash()];

    let tt = TT::new();
    let result = negamax(
        Position::from(b),
        Depth(6),
        Value::min_legal(),
        Value::max_legal(),
        SearchOptions { extensions: Depth(0), game_history: &history, path: [0; SEARCH_PATH_LEN] },
        &Opts::new().engine_opts(),
        &tt.get(),
        &material_eval,
        &searching,
    );

    assert_eq!(result.next_position_value, Value::draw(), "a repetition should be a draw, not {:?}", result.next_position_value);
}

/// the fifty-move counter is a draw once it reaches its limit
#[test]
fn fifty_move_rule_is_a_draw() {
    // white is a rook up, but has shuffled for fifty moves
    let b = board("4k3/8/8/8/8/8/8/R3K3 w - - 0 1");
    let mut pos = Position::from(b);
    pos.halfmove_clock = FIFTY_MOVE_LIMIT;

    let tt = TT::new();
    let result = negamax(
        pos,
        Depth(4),
        Value::min_legal(),
        Value::max_legal(),
        SearchOptions::default(),
        &Opts::new().engine_opts(),
        &tt.get(),
        &material_eval,
        &searching,
    );

    assert_eq!(result.next_position_value, Value::draw(), "the fifty-move limit should be a draw, not {:?}", result.next_position_value);
}

/// neither side can mate, so the position is drawn however good the search
/// thinks the material looks.
#[test]
fn insufficient_material_is_a_draw() {
    for fen in ["4k3/8/8/8/8/8/8/4K3 w - - 0 1", "4k3/8/8/8/8/8/8/3BK3 w - - 0 1", "4k3/8/8/8/8/8/8/3NK3 w - - 0 1"] {
        let b = board(fen);
        assert!(Position::from(b).is_insufficient_material(), "{fen} should be a draw by insufficient material");

        let tt = TT::new();
        let result = negamax(
            Position::from(b),
            Depth(3),
            Value::min_legal(),
            Value::max_legal(),
            SearchOptions::default(),
            &Opts::new().engine_opts(),
            &tt.get(),
            &material_eval,
            &searching,
        );
        assert_eq!(result.next_position_value, Value::draw(), "{fen}");
    }

    // a single pawn can promote, so it is not insufficient
    let with_pawn = board("4k3/8/8/8/8/8/P7/4K3 w - - 0 1");
    assert!(!Position::from(with_pawn).is_insufficient_material());
}

/// a stopped search answers with the evaluation of the node it stopped in
#[test]
fn stopped_search_is_marked_aborted() {
    let pos = Position::from(board("rnbqkbnr/pppppppp/8/8/8/8/PPPPPPPP/RNBQKBNR w KQkq - 0 1"));
    let tt = TT::new();
    let stop = || false;
    let result = negamax(
        pos.clone(),
        Depth(2),
        Value::min_legal(),
        Value::max_legal(),
        SearchOptions::default(),
        &Opts::new().engine_opts(),
        &tt.get(),
        &material_eval,
        &stop,
    );
    assert!(result.aborted);
    assert_eq!(result.next_position_value, material_eval(&pos, false));
}

/// quiescence plays out the exchanges: a queen left hanging is taken
#[test]
fn quiescence_takes_a_hanging_queen() {
    // white to move, the black queen on d5 can be taken by the pawn on e4
    let pos = Position::from(board("4k3/8/8/3q4/4P3/8/8/4K3 w - - 0 1"));
    let opts = Opts::new().ab(false).engine_opts();
    let r = quiescence(pos, Value::min_legal(), Value::max_legal(), SearchOptions::default(), &opts, &material_eval);
    // after the pawn takes the queen, black has nothing to take back: it
    // stands a pawn down with the move, which is 75 for white
    assert_eq!(r.next_position_value, Value(75));
    assert_eq!(r.pv.len(), 1);
    assert_eq!(r.pv[0].0, mv("e4d5"));
}

/// with no capture on the board, quiescence is the stand pat
#[test]
fn quiescence_without_captures_is_the_stand_pat() {
    let pos = Position::from(board("4k3/8/8/8/8/8/4P3/4K3 w - - 0 1"));
    let opts = Opts::new().engine_opts();
    let r = quiescence(pos.clone(), Value::min_legal(), Value::max_legal(), SearchOptions::default(), &opts, &material_eval);
    assert_eq!(r.next_position_value, material_eval(&pos, false));
    assert!(r.pv.is_empty());
}

/// a node without moves is scored by the evaluation: checkmate
#[test]
fn checkmated_node_scores_mate() {
    let pos = Position::from(board("8/8/8/8/8/8/8/5KQk b - - 0 1"));
    let tt = TT::new();
    let r = negamax(
        pos,
        Depth(3),
        Value::min_legal(),
        Value::max_legal(),
        SearchOptions::default(),
        &Opts::new().engine_opts(),
        &tt.get(),
        &material_eval,
        &searching,
    );
    assert_eq!(r.next_position_value, Value(-32_000));
    assert!(r.pv.is_empty());
}


/// the interface keeps the best move reported, takes a guess only where it is
/// better, and answers with a ponder move only next to a best move
#[test]
fn reports_keep_the_best_and_answer() {
    let mut r = Reports::new();
    assert_eq!(r.answer(Some(mv("e2e4"))), (Some(mv("e2e4")), None));
    assert_eq!(r.answer(None), (None, None));
    r.ponder_move(MV(mv("e7e5"), Value(0)));
    assert_eq!(r.answer(None), (None, None));
    r.best_guess(MV(mv("d2d4"), Value(10)));
    r.best_guess(MV(mv("c2c4"), Value(5)));
    assert_eq!(r.best, Some(MV(mv("d2d4"), Value(10))));
    r.best_guess(MV(mv("c2c4"), Value(11)));
    assert_eq!(r.best, Some(MV(mv("c2c4"), Value(11))));
    r.best_move(MV(mv("g1f3"), Value(3)));
    assert_eq!(r.answer(Some(mv("e2e4"))), (Some(mv("g1f3")), Some(mv("e7e5"))));
}

/// the engine keeps the positions played since the last irreversible move
#[test]
fn engine_keeps_the_game() {
    let mut e = Engine::new(Opts::new().engine_opts());
    assert!(e.history.is_empty());
    assert_eq!(e.board.chessboard.to_fen(), "rnbqkbnr/pppppppp/8/8/8/8/PPPPPPPP/RNBQKBNR w KQkq - 0 1");
    assert_eq!(e.eng_opts, Opts::new().engine_opts());
    e.reset_history();
    assert_eq!(e.history, vec![e.board.chessboard.get_hash()]);
    e.make_move(mv("g1f3"));
    assert_eq!(e.history.len(), 2);
    assert_eq!(e.board.halfmove_clock, 1);
    e.log_position(e.board.clone());
    assert_eq!(e.history.len(), 3);
    e.make_move(mv("e7e5"));
    assert_eq!(e.history, vec![e.board.chessboard.get_hash()]);
    assert_eq!(e.board.halfmove_clock, 0);
}

/// the engine's table is resized to the power of two below the entries that
/// fit, and can be emptied
#[test]
fn engine_resizes_and_clears_its_table() {
    let mut e = Engine::new(Opts::new().engine_opts());
    assert_eq!(e.resize_table(1024), Ok(32));
    assert_eq!(e.resize_table(0), Ok(0));
    assert_eq!(e.clear_table(), Ok(()));
    assert_eq!(e.setup(), Ok(()));
    assert_eq!(e.clean_up(), Ok(()));
}

/// a search stores its result, and the same search again is answered by
/// the table: one node, one table hit, the same score
#[test]
fn table_answers_a_repeated_search() {
    let pos = Position::from(board("4k3/8/8/8/8/8/4P3/4K3 w - - 0 1"));
    let tt = TT::new();
    let opts = Opts::new().engine_opts();
    let first = negamax(pos.clone(), Depth(2), Value::min_legal(), Value::max_legal(), SearchOptions::default(), &opts, &tt.get(), &material_eval, &searching);
    let again = negamax(pos, Depth(2), Value::min_legal(), Value::max_legal(), SearchOptions::default(), &opts, &tt.get(), &material_eval, &searching);
    assert!(first.nodes_searched > 1);
    assert_eq!(again.nodes_searched, 1);
    assert_eq!(again.tb_hits, 1);
    assert_eq!(again.next_position_value, first.next_position_value);
    assert_eq!(again.pv[0], first.pv[0]);
}

/// without alpha-beta every move of the root is searched; the best one
/// heads the principal variation with the node's score
#[test]
fn the_best_child_heads_the_line() {
    // white takes the undefended rook
    let pos = Position::from(board("4k3/8/8/8/8/8/r7/R3K3 w - - 0 1"));
    let tt = TT::new();
    let opts = Opts::new().ab(false).tt(false).engine_opts();
    let r = negamax(pos, Depth(1), Value::min_legal(), Value::max_legal(), SearchOptions::default(), &opts, &tt.get(), &material_eval, &searching);
    assert_eq!(r.pv[0].0, mv("a1a2"));
    assert_eq!(r.pv[0].1, r.next_position_value);
}

/// the root searches the move of the last principal variation first, then
/// every other legal move
#[test]
fn root_moves_start_with_the_principal_variation() {
    let b = board("rnbqkbnr/pppppppp/8/8/8/8/PPPPPPPP/RNBQKBNR w KQkq - 0 1");
    let moves = root_moves(&b, Some(mv("g1f3")));
    assert_eq!(moves[0], mv("g1f3"));
    assert_eq!(moves.len(), 20);
    assert_eq!(moves.iter().filter(|m| **m == mv("g1f3")).count(), 1);
    let plain = root_moves(&b, None);
    assert_eq!(plain.len(), 20);
}

/// a root move is searched one ply less deep, from the other side: the
/// score is turned to the side to move at the root
#[test]
fn root_move_scores_for_the_root() {
    let pos = Position::from(board("4k3/8/8/8/8/8/r7/R3K3 w - - 0 1"));
    let tt = TT::new();
    let opts = Opts::new().ab(false).tt(false).engine_opts();
    let r = search_root_move(&pos, mv("a1a2"), Depth(1), Value::min_legal(), &[], &opts, &tt.get(), &material_eval, &searching);
    // white wins the rook: after the capture black stands a rook down with
    // the move, which is 500 - 25 for white
    assert_eq!(r.next_position_value, Value(475));
}

/// one depth of the root search, as the iterative deepening runs it: every
/// root move searched with the best score so far as alpha, and tallied
fn best_root_move(pos: &Position, depth: Depth, opts: &Opts) -> Option<Move> {
    let tt = TT::new();
    let mut root = RootNode::new(pos.clone());
    let mut tally = RootTally::new();
    tally.start_depth();
    let mut alpha = Value::min_legal();
    for m in root_moves(&pos.chessboard, None) {
        let r = search_root_move(pos, m, depth, alpha, &[], &opts.engine_opts(), &tt.get(), &material_eval, &searching);
        if r.next_position_value > alpha {
            alpha = r.next_position_value;
        }
        tally.record(&mut root, m, r);
    }
    tally.best_move
}

#[test]
fn the_root_search_finds_the_mate_in_one() {
    let pos = Position::from(board("8/8/8/6Q1/8/8/8/5K1k w - - 0 1"));
    for d in 2..5 {
        let m = best_root_move(&pos, Depth(d), &Opts::new().ab(false).pv(false)).unwrap();
        let after = pos.make_move(m);
        assert!(legal_of(&after.chessboard).is_empty(), "depth={d} move={m:?}");
        assert!(after.chessboard.checkers() != 0, "depth={d} move={m:?}");
    }
}

#[test]
fn the_root_search_checkmates_the_author() {
    let pos = Position::from(board("1n1k4/r1pp1p2/7p/8/1p1q4/6r1/4q3/1K6 b - - 0 1"));
    let m = best_root_move(&pos, Depth(2), &Opts::new()).unwrap();
    let after = pos.make_move(m);
    assert!(legal_of(&after.chessboard).is_empty(), "move={m:?}");
    assert!(after.chessboard.checkers() != 0, "move={m:?}");
}

/// all legal moves of a board
fn legal_of(b: &BoardState) -> Vec<Move> {
    let mut mg = movegen_new(b);
    let mut r = Vec::new();
    while let Some(m) = movegen_next(&mut mg) {
        r.push(m);
    }
    r
}
