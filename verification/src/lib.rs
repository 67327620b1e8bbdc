//! # Sandy Engine
//! the verified core of a chess engine: scores, transposition table entries,
//! move ordering, draw rules, the negamax and quiescence searches and their
//! bookkeeping, and the game state the engine keeps.

pub mod values;
pub mod ops;
pub mod pieces;
pub mod fen;
pub mod board;
pub mod bounds;
pub mod entry;
pub mod search;
pub mod table;
pub mod ordering;
pub mod material;
pub mod history;
pub mod position;
pub mod opts;
pub mod util;
pub mod timing;
pub mod root;
pub mod shared;
pub mod window;
pub mod quiescence;
pub mod negamax;
pub mod engine;
pub mod bench;
