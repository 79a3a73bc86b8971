//! Pea: a UCI chess engine library whose search data structures, move
//! ordering, evaluation and protocol parsing are verified with Verus.
//! Move generation and board bookkeeping come from `shakmaty`.

pub mod types;
pub mod chess;
pub mod position;
pub mod tt;
pub mod history;
pub mod pv;
pub mod hash;
pub mod corrhist;
pub mod network;
pub mod see;
pub mod nnue_state;
pub mod params;
pub mod clock;
pub mod ordering;
pub mod context;
pub mod eval;
pub mod time_manager;
pub mod search;
pub mod flags;
pub mod text;
pub mod uci;
pub mod random;
pub mod datagen;
pub mod filter;
pub mod tuner;
pub mod engine;
