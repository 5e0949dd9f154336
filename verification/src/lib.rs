//! A chess engine library: a static position evaluator, a negamax search
//! with alpha-beta pruning, and the message model and line codec of the
//! UCI protocol subset used to drive an external analysis engine.

pub mod board;
pub mod eval;
pub mod movegen;
pub mod protocol;
pub mod score;
pub mod search;
pub mod uci;
pub mod util;
