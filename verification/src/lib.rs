//! Weekly "best players" vote: time windows, eligibility, the ballot life
//! cycle, the weighted tally and its memoised result, all over plain values
//! and exact integer arithmetic.

pub mod timings;
pub mod error;
pub mod player;
pub mod list;
pub mod ballot;
pub mod eligibility;
pub mod voting;
pub mod weight;
pub mod score;
pub mod tally;
pub mod stats;
pub mod entries;
pub mod cross;
pub mod order;
pub mod ranking;
pub mod apuracao;
