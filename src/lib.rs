//! Glicko-2 ratings computed from an archive of chess game records: a record
//! adapter that turns one game's headers and result into an outcome, a stable
//! sort by date, a rating engine, a per-day rating history and a leaderboard.
mod date;
mod engine;
mod glicko;
mod history;
mod laws;
mod order;
mod pgn;

pub use date::{parse_date, parsed_date_of, CalendarDate};
pub use engine::{applied, applied_all, current, qualifies, LeaderboardEntry, RatingEngine};
pub use glicko::{
    baseline_bits, deviation_key, first_win, is_baseline, order_key, rating_key, state_bits_of,
    total_order_key,
};
pub use history::{history_of, rate_games, HistoryPoint, RatingHistory};
pub use laws::{
    lemma_disjoint_games_commute, lemma_unknown_result_yields_no_game, lemma_unseen_competitor_has_baseline,
};
pub use order::{on_date, sort_by_date, sorted_by_date};
pub use pgn::{
    after_header, after_outcome, collect_record, header_fails, yields_game, ErrorKind, GameResult, Outcome, OutcomeError,
    OutcomeResult, RecordView,
};
