//! Text analytics for book contents: tokenization into normalized words,
//! word-frequency aggregation, stopword-aware ranking, and derived totals.
#![verifier::loop_isolation(false)]

pub mod book;
pub mod rank;
pub mod stop_words;
pub mod text;
pub mod unicode;
pub mod utils;
pub mod wordmap;
