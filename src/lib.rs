//! Normalisation, digest and scheduling logic of a market-data notification bot.
pub mod json;
pub mod text;
pub mod calendar;
pub mod digest;
pub mod fundamentals;
pub mod holders;
pub mod options;
pub mod quotes;
pub mod respond;
pub mod scheduler;
