//! Maximum account value over a sequence of transactions, reported in the
//! account's currency and in US dollars.
//!
//! Amounts are exact decimals: every value that enters a calculation is cut
//! down to whole cents, and all arithmetic after that is integer arithmetic on
//! cents.

pub mod failure;
pub mod money;
pub mod text;
pub mod calc;
pub mod cli;
pub mod config;
pub mod json;
pub mod toml;
