//! Validation of attested exchange-account responses and their aggregation
//! into a per-asset balance summary.
//!
//! The library works on plain values: the URLs of the attested requests and,
//! for each response message, what the field extractor answered. It checks
//! every request, derives the account keys, refuses duplicates and folds the
//! balance rows into a ledger that is then split into the stablecoin bucket
//! and the other assets. Amounts are carried as decimal text and never
//! computed with: the caller sums them.

pub mod account;
pub mod call;
pub mod category;
pub mod correlate;
pub mod dedup;
pub mod errors;
pub mod fields;
pub mod laws;
pub mod ledger;
pub mod meta;
pub mod order;
pub mod permutation;
pub mod pipeline;
pub mod processors;
pub mod product;
pub mod request;
pub mod rows;
pub mod structs;
pub mod text;
