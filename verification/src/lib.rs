//! Extraction of ranked post records from news-aggregator listing pages.
//!
//! A listing page is modelled as a sequence of sibling rows ([`dom::Page`]);
//! each row carries its descendant elements as plain values. The library
//! locates story rows, assembles validated [`post::Post`] records from them,
//! aggregates pages into one ranked sequence capped at a requested count, and
//! renders the result as JSON with absent fields omitted. Fetching markup and
//! parsing it into the row model are left to the surrounding application.

pub mod athing;
pub mod dom;
pub mod fetch;
pub mod json;
pub mod laws;
pub mod post;
pub mod text;
