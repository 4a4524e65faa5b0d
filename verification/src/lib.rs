//! Verified core of a Yahoo Finance client: exact price adjustment
//! arithmetic, request and response shaping, and text extraction.
#![allow(unused_imports)]

pub mod bignat;
pub mod decimal;
pub mod ratio;
pub mod adjust;
pub mod client;
pub mod history;
pub mod holders;
pub mod news;
pub mod quote;
pub mod stream;
pub mod ticker;
pub mod text;
pub mod scrape;
pub mod profile;
pub mod isin;
pub mod chart;
pub mod assemble;
pub mod actions;
pub mod dump;
pub mod search;
pub mod json;
pub mod payload;
pub mod options;
pub mod info;
pub mod response;
pub mod symbol;
