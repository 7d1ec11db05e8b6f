//! Link summaries for chat channels: the message dispatcher, the bounded
//! HTTP retrieval session, title and metadata extraction, the history of
//! announced links and the per-site title plugins.

pub mod config;
pub mod cookies;
pub mod export;
pub mod history;
pub mod http;
pub mod message;
pub mod plugins;
pub mod text;
pub mod title;
pub mod tld;
pub mod url;

use vstd::prelude::*;

verus! {

/// The version of this library and of the bot built on it.
pub const VERSION: &'static str = "0.4.3";

} // verus!
