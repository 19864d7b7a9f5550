//! A word-explanation service: request validation, prompt construction,
//! answer caching keys, a bounded history of explanations, a fixed-window
//! rate limiter, and decoding of the streamed answer.
use vstd::prelude::*;

pub mod answer;
pub mod chat;
pub mod config;
pub mod error;
pub mod history;
pub mod ollama;
pub mod prompts;
pub mod ratelimit;
pub mod streaming;
pub mod text;
pub mod types;

verus! {

/// The largest request body the service reads, in bytes.
pub const MAX_BODY_BYTES: usize = 8 * 1024;

/// How many answers the answer cache keeps.
pub const CACHE_MAX_CAPACITY: u64 = 500;

/// How long the answer cache keeps an answer, in seconds (one hour).
pub const CACHE_TTL_SECS: u64 = 3600;

/// How many requests one rate-limit window admits.
pub const RATE_LIMIT_REQUESTS: u64 = 120;

/// The length of one rate-limit window, in seconds.
pub const RATE_LIMIT_WINDOW_SECS: u64 = 60;

/// How many history entries a request gets when it names no limit.
pub const DEFAULT_HISTORY_LIMIT: usize = 20;

/// How many entries the history keeps.
pub const MAX_HISTORY_ENTRIES: usize = 50;

} // verus!
