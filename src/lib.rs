//! Task digest engine for a home-automation announcer: task and event records,
//! their effective times (nominal due time, recurrence and preparation lead),
//! and the queries "does anything need an alert soon" and "what is due today".

pub mod clock;
pub mod config;
pub mod content;
pub mod engine;
mod filter_lemmas;
pub mod playback;
pub mod record;
