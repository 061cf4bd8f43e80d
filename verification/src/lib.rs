//! Multi-provider failover for LLM calls.
//!
//! Wrap an ordered list of `(name, callable)` provider pairs. Each call tries
//! them in order. If a provider returns `Err`, the chain decides whether to fall
//! back or re-raise, then moves on. You get back a [`ChainResult`] with the
//! return value, the winning provider name, and a trace of every failed attempt.

pub mod async_chain;
pub mod attempt;
pub mod history_laws;
pub mod laws;
pub mod model;
mod roster;
pub mod std_items;
pub mod sync_chain;
pub mod text;
pub mod trace;
pub mod turn;

pub use async_chain::AsyncFallbackChain;
pub use attempt::{AllProvidersFailed, Attempt, AttemptView, ChainError, ChainResult};
pub use sync_chain::{DynError, FallbackChain, OnFallback, ShouldFallBack, SyncProvider};
pub use trace::{Event, Trace};
pub use turn::{Progress, Turn};
