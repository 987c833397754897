//! Prompt-cache observability for LLM APIs.
//!
//! Feed a [`CacheTracker`] the [`Usage`] that a provider returns for each
//! call and get per-call cache hit ratios, exact costs, savings versus
//! uncached pricing, miss alerts and per-prefix breakdowns. Group calls by a
//! stable [`fingerprint`] of their cacheable prefix.
//!
//! All money is exact integer arithmetic: prices are held in micro-dollars
//! per million tokens (equivalently pico-dollars per token), so a cost is a
//! whole number of pico-dollars (10^-12 USD). Hit ratios and alert
//! thresholds are exact fractions ([`Ratio`]).

pub mod fingerprint;
pub mod history;
pub mod laws;
pub mod metrics;
pub mod pricing;
pub mod tracker;

pub use crate::fingerprint::{encode_payload, fingerprint, prefix_id};
pub use crate::history::{Aggregate, CallHistory, PrefixStats};
pub use crate::metrics::{CallMetrics, Ratio, Usage};
pub use crate::pricing::{
    default_anthropic_pricing, default_bedrock_pricing, default_openai_pricing, Pricing, Provider,
};
pub use crate::tracker::{misses_threshold, CacheTracker};
