use vstd::prelude::*;
use std::time::{Duration, SystemTime};

use crate::pricing::{Pricing, Provider};

verus! {

/// A wall-clock instant, carried through unread.
#[verifier::external_type_specification]
#[verifier::external_body]
pub struct ExSystemTime(SystemTime);

/// Token usage breakdown extracted from a provider response.
#[derive(Debug, Clone, Copy, Default, PartialEq, Eq)]
pub struct Usage {
    /// Plain uncached input tokens.
    pub input_tokens: u64,
    /// Tokens served from cache (a "hit").
    pub cache_read_tokens: u64,
    /// Tokens written to cache on this call (a "miss" that populated cache).
    pub cache_creation_tokens: u64,
    /// Output tokens generated.
    pub output_tokens: u64,
}

impl Usage {
    /// Tokens of the cacheable prefix: read from cache or written to it.
    pub open spec fn cacheable(self) -> int {
        self.cache_read_tokens + self.cache_creation_tokens
    }

    /// All prompt tokens: plain input plus the cacheable prefix.
    pub open spec fn prompt_tokens(self) -> int {
        self.input_tokens + self.cache_read_tokens + self.cache_creation_tokens
    }
}

/// An exact fraction `numerator / denominator`.
#[derive(Debug, Clone, Copy, PartialEq, Eq)]
pub struct Ratio {
    /// The numerator.
    pub numerator: u64,
    /// The denominator.
    pub denominator: u64,
}

impl Ratio {
    /// `self < other` as fractions, by cross-multiplication. A zero
    /// denominator reads as a value above every fraction when the numerator
    /// is positive, and as a value below none when it is `0/0`.
    pub open spec fn less_than(self, other: Ratio) -> bool {
        self.numerator * other.denominator < other.numerator * self.denominator
    }
}

/// The fraction `hits / (hits + misses)`, or `None` when there were no
/// cacheable tokens at all.
pub open spec fn hit_ratio_of(hits: int, misses: int) -> Option<Ratio> {
    if hits + misses == 0 {
        None
    } else {
        Some(Ratio { numerator: hits as u64, denominator: (hits + misses) as u64 })
    }
}

/// Cost of a call in pico-dollars.
pub open spec fn cost_of(usage: Usage, pricing: Pricing) -> int {
    usage.input_tokens * pricing.input_per_mtok
        + usage.cache_read_tokens * pricing.cache_read_per_mtok
        + usage.cache_creation_tokens * pricing.cache_write_5m_per_mtok
        + usage.output_tokens * pricing.output_per_mtok
}

/// What the prompt of a call actually cost, in pico-dollars.
pub open spec fn paid_prompt_of(usage: Usage, pricing: Pricing) -> int {
    usage.input_tokens * pricing.input_per_mtok
        + usage.cache_read_tokens * pricing.cache_read_per_mtok
        + usage.cache_creation_tokens * pricing.cache_write_5m_per_mtok
}

/// What the prompt of a call would have cost at the plain input price, in
/// pico-dollars.
pub open spec fn full_prompt_of(usage: Usage, pricing: Pricing) -> int {
    usage.prompt_tokens() * pricing.input_per_mtok
}

/// Pico-dollars saved by caching versus paying the plain input price for
/// every prompt token. Negative when cache writes cost more than they saved.
pub open spec fn saved_of(usage: Usage, pricing: Pricing) -> int {
    full_prompt_of(usage, pricing) - paid_prompt_of(usage, pricing)
}

/// `x * y`, exactly, in 128 bits.
pub fn wide_mul(x: u64, y: u64) -> (product: u128)
    ensures
        product == x * y,
{
    assert(0 <= x * y <= 0xffff_ffff_ffff_ffffu64 * 0xffff_ffff_ffff_ffffu64) by (nonlinear_arith)
        requires
            0 <= x <= 0xffff_ffff_ffff_ffffu64,
            0 <= y <= 0xffff_ffff_ffff_ffffu64,
    ;
    (x as u128) * (y as u128)
}

/// `a - b` as a signed 128-bit number.
pub fn signed_difference(a: u128, b: u128) -> (diff: i128)
    requires
        i128::MIN <= a - b <= i128::MAX,
    ensures
        diff == a - b,
{
    if a >= b {
        (a - b) as i128
    } else {
        let d: u128 = b - a;
        if d == 0x8000_0000_0000_0000_0000_0000_0000_0000u128 {
            i128::MIN
        } else {
            -(d as i128)
        }
    }
}

/// One recorded LLM call with cache metrics attached.
#[derive(Debug)]
pub struct CallMetrics {
    /// Which provider this call hit.
    pub provider: Provider,
    /// Stable hash of the cacheable prefix; same prefix = same id.
    pub prefix_id: String,
    /// Token usage breakdown.
    pub usage: Usage,
    /// Wall-clock latency of the call.
    pub elapsed: Duration,
    /// Recorded at this moment.
    pub timestamp: SystemTime,
}

impl Clone for CallMetrics {
    fn clone(&self) -> (copy: Self)
        ensures
            copy == *self,
    {
        CallMetrics {
            provider: self.provider,
            prefix_id: self.prefix_id.clone(),
            usage: self.usage,
            elapsed: self.elapsed,
            timestamp: self.timestamp,
        }
    }
}

impl CallMetrics {
    /// Cache hit ratio over the cacheable portion of this call: tokens read
    /// from cache over tokens read from or written to cache. `None` if no
    /// cacheable prefix was sent.
    pub fn hit_ratio(&self) -> (ratio: Option<Ratio>)
        requires
            self.usage.cacheable() <= u64::MAX,
        ensures
            ratio == hit_ratio_of(
                self.usage.cache_read_tokens as int,
                self.usage.cache_creation_tokens as int,
            ),
    {
        let cacheable = self.usage.cache_read_tokens + self.usage.cache_creation_tokens;
        if cacheable == 0 {
            None
        } else {
            Some(Ratio { numerator: self.usage.cache_read_tokens, denominator: cacheable })
        }
    }

    /// Cost of this call in pico-dollars (10^-12 USD) under `pricing`.
    pub fn cost_usd(&self, pricing: &Pricing) -> (cost: u128)
        requires
            cost_of(self.usage, *pricing) <= u128::MAX,
        ensures
            cost == cost_of(self.usage, *pricing),
    {
        let input = wide_mul(self.usage.input_tokens, pricing.input_per_mtok);
        let read = wide_mul(self.usage.cache_read_tokens, pricing.cache_read_per_mtok);
        let write = wide_mul(self.usage.cache_creation_tokens, pricing.cache_write_5m_per_mtok);
        let output = wide_mul(self.usage.output_tokens, pricing.output_per_mtok);
        input + read + write + output
    }

    /// Pico-dollars saved versus paying the plain input price for every
    /// prompt token (negative when cache writes cost more than they saved).
    pub fn cost_saved_usd(&self, pricing: &Pricing) -> (saved: i128)
        requires
            self.usage.prompt_tokens() <= u64::MAX,
            paid_prompt_of(self.usage, *pricing) <= u128::MAX,
            i128::MIN <= saved_of(self.usage, *pricing) <= i128::MAX,
        ensures
            saved == saved_of(self.usage, *pricing),
    {
        let prompt = self.usage.input_tokens + self.usage.cache_read_tokens
            + self.usage.cache_creation_tokens;
        let full = wide_mul(prompt, pricing.input_per_mtok);
        let input = wide_mul(self.usage.input_tokens, pricing.input_per_mtok);
        let read = wide_mul(self.usage.cache_read_tokens, pricing.cache_read_per_mtok);
        let write = wide_mul(self.usage.cache_creation_tokens, pricing.cache_write_5m_per_mtok);
        signed_difference(full, input + read + write)
    }
}

} // verus!
