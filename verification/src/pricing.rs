use vstd::prelude::*;

verus! {

/// LLM provider whose cache mechanics are tracked.
#[derive(Debug, Clone, Copy, PartialEq, Eq, Hash)]
pub enum Provider {
    /// Anthropic direct API.
    Anthropic,
    /// OpenAI direct API.
    OpenAI,
    /// AWS Bedrock.
    Bedrock,
}

/// Prices of one provider tier, each in micro-dollars per million tokens
/// (which is the same number as pico-dollars per token).
#[derive(Debug, Clone, Copy, PartialEq, Eq)]
pub struct Pricing {
    /// Plain (uncached) input tokens.
    pub input_per_mtok: u64,
    /// Tokens read from cache.
    pub cache_read_per_mtok: u64,
    /// Tokens written into cache (5-minute tier).
    pub cache_write_5m_per_mtok: u64,
    /// Tokens written into cache (1-hour tier).
    pub cache_write_1h_per_mtok: u64,
    /// Output tokens.
    pub output_per_mtok: u64,
}

/// Anthropic Sonnet 4 default pricing as of late 2025
/// ($3.00 / $0.30 / $3.75 / $6.00 / $15.00 per million tokens).
#[verifier::allow_in_spec]
pub fn default_anthropic_pricing() -> Pricing
    returns
        (Pricing {
            input_per_mtok: 3_000_000,
            cache_read_per_mtok: 300_000,
            cache_write_5m_per_mtok: 3_750_000,
            cache_write_1h_per_mtok: 6_000_000,
            output_per_mtok: 15_000_000,
        }),
{
    Pricing {
        input_per_mtok: 3_000_000,
        cache_read_per_mtok: 300_000,
        cache_write_5m_per_mtok: 3_750_000,
        cache_write_1h_per_mtok: 6_000_000,
        output_per_mtok: 15_000_000,
    }
}

/// OpenAI GPT-4o default pricing as of late 2025
/// ($2.50 / $1.25 / $2.50 / $2.50 / $10.00 per million tokens).
#[verifier::allow_in_spec]
pub fn default_openai_pricing() -> Pricing
    returns
        (Pricing {
            input_per_mtok: 2_500_000,
            cache_read_per_mtok: 1_250_000,
            cache_write_5m_per_mtok: 2_500_000,
            cache_write_1h_per_mtok: 2_500_000,
            output_per_mtok: 10_000_000,
        }),
{
    Pricing {
        input_per_mtok: 2_500_000,
        cache_read_per_mtok: 1_250_000,
        cache_write_5m_per_mtok: 2_500_000,
        cache_write_1h_per_mtok: 2_500_000,
        output_per_mtok: 10_000_000,
    }
}

/// Bedrock default pricing as of late 2025
/// ($3.00 / $0.30 / $3.75 / $6.00 / $15.00 per million tokens).
#[verifier::allow_in_spec]
pub fn default_bedrock_pricing() -> Pricing
    returns
        (Pricing {
            input_per_mtok: 3_000_000,
            cache_read_per_mtok: 300_000,
            cache_write_5m_per_mtok: 3_750_000,
            cache_write_1h_per_mtok: 6_000_000,
            output_per_mtok: 15_000_000,
        }),
{
    Pricing {
        input_per_mtok: 3_000_000,
        cache_read_per_mtok: 300_000,
        cache_write_5m_per_mtok: 3_750_000,
        cache_write_1h_per_mtok: 6_000_000,
        output_per_mtok: 15_000_000,
    }
}

/// The default pricing of each provider.
pub open spec fn default_pricing_of(provider: Provider) -> Pricing {
    match provider {
        Provider::Anthropic => default_anthropic_pricing(),
        Provider::OpenAI => default_openai_pricing(),
        Provider::Bedrock => default_bedrock_pricing(),
    }
}

impl Provider {
    /// Returns the default per-million-token pricing for this provider.
    pub fn default_pricing(&self) -> (pricing: Pricing)
        ensures
            pricing == default_pricing_of(*self),
    {
        match self {
            Provider::Anthropic => default_anthropic_pricing(),
            Provider::OpenAI => default_openai_pricing(),
            Provider::Bedrock => default_bedrock_pricing(),
        }
    }
}

} // verus!
