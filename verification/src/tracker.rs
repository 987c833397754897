use vstd::prelude::*;
use std::time::{Duration, SystemTime};

use crate::history::{
    aggregate_fits, aggregate_of, by_prefix_fits, grouped_calls, grouped_savings, is_prefix_breakdown, retain_last, tally,
    Aggregate, CallHistory, PrefixStats,
};
use crate::metrics::{wide_mul, CallMetrics, Ratio, Usage};
use crate::pricing::{default_pricing_of, Pricing, Provider};

verus! {

/// The hit ratio of a call with usage `usage` is below `threshold`: the
/// call sent a cacheable prefix, and the fraction of it read from cache is
/// smaller than `threshold`.
pub open spec fn misses_threshold_spec(usage: Usage, threshold: Ratio) -> bool {
    &&& usage.cacheable() > 0
    &&& usage.cache_read_tokens * threshold.denominator < threshold.numerator * usage.cacheable()
}

/// Whether a call with usage `usage` should fire the miss alert for
/// `threshold`: it sent a cacheable prefix and its hit ratio is below the
/// threshold. A call without cacheable tokens never fires.
pub fn misses_threshold(usage: &Usage, threshold: &Ratio) -> (fires: bool)
    requires
        usage.cacheable() <= u64::MAX,
    ensures
        fires == misses_threshold_spec(*usage, *threshold),
{
    let cacheable = usage.cache_read_tokens + usage.cache_creation_tokens;
    if cacheable == 0 {
        false
    } else {
        wide_mul(usage.cache_read_tokens, threshold.denominator) < wide_mul(
            threshold.numerator,
            cacheable,
        )
    }
}

/// The current wall-clock time. Nothing is stated of it: it depends on the
/// moment of the call.
#[verifier::external_body]
fn current_time() -> SystemTime {
    SystemTime::now()
}

/// Records per-call cache metrics and exposes aggregate and per-prefix
/// views.
pub struct CacheTracker {
    provider: Provider,
    pricing: Pricing,
    miss_alert_threshold: Ratio,
    history_size: usize,
    history: CallHistory,
}

impl CacheTracker {
    /// The provider this tracker is configured for.
    pub closed spec fn spec_provider(&self) -> Provider {
        self.provider
    }

    /// The pricing used for costs and savings.
    pub closed spec fn spec_pricing(&self) -> Pricing {
        self.pricing
    }

    /// The hit ratio below which a cacheable call fires the miss alert.
    pub closed spec fn spec_threshold(&self) -> Ratio {
        self.miss_alert_threshold
    }

    /// How many recent calls are retained.
    pub closed spec fn spec_history_size(&self) -> nat {
        self.history_size as nat
    }

    /// The retained calls, oldest first.
    pub closed spec fn spec_calls(&self) -> Seq<CallMetrics> {
        self.history@
    }

    /// `self` and `other` have the same provider, pricing, threshold and
    /// history size.
    pub open spec fn same_config(&self, other: &CacheTracker) -> bool {
        &&& self.spec_provider() == other.spec_provider()
        &&& self.spec_pricing() == other.spec_pricing()
        &&& self.spec_threshold() == other.spec_threshold()
        &&& self.spec_history_size() == other.spec_history_size()
    }

    /// A tracker for `provider` with its default pricing, a miss-alert
    /// threshold of 3/5, room for 10,000 calls and no history.
    pub fn new(provider: Provider) -> (tracker: Self)
        ensures
            tracker.spec_provider() == provider,
            tracker.spec_pricing() == default_pricing_of(provider),
            tracker.spec_threshold() == (Ratio { numerator: 3, denominator: 5 }),
            tracker.spec_history_size() == 10_000,
            tracker.spec_calls() == Seq::<CallMetrics>::empty(),
    {
        CacheTracker {
            provider,
            pricing: provider.default_pricing(),
            miss_alert_threshold: Ratio { numerator: 3, denominator: 5 },
            history_size: 10_000,
            history: CallHistory::new(),
        }
    }

    /// Override pricing.
    pub fn with_pricing(self, pricing: Pricing) -> (tracker: Self)
        ensures
            tracker.spec_pricing() == pricing,
            tracker.spec_provider() == self.spec_provider(),
            tracker.spec_threshold() == self.spec_threshold(),
            tracker.spec_history_size() == self.spec_history_size(),
            tracker.spec_calls() == self.spec_calls(),
    {
        let mut tracker = self;
        tracker.pricing = pricing;
        tracker
    }

    /// Set the hit ratio below which a cacheable call fires the miss alert.
    pub fn with_alert_threshold(self, threshold: Ratio) -> (tracker: Self)
        ensures
            tracker.spec_threshold() == threshold,
            tracker.spec_provider() == self.spec_provider(),
            tracker.spec_pricing() == self.spec_pricing(),
            tracker.spec_history_size() == self.spec_history_size(),
            tracker.spec_calls() == self.spec_calls(),
    {
        let mut tracker = self;
        tracker.miss_alert_threshold = threshold;
        tracker
    }

    /// Set how many recent calls to retain. The history is trimmed to the
    /// new size at the next call recorded.
    pub fn with_history_size(self, size: usize) -> (tracker: Self)
        ensures
            tracker.spec_history_size() == size,
            tracker.spec_provider() == self.spec_provider(),
            tracker.spec_pricing() == self.spec_pricing(),
            tracker.spec_threshold() == self.spec_threshold(),
            tracker.spec_calls() == self.spec_calls(),
    {
        let mut tracker = self;
        tracker.history_size = size;
        tracker
    }

    /// Record a call made at `timestamp` and return its metrics. The call
    /// joins the history as the newest one, and the oldest calls are dropped
    /// until at most the history size remain.
    pub fn record_at(
        &mut self,
        prefix_id: String,
        usage: Usage,
        elapsed: Duration,
        timestamp: SystemTime,
    ) -> (metrics: CallMetrics)
        requires
            usage.cacheable() <= u64::MAX,
        ensures
            metrics == (CallMetrics {
                provider: old(self).spec_provider(),
                prefix_id,
                usage,
                elapsed,
                timestamp,
            }),
            final(self).spec_calls() == retain_last(
                old(self).spec_calls().push(metrics),
                old(self).spec_history_size(),
            ),
            final(self).same_config(old(self)),
    {
        let metrics = CallMetrics { provider: self.provider, prefix_id, usage, elapsed, timestamp };
        self.history.push_trimmed(metrics.clone(), self.history_size);
        metrics
    }

    /// Record a call made now and return its metrics. The call joins the
    /// history as the newest one, and the oldest calls are dropped until at
    /// most the history size remain.
    pub fn record(&mut self, prefix_id: String, usage: Usage, elapsed: Duration) -> (metrics:
        CallMetrics)
        requires
            usage.cacheable() <= u64::MAX,
        ensures
            metrics.provider == old(self).spec_provider(),
            metrics.prefix_id == prefix_id,
            metrics.usage == usage,
            metrics.elapsed == elapsed,
            final(self).spec_calls() == retain_last(
                old(self).spec_calls().push(metrics),
                old(self).spec_history_size(),
            ),
            final(self).same_config(old(self)),
    {
        let timestamp = current_time();
        self.record_at(prefix_id, usage, elapsed, timestamp)
    }

    /// Whether a call with usage `usage` fires this tracker's miss alert.
    pub fn fires_miss_alert(&self, usage: &Usage) -> (fires: bool)
        requires
            usage.cacheable() <= u64::MAX,
        ensures
            fires == misses_threshold_spec(*usage, self.spec_threshold()),
    {
        misses_threshold(usage, &self.miss_alert_threshold)
    }

    /// All recorded calls, oldest first.
    pub fn calls(&self) -> (calls: Vec<CallMetrics>)
        ensures
            calls@ == self.spec_calls(),
    {
        self.history.calls()
    }

    /// Drop all recorded history.
    pub fn reset(&mut self)
        ensures
            final(self).spec_calls() == Seq::<CallMetrics>::empty(),
            final(self).same_config(old(self)),
    {
        self.history.clear();
    }

    /// The provider this tracker is configured for.
    pub fn provider(&self) -> (provider: Provider)
        ensures
            provider == self.spec_provider(),
    {
        self.provider
    }

    /// Aggregate across all recorded calls.
    pub fn aggregate(&self) -> (aggregate: Aggregate)
        requires
            aggregate_fits(self.spec_calls(), self.spec_pricing()),
        ensures
            aggregate == aggregate_of(self.spec_calls(), self.spec_pricing()),
    {
        self.history.aggregate(&self.pricing)
    }

    /// Group recorded calls by prefix id, in the order in which each prefix
    /// id first occurs. The groups' calls and savings add up to those of the
    /// whole history.
    pub fn by_prefix(&self) -> (groups: Vec<(String, PrefixStats)>)
        requires
            by_prefix_fits(self.spec_calls(), self.spec_pricing()),
        ensures
            is_prefix_breakdown(groups@, self.spec_calls(), self.spec_pricing()),
            grouped_calls(groups@) == self.spec_calls().len(),
            grouped_savings(groups@) == tally(self.spec_calls(), self.spec_pricing()).full - tally(
                self.spec_calls(),
                self.spec_pricing(),
            ).paid,
            aggregate_fits(self.spec_calls(), self.spec_pricing()) ==> {
                let whole = aggregate_of(self.spec_calls(), self.spec_pricing());
                &&& grouped_calls(groups@) == whole.calls
                &&& grouped_savings(groups@) == whole.cost_saved_usd
            },
    {
        proof {
            self.history.lemma_len_bounded();
        }
        self.history.by_prefix(&self.pricing)
    }
}

} // verus!
