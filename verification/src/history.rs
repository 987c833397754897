use vstd::prelude::*;
use std::collections::VecDeque;

use crate::metrics::{
    cost_of, full_prompt_of, hit_ratio_of, paid_prompt_of, wide_mul, CallMetrics, Ratio, Usage,
};
use crate::pricing::Pricing;

verus! {

/// Running totals over a sequence of calls: the number of calls, the
/// cache-read and cache-write tokens, and (in pico-dollars) the cost, the
/// prompt cost at plain input price and the prompt cost actually paid.
pub ghost struct Tally {
    pub calls: int,
    pub read: int,
    pub write: int,
    pub cost: int,
    pub full: int,
    pub paid: int,
}

/// No calls, no tokens, no money.
pub open spec fn empty_tally() -> Tally {
    Tally { calls: 0, read: 0, write: 0, cost: 0, full: 0, paid: 0 }
}

/// `t` with one more call counted.
pub open spec fn add_call(t: Tally, call: CallMetrics, pricing: Pricing) -> Tally {
    Tally {
        calls: t.calls + 1,
        read: t.read + call.usage.cache_read_tokens,
        write: t.write + call.usage.cache_creation_tokens,
        cost: t.cost + cost_of(call.usage, pricing),
        full: t.full + full_prompt_of(call.usage, pricing),
        paid: t.paid + paid_prompt_of(call.usage, pricing),
    }
}

/// Totals over all of `calls`.
pub open spec fn tally(calls: Seq<CallMetrics>, pricing: Pricing) -> Tally
    decreases calls.len(),
{
    if calls.len() == 0 {
        empty_tally()
    } else {
        add_call(tally(calls.drop_last(), pricing), calls.last(), pricing)
    }
}

/// Totals over the calls of `calls` whose prefix id is `id`.
pub open spec fn tally_for(calls: Seq<CallMetrics>, id: Seq<char>, pricing: Pricing) -> Tally
    decreases calls.len(),
{
    if calls.len() == 0 {
        empty_tally()
    } else {
        let rest = tally_for(calls.drop_last(), id, pricing);
        if calls.last().prefix_id@ == id {
            add_call(rest, calls.last(), pricing)
        } else {
            rest
        }
    }
}

/// Every count and sum of `small` is at most that of `big`.
pub open spec fn tally_le(small: Tally, big: Tally) -> bool {
    &&& small.calls <= big.calls
    &&& small.read <= big.read
    &&& small.write <= big.write
    &&& small.cost <= big.cost
    &&& small.full <= big.full
    &&& small.paid <= big.paid
}

/// Keeps the last `size` calls of `calls` (all of them if there are fewer).
pub open spec fn retain_last(calls: Seq<CallMetrics>, size: nat) -> Seq<CallMetrics> {
    if calls.len() <= size {
        calls
    } else {
        calls.subrange(calls.len() - size, calls.len() as int)
    }
}

proof fn lemma_costs_nonneg(usage: Usage, pricing: Pricing)
    ensures
        0 <= paid_prompt_of(usage, pricing) <= cost_of(usage, pricing),
        0 <= full_prompt_of(usage, pricing),
{
    assert(usage.input_tokens * pricing.input_per_mtok >= 0) by (nonlinear_arith);
    assert(usage.cache_read_tokens * pricing.cache_read_per_mtok >= 0) by (nonlinear_arith);
    assert(usage.cache_creation_tokens * pricing.cache_write_5m_per_mtok >= 0) by (nonlinear_arith);
    assert(usage.output_tokens * pricing.output_per_mtok >= 0) by (nonlinear_arith);
    assert(usage.prompt_tokens() * pricing.input_per_mtok >= 0) by (nonlinear_arith)
        requires
            usage.prompt_tokens() >= 0,
    ;
}

/// Every total is non-negative, and what was paid is at most the cost.
pub proof fn lemma_tally_nonneg(calls: Seq<CallMetrics>, pricing: Pricing)
    ensures
        ({
            let t = tally(calls, pricing);
            &&& 0 <= t.calls
            &&& 0 <= t.read
            &&& 0 <= t.write
            &&& 0 <= t.paid <= t.cost
            &&& 0 <= t.full
        }),
    decreases calls.len(),
{
    if calls.len() > 0 {
        lemma_tally_nonneg(calls.drop_last(), pricing);
        lemma_costs_nonneg(calls.last().usage, pricing);
    }
}

/// Counting the calls one at a time.
pub proof fn lemma_tally_step(calls: Seq<CallMetrics>, i: int, pricing: Pricing)
    requires
        0 <= i < calls.len(),
    ensures
        tally(calls.take(i + 1), pricing) == add_call(tally(calls.take(i), pricing), calls[i], pricing),
        forall|id: Seq<char>|
            #[trigger] tally_for(calls.take(i + 1), id, pricing) == if calls[i].prefix_id@ == id {
                add_call(tally_for(calls.take(i), id, pricing), calls[i], pricing)
            } else {
                tally_for(calls.take(i), id, pricing)
            },
{
    assert(calls.take(i + 1).drop_last() =~= calls.take(i));
}

/// The totals of a prefix are bounded by the totals of the whole sequence.
pub proof fn lemma_tally_prefix_bounded(calls: Seq<CallMetrics>, i: int, pricing: Pricing)
    requires
        0 <= i <= calls.len(),
    ensures
        tally_le(tally(calls.take(i), pricing), tally(calls, pricing)),
        forall|id: Seq<char>|
            tally_le(#[trigger] tally_for(calls.take(i), id, pricing), tally_for(calls, id, pricing)),
    decreases calls.len() - i,
{
    if i == calls.len() {
        assert(calls.take(i) =~= calls);
    } else {
        lemma_tally_prefix_bounded(calls, i + 1, pricing);
        lemma_tally_step(calls, i, pricing);
        lemma_costs_nonneg(calls[i].usage, pricing);
        assert forall|id: Seq<char>|
            tally_le(#[trigger] tally_for(calls.take(i), id, pricing), tally_for(calls, id, pricing))
        by {
            assert(tally_le(tally_for(calls.take(i + 1), id, pricing), tally_for(calls, id, pricing)));
        }
    }
}

/// Every total over one prefix id is non-negative.
pub proof fn lemma_tally_for_nonneg(calls: Seq<CallMetrics>, id: Seq<char>, pricing: Pricing)
    ensures
        ({
            let t = tally_for(calls, id, pricing);
            &&& 0 <= t.calls
            &&& 0 <= t.read
            &&& 0 <= t.write
            &&& 0 <= t.paid <= t.cost
            &&& 0 <= t.full
        }),
    decreases calls.len(),
{
    if calls.len() > 0 {
        lemma_tally_for_nonneg(calls.drop_last(), id, pricing);
        lemma_costs_nonneg(calls.last().usage, pricing);
    }
}

/// A prefix id that occurs nowhere in `calls` has empty totals.
pub proof fn lemma_tally_for_absent(calls: Seq<CallMetrics>, id: Seq<char>, pricing: Pricing)
    requires
        forall|k: int| 0 <= k < calls.len() ==> (#[trigger] calls[k]).prefix_id@ != id,
    ensures
        tally_for(calls, id, pricing) == empty_tally(),
    decreases calls.len(),
{
    if calls.len() > 0 {
        lemma_tally_for_absent(calls.drop_last(), id, pricing);
    }
}

/// The number of calls with one prefix id is at most the number of calls.
pub proof fn lemma_tally_for_calls_bounded(calls: Seq<CallMetrics>, id: Seq<char>, pricing: Pricing)
    ensures
        0 <= tally_for(calls, id, pricing).calls <= calls.len(),
    decreases calls.len(),
{
    if calls.len() > 0 {
        lemma_tally_for_calls_bounded(calls.drop_last(), id, pricing);
    }
}

/// `x + y`, or `None` when it does not fit in 64 bits.
fn checked_sum(x: u64, y: u64) -> (sum: Option<u64>)
    ensures
        sum matches Some(s) ==> s == x + y,
        sum is None <==> x + y > u64::MAX,
{
    x.checked_add(y)
}

/// `x + y`, or `None` when it does not fit in 128 bits.
fn checked_wide_sum(x: u128, y: u128) -> (sum: Option<u128>)
    ensures
        sum matches Some(s) ==> s == x + y,
        sum is None <==> x + y > u128::MAX,
{
    x.checked_add(y)
}

/// The prompt tokens of `usage`, or `None` when they do not fit in 64 bits.
fn checked_prompt_tokens(usage: &Usage) -> (tokens: Option<u64>)
    ensures
        tokens matches Some(t) ==> t == usage.prompt_tokens(),
        tokens is None <==> usage.prompt_tokens() > u64::MAX,
{
    match checked_sum(usage.input_tokens, usage.cache_read_tokens) {
        Some(s) => checked_sum(s, usage.cache_creation_tokens),
        None => None,
    }
}

/// What the prompt of a call paid, or `None` when it does not fit in 128 bits.
fn checked_paid_prompt(usage: &Usage, pricing: &Pricing) -> (paid: Option<u128>)
    ensures
        paid matches Some(p) ==> p == paid_prompt_of(*usage, *pricing),
        paid is None <==> paid_prompt_of(*usage, *pricing) > u128::MAX,
{
    let input = wide_mul(usage.input_tokens, pricing.input_per_mtok);
    let read = wide_mul(usage.cache_read_tokens, pricing.cache_read_per_mtok);
    let write = wide_mul(usage.cache_creation_tokens, pricing.cache_write_5m_per_mtok);
    match checked_wide_sum(input, read) {
        Some(s) => checked_wide_sum(s, write),
        None => None,
    }
}

/// The cost of a call, or `None` when it does not fit in 128 bits.
fn checked_cost(usage: &Usage, pricing: &Pricing) -> (cost: Option<u128>)
    ensures
        cost matches Some(c) ==> c == cost_of(*usage, *pricing),
        cost is None <==> cost_of(*usage, *pricing) > u128::MAX,
{
    let output = wide_mul(usage.output_tokens, pricing.output_per_mtok);
    match checked_paid_prompt(usage, pricing) {
        Some(paid) => checked_wide_sum(paid, output),
        None => None,
    }
}

/// `a - b` as a signed 128-bit number, or `None` when it does not fit.
fn checked_signed_difference(a: u128, b: u128) -> (diff: Option<i128>)
    ensures
        diff matches Some(d) ==> d == a - b,
        diff is None <==> !(i128::MIN <= a - b <= i128::MAX),
{
    if a >= b {
        let d: u128 = a - b;
        if d <= 0x7fff_ffff_ffff_ffff_ffff_ffff_ffff_ffffu128 {
            Some(d as i128)
        } else {
            None
        }
    } else {
        let d: u128 = b - a;
        if d < 0x8000_0000_0000_0000_0000_0000_0000_0000u128 {
            Some(-(d as i128))
        } else if d == 0x8000_0000_0000_0000_0000_0000_0000_0000u128 {
            Some(i128::MIN)
        } else {
            None
        }
    }
}

/// Aggregate statistics across many calls.
#[derive(Debug, Clone, Copy, Default, PartialEq, Eq)]
pub struct Aggregate {
    /// Total calls recorded in window.
    pub calls: usize,
    /// Hit ratio across all cacheable tokens. `None` if no cacheable traffic.
    pub hit_ratio: Option<Ratio>,
    /// Total tokens read from cache.
    pub tokens_read_from_cache: u64,
    /// Total tokens written to cache.
    pub tokens_written_to_cache: u64,
    /// Total cost, in pico-dollars.
    pub cost_usd: u128,
    /// Total saved versus full-input pricing, in pico-dollars.
    pub cost_saved_usd: i128,
}

/// Every call's prompt token count fits in 64 bits.
pub open spec fn every_prompt_fits(calls: Seq<CallMetrics>) -> bool {
    forall|i: int| 0 <= i < calls.len() ==> (#[trigger] calls[i]).usage.prompt_tokens() <= u64::MAX
}

/// The token sums of `t` fit in 64 bits and its prompt costs and savings in
/// 128 bits.
pub open spec fn group_fits(t: Tally) -> bool {
    &&& t.read + t.write <= u64::MAX
    &&& t.full <= u128::MAX
    &&& t.paid <= u128::MAX
    &&& i128::MIN <= t.full - t.paid <= i128::MAX
}

/// `calls` can be aggregated under `pricing`: each call's prompt tokens and
/// the cache token totals fit in 64 bits (beyond that the sums overflow),
/// and the exact money totals fit in 128 bits.
pub open spec fn aggregate_fits(calls: Seq<CallMetrics>, pricing: Pricing) -> bool {
    &&& every_prompt_fits(calls)
    &&& group_fits(tally(calls, pricing))
    &&& tally(calls, pricing).cost <= u128::MAX
}

/// The aggregate of `calls` under `pricing`: the number of calls, the
/// cache-read and cache-write token totals, their hit ratio, the sum of the
/// calls' costs and the sum of the calls' savings.
pub open spec fn aggregate_of(calls: Seq<CallMetrics>, pricing: Pricing) -> Aggregate {
    let t = tally(calls, pricing);
    Aggregate {
        calls: calls.len() as usize,
        hit_ratio: hit_ratio_of(t.read, t.write),
        tokens_read_from_cache: t.read as u64,
        tokens_written_to_cache: t.write as u64,
        cost_usd: t.cost as u128,
        cost_saved_usd: (t.full - t.paid) as i128,
    }
}

/// Per-prefix stats group; lets you spot which system prompt regressed.
#[derive(Debug, Clone, Copy, Default, PartialEq, Eq)]
pub struct PrefixStats {
    /// Calls with this prefix id.
    pub calls: usize,
    /// Hit ratio for this prefix only.
    pub hit_ratio: Option<Ratio>,
    /// Saved across calls with this prefix, in pico-dollars.
    pub cost_saved_usd: i128,
}

/// The stats of one prefix group from its totals.
pub open spec fn prefix_stats_of(t: Tally) -> PrefixStats {
    PrefixStats {
        calls: t.calls as usize,
        hit_ratio: hit_ratio_of(t.read, t.write),
        cost_saved_usd: (t.full - t.paid) as i128,
    }
}

/// `calls` can be grouped by prefix under `pricing`: each call's prompt
/// tokens fit in 64 bits, and so does every group's cache token total; every
/// group's exact prompt costs and savings fit in 128 bits.
pub open spec fn by_prefix_fits(calls: Seq<CallMetrics>, pricing: Pricing) -> bool {
    &&& every_prompt_fits(calls)
    &&& forall|k: int|
        0 <= k < calls.len() ==> group_fits(
            tally_for(calls, (#[trigger] calls[k]).prefix_id@, pricing),
        )
}

/// The number of calls counted over all groups.
pub open spec fn grouped_calls(groups: Seq<(String, PrefixStats)>) -> int
    decreases groups.len(),
{
    if groups.len() == 0 {
        0
    } else {
        grouped_calls(groups.drop_last()) + groups.last().1.calls
    }
}

/// The savings summed over all groups, in pico-dollars.
pub open spec fn grouped_savings(groups: Seq<(String, PrefixStats)>) -> int
    decreases groups.len(),
{
    if groups.len() == 0 {
        0
    } else {
        grouped_savings(groups.drop_last()) + groups.last().1.cost_saved_usd
    }
}

/// `groups` is the breakdown of `calls` by prefix id under `pricing`: one
/// group per prefix id that occurs, none twice, each with the stats of
/// exactly the calls that carry its id.
pub open spec fn is_prefix_breakdown(
    groups: Seq<(String, PrefixStats)>,
    calls: Seq<CallMetrics>,
    pricing: Pricing,
) -> bool {
    &&& forall|j: int|
        0 <= j < groups.len() ==> (#[trigger] groups[j]).1 == prefix_stats_of(
            tally_for(calls, groups[j].0@, pricing),
        )
    &&& forall|j: int, l: int| 0 <= j < l < groups.len() ==> groups[j].0@ != groups[l].0@
    &&& forall|k: int|
        0 <= k < calls.len() ==> exists|j: int|
            0 <= j < groups.len() && groups[j].0@ == (#[trigger] calls[k]).prefix_id@
    &&& forall|j: int|
        0 <= j < groups.len() ==> exists|k: int|
            0 <= k < calls.len() && calls[k].prefix_id@ == (#[trigger] groups[j]).0@
}

/// Running totals of one prefix group.
struct GroupTotals {
    id: String,
    calls: usize,
    read: u64,
    write: u64,
    full: u128,
    paid: u128,
}

spec fn totals_match(g: GroupTotals, t: Tally) -> bool {
    &&& g.calls == t.calls
    &&& g.read == t.read
    &&& g.write == t.write
    &&& g.full == t.full
    &&& g.paid == t.paid
}

/// The calls and the savings counted over all groups.
spec fn group_sums(groups: Seq<GroupTotals>) -> (int, int)
    decreases groups.len(),
{
    if groups.len() == 0 {
        (0, 0)
    } else {
        let rest = group_sums(groups.drop_last());
        (rest.0 + groups.last().calls, rest.1 + groups.last().full - groups.last().paid)
    }
}

proof fn lemma_group_sums_update(groups: Seq<GroupTotals>, j: int, g: GroupTotals)
    requires
        0 <= j < groups.len(),
    ensures
        group_sums(groups.update(j, g)).0 == group_sums(groups).0 - groups[j].calls + g.calls,
        group_sums(groups.update(j, g)).1 == group_sums(groups).1 - (groups[j].full
            - groups[j].paid) + (g.full - g.paid),
    decreases groups.len(),
{
    if j == groups.len() - 1 {
        assert(groups.update(j, g).drop_last() =~= groups.drop_last());
    } else {
        lemma_group_sums_update(groups.drop_last(), j, g);
        assert(groups.update(j, g).drop_last() =~= groups.drop_last().update(j, g));
    }
}

proof fn lemma_group_sums_push(groups: Seq<GroupTotals>, g: GroupTotals)
    ensures
        group_sums(groups.push(g)).0 == group_sums(groups).0 + g.calls,
        group_sums(groups.push(g)).1 == group_sums(groups).1 + (g.full - g.paid),
{
    assert(groups.push(g).drop_last() =~= groups);
}

proof fn lemma_group_sums_agree(groups: Seq<GroupTotals>, out: Seq<(String, PrefixStats)>)
    requires
        groups.len() == out.len(),
        forall|j: int|
            0 <= j < groups.len() ==> {
                &&& out[j].1.calls == (#[trigger] groups[j]).calls
                &&& out[j].1.cost_saved_usd == groups[j].full - groups[j].paid
            },
    ensures
        grouped_calls(out) == group_sums(groups).0,
        grouped_savings(out) == group_sums(groups).1,
    decreases groups.len(),
{
    if groups.len() > 0 {
        lemma_group_sums_agree(groups.drop_last(), out.drop_last());
    }
}

/// The index of the group with prefix id `id`, if there is one.
fn find_group(groups: &Vec<GroupTotals>, id: &String) -> (found: Option<usize>)
    ensures
        match found {
            Some(j) => j < groups@.len() && groups@[j as int].id@ == id@,
            None => forall|j: int| 0 <= j < groups@.len() ==> (#[trigger] groups@[j]).id@ != id@,
        },
{
    let mut j: usize = 0;
    while j < groups.len()
        invariant
            j <= groups@.len(),
            forall|l: int| 0 <= l < j ==> (#[trigger] groups@[l]).id@ != id@,
        decreases groups@.len() - j,
    {
        if groups[j].id == *id {
            return Some(j);
        }
        j = j + 1;
    }
    None
}

/// The recorded calls, oldest first.
pub struct CallHistory {
    entries: VecDeque<CallMetrics>,
}

impl View for CallHistory {
    type V = Seq<CallMetrics>;

    closed spec fn view(&self) -> Seq<CallMetrics> {
        self.entries@
    }
}

impl CallHistory {
    /// A history never holds more calls than a `usize` counts.
    pub proof fn lemma_len_bounded(&self)
        ensures
            self@.len() <= usize::MAX,
    {
        assert(self.entries.len() == self@.len());
    }

    /// An empty history.
    pub fn new() -> (history: Self)
        ensures
            history@ == Seq::<CallMetrics>::empty(),
    {
        CallHistory { entries: VecDeque::with_capacity(1024) }
    }

    /// The number of recorded calls.
    pub fn len(&self) -> (n: usize)
        ensures
            n == self@.len(),
    {
        self.entries.len()
    }

    /// Appends `call` and then drops the oldest calls until at most
    /// `history_size` remain.
    pub fn push_trimmed(&mut self, call: CallMetrics, history_size: usize)
        ensures
            final(self)@ == retain_last(old(self)@.push(call), history_size as nat),
    {
        self.entries.push_back(call);
        let ghost pushed = self.entries@;
        while self.entries.len() > history_size
            invariant
                pushed.len() >= 1,
                self.entries@.len() <= pushed.len(),
                self.entries@ == pushed.subrange(
                    pushed.len() - self.entries@.len(),
                    pushed.len() as int,
                ),
                self.entries@.len() >= history_size || self.entries@.len() == pushed.len(),
            decreases self.entries@.len(),
        {
            self.entries.pop_front();
            assert(self.entries@ =~= pushed.subrange(
                pushed.len() - self.entries@.len(),
                pushed.len() as int,
            ));
        }
        assert(pushed.subrange(0, pushed.len() as int) =~= pushed);
    }

    /// Drops every recorded call.
    pub fn clear(&mut self)
        ensures
            final(self)@ == Seq::<CallMetrics>::empty(),
    {
        self.entries.clear();
    }

    /// Copies of the recorded calls, oldest first.
    pub fn calls(&self) -> (calls: Vec<CallMetrics>)
        ensures
            calls@ == self@,
    {
        let n = self.entries.len();
        let mut calls: Vec<CallMetrics> = Vec::with_capacity(n);
        let mut i: usize = 0;
        while i < n
            invariant
                n == self@.len(),
                i <= n,
                calls@ == self@.take(i as int),
            decreases n - i,
        {
            calls.push(self.entries[i].clone());
            assert(calls@ =~= self@.take(i + 1));
            i = i + 1;
        }
        assert(self@.take(n as int) =~= self@);
        calls
    }

    /// Aggregate across all recorded calls, or `None` when `aggregate_fits`
    /// does not hold.
    pub fn try_aggregate(&self, pricing: &Pricing) -> (aggregate: Option<Aggregate>)
        ensures
            aggregate is Some <==> aggregate_fits(self@, *pricing),
            aggregate matches Some(a) ==> a == aggregate_of(self@, *pricing),
    {
        let n = self.entries.len();
        let mut read: u64 = 0;
        let mut write: u64 = 0;
        let mut cost: u128 = 0;
        let mut full: u128 = 0;
        let mut paid: u128 = 0;
        let mut i: usize = 0;
        while i < n
            invariant
                n == self@.len(),
                i <= n,
                ({
                    let t = tally(self@.take(i as int), *pricing);
                    &&& read == t.read
                    &&& write == t.write
                    &&& cost == t.cost
                    &&& full == t.full
                    &&& paid == t.paid
                }),
                every_prompt_fits(self@.take(i as int)),
            decreases n - i,
        {
            let call = &self.entries[i];
            proof {
                lemma_tally_step(self@, i as int, *pricing);
                lemma_tally_prefix_bounded(self@, i + 1, *pricing);
                lemma_tally_nonneg(self@, *pricing);
                lemma_tally_nonneg(self@.take(i as int), *pricing);
            }
            let prompt = match checked_prompt_tokens(&call.usage) {
                Some(p) => p,
                None => {
                    assert(!every_prompt_fits(self@));
                    return None;
                },
            };
            read = match checked_sum(read, call.usage.cache_read_tokens) {
                Some(r) => r,
                None => {
                    return None;
                },
            };
            write = match checked_sum(write, call.usage.cache_creation_tokens) {
                Some(w) => w,
                None => {
                    return None;
                },
            };
            let call_cost = match checked_cost(&call.usage, pricing) {
                Some(c) => c,
                None => {
                    return None;
                },
            };
            cost = match checked_wide_sum(cost, call_cost) {
                Some(c) => c,
                None => {
                    return None;
                },
            };
            full = match checked_wide_sum(full, wide_mul(prompt, pricing.input_per_mtok)) {
                Some(f) => f,
                None => {
                    return None;
                },
            };
            let call_paid = match checked_paid_prompt(&call.usage, pricing) {
                Some(p) => p,
                None => {
                    return None;
                },
            };
            paid = match checked_wide_sum(paid, call_paid) {
                Some(p) => p,
                None => {
                    return None;
                },
            };
            assert(every_prompt_fits(self@.take(i + 1)));
            i = i + 1;
        }
        assert(self@.take(n as int) =~= self@);
        let cacheable = match checked_sum(read, write) {
            Some(c) => c,
            None => {
                return None;
            },
        };
        let saved = match checked_signed_difference(full, paid) {
            Some(d) => d,
            None => {
                return None;
            },
        };
        let hit_ratio = if cacheable == 0 {
            None
        } else {
            Some(Ratio { numerator: read, denominator: cacheable })
        };
        Some(
            Aggregate {
                calls: n,
                hit_ratio,
                tokens_read_from_cache: read,
                tokens_written_to_cache: write,
                cost_usd: cost,
                cost_saved_usd: saved,
            },
        )
    }

    /// Aggregate across all recorded calls.
    pub fn aggregate(&self, pricing: &Pricing) -> (aggregate: Aggregate)
        requires
            aggregate_fits(self@, *pricing),
        ensures
            aggregate == aggregate_of(self@, *pricing),
    {
        match self.try_aggregate(pricing) {
            Some(a) => a,
            None => {
                assert(false);
                Aggregate {
                    calls: 0,
                    hit_ratio: None,
                    tokens_read_from_cache: 0,
                    tokens_written_to_cache: 0,
                    cost_usd: 0,
                    cost_saved_usd: 0,
                }
            },
        }
    }

    /// The recorded calls grouped by prefix id, or `None` when
    /// `by_prefix_fits` does not hold. Groups come in the order in which
    /// their prefix id first occurs.
    pub fn try_by_prefix(&self, pricing: &Pricing) -> (groups: Option<Vec<(String, PrefixStats)>>)
        ensures
            groups is Some <==> by_prefix_fits(self@, *pricing),
            groups matches Some(g) ==> {
                &&& is_prefix_breakdown(g@, self@, *pricing)
                &&& grouped_calls(g@) == self@.len()
                &&& grouped_savings(g@) == tally(self@, *pricing).full - tally(self@, *pricing).paid
            },
    {
        let n = self.entries.len();
        let mut groups: Vec<GroupTotals> = Vec::new();
        // An index of a call carrying each group's id, and the group of each call.
        let ghost mut first_seen: Seq<int> = Seq::empty();
        let ghost mut group_of: Seq<int> = Seq::empty();
        let mut i: usize = 0;
        while i < n
            invariant
                n == self@.len(),
                i <= n,
                first_seen.len() == groups@.len(),
                group_of.len() == i,
                forall|j: int|
                    0 <= j < groups@.len() ==> totals_match(
                        #[trigger] groups@[j],
                        tally_for(self@.take(i as int), groups@[j].id@, *pricing),
                    ),
                forall|j: int, l: int|
                    0 <= j < l < groups@.len() ==> groups@[j].id@ != groups@[l].id@,
                forall|j: int|
                    0 <= j < groups@.len() ==> 0 <= #[trigger] first_seen[j] < i
                        && self@[first_seen[j]].prefix_id@ == groups@[j].id@,
                forall|k: int|
                    0 <= k < i ==> 0 <= #[trigger] group_of[k] < groups@.len()
                        && groups@[group_of[k]].id@ == self@[k].prefix_id@,
                group_sums(groups@).0 == i,
                group_sums(groups@).1 == tally(self@.take(i as int), *pricing).full - tally(
                    self@.take(i as int),
                    *pricing,
                ).paid,
                every_prompt_fits(self@.take(i as int)),
            decreases n - i,
        {
            let call = &self.entries[i];
            let ghost id = call.prefix_id@;
            proof {
                lemma_tally_step(self@, i as int, *pricing);
                lemma_tally_prefix_bounded(self@, i + 1, *pricing);
                lemma_tally_for_nonneg(self@, id, *pricing);
                lemma_tally_for_nonneg(self@.take(i as int), id, *pricing);
                lemma_tally_for_calls_bounded(self@.take(i as int), id, *pricing);
                lemma_costs_nonneg(call.usage, *pricing);
                assert(tally_le(
                    tally_for(self@.take(i + 1), id, *pricing),
                    tally_for(self@, id, *pricing),
                ));
            }
            let prompt = match checked_prompt_tokens(&call.usage) {
                Some(p) => p,
                None => {
                    assert(!every_prompt_fits(self@));
                    return None;
                },
            };
            let call_paid = match checked_paid_prompt(&call.usage, pricing) {
                Some(p) => p,
                None => {
                    assert(!group_fits(tally_for(self@, self@[i as int].prefix_id@, *pricing)));
                    return None;
                },
            };
            let call_full = wide_mul(prompt, pricing.input_per_mtok);
            let ghost before = groups@;
            match find_group(&groups, &call.prefix_id) {
                Some(j) => {
                    let g = &groups[j];
                    let read = match checked_sum(g.read, call.usage.cache_read_tokens) {
                        Some(r) => r,
                        None => {
                            assert(!group_fits(
                                tally_for(self@, self@[i as int].prefix_id@, *pricing),
                            ));
                            return None;
                        },
                    };
                    let write = match checked_sum(g.write, call.usage.cache_creation_tokens) {
                        Some(w) => w,
                        None => {
                            assert(!group_fits(
                                tally_for(self@, self@[i as int].prefix_id@, *pricing),
                            ));
                            return None;
                        },
                    };
                    let full = match checked_wide_sum(g.full, call_full) {
                        Some(f) => f,
                        None => {
                            assert(!group_fits(
                                tally_for(self@, self@[i as int].prefix_id@, *pricing),
                            ));
                            return None;
                        },
                    };
                    let paid = match checked_wide_sum(g.paid, call_paid) {
                        Some(p) => p,
                        None => {
                            assert(!group_fits(
                                tally_for(self@, self@[i as int].prefix_id@, *pricing),
                            ));
                            return None;
                        },
                    };
                    let updated = GroupTotals {
                        id: g.id.clone(),
                        calls: g.calls + 1,
                        read,
                        write,
                        full,
                        paid,
                    };
                    groups.set(j, updated);
                    proof {
                        lemma_group_sums_update(before, j as int, updated);
                        group_of = group_of.push(j as int);
                    }
                },
                None => {
                    proof {
                        assert forall|k: int| 0 <= k < i implies (#[trigger] self@.take(
                            i as int,
                        )[k]).prefix_id@ != id by {
                            assert(groups@[group_of[k]].id@ == self@[k].prefix_id@);
                        }
                        lemma_tally_for_absent(self@.take(i as int), id, *pricing);
                    }
                    let fresh = GroupTotals {
                        id: call.prefix_id.clone(),
                        calls: 1,
                        read: call.usage.cache_read_tokens,
                        write: call.usage.cache_creation_tokens,
                        full: call_full,
                        paid: call_paid,
                    };
                    groups.push(fresh);
                    proof {
                        lemma_group_sums_push(before, fresh);
                        first_seen = first_seen.push(i as int);
                        group_of = group_of.push(before.len() as int);
                    }
                },
            }
            assert(every_prompt_fits(self@.take(i + 1)));
            i = i + 1;
        }
        assert(self@.take(n as int) =~= self@);
        let mut out: Vec<(String, PrefixStats)> = Vec::new();
        let mut j: usize = 0;
        while j < groups.len()
            invariant
                n == self@.len(),
                j <= groups@.len(),
                out@.len() == j,
                first_seen.len() == groups@.len(),
                forall|l: int|
                    0 <= l < groups@.len() ==> totals_match(
                        #[trigger] groups@[l],
                        tally_for(self@, groups@[l].id@, *pricing),
                    ),
                forall|l: int|
                    0 <= l < groups@.len() ==> 0 <= #[trigger] first_seen[l] < n
                        && self@[first_seen[l]].prefix_id@ == groups@[l].id@,
                forall|l: int|
                    0 <= l < j ==> {
                        &&& (#[trigger] out@[l]).0@ == groups@[l].id@
                        &&& out@[l].1 == prefix_stats_of(tally_for(self@, groups@[l].id@, *pricing))
                        &&& group_fits(tally_for(self@, groups@[l].id@, *pricing))
                    },
            decreases groups@.len() - j,
        {
            let g = &groups[j];
            let cacheable = match checked_sum(g.read, g.write) {
                Some(c) => c,
                None => {
                    assert(!group_fits(
                        tally_for(self@, self@[first_seen[j as int]].prefix_id@, *pricing),
                    ));
                    return None;
                },
            };
            let saved = match checked_signed_difference(g.full, g.paid) {
                Some(d) => d,
                None => {
                    assert(!group_fits(
                        tally_for(self@, self@[first_seen[j as int]].prefix_id@, *pricing),
                    ));
                    return None;
                },
            };
            let hit_ratio = if cacheable == 0 {
                None
            } else {
                Some(Ratio { numerator: g.read, denominator: cacheable })
            };
            out.push((g.id.clone(), PrefixStats { calls: g.calls, hit_ratio, cost_saved_usd: saved }));
            j = j + 1;
        }
        proof {
            assert forall|k: int| 0 <= k < self@.len() implies group_fits(
                tally_for(self@, (#[trigger] self@[k]).prefix_id@, *pricing),
            ) by {
                assert(groups@[group_of[k]].id@ == self@[k].prefix_id@);
                assert(out@[group_of[k]].0@ == groups@[group_of[k]].id@);
            }
            assert forall|k: int| 0 <= k < self@.len() implies exists|l: int|
                0 <= l < out@.len() && out@[l].0@ == (#[trigger] self@[k]).prefix_id@ by {
                assert(out@[group_of[k]].0@ == groups@[group_of[k]].id@);
            }
            assert forall|l: int| 0 <= l < out@.len() implies exists|k: int|
                0 <= k < self@.len() && self@[k].prefix_id@ == (#[trigger] out@[l]).0@ by {
                assert(self@[first_seen[l]].prefix_id@ == groups@[l].id@);
            }
            lemma_group_sums_agree(groups@, out@);
        }
        Some(out)
    }

    /// The recorded calls grouped by prefix id, in the order in which each
    /// prefix id first occurs.
    pub fn by_prefix(&self, pricing: &Pricing) -> (groups: Vec<(String, PrefixStats)>)
        requires
            by_prefix_fits(self@, *pricing),
        ensures
            is_prefix_breakdown(groups@, self@, *pricing),
            grouped_calls(groups@) == self@.len(),
            grouped_savings(groups@) == tally(self@, *pricing).full - tally(self@, *pricing).paid,
    {
        match self.try_by_prefix(pricing) {
            Some(g) => g,
            None => {
                assert(false);
                Vec::new()
            },
        }
    }
}

} // verus!
