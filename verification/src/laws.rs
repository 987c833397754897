//! Properties of the library as a whole, stated over the specifications
//! that the functions' contracts use.
use vstd::prelude::*;

use vstd::string::StringSliceAdditionalSpecFns;

use crate::fingerprint::{
    cacheable_messages, comma_joined, fingerprint_of, json_model, payload, CLOSE_BRACKET, COMMA,
    OPEN_BRACKET,
};
use crate::history::{
    add_call, aggregate_fits, aggregate_of, is_prefix_breakdown, lemma_tally_nonneg, retain_last,
    tally, tally_for, Aggregate,
};
use crate::metrics::{cost_of, hit_ratio_of, paid_prompt_of, saved_of, CallMetrics, Ratio, Usage};
use crate::history::PrefixStats;
use crate::pricing::Pricing;
use crate::tracker::misses_threshold_spec;

verus! {

/// Same system prompt, tools, model and cacheable prefix give the same
/// fingerprint, whatever the trailing user turn is (or whether there is one).
pub proof fn lemma_fingerprint_depends_on_prefix_only(
    a: Seq<Seq<u8>>,
    b: Seq<Seq<u8>>,
    system: Seq<u8>,
    tools: Seq<u8>,
    model: Option<Seq<char>>,
)
    requires
        cacheable_messages(a) == cacheable_messages(b),
    ensures
        fingerprint_of(a, system, tools, model) == fingerprint_of(b, system, tools, model),
{
}

/// Two conversations that differ only in their last message have the same
/// fingerprint.
pub proof fn lemma_fingerprint_ignores_trailing_turn(
    prefix: Seq<Seq<u8>>,
    last_a: Seq<u8>,
    last_b: Seq<u8>,
    system: Seq<u8>,
    tools: Seq<u8>,
    model: Option<Seq<char>>,
)
    ensures
        fingerprint_of(prefix.push(last_a), system, tools, model) == fingerprint_of(
            prefix.push(last_b),
            system,
            tools,
            model,
        ),
{
    assert(prefix.push(last_a).drop_last() =~= prefix);
    assert(prefix.push(last_b).drop_last() =~= prefix);
}

/// A hit ratio is a fraction between 0 and 1 with a positive denominator,
/// and there is one exactly when some token was cacheable.
pub proof fn lemma_hit_ratio_in_unit_interval(hits: u64, misses: u64)
    requires
        hits + misses <= u64::MAX,
    ensures
        hit_ratio_of(hits as int, misses as int) is Some <==> hits + misses > 0,
        hit_ratio_of(hits as int, misses as int) matches Some(r) ==> {
            &&& 0 < r.denominator
            &&& r.numerator <= r.denominator
            &&& r.numerator == hits
            &&& r.denominator == hits + misses
        },
{
}

/// The miss alert fires for a call exactly when the call has a hit ratio and
/// that ratio is below the threshold; a call without cacheable tokens never
/// fires it.
pub proof fn lemma_alert_iff_hit_ratio_below(usage: Usage, threshold: Ratio)
    requires
        usage.cacheable() <= u64::MAX,
    ensures
        misses_threshold_spec(usage, threshold) <==> (hit_ratio_of(
            usage.cache_read_tokens as int,
            usage.cache_creation_tokens as int,
        ) matches Some(r) && r.less_than(threshold)),
        usage.cacheable() == 0 ==> !misses_threshold_spec(usage, threshold),
{
}

/// The saving of a call is the discount on its cache reads plus the
/// (possibly negative) discount on its cache writes, each against the plain
/// input price.
pub proof fn lemma_saving_is_cache_discount(usage: Usage, pricing: Pricing)
    ensures
        saved_of(usage, pricing) == usage.cache_read_tokens * (pricing.input_per_mtok
            - pricing.cache_read_per_mtok) + usage.cache_creation_tokens * (
        pricing.input_per_mtok - pricing.cache_write_5m_per_mtok),
{
    let i = usage.input_tokens as int;
    let r = usage.cache_read_tokens as int;
    let w = usage.cache_creation_tokens as int;
    let pi = pricing.input_per_mtok as int;
    let pr = pricing.cache_read_per_mtok as int;
    let pw = pricing.cache_write_5m_per_mtok as int;
    assert((i + r + w) * pi - (i * pi + r * pr + w * pw) == r * (pi - pr) + w * (pi - pw))
        by (nonlinear_arith);
}

/// Recording into a history window of `size` calls keeps at most `size`
/// calls; when `size` is positive the newest call is the one just recorded,
/// and the calls kept are the newest ones, oldest first.
pub proof fn lemma_window_keeps_newest(calls: Seq<CallMetrics>, call: CallMetrics, size: nat)
    ensures
        retain_last(calls.push(call), size).len() == if calls.len() + 1 <= size {
            calls.len() + 1
        } else {
            size
        },
        size > 0 ==> retain_last(calls.push(call), size).last() == call,
        retain_last(calls.push(call), size).is_suffix_of(calls.push(call)),
{
    let pushed = calls.push(call);
    let kept = retain_last(pushed, size);
    if pushed.len() <= size {
        assert(pushed.subrange(0, pushed.len() as int) =~= pushed);
    } else {
        assert(kept =~= pushed.subrange(pushed.len() - kept.len(), pushed.len() as int));
    }
}

/// Aggregation is incremental: the totals over a history with one more call
/// are the totals before plus that call's tokens, cost, prompt costs and
/// saving.
pub proof fn lemma_aggregate_is_incremental(calls: Seq<CallMetrics>, call: CallMetrics, pricing: Pricing)
    ensures
        tally(calls.push(call), pricing) == add_call(tally(calls, pricing), call, pricing),
        aggregate_of(calls.push(call), pricing).calls == (calls.len() + 1) as usize,
{
    assert(calls.push(call).drop_last() =~= calls);
}

/// An empty history aggregates to no calls, no hit ratio, no tokens, no
/// cost and no saving.
pub proof fn lemma_empty_aggregate(pricing: Pricing)
    ensures
        aggregate_of(Seq::<CallMetrics>::empty(), pricing) == (Aggregate {
            calls: 0,
            hit_ratio: None,
            tokens_read_from_cache: 0,
            tokens_written_to_cache: 0,
            cost_usd: 0,
            cost_saved_usd: 0,
        }),
{
}

/// The bytes that open a payload, up to and including the `"tools":` key.
pub open spec fn payload_head(system: Seq<u8>) -> Seq<u8> {
    "{\"system\":".spec_bytes() + system + ",\"tools\":".spec_bytes()
}

/// The bytes that close a payload: the end of the `prefix_messages` array
/// and of the object.
pub open spec fn payload_tail() -> Seq<u8> {
    seq![CLOSE_BRACKET] + "}".spec_bytes()
}

/// A payload opens with the `system` key and the system encoding verbatim,
/// then the `tools` key and the tools encoding verbatim; what follows does
/// not depend on the system prompt or the tools.
pub proof fn lemma_payload_holds_system_and_tools_verbatim(
    messages: Seq<Seq<u8>>,
    system: Seq<u8>,
    tools: Seq<u8>,
    other_system: Seq<u8>,
    other_tools: Seq<u8>,
    model: Option<Seq<char>>,
)
    ensures
        ({
            let p = payload(messages, system, tools, model);
            let h = payload_head(system);
            &&& p.take(h.len() as int) == h
            &&& p.subrange(h.len() as int, (h.len() + tools.len()) as int) == tools
            &&& p.skip((h.len() + tools.len()) as int) == payload(
                messages,
                other_system,
                other_tools,
                model,
            ).skip((payload_head(other_system).len() + other_tools.len()) as int)
        }),
{
    let rest = ",\"model\":".spec_bytes() + json_model(model) + ",\"prefix_messages\":".spec_bytes()
        + (seq![OPEN_BRACKET] + comma_joined(cacheable_messages(messages)) + seq![CLOSE_BRACKET])
        + "}".spec_bytes();
    let p = payload(messages, system, tools, model);
    let q = payload(messages, other_system, other_tools, model);
    let h = payload_head(system);
    let h2 = payload_head(other_system);
    assert(p =~= h + tools + rest);
    assert(q =~= h2 + other_tools + rest);
    assert(p.take(h.len() as int) =~= h);
    assert(p.subrange(h.len() as int, (h.len() + tools.len()) as int) =~= tools);
    assert(p.skip((h.len() + tools.len()) as int) =~= rest);
    assert(q.skip((h2.len() + other_tools.len()) as int) =~= rest);
}

/// Different tools give different payloads (for the same messages, system
/// prompt and model).
pub proof fn lemma_payload_distinguishes_tools(
    messages: Seq<Seq<u8>>,
    system: Seq<u8>,
    tools: Seq<u8>,
    other_tools: Seq<u8>,
    model: Option<Seq<char>>,
)
    requires
        tools != other_tools,
    ensures
        payload(messages, system, tools, model) != payload(messages, system, other_tools, model),
{
    lemma_payload_holds_system_and_tools_verbatim(messages, system, tools, system, other_tools, model);
    lemma_payload_holds_system_and_tools_verbatim(messages, system, other_tools, system, tools, model);
    let p = payload(messages, system, tools, model);
    let q = payload(messages, system, other_tools, model);
    let h = payload_head(system);
    if p == q {
        // The parts after the tools are equal, so are the lengths of the tools.
        assert(p.skip((h.len() + tools.len()) as int).len() == q.skip((h.len() + other_tools.len()) as int).len());
        assert(tools.len() == other_tools.len());
        assert(tools == other_tools);
    }
}

/// Different system prompts give different payloads (for the same
/// messages, tools and model).
pub proof fn lemma_payload_distinguishes_system(
    messages: Seq<Seq<u8>>,
    system: Seq<u8>,
    other_system: Seq<u8>,
    tools: Seq<u8>,
    model: Option<Seq<char>>,
)
    requires
        system != other_system,
    ensures
        payload(messages, system, tools, model) != payload(messages, other_system, tools, model),
{
    lemma_payload_holds_system_and_tools_verbatim(messages, system, tools, other_system, tools, model);
    let p = payload(messages, system, tools, model);
    let q = payload(messages, other_system, tools, model);
    let h = payload_head(system);
    let h2 = payload_head(other_system);
    let open = "{\"system\":".spec_bytes();
    if p == q {
        assert(p.skip((h.len() + tools.len()) as int).len() == q.skip((h2.len() + tools.len()) as int).len());
        assert(h.len() == h2.len());
        assert(system.len() == other_system.len());
        assert(system =~= p.subrange(open.len() as int, (open.len() + system.len()) as int));
        assert(other_system =~= q.subrange(open.len() as int, (open.len() + system.len()) as int));
    }
}

/// When a conversation grows by one turn, its previous trailing turn joins
/// the payload's `prefix_messages` array as its last element (after a comma
/// when the array was not empty), and nothing else changes.
pub proof fn lemma_next_turn_appends_previous_turn(
    messages: Seq<Seq<u8>>,
    next: Seq<u8>,
    system: Seq<u8>,
    tools: Seq<u8>,
    model: Option<Seq<char>>,
)
    requires
        messages.len() > 0,
    ensures
        ({
            let before = payload(messages, system, tools, model);
            let after = payload(messages.push(next), system, tools, model);
            let cut = before.len() - payload_tail().len();
            let separator = if messages.len() > 1 {
                seq![COMMA]
            } else {
                Seq::<u8>::empty()
            };
            &&& before.skip(cut) == payload_tail()
            &&& after == before.take(cut) + separator + messages.last() + payload_tail()
        }),
{
    let head = payload_head(system) + tools + ",\"model\":".spec_bytes() + json_model(model)
        + ",\"prefix_messages\":".spec_bytes() + seq![OPEN_BRACKET];
    let q = head + comma_joined(messages.drop_last());
    let before = payload(messages, system, tools, model);
    let after = payload(messages.push(next), system, tools, model);
    assert(messages.push(next).drop_last() =~= messages);
    assert(before =~= q + payload_tail());
    let cut = before.len() - payload_tail().len();
    assert(before.take(cut) =~= q);
    assert(before.skip(cut) =~= payload_tail());
    if messages.len() == 1 {
        assert(messages.drop_last() =~= Seq::<Seq<u8>>::empty());
        assert(comma_joined(messages) == messages[0]);
        assert(after =~= q + messages.last() + payload_tail());
    } else {
        assert(after =~= q + seq![COMMA] + messages.last() + payload_tail());
    }
}

/// The hit ratio of an aggregate is cache reads over cache reads plus
/// writes, of its own token totals; it is `None` exactly when both totals
/// are zero.
pub proof fn lemma_aggregate_hit_ratio_of_totals(calls: Seq<CallMetrics>, pricing: Pricing)
    requires
        aggregate_fits(calls, pricing),
    ensures
        ({
            let a = aggregate_of(calls, pricing);
            &&& a.hit_ratio is None <==> a.tokens_read_from_cache + a.tokens_written_to_cache == 0
            &&& a.hit_ratio matches Some(r) ==> {
                &&& r.numerator == a.tokens_read_from_cache
                &&& r.denominator == a.tokens_read_from_cache + a.tokens_written_to_cache
            }
        }),
{
    lemma_tally_nonneg(calls, pricing);
}

/// Recording one more call adds one to the call count, and that call's
/// cache reads, cache writes, cost and saving to the aggregate's totals.
pub proof fn lemma_aggregate_adds_each_call(
    calls: Seq<CallMetrics>,
    call: CallMetrics,
    pricing: Pricing,
)
    requires
        aggregate_fits(calls, pricing),
        aggregate_fits(calls.push(call), pricing),
        calls.len() + 1 <= usize::MAX,
    ensures
        ({
            let before = aggregate_of(calls, pricing);
            let after = aggregate_of(calls.push(call), pricing);
            let u = call.usage;
            &&& after.calls == before.calls + 1
            &&& after.tokens_read_from_cache == before.tokens_read_from_cache
                + u.cache_read_tokens
            &&& after.tokens_written_to_cache == before.tokens_written_to_cache
                + u.cache_creation_tokens
            &&& after.cost_usd == before.cost_usd + u.input_tokens * pricing.input_per_mtok
                + u.cache_read_tokens * pricing.cache_read_per_mtok + u.cache_creation_tokens
                * pricing.cache_write_5m_per_mtok + u.output_tokens * pricing.output_per_mtok
            &&& after.cost_saved_usd == before.cost_saved_usd + u.cache_read_tokens * (
            pricing.input_per_mtok - pricing.cache_read_per_mtok) + u.cache_creation_tokens * (
            pricing.input_per_mtok - pricing.cache_write_5m_per_mtok)
        }),
{
    assert(calls.push(call).drop_last() =~= calls);
    lemma_tally_nonneg(calls, pricing);
    lemma_tally_nonneg(calls.push(call), pricing);
    lemma_saving_is_cache_discount(call.usage, pricing);
}

/// Adds two usages field by field.
pub open spec fn usage_sum(a: Usage, b: Usage) -> Usage {
    Usage {
        input_tokens: (a.input_tokens + b.input_tokens) as u64,
        cache_read_tokens: (a.cache_read_tokens + b.cache_read_tokens) as u64,
        cache_creation_tokens: (a.cache_creation_tokens + b.cache_creation_tokens) as u64,
        output_tokens: (a.output_tokens + b.output_tokens) as u64,
    }
}

/// The cost of two usages together is the sum of their costs.
pub proof fn lemma_cost_is_additive(a: Usage, b: Usage, pricing: Pricing)
    requires
        a.input_tokens + b.input_tokens <= u64::MAX,
        a.cache_read_tokens + b.cache_read_tokens <= u64::MAX,
        a.cache_creation_tokens + b.cache_creation_tokens <= u64::MAX,
        a.output_tokens + b.output_tokens <= u64::MAX,
    ensures
        cost_of(usage_sum(a, b), pricing) == cost_of(a, pricing) + cost_of(b, pricing),
{
    let s = usage_sum(a, b);
    assert(s.input_tokens * pricing.input_per_mtok == a.input_tokens * pricing.input_per_mtok
        + b.input_tokens * pricing.input_per_mtok) by (nonlinear_arith)
        requires
            s.input_tokens == a.input_tokens + b.input_tokens,
    ;
    assert(s.cache_read_tokens * pricing.cache_read_per_mtok == a.cache_read_tokens
        * pricing.cache_read_per_mtok + b.cache_read_tokens * pricing.cache_read_per_mtok)
        by (nonlinear_arith)
        requires
            s.cache_read_tokens == a.cache_read_tokens + b.cache_read_tokens,
    ;
    assert(s.cache_creation_tokens * pricing.cache_write_5m_per_mtok == a.cache_creation_tokens
        * pricing.cache_write_5m_per_mtok + b.cache_creation_tokens
        * pricing.cache_write_5m_per_mtok) by (nonlinear_arith)
        requires
            s.cache_creation_tokens == a.cache_creation_tokens + b.cache_creation_tokens,
    ;
    assert(s.output_tokens * pricing.output_per_mtok == a.output_tokens * pricing.output_per_mtok
        + b.output_tokens * pricing.output_per_mtok) by (nonlinear_arith)
        requires
            s.output_tokens == a.output_tokens + b.output_tokens,
    ;
}

/// No tokens cost nothing; one token of each kind costs that kind's price
/// (a cache write at the 5-minute price).
pub proof fn lemma_cost_of_single_tokens(pricing: Pricing)
    ensures
        cost_of(Usage { input_tokens: 0, cache_read_tokens: 0, cache_creation_tokens: 0, output_tokens: 0 }, pricing) == 0,
        cost_of(Usage { input_tokens: 1, cache_read_tokens: 0, cache_creation_tokens: 0, output_tokens: 0 }, pricing) == pricing.input_per_mtok,
        cost_of(Usage { input_tokens: 0, cache_read_tokens: 1, cache_creation_tokens: 0, output_tokens: 0 }, pricing) == pricing.cache_read_per_mtok,
        cost_of(Usage { input_tokens: 0, cache_read_tokens: 0, cache_creation_tokens: 1, output_tokens: 0 }, pricing) == pricing.cache_write_5m_per_mtok,
        cost_of(Usage { input_tokens: 0, cache_read_tokens: 0, cache_creation_tokens: 0, output_tokens: 1 }, pricing) == pricing.output_per_mtok,
{
}

/// The cost of a call does not depend on the 1-hour cache-write price, and
/// exceeds what its prompt paid by exactly its output tokens' price.
pub proof fn lemma_cost_ignores_one_hour_tier(usage: Usage, pricing: Pricing, one_hour: u64)
    ensures
        cost_of(usage, pricing) == cost_of(usage, Pricing { cache_write_1h_per_mtok: one_hour, ..pricing }),
        cost_of(usage, pricing) - paid_prompt_of(usage, pricing) == usage.output_tokens
            * pricing.output_per_mtok,
{
}

/// The calls of `calls` whose prefix id is `id`, in order.
pub open spec fn calls_with_prefix(calls: Seq<CallMetrics>, id: Seq<char>) -> Seq<CallMetrics> {
    calls.filter(|c: CallMetrics| c.prefix_id@ == id)
}

proof fn lemma_tally_for_is_tally_of_matching(calls: Seq<CallMetrics>, id: Seq<char>, pricing: Pricing)
    ensures
        tally_for(calls, id, pricing) == tally(calls_with_prefix(calls, id), pricing),
    decreases calls.len(),
{
    reveal(Seq::filter);
    if calls.len() > 0 {
        lemma_tally_for_is_tally_of_matching(calls.drop_last(), id, pricing);
        let rest = calls_with_prefix(calls.drop_last(), id);
        if calls.last().prefix_id@ == id {
            assert(calls_with_prefix(calls, id) == rest.push(calls.last()));
            assert(rest.push(calls.last()).drop_last() =~= rest);
        } else {
            assert(calls_with_prefix(calls, id) == rest);
        }
    }
}

proof fn lemma_tally_counts_calls(calls: Seq<CallMetrics>, pricing: Pricing)
    ensures
        tally(calls, pricing).calls == calls.len(),
    decreases calls.len(),
{
    if calls.len() > 0 {
        lemma_tally_counts_calls(calls.drop_last(), pricing);
    }
}

/// Each group of a per-prefix breakdown has the call count, hit ratio and
/// saving of the aggregate of exactly the calls that carry its prefix id.
pub proof fn lemma_group_is_aggregate_of_its_calls(
    groups: Seq<(String, PrefixStats)>,
    calls: Seq<CallMetrics>,
    pricing: Pricing,
)
    requires
        is_prefix_breakdown(groups, calls, pricing),
    ensures
        forall|j: int|
            0 <= j < groups.len() ==> {
                let whole = aggregate_of(calls_with_prefix(calls, (#[trigger] groups[j]).0@), pricing);
                &&& groups[j].1.calls == whole.calls
                &&& groups[j].1.hit_ratio == whole.hit_ratio
                &&& groups[j].1.cost_saved_usd == whole.cost_saved_usd
            },
{
    assert forall|j: int| 0 <= j < groups.len() implies {
        let whole = aggregate_of(calls_with_prefix(calls, (#[trigger] groups[j]).0@), pricing);
        &&& groups[j].1.calls == whole.calls
        &&& groups[j].1.hit_ratio == whole.hit_ratio
        &&& groups[j].1.cost_saved_usd == whole.cost_saved_usd
    } by {
        let id = groups[j].0@;
        lemma_tally_for_is_tally_of_matching(calls, id, pricing);
        lemma_tally_counts_calls(calls_with_prefix(calls, id), pricing);
    }
}

} // verus!
