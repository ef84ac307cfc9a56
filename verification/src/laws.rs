//! The laws of the instrumentation layer, stated over the delta sets and the
//! registry view that the recording functions' contracts use.

use crate::error::{spec_reason, FailureReason, SequencerError, StarknetError, TransportError,
    TOO_MANY_REQUESTS};
use crate::registry::{bump1, counter_key, failure_delta, key_registered, request_delta,
    spec_tag_supported, CounterKey, Series};
use crate::tag::BlockTag;
use vstd::prelude::*;

verus! {

/// Registration is exhaustive: over any catalog, every method of the catalog
/// has its `requests_total` and `requests_failed_total` counter and its
/// failed counter for every reason, and every tag-supporting method has the
/// tagged variants for every tag and every (tag, reason) pair. Together with
/// the contract of `register` — whose registry holds exactly the keys that
/// `key_registered` admits, all at zero — every such counter exists before
/// any traffic.
pub proof fn lemma_registration_exhaustive(
    catalog: Seq<Seq<char>>,
    method: Seq<char>,
    tag: BlockTag,
    reason: FailureReason,
)
    requires
        catalog.contains(method),
        !(tag is NoTag),
    ensures
        key_registered(catalog, counter_key(Series::RequestsTotal, method, BlockTag::NoTag, None)),
        key_registered(
            catalog,
            counter_key(Series::RequestsFailedTotal, method, BlockTag::NoTag, None),
        ),
        key_registered(
            catalog,
            counter_key(Series::RequestsFailedTotal, method, BlockTag::NoTag, Some(reason)),
        ),
        spec_tag_supported(method) ==> key_registered(
            catalog,
            counter_key(Series::RequestsTotal, method, tag, None),
        ),
        spec_tag_supported(method) ==> key_registered(
            catalog,
            counter_key(Series::RequestsFailedTotal, method, tag, None),
        ),
        spec_tag_supported(method) ==> key_registered(
            catalog,
            counter_key(Series::RequestsFailedTotal, method, tag, Some(reason)),
        ),
{
}

/// The success path touches only request totals: recording a request moves
/// the method's `requests_total` counter, the tagged variant exactly for a
/// tag-supporting method with a tag, and nothing else — in particular no
/// counter of the failed series. A successful outcome records nothing
/// further (`record_outcome` leaves the registry unchanged on `Ok`).
pub proof fn lemma_success_path(method: Seq<char>, tag: BlockTag)
    ensures
        request_delta(method, tag).contains(
            counter_key(Series::RequestsTotal, method, BlockTag::NoTag, None),
        ),
        spec_tag_supported(method) && !(tag is NoTag) ==> request_delta(method, tag).contains(
            counter_key(Series::RequestsTotal, method, tag, None),
        ),
        forall|k: CounterKey| #[trigger] request_delta(method, tag).contains(k) ==> k.series
            is RequestsTotal && k.reason is None && k.method == method,
        forall|k: CounterKey| #[trigger] request_delta(method, tag).contains(k) ==> (k.tag
            is NoTag || (k.tag == tag && spec_tag_supported(method))),
{
}

/// A failure carrying a structured service error is attributed to the
/// `starknet` reason: its delta holds the reason-less failed counters and
/// the `starknet`-attributed ones, and no counter of any other reason.
pub proof fn lemma_domain_error_path(method: Seq<char>, tag: BlockTag, e: StarknetError)
    ensures
        spec_reason(SequencerError::StarknetError(e)) == Some(FailureReason::Starknet),
        failure_delta(method, tag, SequencerError::StarknetError(e)).contains(
            counter_key(Series::RequestsFailedTotal, method, BlockTag::NoTag, None),
        ),
        failure_delta(method, tag, SequencerError::StarknetError(e)).contains(
            counter_key(
                Series::RequestsFailedTotal,
                method,
                BlockTag::NoTag,
                Some(FailureReason::Starknet),
            ),
        ),
        forall|k: CounterKey|
            #[trigger] failure_delta(method, tag, SequencerError::StarknetError(e)).contains(k)
                && k.reason is Some ==> k.reason == Some(FailureReason::Starknet),
{
}

/// A decode failure is attributed to the `decode` reason only.
pub proof fn lemma_decode_error_path(method: Seq<char>, tag: BlockTag)
    ensures
        spec_reason(SequencerError::ReqwestError(TransportError::Decode)) == Some(
            FailureReason::Decode,
        ),
        failure_delta(method, tag, SequencerError::ReqwestError(TransportError::Decode)).contains(
            counter_key(Series::RequestsFailedTotal, method, BlockTag::NoTag, None),
        ),
        failure_delta(method, tag, SequencerError::ReqwestError(TransportError::Decode)).contains(
            counter_key(
                Series::RequestsFailedTotal,
                method,
                BlockTag::NoTag,
                Some(FailureReason::Decode),
            ),
        ),
        forall|k: CounterKey|
            #[trigger] failure_delta(
                method,
                tag,
                SequencerError::ReqwestError(TransportError::Decode),
            ).contains(k) && k.reason is Some ==> k.reason == Some(FailureReason::Decode),
{
}

/// A transport failure is attributed to `rate_limiting` exactly when its
/// status code is 429: then the delta holds the reason-less failed counters
/// and the `rate_limiting`-attributed ones and no other reason; any other
/// status moves the reason-less failed counters and no reason-attributed
/// counter at all.
pub proof fn lemma_rate_limit_path(method: Seq<char>, tag: BlockTag, status: u16)
    ensures
        status == TOO_MANY_REQUESTS ==> spec_reason(
            SequencerError::ReqwestError(TransportError::Status(status)),
        ) == Some(FailureReason::RateLimiting),
        status == TOO_MANY_REQUESTS ==> failure_delta(
            method,
            tag,
            SequencerError::ReqwestError(TransportError::Status(status)),
        ).contains(
            counter_key(
                Series::RequestsFailedTotal,
                method,
                BlockTag::NoTag,
                Some(FailureReason::RateLimiting),
            ),
        ),
        status != TOO_MANY_REQUESTS ==> spec_reason(
            SequencerError::ReqwestError(TransportError::Status(status)),
        ) is None,
        forall|k: CounterKey|
            #[trigger] failure_delta(
                method,
                tag,
                SequencerError::ReqwestError(TransportError::Status(status)),
            ).contains(k) ==> if status == TOO_MANY_REQUESTS {
                k.reason is None || k.reason == Some(FailureReason::RateLimiting)
            } else {
                k.reason is None
            },
        failure_delta(
            method,
            tag,
            SequencerError::ReqwestError(TransportError::Status(status)),
        ).contains(counter_key(Series::RequestsFailedTotal, method, BlockTag::NoTag, None)),
{
}

/// Tag propagation: a classified failure of `get_block` with the `latest`
/// tag moves all four relevant failed counters — reason-less and
/// reason-attributed, untagged and tagged.
pub proof fn lemma_tag_propagation(e: SequencerError, reason: FailureReason)
    requires
        spec_reason(e) == Some(reason),
    ensures
        ({
            let d = failure_delta("get_block"@, BlockTag::Latest, e);
            &&& d.contains(
                counter_key(Series::RequestsFailedTotal, "get_block"@, BlockTag::NoTag, None),
            )
            &&& d.contains(
                counter_key(Series::RequestsFailedTotal, "get_block"@, BlockTag::Latest, None),
            )
            &&& d.contains(
                counter_key(
                    Series::RequestsFailedTotal,
                    "get_block"@,
                    BlockTag::NoTag,
                    Some(reason),
                ),
            )
            &&& d.contains(
                counter_key(
                    Series::RequestsFailedTotal,
                    "get_block"@,
                    BlockTag::Latest,
                    Some(reason),
                ),
            )
        }),
{
}

/// Registration is write-once and repeatable: any two counter maps that
/// satisfy the contract of `register` over the same catalog — exactly the
/// keys of the taxonomy, all at zero — are the same map, so registering
/// again cannot change or corrupt the declared series.
pub proof fn lemma_registration_idempotent(
    a: Map<CounterKey, nat>,
    b: Map<CounterKey, nat>,
    catalog: Seq<Seq<char>>,
)
    requires
        forall|k: CounterKey| #[trigger] a.dom().contains(k) <==> key_registered(catalog, k),
        forall|k: CounterKey| #[trigger] a.dom().contains(k) ==> a[k] == 0,
        forall|k: CounterKey| #[trigger] b.dom().contains(k) <==> key_registered(catalog, k),
        forall|k: CounterKey| #[trigger] b.dom().contains(k) ==> b[k] == 0,
    ensures
        a == b,
{
    assert(a.dom() =~= b.dom());
    assert(a =~= b);
}

/// One completed instrumented call, as the aggregate law sees it: the
/// request metadata and the observed terminal outcome (`None` for success,
/// the error for failure).
pub struct CallEvent {
    pub method: Seq<char>,
    pub tag: BlockTag,
    pub outcome: Option<SequencerError>,
}

/// The counters one completed call touches: the request totals always, and
/// the failure counters of its error when it failed.
pub open spec fn call_delta(c: CallEvent) -> Set<CounterKey> {
    match c.outcome {
        None => request_delta(c.method, c.tag),
        Some(e) => request_delta(c.method, c.tag).union(failure_delta(c.method, c.tag, e)),
    }
}

/// The counter map after one set of keys is bumped: every key of the delta
/// moves by one (saturating), every other registered counter keeps its
/// value, and no key appears or disappears.
pub open spec fn bumped(m: Map<CounterKey, nat>, d: Set<CounterKey>) -> Map<CounterKey, nat> {
    Map::new(
        |k: CounterKey| m.dom().contains(k),
        |k: CounterKey| if d.contains(k) { bump1(m[k]) } else { m[k] },
    )
}

/// The counter map after a sequence of completed calls, each applied in
/// order.
pub open spec fn after_calls(m: Map<CounterKey, nat>, calls: Seq<CallEvent>) -> Map<
    CounterKey,
    nat,
>
    decreases calls.len(),
{
    if calls.len() == 0 {
        m
    } else {
        bumped(after_calls(m, calls.drop_last()), call_delta(calls.last()))
    }
}

/// How many calls of a sequence touch one counter.
pub open spec fn hits(calls: Seq<CallEvent>, k: CounterKey) -> nat
    decreases calls.len(),
{
    if calls.len() == 0 {
        0
    } else {
        hits(calls.drop_last(), k) + (if call_delta(calls.last()).contains(k) {
            1nat
        } else {
            0nat
        })
    }
}

/// Counters are monotone: a recording step leaves every registered counter
/// at its value or one above it, never below.
pub proof fn lemma_counters_monotonic(m: Map<CounterKey, nat>, d: Set<CounterKey>, k: CounterKey)
    requires
        m.dom().contains(k),
    ensures
        bumped(m, d)[k] >= m[k],
{
}

/// No counter is hit more often than there are calls.
pub proof fn lemma_hits_le_len(calls: Seq<CallEvent>, k: CounterKey)
    ensures
        hits(calls, k) <= calls.len(),
    decreases calls.len(),
{
    if calls.len() > 0 {
        lemma_hits_le_len(calls.drop_last(), k);
    }
}

/// Recording one completed call composes the two recording steps into one
/// bump of the call's delta: the request delta (totals series) and the
/// failure delta (failed series) are disjoint, so bumping one after the
/// other bumps their union, each key exactly once.
pub proof fn lemma_one_call(
    pre: Map<CounterKey, nat>,
    mid: Map<CounterKey, nat>,
    post: Map<CounterKey, nat>,
    c: CallEvent,
)
    requires
        mid.dom() == pre.dom(),
        forall|k: CounterKey| #[trigger] pre.dom().contains(k) ==> mid[k] == (if request_delta(
            c.method,
            c.tag,
        ).contains(k) {
            bump1(pre[k])
        } else {
            pre[k]
        }),
        post.dom() == mid.dom(),
        match c.outcome {
            None => post == mid,
            Some(e) => forall|k: CounterKey| #[trigger] mid.dom().contains(k) ==> post[k] == (
            if failure_delta(c.method, c.tag, e).contains(k) {
                bump1(mid[k])
            } else {
                mid[k]
            }),
        },
    ensures
        post == bumped(pre, call_delta(c)),
{
    match c.outcome {
        None => {
            assert(post =~= bumped(pre, call_delta(c)));
        },
        Some(e) => {
            assert forall|k: CounterKey| #[trigger] pre.dom().contains(k) implies post[k] == (
            if call_delta(c).contains(k) {
                bump1(pre[k])
            } else {
                pre[k]
            }) by {
                if failure_delta(c.method, c.tag, e).contains(k) {
                    assert(!request_delta(c.method, c.tag).contains(k));
                }
            }
            assert(post =~= bumped(pre, call_delta(c)));
        },
    }
}

/// Aggregate counting: after any sequence of completed calls, every
/// registered counter holds its initial value plus the number of calls
/// whose taxonomy touches it — no increment is lost and none is duplicated,
/// whatever mix of outcomes the calls had. (The bound keeps the saturating
/// increment away from `u64::MAX`; it holds of any realistic traffic.)
pub proof fn lemma_aggregate(m: Map<CounterKey, nat>, calls: Seq<CallEvent>, k: CounterKey)
    requires
        m.dom().contains(k),
        m[k] + calls.len() <= u64::MAX,
    ensures
        after_calls(m, calls).dom() == m.dom(),
        after_calls(m, calls)[k] == m[k] + hits(calls, k),
    decreases calls.len(),
{
    if calls.len() > 0 {
        lemma_aggregate(m, calls.drop_last(), k);
        lemma_hits_le_len(calls.drop_last(), k);
        assert(after_calls(m, calls).dom() =~= m.dom());
    } else {
        assert(after_calls(m, calls).dom() =~= m.dom());
    }
}

} // verus!
