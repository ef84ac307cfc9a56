//! The metrics registry: every counter series the instrumentation can ever
//! increment, pre-declared as an exhaustive cross-product over the method
//! catalog, the block tags and the failure reasons.

use crate::error::{classify, spec_reason, FailureReason, SequencerError};
use crate::tag::BlockTag;
use vstd::prelude::*;

verus! {

/// The two counter series of the metrics surface.
#[derive(Clone, Copy, Debug, PartialEq, Eq, Structural)]
pub enum Series {
    RequestsTotal,
    RequestsFailedTotal,
}

impl Series {
    /// The name under which the series is exposed to a scraping system.
    pub fn name(self) -> (r: &'static str)
        ensures
            self is RequestsTotal ==> r@ == "sequencer_requests_total"@,
            self is RequestsFailedTotal ==> r@ == "sequencer_requests_failed_total"@,
    {
        match self {
            Series::RequestsTotal => "sequencer_requests_total",
            Series::RequestsFailedTotal => "sequencer_requests_failed_total",
        }
    }
}

/// The identity of one counter: a series plus its labels. A key whose tag is
/// [`BlockTag::NoTag`] stands for the series without a `tag` label; a key
/// whose reason is `None` stands for the series without a `reason` label.
pub struct CounterKey {
    pub series: Series,
    pub method: Seq<char>,
    pub tag: BlockTag,
    pub reason: Option<FailureReason>,
}

/// Builds a counter key from its four label positions.
pub open spec fn counter_key(
    series: Series,
    method: Seq<char>,
    tag: BlockTag,
    reason: Option<FailureReason>,
) -> CounterKey {
    CounterKey { series, method, tag, reason }
}

/// Whether a method additionally carries tagged counter variants: exactly
/// the two methods that take a block reference.
pub open spec fn spec_tag_supported(method: Seq<char>) -> bool {
    method == "get_block"@ || method == "get_state_update"@
}

/// Whether a key belongs to the registered taxonomy over the given catalog:
/// untagged keys exist for every catalog method, tagged keys for the two
/// tag-supporting methods, and a reason label only on the failed series.
pub open spec fn key_registered(catalog: Seq<Seq<char>>, k: CounterKey) -> bool {
    &&& k.reason is Some ==> k.series is RequestsFailedTotal
    &&& match k.tag {
        BlockTag::NoTag => catalog.contains(k.method),
        BlockTag::Latest | BlockTag::Pending => spec_tag_supported(k.method),
    }
}

/// One observed increment of a counter value: counters saturate at
/// `u64::MAX` instead of wrapping, so they never decrease.
pub open spec fn bump1(v: nat) -> nat {
    if v < u64::MAX { v + 1 } else { v }
}

/// The keys one increment call touches: the untagged counter of the method,
/// plus the tagged variant exactly when the method supports tags and the
/// request carries one.
pub open spec fn bump_delta(
    method: Seq<char>,
    tag: BlockTag,
    series: Series,
    reason: Option<FailureReason>,
) -> Set<CounterKey> {
    let base = set![counter_key(series, method, BlockTag::NoTag, reason)];
    if spec_tag_supported(method) && !(tag is NoTag) {
        base.insert(counter_key(series, method, tag, reason))
    } else {
        base
    }
}

/// The counters recording a request touches: the request totals of its
/// method (untagged, and tagged if applicable).
pub open spec fn request_delta(method: Seq<char>, tag: BlockTag) -> Set<CounterKey> {
    bump_delta(method, tag, Series::RequestsTotal, None)
}

/// The reason-less failed counters of a method (untagged, and tagged if
/// applicable).
pub open spec fn failed_total_delta(method: Seq<char>, tag: BlockTag) -> Set<CounterKey> {
    bump_delta(method, tag, Series::RequestsFailedTotal, None)
}

/// The reason-attributed failed counters of a method for one reason
/// (untagged, and tagged if applicable).
pub open spec fn reason_delta(
    method: Seq<char>,
    tag: BlockTag,
    reason: FailureReason,
) -> Set<CounterKey> {
    bump_delta(method, tag, Series::RequestsFailedTotal, Some(reason))
}

/// The counters recording a failure touches: always the reason-less failed
/// totals, and additionally the reason-attributed ones when the error
/// classifies into a reason. An unclassified failure stays visible in the
/// aggregate but is not finely attributed.
pub open spec fn failure_delta(
    method: Seq<char>,
    tag: BlockTag,
    e: SequencerError,
) -> Set<CounterKey> {
    match spec_reason(e) {
        Some(r) => failed_total_delta(method, tag).union(reason_delta(method, tag, r)),
        None => failed_total_delta(method, tag),
    }
}

/// Carries the metrics metadata of one request: the method called and the
/// block tag the call refers to, if any. Built per call site and never
/// mutated afterwards.
#[derive(Clone, Debug)]
pub struct RequestMetadata {
    pub method: String,
    pub tag: BlockTag,
}

impl RequestMetadata {
    /// Creates metadata for a request without a block tag.
    pub fn new(method: String) -> (r: Self)
        ensures
            r.method == method,
            r.tag == BlockTag::NoTag,
    {
        RequestMetadata { method, tag: BlockTag::NoTag }
    }
}

/// The values of all counters that share one (method, tag) label column:
/// one field per (series, reason) position of the taxonomy.
#[derive(Clone, Copy, Debug, PartialEq, Eq, Structural)]
struct CounterCell {
    total: u64,
    failed: u64,
    failed_starknet: u64,
    failed_decode: u64,
    failed_rate_limiting: u64,
}

/// The cell with every counter at zero.
spec fn cell_zero() -> CounterCell {
    CounterCell { total: 0, failed: 0, failed_starknet: 0, failed_decode: 0, failed_rate_limiting: 0 }
}

/// The field of a cell that a (series, reason) position reads. The reason is
/// ignored on the totals series, whose keys never carry one.
spec fn cell_value(c: CounterCell, series: Series, reason: Option<FailureReason>) -> u64 {
    match series {
        Series::RequestsTotal => c.total,
        Series::RequestsFailedTotal => match reason {
            None => c.failed,
            Some(FailureReason::Starknet) => c.failed_starknet,
            Some(FailureReason::Decode) => c.failed_decode,
            Some(FailureReason::RateLimiting) => c.failed_rate_limiting,
        },
    }
}

/// Saturating increment on the machine representation.
spec fn bump64(v: u64) -> u64 {
    if v < u64::MAX {
        (v + 1) as u64
    } else {
        v
    }
}

/// The cell with the field of the given (series, reason) position bumped.
spec fn spec_bump_cell(c: CounterCell, series: Series, reason: Option<FailureReason>) -> CounterCell {
    match series {
        Series::RequestsTotal => CounterCell { total: bump64(c.total), ..c },
        Series::RequestsFailedTotal => match reason {
            None => CounterCell { failed: bump64(c.failed), ..c },
            Some(FailureReason::Starknet) => CounterCell {
                failed_starknet: bump64(c.failed_starknet),
                ..c
            },
            Some(FailureReason::Decode) => CounterCell { failed_decode: bump64(c.failed_decode), ..c },
            Some(FailureReason::RateLimiting) => CounterCell {
                failed_rate_limiting: bump64(c.failed_rate_limiting),
                ..c
            },
        },
    }
}

impl CounterCell {
    fn zeroed() -> (c: CounterCell)
        ensures
            c == cell_zero(),
    {
        CounterCell { total: 0, failed: 0, failed_starknet: 0, failed_decode: 0, failed_rate_limiting: 0 }
    }

    /// Bumps the field of the given (series, reason) position, saturating at
    /// `u64::MAX`.
    fn bump_field(&mut self, series: Series, reason: Option<FailureReason>)
        ensures
            *final(self) == spec_bump_cell(*old(self), series, reason),
    {
        match series {
            Series::RequestsTotal => {
                self.total = bump_u64(self.total);
            },
            Series::RequestsFailedTotal => {
                match reason {
                    None => {
                        self.failed = bump_u64(self.failed);
                    },
                    Some(FailureReason::Starknet) => {
                        self.failed_starknet = bump_u64(self.failed_starknet);
                    },
                    Some(FailureReason::Decode) => {
                        self.failed_decode = bump_u64(self.failed_decode);
                    },
                    Some(FailureReason::RateLimiting) => {
                        self.failed_rate_limiting = bump_u64(self.failed_rate_limiting);
                    },
                }
            },
        }
    }

    /// Reads the field of the given (series, reason) position.
    fn read(&self, series: Series, reason: Option<FailureReason>) -> (v: u64)
        ensures
            v == cell_value(*self, series, reason),
    {
        match series {
            Series::RequestsTotal => self.total,
            Series::RequestsFailedTotal => match reason {
                None => self.failed,
                Some(FailureReason::Starknet) => self.failed_starknet,
                Some(FailureReason::Decode) => self.failed_decode,
                Some(FailureReason::RateLimiting) => self.failed_rate_limiting,
            },
        }
    }
}

/// Saturating increment.
fn bump_u64(v: u64) -> (r: u64)
    ensures
        r == bump64(v),
{
    if v < u64::MAX {
        v + 1
    } else {
        v
    }
}

/// Whether two strings hold the same characters.
fn str_eq(a: &String, b: &str) -> (r: bool)
    ensures
        r == (a@ == b@),
{
    let owned: String = b.to_owned();
    a.eq(&owned)
}

/// The position of the first occurrence of `method` in the catalog at or
/// after position `i`, or -1 if there is none.
spec fn first_index_from(catalog: Seq<Seq<char>>, method: Seq<char>, i: int) -> int
    decreases catalog.len() - i,
{
    if i < 0 || i >= catalog.len() {
        -1
    } else if catalog[i] == method {
        i
    } else {
        first_index_from(catalog, method, i + 1)
    }
}

/// The position of the first occurrence of `method` in the catalog, or -1.
spec fn first_index(catalog: Seq<Seq<char>>, method: Seq<char>) -> int {
    first_index_from(catalog, method, 0)
}

proof fn lemma_first_index_from(catalog: Seq<Seq<char>>, method: Seq<char>, i: int)
    requires
        0 <= i <= catalog.len(),
    ensures
        ({
            let r = first_index_from(catalog, method, i);
            &&& r == -1 ==> forall|j: int| i <= j < catalog.len() ==> catalog[j] != method
            &&& r != -1 ==> i <= r < catalog.len() && catalog[r] == method && (forall|j: int|
                i <= j < r ==> catalog[j] != method)
        }),
    decreases catalog.len() - i,
{
    if i < catalog.len() && catalog[i] != method {
        lemma_first_index_from(catalog, method, i + 1);
    }
}

proof fn lemma_first_index(catalog: Seq<Seq<char>>, method: Seq<char>)
    ensures
        first_index(catalog, method) == -1 <==> !catalog.contains(method),
        first_index(catalog, method) != -1 ==> 0 <= first_index(catalog, method) < catalog.len()
            && catalog[first_index(catalog, method)] == method,
        forall|j: int| 0 <= j < first_index(catalog, method) ==> catalog[j] != method,
{
    lemma_first_index_from(catalog, method, 0);
    if first_index(catalog, method) == -1 {
        assert(forall|j: int| 0 <= j < catalog.len() ==> catalog[j] != method);
    } else {
        assert(catalog.contains(method));
    }
}

/// The registry of all sequencer request counters. Created once, before any
/// traffic, by [`register`]; afterwards counters only move through the
/// recording functions and never decrease.
pub struct MetricsRegistry {
    methods: Vec<String>,
    cells: Vec<CounterCell>,
    get_block_latest: CounterCell,
    get_block_pending: CounterCell,
    get_state_update_latest: CounterCell,
    get_state_update_pending: CounterCell,
}

impl View for MetricsRegistry {
    type V = Map<CounterKey, nat>;

    /// The registry viewed as a map from every registered counter to its
    /// value.
    closed spec fn view(&self) -> Map<CounterKey, nat> {
        Map::new(
            |k: CounterKey| key_registered(self.catalog(), k),
            |k: CounterKey| cell_value(self.cell_for(k.method, k.tag), k.series, k.reason) as nat,
        )
    }
}

impl MetricsRegistry {
    /// The method catalog the registry was registered over.
    pub closed spec fn catalog(self) -> Seq<Seq<char>> {
        self.methods@.map_values(|m: String| m@)
    }

    /// Structural well-formedness: one counter cell per catalog entry.
    pub closed spec fn wf(self) -> bool {
        self.cells@.len() == self.methods@.len()
    }

    /// The cell holding the counters of a (method, tag) label column.
    spec fn cell_for(self, method: Seq<char>, tag: BlockTag) -> CounterCell {
        match tag {
            BlockTag::NoTag => self.cells@[first_index(self.catalog(), method)],
            BlockTag::Latest => if method == "get_block"@ {
                self.get_block_latest
            } else {
                self.get_state_update_latest
            },
            BlockTag::Pending => if method == "get_block"@ {
                self.get_block_pending
            } else {
                self.get_state_update_pending
            },
        }
    }

    /// The position of a method in the catalog, if it is there.
    fn find_method(&self, method: &String) -> (r: Option<usize>)
        ensures
            match r {
                Some(i) => 0 <= i < self.catalog().len() && self.catalog()[i as int] == method@
                    && first_index(self.catalog(), method@) == i,
                None => !self.catalog().contains(method@),
            },
    {
        let n = self.methods.len();
        let mut j: usize = 0;
        while j < n
            invariant
                j <= n,
                n == self.methods@.len(),
                forall|t: int| 0 <= t < j ==> self.catalog()[t] != method@,
            decreases n - j,
        {
            if self.methods[j].eq(method) {
                proof {
                    assert(self.catalog()[j as int] == self.methods@[j as int]@);
                    lemma_first_index(self.catalog(), method@);
                }
                return Some(j);
            }
            j += 1;
        }
        proof {
            lemma_first_index(self.catalog(), method@);
        }
        None
    }

    /// Increments the counter of one (series, reason) position for the
    /// method (untagged, and tagged if applicable): exactly the keys of
    /// [`bump_delta`] move, each by one (saturating), and every other
    /// registered counter keeps its value.
    fn bump(&mut self, method: &String, tag: BlockTag, series: Series, reason: Option<
        FailureReason,
    >)
        requires
            old(self).wf(),
            series is RequestsTotal ==> reason is None,
        ensures
            final(self).wf(),
            final(self).catalog() == old(self).catalog(),
            final(self)@.dom() == old(self)@.dom(),
            forall|k: CounterKey| #[trigger] old(self)@.dom().contains(k) ==> final(self)@[k] == (
            if bump_delta(method@, tag, series, reason).contains(k) {
                bump1(old(self)@[k])
            } else {
                old(self)@[k]
            }),
    {
        if let Some(i) = self.find_method(method) {
            let mut c = self.cells[i];
            c.bump_field(series, reason);
            self.cells[i] = c;
        }
        match tag {
            BlockTag::NoTag => {},
            BlockTag::Latest => {
                if str_eq(method, "get_block") {
                    self.get_block_latest.bump_field(series, reason);
                } else if str_eq(method, "get_state_update") {
                    self.get_state_update_latest.bump_field(series, reason);
                }
            },
            BlockTag::Pending => {
                if str_eq(method, "get_block") {
                    self.get_block_pending.bump_field(series, reason);
                } else if str_eq(method, "get_state_update") {
                    self.get_state_update_pending.bump_field(series, reason);
                }
            },
        }
        proof {
            assert(self@.dom() =~= old(self)@.dom());
            assert forall|k: CounterKey| #[trigger] old(self)@.dom().contains(k) implies self@[k]
                == (if bump_delta(method@, tag, series, reason).contains(k) {
                bump1(old(self)@[k])
            } else {
                old(self)@[k]
            }) by {
                lemma_first_index(old(self).catalog(), method@);
                if k.tag is NoTag {
                    lemma_first_index(old(self).catalog(), k.method);
                }
            }
        }
    }

    /// Records that a request with the given metadata was issued: the
    /// request totals of its method move by one — the untagged counter, and
    /// the tagged one exactly when the method supports tags and the request
    /// carries one — and no other registered counter changes.
    pub fn record_request(&mut self, meta: &RequestMetadata)
        requires
            old(self).wf(),
        ensures
            final(self).wf(),
            final(self).catalog() == old(self).catalog(),
            final(self)@.dom() == old(self)@.dom(),
            forall|k: CounterKey| #[trigger] old(self)@.dom().contains(k) ==> final(self)@[k] == (
            if request_delta(meta.method@, meta.tag).contains(k) {
                bump1(old(self)@[k])
            } else {
                old(self)@[k]
            }),
    {
        self.bump(&meta.method, meta.tag, Series::RequestsTotal, None);
    }

    /// Records an observed failure: the reason-less failed totals of the
    /// method move by one, the reason-attributed ones move too exactly when
    /// the error classifies into a reason, and no other registered counter
    /// changes. The same failure is thus counted once in aggregate and, when
    /// attributable, once under its reason.
    pub fn record_failure(&mut self, meta: &RequestMetadata, e: &SequencerError)
        requires
            old(self).wf(),
        ensures
            final(self).wf(),
            final(self).catalog() == old(self).catalog(),
            final(self)@.dom() == old(self)@.dom(),
            forall|k: CounterKey| #[trigger] old(self)@.dom().contains(k) ==> final(self)@[k] == (
            if failure_delta(meta.method@, meta.tag, *e).contains(k) {
                bump1(old(self)@[k])
            } else {
                old(self)@[k]
            }),
    {
        self.bump(&meta.method, meta.tag, Series::RequestsFailedTotal, None);
        match classify(e) {
            Some(reason) => {
                self.bump(&meta.method, meta.tag, Series::RequestsFailedTotal, Some(reason));
            },
            None => {},
        }
    }

    /// Records the observed terminal outcome of the wrapped operation and
    /// returns it untouched: a success leaves every counter unchanged, a
    /// failure moves exactly the counters of [`failure_delta`].
    pub fn record_outcome<T>(&mut self, meta: &RequestMetadata, result: Result<
        T,
        SequencerError,
    >) -> (r: Result<T, SequencerError>)
        requires
            old(self).wf(),
        ensures
            final(self).wf(),
            final(self).catalog() == old(self).catalog(),
            final(self)@.dom() == old(self)@.dom(),
            r == result,
            result is Ok ==> final(self)@ == old(self)@,
            (result matches Err(e) ==> forall|k: CounterKey| #[trigger] old(
                self,
            )@.dom().contains(k) ==> final(self)@[k] == (if failure_delta(
                meta.method@,
                meta.tag,
                e,
            ).contains(k) {
                bump1(old(self)@[k])
            } else {
                old(self)@[k]
            })),
    {
        match &result {
            Ok(_) => {},
            Err(e) => {
                self.record_failure(meta, e);
            },
        }
        result
    }

    /// Reads the current value of a counter, or `None` when the key is not
    /// part of the registered taxonomy.
    pub fn counter_value(
        &self,
        series: Series,
        method: &String,
        tag: BlockTag,
        reason: Option<FailureReason>,
    ) -> (r: Option<u64>)
        requires
            self.wf(),
        ensures
            ({
                let k = counter_key(series, method@, tag, reason);
                &&& r is Some <==> self@.dom().contains(k)
                &&& (r matches Some(v) ==> v as nat == self@[k])
            }),
    {
        if reason.is_some() && matches!(series, Series::RequestsTotal) {
            return None;
        }
        match tag {
            BlockTag::NoTag => {
                match self.find_method(method) {
                    Some(i) => {
                        let c = self.cells[i];
                        proof {
                            lemma_first_index(self.catalog(), method@);
                        }
                        Some(c.read(series, reason))
                    },
                    None => None,
                }
            },
            BlockTag::Latest => {
                if str_eq(method, "get_block") {
                    Some(self.get_block_latest.read(series, reason))
                } else if str_eq(method, "get_state_update") {
                    Some(self.get_state_update_latest.read(series, reason))
                } else {
                    None
                }
            },
            BlockTag::Pending => {
                if str_eq(method, "get_block") {
                    Some(self.get_block_pending.read(series, reason))
                } else if str_eq(method, "get_state_update") {
                    Some(self.get_state_update_pending.read(series, reason))
                } else {
                    None
                }
            },
        }
    }
}

/// Creates the registry of all sequencer request counters over the given
/// method catalog, pre-declaring every counter of the taxonomy with value
/// zero: both series for every catalog method, the tagged variants for the
/// two tag-supporting methods, the failed series per reason for every
/// catalog method, and per (tag, reason) for the tag-supporting ones. The
/// cross-product is enumerated up front, never lazily from traffic.
pub fn register(methods: Vec<String>) -> (r: MetricsRegistry)
    ensures
        r.wf(),
        r.catalog().len() == methods@.len(),
        forall|i: int| 0 <= i < methods@.len() ==> r.catalog()[i] == #[trigger] methods@[i]@,
        forall|k: CounterKey| #[trigger] r@.dom().contains(k) <==> key_registered(r.catalog(), k),
        forall|k: CounterKey| #[trigger] r@.dom().contains(k) ==> r@[k] == 0,
{
    let n = methods.len();
    let mut cells: Vec<CounterCell> = Vec::new();
    let mut i: usize = 0;
    while i < n
        invariant
            i <= n,
            cells@.len() == i,
            forall|j: int| 0 <= j < i ==> cells@[j] == cell_zero(),
        decreases n - i,
    {
        cells.push(CounterCell::zeroed());
        i += 1;
    }
    let r = MetricsRegistry {
        methods,
        cells,
        get_block_latest: CounterCell::zeroed(),
        get_block_pending: CounterCell::zeroed(),
        get_state_update_latest: CounterCell::zeroed(),
        get_state_update_pending: CounterCell::zeroed(),
    };
    proof {
        assert forall|k: CounterKey| #[trigger] r@.dom().contains(k) implies r@[k] == 0 by {
            if k.tag is NoTag {
                lemma_first_index(r.catalog(), k.method);
            }
        }
    }
    r
}

} // verus!
