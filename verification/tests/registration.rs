use sequencer_metrics::error::FailureReason;
use sequencer_metrics::registry::{register, MetricsRegistry, Series};
use sequencer_metrics::tag::{BlockId, BlockTag};

fn catalog() -> Vec<String> {
    vec![
        "get_block".to_string(),
        "get_state_update".to_string(),
        "call_contract".to_string(),
        "get_transaction".to_string(),
    ]
}

fn value(
    r: &MetricsRegistry,
    series: Series,
    method: &str,
    tag: BlockTag,
    reason: Option<FailureReason>,
) -> Option<u64> {
    r.counter_value(series, &method.to_string(), tag, reason)
}

#[test]
fn registration_covers_every_method_and_reason() {
    let r = register(catalog());
    let reasons = [
        FailureReason::Starknet,
        FailureReason::Decode,
        FailureReason::RateLimiting,
    ];
    for method in ["get_block", "get_state_update", "call_contract", "get_transaction"] {
        assert_eq!(value(&r, Series::RequestsTotal, method, BlockTag::NoTag, None), Some(0));
        assert_eq!(value(&r, Series::RequestsFailedTotal, method, BlockTag::NoTag, None), Some(0));
        for reason in reasons {
            assert_eq!(
                value(&r, Series::RequestsFailedTotal, method, BlockTag::NoTag, Some(reason)),
                Some(0)
            );
        }
    }
    for method in ["get_block", "get_state_update"] {
        for tag in [BlockTag::Latest, BlockTag::Pending] {
            assert_eq!(value(&r, Series::RequestsTotal, method, tag, None), Some(0));
            assert_eq!(value(&r, Series::RequestsFailedTotal, method, tag, None), Some(0));
            for reason in reasons {
                assert_eq!(
                    value(&r, Series::RequestsFailedTotal, method, tag, Some(reason)),
                    Some(0)
                );
            }
        }
    }
}

#[test]
fn unregistered_combinations_have_no_counter() {
    let r = register(catalog());
    // A method outside the catalog has no untagged series.
    assert_eq!(value(&r, Series::RequestsTotal, "add_transaction", BlockTag::NoTag, None), None);
    // Tagged series exist only for the two tag-supporting methods.
    assert_eq!(value(&r, Series::RequestsTotal, "call_contract", BlockTag::Latest, None), None);
    assert_eq!(
        value(&r, Series::RequestsFailedTotal, "get_transaction", BlockTag::Pending, None),
        None
    );
    // The totals series never carries a reason label.
    assert_eq!(
        value(
            &r,
            Series::RequestsTotal,
            "get_block",
            BlockTag::NoTag,
            Some(FailureReason::Starknet)
        ),
        None
    );
    assert_eq!(
        value(
            &r,
            Series::RequestsTotal,
            "get_block",
            BlockTag::Latest,
            Some(FailureReason::Decode)
        ),
        None
    );
}

#[test]
fn registration_over_empty_catalog_keeps_tagged_series() {
    let r = register(Vec::new());
    assert_eq!(value(&r, Series::RequestsTotal, "get_block", BlockTag::NoTag, None), None);
    assert_eq!(value(&r, Series::RequestsTotal, "get_block", BlockTag::Latest, None), Some(0));
    assert_eq!(
        value(
            &r,
            Series::RequestsFailedTotal,
            "get_state_update",
            BlockTag::Pending,
            Some(FailureReason::RateLimiting)
        ),
        Some(0)
    );
}

#[test]
fn series_names_match_the_metrics_surface() {
    assert_eq!(Series::RequestsTotal.name(), "sequencer_requests_total");
    assert_eq!(Series::RequestsFailedTotal.name(), "sequencer_requests_failed_total");
}

#[test]
fn block_tag_classification() {
    assert_eq!(BlockTag::from(BlockId::Number(12345)), BlockTag::NoTag);
    assert_eq!(BlockTag::from(BlockId::Hash([7u8; 32])), BlockTag::NoTag);
    assert_eq!(BlockTag::from(BlockId::Latest), BlockTag::Latest);
    assert_eq!(BlockTag::from(BlockId::Pending), BlockTag::Pending);
}

#[test]
fn block_tag_labels() {
    assert_eq!(BlockTag::NoTag.as_str(), None);
    assert_eq!(BlockTag::Latest.as_str(), Some("latest"));
    assert_eq!(BlockTag::Pending.as_str(), Some("pending"));
}
