use nami::decision::{static_fallback_decision, SchedulingDecision, StartReason};
use nami::confidence::{grade_sample_count, most_conservative, Confidence, ConfidenceLevel, DataFreshness, WidthGrade};

fn width(level: ConfidenceLevel) -> WidthGrade {
    WidthGrade { level, note: "width".into() }
}

#[test]
fn freshness_cap_dominates_good_stats() {
    let fresh = DataFreshness::HistoricalCacheOnly { newest_sample_at: 0 };
    let c = Confidence::assess(12, width(ConfidenceLevel::High), &fresh);
    assert_eq!(c.level, ConfidenceLevel::Low);
    assert_eq!(c.sample_count, 12);
    assert_eq!(c.notes.len(), 4);
}

#[test]
fn sample_axis_dominates() {
    let c = Confidence::assess(2, width(ConfidenceLevel::High), &DataFreshness::FreshObserved);
    assert_eq!(c.level, ConfidenceLevel::Low);
}

#[test]
fn static_fallback_is_always_very_low() {
    let c = Confidence::assess(100, width(ConfidenceLevel::High), &DataFreshness::StaticFallbackOnly);
    assert_eq!(c.level, ConfidenceLevel::VeryLow);
}

#[test]
fn no_usable_data_is_very_low() {
    let c = Confidence::assess(100, width(ConfidenceLevel::High), &DataFreshness::NoUsableData);
    assert_eq!(c.level, ConfidenceLevel::VeryLow);
}

#[test]
fn zero_samples_is_very_low() {
    let c = Confidence::assess(0, width(ConfidenceLevel::High), &DataFreshness::FreshObserved);
    assert_eq!(c.level, ConfidenceLevel::VeryLow);
}

#[test]
fn sample_count_boundaries() {
    assert_eq!(grade_sample_count(0), ConfidenceLevel::VeryLow);
    assert_eq!(grade_sample_count(2), ConfidenceLevel::Low);
    assert_eq!(grade_sample_count(3), ConfidenceLevel::Medium);
    assert_eq!(grade_sample_count(5), ConfidenceLevel::Medium);
    assert_eq!(grade_sample_count(6), ConfidenceLevel::High);
    assert_eq!(most_conservative(ConfidenceLevel::Medium, ConfidenceLevel::Low), ConfidenceLevel::Low);
}

#[test]
fn fallback_is_start_immediately_with_given_confidence() {
    match static_fallback_decision(Confidence::very_low("static only".to_string())) {
        SchedulingDecision::StartImmediately { reason, confidence } => {
            assert_eq!(reason, StartReason::FallbackPolicyRunImmediately);
            assert_eq!(confidence.level, ConfidenceLevel::VeryLow);
            assert_eq!(confidence.sample_count, 0);
            assert!(!confidence.notes.is_empty());
        }
        other => panic!("expected StartImmediately, got {other:?}"),
    }
}
