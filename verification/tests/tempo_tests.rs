use beatgrid::tempo::TempoEngine;
use beatgrid::tempo::TempoSource;
use beatgrid::tempo::median_ms;
use beatgrid::tempo::tap_confidence;

#[test]
fn tapping_updates_bpm_and_source() {
    let mut tempo = TempoEngine::default();
    tempo.tap_bpm(Some(1_000));
    let state = tempo.tap_bpm(Some(1_500));

    assert_eq!(state.source, TempoSource::Tap);
    assert!(state.bpm_milli > 110_000 && state.bpm_milli < 130_000);
    assert_eq!(state.tap_count, 2);
}

#[test]
fn nudge_is_clamped() {
    let mut tempo = TempoEngine::default();
    tempo.set_bpm(290_000);
    let state = tempo.nudge_bpm(100_000);
    assert_eq!(state.bpm_milli, 300_000);
}

#[test]
fn median_supports_even_and_odd_inputs() {
    assert_eq!(median_ms(&vec![400, 500, 600]), 500);
    assert_eq!(median_ms(&vec![400, 500, 600, 700]), 550);
}

#[test]
fn confidence_improves_for_consistent_taps() {
    let consistent = tap_confidence(&vec![500, 500, 500, 500]);
    let jittery = tap_confidence(&vec![400, 540, 450, 610]);

    assert_eq!(consistent.cmp(&jittery), std::cmp::Ordering::Greater);
}

#[test]
fn set_bpm_clamps_to_band() {
    let mut tempo = TempoEngine::default();
    assert_eq!(tempo.set_bpm(5_000).bpm_milli, 20_000);
    assert_eq!(tempo.set_bpm(1_000_000).bpm_milli, 300_000);
    assert_eq!(tempo.set_bpm(120_000).bpm_milli, 120_000);
}

#[test]
fn nudge_clamps_downwards_and_keeps_confidence() {
    let mut tempo = TempoEngine::default();
    tempo.set_bpm(30_000);
    let state = tempo.nudge_bpm(-50_000);
    assert_eq!(state.bpm_milli, 20_000);
    assert_eq!(state.confidence_milli, 1_000);
    assert_eq!(state.source, TempoSource::Manual);
}

#[test]
fn set_bpm_resets_tap_state() {
    let mut tempo = TempoEngine::default();
    tempo.tap_bpm(Some(1_000));
    tempo.tap_bpm(Some(1_500));
    let state = tempo.set_bpm(100_000);
    assert_eq!(state.tap_count, 0);
    assert_eq!(state.confidence_milli, 1_000);
    assert_eq!(state.source, TempoSource::Manual);
}

#[test]
fn single_tap_only_counts() {
    let mut tempo = TempoEngine::default();
    let before = tempo.state();
    let state = tempo.tap_bpm(Some(42_000));
    assert_eq!(state.tap_count, 1);
    assert_eq!(state.bpm_milli, before.bpm_milli);
    assert_eq!(state.confidence_milli, before.confidence_milli);
    assert_eq!(state.source, before.source);
    assert_eq!(state.downbeat_epoch_ms, before.downbeat_epoch_ms);
}

#[test]
fn implausible_intervals_are_ignored() {
    let mut tempo = TempoEngine::default();
    let before = tempo.state();
    tempo.tap_bpm(Some(1_000));
    // Ten seconds later: the 10000 ms interval is outside [80, 3000].
    let state = tempo.tap_bpm(Some(11_000));
    assert_eq!(state.tap_count, 2);
    assert_eq!(state.bpm_milli, before.bpm_milli);
    assert_eq!(state.source, TempoSource::Manual);
}

#[test]
fn tap_history_is_bounded_to_eight() {
    let mut tempo = TempoEngine::default();
    let mut state = tempo.state();
    for i in 0..12u64 {
        state = tempo.tap_bpm(Some(1_000 + 500 * i));
    }
    assert_eq!(state.tap_count, 8);
    assert_eq!(state.bpm_milli, 120_000);
    assert_eq!(state.source, TempoSource::Tap);
}

#[test]
fn tap_resets_downbeat_to_latest_tap() {
    let mut tempo = TempoEngine::default();
    tempo.tap_bpm(Some(1_000));
    let state = tempo.tap_bpm(Some(1_600));
    // 600 ms median interval: 100 BPM exactly.
    assert_eq!(state.bpm_milli, 100_000);
    assert_eq!(state.downbeat_epoch_ms, 1_600);
}

#[test]
fn resync_downbeat_sets_timestamp() {
    let mut tempo = TempoEngine::default();
    let before = tempo.state();
    let state = tempo.resync_downbeat(Some(77_000));
    assert_eq!(state.downbeat_epoch_ms, 77_000);
    assert_eq!(state.bpm_milli, before.bpm_milli);
    assert_eq!(state.source, before.source);
}

#[test]
fn median_of_single_value() {
    assert_eq!(median_ms(&vec![400]), 400);
    assert_eq!(median_ms(&vec![250, 750]), 500);
}

#[test]
fn confidence_of_single_interval_is_fixed() {
    assert_eq!(tap_confidence(&vec![500]), 350);
}

#[test]
fn confidence_of_regular_taps_scales_with_count() {
    // Perfectly regular: confidence is the clamped sample weight.
    assert_eq!(tap_confidence(&vec![500, 500]), 400);
    assert_eq!(tap_confidence(&vec![500, 500, 500, 500, 500, 500]), 990);
}
