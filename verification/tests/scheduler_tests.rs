use beatgrid::scheduler::QuantizedScheduler;
use beatgrid::scheduler::quantize_next_boundary;
use beatgrid::types::QuantizeGrid;

#[test]
fn quantize_to_next_quarter_note_boundary() {
    let now = 1_010;
    let downbeat = 1_000;
    let bpm_milli = 120_000;

    let boundary = quantize_next_boundary(now, bpm_milli, downbeat, &QuantizeGrid::Quarter);
    assert_eq!(boundary, 1_500);
}

#[test]
fn scheduler_queues_and_releases_due_actions() {
    let mut scheduler = QuantizedScheduler::default();
    let action = scheduler.schedule(
        1_000,
        120_000,
        1_000,
        Some(QuantizeGrid::Quarter),
        "trigger_clip".to_string(),
        Some("verse-a".to_string()),
    );

    assert_eq!(scheduler.list().len(), 1);
    let due = scheduler.pop_due(action.execute_at_ms);
    assert_eq!(due.len(), 1);
    assert_eq!(scheduler.list().len(), 0);
}

#[test]
fn boundary_at_or_before_downbeat_is_the_downbeat() {
    for grid in [
        QuantizeGrid::Whole,
        QuantizeGrid::Half,
        QuantizeGrid::Quarter,
        QuantizeGrid::Eighth,
        QuantizeGrid::Sixteenth,
    ] {
        assert_eq!(quantize_next_boundary(900, 120_000, 1_000, &grid), 1_000);
        assert_eq!(quantize_next_boundary(1_000, 33_000, 1_000, &grid), 1_000);
        assert_eq!(quantize_next_boundary(0, 299_999, 5, &grid), 5);
    }
}

#[test]
fn boundary_snaps_per_grid() {
    // 120 BPM: a quarter note lasts 500 ms.
    assert_eq!(quantize_next_boundary(1_010, 120_000, 1_000, &QuantizeGrid::Eighth), 1_250);
    assert_eq!(quantize_next_boundary(1_010, 120_000, 1_000, &QuantizeGrid::Sixteenth), 1_125);
    assert_eq!(quantize_next_boundary(1_010, 120_000, 1_000, &QuantizeGrid::Half), 2_000);
    assert_eq!(quantize_next_boundary(1_010, 120_000, 1_000, &QuantizeGrid::Whole), 3_000);
}

#[test]
fn boundary_on_the_grid_stays_put() {
    // 1500 is itself a quarter boundary for a downbeat at 1000.
    assert_eq!(quantize_next_boundary(1_500, 120_000, 1_000, &QuantizeGrid::Quarter), 1_500);
}

#[test]
fn out_of_band_bpm_is_clamped_before_quantizing() {
    // 1 milli-BPM clamps to 20 BPM: a quarter note lasts 3000 ms.
    assert_eq!(quantize_next_boundary(1_010, 1, 1_000, &QuantizeGrid::Quarter), 4_000);
    // Very fast input clamps to 300 BPM: a quarter note lasts 200 ms.
    assert_eq!(quantize_next_boundary(1_010, 900_000, 1_000, &QuantizeGrid::Quarter), 1_200);
}

#[test]
fn schedule_applies_look_ahead_and_assigns_ids() {
    let mut scheduler = QuantizedScheduler::default();
    // Look-ahead of 100 ms: quantize(1100) on a 500 ms grid gives 1500.
    let first = scheduler.schedule(
        1_000,
        120_000,
        1_000,
        Some(QuantizeGrid::Quarter),
        "trigger_clip".to_string(),
        None,
    );
    let second = scheduler.schedule(
        1_000,
        120_000,
        1_000,
        Some(QuantizeGrid::Quarter),
        "apply_accent".to_string(),
        None,
    );
    assert_eq!(first.execute_at_ms, 1_500);
    assert_eq!(first.id, 1);
    assert_eq!(second.id, 2);
    assert_eq!(second.execute_at_ms, 1_500);
}

#[test]
fn set_grid_changes_the_default() {
    let mut scheduler = QuantizedScheduler::default();
    let returned = scheduler.set_grid(QuantizeGrid::Eighth);
    assert_eq!(returned, QuantizeGrid::Eighth);
    let action = scheduler.schedule(
        1_000,
        120_000,
        1_000,
        None,
        "trigger_clip".to_string(),
        None,
    );
    // Default grid now eighth notes: 250 ms slots, quantize(1100) = 1250.
    assert_eq!(action.execute_at_ms, 1_250);
    assert_eq!(action.quantize, QuantizeGrid::Eighth);
}

#[test]
fn list_is_idempotent() {
    let mut scheduler = QuantizedScheduler::default();
    scheduler.schedule(
        1_000,
        120_000,
        1_000,
        Some(QuantizeGrid::Quarter),
        "trigger_clip".to_string(),
        Some("verse-a".to_string()),
    );
    scheduler.schedule(
        2_000,
        120_000,
        1_000,
        Some(QuantizeGrid::Half),
        "swap_scene".to_string(),
        None,
    );

    let first = scheduler.list();
    let second = scheduler.list();
    assert_eq!(first.len(), second.len());
    for (a, b) in first.iter().zip(second.iter()) {
        assert_eq!(a.id, b.id);
        assert_eq!(a.action, b.action);
        assert_eq!(a.section, b.section);
        assert_eq!(a.quantize, b.quantize);
        assert_eq!(a.execute_at_ms, b.execute_at_ms);
    }
    assert_eq!(scheduler.list().len(), 2);
}

#[test]
fn pop_due_respects_arrival_order_and_jitter() {
    let mut scheduler = QuantizedScheduler::default();
    let first = scheduler.schedule(
        1_000,
        120_000,
        1_000,
        Some(QuantizeGrid::Quarter),
        "trigger_clip".to_string(),
        None,
    );
    let second = scheduler.schedule(
        1_500,
        120_000,
        1_000,
        Some(QuantizeGrid::Quarter),
        "apply_accent".to_string(),
        None,
    );
    assert_eq!(first.execute_at_ms, 1_500);
    assert_eq!(second.execute_at_ms, 2_000);

    // Nothing due well before the first release time.
    assert_eq!(scheduler.pop_due(1_000).len(), 0);
    // Within the 5 ms jitter budget the first action counts as due.
    let due = scheduler.pop_due(1_495);
    assert_eq!(due.len(), 1);
    assert_eq!(due[0].id, first.id);
    // The second follows once its time has passed.
    let rest = scheduler.pop_due(2_000);
    assert_eq!(rest.len(), 1);
    assert_eq!(rest[0].id, second.id);
    assert_eq!(scheduler.list().len(), 0);
}

#[test]
fn later_due_action_waits_behind_earlier_arrival() {
    let mut scheduler = QuantizedScheduler::default();
    // First arrival releases at 3000 (whole note), second already at 1500.
    let first = scheduler.schedule(
        1_000,
        120_000,
        1_000,
        Some(QuantizeGrid::Whole),
        "trigger_clip".to_string(),
        None,
    );
    let second = scheduler.schedule(
        1_000,
        120_000,
        1_000,
        Some(QuantizeGrid::Quarter),
        "apply_accent".to_string(),
        None,
    );
    assert_eq!(first.execute_at_ms, 3_000);
    assert_eq!(second.execute_at_ms, 1_500);

    // Head-only draining: the due second action waits behind the first.
    assert_eq!(scheduler.pop_due(1_500).len(), 0);
    let due = scheduler.pop_due(3_000);
    assert_eq!(due.len(), 2);
    assert_eq!(due[0].id, first.id);
    assert_eq!(due[1].id, second.id);
}
