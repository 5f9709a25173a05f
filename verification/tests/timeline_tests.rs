use beatgrid::compiler::compile_bundle;
use beatgrid::runtime_adapter::TimelineRuntimeAdapter;
use beatgrid::timeline::TimelineError;
use beatgrid::timeline::validate_bundle;
use beatgrid::types::CueAction;
use beatgrid::types::EngineCueMarker;
use beatgrid::types::EngineEnvelopeTemplate;
use beatgrid::types::EngineSequence;
use beatgrid::types::QuantizeGrid;
use beatgrid::types::TheatreExportBundle;
use beatgrid::types::cue_action_name;

fn empty_payload() -> serde_json::Value {
    serde_json::Value::Object(serde_json::Map::new())
}

fn marker(id: &str, section: &str, bar: u32, beat: u32, action: CueAction) -> EngineCueMarker {
    EngineCueMarker {
        id: id.to_string(),
        section: section.to_string(),
        bar,
        beat,
        quantize: QuantizeGrid::Whole,
        action,
        payload: empty_payload(),
    }
}

fn sequence(id: &str, name: &str, section: &str) -> EngineSequence {
    EngineSequence { id: id.to_string(), name: name.to_string(), section: section.to_string() }
}

#[test]
fn reject_invalid_beat() {
    let bundle = TheatreExportBundle {
        version: "1.0.0".to_string(),
        fps: 60,
        sequences: vec![sequence("s1", "Main", "verse-a")],
        cue_markers: vec![marker("m1", "verse-a", 1, 9, CueAction::TriggerClip)],
        envelope_templates: vec![],
    };

    let error = validate_bundle(&bundle).expect_err("bundle should be invalid");
    assert!(matches!(error, TimelineError::InvalidBeat(_)));
}

#[test]
fn accepts_valid_beats() {
    for beat in 1..=4u32 {
        let bundle = TheatreExportBundle {
            version: "1.0.0".to_string(),
            fps: 60,
            sequences: vec![sequence("s1", "Main", "verse-a")],
            cue_markers: vec![marker("m1", "verse-a", 1, beat, CueAction::TriggerClip)],
            envelope_templates: vec![],
        };
        assert!(validate_bundle(&bundle).is_ok());
    }
}

#[test]
fn validation_reports_first_error_only() {
    let blank_version = TheatreExportBundle {
        version: "   ".to_string(),
        fps: 0,
        sequences: vec![],
        cue_markers: vec![],
        envelope_templates: vec![],
    };
    assert!(matches!(
        validate_bundle(&blank_version),
        Err(TimelineError::MissingVersion)
    ));

    let zero_fps = TheatreExportBundle {
        version: "1.0.0".to_string(),
        fps: 0,
        sequences: vec![],
        cue_markers: vec![],
        envelope_templates: vec![],
    };
    assert!(matches!(validate_bundle(&zero_fps), Err(TimelineError::InvalidFps)));

    let no_sequences = TheatreExportBundle {
        version: "1.0.0".to_string(),
        fps: 60,
        sequences: vec![],
        cue_markers: vec![],
        envelope_templates: vec![],
    };
    assert!(matches!(
        validate_bundle(&no_sequences),
        Err(TimelineError::MissingSequence)
    ));

    let no_markers = TheatreExportBundle {
        version: "1.0.0".to_string(),
        fps: 60,
        sequences: vec![sequence("s1", "Main", "verse-a")],
        cue_markers: vec![],
        envelope_templates: vec![],
    };
    assert!(matches!(
        validate_bundle(&no_markers),
        Err(TimelineError::MissingMarkers)
    ));
}

#[test]
fn invalid_beat_names_the_first_offender() {
    let bundle = TheatreExportBundle {
        version: "1.0.0".to_string(),
        fps: 60,
        sequences: vec![sequence("s1", "Main", "verse-a")],
        cue_markers: vec![
            marker("good", "verse-a", 1, 2, CueAction::TriggerClip),
            marker("bad-one", "verse-a", 1, 0, CueAction::TriggerClip),
            marker("bad-two", "verse-a", 2, 7, CueAction::TriggerClip),
        ],
        envelope_templates: vec![],
    };
    match validate_bundle(&bundle) {
        Err(TimelineError::InvalidBeat(id)) => assert_eq!(id, "bad-one"),
        other => panic!("expected InvalidBeat, got {:?}", other),
    }
}

#[test]
fn compile_bundle_sorts_markers_and_collects_sections() {
    let bundle = TheatreExportBundle {
        version: "1.0.0".to_string(),
        fps: 60,
        sequences: vec![sequence("seq-1", "Main", "chorus-a")],
        cue_markers: vec![
            marker("m2", "verse-a", 2, 1, CueAction::TriggerClip),
            marker("m1", "chorus-a", 1, 1, CueAction::SwapScene),
        ],
        envelope_templates: vec![EngineEnvelopeTemplate {
            id: "env-1".to_string(),
            name: "Pulse".to_string(),
            attack_ms: 10,
            decay_ms: 20,
            sustain_milli: 500,
            release_ms: 30,
            curve_in: "sine_in".to_string(),
            curve_out: "sine_out".to_string(),
        }],
    };

    let compiled = compile_bundle(bundle);
    assert_eq!(compiled.markers[0].id, "m1");
    assert_eq!(compiled.sections, vec!["chorus-a".to_string(), "verse-a".to_string()]);
}

#[test]
fn compile_sorts_by_bar_then_beat_stably() {
    let bundle = TheatreExportBundle {
        version: "1.0.0".to_string(),
        fps: 60,
        sequences: vec![sequence("s1", "Main", "verse-a")],
        cue_markers: vec![
            marker("c", "verse-a", 2, 1, CueAction::TriggerClip),
            marker("a", "verse-a", 1, 3, CueAction::TriggerClip),
            marker("tie-first", "verse-a", 1, 2, CueAction::TriggerClip),
            marker("tie-second", "verse-a", 1, 2, CueAction::ApplyAccent),
        ],
        envelope_templates: vec![],
    };
    let compiled = compile_bundle(bundle);
    let ids: Vec<&str> = compiled.markers.iter().map(|m| m.id.as_str()).collect();
    assert_eq!(ids, vec!["tie-first", "tie-second", "a", "c"]);
    assert_eq!(compiled.version, "1.0.0");
    assert_eq!(compiled.fps, 60);
    assert_eq!(compiled.envelopes.len(), 0);
}

fn fixture_bundle() -> TheatreExportBundle {
    TheatreExportBundle {
        version: "1.0.0".to_string(),
        fps: 60,
        sequences: vec![sequence("s1", "Main", "verse-a")],
        cue_markers: vec![
            marker("m1", "verse-a", 1, 1, CueAction::TriggerClip),
            marker("m2", "chorus-a", 2, 1, CueAction::ApplyAccent),
        ],
        envelope_templates: vec![EngineEnvelopeTemplate {
            id: "e1".to_string(),
            name: "Pulse".to_string(),
            attack_ms: 1,
            decay_ms: 1,
            sustain_milli: 700,
            release_ms: 1,
            curve_in: "linear".to_string(),
            curve_out: "linear".to_string(),
        }],
    }
}

#[test]
fn section_activation_filters_markers() {
    let mut adapter = TimelineRuntimeAdapter::default();
    adapter.import_bundle(fixture_bundle());

    let count = adapter.activate_section("chorus-a".to_string());
    let markers = adapter.list_markers(None);

    assert_eq!(count, 1);
    assert_eq!(markers.len(), 1);
    assert_eq!(markers[0].id, "m2");
}

#[test]
fn import_activates_first_section_and_counts_markers() {
    let mut adapter = TimelineRuntimeAdapter::default();
    let count = adapter.import_bundle(fixture_bundle());
    assert_eq!(count, 2);
    assert_eq!(
        adapter.sections(),
        vec!["chorus-a".to_string(), "verse-a".to_string()]
    );
    // First compiled section is active: markers are filtered to it.
    let markers = adapter.list_markers(None);
    assert_eq!(markers.len(), 1);
    assert_eq!(markers[0].id, "m2");
}

#[test]
fn list_markers_override_beats_active_section() {
    let mut adapter = TimelineRuntimeAdapter::default();
    adapter.import_bundle(fixture_bundle());
    adapter.activate_section("chorus-a".to_string());
    let markers = adapter.list_markers(Some("verse-a".to_string()));
    assert_eq!(markers.len(), 1);
    assert_eq!(markers[0].id, "m1");
}

#[test]
fn empty_adapter_answers_empty() {
    let adapter = TimelineRuntimeAdapter::default();
    assert_eq!(adapter.list_markers(None).len(), 0);
    assert_eq!(adapter.sections().len(), 0);
}

#[test]
fn reimport_replaces_timeline_wholesale() {
    let mut adapter = TimelineRuntimeAdapter::default();
    adapter.import_bundle(fixture_bundle());

    let second = TheatreExportBundle {
        version: "2.0.0".to_string(),
        fps: 30,
        sequences: vec![sequence("s2", "Alt", "bridge")],
        cue_markers: vec![marker("n1", "bridge", 1, 1, CueAction::SwapScene)],
        envelope_templates: vec![],
    };
    let count = adapter.import_bundle(second);
    assert_eq!(count, 1);
    assert_eq!(adapter.sections(), vec!["bridge".to_string()]);
    let markers = adapter.list_markers(None);
    assert_eq!(markers.len(), 1);
    assert_eq!(markers[0].id, "n1");
}

#[test]
fn payload_is_carried_through_compilation() {
    let mut payload_map = serde_json::Map::new();
    payload_map.insert("clip".to_string(), serde_json::Value::String("intro".to_string()));
    let mut m = marker("m1", "verse-a", 1, 1, CueAction::TriggerClip);
    m.payload = serde_json::Value::Object(payload_map.clone());
    let bundle = TheatreExportBundle {
        version: "1.0.0".to_string(),
        fps: 60,
        sequences: vec![sequence("s1", "Main", "verse-a")],
        cue_markers: vec![m],
        envelope_templates: vec![],
    };
    let mut adapter = TimelineRuntimeAdapter::default();
    adapter.import_bundle(bundle);
    let markers = adapter.list_markers(Some("verse-a".to_string()));
    assert_eq!(markers[0].payload, serde_json::Value::Object(payload_map));
}

#[test]
fn cue_action_names_match_command_layer() {
    assert_eq!(cue_action_name(&CueAction::TriggerClip), "trigger_clip");
    assert_eq!(cue_action_name(&CueAction::ApplyAccent), "apply_accent");
    assert_eq!(cue_action_name(&CueAction::SwapScene), "swap_scene");
}
