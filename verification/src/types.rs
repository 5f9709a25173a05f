//! Data model of the authored show bundle and its compiled timeline.
//!
//! A cue marker's payload is caller-defined structured data that this core
//! never interprets; it is carried through as an opaque `serde_json::Value`.

use vstd::prelude::*;

verus! {

/// Which clock is authoritative for timeline playback.
#[derive(Debug, Clone, Copy, PartialEq, Eq, Structural)]
pub enum TimelineAuthority {
    RustClock,
}

/// How an authored theatre bundle is meant to be used.
#[derive(Debug, Clone, Copy, PartialEq, Eq, Structural)]
pub enum TheatreUsage {
    AuthoringOnly,
}

/// Musical subdivision an action's release time is snapped to.
#[derive(Debug, Clone, Copy, PartialEq, Eq, Structural)]
pub enum QuantizeGrid {
    Whole,
    Half,
    Quarter,
    Eighth,
    Sixteenth,
}

/// Slot length of a grid in sixteenth notes (quarter beats): a whole note
/// spans four beats, a sixteenth a quarter of a beat.
pub open spec fn slot_sixteenths(g: QuantizeGrid) -> int {
    match g {
        QuantizeGrid::Whole => 16,
        QuantizeGrid::Half => 8,
        QuantizeGrid::Quarter => 4,
        QuantizeGrid::Eighth => 2,
        QuantizeGrid::Sixteenth => 1,
    }
}

/// What a cue marker asks the performance engine to do.
#[derive(Debug, Clone, Copy, PartialEq, Eq, Structural)]
pub enum CueAction {
    TriggerClip,
    ApplyAccent,
    SwapScene,
}

/// Name of a cue action as the command layer spells it.
pub open spec fn cue_action_name_spec(action: CueAction) -> Seq<char> {
    match action {
        CueAction::TriggerClip => "trigger_clip"@,
        CueAction::ApplyAccent => "apply_accent"@,
        CueAction::SwapScene => "swap_scene"@,
    }
}

/// Spells a cue action the way the command layer does.
pub fn cue_action_name(action: &CueAction) -> (r: String)
    ensures
        r@ == cue_action_name_spec(*action),
{
    match action {
        CueAction::TriggerClip => "trigger_clip".to_owned(),
        CueAction::ApplyAccent => "apply_accent".to_owned(),
        CueAction::SwapScene => "swap_scene".to_owned(),
    }
}

/// An authored sequence: a named stretch of the show belonging to a section.
#[derive(Debug)]
pub struct EngineSequence {
    pub id: String,
    pub name: String,
    pub section: String,
}

impl Clone for EngineSequence {
    fn clone(&self) -> (r: Self)
        ensures
            r == *self,
    {
        EngineSequence {
            id: self.id.clone(),
            name: self.name.clone(),
            section: self.section.clone(),
        }
    }
}

/// Opaque structured payload attached to a cue marker. Verus sees nothing
/// inside a value of this type; it is only carried through.
#[verifier::external_type_specification]
#[verifier::external_body]
pub struct ExValue(serde_json::Value);

/// Relies on the `Clone` impl of serde_json::Value: a deep copy that is
/// structurally equal to the original.
#[verifier::external_body]
pub fn clone_value(v: &serde_json::Value) -> (r: serde_json::Value)
    ensures
        r == *v,
{
    v.clone()
}

/// An authored cue marker: an action anchored at a bar and beat of a section.
#[derive(Debug)]
pub struct EngineCueMarker {
    pub id: String,
    pub section: String,
    pub bar: u32,
    /// Beat within the bar; a valid marker has it in [1, 4].
    pub beat: u32,
    pub quantize: QuantizeGrid,
    pub action: CueAction,
    /// Caller-defined structured data, not interpreted by this core.
    pub payload: serde_json::Value,
}

impl Clone for EngineCueMarker {
    fn clone(&self) -> (r: Self)
        ensures
            r == *self,
    {
        EngineCueMarker {
            id: self.id.clone(),
            section: self.section.clone(),
            bar: self.bar,
            beat: self.beat,
            quantize: self.quantize,
            action: self.action,
            payload: clone_value(&self.payload),
        }
    }
}

/// An authored envelope template. The sustain level is held in milli-units
/// (thousandths of full level, in [0, 1000]).
#[derive(Debug)]
pub struct EngineEnvelopeTemplate {
    pub id: String,
    pub name: String,
    pub attack_ms: u32,
    pub decay_ms: u32,
    pub sustain_milli: u32,
    pub release_ms: u32,
    pub curve_in: String,
    pub curve_out: String,
}

impl Clone for EngineEnvelopeTemplate {
    fn clone(&self) -> (r: Self)
        ensures
            r == *self,
    {
        EngineEnvelopeTemplate {
            id: self.id.clone(),
            name: self.name.clone(),
            attack_ms: self.attack_ms,
            decay_ms: self.decay_ms,
            sustain_milli: self.sustain_milli,
            release_ms: self.release_ms,
            curve_in: self.curve_in.clone(),
            curve_out: self.curve_out.clone(),
        }
    }
}

/// An externally authored show bundle, as handed to the importer.
#[derive(Debug)]
pub struct TheatreExportBundle {
    pub version: String,
    pub fps: u32,
    pub sequences: Vec<EngineSequence>,
    pub cue_markers: Vec<EngineCueMarker>,
    pub envelope_templates: Vec<EngineEnvelopeTemplate>,
}

/// The validated, sorted, section-indexed derivative of a bundle.
#[derive(Debug)]
pub struct CompiledTimeline {
    pub version: String,
    pub fps: u32,
    /// De-duplicated union of marker and sequence sections, in ascending
    /// lexicographic order.
    pub sections: Vec<String>,
    /// Markers in ascending (bar, beat) order, ties in authored order.
    pub markers: Vec<EngineCueMarker>,
    pub envelopes: Vec<EngineEnvelopeTemplate>,
}

} // verus!
