//! Bundle validation: fail-fast checks in a fixed order, reporting only the
//! first failure, before a bundle may be compiled.

use vstd::prelude::*;

use crate::types::EngineCueMarker;
use crate::types::TheatreExportBundle;

verus! {

/// Validation and lookup errors of the timeline layer; caller-correctable
/// input errors, surfaced verbatim to the boundary layer.
#[derive(Debug)]
pub enum TimelineError {
    /// The bundle version string is empty or whitespace.
    MissingVersion,
    /// The bundle frame rate is zero.
    InvalidFps,
    /// The bundle holds no sequence.
    MissingSequence,
    /// The bundle holds no cue marker.
    MissingMarkers,
    /// The named marker's beat lies outside [1, 4].
    InvalidBeat(String),
    /// The named section is not part of the compiled timeline.
    UnknownSection(String),
}

/// The Unicode white-space characters, the set `str::trim` strips.
pub open spec fn is_space_char(c: char) -> bool {
    let u = c as int;
    ||| (0x09 <= u <= 0x0D)
    ||| u == 0x20
    ||| u == 0x85
    ||| u == 0xA0
    ||| u == 0x1680
    ||| (0x2000 <= u <= 0x200A)
    ||| u == 0x2028
    ||| u == 0x2029
    ||| u == 0x202F
    ||| u == 0x205F
    ||| u == 0x3000
}

/// A string is blank when every character is white space.
pub open spec fn is_blank(s: Seq<char>) -> bool {
    forall|i: int| 0 <= i < s.len() ==> is_space_char(#[trigger] s[i])
}

fn is_space_exec(c: char) -> (r: bool)
    ensures
        r == is_space_char(c),
{
    let u = c as u32;
    (0x09 <= u && u <= 0x0D) || u == 0x20 || u == 0x85 || u == 0xA0 || u == 0x1680 || (0x2000 <= u
        && u <= 0x200A) || u == 0x2028 || u == 0x2029 || u == 0x202F || u == 0x205F || u == 0x3000
}

/// Whether the string trims to nothing.
fn is_blank_exec(s: &String) -> (r: bool)
    ensures
        r == is_blank(s@),
{
    let text = s.as_str();
    let n = text.unicode_len();
    let mut i: usize = 0;
    while i < n
        invariant
            i <= n,
            n == text@.len(),
            text@ == s@,
            forall|j: int| 0 <= j < i ==> is_space_char(#[trigger] text@[j]),
        decreases n - i,
    {
        if !is_space_exec(text.get_char(i)) {
            return false;
        }
        i += 1;
    }
    true
}

/// A marker's beat is admissible when it lies in [1, 4].
pub open spec fn beat_ok(m: EngineCueMarker) -> bool {
    1 <= m.beat <= 4
}

/// All checks a bundle must pass to be compiled.
pub open spec fn bundle_valid(b: &TheatreExportBundle) -> bool {
    &&& !is_blank(b.version@)
    &&& b.fps != 0
    &&& b.sequences@.len() > 0
    &&& b.cue_markers@.len() > 0
    &&& forall|i: int| 0 <= i < b.cue_markers@.len() ==> beat_ok(#[trigger] b.cue_markers@[i])
}

/// Checks a bundle in a fixed order and reports only the first failure:
/// version present, frame rate positive, at least one sequence, at least
/// one marker, every marker's beat in [1, 4].
pub fn validate_bundle(bundle: &TheatreExportBundle) -> (r: Result<(), TimelineError>)
    ensures
        r is Ok <==> bundle_valid(bundle),
        match r {
            Result::Ok(()) => true,
            Result::Err(e) => match e {
                TimelineError::MissingVersion => is_blank(bundle.version@),
                TimelineError::InvalidFps => !is_blank(bundle.version@) && bundle.fps == 0,
                TimelineError::MissingSequence => !is_blank(bundle.version@) && bundle.fps != 0
                    && bundle.sequences@.len() == 0,
                TimelineError::MissingMarkers => !is_blank(bundle.version@) && bundle.fps != 0
                    && bundle.sequences@.len() > 0 && bundle.cue_markers@.len() == 0,
                TimelineError::InvalidBeat(id) => {
                    &&& !is_blank(bundle.version@)
                    &&& bundle.fps != 0
                    &&& bundle.sequences@.len() > 0
                    &&& bundle.cue_markers@.len() > 0
                    &&& exists|i: int|
                        {
                            &&& 0 <= i < bundle.cue_markers@.len()
                            &&& !beat_ok(#[trigger] bundle.cue_markers@[i])
                            &&& id == bundle.cue_markers@[i].id
                            &&& forall|j: int| 0 <= j < i ==> beat_ok(#[trigger] bundle.cue_markers@[j])
                        }
                },
                TimelineError::UnknownSection(_) => false,
            },
        },
{
    if is_blank_exec(&bundle.version) {
        return Result::Err(TimelineError::MissingVersion);
    }

    if bundle.fps == 0 {
        return Result::Err(TimelineError::InvalidFps);
    }

    if bundle.sequences.len() == 0 {
        return Result::Err(TimelineError::MissingSequence);
    }

    if bundle.cue_markers.len() == 0 {
        return Result::Err(TimelineError::MissingMarkers);
    }

    let n = bundle.cue_markers.len();
    let mut i: usize = 0;
    while i < n
        invariant
            i <= n,
            n == bundle.cue_markers@.len(),
            !is_blank(bundle.version@),
            bundle.fps != 0,
            bundle.sequences@.len() > 0,
            bundle.cue_markers@.len() > 0,
            forall|j: int| 0 <= j < i ==> beat_ok(#[trigger] bundle.cue_markers@[j]),
        decreases n - i,
    {
        let beat = bundle.cue_markers[i].beat;
        if !(1 <= beat && beat <= 4) {
            let id = bundle.cue_markers[i].id.clone();
            proof {
                let w = i as int;
                assert(!beat_ok(bundle.cue_markers@[w]));
                assert(forall|j: int| 0 <= j < w ==> beat_ok(#[trigger] bundle.cue_markers@[j]));
                assert(id == bundle.cue_markers@[w].id);
            }
            return Result::Err(TimelineError::InvalidBeat(id));
        }
        i += 1;
    }

    Result::Ok(())
}

} // verus!
