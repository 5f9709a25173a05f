//! Timeline runtime adapter: wraps at most one compiled timeline, tracks
//! the active section, and answers marker queries.

use vstd::prelude::*;

use crate::compiler::compile_bundle;
use crate::compiler::compiled_from;
use crate::types::CompiledTimeline;
use crate::types::EngineCueMarker;
use crate::types::TheatreExportBundle;

verus! {

/// Markers belonging to the named section, in their compiled order.
pub open spec fn markers_of_section(ms: Seq<EngineCueMarker>, name: Seq<char>) -> Seq<
    EngineCueMarker,
> {
    ms.filter(|m: EngineCueMarker| m.section@ == name)
}

proof fn lemma_markers_of_section_push(s: Seq<EngineCueMarker>, name: Seq<char>, m: EngineCueMarker)
    ensures
        markers_of_section(s.push(m), name) == if m.section@ == name {
            markers_of_section(s, name).push(m)
        } else {
            markers_of_section(s, name)
        },
{
    reveal(Seq::filter);
    assert(s.push(m).drop_last() =~= s);
    assert(s.push(m).last() == m);
}

/// The section a marker query resolves to: an explicit override wins,
/// otherwise the active section, otherwise none.
pub open spec fn selected_name(over: Option<String>, active: Option<String>) -> Option<String> {
    match over {
        Option::Some(s) => Option::Some(s),
        Option::None => active,
    }
}

/// What a marker query answers: nothing while no timeline is imported, the
/// named section's markers when a section is resolved, else all markers.
pub open spec fn listed_markers(compiled: Option<CompiledTimeline>, sel: Option<String>) -> Seq<
    EngineCueMarker,
> {
    match compiled {
        Option::None => Seq::<EngineCueMarker>::empty(),
        Option::Some(t) => match sel {
            Option::Some(name) => markers_of_section(t.markers@, name@),
            Option::None => t.markers@,
        },
    }
}

/// Ghost image of the adapter: the held timeline and the active section.
pub struct AdapterView {
    pub compiled: Option<CompiledTimeline>,
    pub active_section: Option<String>,
}

/// Runtime adapter: at most one compiled timeline (replaced wholesale on
/// re-import) plus an optional active section.
#[derive(Debug)]
pub struct TimelineRuntimeAdapter {
    compiled: Option<CompiledTimeline>,
    active_section: Option<String>,
}

impl View for TimelineRuntimeAdapter {
    type V = AdapterView;

    closed spec fn view(&self) -> AdapterView {
        AdapterView { compiled: self.compiled, active_section: self.active_section }
    }
}

impl Default for TimelineRuntimeAdapter {
    /// Adapter with nothing imported and no active section.
    fn default() -> (r: TimelineRuntimeAdapter)
        ensures
            r@.compiled is None,
            r@.active_section is None,
    {
        TimelineRuntimeAdapter { compiled: Option::None, active_section: Option::None }
    }
}

impl TimelineRuntimeAdapter {
    /// Compiles the bundle, replaces any previously held timeline
    /// wholesale, activates the first compiled section (none if there is
    /// none), and returns the marker count.
    pub fn import_bundle(&mut self, bundle: TheatreExportBundle) -> (r: usize)
        ensures
            final(self)@.compiled is Some,
            compiled_from(bundle, final(self)@.compiled.unwrap()),
            final(self)@.active_section == (if final(self)@.compiled.unwrap().sections@.len() > 0 {
                Option::Some(final(self)@.compiled.unwrap().sections@[0])
            } else {
                Option::<String>::None
            }),
            r == final(self)@.compiled.unwrap().markers@.len(),
    {
        let compiled = compile_bundle(bundle);
        let marker_count = compiled.markers.len();
        self.active_section = if compiled.sections.len() > 0 {
            Option::Some(compiled.sections[0].clone())
        } else {
            Option::None
        };
        self.compiled = Option::Some(compiled);
        marker_count
    }

    /// Makes the given section active unconditionally (membership is the
    /// caller's business) and returns how many markers now match it.
    pub fn activate_section(&mut self, section: String) -> (r: usize)
        ensures
            final(self)@.compiled == old(self)@.compiled,
            final(self)@.active_section == Option::Some(section),
            r == listed_markers(old(self)@.compiled, Option::Some(section)).len(),
    {
        self.active_section = Option::Some(section.clone());
        self.list_markers(Option::Some(section)).len()
    }

    /// Markers of the resolved section (explicit override, else the active
    /// section), or all markers when neither is set; empty while nothing
    /// is imported.
    pub fn list_markers(&self, section: Option<String>) -> (r: Vec<EngineCueMarker>)
        ensures
            r@ == listed_markers(self@.compiled, selected_name(section, self@.active_section)),
    {
        let compiled = match &self.compiled {
            Option::Some(c) => c,
            Option::None => {
                return Vec::new();
            },
        };
        let selected: Option<&String> = match &section {
            Option::Some(s) => Option::Some(s),
            Option::None => match &self.active_section {
                Option::Some(a) => Option::Some(a),
                Option::None => Option::None,
            },
        };
        match selected {
            Option::Some(name) => {
                let ghost name_seq = name@;
                let ghost ms = compiled.markers@;
                let mut r: Vec<EngineCueMarker> = Vec::new();
                let n = compiled.markers.len();
                let mut i: usize = 0;
                proof {
                    assert(ms.take(0) =~= Seq::<EngineCueMarker>::empty());
                    reveal(Seq::filter);
                }
                while i < n
                    invariant
                        i <= n,
                        n == ms.len(),
                        ms == compiled.markers@,
                        name_seq == name@,
                        r@ == markers_of_section(ms.take(i as int), name_seq),
                    decreases n - i,
                {
                    proof {
                        assert(ms.take(i + 1) =~= ms.take(i as int).push(ms[i as int]));
                        lemma_markers_of_section_push(ms.take(i as int), name_seq, ms[i as int]);
                    }
                    if compiled.markers[i].section.eq(name) {
                        r.push(compiled.markers[i].clone());
                    }
                    i += 1;
                }
                proof {
                    assert(ms.take(n as int) =~= ms);
                }
                r
            },
            Option::None => {
                let mut r: Vec<EngineCueMarker> = Vec::new();
                let n = compiled.markers.len();
                let mut i: usize = 0;
                proof {
                    assert(r@ =~= compiled.markers@.take(0));
                }
                while i < n
                    invariant
                        i <= n,
                        n == compiled.markers@.len(),
                        r@ == compiled.markers@.take(i as int),
                    decreases n - i,
                {
                    r.push(compiled.markers[i].clone());
                    proof {
                        assert(compiled.markers@.take(i as int).push(compiled.markers@[i as int])
                            =~= compiled.markers@.take(i + 1));
                    }
                    i += 1;
                }
                proof {
                    assert(compiled.markers@.take(n as int) =~= compiled.markers@);
                }
                r
            },
        }
    }

    /// The compiled sections list, empty while nothing is imported.
    pub fn sections(&self) -> (r: Vec<String>)
        ensures
            r@ == (match self@.compiled {
                Option::Some(t) => t.sections@,
                Option::None => Seq::<String>::empty(),
            }),
    {
        let compiled = match &self.compiled {
            Option::Some(c) => c,
            Option::None => {
                return Vec::new();
            },
        };
        let mut r: Vec<String> = Vec::new();
        let n = compiled.sections.len();
        let mut i: usize = 0;
        proof {
            assert(r@ =~= compiled.sections@.take(0));
        }
        while i < n
            invariant
                i <= n,
                n == compiled.sections@.len(),
                r@ == compiled.sections@.take(i as int),
            decreases n - i,
        {
            r.push(compiled.sections[i].clone());
            proof {
                assert(compiled.sections@.take(i as int).push(compiled.sections@[i as int]) =~=
                    compiled.sections@.take(i + 1));
            }
            i += 1;
        }
        proof {
            assert(compiled.sections@.take(n as int) =~= compiled.sections@);
        }
        r
    }
}

/// Once a section is active, a marker query without an override answers
/// exactly the markers whose section field matches the active name.
pub proof fn lemma_active_section_filters_markers(t: CompiledTimeline, name: String)
    ensures
        listed_markers(Option::Some(t), selected_name(Option::None, Option::Some(name)))
            == markers_of_section(t.markers@, name@),
{
}

} // verus!
