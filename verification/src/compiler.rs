//! Timeline compiler: pure transform from a validated bundle to a compiled
//! timeline with markers in stable (bar, beat) order and the de-duplicated,
//! lexicographically sorted union of marker and sequence sections.

use vstd::prelude::*;

use crate::types::CompiledTimeline;
use crate::types::EngineCueMarker;
use crate::types::EngineSequence;
use crate::types::TheatreExportBundle;

verus! {

/// Marker order: ascending by bar, then by beat.
pub open spec fn marker_le(a: EngineCueMarker, b: EngineCueMarker) -> bool {
    a.bar < b.bar || (a.bar == b.bar && a.beat <= b.beat)
}

/// Inserts `m` behind every marker that keys at or before it, so that
/// markers with equal keys keep their authored order.
pub open spec fn insert_marker_sorted(m: EngineCueMarker, s: Seq<EngineCueMarker>) -> Seq<
    EngineCueMarker,
>
    decreases s.len(),
{
    if s.len() == 0 {
        seq![m]
    } else if marker_le(s[0], m) {
        seq![s[0]] + insert_marker_sorted(m, s.drop_first())
    } else {
        seq![m] + s
    }
}

/// Stable insertion sort of markers by (bar, beat): the mathematical image
/// of the marker ordering in [`compile_bundle`].
pub open spec fn sort_markers(s: Seq<EngineCueMarker>) -> Seq<EngineCueMarker>
    decreases s.len(),
{
    if s.len() == 0 {
        Seq::<EngineCueMarker>::empty()
    } else {
        insert_marker_sorted(s.last(), sort_markers(s.drop_last()))
    }
}

proof fn lemma_insert_marker_at(m: EngineCueMarker, s: Seq<EngineCueMarker>, j: int)
    requires
        0 <= j <= s.len(),
        forall|k: int| 0 <= k < j ==> marker_le(#[trigger] s[k], m),
        j < s.len() ==> !marker_le(s[j], m),
    ensures
        insert_marker_sorted(m, s) == s.insert(j, m),
    decreases j,
{
    if j == 0 {
        if s.len() == 0 {
            assert(insert_marker_sorted(m, s) =~= s.insert(0, m));
        } else {
            assert(!marker_le(s[0], m));
            assert(insert_marker_sorted(m, s) =~= s.insert(0, m));
        }
    } else {
        assert(marker_le(s[0], m));
        lemma_insert_marker_at(m, s.drop_first(), j - 1);
        assert(seq![s[0]] + s.drop_first().insert(j - 1, m) =~= s.insert(j, m));
    }
}

proof fn lemma_insert_marker_len(m: EngineCueMarker, s: Seq<EngineCueMarker>)
    ensures
        insert_marker_sorted(m, s).len() == s.len() + 1,
    decreases s.len(),
{
    if s.len() > 0 && marker_le(s[0], m) {
        lemma_insert_marker_len(m, s.drop_first());
    }
}

proof fn lemma_insert_marker_lb(m: EngineCueMarker, s: Seq<EngineCueMarker>, lo: EngineCueMarker)
    requires
        marker_le(lo, m),
        forall|k: int| 0 <= k < s.len() ==> marker_le(lo, #[trigger] s[k]),
    ensures
        forall|k: int|
            0 <= k < insert_marker_sorted(m, s).len() ==> marker_le(
                lo,
                #[trigger] insert_marker_sorted(m, s)[k],
            ),
    decreases s.len(),
{
    if s.len() > 0 && marker_le(s[0], m) {
        lemma_insert_marker_lb(m, s.drop_first(), lo);
        let rec = insert_marker_sorted(m, s.drop_first());
        let r = seq![s[0]] + rec;
        assert forall|k: int| 0 <= k < r.len() implies marker_le(lo, #[trigger] r[k]) by {
            if k > 0 {
                assert(r[k] == rec[k - 1]);
            }
        }
    }
}

/// Markers sorted pairwise by (bar, beat).
pub open spec fn markers_sorted(s: Seq<EngineCueMarker>) -> bool {
    forall|i: int, j: int| 0 <= i < j < s.len() ==> marker_le(#[trigger] s[i], #[trigger] s[j])
}

proof fn lemma_insert_marker_stays_sorted(m: EngineCueMarker, s: Seq<EngineCueMarker>)
    requires
        markers_sorted(s),
    ensures
        markers_sorted(insert_marker_sorted(m, s)),
    decreases s.len(),
{
    lemma_insert_marker_len(m, s);
    if s.len() == 0 {
    } else if marker_le(s[0], m) {
        assert forall|k: int| 0 <= k < s.drop_first().len() implies marker_le(
            s[0],
            #[trigger] s.drop_first()[k],
        ) by {
            assert(s.drop_first()[k] == s[k + 1]);
        }
        lemma_insert_marker_stays_sorted(m, s.drop_first());
        lemma_insert_marker_len(m, s.drop_first());
        let rec = insert_marker_sorted(m, s.drop_first());
        let r = seq![s[0]] + rec;
        assert forall|i: int, j: int| 0 <= i < j < r.len() implies marker_le(
            #[trigger] r[i],
            #[trigger] r[j],
        ) by {
            if i == 0 {
                lemma_insert_marker_lb(m, s.drop_first(), s[0]);
                assert(r[j] == rec[j - 1]);
            } else {
                assert(r[i] == rec[i - 1]);
                assert(r[j] == rec[j - 1]);
            }
        }
    }
}

/// Stable sorting keeps the length and orders the markers by (bar, beat).
pub proof fn lemma_sort_markers_ensures(s: Seq<EngineCueMarker>)
    ensures
        sort_markers(s).len() == s.len(),
        markers_sorted(sort_markers(s)),
    decreases s.len(),
{
    if s.len() > 0 {
        lemma_sort_markers_ensures(s.drop_last());
        lemma_insert_marker_len(s.last(), sort_markers(s.drop_last()));
        lemma_insert_marker_stays_sorted(s.last(), sort_markers(s.drop_last()));
    }
}

/// Strict lexicographic order on strings, by character code point.
pub open spec fn lex_lt(a: Seq<char>, b: Seq<char>) -> bool
    decreases a.len(),
{
    if b.len() == 0 {
        false
    } else if a.len() == 0 {
        true
    } else if (a[0] as int) < (b[0] as int) {
        true
    } else if a[0] == b[0] {
        lex_lt(a.drop_first(), b.drop_first())
    } else {
        false
    }
}

proof fn lemma_lex_lt_connex(a: Seq<char>, b: Seq<char>)
    ensures
        lex_lt(a, b) || lex_lt(b, a) || a == b,
    decreases a.len(),
{
    if a.len() == 0 && b.len() == 0 {
        assert(a =~= b);
    } else if a.len() > 0 && b.len() > 0 && a[0] == b[0] {
        lemma_lex_lt_connex(a.drop_first(), b.drop_first());
        if a.drop_first() == b.drop_first() {
            assert(a.len() == b.len());
            assert forall|i: int| 0 <= i < a.len() implies a[i] == b[i] by {
                if i > 0 {
                    assert(a[i] == a.drop_first()[i - 1]);
                    assert(b[i] == b.drop_first()[i - 1]);
                }
            }
            assert(a =~= b);
        }
    }
}

proof fn lemma_lex_lt_trans(a: Seq<char>, b: Seq<char>, c: Seq<char>)
    requires
        lex_lt(a, b),
        lex_lt(b, c),
    ensures
        lex_lt(a, c),
    decreases a.len(),
{
    if a.len() > 0 && b.len() > 0 && c.len() > 0 && a[0] == b[0] && b[0] == c[0] {
        lemma_lex_lt_trans(a.drop_first(), b.drop_first(), c.drop_first());
    }
}

/// Common prefixes do not decide the lexicographic order.
proof fn lemma_lex_lt_skip(a: Seq<char>, b: Seq<char>, i: int)
    requires
        0 <= i <= a.len(),
        i <= b.len(),
        forall|j: int| 0 <= j < i ==> a[j] == #[trigger] b[j],
    ensures
        lex_lt(a, b) == lex_lt(a.skip(i), b.skip(i)),
    decreases i,
{
    if i == 0 {
        assert(a.skip(0) =~= a);
        assert(b.skip(0) =~= b);
    } else {
        assert(a[0] == b[0]);
        assert forall|j: int| 0 <= j < i - 1 implies a.drop_first()[j] == #[trigger] b.drop_first()[j] by {
            assert(a.drop_first()[j] == a[j + 1]);
            assert(b.drop_first()[j] == b[j + 1]);
        }
        lemma_lex_lt_skip(a.drop_first(), b.drop_first(), i - 1);
        assert(a.drop_first().skip(i - 1) =~= a.skip(i));
        assert(b.drop_first().skip(i - 1) =~= b.skip(i));
    }
}

/// Whether any string in the list reads `x`.
pub open spec fn has_section(ss: Seq<String>, x: Seq<char>) -> bool {
    exists|k: int| 0 <= k < ss.len() && #[trigger] ss[k]@ == x
}

/// Strictly ascending lexicographic order; in particular no duplicates.
pub open spec fn strictly_sorted_strings(ss: Seq<String>) -> bool {
    forall|i: int, j: int| 0 <= i < j < ss.len() ==> lex_lt(#[trigger] ss[i]@, #[trigger] ss[j]@)
}

/// Whether `a` reads strictly before `b` in lexicographic order.
fn str_lt(a: &str, b: &str) -> (r: bool)
    ensures
        r == lex_lt(a@, b@),
{
    let an = a.unicode_len();
    let bn = b.unicode_len();
    let mut i: usize = 0;
    while i < an && i < bn
        invariant
            i <= an,
            i <= bn,
            an == a@.len(),
            bn == b@.len(),
            forall|j: int| 0 <= j < i ==> a@[j] == #[trigger] b@[j],
        decreases an - i,
    {
        let ca = a.get_char(i);
        let cb = b.get_char(i);
        if ca != cb {
            proof {
                lemma_lex_lt_skip(a@, b@, i as int);
                assert(a@.skip(i as int)[0] == ca);
                assert(b@.skip(i as int)[0] == cb);
            }
            return (ca as u32) < (cb as u32);
        }
        i += 1;
    }
    proof {
        lemma_lex_lt_skip(a@, b@, i as int);
        if i < bn {
            assert(b@.skip(i as int).len() > 0);
        }
    }
    an < bn
}

/// Inserts a section name into a strictly sorted list, keeping it sorted
/// and de-duplicated: afterwards the list holds exactly the old names and
/// the new one.
fn insert_section(sections: &mut Vec<String>, name: &String)
    requires
        strictly_sorted_strings(old(sections)@),
    ensures
        strictly_sorted_strings(final(sections)@),
        forall|x: Seq<char>|
            #[trigger] has_section(final(sections)@, x) <==> (has_section(old(sections)@, x) || x
                == name@),
{
    let ghost s0 = sections@;
    let mut j: usize = 0;
    while j < sections.len() && str_lt(sections[j].as_str(), name.as_str())
        invariant
            j <= s0.len(),
            sections@ == s0,
            strictly_sorted_strings(s0),
            forall|k: int| 0 <= k < j ==> lex_lt(#[trigger] s0[k]@, name@),
        decreases s0.len() - j,
    {
        j += 1;
    }
    if j < sections.len() && !str_lt(name.as_str(), sections[j].as_str()) {
        proof {
            lemma_lex_lt_connex(sections@[j as int]@, name@);
            assert(sections@[j as int]@ == name@);
            assert(has_section(s0, name@));
            assert forall|x: Seq<char>|
                #[trigger] has_section(sections@, x) <==> (has_section(s0, x) || x == name@) by {
                if x == name@ {
                    assert(has_section(sections@, x));
                }
            }
        }
        return ;
    }
    let ghost jj = j as int;
    sections.insert(j, name.clone());
    proof {
        let s1 = sections@;
        s0.insert_ensures(jj, *name);
        assert(s1 == s0.insert(jj, *name));
        assert(s1[jj]@ == name@);
        assert(s1.len() == s0.len() + 1);
        assert(forall|k: int| 0 <= k < jj ==> #[trigger] s1[k] == s0[k]);
        assert(forall|k: int| jj < k < s1.len() ==> #[trigger] s1[k] == s0[k - 1]);
        // sortedness: everything before j is below the name, everything at
        // or after j is above it.
        assert forall|i: int, k: int| 0 <= i < k < s1.len() implies lex_lt(
            #[trigger] s1[i]@,
            #[trigger] s1[k]@,
        ) by {
            if i < jj && k == jj {
            } else if i == jj && k > jj {
                assert(s1[k] == s0[k - 1]);
                if jj < s0.len() {
                    assert(lex_lt(name@, s0[jj]@));
                    if k - 1 > jj {
                        assert(lex_lt(s0[jj]@, s0[k - 1]@));
                        lemma_lex_lt_trans(name@, s0[jj]@, s0[k - 1]@);
                    }
                }
            } else if i < jj && k > jj {
                assert(s1[i] == s0[i]);
                assert(s1[k] == s0[k - 1]);
                if i < k - 1 {
                    assert(lex_lt(s0[i]@, s0[k - 1]@));
                } else {
                    assert(lex_lt(s0[i]@, name@));
                    assert(s0[k - 1]@ == name@) by {
                        assert(k - 1 == i);
                    }
                }
            }
        }
        // membership in both directions.
        assert forall|x: Seq<char>|
            #[trigger] has_section(s1, x) <==> (has_section(s0, x) || x == name@) by {
            if has_section(s1, x) {
                let k = choose|k: int| 0 <= k < s1.len() && #[trigger] s1[k]@ == x;
                if k == jj {
                    assert(x == name@);
                } else if k < jj {
                    assert(s0[k]@ == x);
                    assert(has_section(s0, x));
                } else {
                    assert(s0[k - 1]@ == x);
                    assert(has_section(s0, x));
                }
            }
            if has_section(s0, x) {
                let k = choose|k: int| 0 <= k < s0.len() && #[trigger] s0[k]@ == x;
                if k < jj {
                    assert(s1[k]@ == x);
                } else {
                    assert(s1[k + 1]@ == x);
                }
                assert(has_section(s1, x));
            }
            if x == name@ {
                assert(s1[jj]@ == x);
                assert(has_section(s1, x));
            }
        }
    }
}

/// Whether `x` is the section of some marker or sequence of the bundle.
pub open spec fn bundle_has_section(
    markers: Seq<EngineCueMarker>,
    sequences: Seq<EngineSequence>,
    x: Seq<char>,
) -> bool {
    ||| exists|i: int| 0 <= i < markers.len() && #[trigger] markers[i].section@ == x
    ||| exists|i: int| 0 <= i < sequences.len() && #[trigger] sequences[i].section@ == x
}

/// Everything [`compile_bundle`] promises of its result: version, frame
/// rate and envelopes carried over, markers stably sorted by (bar, beat),
/// and the sections list the strictly sorted union of marker and sequence
/// sections.
pub open spec fn compiled_from(b: TheatreExportBundle, c: CompiledTimeline) -> bool {
    &&& c.version == b.version
    &&& c.fps == b.fps
    &&& c.markers@ == sort_markers(b.cue_markers@)
    &&& c.envelopes@ == b.envelope_templates@
    &&& strictly_sorted_strings(c.sections@)
    &&& forall|x: Seq<char>|
        #[trigger] has_section(c.sections@, x) <==> bundle_has_section(
            b.cue_markers@,
            b.sequences@,
            x,
        )
}

/// Compiles an already validated bundle: sorts the markers ascending by
/// (bar, beat) with ties in authored order, and collects the de-duplicated
/// union of marker and sequence sections in ascending lexicographic order.
pub fn compile_bundle(bundle: TheatreExportBundle) -> (r: CompiledTimeline)
    ensures
        compiled_from(bundle, r),
{
    let mut markers: Vec<EngineCueMarker> = Vec::new();
    let n = bundle.cue_markers.len();
    let mut i: usize = 0;
    proof {
        assert(bundle.cue_markers@.take(0) =~= Seq::<EngineCueMarker>::empty());
    }
    while i < n
        invariant
            i <= n,
            n == bundle.cue_markers@.len(),
            markers@ == sort_markers(bundle.cue_markers@.take(i as int)),
        decreases n - i,
    {
        proof {
            lemma_sort_markers_ensures(bundle.cue_markers@.take(i as int));
        }
        let m = bundle.cue_markers[i].clone();
        let mut j: usize = 0;
        while j < markers.len() && (markers[j].bar < m.bar || (markers[j].bar == m.bar
            && markers[j].beat <= m.beat))
            invariant
                j <= markers@.len(),
                forall|k: int| 0 <= k < j ==> marker_le(#[trigger] markers@[k], m),
            decreases markers@.len() - j,
        {
            j += 1;
        }
        proof {
            lemma_insert_marker_at(m, markers@, j as int);
        }
        markers.insert(j, m);
        proof {
            let prev = bundle.cue_markers@.take(i as int);
            assert(bundle.cue_markers@.take(i + 1).drop_last() =~= prev);
            assert(bundle.cue_markers@.take(i + 1).last() == bundle.cue_markers@[i as int]);
        }
        i += 1;
    }
    proof {
        assert(bundle.cue_markers@.take(n as int) =~= bundle.cue_markers@);
    }

    let mut sections: Vec<String> = Vec::new();
    let mut i: usize = 0;
    while i < n
        invariant
            i <= n,
            n == bundle.cue_markers@.len(),
            strictly_sorted_strings(sections@),
            forall|x: Seq<char>|
                #[trigger] has_section(sections@, x) <==> exists|k: int|
                    0 <= k < i && #[trigger] bundle.cue_markers@[k].section@ == x,
        decreases n - i,
    {
        insert_section(&mut sections, &bundle.cue_markers[i].section);
        i += 1;
    }
    let sn = bundle.sequences.len();
    let mut i: usize = 0;
    while i < sn
        invariant
            i <= sn,
            sn == bundle.sequences@.len(),
            strictly_sorted_strings(sections@),
            forall|x: Seq<char>|
                #[trigger] has_section(sections@, x) <==> (bundle_has_section(
                    bundle.cue_markers@,
                    bundle.sequences@.take(i as int),
                    x,
                )),
        decreases sn - i,
    {
        insert_section(&mut sections, &bundle.sequences[i].section);
        proof {
            let prev = bundle.sequences@.take(i as int);
            let cur = bundle.sequences@.take(i + 1);
            let name = bundle.sequences@[i as int].section@;
            assert forall|x: Seq<char>|
                #[trigger] has_section(sections@, x) <==> bundle_has_section(
                    bundle.cue_markers@,
                    cur,
                    x,
                ) by {
                if exists|k: int| 0 <= k < cur.len() && #[trigger] cur[k].section@ == x {
                    let k = choose|k: int| 0 <= k < cur.len() && #[trigger] cur[k].section@ == x;
                    if k < i {
                        assert(prev[k] == cur[k]);
                        assert(prev[k].section@ == x);
                    } else {
                        assert(cur[k] == bundle.sequences@[i as int]);
                        assert(x == name);
                    }
                }
                if exists|k: int| 0 <= k < prev.len() && #[trigger] prev[k].section@ == x {
                    let k = choose|k: int| 0 <= k < prev.len() && #[trigger] prev[k].section@ == x;
                    assert(cur[k] == prev[k]);
                    assert(cur[k].section@ == x);
                }
                if x == name {
                    assert(cur[i as int].section@ == x);
                }
            }
        }
        i += 1;
    }
    proof {
        assert(bundle.sequences@.take(sn as int) =~= bundle.sequences@);
    }

    CompiledTimeline {
        version: bundle.version,
        fps: bundle.fps,
        sections,
        markers,
        envelopes: bundle.envelope_templates,
    }
}

} // verus!
