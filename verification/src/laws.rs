//! The guarantees the reconstruction gives, each stated as a public proof
//! function over the same specifications the executable functions are
//! verified against.
use vstd::prelude::*;
use vstd::multiset::Multiset;

use crate::clock::observe_spec;
use crate::clock::snap_fold;
use crate::clock::ClockState;
use crate::engine::begin_step;
use crate::engine::end_step;
use crate::engine::event_step;
use crate::engine::instant_step;
use crate::events::ClockReading;
use crate::events::EventView;
use crate::events::Fatal;
use crate::events::PacketView;
use crate::events::PrintView;
use crate::replay::insert_sorted;
use crate::replay::replay_fold;
use crate::replay::replay_init;
use crate::replay::sort_prints;
use crate::text::has_token;
use crate::tracks::fallback_match;
use crate::tracks::fallback_from;
use crate::tracks::resolve_spec;
use crate::tracks::track_index;
use crate::tracks::TrackView;

verus! {

/// A well-formed begin/end pair on one track emits exactly one span whose
/// start is the begin's resolved common time, whose end is the end's
/// resolved common time, and whose label is the begin's label; when the
/// times are ordered, so are the span's endpoints.
pub proof fn lemma_begin_end_span(
    t: TrackView,
    time1: u64,
    time2: u64,
    label: Seq<u8>,
    init_name: bool,
)
    requires
        begin_step(t, time1, Option::Some(label), init_name) is Ok,
        t.name is Some || has_token(label),
    ensures
        ({
            let t1 = begin_step(t, time1, Option::Some(label), init_name)->Ok_0.0;
            let r = end_step(t1, time2);
            &&& r is Ok
            &&& r->Ok_0.1 matches Option::Some(sp) && sp.start == time1 && sp.end == time2
                && sp.label == label
            &&& time1 <= time2 ==> (r->Ok_0.1->Some_0.start <= r->Ok_0.1->Some_0.end)
        }),
{
    let t1 = begin_step(t, time1, Option::Some(label), init_name)->Ok_0.0;
    assert(t1.open_spans.len() > 0);
    assert(t1.open_spans.last() == (time1, label));
    assert(t1.name is Some || t1.name == t.name);
}

/// An instant event emits a span with `start == end`, at the event's
/// resolved common time, touching no stack.
pub proof fn lemma_instant_zero_duration(t: TrackView, time: u64, label: Option<Seq<u8>>)
    requires
        instant_step(t, time, label) is Ok,
    ensures
        ({
            let r = instant_step(t, time, label)->Ok_0;
            &&& r.1 matches Option::Some(sp) && sp.start == time && sp.end == time && sp.start
                == sp.end
            &&& r.0.open_spans == t.open_spans
        }),
{
}

/// An end event closes exactly the most recently opened, still-open span
/// of its own track: the stack loses its top entry and the emitted span
/// carries that entry's start time and label.
pub proof fn lemma_end_pops_most_recent(t: TrackView, time: u64)
    requires
        t.open_spans.len() > 0,
        end_step(t, time) is Ok,
    ensures
        ({
            let r = end_step(t, time)->Ok_0;
            &&& r.0.open_spans == t.open_spans.drop_last()
            &&& r.1 matches Option::Some(sp) && sp.start == t.open_spans.last().0 && sp.label
                == t.open_spans.last().1 && sp.end == time
        }),
{
}

/// The registry position a structured event may touch: the index its
/// resolved track uuid points at (no position at all when resolution
/// fails).
pub open spec fn touched_index(v: crate::engine::EngineView, p: PacketView, ev: EventView, j: int) -> bool {
    match resolve_spec(v.tracks, ev.track_uuid, v.clock.default_track, p.trusted_pid) {
        Result::Ok(u) => j == track_index(v.tracks, u),
        Result::Err(_) => false,
    }
}

/// A structured event changes at most the track it resolved to: every
/// other track of the registry comes through a step unchanged, whatever
/// the outcome.
pub proof fn lemma_event_touches_one_track(v: crate::engine::EngineView, p: PacketView, ev: EventView)
    ensures
        event_step(v, p, ev).0.tracks.len() == v.tracks.len(),
        forall|j: int|
            0 <= j < v.tracks.len() && !touched_index(v, p, ev, j) ==> event_step(
                v,
                p,
                ev,
            ).0.tracks[j] == v.tracks[j],
{
    let s = event_step(v, p, ev).0.tracks;
    match resolve_spec(v.tracks, ev.track_uuid, v.clock.default_track, p.trusted_pid) {
        Result::Err(_) => {
            assert(s == v.tracks);
            assert(s.len() == v.tracks.len());
            assert(forall|j: int|
                0 <= j < v.tracks.len() && !touched_index(v, p, ev, j) ==> s[j] == v.tracks[j]);
        },
        Result::Ok(u) => {
            let v1 = crate::engine::EngineView {
                names: crate::engine::intern_insert_all(v.names, p.interned_names),
                ..v
            };
            assert(v1.tracks == v.tracks);
            let i = track_index(v1.tracks, u);
            crate::tracks::lemma_find_from_bounds(v1.tracks, u, 0);
            assert(0 <= i);
            match p.timestamp {
                Option::None => {
                    assert(s == v.tracks);
                },
                Option::Some(ts) => {
                    match crate::clock::reading_spec(v1.clock, ts, p.timestamp_clock_id) {
                        Result::Err(_) => {
                            assert(s == v.tracks);
                        },
                        Result::Ok(time) => {
                            match crate::engine::label_of(v1.names, ev.label) {
                                Result::Err(_) => {
                                    assert(s == v.tracks);
                                },
                                Result::Ok(label) => {
                                    if i >= v1.tracks.len() {
                                        assert(s == v.tracks);
                                    } else {
                                        match crate::engine::track_step(
                                            v1.tracks[i],
                                            ev.kind,
                                            ev.legacy_phase,
                                            time,
                                            label,
                                        ) {
                                            Result::Err(_) => {
                                                assert(s == v.tracks);
                                            },
                                            Result::Ok(r3) => {
                                                assert(s == v.tracks.update(i, r3.0));
                                                assert(s.len() == v.tracks.len());
                                                assert forall|j: int|
                                                    0 <= j < v.tracks.len() && !touched_index(
                                                        v,
                                                        p,
                                                        ev,
                                                        j,
                                                    ) implies s[j] == v.tracks[j] by {
                                                    assert(i == track_index(v.tracks, u));
                                                    assert(j != i);
                                                }
                                            },
                                        }
                                    }
                                },
                            }
                        },
                    }
                },
            }
            assert(s.len() == v.tracks.len());
            assert(forall|j: int|
                0 <= j < v.tracks.len() && !touched_index(v, p, ev, j) ==> s[j] == v.tracks[j]);
        },
    }
}

proof fn lemma_fold_state_relation(c: ClockState, d: ClockState, s: Seq<ClockReading>)
    requires
        snap_fold(c, s) is Ok,
    ensures
        snap_fold(d, s) is Ok,
        ({
            let c2 = snap_fold(c, s)->Ok_0;
            let d2 = snap_fold(d, s)->Ok_0;
            &&& (c2.boot_time == d2.boot_time || (c2.boot_time == c.boot_time && d2.boot_time
                == d.boot_time))
            &&& (c2.mono_time == d2.mono_time || (c2.mono_time == c.mono_time && d2.mono_time
                == d.mono_time))
            &&& c2.offset == c.offset
            &&& d2.offset == d.offset
        }),
    decreases s.len(),
{
    if s.len() > 0 {
        lemma_fold_state_relation(c, d, s.drop_last());
    }
}

/// Re-observing an identical clock snapshot twice yields the same
/// boot-to-monotonic offset (and the same boot and monotonic readings):
/// the offset depends only on the readings the snapshot carries.
pub proof fn lemma_offset_idempotent(c: ClockState, entries: Seq<ClockReading>)
    requires
        observe_spec(c, entries) is Ok,
    ensures
        ({
            let c1 = observe_spec(c, entries)->Ok_0;
            &&& observe_spec(c1, entries) is Ok
            &&& observe_spec(c1, entries)->Ok_0.offset == c1.offset
            &&& observe_spec(c1, entries)->Ok_0.boot_time == c1.boot_time
            &&& observe_spec(c1, entries)->Ok_0.mono_time == c1.mono_time
        }),
{
    let f = snap_fold(c, entries)->Ok_0;
    let c1 = observe_spec(c, entries)->Ok_0;
    assert(c1.boot_time == f.boot_time);
    assert(c1.mono_time == f.mono_time);
    lemma_fold_state_relation(c, c1, entries);
    let g = snap_fold(c1, entries)->Ok_0;
    assert(g.boot_time == f.boot_time);
    assert(g.mono_time == f.mono_time);
    assert(g.offset == c1.offset);
}

/// An event carrying the explicit track id zero resolves to a parentless
/// track whose display id is the packet's trusted process id; without
/// such a track the engine fails fatally, and without a trusted process
/// id at all it fails fatally too.
pub proof fn lemma_zero_uuid_fallback(s: Seq<TrackView>, default_track: u64, pid: i32)
    ensures
        (exists|j: int| 0 <= j < s.len() && #[trigger] fallback_match(s[j], pid)) ==> (
        resolve_spec(s, Option::Some(0u64), default_track, Option::Some(pid)) matches Result::Ok(u)
            && exists|j: int|
            0 <= j < s.len() && s[j].uuid == u && #[trigger] fallback_match(s[j], pid)),
        !(exists|j: int| 0 <= j < s.len() && #[trigger] fallback_match(s[j], pid)) ==> resolve_spec(
            s,
            Option::Some(0u64),
            default_track,
            Option::Some(pid),
        ) == Result::Err::<u64, Fatal>(Fatal::MissingTrustedTrack(pid)),
        resolve_spec(s, Option::Some(0u64), default_track, Option::None) == Result::Err::<
            u64,
            Fatal,
        >(Fatal::NoTrustedPid),
{
    lemma_fallback_from_props(s, pid, 0);
}

proof fn lemma_fallback_from_props(s: Seq<TrackView>, pid: i32, i: int)
    requires
        0 <= i <= s.len(),
    ensures
        i <= fallback_from(s, pid, i) <= s.len(),
        fallback_from(s, pid, i) < s.len() ==> fallback_match(s[fallback_from(s, pid, i)], pid),
        (fallback_from(s, pid, i) < s.len()) <==> exists|j: int|
            i <= j < s.len() && #[trigger] fallback_match(s[j], pid),
    decreases s.len() - i,
{
    if i < s.len() {
        lemma_fallback_from_props(s, pid, i + 1);
        if fallback_match(s[i], pid) {
        } else {
            if fallback_from(s, pid, i) < s.len() {
                assert(exists|j: int| i + 1 <= j < s.len() && #[trigger] fallback_match(s[j], pid));
            }
            if exists|j: int| i <= j < s.len() && #[trigger] fallback_match(s[j], pid) {
                let j = choose|j: int| i <= j < s.len() && #[trigger] fallback_match(s[j], pid);
                assert(j != i);
                assert(i + 1 <= j < s.len() && fallback_match(s[j], pid));
            }
        }
    }
}

/// No two print events share a raw timestamp.
pub open spec fn distinct_times(s: Seq<PrintView>) -> bool {
    forall|i: int, j: int|
        #![trigger s[i], s[j]]
        0 <= i < j < s.len() ==> s[i].timestamp != s[j].timestamp
}

/// Raw timestamps never decrease along the sequence.
pub open spec fn time_sorted(s: Seq<PrintView>) -> bool {
    forall|i: int, j: int|
        #![trigger s[i], s[j]]
        0 <= i < j < s.len() ==> s[i].timestamp <= s[j].timestamp
}

proof fn lemma_insert_sorted_props(x: PrintView, s: Seq<PrintView>)
    requires
        time_sorted(s),
    ensures
        time_sorted(insert_sorted(x, s)),
        insert_sorted(x, s).to_multiset() =~= s.to_multiset().insert(x),
        insert_sorted(x, s).len() == s.len() + 1,
    decreases s.len(),
{
    broadcast use vstd::seq_lib::group_to_multiset_ensures;
    broadcast use vstd::multiset::group_multiset_axioms;

    if s.len() == 0 {
        assert(seq![x] =~= Seq::<PrintView>::empty().push(x));
        assert(seq![x].to_multiset() =~= Seq::<PrintView>::empty().to_multiset().insert(x));
    } else if x.timestamp <= s[0].timestamp {
        let r = seq![x] + s;
        assert(forall|i: int, j: int|
            #![trigger r[i], r[j]]
            0 <= i < j < r.len() ==> r[i].timestamp <= r[j].timestamp) by {
            assert(forall|k: int| 0 <= k < s.len() ==> r[k + 1] == s[k]);
            assert(r[0] == x);
        }
        vstd::seq_lib::lemma_multiset_commutative(seq![x], s);
        assert(seq![x].to_multiset() =~= Multiset::<PrintView>::empty().insert(x));
    } else {
        let d = s.drop_first();
        assert(time_sorted(d)) by {
            assert(forall|k: int| 0 <= k < d.len() ==> d[k] == s[k + 1]);
        }
        lemma_insert_sorted_props(x, d);
        let r0 = insert_sorted(x, d);
        let r = seq![s[0]] + r0;
        vstd::seq_lib::lemma_multiset_commutative(seq![s[0]], r0);
        assert(seq![s[0]].to_multiset() =~= Multiset::<PrintView>::empty().insert(s[0]));
        assert(s =~= seq![s[0]] + d);
        vstd::seq_lib::lemma_multiset_commutative(seq![s[0]], d);
        assert(r.to_multiset() =~= s.to_multiset().insert(x));
        // every element of the tail is x or comes from the tail of s, so
        // it cannot go below s[0]
        assert(forall|k: int| 0 <= k < r0.len() ==> s[0].timestamp <= #[trigger] r0[k].timestamp)
            by {
            assert forall|k: int| 0 <= k < r0.len() implies s[0].timestamp
                <= #[trigger] r0[k].timestamp by {
                assert(r0.to_multiset().count(r0[k]) > 0);
                assert(d.to_multiset().insert(x).count(r0[k]) > 0);
                if r0[k] == x {
                    assert(s[0].timestamp < x.timestamp);
                } else {
                    assert(d.to_multiset().count(r0[k]) > 0);
                    assert(d.contains(r0[k]));
                    let q = choose|q: int| 0 <= q < d.len() && d[q] == r0[k];
                    assert(s[q + 1] == d[q]);
                    assert(s[0].timestamp <= s[q + 1].timestamp);
                }
            }
        }
        assert(forall|i: int, j: int|
            #![trigger r[i], r[j]]
            0 <= i < j < r.len() ==> r[i].timestamp <= r[j].timestamp) by {
            assert(forall|k: int| 0 <= k < r0.len() ==> r[k + 1] == r0[k]);
            assert(r[0] == s[0]);
        }
    }
}

proof fn lemma_sort_props(s: Seq<PrintView>)
    ensures
        time_sorted(sort_prints(s)),
        sort_prints(s).to_multiset() =~= s.to_multiset(),
        sort_prints(s).len() == s.len(),
    decreases s.len(),
{
    broadcast use vstd::seq_lib::group_to_multiset_ensures;
    broadcast use vstd::multiset::group_multiset_axioms;

    if s.len() > 0 {
        let d = s.drop_first();
        lemma_sort_props(d);
        lemma_insert_sorted_props(s.first(), sort_prints(d));
        assert(s =~= seq![s[0]] + d);
        vstd::seq_lib::lemma_multiset_commutative(seq![s[0]], d);
        assert(seq![s[0]].to_multiset() =~= Multiset::<PrintView>::empty().insert(s[0]));
    }
}

proof fn lemma_distinct_transfers(a: Seq<PrintView>, s: Seq<PrintView>)
    requires
        distinct_times(a),
        a.to_multiset() == s.to_multiset(),
    ensures
        distinct_times(s),
{
    broadcast use vstd::seq_lib::group_to_multiset_ensures;
    broadcast use vstd::multiset::group_multiset_axioms;

    assert forall|i: int, j: int|
        #![trigger s[i], s[j]]
        0 <= i < j < s.len() implies s[i].timestamp != s[j].timestamp by {
        if s[i].timestamp == s[j].timestamp {
            if s[i] == s[j] {
                // the same record twice: its count is at least two, so it
                // sits at two positions of `a` as well
                assert(s.remove(i).to_multiset() =~= s.to_multiset().remove(s[i]));
                assert(s.remove(i)[j - 1] == s[j]);
                assert(s.remove(i).to_multiset().count(s[j]) > 0);
                assert(a.to_multiset().count(s[i]) >= 2);
                assert(a.contains(s[i]));
                let p = choose|p: int| 0 <= p < a.len() && a[p] == s[i];
                assert(a.remove(p).to_multiset() =~= a.to_multiset().remove(a[p]));
                assert(a.remove(p).to_multiset().count(s[i]) > 0);
                assert(a.remove(p).contains(s[i]));
                let q = choose|q: int| 0 <= q < a.remove(p).len() && a.remove(p)[q] == s[i];
                if q < p {
                    assert(a[q] == s[i]);
                    assert(a[q].timestamp == a[p].timestamp);
                } else {
                    assert(a[q + 1] == s[i]);
                    assert(a[q + 1].timestamp == a[p].timestamp);
                }
            } else {
                assert(a.to_multiset().count(s[i]) > 0);
                assert(a.to_multiset().count(s[j]) > 0);
                assert(a.contains(s[i]));
                assert(a.contains(s[j]));
                let p = choose|p: int| 0 <= p < a.len() && a[p] == s[i];
                let q = choose|q: int| 0 <= q < a.len() && a[q] == s[j];
                assert(p != q);
                assert(a[p].timestamp == a[q].timestamp);
            }
        }
    }
}

proof fn lemma_sorted_unique(x: Seq<PrintView>, y: Seq<PrintView>)
    requires
        time_sorted(x),
        time_sorted(y),
        x.to_multiset() == y.to_multiset(),
        distinct_times(x),
    ensures
        x == y,
    decreases x.len(),
{
    broadcast use vstd::seq_lib::group_to_multiset_ensures;
    broadcast use vstd::multiset::group_multiset_axioms;

    x.to_multiset_ensures();
    y.to_multiset_ensures();
    if x.len() == 0 {
        assert(y.len() == 0);
        assert(x =~= y);
    } else {
        assert(y.len() == x.len());
        assert(x.contains(x[0]));
        assert(y.to_multiset().count(x[0]) > 0);
        assert(y.contains(x[0]));
        let j = choose|j: int| 0 <= j < y.len() && y[j] == x[0];
        assert(y[0].timestamp <= y[j].timestamp);
        assert(x.to_multiset().count(y[0]) > 0);
        assert(x.contains(y[0]));
        let i = choose|i: int| 0 <= i < x.len() && x[i] == y[0];
        assert(x[0].timestamp <= x[i].timestamp);
        assert(x[0].timestamp == y[0].timestamp);
        assert(x[i].timestamp == x[0].timestamp);
        if i != 0 {
            assert(false);
        }
        assert(x[0] == y[0]);
        let xd = x.remove(0);
        let yd = y.remove(0);
        assert(xd.to_multiset() =~= x.to_multiset().remove(x[0]));
        assert(yd.to_multiset() =~= y.to_multiset().remove(y[0]));
        assert(time_sorted(xd)) by {
            assert(forall|k: int| 0 <= k < xd.len() ==> xd[k] == x[k + 1]);
        }
        assert(time_sorted(yd)) by {
            assert(forall|k: int| 0 <= k < yd.len() ==> yd[k] == y[k + 1]);
        }
        assert(distinct_times(xd)) by {
            assert(forall|k: int| 0 <= k < xd.len() ==> xd[k] == x[k + 1]);
        }
        lemma_sorted_unique(xd, yd);
        assert(x =~= y) by {
            assert(forall|k: int| 1 <= k < x.len() ==> x[k] == xd[k - 1] && y[k] == yd[k - 1]);
        }
    }
}

/// Replay is insensitive to the arrival order of print events: two
/// arrival orders of the same events — with distinct raw timestamps —
/// sort to the same sequence, so the replayer emits identical output,
/// identical diagnostics, and the same outcome.
pub proof fn lemma_replay_order_insensitive(a: Seq<PrintView>, b: Seq<PrintView>, offset: u64)
    requires
        a.to_multiset() == b.to_multiset(),
        distinct_times(a),
    ensures
        sort_prints(a) == sort_prints(b),
        replay_fold(replay_init(), sort_prints(a), offset) == replay_fold(
            replay_init(),
            sort_prints(b),
            offset,
        ),
{
    lemma_sort_props(a);
    lemma_sort_props(b);
    lemma_distinct_transfers(a, sort_prints(a));
    lemma_sorted_unique(sort_prints(a), sort_prints(b));
}

} // verus!
