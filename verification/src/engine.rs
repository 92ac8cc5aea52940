//! The reconstruction engine: one sequential pass over the decoded packet
//! stream, updating clock and track state, interning names, turning
//! structured begin/end/instant events into completed spans, and buffering
//! legacy print events for replay after the pass.
use vstd::prelude::*;

use crate::clock::note_spec;
use crate::clock::observe_spec;
use crate::clock::reading_spec;
use crate::clock::defaults_spec;
use crate::clock::ClockState;
use crate::events::DataView;
use crate::events::Diag;
use crate::events::EventKind;
use crate::events::EventView;
use crate::events::Fatal;
use crate::events::InternedName;
use crate::events::LabelRef;
use crate::events::LabelView;
use crate::events::PacketData;
use crate::events::PacketRec;
use crate::events::PacketView;
use crate::events::PrintOut;
use crate::events::PrintOutView;
use crate::events::PrintRec;
use crate::events::PrintView;
use crate::events::SpanOut;
use crate::events::SpanView;
use crate::events::TrackEventRec;
use crate::tracks::clone_bytes;
use crate::tracks::name_init_spec;
use crate::tracks::register_spec;
use crate::tracks::resolve_spec;
use crate::tracks::track_index;
use crate::replay::replay_fold;
use crate::replay::replay_init;
use crate::replay::sort_by_time;
use crate::replay::sort_prints;
use crate::replay::Replayer;
use crate::replay::ReplayView;
use crate::tracks::Track;
use crate::tracks::TrackTable;
use crate::tracks::TrackView;

verus! {

/// The legacy phase code opening a span.
pub const PHASE_LEGACY_BEGIN: u8 = 98;

/// The legacy phase code closing a span.
pub const PHASE_LEGACY_END: u8 = 101;

/// The legacy phase code of an instant.
pub const PHASE_LEGACY_INSTANT: u8 = 110;

pub open spec fn view_opt_bytes(o: Option<Vec<u8>>) -> Option<Seq<u8>> {
    match o {
        Option::Some(v) => Option::Some(v@),
        Option::None => Option::None,
    }
}

pub open spec fn view_opt_span(o: Option<SpanOut>) -> Option<SpanView> {
    match o {
        Option::Some(s) => Option::Some(s@),
        Option::None => Option::None,
    }
}

pub open spec fn names_view(s: Seq<InternedName>) -> Seq<(u64, Seq<u8>)> {
    s.map_values(|n: InternedName| n@)
}

pub open spec fn span_views(s: Seq<SpanOut>) -> Seq<SpanView> {
    s.map_values(|x: SpanOut| x@)
}

pub open spec fn print_views(s: Seq<PrintRec>) -> Seq<PrintView> {
    s.map_values(|p: PrintRec| p@)
}

/// The first table index holding `iid`, from `i` on; the length when
/// there is none.
pub open spec fn intern_find_from(s: Seq<(u64, Seq<u8>)>, iid: u64, i: int) -> int
    decreases s.len() - i,
{
    if i < 0 || i >= s.len() {
        s.len() as int
    } else if s[i].0 == iid {
        i
    } else {
        intern_find_from(s, iid, i + 1)
    }
}

pub open spec fn intern_index(s: Seq<(u64, Seq<u8>)>, iid: u64) -> int {
    intern_find_from(s, iid, 0)
}

/// What inserting one interned name does: a fresh id is appended, a known
/// id's entry is overwritten in place.
pub open spec fn intern_insert(s: Seq<(u64, Seq<u8>)>, e: (u64, Seq<u8>)) -> Seq<(u64, Seq<u8>)> {
    let i = intern_index(s, e.0);
    if i < s.len() {
        s.update(i, e)
    } else {
        s.push(e)
    }
}

pub open spec fn intern_insert_all(s: Seq<(u64, Seq<u8>)>, entries: Seq<(u64, Seq<u8>)>) -> Seq<
    (u64, Seq<u8>),
>
    decreases entries.len(),
{
    if entries.len() == 0 {
        s
    } else {
        intern_insert(intern_insert_all(s, entries.drop_last()), entries.last())
    }
}

/// The label an interned-name id stands for, if the table knows it.
pub open spec fn intern_lookup(s: Seq<(u64, Seq<u8>)>, iid: u64) -> Option<Seq<u8>> {
    let i = intern_index(s, iid);
    if i < s.len() {
        Option::Some(s[i].1)
    } else {
        Option::None
    }
}

fn intern_put(tbl: &mut Vec<InternedName>, e: InternedName)
    ensures
        names_view(final(tbl)@) == intern_insert(names_view(old(tbl)@), e@),
{
    let n = tbl.len();
    let mut j: usize = 0;
    while j < n
        invariant
            0 <= j <= n,
            n == tbl@.len(),
            tbl@ == old(tbl)@,
            intern_find_from(names_view(tbl@), e.iid, 0) == intern_find_from(
                names_view(tbl@),
                e.iid,
                j as int,
            ),
        decreases n - j,
    {
        if tbl[j].iid == e.iid {
            proof {
                assert(names_view(tbl@)[j as int].0 == e.iid);
                assert(intern_index(names_view(tbl@), e.iid) == j as int);
            }
            let ghost pre = names_view(tbl@);
            tbl[j] = e;
            proof {
                assert(names_view(tbl@) =~= intern_insert(pre, e@));
            }
            return ;
        }
        proof {
            assert(names_view(tbl@)[j as int].0 != e.iid);
        }
        j = j + 1;
    }
    let ghost pre = names_view(tbl@);
    tbl.push(e);
    proof {
        assert(names_view(tbl@) =~= intern_insert(pre, e@));
    }
}

fn intern_get(tbl: &Vec<InternedName>, iid: u64) -> (r: Option<Vec<u8>>)
    ensures
        view_opt_bytes(r) == intern_lookup(names_view(tbl@), iid),
{
    let n = tbl.len();
    let mut j: usize = 0;
    while j < n
        invariant
            0 <= j <= n,
            n == tbl@.len(),
            intern_find_from(names_view(tbl@), iid, 0) == intern_find_from(
                names_view(tbl@),
                iid,
                j as int,
            ),
        decreases n - j,
    {
        if tbl[j].iid == iid {
            proof {
                assert(names_view(tbl@)[j as int].0 == iid);
                assert(intern_index(names_view(tbl@), iid) == j as int);
            }
            return Some(clone_bytes(&tbl[j].name));
        }
        proof {
            assert(names_view(tbl@)[j as int].0 != iid);
        }
        j = j + 1;
    }
    None
}

fn clone_print(p: &PrintRec) -> (r: PrintRec)
    ensures
        r@ == p@,
{
    PrintRec { pid: p.pid, timestamp: p.timestamp, buf: clone_bytes(&p.buf) }
}

fn append_prints(dst: &mut Vec<PrintRec>, src: &Vec<PrintRec>)
    ensures
        print_views(final(dst)@) == print_views(old(dst)@) + print_views(src@),
{
    let ghost base = print_views(dst@);
    let n = src.len();
    let mut k: usize = 0;
    while k < n
        invariant
            0 <= k <= n,
            n == src@.len(),
            print_views(dst@) == base + print_views(src@).subrange(0, k as int),
        decreases n - k,
    {
        let ghost pre = print_views(dst@);
        dst.push(clone_print(&src[k]));
        proof {
            assert(print_views(dst@) =~= pre.push(src@[k as int]@));
            assert((base + print_views(src@).subrange(0, k as int)).push(src@[k as int]@) =~= base
                + print_views(src@).subrange(0, k as int + 1));
        }
        k = k + 1;
    }
    proof {
        assert(print_views(src@).subrange(0, n as int) =~= print_views(src@));
    }
}

/// What resolving an event's label yields: nothing when the event has
/// none, the inline string, or the interned table's entry — an unknown
/// interned id is fatal.
pub open spec fn label_of(names: Seq<(u64, Seq<u8>)>, l: Option<LabelView>) -> Result<
    Option<Seq<u8>>,
    Fatal,
> {
    match l {
        Option::None => Result::Ok(Option::None),
        Option::Some(LabelView::Inline(s)) => Result::Ok(Option::Some(s)),
        Option::Some(LabelView::Interned(iid)) => match intern_lookup(names, iid) {
            Option::Some(nm) => Result::Ok(Option::Some(nm)),
            Option::None => Result::Err(Fatal::UnknownNameRef(iid)),
        },
    }
}

/// What a begin event does to its track: the label is required; a
/// structured begin also initializes the track's name from it; the pair
/// `(time, label)` is pushed onto the open-span stack.
pub open spec fn begin_step(t: TrackView, time: u64, label: Option<Seq<u8>>, init_name: bool) -> Result<
    (TrackView, Option<SpanView>, Option<Diag>),
    Fatal,
> {
    match label {
        Option::None => Result::Err(Fatal::MissingLabel),
        Option::Some(l) => if init_name {
            match name_init_spec(t, l) {
                Result::Err(e) => Result::Err(e),
                Result::Ok(pair) => Result::Ok(
                    (
                        TrackView { open_spans: pair.0.open_spans.push((time, l)), ..pair.0 },
                        Option::None,
                        Option::None,
                    ),
                ),
            }
        } else {
            Result::Ok(
                (
                    TrackView { open_spans: t.open_spans.push((time, l)), ..t },
                    Option::None,
                    Option::None,
                ),
            )
        },
    }
}

/// What an instant event does: the label is required, the track's name is
/// initialized from it if needed, and a zero-duration span is emitted at
/// the event's time.
pub open spec fn instant_step(t: TrackView, time: u64, label: Option<Seq<u8>>) -> Result<
    (TrackView, Option<SpanView>, Option<Diag>),
    Fatal,
> {
    match label {
        Option::None => Result::Err(Fatal::MissingLabel),
        Option::Some(l) => match name_init_spec(t, l) {
            Result::Err(e) => Result::Err(e),
            Result::Ok(pair) => Result::Ok(
                (
                    pair.0,
                    Option::Some(
                        SpanView { tid: t.tid, name: pair.1, start: time, end: time, label: l },
                    ),
                    Option::None,
                ),
            ),
        },
    }
}

/// What an end event does: the most recently opened span still open on
/// the track is closed and emitted, with the track's name initialized
/// from the popped label if needed; an empty stack yields a non-fatal
/// diagnostic and no span.
pub open spec fn end_step(t: TrackView, time: u64) -> Result<
    (TrackView, Option<SpanView>, Option<Diag>),
    Fatal,
> {
    if t.open_spans.len() == 0 {
        Result::Ok((t, Option::None, Option::Some(Diag::MissingStart)))
    } else {
        let st = t.open_spans.last().0;
        let lbl = t.open_spans.last().1;
        let t1 = TrackView { open_spans: t.open_spans.drop_last(), ..t };
        match name_init_spec(t1, lbl) {
            Result::Err(e) => Result::Err(e),
            Result::Ok(pair) => Result::Ok(
                (
                    pair.0,
                    Option::Some(
                        SpanView { tid: t.tid, name: pair.1, start: st, end: time, label: lbl },
                    ),
                    Option::None,
                ),
            ),
        }
    }
}

/// How one structured event acts on its track, by kind: begins push, ends
/// pop and emit, instants emit, and an unspecified kind is driven by its
/// legacy phase code — any unrecognized phase is silently ignored.
pub open spec fn track_step(
    t: TrackView,
    kind: EventKind,
    phase: Option<u8>,
    time: u64,
    label: Option<Seq<u8>>,
) -> Result<(TrackView, Option<SpanView>, Option<Diag>), Fatal> {
    match kind {
        EventKind::SliceBegin => begin_step(t, time, label, true),
        EventKind::Instant => instant_step(t, time, label),
        EventKind::SliceEnd => end_step(t, time),
        EventKind::Unspecified => match phase {
            Option::Some(c) => if c == PHASE_LEGACY_BEGIN {
                begin_step(t, time, label, false)
            } else if c == PHASE_LEGACY_END {
                end_step(t, time)
            } else if c == PHASE_LEGACY_INSTANT {
                instant_step(t, time, label)
            } else {
                Result::Ok((t, Option::None, Option::None))
            },
            Option::None => Result::Ok((t, Option::None, Option::None)),
        },
        EventKind::Other => Result::Ok((t, Option::None, Option::None)),
    }
}

fn apply_track(
    tr: &mut Track,
    kind: EventKind,
    phase: Option<u8>,
    time: u64,
    label: Option<Vec<u8>>,
) -> (r: Result<(Option<SpanOut>, Option<Diag>), Fatal>)
    ensures
        match track_step(old(tr)@, kind, phase, time, view_opt_bytes(label)) {
            Result::Err(e) => r == Result::Err::<(Option<SpanOut>, Option<Diag>), Fatal>(e)
                && final(tr)@ == old(tr)@,
            Result::Ok(r3) => final(tr)@ == r3.0 && (r matches Ok(pr) && view_opt_span(pr.0)
                == r3.1 && pr.1 == r3.2),
        },
{
    match kind {
        EventKind::SliceBegin => apply_begin(tr, time, label, true),
        EventKind::Instant => apply_instant(tr, time, label),
        EventKind::SliceEnd => apply_end(tr, time),
        EventKind::Unspecified => {
            match phase {
                Some(c) => {
                    if c == PHASE_LEGACY_BEGIN {
                        apply_begin(tr, time, label, false)
                    } else if c == PHASE_LEGACY_END {
                        apply_end(tr, time)
                    } else if c == PHASE_LEGACY_INSTANT {
                        apply_instant(tr, time, label)
                    } else {
                        Ok((None, None))
                    }
                },
                None => Ok((None, None)),
            }
        },
        EventKind::Other => Ok((None, None)),
    }
}

fn apply_begin(tr: &mut Track, time: u64, label: Option<Vec<u8>>, init_name: bool) -> (r: Result<
    (Option<SpanOut>, Option<Diag>),
    Fatal,
>)
    ensures
        match begin_step(old(tr)@, time, view_opt_bytes(label), init_name) {
            Result::Err(e) => r == Result::Err::<(Option<SpanOut>, Option<Diag>), Fatal>(e)
                && final(tr)@ == old(tr)@,
            Result::Ok(r3) => final(tr)@ == r3.0 && (r matches Ok(pr) && view_opt_span(pr.0)
                == r3.1 && pr.1 == r3.2),
        },
{
    let l = match label {
        None => {
            return Err(Fatal::MissingLabel);
        },
        Some(l) => l,
    };
    if init_name {
        if let Err(e) = tr.name_or_init(&l) {
            return Err(e);
        }
    }
    let ghost pre = tr@;
    tr.open_spans.push((time, l));
    proof {
        assert(tr@.open_spans =~= pre.open_spans.push((time, l@)));
        assert(tr@ =~= TrackView { open_spans: pre.open_spans.push((time, l@)), ..pre });
    }
    Ok((None, None))
}

fn apply_instant(tr: &mut Track, time: u64, label: Option<Vec<u8>>) -> (r: Result<
    (Option<SpanOut>, Option<Diag>),
    Fatal,
>)
    ensures
        match instant_step(old(tr)@, time, view_opt_bytes(label)) {
            Result::Err(e) => r == Result::Err::<(Option<SpanOut>, Option<Diag>), Fatal>(e)
                && final(tr)@ == old(tr)@,
            Result::Ok(r3) => final(tr)@ == r3.0 && (r matches Ok(pr) && view_opt_span(pr.0)
                == r3.1 && pr.1 == r3.2),
        },
{
    let l = match label {
        None => {
            return Err(Fatal::MissingLabel);
        },
        Some(l) => l,
    };
    let tid = tr.tid;
    match tr.name_or_init(&l) {
        Err(e) => Err(e),
        Ok(nm) => Ok((Some(SpanOut { tid, name: nm, start: time, end: time, label: l }), None)),
    }
}

fn apply_end(tr: &mut Track, time: u64) -> (r: Result<(Option<SpanOut>, Option<Diag>), Fatal>)
    ensures
        match end_step(old(tr)@, time) {
            Result::Err(e) => r == Result::Err::<(Option<SpanOut>, Option<Diag>), Fatal>(e)
                && final(tr)@ == old(tr)@,
            Result::Ok(r3) => final(tr)@ == r3.0 && (r matches Ok(pr) && view_opt_span(pr.0)
                == r3.1 && pr.1 == r3.2),
        },
{
    let n = tr.open_spans.len();
    if n == 0 {
        return Ok((None, Some(Diag::MissingStart)));
    }
    let st = tr.open_spans[n - 1].0;
    let lbl = clone_bytes(&tr.open_spans[n - 1].1);
    proof {
        assert(old(tr)@.open_spans.last() == (st, lbl@));
    }
    let tid = tr.tid;
    match tr.name_or_init(&lbl) {
        Err(e) => {
            proof {
                let t = old(tr)@;
                let t1 = TrackView { open_spans: t.open_spans.drop_last(), ..t };
                assert(name_init_spec(t1, lbl@) == name_init_spec(t, lbl@));
            }
            Err(e)
        },
        Ok(nm) => {
            let ghost mid = tr@;
            tr.open_spans.pop();
            proof {
                let t = old(tr)@;
                let t1 = TrackView { open_spans: t.open_spans.drop_last(), ..t };
                assert(tr@.open_spans =~= mid.open_spans.drop_last());
                match t.name {
                    Option::Some(n0) => {
                        assert(name_init_spec(t1, lbl@) == Result::Ok::<
                            (TrackView, Seq<u8>),
                            Fatal,
                        >((t1, n0)));
                        assert(mid =~= t);
                        assert(tr@ =~= t1);
                    },
                    Option::None => {
                        let tok = crate::text::first_token(lbl@);
                        assert(name_init_spec(t1, lbl@) == Result::Ok::<
                            (TrackView, Seq<u8>),
                            Fatal,
                        >((TrackView { name: Option::Some(tok), ..t1 }, tok)));
                        assert(mid =~= (TrackView { name: Option::Some(tok), ..t }));
                        assert(tr@ =~= (TrackView { name: Option::Some(tok), ..t1 }));
                    },
                }
            }
            Ok((Some(SpanOut { tid, name: nm, start: st, end: time, label: lbl }), None))
        },
    }
}

/// What one structured event does to the whole engine: its track is
/// resolved, the packet's interned names are recorded, and — when the
/// packet is timestamped — the event's common time and label are resolved
/// and applied to the track.
pub open spec fn event_step(v: EngineView, p: PacketView, ev: EventView) -> (
    EngineView,
    Option<Fatal>,
) {
    match resolve_spec(v.tracks, ev.track_uuid, v.clock.default_track, p.trusted_pid) {
        Result::Err(e) => (v, Option::Some(e)),
        Result::Ok(uuid) => {
            let v1 = EngineView { names: intern_insert_all(v.names, p.interned_names), ..v };
            match p.timestamp {
                Option::None => (v1, Option::None),
                Option::Some(ts) => match reading_spec(v1.clock, ts, p.timestamp_clock_id) {
                    Result::Err(e) => (v1, Option::Some(e)),
                    Result::Ok(time) => match label_of(v1.names, ev.label) {
                        Result::Err(e) => (v1, Option::Some(e)),
                        Result::Ok(label) => {
                            let i = track_index(v1.tracks, uuid);
                            if i >= v1.tracks.len() {
                                (v1, Option::Some(Fatal::UnknownTrack(uuid)))
                            } else {
                                match track_step(v1.tracks[i], ev.kind, ev.legacy_phase, time, label) {
                                    Result::Err(e) => (v1, Option::Some(e)),
                                    Result::Ok(r3) => (
                                        EngineView {
                                            tracks: v1.tracks.update(i, r3.0),
                                            spans: match r3.1 {
                                                Option::Some(sp) => v1.spans.push(sp),
                                                Option::None => v1.spans,
                                            },
                                            diags: match r3.2 {
                                                Option::Some(d) => v1.diags.push(d),
                                                Option::None => v1.diags,
                                            },
                                            ..v1
                                        },
                                        Option::None,
                                    ),
                                }
                            }
                        },
                    },
                },
            }
        },
    }
}

/// What one packet does to the whole engine: stream defaults are
/// recorded first; then, for a packet with a payload, a timestamp in the
/// delta-encoded domain advances the accumulator, and the payload is
/// dispatched.
pub open spec fn packet_step(v: EngineView, p: PacketView) -> (EngineView, Option<Fatal>) {
    let dres = match p.defaults {
        Option::Some(d) => defaults_spec(v.clock, d),
        Option::None => Result::Ok(v.clock),
    };
    match dres {
        Result::Err(e) => (v, Option::Some(e)),
        Result::Ok(c1) => {
            let v1 = EngineView { clock: c1, ..v };
            match p.data {
                Option::None => (v1, Option::None),
                Option::Some(data) => {
                    let v2 = match p.timestamp {
                        Option::Some(ts) => EngineView {
                            clock: note_spec(v1.clock, ts, p.timestamp_clock_id),
                            ..v1
                        },
                        Option::None => v1,
                    };
                    match data {
                        DataView::Snapshot(entries) => match observe_spec(v2.clock, entries) {
                            Result::Ok(c2) => (EngineView { clock: c2, ..v2 }, Option::None),
                            Result::Err(e) => (v2, Option::Some(e)),
                        },
                        DataView::Prints(list) => (
                            EngineView { prints: v2.prints + list, ..v2 },
                            Option::None,
                        ),
                        DataView::Descriptor(d) => (
                            EngineView { tracks: register_spec(v2.tracks, d), ..v2 },
                            Option::None,
                        ),
                        DataView::Event(ev) => event_step(v2, p, ev),
                        DataView::Other => (v2, Option::None),
                    }
                },
            }
        },
    }
}

/// The decoded packets applied in order from a fresh engine, stopping at
/// the first fatal error.
pub open spec fn pass_fold(packets: Seq<PacketView>) -> (EngineView, Option<Fatal>)
    decreases packets.len(),
{
    if packets.len() == 0 {
        (init_view(), Option::None)
    } else {
        let prev = pass_fold(packets.drop_last());
        match prev.1 {
            Option::Some(e) => prev,
            Option::None => packet_step(prev.0, packets.last()),
        }
    }
}

pub open spec fn packet_views(s: Seq<PacketRec>) -> Seq<PacketView> {
    s.map_values(|p: PacketRec| p@)
}

/// The engine's state across the pass.
pub struct Engine {
    pub clock: ClockState,
    pub tracks: TrackTable,
    pub names: Vec<InternedName>,
    pub spans: Vec<SpanOut>,
    pub prints: Vec<PrintRec>,
    pub diags: Vec<Diag>,
}

#[verifier::ext_equal]
pub ghost struct EngineView {
    pub clock: ClockState,
    pub tracks: Seq<TrackView>,
    pub names: Seq<(u64, Seq<u8>)>,
    pub spans: Seq<SpanView>,
    pub prints: Seq<PrintView>,
    pub diags: Seq<Diag>,
}

impl View for Engine {
    type V = EngineView;

    open spec fn view(&self) -> EngineView {
        EngineView {
            clock: self.clock,
            tracks: self.tracks@,
            names: names_view(self.names@),
            spans: span_views(self.spans@),
            prints: print_views(self.prints@),
            diags: self.diags@,
        }
    }
}

/// A fresh engine: empty registry, empty tables, clocks at zero.
pub open spec fn init_view() -> EngineView {
    EngineView {
        clock: ClockState {
            default_clock: Option::None,
            default_track: 0u64,
            boot_time: 0u64,
            mono_time: 0u64,
            offset: 0u64,
            running: 0u64,
        },
        tracks: Seq::empty(),
        names: Seq::empty(),
        spans: Seq::empty(),
        prints: Seq::empty(),
        diags: Seq::empty(),
    }
}

impl Engine {
    pub fn new() -> (e: Engine)
        ensures
            e@ =~= init_view(),
    {
        Engine {
            clock: ClockState::new(),
            tracks: TrackTable::new(),
            names: Vec::new(),
            spans: Vec::new(),
            prints: Vec::new(),
            diags: Vec::new(),
        }
    }

    /// Feeds one packet through the engine. A fatal error reports which
    /// data-integrity violation was found; the state after a fatal error
    /// is exactly what `packet_step` says, so partial output emitted
    /// before the failure is preserved.
    pub fn process_packet(&mut self, p: &PacketRec) -> (r: Result<(), Fatal>)
        ensures
            ({
                let step = packet_step(old(self)@, p@);
                final(self)@ == step.0 && (match step.1 {
                    Option::None => r is Ok,
                    Option::Some(e) => r == Result::Err::<(), Fatal>(e),
                })
            }),
    {
        let ghost v0 = self@;
        if let Some(d) = p.defaults {
            if let Err(e) = self.clock.apply_defaults(&d) {
                proof {
                    assert(self@ =~= v0);
                }
                return Err(e);
            }
        }
        let ghost v1 = self@;
        proof {
            assert(v1 =~= (EngineView {
                clock: match p.defaults {
                    Option::Some(d) => defaults_spec(v0.clock, d)->Ok_0,
                    Option::None => v0.clock,
                },
                ..v0
            }));
        }
        let data = match &p.data {
            None => {
                return Ok(());
            },
            Some(d) => d,
        };
        if let Some(ts) = p.timestamp {
            self.clock.note_timestamp(ts, p.timestamp_clock_id);
        }
        let ghost v2 = self@;
        match data {
            PacketData::Snapshot(entries) => {
                match self.clock.observe_snapshot(entries) {
                    Ok(_) => {
                        proof {
                            assert(self@ =~= packet_step(v0, p@).0);
                        }
                        Ok(())
                    },
                    Err(e) => {
                        proof {
                            assert(self@ =~= v2);
                        }
                        Err(e)
                    },
                }
            },
            PacketData::Prints(list) => {
                append_prints(&mut self.prints, list);
                proof {
                    assert(self@ =~= (EngineView { prints: v2.prints + print_views(list@), ..v2 }));
                }
                Ok(())
            },
            PacketData::Descriptor(d) => {
                self.tracks.register(d);
                proof {
                    assert(self@ =~= (EngineView { tracks: register_spec(v2.tracks, *d), ..v2 }));
                }
                Ok(())
            },
            PacketData::Event(ev) => self.process_event(p, ev),
            PacketData::Other => Ok(()),
        }
    }

    fn process_event(&mut self, p: &PacketRec, ev: &TrackEventRec) -> (r: Result<(), Fatal>)
        ensures
            ({
                let step = event_step(old(self)@, p@, ev@);
                final(self)@ == step.0 && (match step.1 {
                    Option::None => r is Ok,
                    Option::Some(e) => r == Result::Err::<(), Fatal>(e),
                })
            }),
    {
        let ghost v0 = self@;
        let uuid = match self.tracks.resolve(
            ev.track_uuid,
            self.clock.default_track,
            p.trusted_pid,
        ) {
            Err(e) => {
                return Err(e);
            },
            Ok(u) => u,
        };
        let n = p.interned_names.len();
        let mut k: usize = 0;
        while k < n
            invariant
                0 <= k <= n,
                n == p.interned_names@.len(),
                names_view(self.names@) == intern_insert_all(
                    v0.names,
                    p@.interned_names.subrange(0, k as int),
                ),
                self.clock == v0.clock,
                self.tracks@ == v0.tracks,
                span_views(self.spans@) == v0.spans,
                print_views(self.prints@) == v0.prints,
                self.diags@ == v0.diags,
            decreases n - k,
        {
            let e = InternedName {
                iid: p.interned_names[k].iid,
                name: clone_bytes(&p.interned_names[k].name),
            };
            proof {
                assert(e@ == p@.interned_names[k as int]);
                assert(p@.interned_names.subrange(0, k as int + 1).drop_last()
                    =~= p@.interned_names.subrange(0, k as int));
                assert(p@.interned_names.subrange(0, k as int + 1).last() == e@);
            }
            intern_put(&mut self.names, e);
            k = k + 1;
        }
        proof {
            assert(p@.interned_names.subrange(0, n as int) =~= p@.interned_names);
        }
        let ghost v1 = EngineView { names: intern_insert_all(v0.names, p@.interned_names), ..v0 };
        proof {
            assert(self@ =~= v1);
        }
        let ts = match p.timestamp {
            None => {
                return Ok(());
            },
            Some(ts) => ts,
        };
        let time = match self.clock.resolve_reading(ts, p.timestamp_clock_id) {
            Err(e) => {
                return Err(e);
            },
            Ok(t) => t,
        };
        let label: Option<Vec<u8>> = match &ev.label {
            None => None,
            Some(LabelRef::Inline(s)) => Some(clone_bytes(s)),
            Some(LabelRef::Interned(iid)) => {
                match intern_get(&self.names, *iid) {
                    Some(nm) => Some(nm),
                    None => {
                        return Err(Fatal::UnknownNameRef(*iid));
                    },
                }
            },
        };
        proof {
            assert(label_of(v1.names, ev@.label) == Result::Ok::<Option<Seq<u8>>, Fatal>(
                view_opt_bytes(label),
            ));
        }
        let i = match self.tracks.index_of(uuid) {
            None => {
                return Err(Fatal::UnknownTrack(uuid));
            },
            Some(i) => i,
        };
        let tr = &mut self.tracks.list[i];
        let res = apply_track(tr, ev.kind, ev.legacy_phase, time, label);
        match res {
            Err(e) => {
                proof {
                    assert(self@ =~= v1);
                }
                Err(e)
            },
            Ok((sp, dg)) => {
                proof {
                    assert(self.tracks@ =~= v1.tracks.update(
                        i as int,
                        track_step(
                            v1.tracks[i as int],
                            ev@.kind,
                            ev@.legacy_phase,
                            time,
                            view_opt_bytes(label),
                        )->Ok_0.0,
                    ));
                }
                if let Some(s) = sp {
                    self.spans.push(s);
                }
                if let Some(d) = dg {
                    self.diags.push(d);
                }
                proof {
                    assert(self@ =~= event_step(v0, p@, ev@).0);
                }
                Ok(())
            },
        }
    }
}

/// Everything one conversion produces: the structured spans in emission
/// order, then the replayed print spans, the diagnostics of both paths,
/// and the fatal error that stopped the conversion, if one did. Output
/// emitted before a fatal error is preserved; print events are only
/// replayed when the whole pass succeeded.
pub struct Outcome {
    pub spans: Vec<SpanOut>,
    pub print_spans: Vec<PrintOut>,
    pub diags: Vec<Diag>,
    pub fatal: Option<Fatal>,
}

#[verifier::ext_equal]
pub ghost struct OutcomeView {
    pub spans: Seq<SpanView>,
    pub print_spans: Seq<PrintOutView>,
    pub diags: Seq<Diag>,
    pub fatal: Option<Fatal>,
}

pub open spec fn print_out_views(s: Seq<PrintOut>) -> Seq<PrintOutView> {
    s.map_values(|x: PrintOut| x@)
}

impl View for Outcome {
    type V = OutcomeView;

    open spec fn view(&self) -> OutcomeView {
        OutcomeView {
            spans: span_views(self.spans@),
            print_spans: print_out_views(self.print_spans@),
            diags: self.diags@,
            fatal: self.fatal,
        }
    }
}

/// What converting a whole decoded packet stream yields: the sequential
/// pass, then — when it succeeded — the buffered print events
/// stable-sorted by raw timestamp and replayed with the final
/// boot-to-monotonic offset.
pub open spec fn convert_spec(packets: Seq<PacketView>) -> OutcomeView {
    let pass = pass_fold(packets);
    match pass.1 {
        Option::Some(e) => OutcomeView {
            spans: pass.0.spans,
            print_spans: Seq::empty(),
            diags: pass.0.diags,
            fatal: Option::Some(e),
        },
        Option::None => {
            let sorted = sort_prints(pass.0.prints);
            let rep = replay_fold(replay_init(), sorted, pass.0.clock.offset);
            OutcomeView {
                spans: pass.0.spans,
                print_spans: rep.0.out,
                diags: pass.0.diags + rep.0.diags,
                fatal: rep.1,
            }
        },
    }
}

proof fn lemma_pass_err_extends(s: Seq<PacketView>, i: int)
    requires
        0 <= i <= s.len(),
        pass_fold(s.subrange(0, i)).1 is Some,
    ensures
        pass_fold(s) == pass_fold(s.subrange(0, i)),
    decreases s.len() - i,
{
    if i == s.len() {
        assert(s.subrange(0, i) =~= s);
    } else {
        assert(s.drop_last().subrange(0, i) =~= s.subrange(0, i));
        lemma_pass_err_extends(s.drop_last(), i);
    }
}

proof fn lemma_replay_err_extends(st: ReplayView, s: Seq<PrintView>, offset: u64, i: int)
    requires
        0 <= i <= s.len(),
        replay_fold(st, s.subrange(0, i), offset).1 is Some,
    ensures
        replay_fold(st, s, offset) == replay_fold(st, s.subrange(0, i), offset),
    decreases s.len() - i,
{
    if i == s.len() {
        assert(s.subrange(0, i) =~= s);
    } else {
        assert(s.drop_last().subrange(0, i) =~= s.subrange(0, i));
        lemma_replay_err_extends(st, s.drop_last(), offset, i);
    }
}

fn append_diags(dst: &mut Vec<Diag>, src: &Vec<Diag>)
    ensures
        final(dst)@ == old(dst)@ + src@,
{
    let n = src.len();
    let mut k: usize = 0;
    while k < n
        invariant
            0 <= k <= n,
            n == src@.len(),
            dst@ == old(dst)@ + src@.subrange(0, k as int),
        decreases n - k,
    {
        dst.push(src[k]);
        proof {
            assert((old(dst)@ + src@.subrange(0, k as int)).push(src@[k as int]) =~= old(dst)@
                + src@.subrange(0, k as int + 1));
        }
        k = k + 1;
    }
    proof {
        assert(src@.subrange(0, n as int) =~= src@);
    }
}

/// Converts one decoded trace: a single pass over the packets, then the
/// sorted replay of the buffered print events.
pub fn convert_trace(packets: &Vec<PacketRec>) -> (out: Outcome)
    ensures
        out@ == convert_spec(packet_views(packets@)),
{
    let ghost pv = packet_views(packets@);
    let mut eng = Engine::new();
    proof {
        assert(pv.subrange(0, 0) =~= Seq::<PacketView>::empty());
    }
    let n = packets.len();
    let mut i: usize = 0;
    while i < n
        invariant
            0 <= i <= n,
            n == packets@.len(),
            pv == packet_views(packets@),
            pass_fold(pv.subrange(0, i as int)) == (eng@, Option::None::<Fatal>),
        decreases n - i,
    {
        proof {
            assert(pv.subrange(0, i as int + 1).drop_last() =~= pv.subrange(0, i as int));
            assert(pv.subrange(0, i as int + 1).last() == packets@[i as int]@);
        }
        match eng.process_packet(&packets[i]) {
            Ok(_) => {},
            Err(e) => {
                proof {
                    assert(pass_fold(pv.subrange(0, i as int + 1)) == (
                        eng@,
                        Option::Some::<Fatal>(e),
                    ));
                    lemma_pass_err_extends(pv, i as int + 1);
                }
                let ghost ev = eng@;
                let out = Outcome {
                    spans: eng.spans,
                    print_spans: Vec::new(),
                    diags: eng.diags,
                    fatal: Some(e),
                };
                proof {
                    assert(span_views(out.spans@) == ev.spans);
                    assert(out.diags@ == ev.diags);
                    assert(pass_fold(pv) == (ev, Option::Some::<Fatal>(e)));
                    assert(out@ =~= convert_spec(pv));
                }
                return out;
            },
        }
        i = i + 1;
    }
    proof {
        assert(pv.subrange(0, n as int) =~= pv);
    }
    let sorted = sort_by_time(&eng.prints);
    let offset = eng.clock.offset;
    let mut rep = Replayer::new();
    let ghost sv = print_views(sorted@);
    let m = sorted.len();
    let mut k: usize = 0;
    proof {
        assert(sv.subrange(0, 0) =~= Seq::<PrintView>::empty());
    }
    while k < m
        invariant
            0 <= k <= m,
            m == sorted@.len(),
            sv == print_views(sorted@),
            pv == packet_views(packets@),
            pass_fold(pv) == (eng@, Option::None::<Fatal>),
            sv == sort_prints(eng@.prints),
            offset == eng@.clock.offset,
            replay_fold(replay_init(), sv.subrange(0, k as int), offset) == (
                rep@,
                Option::None::<Fatal>,
            ),
        decreases m - k,
    {
        proof {
            assert(sv.subrange(0, k as int + 1).drop_last() =~= sv.subrange(0, k as int));
            assert(sv.subrange(0, k as int + 1).last() == sorted@[k as int]@);
        }
        match rep.feed(&sorted[k], offset) {
            Ok(_) => {},
            Err(e) => {
                proof {
                    assert(replay_fold(replay_init(), sv.subrange(0, k as int + 1), offset) == (
                        rep@,
                        Option::Some::<Fatal>(e),
                    ));
                    lemma_replay_err_extends(replay_init(), sv, offset, k as int + 1);
                }
                let ghost ev = eng@;
                let ghost rv = rep@;
                let mut diags = eng.diags;
                append_diags(&mut diags, &rep.diags);
                let out = Outcome {
                    spans: eng.spans,
                    print_spans: rep.out,
                    diags,
                    fatal: Some(e),
                };
                proof {
                    assert(replay_fold(replay_init(), sv, offset) == (rv, Option::Some::<Fatal>(e)));
                    assert(pass_fold(pv) == (ev, Option::None::<Fatal>));
                    assert(sort_prints(ev.prints) == sv);
                    assert(ev.clock.offset == offset);
                    assert(out@.spans == ev.spans);
                    assert(out@.print_spans == rv.out);
                    assert(out@.diags == ev.diags + rv.diags);
                    assert(out@ =~= convert_spec(pv));
                }
                return out;
            },
        }
        k = k + 1;
    }
    proof {
        assert(sv.subrange(0, m as int) =~= sv);
    }
    let ghost ev = eng@;
    let ghost rv = rep@;
    let mut diags = eng.diags;
    append_diags(&mut diags, &rep.diags);
    let out = Outcome { spans: eng.spans, print_spans: rep.out, diags, fatal: None };
    proof {
        assert(replay_fold(replay_init(), sv, offset) == (rv, Option::None::<Fatal>));
        assert(out@ =~= convert_spec(pv));
    }
    out
}

} // verus!
