use tracespan::engine::convert_trace;
use tracespan::events::ClockReading;
use tracespan::events::Diag;
use tracespan::events::EventKind;
use tracespan::events::Fatal;
use tracespan::events::InternedName;
use tracespan::events::LabelRef;
use tracespan::events::PacketData;
use tracespan::events::PacketRec;
use tracespan::events::PrintRec;
use tracespan::events::StreamDefaults;
use tracespan::events::TrackDesc;
use tracespan::events::TrackEventRec;

fn packet(data: PacketData) -> PacketRec {
    PacketRec {
        timestamp: None,
        timestamp_clock_id: None,
        trusted_pid: None,
        defaults: None,
        interned_names: Vec::new(),
        data: Some(data),
    }
}

fn descriptor(uuid: u64, parent_uuid: Option<u64>, pid: Option<i32>, tid: Option<i32>) -> PacketRec {
    packet(PacketData::Descriptor(TrackDesc { uuid, parent_uuid, pid, tid }))
}

fn mono_event(uuid: u64, ts: u64, kind: EventKind, label: Option<&str>) -> PacketRec {
    let mut p = packet(PacketData::Event(TrackEventRec {
        track_uuid: Some(uuid),
        kind,
        label: label.map(|l| LabelRef::Inline(l.as_bytes().to_vec())),
        legacy_phase: None,
    }));
    p.timestamp = Some(ts);
    p.timestamp_clock_id = Some(3);
    p
}

fn snapshot(entries: Vec<(u32, u64, bool)>) -> PacketRec {
    packet(PacketData::Snapshot(
        entries
            .into_iter()
            .map(|(clock_id, timestamp, is_incremental)| ClockReading {
                clock_id,
                timestamp,
                is_incremental,
            })
            .collect(),
    ))
}

fn print_rec(pid: i32, timestamp: u64, buf: &str) -> PrintRec {
    PrintRec { pid, timestamp, buf: buf.as_bytes().to_vec() }
}

#[test]
fn begin_then_instant_freezes_name_from_begin() {
    let packets = vec![
        descriptor(1, None, None, None),
        mono_event(1, 10, EventKind::SliceBegin, Some("load texture")),
        mono_event(1, 11, EventKind::Instant, Some("gc pause")),
        mono_event(1, 12, EventKind::SliceEnd, None),
    ];
    let out = convert_trace(&packets);
    assert_eq!(out.fatal, None);
    assert_eq!(out.spans.len(), 2);
    assert_eq!(out.spans[0].name, b"load".to_vec());
    assert_eq!(out.spans[0].label, b"gc pause".to_vec());
    assert_eq!(out.spans[0].start, 11);
    assert_eq!(out.spans[0].end, 11);
    assert_eq!(out.spans[1].name, b"load".to_vec());
    assert_eq!(out.spans[1].label, b"load texture".to_vec());
    assert_eq!(out.spans[1].start, 10);
    assert_eq!(out.spans[1].end, 12);
}

#[test]
fn instant_has_zero_duration() {
    let packets = vec![
        descriptor(1, None, None, None),
        mono_event(1, 77, EventKind::Instant, Some("tick now")),
    ];
    let out = convert_trace(&packets);
    assert_eq!(out.fatal, None);
    assert_eq!(out.spans.len(), 1);
    assert_eq!(out.spans[0].start, out.spans[0].end);
    assert_eq!(out.spans[0].start, 77);
}

#[test]
fn ends_close_most_recent_begin_first() {
    let packets = vec![
        descriptor(1, None, None, None),
        mono_event(1, 1, EventKind::SliceBegin, Some("outer work")),
        mono_event(1, 2, EventKind::SliceBegin, Some("inner work")),
        mono_event(1, 3, EventKind::SliceEnd, None),
        mono_event(1, 4, EventKind::SliceEnd, None),
    ];
    let out = convert_trace(&packets);
    assert_eq!(out.fatal, None);
    assert_eq!(out.spans.len(), 2);
    assert_eq!(out.spans[0].label, b"inner work".to_vec());
    assert_eq!(out.spans[0].start, 2);
    assert_eq!(out.spans[0].end, 3);
    assert_eq!(out.spans[1].label, b"outer work".to_vec());
    assert_eq!(out.spans[1].start, 1);
    assert_eq!(out.spans[1].end, 4);
}

#[test]
fn ends_never_close_another_tracks_span() {
    let packets = vec![
        descriptor(1, None, Some(10), None),
        descriptor(2, None, Some(20), None),
        mono_event(1, 1, EventKind::SliceBegin, Some("alpha")),
        mono_event(2, 2, EventKind::SliceBegin, Some("beta")),
        mono_event(1, 5, EventKind::SliceEnd, None),
        mono_event(2, 6, EventKind::SliceEnd, None),
    ];
    let out = convert_trace(&packets);
    assert_eq!(out.fatal, None);
    assert_eq!(out.spans.len(), 2);
    assert_eq!(out.spans[0].tid, 10);
    assert_eq!(out.spans[0].label, b"alpha".to_vec());
    assert_eq!(out.spans[0].start, 1);
    assert_eq!(out.spans[0].end, 5);
    assert_eq!(out.spans[1].tid, 20);
    assert_eq!(out.spans[1].label, b"beta".to_vec());
}

#[test]
fn end_on_empty_stack_reports_missing_start() {
    let packets = vec![
        descriptor(1, None, None, None),
        mono_event(1, 3, EventKind::SliceEnd, None),
    ];
    let out = convert_trace(&packets);
    assert_eq!(out.fatal, None);
    assert_eq!(out.spans.len(), 0);
    assert_eq!(out.diags, vec![Diag::MissingStart]);
}

#[test]
fn zero_track_id_falls_back_to_trusted_process() {
    let mut event = mono_event(0, 9, EventKind::Instant, Some("probe fired"));
    event.trusted_pid = Some(42);
    let packets = vec![descriptor(5, None, Some(42), None), event];
    let out = convert_trace(&packets);
    assert_eq!(out.fatal, None);
    assert_eq!(out.spans.len(), 1);
    assert_eq!(out.spans[0].tid, 42);
    assert_eq!(out.spans[0].name, b"Process".to_vec());
}

#[test]
fn zero_track_id_skips_tracks_with_parents() {
    // uuid 6 matches the trusted pid but has a parent; uuid 7 is the
    // parentless match the fallback must pick
    let mut event = mono_event(0, 9, EventKind::Instant, Some("probe fired"));
    event.trusted_pid = Some(42);
    let packets = vec![
        descriptor(3, None, Some(42), None),
        descriptor(6, Some(3), None, Some(42)),
        descriptor(7, None, None, Some(42)),
        mono_event(6, 1, EventKind::SliceBegin, Some("pending")),
        event,
    ];
    let out = convert_trace(&packets);
    assert_eq!(out.fatal, None);
    assert_eq!(out.spans.len(), 1);
    // the span landed on a parentless track, not on uuid 6's open stack
    assert_eq!(out.spans[0].name, b"Process".to_vec());
}

#[test]
fn zero_track_id_without_match_is_fatal() {
    let mut event = mono_event(0, 9, EventKind::Instant, Some("probe fired"));
    event.trusted_pid = Some(42);
    let packets = vec![descriptor(5, None, Some(41), None), event];
    let out = convert_trace(&packets);
    assert_eq!(out.fatal, Some(Fatal::MissingTrustedTrack(42)));
    assert_eq!(out.spans.len(), 0);
}

#[test]
fn zero_track_id_without_trusted_pid_is_fatal() {
    let event = mono_event(0, 9, EventKind::Instant, Some("probe fired"));
    let packets = vec![descriptor(5, None, Some(42), None), event];
    let out = convert_trace(&packets);
    assert_eq!(out.fatal, Some(Fatal::NoTrustedPid));
}

#[test]
fn missing_track_field_uses_default_track() {
    let mut defaults = packet(PacketData::Other);
    defaults.defaults = Some(StreamDefaults { timestamp_clock_id: None, track_uuid: Some(8) });
    let mut event = mono_event(1, 4, EventKind::Instant, Some("beat"));
    if let Some(PacketData::Event(ref mut ev)) = event.data {
        ev.track_uuid = None;
    }
    let packets = vec![descriptor(8, None, Some(3), None), defaults, event];
    let out = convert_trace(&packets);
    assert_eq!(out.fatal, None);
    assert_eq!(out.spans.len(), 1);
    assert_eq!(out.spans[0].tid, 3);
}

#[test]
fn child_track_inherits_parent_display_id() {
    let packets = vec![
        descriptor(1, None, Some(10), None),
        descriptor(2, Some(1), None, None),
        mono_event(2, 1, EventKind::Instant, Some("work item")),
    ];
    let out = convert_trace(&packets);
    assert_eq!(out.fatal, None);
    assert_eq!(out.spans[0].tid, 10);
    assert_eq!(out.spans[0].name, b"work".to_vec());
}

#[test]
fn thread_id_overrides_process_id() {
    let packets = vec![
        descriptor(1, None, Some(10), Some(77)),
        mono_event(1, 1, EventKind::Instant, Some("work item")),
    ];
    let out = convert_trace(&packets);
    assert_eq!(out.fatal, None);
    assert_eq!(out.spans[0].tid, 77);
    // the eager process name wins over the thread name
    assert_eq!(out.spans[0].name, b"Process".to_vec());
}

#[test]
fn reregistration_clears_the_stack() {
    let packets = vec![
        descriptor(1, None, None, None),
        mono_event(1, 1, EventKind::SliceBegin, Some("oldwork")),
        descriptor(1, None, None, None),
        mono_event(1, 2, EventKind::SliceEnd, None),
    ];
    let out = convert_trace(&packets);
    assert_eq!(out.fatal, None);
    assert_eq!(out.spans.len(), 0);
    assert_eq!(out.diags, vec![Diag::MissingStart]);
}

#[test]
fn interned_names_resolve_labels() {
    let mut event = packet(PacketData::Event(TrackEventRec {
        track_uuid: Some(1),
        kind: EventKind::Instant,
        label: Some(LabelRef::Interned(9)),
        legacy_phase: None,
    }));
    event.timestamp = Some(5);
    event.timestamp_clock_id = Some(3);
    event.interned_names = vec![InternedName { iid: 9, name: b"decode frame".to_vec() }];
    let packets = vec![descriptor(1, None, None, None), event];
    let out = convert_trace(&packets);
    assert_eq!(out.fatal, None);
    assert_eq!(out.spans[0].label, b"decode frame".to_vec());
    assert_eq!(out.spans[0].name, b"decode".to_vec());
}

#[test]
fn unknown_interned_name_is_fatal() {
    let mut event = packet(PacketData::Event(TrackEventRec {
        track_uuid: Some(1),
        kind: EventKind::Instant,
        label: Some(LabelRef::Interned(9)),
        legacy_phase: None,
    }));
    event.timestamp = Some(5);
    event.timestamp_clock_id = Some(3);
    let packets = vec![descriptor(1, None, None, None), event];
    let out = convert_trace(&packets);
    assert_eq!(out.fatal, Some(Fatal::UnknownNameRef(9)));
}

#[test]
fn unregistered_track_is_fatal() {
    let packets = vec![mono_event(1, 5, EventKind::Instant, Some("orphan event"))];
    let out = convert_trace(&packets);
    assert_eq!(out.fatal, Some(Fatal::UnknownTrack(1)));
}

#[test]
fn begin_without_label_is_fatal() {
    let packets = vec![
        descriptor(1, None, None, None),
        mono_event(1, 5, EventKind::SliceBegin, None),
    ];
    let out = convert_trace(&packets);
    assert_eq!(out.fatal, Some(Fatal::MissingLabel));
}

#[test]
fn blank_label_cannot_name_a_track() {
    let packets = vec![
        descriptor(1, None, None, None),
        mono_event(1, 5, EventKind::SliceBegin, Some("   ")),
    ];
    let out = convert_trace(&packets);
    assert_eq!(out.fatal, Some(Fatal::BlankLabel));
}

#[test]
fn boot_clock_event_is_fatal() {
    let mut event = mono_event(1, 5, EventKind::Instant, Some("beat"));
    event.timestamp_clock_id = Some(6);
    let packets = vec![descriptor(1, None, None, None), event];
    let out = convert_trace(&packets);
    assert_eq!(out.fatal, Some(Fatal::UnexpectedClock(6)));
}

#[test]
fn bad_default_clock_is_fatal() {
    let mut p = packet(PacketData::Other);
    p.defaults = Some(StreamDefaults { timestamp_clock_id: Some(63), track_uuid: None });
    let out = convert_trace(&vec![p]);
    assert_eq!(out.fatal, Some(Fatal::BadDefaultClock(63)));
}

#[test]
fn delta_clock_accumulates_deltas() {
    let mut defaults = packet(PacketData::Other);
    defaults.defaults = Some(StreamDefaults { timestamp_clock_id: Some(64), track_uuid: None });
    let mut e1 = mono_event(1, 100, EventKind::SliceBegin, Some("chunk one"));
    e1.timestamp_clock_id = None;
    let mut e2 = mono_event(1, 25, EventKind::SliceEnd, None);
    e2.timestamp_clock_id = None;
    let packets = vec![descriptor(1, None, None, None), defaults, e1, e2];
    let out = convert_trace(&packets);
    assert_eq!(out.fatal, None);
    assert_eq!(out.spans.len(), 1);
    assert_eq!(out.spans[0].start, 100);
    assert_eq!(out.spans[0].end, 125);
}

#[test]
fn snapshot_reanchors_the_delta_clock() {
    let mut defaults = packet(PacketData::Other);
    defaults.defaults = Some(StreamDefaults { timestamp_clock_id: Some(64), track_uuid: None });
    let mut e1 = mono_event(1, 10, EventKind::Instant, Some("before snap"));
    e1.timestamp_clock_id = None;
    let snap = snapshot(vec![(64, 5000, true)]);
    let mut e2 = mono_event(1, 3, EventKind::Instant, Some("after snap"));
    e2.timestamp_clock_id = None;
    let packets = vec![descriptor(1, None, None, None), defaults, e1, snap, e2];
    let out = convert_trace(&packets);
    assert_eq!(out.fatal, None);
    assert_eq!(out.spans[0].start, 10);
    assert_eq!(out.spans[1].start, 5003);
}

#[test]
fn non_incremental_delta_entry_is_fatal() {
    let packets = vec![snapshot(vec![(64, 5000, false)])];
    let out = convert_trace(&packets);
    assert_eq!(out.fatal, Some(Fatal::NotIncremental));
}

#[test]
fn large_boot_mono_skew_is_fatal() {
    let packets = vec![snapshot(vec![(6, 1000, false), (3, 2500, false)])];
    let out = convert_trace(&packets);
    assert_eq!(out.fatal, Some(Fatal::SnapshotSkew));
}

#[test]
fn small_skew_gives_zero_offset_and_negative_shift_is_kept() {
    // boot barely behind mono: offset 0; then boot well ahead: offset 3000
    let packets = vec![
        snapshot(vec![(6, 900, false), (3, 1000, false)]),
        snapshot(vec![(6, 5000, false), (3, 2000, false)]),
        packet(PacketData::Prints(vec![
            print_rec(7, 100, "B|42|render\n"),
            print_rec(7, 250, "E|42|render\n"),
        ])),
    ];
    let out = convert_trace(&packets);
    assert_eq!(out.fatal, None);
    assert_eq!(out.print_spans.len(), 1);
    assert_eq!(out.print_spans[0].pid, 7);
    assert_eq!(out.print_spans[0].start, 100 - 3000);
    assert_eq!(out.print_spans[0].end, 250 - 3000);
    assert_eq!(out.print_spans[0].msg, b"render".to_vec());
}

#[test]
fn first_snapshot_alone_gives_zero_offset() {
    let packets = vec![
        snapshot(vec![(6, 900, false), (3, 1000, false)]),
        packet(PacketData::Prints(vec![
            print_rec(7, 100, "B|42|render\n"),
            print_rec(7, 250, "E|42|render\n"),
        ])),
    ];
    let out = convert_trace(&packets);
    assert_eq!(out.fatal, None);
    assert_eq!(out.print_spans[0].start, 100);
    assert_eq!(out.print_spans[0].end, 250);
}

#[test]
fn print_replay_sorts_by_raw_timestamp() {
    // delivered out of order: the end arrives before its begin
    let packets = vec![packet(PacketData::Prints(vec![
        print_rec(7, 250, "E|42|x\n"),
        print_rec(7, 100, "B|42|render\n"),
    ]))];
    let out = convert_trace(&packets);
    assert_eq!(out.fatal, None);
    assert_eq!(out.print_spans.len(), 1);
    assert_eq!(out.print_spans[0].start, 100);
    assert_eq!(out.print_spans[0].end, 250);
    assert_eq!(out.print_spans[0].msg, b"render".to_vec());
}

#[test]
fn shuffled_prints_replay_identically() {
    let a = vec![
        print_rec(7, 100, "B|42|outer\n"),
        print_rec(7, 150, "B|42|inner\n"),
        print_rec(8, 170, "B|42|other\n"),
        print_rec(7, 200, "E|42|x\n"),
        print_rec(8, 210, "E|42|x\n"),
        print_rec(7, 300, "E|42|x\n"),
    ];
    let mut b = a.clone();
    b.swap(0, 5);
    b.swap(1, 3);
    b.swap(2, 4);
    let out_a = convert_trace(&vec![packet(PacketData::Prints(a))]);
    let out_b = convert_trace(&vec![packet(PacketData::Prints(b))]);
    assert_eq!(out_a.fatal, None);
    assert_eq!(out_a.print_spans, out_b.print_spans);
    assert_eq!(out_a.diags, out_b.diags);
    assert_eq!(out_a.print_spans.len(), 3);
}

#[test]
fn print_end_without_begin_reports_diagnostic() {
    let packets = vec![packet(PacketData::Prints(vec![print_rec(7, 9, "E|42|x\n")]))];
    let out = convert_trace(&packets);
    assert_eq!(out.fatal, None);
    assert_eq!(out.print_spans.len(), 0);
    assert_eq!(out.diags, vec![Diag::MissingPrintStart(9)]);
}

#[test]
fn malformed_print_is_fatal_but_keeps_spans() {
    let packets = vec![
        descriptor(1, None, None, None),
        mono_event(1, 1, EventKind::Instant, Some("kept span")),
        packet(PacketData::Prints(vec![print_rec(7, 9, "nopipes\n")])),
    ];
    let out = convert_trace(&packets);
    assert_eq!(out.fatal, Some(Fatal::MalformedPrint));
    assert_eq!(out.spans.len(), 1);
    assert_eq!(out.print_spans.len(), 0);
}

#[test]
fn unparsable_print_group_id_is_fatal() {
    let packets = vec![packet(PacketData::Prints(vec![print_rec(7, 9, "B|abc|msg\n")]))];
    let out = convert_trace(&packets);
    assert_eq!(out.fatal, Some(Fatal::MalformedPrint));
}

#[test]
fn other_print_phases_are_ignored() {
    let packets = vec![packet(PacketData::Prints(vec![print_rec(7, 9, "C|42|counter\n")]))];
    let out = convert_trace(&packets);
    assert_eq!(out.fatal, None);
    assert_eq!(out.print_spans.len(), 0);
    assert_eq!(out.diags.len(), 0);
}

#[test]
fn legacy_phases_drive_the_stack() {
    let mk = |ts: u64, phase: u8, label: Option<&str>| {
        let mut p = packet(PacketData::Event(TrackEventRec {
            track_uuid: Some(1),
            kind: EventKind::Unspecified,
            label: label.map(|l| LabelRef::Inline(l.as_bytes().to_vec())),
            legacy_phase: Some(phase),
        }));
        p.timestamp = Some(ts);
        p.timestamp_clock_id = Some(3);
        p
    };
    let packets = vec![
        descriptor(1, None, None, None),
        mk(1, b'b', Some("legacy span")),
        mk(2, b'n', Some("legacy instant")),
        mk(3, b'e', None),
        mk(4, b'q', Some("ignored phase")),
    ];
    let out = convert_trace(&packets);
    assert_eq!(out.fatal, None);
    assert_eq!(out.spans.len(), 2);
    assert_eq!(out.spans[0].start, 2);
    assert_eq!(out.spans[0].end, 2);
    assert_eq!(out.spans[0].label, b"legacy instant".to_vec());
    // the legacy begin does not set the name, the emission does
    assert_eq!(out.spans[1].name, b"legacy".to_vec());
    assert_eq!(out.spans[1].start, 1);
    assert_eq!(out.spans[1].end, 3);
    assert_eq!(out.spans[1].label, b"legacy span".to_vec());
}

#[test]
fn trailing_unmatched_begins_are_dropped() {
    let packets = vec![packet(PacketData::Prints(vec![print_rec(7, 9, "B|42|never ends\n")]))];
    let out = convert_trace(&packets);
    assert_eq!(out.fatal, None);
    assert_eq!(out.print_spans.len(), 0);
    assert_eq!(out.diags.len(), 0);
}

#[test]
fn events_without_timestamps_are_skipped() {
    let mut event = mono_event(1, 0, EventKind::SliceBegin, Some("no time"));
    event.timestamp = None;
    let packets = vec![descriptor(1, None, None, None), event];
    let out = convert_trace(&packets);
    assert_eq!(out.fatal, None);
    assert_eq!(out.spans.len(), 0);
    assert_eq!(out.diags.len(), 0);
}

#[test]
fn reinterned_names_take_the_latest_entry() {
    let mut first = packet(PacketData::Event(TrackEventRec {
        track_uuid: Some(1),
        kind: EventKind::Instant,
        label: Some(LabelRef::Interned(9)),
        legacy_phase: None,
    }));
    first.timestamp = Some(5);
    first.timestamp_clock_id = Some(3);
    first.interned_names = vec![InternedName { iid: 9, name: b"early name".to_vec() }];
    let mut second = first.clone();
    second.timestamp = Some(6);
    second.interned_names = vec![InternedName { iid: 9, name: b"late name".to_vec() }];
    let packets = vec![descriptor(1, None, None, None), first, second];
    let out = convert_trace(&packets);
    assert_eq!(out.fatal, None);
    assert_eq!(out.spans[0].label, b"early name".to_vec());
    assert_eq!(out.spans[1].label, b"late name".to_vec());
}

#[test]
fn defaults_on_a_packet_apply_to_its_own_event() {
    let mut event = mono_event(1, 4, EventKind::Instant, Some("beat"));
    if let Some(PacketData::Event(ref mut ev)) = event.data {
        ev.track_uuid = None;
    }
    event.defaults = Some(StreamDefaults { timestamp_clock_id: None, track_uuid: Some(1) });
    let packets = vec![descriptor(1, None, Some(3), None), event];
    let out = convert_trace(&packets);
    assert_eq!(out.fatal, None);
    assert_eq!(out.spans.len(), 1);
    assert_eq!(out.spans[0].tid, 3);
}

#[test]
fn equal_print_timestamps_keep_arrival_order() {
    // the sort is stable: the two begins at time 100 keep their order, so
    // the ends close them last-in-first-out
    let packets = vec![packet(PacketData::Prints(vec![
        print_rec(7, 100, "B|1|first\n"),
        print_rec(7, 100, "B|1|second\n"),
        print_rec(7, 200, "E|1|x\n"),
        print_rec(7, 200, "E|1|x\n"),
    ]))];
    let out = convert_trace(&packets);
    assert_eq!(out.fatal, None);
    assert_eq!(out.print_spans.len(), 2);
    assert_eq!(out.print_spans[0].msg, b"second".to_vec());
    assert_eq!(out.print_spans[1].msg, b"first".to_vec());
}
