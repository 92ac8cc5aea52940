//! The decoded packet records the engine consumes and the span records it
//! emits, together with their ghost views. An outside decoder turns the
//! captured byte stream into these plain values; the engine never sees the
//! wire format itself. Labels, names and message bodies are byte strings.
use vstd::prelude::*;

verus! {

/// A fatal data-integrity violation: the conversion stops, since going on
/// would produce a mistimed or mislabeled timeline.
#[derive(Clone, Copy, Debug, PartialEq, Eq, Structural)]
pub enum Fatal {
    /// The stream defaults declared a timestamp clock other than the
    /// delta-encoded domain.
    BadDefaultClock(u32),
    /// An event timestamp arrived in a clock domain the engine cannot
    /// resolve.
    UnexpectedClock(u32),
    /// An event carried track id zero but its packet had no trusted
    /// process id to fall back on.
    NoTrustedPid,
    /// An event carried track id zero and no parentless track matches the
    /// packet's trusted process id.
    MissingTrustedTrack(i32),
    /// An event referred to a track uuid that was never registered.
    UnknownTrack(u64),
    /// An event's label referred to an interned name id not in the table.
    UnknownNameRef(u64),
    /// A begin or instant event carried no label at all.
    MissingLabel,
    /// A track name had to be derived from a label with no token in it.
    BlankLabel,
    /// A clock snapshot's delta-domain entry was not marked incremental.
    NotIncremental,
    /// A snapshot put the boot clock behind the monotonic clock by 1000
    /// time units or more.
    SnapshotSkew,
    /// A print event's body had no phase character, no process-group id,
    /// or lacked the message its phase requires.
    MalformedPrint,
}

/// A non-fatal diagnostic: the orphan event is dropped and conversion
/// goes on.
#[derive(Clone, Copy, Debug, PartialEq, Eq, Structural)]
pub enum Diag {
    /// A structured end event found its track's span stack empty.
    MissingStart,
    /// A print end event (at the given raw timestamp) found its process's
    /// span stack empty.
    MissingPrintStart(u64),
}

/// One clock's reading inside a cross-domain snapshot.
#[derive(Clone, Copy, Debug)]
pub struct ClockReading {
    pub clock_id: u32,
    pub timestamp: u64,
    pub is_incremental: bool,
}

/// A track-descriptor record: identity, optional parent, and the process
/// or thread ids it declares.
#[derive(Clone, Copy, Debug)]
pub struct TrackDesc {
    pub uuid: u64,
    pub parent_uuid: Option<u64>,
    pub pid: Option<i32>,
    pub tid: Option<i32>,
}

/// A structured event's label: written out in the event itself, or a
/// reference into the interned-name table.
#[derive(Clone, Debug)]
pub enum LabelRef {
    Inline(Vec<u8>),
    Interned(u64),
}

pub ghost enum LabelView {
    Inline(Seq<u8>),
    Interned(u64),
}

impl View for LabelRef {
    type V = LabelView;

    open spec fn view(&self) -> LabelView {
        match self {
            LabelRef::Inline(v) => LabelView::Inline(v@),
            LabelRef::Interned(iid) => LabelView::Interned(*iid),
        }
    }
}

/// The kind of a structured track event.
#[derive(Clone, Copy, Debug, PartialEq, Eq, Structural)]
pub enum EventKind {
    SliceBegin,
    SliceEnd,
    Instant,
    /// No recognized kind; such an event may still carry a legacy phase
    /// code.
    Unspecified,
    /// Any other kind; the engine ignores it.
    Other,
}

/// A structured track event.
#[derive(Clone, Debug)]
pub struct TrackEventRec {
    /// The declared track uuid; `None` when the event carries no track
    /// field at all.
    pub track_uuid: Option<u64>,
    pub kind: EventKind,
    pub label: Option<LabelRef>,
    /// The legacy phase code, when the event wraps a legacy record.
    pub legacy_phase: Option<u8>,
}

pub ghost struct EventView {
    pub track_uuid: Option<u64>,
    pub kind: EventKind,
    pub label: Option<LabelView>,
    pub legacy_phase: Option<u8>,
}

impl View for TrackEventRec {
    type V = EventView;

    open spec fn view(&self) -> EventView {
        EventView {
            track_uuid: self.track_uuid,
            kind: self.kind,
            label: match self.label {
                Option::Some(l) => Option::Some(l@),
                Option::None => Option::None,
            },
            legacy_phase: self.legacy_phase,
        }
    }
}

/// A buffered print event from the legacy kernel-trace path: its process
/// id, raw (uncorrected) timestamp, and message body.
#[derive(Clone, Debug)]
pub struct PrintRec {
    pub pid: i32,
    pub timestamp: u64,
    pub buf: Vec<u8>,
}

pub ghost struct PrintView {
    pub pid: i32,
    pub timestamp: u64,
    pub buf: Seq<u8>,
}

impl View for PrintRec {
    type V = PrintView;

    open spec fn view(&self) -> PrintView {
        PrintView { pid: self.pid, timestamp: self.timestamp, buf: self.buf@ }
    }
}

/// One entry of an interned-name record: a small id standing for a full
/// label.
#[derive(Clone, Debug)]
pub struct InternedName {
    pub iid: u64,
    pub name: Vec<u8>,
}

impl View for InternedName {
    type V = (u64, Seq<u8>);

    open spec fn view(&self) -> (u64, Seq<u8>) {
        (self.iid, self.name@)
    }
}

/// Stream-wide defaults declared once per logical segment: a default
/// timestamp clock domain and a default track.
#[derive(Clone, Copy, Debug)]
pub struct StreamDefaults {
    pub timestamp_clock_id: Option<u32>,
    pub track_uuid: Option<u64>,
}

/// A packet's payload.
#[derive(Clone, Debug)]
pub enum PacketData {
    /// Parallel readings from several clock domains.
    Snapshot(Vec<ClockReading>),
    /// A batch of legacy print events.
    Prints(Vec<PrintRec>),
    /// A track descriptor.
    Descriptor(TrackDesc),
    /// A structured track event.
    Event(TrackEventRec),
    /// A payload kind the engine ignores.
    Other,
}

pub ghost enum DataView {
    Snapshot(Seq<ClockReading>),
    Prints(Seq<PrintView>),
    Descriptor(TrackDesc),
    Event(EventView),
    Other,
}

impl View for PacketData {
    type V = DataView;

    open spec fn view(&self) -> DataView {
        match self {
            PacketData::Snapshot(v) => DataView::Snapshot(v@),
            PacketData::Prints(v) => DataView::Prints(v@.map_values(|p: PrintRec| p@)),
            PacketData::Descriptor(d) => DataView::Descriptor(*d),
            PacketData::Event(e) => DataView::Event(e@),
            PacketData::Other => DataView::Other,
        }
    }
}

/// One decoded packet of the stream.
#[derive(Clone, Debug)]
pub struct PacketRec {
    pub timestamp: Option<u64>,
    pub timestamp_clock_id: Option<u32>,
    /// The process id the capturing agent asserts for this packet.
    pub trusted_pid: Option<i32>,
    pub defaults: Option<StreamDefaults>,
    /// Interned-name entries carried alongside the payload.
    pub interned_names: Vec<InternedName>,
    pub data: Option<PacketData>,
}

pub ghost struct PacketView {
    pub timestamp: Option<u64>,
    pub timestamp_clock_id: Option<u32>,
    pub trusted_pid: Option<i32>,
    pub defaults: Option<StreamDefaults>,
    pub interned_names: Seq<(u64, Seq<u8>)>,
    pub data: Option<DataView>,
}

impl View for PacketRec {
    type V = PacketView;

    open spec fn view(&self) -> PacketView {
        PacketView {
            timestamp: self.timestamp,
            timestamp_clock_id: self.timestamp_clock_id,
            trusted_pid: self.trusted_pid,
            defaults: self.defaults,
            interned_names: self.interned_names@.map_values(|n: InternedName| n@),
            data: match &self.data {
                Option::Some(d) => Option::Some(d@),
                Option::None => Option::None,
            },
        }
    }
}

/// A completed span or instant from the structured path:
/// `start == end` denotes an instant.
#[derive(Clone, Debug, PartialEq, Eq)]
pub struct SpanOut {
    pub tid: i32,
    pub name: Vec<u8>,
    pub start: u64,
    pub end: u64,
    pub label: Vec<u8>,
}

pub ghost struct SpanView {
    pub tid: i32,
    pub name: Seq<u8>,
    pub start: u64,
    pub end: u64,
    pub label: Seq<u8>,
}

impl View for SpanOut {
    type V = SpanView;

    open spec fn view(&self) -> SpanView {
        SpanView {
            tid: self.tid,
            name: self.name@,
            start: self.start,
            end: self.end,
            label: self.label@,
        }
    }
}

/// A completed span from the legacy print path. Its times carry the
/// boot-to-monotonic correction already applied and may be negative; they
/// must not be clamped.
#[derive(Clone, Debug, PartialEq, Eq)]
pub struct PrintOut {
    pub pid: i32,
    pub start: i128,
    pub end: i128,
    pub msg: Vec<u8>,
}

pub ghost struct PrintOutView {
    pub pid: i32,
    pub start: i128,
    pub end: i128,
    pub msg: Seq<u8>,
}

impl View for PrintOut {
    type V = PrintOutView;

    open spec fn view(&self) -> PrintOutView {
        PrintOutView { pid: self.pid, start: self.start, end: self.end, msg: self.msg@ }
    }
}

} // verus!
