//! The track registry: execution tracks, their identity and hierarchy,
//! display-id inheritance, lazily frozen names, and the open-span stack
//! each track carries.
use vstd::prelude::*;

use crate::events::Fatal;
use crate::events::TrackDesc;
use crate::text::first_token;
use crate::text::has_token;
use crate::text::take_first_token;

verus! {

/// One execution track: process, thread, or virtual grouping.
#[derive(Clone, Debug)]
pub struct Track {
    /// Identifier assigned by the capture source, stable for the trace.
    pub uuid: u64,
    /// Integer display id (process or thread id) used for output and for
    /// trusted-process correlation.
    pub tid: i32,
    pub has_parent: bool,
    /// Write-once display name: set eagerly for processes and threads,
    /// else derived from the first event label seen and then frozen.
    pub name: Option<Vec<u8>>,
    /// Stack of open spans: `(start_time, label)`, last in first out.
    pub open_spans: Vec<(u64, Vec<u8>)>,
}

#[verifier::ext_equal]
pub ghost struct TrackView {
    pub uuid: u64,
    pub tid: i32,
    pub has_parent: bool,
    pub name: Option<Seq<u8>>,
    pub open_spans: Seq<(u64, Seq<u8>)>,
}

impl View for Track {
    type V = TrackView;

    open spec fn view(&self) -> TrackView {
        TrackView {
            uuid: self.uuid,
            tid: self.tid,
            has_parent: self.has_parent,
            name: match self.name {
                Option::Some(n) => Option::Some(n@),
                Option::None => Option::None,
            },
            open_spans: self.open_spans@.map_values(|p: (u64, Vec<u8>)| (p.0, p.1@)),
        }
    }
}

/// The eager name of a track that declares a process id.
pub open spec fn process_name() -> Seq<u8> {
    seq![80u8, 114u8, 111u8, 99u8, 101u8, 115u8, 115u8]
}

/// The eager name of a track that declares a thread id.
pub open spec fn thread_name() -> Seq<u8> {
    seq![84u8, 104u8, 114u8, 101u8, 97u8, 100u8]
}

// "Process"
fn label_process() -> (r: Vec<u8>)
    ensures
        r@ == process_name(),
{
    let v: Vec<u8> = vec![80u8, 114u8, 111u8, 99u8, 101u8, 115u8, 115u8];
    proof {
        assert(v@ =~= process_name());
    }
    v
}

// "Thread"
fn label_thread() -> (r: Vec<u8>)
    ensures
        r@ == thread_name(),
{
    let v: Vec<u8> = vec![84u8, 104u8, 114u8, 101u8, 97u8, 100u8];
    proof {
        assert(v@ =~= thread_name());
    }
    v
}

/// Copies a byte string.
pub fn clone_bytes(v: &Vec<u8>) -> (r: Vec<u8>)
    ensures
        r@ == v@,
{
    let r = v.clone();
    proof {
        assert(r@ =~= v@);
    }
    r
}

/// The first index whose track carries `uuid`, from `i` on; the length
/// when there is none.
pub open spec fn find_from(s: Seq<TrackView>, uuid: u64, i: int) -> int
    decreases s.len() - i,
{
    if i < 0 || i >= s.len() {
        s.len() as int
    } else if s[i].uuid == uuid {
        i
    } else {
        find_from(s, uuid, i + 1)
    }
}

/// The registry index of the track carrying `uuid`, or the registry's
/// length when it is unknown.
pub open spec fn track_index(s: Seq<TrackView>, uuid: u64) -> int {
    find_from(s, uuid, 0)
}

pub proof fn lemma_find_from_bounds(s: Seq<TrackView>, uuid: u64, i: int)
    requires
        0 <= i <= s.len(),
    ensures
        i <= find_from(s, uuid, i) <= s.len(),
    decreases s.len() - i,
{
    if i < s.len() && s[i].uuid != uuid {
        lemma_find_from_bounds(s, uuid, i + 1);
    }
}

/// A track that the trusted-process fallback accepts: its display id is
/// the trusted process id and it has no parent.
pub open spec fn fallback_match(t: TrackView, pid: i32) -> bool {
    t.tid == pid && !t.has_parent
}

pub open spec fn fallback_from(s: Seq<TrackView>, pid: i32, i: int) -> int
    decreases s.len() - i,
{
    if i < 0 || i >= s.len() {
        s.len() as int
    } else if fallback_match(s[i], pid) {
        i
    } else {
        fallback_from(s, pid, i + 1)
    }
}

/// The first registry index the trusted-process fallback accepts, or the
/// registry's length when none does.
pub open spec fn fallback_index(s: Seq<TrackView>, pid: i32) -> int {
    fallback_from(s, pid, 0)
}

/// The track a descriptor registers: its display id starts as the
/// parent's (0 without one), is overridden by a declared process id, then
/// by a declared thread id; a process id names the track eagerly, else a
/// thread id does; the span stack starts fresh.
pub open spec fn new_track_spec(s: Seq<TrackView>, d: TrackDesc) -> TrackView {
    let ptid: i32 = match d.parent_uuid {
        Option::Some(p) => if track_index(s, p) < s.len() {
            s[track_index(s, p)].tid
        } else {
            0
        },
        Option::None => 0,
    };
    let tid: i32 = match d.tid {
        Option::Some(t) => t,
        Option::None => match d.pid {
            Option::Some(p) => p,
            Option::None => ptid,
        },
    };
    let name: Option<Seq<u8>> = if d.pid is Some {
        Option::Some(process_name())
    } else if d.tid is Some {
        Option::Some(thread_name())
    } else {
        Option::None
    };
    TrackView {
        uuid: d.uuid,
        tid,
        has_parent: d.parent_uuid is Some,
        name,
        open_spans: Seq::empty(),
    }
}

/// What registering a descriptor does: the new track replaces an existing
/// track with the same uuid in place, or is appended.
pub open spec fn register_spec(s: Seq<TrackView>, d: TrackDesc) -> Seq<TrackView> {
    let t = new_track_spec(s, d);
    let i = track_index(s, d.uuid);
    if i < s.len() {
        s.update(i, t)
    } else {
        s.push(t)
    }
}

/// Which track an event belongs to: a non-zero declared uuid is used
/// directly; a declared zero falls back to the parentless track matching
/// the trusted process id, failing fatally without a trusted process id
/// or without such a track; an event with no track field at all uses the
/// stream default.
pub open spec fn resolve_spec(
    s: Seq<TrackView>,
    explicit: Option<u64>,
    default_track: u64,
    trusted_pid: Option<i32>,
) -> Result<u64, Fatal> {
    match explicit {
        Option::None => Result::Ok(default_track),
        Option::Some(u) => if u != 0 {
            Result::Ok(u)
        } else {
            match trusted_pid {
                Option::None => Result::Err(Fatal::NoTrustedPid),
                Option::Some(p) => if fallback_index(s, p) < s.len() {
                    Result::Ok(s[fallback_index(s, p)].uuid)
                } else {
                    Result::Err(Fatal::MissingTrustedTrack(p))
                },
            }
        },
    }
}

/// What get-or-initialize does to a track's name: an already frozen name
/// is returned as is; otherwise the first whitespace-delimited token of
/// the label is frozen in and returned, and a label without any token is
/// a fatal error.
pub open spec fn name_init_spec(t: TrackView, label: Seq<u8>) -> Result<
    (TrackView, Seq<u8>),
    Fatal,
> {
    match t.name {
        Option::Some(n) => Result::Ok((t, n)),
        Option::None => if has_token(label) {
            Result::Ok(
                (TrackView { name: Option::Some(first_token(label)), ..t }, first_token(label)),
            )
        } else {
            Result::Err(Fatal::BlankLabel)
        },
    }
}

impl Track {
    /// Returns the track's frozen name, deriving and freezing it from
    /// `label`'s first token when it is not yet set.
    pub fn name_or_init(&mut self, label: &Vec<u8>) -> (r: Result<Vec<u8>, Fatal>)
        ensures
            match name_init_spec(old(self)@, label@) {
                Result::Ok(pair) => r matches Ok(n) && n@ == pair.1 && final(self)@ == pair.0,
                Result::Err(e) => r == Result::Err::<Vec<u8>, Fatal>(e) && final(self)@ == old(
                    self,
                )@,
            },
    {
        if let Some(n) = &self.name {
            return Ok(clone_bytes(n));
        }
        match take_first_token(label) {
            Some(tok) => {
                let out = clone_bytes(&tok);
                self.name = Some(tok);
                Ok(out)
            },
            None => Err(Fatal::BlankLabel),
        }
    }
}

/// The registry of all known tracks, in registration order, each uuid
/// held once.
pub struct TrackTable {
    pub list: Vec<Track>,
}

impl View for TrackTable {
    type V = Seq<TrackView>;

    open spec fn view(&self) -> Seq<TrackView> {
        self.list@.map_values(|t: Track| t@)
    }
}

impl TrackTable {
    pub fn new() -> (r: TrackTable)
        ensures
            r@ =~= Seq::<TrackView>::empty(),
    {
        TrackTable { list: Vec::new() }
    }

    /// The registry index holding `uuid`, if any.
    pub(crate) fn index_of(&self, uuid: u64) -> (r: Option<usize>)
        ensures
            match r {
                Option::Some(ix) => ix < self.list@.len() && ix as int == track_index(self@, uuid),
                Option::None => track_index(self@, uuid) >= self@.len(),
            },
    {
        let n = self.list.len();
        let mut j: usize = 0;
        while j < n
            invariant
                0 <= j <= n,
                n == self@.len(),
                self@.len() == self.list@.len(),
                find_from(self@, uuid, 0) == find_from(self@, uuid, j as int),
            decreases n - j,
        {
            if self.list[j].uuid == uuid {
                proof {
                    assert(self@[j as int].uuid == uuid);
                }
                return Some(j);
            }
            proof {
                assert(self@[j as int].uuid != uuid);
            }
            j = j + 1;
        }
        None
    }

    /// Registers (or re-registers) the track a descriptor describes.
    pub fn register(&mut self, d: &TrackDesc)
        ensures
            final(self)@ == register_spec(old(self)@, *d),
    {
        let mut tid: i32 = 0;
        if let Some(p) = d.parent_uuid {
            if let Some(ix) = self.index_of(p) {
                proof {
                    assert(track_index(self@, p) < self@.len());
                }
                tid = self.list[ix].tid;
            }
        }
        let mut name: Option<Vec<u8>> = None;
        if let Some(pid) = d.pid {
            tid = pid;
            name = Some(label_process());
        }
        if let Some(t) = d.tid {
            tid = t;
            if name.is_none() {
                name = Some(label_thread());
            }
        }
        let tr = Track {
            uuid: d.uuid,
            tid,
            has_parent: d.parent_uuid.is_some(),
            name,
            open_spans: Vec::new(),
        };
        let ghost expected = register_spec(self@, *d);
        proof {
            assert(tr@ =~= new_track_spec(self@, *d));
        }
        match self.index_of(d.uuid) {
            Some(i) => {
                proof {
                    assert(track_index(self@, d.uuid) < self@.len());
                }
                self.list[i] = tr;
            },
            None => {
                self.list.push(tr);
            },
        }
        proof {
            assert(final(self)@ =~= expected);
        }
    }

    /// Resolves which track an event belongs to.
    pub fn resolve(
        &self,
        explicit: Option<u64>,
        default_track: u64,
        trusted_pid: Option<i32>,
    ) -> (r: Result<u64, Fatal>)
        ensures
            r == resolve_spec(self@, explicit, default_track, trusted_pid),
    {
        let u = match explicit {
            None => {
                return Ok(default_track);
            },
            Some(u) => u,
        };
        if u != 0 {
            return Ok(u);
        }
        let p = match trusted_pid {
            None => {
                return Err(Fatal::NoTrustedPid);
            },
            Some(p) => p,
        };
        let n = self.list.len();
        let mut j: usize = 0;
        while j < n
            invariant
                0 <= j <= n,
                n == self@.len(),
                self@.len() == self.list@.len(),
                explicit == Option::Some(0u64),
                trusted_pid == Option::Some(p),
                fallback_from(self@, p, 0) == fallback_from(self@, p, j as int),
            decreases n - j,
        {
            if self.list[j].tid == p && !self.list[j].has_parent {
                proof {
                    assert(fallback_match(self@[j as int], p));
                    assert(fallback_from(self@, p, j as int) == j as int);
                    assert(fallback_index(self@, p) == j as int);
                }
                return Ok(self.list[j].uuid);
            }
            proof {
                assert(!fallback_match(self@[j as int], p));
            }
            j = j + 1;
        }
        Err(Fatal::MissingTrustedTrack(p))
    }
}

} // verus!
