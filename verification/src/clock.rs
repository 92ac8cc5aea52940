//! The clock synchronizer: it reconciles the boot, monotonic and
//! delta-encoded clock domains into one common timeline, and keeps the
//! stream-wide defaults (timestamp clock and track) that packets inherit.
use vstd::prelude::*;

use crate::events::ClockReading;
use crate::events::Fatal;
use crate::events::StreamDefaults;

verus! {

/// The boot-domain clock id, the system fallback for packets that declare
/// no clock domain at all.
pub const BOOT_CLOCK: u32 = 6;

/// The monotonic absolute-domain clock id.
pub const MONO_CLOCK: u32 = 3;

/// The delta-encoded clock id: its packets carry increments to be
/// accumulated, re-anchored by snapshots.
pub const DELTA_CLOCK: u32 = 64;

/// The largest boot-behind-monotonic gap treated as measurement noise.
pub const SKEW_BOUND: u64 = 1000;

/// Process-wide clock state, constructed fresh per trace conversion.
#[derive(Clone, Copy, Debug, PartialEq, Eq, Structural)]
pub struct ClockState {
    /// Default timestamp clock id declared by stream defaults, if any.
    pub default_clock: Option<u32>,
    /// Default track uuid declared by stream defaults.
    pub default_track: u64,
    /// Most recent boot-domain snapshot reading (0 when none yet).
    pub boot_time: u64,
    /// Most recent monotonic-domain snapshot reading (0 when none yet).
    pub mono_time: u64,
    /// Correction subtracted from boot-domain timestamps to reach the
    /// common timeline.
    pub offset: u64,
    /// Accumulator for the delta-encoded domain.
    pub running: u64,
}

/// Addition modulo 2^64, as the accumulator wraps.
pub open spec fn wrap_add64(a: u64, b: u64) -> u64 {
    if a + b > u64::MAX {
        (a + b - 0x1_0000_0000_0000_0000) as u64
    } else {
        (a + b) as u64
    }
}

/// Subtraction modulo 2^64.
pub open spec fn wrap_sub64(a: u64, b: u64) -> u64 {
    if a - b < 0 {
        (a - b + 0x1_0000_0000_0000_0000) as u64
    } else {
        (a - b) as u64
    }
}

/// The clock domain governing a packet: its own id when declared, else
/// the stream default, else the boot domain.
pub open spec fn effective_clock(c: ClockState, explicit: Option<u32>) -> u32 {
    match explicit {
        Option::Some(x) => x,
        Option::None => match c.default_clock {
            Option::Some(d) => d,
            Option::None => BOOT_CLOCK,
        },
    }
}

/// What recording stream defaults does: a default clock other than the
/// delta-encoded domain is a validation failure; otherwise the declared
/// defaults are stored.
pub open spec fn defaults_spec(c: ClockState, d: StreamDefaults) -> Result<ClockState, Fatal> {
    match d.timestamp_clock_id {
        Option::Some(cid) => if cid != DELTA_CLOCK {
            Result::Err(Fatal::BadDefaultClock(cid))
        } else {
            Result::Ok(track_default_applied(ClockState { default_clock: Option::Some(cid), ..c }, d))
        },
        Option::None => Result::Ok(track_default_applied(c, d)),
    }
}

pub open spec fn track_default_applied(c: ClockState, d: StreamDefaults) -> ClockState {
    match d.track_uuid {
        Option::Some(u) => ClockState { default_track: u, ..c },
        Option::None => c,
    }
}

/// What noting a packet timestamp does to the accumulator: a packet in
/// the delta-encoded domain advances it; any other domain leaves it
/// alone.
pub open spec fn note_spec(c: ClockState, ts: u64, explicit: Option<u32>) -> ClockState {
    if effective_clock(c, explicit) == DELTA_CLOCK {
        ClockState { running: wrap_add64(c.running, ts), ..c }
    } else {
        c
    }
}

/// The common time of an event timestamp, after the accumulator has been
/// advanced: the accumulator itself in the delta-encoded domain, the raw
/// value in the monotonic domain, and a fatal error in any other.
pub open spec fn reading_spec(c: ClockState, ts: u64, explicit: Option<u32>) -> Result<u64, Fatal> {
    let eff = effective_clock(c, explicit);
    if eff == DELTA_CLOCK {
        Result::Ok(c.running)
    } else if eff == MONO_CLOCK {
        Result::Ok(ts)
    } else {
        Result::Err(Fatal::UnexpectedClock(eff))
    }
}

/// What one snapshot entry does: boot and monotonic readings are
/// recorded; a delta-domain entry must be incremental and re-anchors the
/// accumulator, first undoing the boot-to-monotonic correction when the
/// reading was stamped with the raw boot value; other domains are
/// ignored.
pub open spec fn snap_entry(c: ClockState, e: ClockReading) -> Result<ClockState, Fatal> {
    if e.clock_id == BOOT_CLOCK {
        Result::Ok(ClockState { boot_time: e.timestamp, ..c })
    } else if e.clock_id == MONO_CLOCK {
        Result::Ok(ClockState { mono_time: e.timestamp, ..c })
    } else if e.clock_id == DELTA_CLOCK {
        if !e.is_incremental {
            Result::Err(Fatal::NotIncremental)
        } else {
            let v = if e.timestamp == c.boot_time {
                wrap_sub64(e.timestamp, c.offset)
            } else {
                e.timestamp
            };
            Result::Ok(ClockState { running: v, ..c })
        }
    } else {
        Result::Ok(c)
    }
}

/// The snapshot entries applied in order, stopping at the first failure.
pub open spec fn snap_fold(c: ClockState, s: Seq<ClockReading>) -> Result<ClockState, Fatal>
    decreases s.len(),
{
    if s.len() == 0 {
        Result::Ok(c)
    } else {
        match snap_fold(c, s.drop_last()) {
            Result::Err(e) => Result::Err(e),
            Result::Ok(c2) => snap_entry(c2, s.last()),
        }
    }
}

/// The offset recomputation after a snapshot: once both boot and
/// monotonic readings are known and non-zero, a boot reading slightly
/// behind the monotonic one is measurement noise and the offset becomes
/// zero — a gap of `SKEW_BOUND` or more is fatal; otherwise the offset is
/// their difference.
pub open spec fn snap_finish(c: ClockState) -> Result<ClockState, Fatal> {
    if c.boot_time != 0 && c.mono_time != 0 {
        if c.boot_time < c.mono_time {
            if c.mono_time - c.boot_time < SKEW_BOUND {
                Result::Ok(ClockState { offset: 0, ..c })
            } else {
                Result::Err(Fatal::SnapshotSkew)
            }
        } else {
            Result::Ok(ClockState { offset: (c.boot_time - c.mono_time) as u64, ..c })
        }
    } else {
        Result::Ok(c)
    }
}

/// What observing a whole clock snapshot does.
pub open spec fn observe_spec(c: ClockState, s: Seq<ClockReading>) -> Result<ClockState, Fatal> {
    match snap_fold(c, s) {
        Result::Err(e) => Result::Err(e),
        Result::Ok(c2) => snap_finish(c2),
    }
}

proof fn lemma_fold_err_extends(c: ClockState, s: Seq<ClockReading>, i: int)
    requires
        0 <= i <= s.len(),
        snap_fold(c, s.subrange(0, i)) is Err,
    ensures
        snap_fold(c, s) == snap_fold(c, s.subrange(0, i)),
    decreases s.len() - i,
{
    if i == s.len() {
        assert(s.subrange(0, i) =~= s);
    } else {
        assert(s.drop_last().subrange(0, i) =~= s.subrange(0, i));
        lemma_fold_err_extends(c, s.drop_last(), i);
    }
}

impl ClockState {
    /// Fresh clock state: no defaults, all clocks at zero.
    pub fn new() -> (c: ClockState)
        ensures
            c == (ClockState {
                default_clock: Option::None,
                default_track: 0u64,
                boot_time: 0u64,
                mono_time: 0u64,
                offset: 0u64,
                running: 0u64,
            }),
    {
        ClockState {
            default_clock: None,
            default_track: 0,
            boot_time: 0,
            mono_time: 0,
            offset: 0,
            running: 0,
        }
    }

    /// Records stream-wide defaults; fails, leaving the state unchanged,
    /// when a clock other than the delta-encoded domain is declared as
    /// the default.
    pub fn apply_defaults(&mut self, d: &StreamDefaults) -> (r: Result<(), Fatal>)
        ensures
            match defaults_spec(*old(self), *d) {
                Result::Ok(c2) => r is Ok && *final(self) == c2,
                Result::Err(e) => r == Result::Err::<(), Fatal>(e) && *final(self) == *old(self),
            },
    {
        if let Some(cid) = d.timestamp_clock_id {
            if cid != DELTA_CLOCK {
                return Err(Fatal::BadDefaultClock(cid));
            }
            self.default_clock = Some(cid);
        }
        if let Some(u) = d.track_uuid {
            self.default_track = u;
        }
        Ok(())
    }

    /// Advances the accumulator for a packet timestamp in the
    /// delta-encoded domain; timestamps of other domains leave the state
    /// unchanged.
    pub fn note_timestamp(&mut self, ts: u64, explicit: Option<u32>)
        ensures
            *final(self) == note_spec(*old(self), ts, explicit),
    {
        let eff = self.effective(explicit);
        if eff == DELTA_CLOCK {
            self.running = self.running.wrapping_add(ts);
        }
    }

    /// Resolves an event timestamp to common time, after the packet-level
    /// advance has already been applied.
    pub fn resolve_reading(&self, ts: u64, explicit: Option<u32>) -> (r: Result<u64, Fatal>)
        ensures
            r == reading_spec(*self, ts, explicit),
    {
        let eff = self.effective(explicit);
        if eff == DELTA_CLOCK {
            Ok(self.running)
        } else if eff == MONO_CLOCK {
            Ok(ts)
        } else {
            Err(Fatal::UnexpectedClock(eff))
        }
    }

    fn effective(&self, explicit: Option<u32>) -> (r: u32)
        ensures
            r == effective_clock(*self, explicit),
    {
        match explicit {
            Some(x) => x,
            None => match self.default_clock {
                Some(d) => d,
                None => BOOT_CLOCK,
            },
        }
    }

    /// Observes a cross-domain snapshot: records its readings, re-anchors
    /// the accumulator, and recomputes the boot-to-monotonic offset. On
    /// failure the state is left unchanged.
    pub fn observe_snapshot(&mut self, entries: &Vec<ClockReading>) -> (r: Result<(), Fatal>)
        ensures
            match observe_spec(*old(self), entries@) {
                Result::Ok(c2) => r is Ok && *final(self) == c2,
                Result::Err(e) => r == Result::Err::<(), Fatal>(e) && *final(self) == *old(self),
            },
    {
        let ghost c0 = *self;
        let mut cur = *self;
        let n = entries.len();
        let mut i: usize = 0;
        while i < n
            invariant
                0 <= i <= n,
                n == entries@.len(),
                *self == c0,
                snap_fold(c0, entries@.subrange(0, i as int)) == Result::Ok::<ClockState, Fatal>(cur),
            decreases n - i,
        {
            let e = entries[i];
            proof {
                assert(entries@.subrange(0, i as int + 1).drop_last() =~= entries@.subrange(
                    0,
                    i as int,
                ));
                assert(entries@.subrange(0, i as int + 1).last() == entries@[i as int]);
            }
            if e.clock_id == BOOT_CLOCK {
                cur.boot_time = e.timestamp;
            } else if e.clock_id == MONO_CLOCK {
                cur.mono_time = e.timestamp;
            } else if e.clock_id == DELTA_CLOCK {
                if !e.is_incremental {
                    proof {
                        assert(snap_fold(c0, entries@.subrange(0, i as int + 1))
                            == Result::Err::<ClockState, Fatal>(Fatal::NotIncremental));
                        lemma_fold_err_extends(c0, entries@, i as int + 1);
                    }
                    return Err(Fatal::NotIncremental);
                }
                cur.running = if e.timestamp == cur.boot_time {
                    e.timestamp.wrapping_sub(cur.offset)
                } else {
                    e.timestamp
                };
            }
            i = i + 1;
        }
        proof {
            assert(entries@.subrange(0, n as int) =~= entries@);
        }
        if cur.boot_time != 0 && cur.mono_time != 0 {
            if cur.boot_time < cur.mono_time {
                if cur.mono_time - cur.boot_time < SKEW_BOUND {
                    cur.offset = 0;
                } else {
                    return Err(Fatal::SnapshotSkew);
                }
            } else {
                cur.offset = cur.boot_time - cur.mono_time;
            }
        }
        *self = cur;
        Ok(())
    }
}

} // verus!
