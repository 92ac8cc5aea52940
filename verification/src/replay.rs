//! The legacy print-event replayer: print events buffered during the main
//! pass are stable-sorted by raw timestamp — the kernel subsystem delivers
//! them in arbitrary batch order — then replayed through per-process span
//! stacks, applying the final boot-to-monotonic correction.
use vstd::prelude::*;

use crate::events::Diag;
use crate::events::Fatal;
use crate::events::PrintOut;
use crate::events::PrintOutView;
use crate::events::PrintRec;
use crate::events::PrintView;
use crate::text::idx_of_from;
use crate::text::find_byte;
use crate::text::parse_i32;
use crate::text::parse_i32_spec;
use crate::text::slice_range;
use crate::tracks::clone_bytes;

verus! {

/// The print phase character opening a span.
pub const PHASE_PRINT_BEGIN: u8 = 66;

/// The print phase character closing a span.
pub const PHASE_PRINT_END: u8 = 69;

/// The field delimiter of a print message body.
pub const PIPE: u8 = 124;

/// What a print message body parses to: its phase character, its
/// process-group id, and its third `|`-delimited piece when present.
pub ghost struct PrintParse {
    pub phase: u8,
    pub tgid: i32,
    pub piece2: Option<Seq<u8>>,
}

/// How a print message is read, after dropping its trailing newline byte:
/// `<phase>|<group id>|<text>`. The phase is the body's first byte, the
/// group id must parse as a decimal `i32`, and a missing phase or group
/// id is fatal.
pub open spec fn parse_print(buf: Seq<u8>) -> Result<PrintParse, Fatal> {
    if buf.len() == 0 {
        Result::Err(Fatal::MalformedPrint)
    } else {
        let body = buf.drop_last();
        let i1 = idx_of_from(body, PIPE, 0);
        if i1 == 0 || i1 >= body.len() {
            Result::Err(Fatal::MalformedPrint)
        } else {
            let i2 = idx_of_from(body, PIPE, i1 + 1);
            match parse_i32_spec(body.subrange(i1 + 1, i2)) {
                Option::None => Result::Err(Fatal::MalformedPrint),
                Option::Some(tgid) => Result::Ok(
                    PrintParse {
                        phase: body[0],
                        tgid,
                        piece2: if i2 < body.len() {
                            Option::Some(body.subrange(i2 + 1, idx_of_from(body, PIPE, i2 + 1)))
                        } else {
                            Option::None
                        },
                    },
                ),
            }
        }
    }
}

fn parse_print_exec(buf: &Vec<u8>) -> (r: Result<(u8, i32, Option<Vec<u8>>), Fatal>)
    ensures
        match parse_print(buf@) {
            Result::Ok(pp) => r matches Ok(t) && t.0 == pp.phase && t.1 == pp.tgid
                && crate::engine::view_opt_bytes(t.2) == pp.piece2,
            Result::Err(e) => r == Result::Err::<(u8, i32, Option<Vec<u8>>), Fatal>(e),
        },
{
    let len = buf.len();
    if len == 0 {
        return Err(Fatal::MalformedPrint);
    }
    let body = slice_range(buf, 0, len - 1);
    proof {
        assert(body@ =~= buf@.drop_last());
    }
    let blen = body.len();
    let i1 = find_byte(&body, PIPE, 0);
    if i1 == 0 || i1 >= blen {
        return Err(Fatal::MalformedPrint);
    }
    let i2 = find_byte(&body, PIPE, i1 + 1);
    let piece1 = slice_range(&body, i1 + 1, i2);
    let tgid = match parse_i32(&piece1) {
        None => {
            return Err(Fatal::MalformedPrint);
        },
        Some(t) => t,
    };
    let phase = body[0];
    if i2 < blen {
        let i3 = find_byte(&body, PIPE, i2 + 1);
        let msg = slice_range(&body, i2 + 1, i3);
        Ok((phase, tgid, Some(msg)))
    } else {
        Ok((phase, tgid, None))
    }
}

/// One process's stack of open print spans.
pub struct PidStack {
    pub pid: i32,
    pub items: Vec<(u64, Vec<u8>)>,
}

#[verifier::ext_equal]
pub ghost struct PidStackView {
    pub pid: i32,
    pub items: Seq<(u64, Seq<u8>)>,
}

impl View for PidStack {
    type V = PidStackView;

    open spec fn view(&self) -> PidStackView {
        PidStackView {
            pid: self.pid,
            items: self.items@.map_values(|p: (u64, Vec<u8>)| (p.0, p.1@)),
        }
    }
}

pub open spec fn stack_views(s: Seq<PidStack>) -> Seq<PidStackView> {
    s.map_values(|x: PidStack| x@)
}

pub open spec fn stack_find_from(s: Seq<PidStackView>, pid: i32, i: int) -> int
    decreases s.len() - i,
{
    if i < 0 || i >= s.len() {
        s.len() as int
    } else if s[i].pid == pid {
        i
    } else {
        stack_find_from(s, pid, i + 1)
    }
}

/// The index of a process's stack, or the length when it has none yet.
pub open spec fn stack_index(s: Seq<PidStackView>, pid: i32) -> int {
    stack_find_from(s, pid, 0)
}

/// The replayer's state: per-process stacks in order of first use, the
/// spans emitted so far, and the diagnostics raised so far.
pub struct Replayer {
    pub stacks: Vec<PidStack>,
    pub out: Vec<PrintOut>,
    pub diags: Vec<Diag>,
}

#[verifier::ext_equal]
pub ghost struct ReplayView {
    pub stacks: Seq<PidStackView>,
    pub out: Seq<PrintOutView>,
    pub diags: Seq<Diag>,
}

impl View for Replayer {
    type V = ReplayView;

    open spec fn view(&self) -> ReplayView {
        ReplayView {
            stacks: stack_views(self.stacks@),
            out: self.out@.map_values(|x: PrintOut| x@),
            diags: self.diags@,
        }
    }
}

pub open spec fn replay_init() -> ReplayView {
    ReplayView { stacks: Seq::empty(), out: Seq::empty(), diags: Seq::empty() }
}

/// What one print event does on replay: a begin pushes its message onto
/// its process's stack (created on first use); an end pops the most
/// recent begin and emits the span with both times shifted down by the
/// boot-to-monotonic offset — shifted times may be negative and are not
/// clamped — or raises a diagnostic when nothing is open; any other phase
/// is ignored.
pub open spec fn replay_step(st: ReplayView, e: PrintView, offset: u64) -> Result<
    ReplayView,
    Fatal,
> {
    match parse_print(e.buf) {
        Result::Err(err) => Result::Err(err),
        Result::Ok(pp) => if pp.phase == PHASE_PRINT_BEGIN {
            match pp.piece2 {
                Option::None => Result::Err(Fatal::MalformedPrint),
                Option::Some(msg) => {
                    let i = stack_index(st.stacks, e.pid);
                    if i < st.stacks.len() {
                        Result::Ok(
                            ReplayView {
                                stacks: st.stacks.update(
                                    i,
                                    PidStackView {
                                        items: st.stacks[i].items.push((e.timestamp, msg)),
                                        ..st.stacks[i]
                                    },
                                ),
                                ..st
                            },
                        )
                    } else {
                        Result::Ok(
                            ReplayView {
                                stacks: st.stacks.push(
                                    PidStackView { pid: e.pid, items: seq![(e.timestamp, msg)] },
                                ),
                                ..st
                            },
                        )
                    }
                },
            }
        } else if pp.phase == PHASE_PRINT_END {
            let i = stack_index(st.stacks, e.pid);
            if i < st.stacks.len() && st.stacks[i].items.len() > 0 {
                let top = st.stacks[i].items.last();
                let rec = PrintOutView {
                    pid: e.pid,
                    start: (top.0 - offset) as i128,
                    end: (e.timestamp - offset) as i128,
                    msg: top.1,
                };
                Result::Ok(
                    ReplayView {
                        stacks: st.stacks.update(
                            i,
                            PidStackView { items: st.stacks[i].items.drop_last(), ..st.stacks[i] },
                        ),
                        out: st.out.push(rec),
                        ..st
                    },
                )
            } else {
                Result::Ok(
                    ReplayView { diags: st.diags.push(Diag::MissingPrintStart(e.timestamp)), ..st },
                )
            }
        } else {
            Result::Ok(st)
        },
    }
}

/// The whole replay: events applied in order, stopping at the first
/// malformed one.
pub open spec fn replay_fold(st: ReplayView, events: Seq<PrintView>, offset: u64) -> (
    ReplayView,
    Option<Fatal>,
)
    decreases events.len(),
{
    if events.len() == 0 {
        (st, Option::None)
    } else {
        let prev = replay_fold(st, events.drop_last(), offset);
        match prev.1 {
            Option::Some(e) => prev,
            Option::None => match replay_step(prev.0, events.last(), offset) {
                Result::Ok(s2) => (s2, Option::None),
                Result::Err(e) => (prev.0, Option::Some(e)),
            },
        }
    }
}

fn stack_index_of(stacks: &Vec<PidStack>, pid: i32) -> (r: Option<usize>)
    ensures
        match r {
            Option::Some(ix) => ix < stacks@.len() && ix as int == stack_index(
                stack_views(stacks@),
                pid,
            ),
            Option::None => stack_index(stack_views(stacks@), pid) >= stacks@.len(),
        },
{
    let n = stacks.len();
    let mut j: usize = 0;
    while j < n
        invariant
            0 <= j <= n,
            n == stacks@.len(),
            stack_find_from(stack_views(stacks@), pid, 0) == stack_find_from(
                stack_views(stacks@),
                pid,
                j as int,
            ),
        decreases n - j,
    {
        if stacks[j].pid == pid {
            proof {
                assert(stack_views(stacks@)[j as int].pid == pid);
            }
            return Some(j);
        }
        proof {
            assert(stack_views(stacks@)[j as int].pid != pid);
        }
        j = j + 1;
    }
    None
}

impl Replayer {
    pub fn new() -> (r: Replayer)
        ensures
            r@ =~= replay_init(),
    {
        Replayer { stacks: Vec::new(), out: Vec::new(), diags: Vec::new() }
    }

    /// Replays one print event.
    pub fn feed(&mut self, e: &PrintRec, offset: u64) -> (r: Result<(), Fatal>)
        ensures
            match replay_step(old(self)@, e@, offset) {
                Result::Ok(s2) => r is Ok && final(self)@ == s2,
                Result::Err(er) => r == Result::Err::<(), Fatal>(er) && final(self)@ == old(self)@,
            },
    {
        let ghost st0 = self@;
        let parsed = match parse_print_exec(&e.buf) {
            Err(er) => {
                return Err(er);
            },
            Ok(p) => p,
        };
        let (phase, _tgid, piece2) = parsed;
        if phase == PHASE_PRINT_BEGIN {
            let msg = match piece2 {
                None => {
                    return Err(Fatal::MalformedPrint);
                },
                Some(m) => m,
            };
            let ghost msgv = msg@;
            match stack_index_of(&self.stacks, e.pid) {
                Some(i) => {
                    let stk = &mut self.stacks[i];
                    let ghost pre = stk@;
                    stk.items.push((e.timestamp, msg));
                    proof {
                        assert(stk@ =~= (PidStackView {
                            items: pre.items.push((e.timestamp, msgv)),
                            ..pre
                        }));
                    }
                    proof {
                        assert(self@ =~= (ReplayView {
                            stacks: st0.stacks.update(
                                i as int,
                                PidStackView {
                                    items: st0.stacks[i as int].items.push((e.timestamp, msgv)),
                                    ..st0.stacks[i as int]
                                },
                            ),
                            ..st0
                        }));
                    }
                },
                None => {
                    let mut items: Vec<(u64, Vec<u8>)> = Vec::new();
                    items.push((e.timestamp, msg));
                    let stk = PidStack { pid: e.pid, items };
                    proof {
                        assert(stk@ =~= (PidStackView {
                            pid: e.pid,
                            items: seq![(e.timestamp, msgv)],
                        }));
                    }
                    self.stacks.push(stk);
                    proof {
                        assert(self@ =~= (ReplayView {
                            stacks: st0.stacks.push(
                                PidStackView { pid: e.pid, items: seq![(e.timestamp, msgv)] },
                            ),
                            ..st0
                        }));
                    }
                },
            }
            Ok(())
        } else if phase == PHASE_PRINT_END {
            if let Some(i) = stack_index_of(&self.stacks, e.pid) {
                let depth = self.stacks[i].items.len();
                if depth > 0 {
                    let st_time = self.stacks[i].items[depth - 1].0;
                    let msg = clone_bytes(&self.stacks[i].items[depth - 1].1);
                    proof {
                        assert(st0.stacks[i as int].items.last() == (st_time, msg@));
                    }
                    let stk = &mut self.stacks[i];
                    let ghost pre = stk@;
                    stk.items.pop();
                    proof {
                        assert(stk@ =~= (PidStackView { items: pre.items.drop_last(), ..pre }));
                    }
                    let rec = PrintOut {
                        pid: e.pid,
                        start: (st_time as i128) - (offset as i128),
                        end: (e.timestamp as i128) - (offset as i128),
                        msg,
                    };
                    self.out.push(rec);
                    proof {
                        assert(self@ =~= (ReplayView {
                            stacks: st0.stacks.update(
                                i as int,
                                PidStackView {
                                    items: st0.stacks[i as int].items.drop_last(),
                                    ..st0.stacks[i as int]
                                },
                            ),
                            out: st0.out.push(rec@),
                            ..st0
                        }));
                    }
                    return Ok(());
                }
            }
            self.diags.push(Diag::MissingPrintStart(e.timestamp));
            proof {
                assert(self@ =~= (ReplayView {
                    diags: st0.diags.push(Diag::MissingPrintStart(e.timestamp)),
                    ..st0
                }));
            }
            Ok(())
        } else {
            Ok(())
        }
    }
}

/// Inserting into a timestamp-sorted sequence: the new event goes in
/// front of the first strictly later one, after all earlier or equal
/// ones, so equal timestamps keep their relative order.
pub open spec fn insert_sorted(x: PrintView, s: Seq<PrintView>) -> Seq<PrintView>
    decreases s.len(),
{
    if s.len() == 0 {
        seq![x]
    } else if x.timestamp <= s[0].timestamp {
        seq![x] + s
    } else {
        seq![s[0]] + insert_sorted(x, s.drop_first())
    }
}

/// The stable sort of print events by raw timestamp.
pub open spec fn sort_prints(s: Seq<PrintView>) -> Seq<PrintView>
    decreases s.len(),
{
    if s.len() == 0 {
        s
    } else {
        insert_sorted(s.first(), sort_prints(s.drop_first()))
    }
}

proof fn lemma_insert_sorted_at(x: PrintView, s: Seq<PrintView>, k: int)
    requires
        0 <= k <= s.len(),
        forall|j: int| 0 <= j < k ==> s[j].timestamp < x.timestamp,
        k < s.len() ==> x.timestamp <= s[k].timestamp,
    ensures
        insert_sorted(x, s) == s.insert(k, x),
    decreases s.len(),
{
    if s.len() == 0 {
        assert(insert_sorted(x, s) =~= s.insert(0, x));
    } else if k == 0 {
        assert(seq![x] + s =~= s.insert(0, x));
    } else {
        assert(s[0].timestamp < x.timestamp);
        lemma_insert_sorted_at(x, s.drop_first(), k - 1);
        assert(seq![s[0]] + s.drop_first().insert(k - 1, x) =~= s.insert(k, x));
    }
}

/// Stable-sorts print events by their raw timestamp.
pub fn sort_by_time(v: &Vec<PrintRec>) -> (r: Vec<PrintRec>)
    ensures
        crate::engine::print_views(r@) == sort_prints(crate::engine::print_views(v@)),
{
    let ghost all = crate::engine::print_views(v@);
    let n = v.len();
    let mut acc: Vec<PrintRec> = Vec::new();
    let mut i: usize = n;
    while i > 0
        invariant
            0 <= i <= n,
            n == v@.len(),
            crate::engine::print_views(acc@) == sort_prints(all.skip(i as int)),
            all == crate::engine::print_views(v@),
        decreases i,
    {
        i = i - 1;
        proof {
            assert(all.skip(i as int).drop_first() =~= all.skip(i as int + 1));
            assert(all.skip(i as int).first() == v@[i as int]@);
        }
        insert_print(&mut acc, clone_print_rec(&v[i]));
    }
    proof {
        assert(all.skip(0) =~= all);
    }
    acc
}

fn clone_print_rec(p: &PrintRec) -> (r: PrintRec)
    ensures
        r@ == p@,
{
    PrintRec { pid: p.pid, timestamp: p.timestamp, buf: clone_bytes(&p.buf) }
}

fn insert_print(dst: &mut Vec<PrintRec>, x: PrintRec)
    ensures
        crate::engine::print_views(final(dst)@) == insert_sorted(
            x@,
            crate::engine::print_views(old(dst)@),
        ),
{
    let n = dst.len();
    let mut k: usize = 0;
    while k < n && dst[k].timestamp < x.timestamp
        invariant
            0 <= k <= n,
            n == dst@.len(),
            dst@ == old(dst)@,
            forall|j: int| 0 <= j < k ==> dst@[j].timestamp < x.timestamp,
        decreases n - k,
    {
        k = k + 1;
    }
    proof {
        let views = crate::engine::print_views(dst@);
        assert(forall|j: int| 0 <= j < k ==> views[j].timestamp < x@.timestamp);
        assert(k < n ==> x@.timestamp <= views[k as int].timestamp);
        lemma_insert_sorted_at(x@, views, k as int);
    }
    let ghost pre = crate::engine::print_views(dst@);
    dst.insert(k, x);
    proof {
        assert(crate::engine::print_views(dst@) =~= pre.insert(k as int, x@));
    }
}

} // verus!
