//! Supervising FreeToken child processes: what is recorded of them, and what is decided.
//!
//! paddock owns the `ft serve` process directly rather than going through `ft daemon`,
//! so it works against a plain `pip install freetoken` with nothing else running. Output is
//! merged into a bounded ring, and a record of `{pid, starttime, args}` lets a restarted
//! paddock re-adopt a serve it started earlier instead of orphaning it. `starttime` from
//! `/proc` makes re-adoption safe against PID reuse.
//!
//! Nothing here touches a process: a decision takes what was observed (the time, the
//! record, an exit status) and says what is to be done (a signal to send, a record to
//! clear).

use std::collections::VecDeque;
use vstd::prelude::*;
use vstd::string::*;
use crate::ft::locate::{copy_texts, extend_texts, Freetoken};
use crate::paths::{join as join_path, joined_path};
use crate::text::{
    after_last, cat2, cat3, cat4, clip, clipped, contains_char, cut_space, debug_text, dec,
    dec_int, decimal, decimal_int, join, joined, opt_text, parse_u64, quoted, split_space,
    starts_with, strip_prefix, tail_after, texts, trim, trimmed, unsigned_of, words, words_of,
};
use crate::util::{less, sat_sub};

verus! {

// ---------------------------------------------------------------- log ring

#[derive(Debug, Clone)]
pub struct LogLine {
    /// Position in the stream of every line ever pushed, starting at 1. Never reused and
    /// never renumbered, so a client that fetches by sequence can tell a gap from a pause.
    pub seq: u64,
    pub text: String,
    /// True for lines that arrived on stderr.
    pub err: bool,
}

pub struct LineView {
    pub seq: nat,
    pub text: Seq<char>,
    pub err: bool,
}

impl View for LogLine {
    type V = LineView;

    open spec fn view(&self) -> LineView {
        LineView { seq: self.seq as nat, text: self.text@, err: self.err }
    }
}

/// What a ring currently holds, for a reader deciding whether it has missed anything.
#[derive(Debug, Clone, Copy, Default)]
pub struct RingStats {
    pub count: usize,
    /// Sequence of the oldest retained line; equal to `last_seq` when nothing is retained.
    pub first_seq: u64,
    /// Sequence of the newest line ever pushed; 0 before the first one.
    pub last_seq: u64,
    /// Lines evicted by the ring or discarded by a clear, since the process started.
    pub dropped: u64,
}

/// A bounded ring of child output. The reader task appends; the UI reads a snapshot each
/// frame.
#[derive(Debug)]
pub struct LogRing {
    lines: VecDeque<LogLine>,
    /// Total pushed, which is also the newest sequence number.
    pushed: u64,
    dropped: u64,
    capacity: usize,
}

pub struct RingView {
    pub lines: Seq<LineView>,
    pub pushed: nat,
    pub dropped: nat,
    pub capacity: nat,
}

pub open spec fn line_views(v: Seq<LogLine>) -> Seq<LineView> {
    Seq::new(v.len(), |i: int| v[i]@)
}

impl View for LogRing {
    type V = RingView;

    closed spec fn view(&self) -> RingView {
        RingView {
            lines: line_views(self.lines@),
            pushed: self.pushed as nat,
            dropped: self.dropped as nat,
            capacity: self.capacity as nat,
        }
    }
}

impl RingView {
    /// The counters have room for `n` more lines.
    pub open spec fn room(self, n: nat) -> bool {
        self.pushed + n <= u64::MAX && self.dropped + n <= u64::MAX
    }

    /// The ring after a line arrived: a full ring gives up its oldest line for it.
    pub open spec fn after_push(self, text: Seq<char>, err: bool) -> RingView {
        let full = self.lines.len() == self.capacity;
        let kept = if full && self.lines.len() > 0 {
            self.lines.drop_first()
        } else {
            self.lines
        };
        RingView {
            lines: kept.push(LineView { seq: self.pushed + 1, text, err }),
            pushed: self.pushed + 1,
            dropped: if full {
                self.dropped + 1
            } else {
                self.dropped
            },
            capacity: self.capacity,
        }
    }

    /// The ring after everything retained was discarded.
    pub open spec fn after_clear(self) -> RingView {
        RingView {
            lines: Seq::empty(),
            dropped: self.dropped + self.lines.len(),
            ..self
        }
    }

    /// What holds of a ring with room for a line: it never holds more than it may, the lines
    /// it holds are the newest, numbered without a gap, and every line is either held or
    /// counted as dropped.
    pub open spec fn consistent(self) -> bool {
        &&& self.lines.len() <= self.capacity
        &&& self.pushed == self.lines.len() + self.dropped
        &&& forall|i: int|
            0 <= i < self.lines.len() ==> (#[trigger] self.lines[i]).seq == self.dropped + i + 1
    }
}

/// The lines after sequence number `after`, oldest first, at most `limit` of them.
pub open spec fn lines_since(lines: Seq<LineView>, after: nat, limit: nat) -> Seq<LineView>
    decreases lines.len(),
{
    if lines.len() == 0 {
        Seq::empty()
    } else {
        let head = lines_since(lines.drop_last(), after, limit);
        if lines.last().seq > after && head.len() < limit {
            head.push(lines.last())
        } else {
            head
        }
    }
}

impl LogLine {
    pub fn copy(&self) -> (r: Self)
        ensures
            r == *self,
    {
        LogLine { seq: self.seq, text: self.text.clone(), err: self.err }
    }
}

impl LogRing {
    pub fn new(capacity: usize) -> (r: Self)
        ensures
            r@ == (RingView {
                lines: Seq::empty(),
                pushed: 0,
                dropped: 0,
                capacity: capacity as nat,
            }),
    {
        let r = LogRing { lines: VecDeque::new(), pushed: 0, dropped: 0, capacity };
        assert(r@.lines =~= Seq::<LineView>::empty());
        r
    }

    /// Whether the counters have room for `n` more lines.
    pub fn has_room(&self, n: u64) -> (r: bool)
        ensures
            r == self@.room(n as nat),
    {
        n <= u64::MAX - self.pushed && n <= u64::MAX - self.dropped
    }

    pub fn push(&mut self, text: String, err: bool)
        requires
            old(self)@.room(1),
        ensures
            final(self)@ == old(self)@.after_push(text@, err),
    {
        let ghost before = self@;
        if self.lines.len() == self.capacity {
            self.lines.pop_front();
            self.dropped = self.dropped + 1;
        }
        self.pushed = self.pushed + 1;
        self.lines.push_back(LogLine { seq: self.pushed, text, err });
        assert(self@.lines =~= before.after_push(text@, err).lines);
    }

    /// All retained lines, oldest first.
    pub fn snapshot(&self) -> (r: Vec<LogLine>)
        ensures
            line_views(r@) == self@.lines,
    {
        let mut out: Vec<LogLine> = Vec::new();
        let mut i: usize = 0;
        assert(line_views(out@) =~= self@.lines.take(0));
        while i < self.lines.len()
            invariant
                i <= self.lines.len(),
                line_views(out@) == self@.lines.take(i as int),
            decreases self.lines.len() - i,
        {
            let ghost before = out@;
            out.push(self.lines[i].copy());
            assert(line_views(out@) =~= line_views(before).push(self.lines@[i as int]@));
            assert(self@.lines.take(i + 1) =~= self@.lines.take(i as int).push(
                self@.lines[i as int],
            ));
            i = i + 1;
        }
        assert(self@.lines.take(i as int) =~= self@.lines);
        out
    }

    /// Retained lines after `after`, oldest first, at most `limit` of them.
    pub fn since(&self, after: u64, limit: usize) -> (r: Vec<LogLine>)
        ensures
            line_views(r@) == lines_since(self@.lines, after as nat, limit as nat),
    {
        let mut out: Vec<LogLine> = Vec::new();
        let mut i: usize = 0;
        let ghost all = self@.lines;
        assert(all.take(0) =~= Seq::<LineView>::empty());
        assert(line_views(out@) =~= Seq::<LineView>::empty());
        while i < self.lines.len()
            invariant
                i <= self.lines.len(),
                all == self@.lines,
                line_views(out@) == lines_since(all.take(i as int), after as nat, limit as nat),
            decreases self.lines.len() - i,
        {
            assert(all.take(i + 1).drop_last() =~= all.take(i as int));
            assert(all.take(i + 1).last() == self.lines@[i as int]@);
            assert(line_views(out@).len() == out.len());
            if self.lines[i].seq > after && out.len() < limit {
                let ghost before = out@;
                out.push(self.lines[i].copy());
                assert(line_views(out@) =~= line_views(before).push(self.lines@[i as int]@));
            }
            i = i + 1;
        }
        assert(all.take(i as int) =~= all);
        out
    }

    pub fn stats(&self) -> (r: RingStats)
        ensures
            r.count == self@.lines.len(),
            r.first_seq == (if self@.lines.len() > 0 {
                self@.lines[0].seq
            } else {
                self@.pushed
            }),
            r.last_seq == self@.pushed,
            r.dropped == self@.dropped,
    {
        RingStats {
            count: self.lines.len(),
            first_seq: if self.lines.len() > 0 {
                self.lines[0].seq
            } else {
                self.pushed
            },
            last_seq: self.pushed,
            dropped: self.dropped,
        }
    }

    /// Discard everything retained. The sequence keeps counting and `dropped` absorbs
    /// what went, so a reader holding a sequence can still tell where it stands.
    pub fn clear(&mut self)
        requires
            old(self)@.dropped + old(self)@.lines.len() <= u64::MAX,
        ensures
            final(self)@ == old(self)@.after_clear(),
    {
        self.dropped = self.dropped + self.lines.len() as u64;
        self.lines.clear();
        assert(self@.lines =~= Seq::<LineView>::empty());
    }
}

/// Pushing onto a ring and clearing it keep it consistent, from the empty ring on.
pub proof fn law_a_ring_stays_consistent(r: RingView, text: Seq<char>, err: bool)
    requires
        r.consistent(),
        r.capacity > 0,
    ensures
        r.after_push(text, err).consistent(),
        r.after_clear().consistent(),
        (RingView {
            lines: Seq::<LineView>::empty(),
            pushed: 0,
            dropped: 0,
            capacity: r.capacity,
        }).consistent(),
{
    let n = r.after_push(text, err);
    assert forall|i: int| 0 <= i < n.lines.len() implies (#[trigger] n.lines[i]).seq == n.dropped
        + i + 1 by {
        if r.lines.len() == r.capacity {
            if i < n.lines.len() - 1 {
                assert(n.lines[i] == r.lines[i + 1]);
            }
        } else if i < n.lines.len() - 1 {
            assert(n.lines[i] == r.lines[i]);
        }
    }
}

/// A sequence number is never given twice: a new line is numbered past every line that was
/// ever pushed.
pub proof fn law_sequence_numbers_never_repeat(r: RingView, text: Seq<char>, err: bool, i: int)
    requires
        r.consistent(),
        0 <= i < r.lines.len(),
    ensures
        r.after_push(text, err).lines.last().seq > r.lines[i].seq,
        r.after_push(text, err).lines.last().seq == r.pushed + 1,
{
}

/// A reader that asks for what came after a number it has seen gets only newer lines.
pub proof fn law_since_gives_only_newer_lines(lines: Seq<LineView>, after: nat, limit: nat, i: int)
    requires
        0 <= i < lines_since(lines, after, limit).len(),
    ensures
        lines_since(lines, after, limit)[i].seq > after,
        lines_since(lines, after, limit).len() <= limit,
    decreases lines.len(),
{
    if lines.len() > 0 {
        let head = lines_since(lines.drop_last(), after, limit);
        if i < head.len() {
            law_since_gives_only_newer_lines(lines.drop_last(), after, limit, i);
        }
    }
}

// ---------------------------------------------------------------- serve state

/// Persisted so a restarted paddock can re-adopt a running engine.
#[derive(Debug, Clone)]
pub struct ServeState {
    pub pid: u32,
    /// Field 22 of `/proc/<pid>/stat`, which makes the record PID-reuse-safe.
    pub starttime: u64,
    pub model: String,
    pub port: u16,
    pub args: Vec<String>,
    pub log_path: String,
    /// Unix seconds when paddock started it.
    pub started_at: i64,
}

pub struct ServeStateView {
    pub pid: u32,
    pub starttime: u64,
    pub model: Seq<char>,
    pub port: u16,
    pub args: Seq<Seq<char>>,
    pub log_path: Seq<char>,
    pub started_at: i64,
}

impl View for ServeState {
    type V = ServeStateView;

    open spec fn view(&self) -> ServeStateView {
        ServeStateView {
            pid: self.pid,
            starttime: self.starttime,
            model: self.model@,
            port: self.port,
            args: texts(self.args@),
            log_path: self.log_path@,
            started_at: self.started_at,
        }
    }
}

pub open spec fn opt_state(s: Option<ServeState>) -> Option<ServeStateView> {
    match s {
        Some(s) => Some(s@),
        None => None,
    }
}

impl ServeState {
    pub open spec fn alive_at(&self, starttime: Option<u64>) -> bool {
        starttime == Some(self.starttime)
    }

    /// True when the recorded process is still alive *and* is the same process: the start
    /// time found for its PID now guards against a recycled PID belonging to something else
    /// entirely.
    pub fn is_alive(&self, starttime: Option<u64>) -> (r: bool)
        ensures
            r == self.alive_at(starttime),
    {
        match starttime {
            Some(t) => t == self.starttime,
            None => false,
        }
    }

    pub fn copy(&self) -> (r: Self)
        ensures
            r@ == self@,
    {
        ServeState {
            pid: self.pid,
            starttime: self.starttime,
            model: self.model.clone(),
            port: self.port,
            args: copy_texts(&self.args),
            log_path: self.log_path.clone(),
            started_at: self.started_at,
        }
    }
}

/// Field 22 of a process's `stat` line. The comm field can contain spaces and parentheses,
/// so what counts stands after the final `)`: `state` is field 3, so the start time is the
/// twentieth word there.
pub open spec fn starttime_of(stat: Seq<char>) -> Option<u64> {
    let w = words_of(after_last(stat, ')'));
    if !stat.contains(')') || w.len() <= 19 {
        None
    } else {
        match unsigned_of(w[19]) {
            Some(n) if n <= u64::MAX => Some(n as u64),
            _ => None,
        }
    }
}

/// Read the start time out of the text of `/proc/<pid>/stat`.
pub fn proc_starttime(stat: &str) -> (r: Option<u64>)
    ensures
        r == starttime_of(stat@),
{
    if !contains_char(stat, ')') {
        return None;
    }
    let w = words(tail_after(stat, ')').as_str());
    assert(texts(w@).len() == w.len());
    if w.len() <= 19 {
        return None;
    }
    assert(texts(w@)[19] == w@[19]@);
    parse_u64(w[19].as_str())
}

// ---------------------------------------------------------------- engine supervisor

#[derive(Debug, Clone, Copy, PartialEq, Eq, Structural)]
pub enum EngineState {
    /// No engine started by, or adopted by, this paddock.
    Stopped,
    /// Process spawned; weights are loading. Readiness comes from `/health`.
    Starting,
    Running,
    Stopping,
    /// The process exited. Carries the exit status for display.
    Exited { code: Option<i32>, signal: Option<i32> },
    /// A process we did not spawn, adopted from the state file.
    Adopted,
}

impl EngineState {
    pub open spec fn live(self) -> bool {
        self is Starting || self is Running || self is Adopted
    }

    /// Settled and idle.
    pub open spec fn idle(self) -> bool {
        self is Stopped || self is Exited
    }

    pub fn is_live(&self) -> (r: bool)
        ensures
            r == self.live(),
    {
        matches!(self, EngineState::Starting | EngineState::Running | EngineState::Adopted)
    }
}

/// Events that a supervisor reports.
#[derive(Debug, Clone, Copy, PartialEq, Eq, Structural)]
pub enum EngineEvent {
    Started { pid: u32 },
    Exited { code: Option<i32>, signal: Option<i32> },
}

/// The signals that a stop uses.
pub const SIGINT: i32 = 2;

pub const SIGKILL: i32 = 9;

pub const SIGTERM: i32 = 15;

/// How long a stopping engine gets at each stage before the next signal, in nanoseconds.
/// FreeToken unloads weights and reaps its backend workers on SIGINT, which on a large MoE
/// model takes real time, so the first grace period is generous.
pub const STOP_GRACE: u64 = 25_000_000_000;

pub const TERM_GRACE: u64 = 15_000_000_000;

/// How often the state file is looked at, in nanoseconds.
pub const ADOPT_INTERVAL: u64 = 1_000_000_000;

/// The engine as this paddock knows it. Times are nanoseconds on a clock that never goes
/// back.
pub struct Engine {
    pub state: EngineState,
    pub pid: Option<u32>,
    pub log: LogRing,
    pub log_path: Option<String>,
    pub command_line: Option<String>,
    pub model: Option<String>,
    pub port: Option<u16>,
    /// The engine is a child of this process, so its exit can be reaped.
    pub has_child: bool,
    /// When a stop was requested, driving the signal escalation.
    pub stop_at: Option<u64>,
    /// How far the escalation has gone: 0 = SIGINT sent, 1 = SIGTERM, 2 = SIGKILL.
    pub stop_stage: u8,
    /// `starttime` of an adopted process, so a recycled PID is not mistaken for it.
    pub adopted_starttime: Option<u64>,
    /// When re-adoption last looked at the state file.
    pub last_adopt_check: Option<u64>,
    /// A live engine recorded in the state file that this supervisor does not own: one a
    /// second paddock on the same machine started. Refreshed with the adoption check.
    pub foreign: Option<ServeState>,
}

pub struct EngineView {
    pub state: EngineState,
    pub pid: Option<u32>,
    pub log: RingView,
    pub log_path: Option<Seq<char>>,
    pub command_line: Option<Seq<char>>,
    pub model: Option<Seq<char>>,
    pub port: Option<u16>,
    pub has_child: bool,
    pub stop_at: Option<u64>,
    pub stop_stage: u8,
    pub adopted_starttime: Option<u64>,
    pub last_adopt_check: Option<u64>,
    pub foreign: Option<ServeStateView>,
}

impl View for Engine {
    type V = EngineView;

    open spec fn view(&self) -> EngineView {
        EngineView {
            state: self.state,
            pid: self.pid,
            log: self.log@,
            log_path: opt_text(self.log_path),
            command_line: opt_text(self.command_line),
            model: opt_text(self.model),
            port: self.port,
            has_child: self.has_child,
            stop_at: self.stop_at,
            stop_stage: self.stop_stage,
            adopted_starttime: self.adopted_starttime,
            last_adopt_check: self.last_adopt_check,
            foreign: opt_state(self.foreign),
        }
    }
}

impl EngineView {
    /// A line of paddock's own in the engine's log.
    pub open spec fn says(self, text: Seq<char>, err: bool) -> EngineView {
        EngineView { log: self.log.after_push(text, err), ..self }
    }

    /// Re-attached to a recorded engine.
    pub open spec fn adopting(self, s: ServeStateView) -> EngineView {
        (EngineView {
            state: EngineState::Adopted,
            pid: Some(s.pid),
            adopted_starttime: Some(s.starttime),
            model: Some(s.model),
            port: Some(s.port),
            log_path: Some(s.log_path),
            command_line: Some("ft serve "@ + joined(s.args, " "@)),
            foreign: None,
            ..self
        }).says(
            "[ft-man] re-attached to engine pid "@ + dec(s.pid as nat) + " serving "@ + s.model
                + " on port "@ + dec(s.port as nat),
            false,
        ).says("[ft-man] earlier output is in "@ + s.log_path, false)
    }

    /// The recorded engine is alive and not this supervisor's own.
    pub open spec fn is_foreign(self, found: Option<ServeStateView>, alive: bool) -> bool {
        found is Some && alive && self.pid != Some(found->0.pid)
    }

    /// The record was read: an engine of someone else is noted and, from a settled idle
    /// state, taken.
    pub open spec fn refreshed(self, found: Option<ServeStateView>, alive: bool) -> EngineView {
        if !self.is_foreign(found, alive) {
            EngineView { foreign: None, ..self }
        } else if self.pid is None && self.state.idle() {
            self.adopting(found->0)
        } else {
            EngineView { foreign: found, ..self }
        }
    }

    /// The signal that a stop sends now, and to which process group.
    pub open spec fn stop_signal(self, force: bool) -> Option<(u32, i32)> {
        match self.pid {
            Some(pid) if self.state.live() => Some(
                (
                    pid,
                    if force {
                        SIGKILL
                    } else {
                        SIGINT
                    },
                ),
            ),
            _ => None,
        }
    }

    pub open spec fn stopping(self, force: bool, now: u64) -> EngineView {
        match self.stop_signal(force) {
            None => self,
            Some((pid, _)) => (EngineView {
                state: EngineState::Stopping,
                stop_at: Some(now),
                stop_stage: if force {
                    2
                } else {
                    0
                },
                ..self
            }).says(
                "[ft-man] sent "@ + (if force {
                    "SIGKILL"@
                } else {
                    "SIGINT"@
                }) + " to process group "@ + dec(pid as nat),
                false,
            ),
        }
    }

    /// The next signal of a stop that has not taken, with its stage and its reason.
    pub open spec fn escalation(self, now: u64) -> Option<(u8, i32, Seq<char>)> {
        match (self.stop_at, self.pid) {
            (Some(since), Some(_)) if self.state is Stopping => next_signal(
                self.stop_stage,
                less(now as int, since as int),
            ),
            _ => None,
        }
    }

    pub open spec fn escalated(self, now: u64) -> EngineView {
        match self.escalation(now) {
            None => self,
            Some((stage, _, why)) => (EngineView { stop_stage: stage, ..self }).says(
                "[ft-man] "@ + why,
                true,
            ),
        }
    }

    /// It is time to look at the state file again.
    pub open spec fn adopt_due(self, now: u64) -> bool {
        match self.last_adopt_check {
            Some(at) => less(now as int, at as int) >= ADOPT_INTERVAL,
            None => true,
        }
    }

    /// An engine started elsewhere is picked up, but not while a stop is under way.
    pub open spec fn readopted(
        self,
        now: u64,
        found: Option<ServeStateView>,
        alive: bool,
    ) -> EngineView {
        if !self.adopt_due(now) {
            self
        } else {
            let looked = EngineView { last_adopt_check: Some(now), ..self };
            if self.state is Stopping {
                looked
            } else {
                looked.refreshed(found, alive)
            }
        }
    }

    /// The process is gone.
    pub open spec fn gone(self, code: Option<i32>, signal: Option<i32>) -> EngineView {
        EngineView {
            pid: None,
            stop_at: None,
            stop_stage: 0,
            state: EngineState::Exited { code, signal },
            ..self
        }
    }

    /// Whether the process that is not a child still runs: the start time found for its PID
    /// has to be the one it was adopted with.
    pub open spec fn still_runs(self, starttime: Option<u64>) -> bool {
        match (starttime, self.adopted_starttime) {
            (Some(now), Some(then)) => now == then,
            (found, _) => found is Some,
        }
    }

    /// What was seen of the process is taken in.
    pub open spec fn reaped(self, child: ChildView, starttime: Option<u64>) -> EngineView {
        if self.has_child {
            match child {
                ChildView::Running => self,
                ChildView::Exited { code, signal } => (EngineView {
                    has_child: false,
                    ..self.gone(code, signal)
                }).says("[ft-man] engine exited: "@ + exit_text(code, signal), true),
                ChildView::Lost(why) => (EngineView { has_child: false, ..self }).says(
                    "[ft-man] failed to reap the engine: "@ + why,
                    true,
                ),
            }
        } else if self.pid is Some && !self.still_runs(starttime) {
            self.gone(None, None).says("[ft-man] the engine is gone"@, true)
        } else {
            self
        }
    }

    /// Taking in what was seen ends with a record to clear.
    pub open spec fn clears_record(self, child: ChildView, starttime: Option<u64>) -> bool {
        if self.has_child {
            child is Exited
        } else {
            self.pid is Some && !self.still_runs(starttime)
        }
    }

    /// The state of the engine after the first two steps of a tick.
    pub open spec fn looked_around(self, now: u64, seen: SeenView) -> EngineView {
        self.escalated(now).readopted(now, seen.record, seen.record_alive)
    }

    /// The start time that counts in a tick: that of the record when the tick adopted it,
    /// which was just found alive.
    pub open spec fn start_seen(self, now: u64, seen: SeenView) -> Option<u64> {
        let after = self.looked_around(now, seen);
        if after.pid != self.pid {
            after.adopted_starttime
        } else {
            seen.starttime
        }
    }

    /// The engine after a tick.
    pub open spec fn polled(self, now: u64, seen: SeenView) -> EngineView {
        self.looked_around(now, seen).reaped(seen.child, self.start_seen(now, seen))
    }

    /// What a reader of the status would see change.
    pub open spec fn face(self) -> (EngineState, Option<u32>, Option<u32>) {
        (
            self.state,
            self.pid,
            match self.foreign {
                Some(s) => Some(s.pid),
                None => None,
            },
        )
    }
}

/// What was seen of the engine's process when it is a child.
#[derive(Debug)]
pub enum ChildSeen {
    Running,
    Exited { code: Option<i32>, signal: Option<i32> },
    /// Waiting for it failed, with this reason.
    Lost(String),
}

pub enum ChildView {
    Running,
    Exited { code: Option<i32>, signal: Option<i32> },
    Lost(Seq<char>),
}

impl View for ChildSeen {
    type V = ChildView;

    open spec fn view(&self) -> ChildView {
        match self {
            ChildSeen::Running => ChildView::Running,
            ChildSeen::Exited { code, signal } => ChildView::Exited {
                code: *code,
                signal: *signal,
            },
            ChildSeen::Lost(why) => ChildView::Lost(why@),
        }
    }
}

/// What was seen at a tick: the record in the state file and whether its process is alive,
/// the child, and the start time of the process known so far.
#[derive(Debug)]
pub struct Seen {
    pub record: Option<ServeState>,
    pub record_alive: bool,
    pub child: ChildSeen,
    pub starttime: Option<u64>,
}

pub struct SeenView {
    pub record: Option<ServeStateView>,
    pub record_alive: bool,
    pub child: ChildView,
    pub starttime: Option<u64>,
}

impl View for Seen {
    type V = SeenView;

    open spec fn view(&self) -> SeenView {
        SeenView {
            record: opt_state(self.record),
            record_alive: self.record_alive,
            child: self.child@,
            starttime: self.starttime,
        }
    }
}

/// What a tick asks for.
#[derive(Debug, Clone, Copy)]
pub struct Tick {
    /// A signal to send to a process group.
    pub signal: Option<(u32, i32)>,
    /// The record in the state file is to be removed.
    pub clear_record: bool,
    pub event: Option<EngineEvent>,
    /// Whether anything moved, so the web daemon can leave an idle machine alone instead of
    /// publishing an identical snapshot five times a second.
    pub changed: bool,
}

/// What a start leaves to be written down.
#[derive(Debug)]
pub struct Started {
    /// The lines at the head of the log file: a log that does not say which command wrote
    /// it is far less useful hours later, when the question is which model failed.
    pub header: String,
    pub second: String,
    /// The record for the state file, when the process's start time is known.
    pub record: Option<ServeState>,
    pub event: EngineEvent,
}

/// What became of an attempt to re-attach.
#[derive(Debug, Clone, Copy, PartialEq, Eq, Structural)]
pub enum Adoption {
    /// There is no record.
    Nothing,
    /// The record is of a process that is gone, and is to be cleared.
    Stale,
    Adopted,
}

/// The next signal in a stop escalation; `None` means keep waiting.
pub open spec fn next_signal(stage: u8, elapsed: nat) -> Option<(u8, i32, Seq<char>)> {
    if stage == 0 && elapsed > STOP_GRACE {
        Some((1, SIGTERM, "no exit after 25s; sent SIGTERM"@))
    } else if stage == 1 && elapsed > STOP_GRACE + TERM_GRACE {
        Some((2, SIGKILL, "still running; sent SIGKILL"@))
    } else {
        None
    }
}

/// The next signal in a stop escalation, given the stage already reached and how long, in
/// nanoseconds, the engine has been asked to stop. `None` means keep waiting.
pub fn next_stop_signal(stage: u8, elapsed: u64) -> (r: Option<(u8, i32, String)>)
    ensures
        (match r {
            Some((s, sig, why)) => Some((s, sig, why@)),
            None => None,
        }) == next_signal(stage, elapsed as nat),
{
    if stage == 0 && elapsed > STOP_GRACE {
        Some((1, SIGTERM, "no exit after 25s; sent SIGTERM".to_owned()))
    } else if stage == 1 && elapsed > STOP_GRACE + TERM_GRACE {
        Some((2, SIGKILL, "still running; sent SIGKILL".to_owned()))
    } else {
        None
    }
}

pub open spec fn exit_text(code: Option<i32>, signal: Option<i32>) -> Seq<char> {
    match (code, signal) {
        (Some(c), _) => if c == 0 {
            "cleanly (status 0)"@
        } else {
            "with status "@ + dec_int(c as int)
        },
        (None, Some(s)) => "on signal "@ + dec_int(s as int),
        (None, None) => "for an unknown reason"@,
    }
}

pub fn describe_exit(code: Option<i32>, signal: Option<i32>) -> (r: String)
    ensures
        r@ == exit_text(code, signal),
{
    match (code, signal) {
        (Some(c), _) => if c == 0 {
            "cleanly (status 0)".to_owned()
        } else {
            cat2("with status ", decimal_int(c as i64).as_str())
        },
        (None, Some(s)) => cat2("on signal ", decimal_int(s as i64).as_str()),
        (None, None) => "for an unknown reason".to_owned(),
    }
}

// ---------------------------------------------------------------- commands

/// A command line that a shell reads as the given words, as `shell_words::join` writes it.
pub uninterp spec fn shell_line(words: Seq<Seq<char>>) -> Seq<char>;

/// `shell_words::join`: each word quoted so that a Unix shell reads it literally, with a
/// space between neighbours. Which quotes it chooses is not stated.
#[verifier::external_body]
pub(crate) fn shell_join(words: &Vec<String>) -> (r: String)
    ensures
        r@ == shell_line(texts(words@)),
{
    shell_words::join(words)
}

/// A program to start, with everything that decides what it does.
#[derive(Debug)]
pub struct Launch {
    pub program: String,
    pub argv: Vec<String>,
    /// Variables to set, in this order; a later one wins.
    pub env: Vec<(String, String)>,
    /// Working directory, when the command means something only inside one.
    pub cwd: Option<String>,
    /// The command as it is shown.
    pub display: String,
}

pub open spec fn env_views(v: Seq<(String, String)>) -> Seq<(Seq<char>, Seq<char>)> {
    Seq::new(v.len(), |i: int| (v[i].0@, v[i].1@))
}

/// The variables of a launch: those configured, and unbuffered Python output, so that the
/// Logs view is live rather than arriving in bursts once a buffer fills.
pub open spec fn launch_env(env: Seq<(Seq<char>, Seq<char>)>) -> Seq<(Seq<char>, Seq<char>)> {
    env.push(("PYTHONUNBUFFERED"@, "1"@))
}

fn copy_env(env: &Vec<(String, String)>) -> (r: Vec<(String, String)>)
    ensures
        env_views(r@) == env_views(env@),
{
    let mut out: Vec<(String, String)> = Vec::new();
    let mut i: usize = 0;
    assert(env_views(out@) =~= env_views(env@).take(0));
    while i < env.len()
        invariant
            i <= env.len(),
            env_views(out@) == env_views(env@).take(i as int),
        decreases env.len() - i,
    {
        let ghost before = out@;
        out.push((env[i].0.clone(), env[i].1.clone()));
        assert(env_views(out@) =~= env_views(before).push(env_views(env@)[i as int]));
        assert(env_views(env@).take(i + 1) =~= env_views(env@).take(i as int).push(
            env_views(env@)[i as int],
        ));
        i = i + 1;
    }
    assert(env_views(env@).take(i as int) =~= env_views(env@));
    out
}

fn push_env(env: &mut Vec<(String, String)>, name: &str, value: &str)
    ensures
        env_views(final(env)@) == env_views(old(env)@).push((name@, value@)),
{
    let ghost before = env@;
    env.push((name.to_owned(), value.to_owned()));
    assert(env_views(env@) =~= env_views(before).push((name@, value@)));
}

/// How a command reads for display: the program's name and its arguments.
fn display_line(ft: &Freetoken, argv: &Vec<String>) -> (r: String)
    ensures
        r@ == shell_line(seq![ft.display_text()] + texts(argv@)),
{
    let mut words: Vec<String> = vec![ft.display_program()];
    assert(texts(words@) =~= seq![ft.display_text()]);
    extend_texts(&mut words, argv);
    shell_join(&words)
}

impl Engine {
    pub fn new(log_capacity: usize) -> (r: Self)
        ensures
            r@ == (EngineView {
                state: EngineState::Stopped,
                pid: None,
                log: RingView {
                    lines: Seq::empty(),
                    pushed: 0,
                    dropped: 0,
                    capacity: log_capacity as nat,
                },
                log_path: None,
                command_line: None,
                model: None,
                port: None,
                has_child: false,
                stop_at: None,
                stop_stage: 0,
                adopted_starttime: None,
                last_adopt_check: None,
                foreign: None,
            }),
    {
        Engine {
            state: EngineState::Stopped,
            pid: None,
            log: LogRing::new(log_capacity),
            log_path: None,
            command_line: None,
            model: None,
            port: None,
            has_child: false,
            stop_at: None,
            stop_stage: 0,
            adopted_starttime: None,
            last_adopt_check: None,
            foreign: None,
        }
    }

    fn attach(&mut self, s: &ServeState)
        requires
            old(self)@.log.room(2),
        ensures
            final(self)@ == old(self)@.adopting(s@),
    {
        self.state = EngineState::Adopted;
        self.pid = Some(s.pid);
        self.adopted_starttime = Some(s.starttime);
        self.model = Some(s.model.clone());
        self.port = Some(s.port);
        self.log_path = Some(s.log_path.clone());
        self.command_line = Some(cat2("ft serve ", join(&s.args, " ").as_str()));
        let mut line = "[ft-man] re-attached to engine pid ".to_owned();
        line.append(decimal(s.pid as u64).as_str());
        line.append(" serving ");
        line.append(s.model.as_str());
        line.append(" on port ");
        line.append(decimal(s.port as u64).as_str());
        self.log.push(line, false);
        self.log.push(cat2("[ft-man] earlier output is in ", s.log_path.as_str()), false);
        // It is ours now, so it is no longer somebody else's.
        self.foreign = None;
    }

    /// Re-attach to an engine a previous paddock run started, if it is still alive. `found`
    /// is the record in the state file, and `alive` whether its process is.
    pub fn adopt(&mut self, found: Option<&ServeState>, alive: bool) -> (r: Adoption)
        requires
            old(self)@.log.room(2),
        ensures
            r == (match found {
                None => Adoption::Nothing,
                Some(_) => if alive {
                    Adoption::Adopted
                } else {
                    Adoption::Stale
                },
            }),
            final(self)@ == (if r == Adoption::Adopted {
                old(self)@.adopting(found->0@)
            } else {
                old(self)@
            }),
    {
        match found {
            None => Adoption::Nothing,
            Some(s) => {
                if !alive {
                    return Adoption::Stale;
                }
                self.attach(s);
                Adoption::Adopted
            },
        }
    }

    /// The live engine another process started, as of the last check. `None` when the only
    /// engine around is this supervisor's own, or when there is none.
    pub fn foreign(&self) -> (r: Option<&ServeState>)
        ensures
            match r {
                Some(s) => self@.foreign == Some(s@),
                None => self@.foreign is None,
            },
    {
        match &self.foreign {
            Some(s) => Some(s),
            None => None,
        }
    }

    /// Take in the record of the state file now rather than at the next adoption check.
    ///
    /// Looking once a second is fine for a status line and not fine for a decision: an
    /// engine started in the last second is exactly the race a start has to lose rather
    /// than win twice.
    pub fn refresh_foreign(&mut self, found: Option<&ServeState>, alive: bool)
        requires
            old(self)@.log.room(2),
        ensures
            final(self)@ == old(self)@.refreshed(
                match found {
                    Some(s) => Some(s@),
                    None => None,
                },
                alive,
            ),
    {
        let other: Option<&ServeState> = match found {
            Some(s) => {
                let own = match self.pid {
                    Some(p) => p == s.pid,
                    None => false,
                };
                if alive && !own {
                    Some(s)
                } else {
                    None
                }
            },
            None => None,
        };
        match other {
            None => {
                self.foreign = None;
            },
            Some(s) => {
                // Settled and idle: take it, rather than merely reporting it.
                let idle = matches!(self.state, EngineState::Stopped | EngineState::Exited { .. });
                if self.pid.is_none() && idle {
                    self.attach(s);
                } else {
                    self.foreign = Some(s.copy());
                }
            },
        }
    }

    pub fn is_live(&self) -> (r: bool)
        ensures
            r == self@.state.live(),
    {
        self.state.is_live()
    }

    /// What starting `ft serve` with `args` would run.
    pub fn start(&self, ft: &Freetoken, args: &Vec<String>, env: &Vec<(String, String)>) -> (r:
        Result<Launch, String>)
        ensures
            match r {
                Err(e) => self@.state.live() && e@ == "an engine is already running"@,
                Ok(l) => {
                    let argv = ft@.prefix.push("serve"@) + texts(args@);
                    &&& !self@.state.live()
                    &&& l.program@ == ft@.program
                    &&& texts(l.argv@) == argv
                    &&& env_views(l.env@) == launch_env(env_views(env@))
                    &&& l.cwd is None
                    &&& l.display@ == shell_line(seq![ft.display_text()] + argv)
                },
            },
    {
        if self.is_live() {
            return Err("an engine is already running".to_owned());
        }
        let argv = ft.argv("serve", args);
        let display = display_line(ft, &argv);
        let mut vars = copy_env(env);
        push_env(&mut vars, "PYTHONUNBUFFERED", "1");
        Ok(Launch { program: ft.program.clone(), argv, env: vars, cwd: None, display })
    }

    /// Record that the engine runs, as `pid`, which started at `starttime` where that could
    /// be read.
    pub fn started(
        &mut self,
        pid: u32,
        starttime: Option<u64>,
        launch: &Launch,
        args: &Vec<String>,
        log_path: &str,
        model: &str,
        port: u16,
        now: i64,
    ) -> (r: Started)
        requires
            old(self)@.log.room(2),
        ensures
            r.header@ == "[ft-man] $ "@ + launch.display@,
            r.second@ == "[ft-man] pid "@ + dec(pid as nat) + ", logging to "@ + log_path@,
            opt_state(r.record) == (match starttime {
                Some(starttime) => Some(
                    ServeStateView {
                        pid,
                        starttime,
                        model: model@,
                        port,
                        args: texts(args@),
                        log_path: log_path@,
                        started_at: now,
                    },
                ),
                None => None,
            }),
            r.event == (EngineEvent::Started { pid }),
            final(self)@ == (EngineView {
                state: EngineState::Starting,
                pid: Some(pid),
                model: Some(model@),
                port: Some(port),
                log_path: Some(log_path@),
                command_line: Some(launch.display@),
                has_child: true,
                ..old(self)@.says(r.header@, false).says(r.second@, false)
            }),
    {
        let header = cat2("[ft-man] $ ", launch.display.as_str());
        let second = cat4("[ft-man] pid ", decimal(pid as u64).as_str(), ", logging to ", log_path);
        self.log.push(header.clone(), false);
        self.log.push(second.clone(), false);
        let record = match starttime {
            Some(starttime) => Some(
                ServeState {
                    pid,
                    starttime,
                    model: model.to_owned(),
                    port,
                    args: copy_texts(args),
                    log_path: log_path.to_owned(),
                    started_at: now,
                },
            ),
            None => None,
        };
        self.state = EngineState::Starting;
        self.pid = Some(pid);
        self.model = Some(model.to_owned());
        self.port = Some(port);
        self.log_path = Some(log_path.to_owned());
        self.command_line = Some(launch.display.clone());
        self.has_child = true;
        Started { header, second, record, event: EngineEvent::Started { pid } }
    }

    /// Ask the engine to stop. SIGINT first, because FreeToken's own handler drains and
    /// reaps its backend workers on that signal; the escalation to SIGTERM and SIGKILL
    /// comes with later ticks once the grace period elapses. Returns the signal to send and
    /// to which process group.
    pub fn stop(&mut self, force: bool, now: u64) -> (r: Option<(u32, i32)>)
        requires
            old(self)@.log.room(1),
        ensures
            r == old(self)@.stop_signal(force),
            final(self)@ == old(self)@.stopping(force, now),
    {
        let pid = match self.pid {
            Some(p) => p,
            None => {
                return None;
            },
        };
        if !self.is_live() {
            return None;
        }
        self.state = EngineState::Stopping;
        self.stop_at = Some(now);
        self.stop_stage = if force {
            2
        } else {
            0
        };
        let line = cat4(
            "[ft-man] sent ",
            if force {
                "SIGKILL"
            } else {
                "SIGINT"
            },
            " to process group ",
            decimal(pid as u64).as_str(),
        );
        self.log.push(line, false);
        Some(
            (
                pid,
                if force {
                    SIGKILL
                } else {
                    SIGINT
                },
            ),
        )
    }

    /// Escalate SIGINT to SIGTERM and then SIGKILL when a stop does not take.
    ///
    /// Without this a wedged engine sits in `Stopping` forever, holding VRAM and the
    /// port, with no way out but killing it by hand.
    pub fn escalate_stop(&mut self, now: u64) -> (r: Option<(u32, i32)>)
        requires
            old(self)@.log.room(1),
        ensures
            final(self)@ == old(self)@.escalated(now),
            r == (match old(self)@.escalation(now) {
                Some((_, signal, _)) => Some((old(self)@.pid->0, signal)),
                None => None,
            }),
    {
        if self.state != EngineState::Stopping {
            return None;
        }
        let (since, pid): (u64, u32) = match (self.stop_at, self.pid) {
            (Some(s), Some(p)) => (s, p),
            _ => {
                return None;
            },
        };
        match next_stop_signal(self.stop_stage, sat_sub(now, since)) {
            None => None,
            Some((stage, signal, why)) => {
                self.stop_stage = stage;
                self.log.push(cat2("[ft-man] ", why.as_str()), true);
                Some((pid, signal))
            },
        }
    }

    /// Whether the next tick looks at the state file. Once a second: reading a small file is
    /// cheap, but not five times a second forever on an idle daemon.
    pub fn wants_record(&self, now: u64) -> (r: bool)
        ensures
            r == self@.adopt_due(now),
    {
        match self.last_adopt_check {
            Some(at) => sat_sub(now, at) >= ADOPT_INTERVAL,
            None => true,
        }
    }

    /// Pick up an engine started elsewhere.
    ///
    /// A TUI and the web daemon can run side by side on one machine, and both are meant
    /// to drive the same engine rather than each seeing only what it started itself. The
    /// state file is the handoff: whichever process starts an engine writes it, and any
    /// other that has none adopts it on its next tick.
    ///
    /// Only from a settled idle state. `Stopping` is deliberately excluded: a stop this
    /// process just asked for has not cleared the file yet, and re-adopting the engine
    /// being killed would undo the request.
    fn readopt(&mut self, now: u64, found: Option<&ServeState>, alive: bool)
        requires
            old(self)@.log.room(2),
        ensures
            final(self)@ == old(self)@.readopted(
                now,
                match found {
                    Some(s) => Some(s@),
                    None => None,
                },
                alive,
            ),
    {
        if !self.wants_record(now) {
            return;
        }
        self.last_adopt_check = Some(now);
        if matches!(self.state, EngineState::Stopping) {
            return;
        }
        self.refresh_foreign(found, alive);
    }

    /// Take in what was seen of the process. Returns whether the record is to be cleared.
    fn reap(&mut self, child: &ChildSeen, starttime: Option<u64>) -> (r: (
        bool,
        Option<EngineEvent>,
    ))
        requires
            old(self)@.log.room(1),
        ensures
            final(self)@ == old(self)@.reaped(child@, starttime),
            r.0 == old(self)@.clears_record(child@, starttime),
            r.1 == (match child@ {
                ChildView::Exited { code, signal } if old(self)@.has_child => Some(
                    EngineEvent::Exited { code, signal },
                ),
                _ => None,
            }),
    {
        if self.has_child {
            match child {
                ChildSeen::Running => (false, None),
                ChildSeen::Exited { code, signal } => {
                    self.has_child = false;
                    self.pid = None;
                    self.stop_at = None;
                    self.stop_stage = 0;
                    self.state = EngineState::Exited { code: *code, signal: *signal };
                    let line = cat2(
                        "[ft-man] engine exited: ",
                        describe_exit(*code, *signal).as_str(),
                    );
                    self.log.push(line, true);
                    (true, Some(EngineEvent::Exited { code: *code, signal: *signal }))
                },
                ChildSeen::Lost(why) => {
                    let line = cat2("[ft-man] failed to reap the engine: ", why.as_str());
                    self.log.push(line, true);
                    self.has_child = false;
                    (false, None)
                },
            }
        } else if self.pid.is_some() {
            // An adopted engine is not our child, so there is no exit status to reap;
            // liveness is `/proc`. Compare the start time too, or a recycled PID would
            // read as the engine still running.
            let alive = match (starttime, self.adopted_starttime) {
                (Some(now), Some(then)) => now == then,
                (found, _) => found.is_some(),
            };
            if alive {
                return (false, None);
            }
            self.pid = None;
            self.stop_at = None;
            self.stop_stage = 0;
            self.state = EngineState::Exited { code: None, signal: None };
            self.log.push("[ft-man] the engine is gone".to_owned(), true);
            (true, None)
        } else {
            (false, None)
        }
    }

    /// Called every tick: take in an exit of the child, notice when an adopted engine goes
    /// away, and pick up an engine another process started.
    pub fn poll(&mut self, now: u64, seen: &Seen) -> (r: Tick)
        requires
            old(self)@.log.room(4),
        ensures
            final(self)@ == old(self)@.polled(now, seen@),
            r.signal == (match old(self)@.escalation(now) {
                Some((_, signal, _)) => Some((old(self)@.pid->0, signal)),
                None => None,
            }),
            r.clear_record == old(self)@.looked_around(now, seen@).clears_record(
                seen@.child,
                old(self)@.start_seen(now, seen@),
            ),
            r.event == (match seen@.child {
                ChildView::Exited { code, signal } if old(self)@.has_child => Some(
                    EngineEvent::Exited { code, signal },
                ),
                _ => None,
            }),
            r.changed == (final(self)@.face() != old(self)@.face()),
    {
        let state = self.state;
        let pid = self.pid;
        let foreign: Option<u32> = match &self.foreign {
            Some(s) => Some(s.pid),
            None => None,
        };
        let signal = self.escalate_stop(now);
        let found: Option<&ServeState> = match &seen.record {
            Some(s) => Some(s),
            None => None,
        };
        self.readopt(now, found, seen.record_alive);
        let starttime = if self.pid != pid {
            self.adopted_starttime
        } else {
            seen.starttime
        };
        let (clear_record, event) = self.reap(&seen.child, starttime);
        let foreign_now: Option<u32> = match &self.foreign {
            Some(s) => Some(s.pid),
            None => None,
        };
        let changed = self.state != state || self.pid != pid || foreign_now != foreign;
        Tick { signal, clear_record, event, changed }
    }

    /// Promote `Starting` to `Running` once `/health` reports readiness.
    pub fn mark_ready(&mut self)
        requires
            old(self)@.log.room(1),
        ensures
            final(self)@ == (if old(self)@.state is Starting {
                (EngineView { state: EngineState::Running, ..old(self)@ }).says(
                    "[ft-man] engine is ready to serve"@,
                    false,
                )
            } else {
                old(self)@
            }),
    {
        if self.state == EngineState::Starting {
            self.state = EngineState::Running;
            self.log.push("[ft-man] engine is ready to serve".to_owned(), false);
        }
    }

    /// Called on exit. The engine is a long-lived service and the state file lets a
    /// later run re-adopt it, so quitting paddock deliberately leaves it running; only a
    /// stop the user actually asked for (which has already set `Stopping`) is carried
    /// through here. Returns the signal to send.
    pub fn shutdown_blocking_if_requested(&self) -> (r: Option<(u32, i32)>)
        ensures
            r == (match self@.pid {
                Some(pid) if self@.state is Stopping => Some((pid, SIGINT)),
                _ => None,
            }),
    {
        if self.state != EngineState::Stopping {
            return None;
        }
        match self.pid {
            Some(pid) => Some((pid, SIGINT)),
            None => None,
        }
    }
}

/// A stop escalates from SIGINT to SIGTERM to SIGKILL: every step goes one stage further,
/// each stage has one signal, nothing is sent inside a grace period, and nothing follows
/// SIGKILL.
pub proof fn law_a_stop_escalates_in_order(stage: u8, elapsed: nat)
    ensures
        next_signal(stage, elapsed) matches Some((next, signal, _)) ==> {
            &&& next == stage + 1
            &&& signal == (if stage == 0 {
                SIGTERM
            } else {
                SIGKILL
            })
            &&& elapsed > STOP_GRACE
            &&& stage == 1 ==> elapsed > STOP_GRACE + TERM_GRACE
        },
        stage >= 2 ==> next_signal(stage, elapsed) is None,
        stage == 0 && elapsed > STOP_GRACE ==> next_signal(stage, elapsed) is Some,
        stage == 1 && elapsed > STOP_GRACE + TERM_GRACE ==> next_signal(stage, elapsed) is Some,
{
}

/// A wedged engine cannot sit in `Stopping` forever: once both grace periods are over, two
/// ticks bring the kill, whatever stage the stop had reached.
pub proof fn law_a_stop_always_reaches_the_kill(e: EngineView, now: u64)
    requires
        e.state is Stopping,
        e.stop_at is Some,
        e.pid is Some,
        now - e.stop_at->0 > STOP_GRACE + TERM_GRACE,
    ensures
        e.escalated(now).escalated(now).stop_stage >= 2,
{
}

/// Re-adoption never undoes a stop: while one is under way, a record in the state file
/// changes neither the state nor the process.
pub proof fn law_a_stop_is_not_undone_by_the_state_file(
    e: EngineView,
    now: u64,
    found: Option<ServeStateView>,
    alive: bool,
)
    requires
        e.state is Stopping,
    ensures
        e.readopted(now, found, alive).state == e.state,
        e.readopted(now, found, alive).pid == e.pid,
        e.readopted(now, found, alive).stop_at == e.stop_at,
        e.readopted(now, found, alive).stop_stage == e.stop_stage,
{
}

/// Polling an engine with no process does not invent an exit: with nothing recorded, the
/// state and the log stay as they are.
pub proof fn law_polling_without_a_process_changes_nothing(e: EngineView, now: u64, seen: SeenView)
    requires
        e.pid is None,
        !e.has_child,
        e.foreign is None,
        seen.record is None || !seen.record_alive,
    ensures
        e.polled(now, seen).face() == e.face(),
        e.polled(now, seen).log == e.log,
{
}

/// Stopping an engine that is not running does nothing.
pub proof fn law_stopping_what_does_not_run_does_nothing(e: EngineView, force: bool, now: u64)
    requires
        !e.state.live() || e.pid is None,
    ensures
        e.stopping(force, now) == e,
        e.stop_signal(force) is None,
{
}

/// A child's exit ends everything that was known of its process: it is neither live nor
/// stopping afterwards, and the record is to be cleared.
pub proof fn law_an_exit_settles_the_engine(
    e: EngineView,
    code: Option<i32>,
    signal: Option<i32>,
    starttime: Option<u64>,
)
    requires
        e.has_child,
    ensures
        e.reaped(ChildView::Exited { code, signal }, starttime).state == (EngineState::Exited {
            code,
            signal,
        }),
        e.reaped(ChildView::Exited { code, signal }, starttime).pid is None,
        e.reaped(ChildView::Exited { code, signal }, starttime).stop_at is None,
        !e.reaped(ChildView::Exited { code, signal }, starttime).state.live(),
        e.clears_record(ChildView::Exited { code, signal }, starttime),
{
}

/// A live engine that another process started is either noted or taken, never overlooked;
/// a dead one is neither.
pub proof fn law_a_live_foreign_engine_is_seen(e: EngineView, s: ServeStateView)
    requires
        e.pid != Some(s.pid),
    ensures
        e.refreshed(Some(s), true).foreign == Some(s) || e.refreshed(Some(s), true).pid == Some(
            s.pid,
        ),
        e.refreshed(Some(s), false).foreign is None,
        e.refreshed(Some(s), false).pid == e.pid,
{
}

/// A recycled PID is not the engine: a process found under an adopted engine's PID with
/// another start time counts as the engine having gone.
pub proof fn law_a_recycled_pid_is_not_the_engine(e: EngineView, now: u64)
    requires
        !e.has_child,
        e.pid is Some,
        e.adopted_starttime is Some,
        e.adopted_starttime != Some(now),
    ensures
        e.reaped(ChildView::Running, Some(now)).pid is None,
        e.reaped(ChildView::Running, Some(now)).state is Exited,
{
}

// ---------------------------------------------------------------- jobs

/// Which long-running FreeToken command a job is.
#[derive(Debug, Clone, Copy, PartialEq, Eq, Structural)]
pub enum JobKind {
    /// `ft checkpoint`: HF safetensors to FTW.
    Convert,
    /// `ft bench bw`: CPU vs PCIe bandwidth calibration.
    Bench,
    /// Pull the FreeToken checkout and reinstall it. Not an `ft` subcommand: the source
    /// tree is updated by git and the package manager that owns the venv.
    Update,
}

impl JobKind {
    pub open spec fn label_text(self) -> Seq<char> {
        match self {
            JobKind::Convert => "convert"@,
            JobKind::Bench => "bench"@,
            JobKind::Update => "update"@,
        }
    }

    pub fn label(self) -> (r: &'static str)
        ensures
            r@ == self.label_text(),
    {
        match self {
            JobKind::Convert => "convert",
            JobKind::Bench => "bench",
            JobKind::Update => "update",
        }
    }
}

#[derive(Debug, Clone, PartialEq)]
pub enum JobStatus {
    Running,
    Done,
    Failed(String),
    Canceled,
}

pub enum JobStatusView {
    Running,
    Done,
    Failed(Seq<char>),
    Canceled,
}

impl View for JobStatus {
    type V = JobStatusView;

    open spec fn view(&self) -> JobStatusView {
        match self {
            JobStatus::Running => JobStatusView::Running,
            JobStatus::Done => JobStatusView::Done,
            JobStatus::Failed(why) => JobStatusView::Failed(why@),
            JobStatus::Canceled => JobStatusView::Canceled,
        }
    }
}

impl JobStatus {
    /// The one word both front ends print in the status column.
    pub fn label(&self) -> (r: &'static str)
        ensures
            r@ == (match self@ {
                JobStatusView::Running => "running"@,
                JobStatusView::Done => "done"@,
                JobStatusView::Failed(_) => "failed"@,
                JobStatusView::Canceled => "canceled"@,
            }),
    {
        match self {
            JobStatus::Running => "running",
            JobStatus::Done => "done",
            JobStatus::Failed(_) => "failed",
            JobStatus::Canceled => "canceled",
        }
    }

    /// The line that closes a job's log file.
    pub fn closing_line(&self) -> (r: String)
        ensures
            r@ == "[ft-man] finished: "@ + (match self@ {
                JobStatusView::Running => "Running"@,
                JobStatusView::Done => "Done"@,
                JobStatusView::Failed(why) => "Failed("@ + quoted(why) + ")"@,
                JobStatusView::Canceled => "Canceled"@,
            }),
    {
        let shown = match self {
            JobStatus::Running => "Running".to_owned(),
            JobStatus::Done => "Done".to_owned(),
            JobStatus::Failed(why) => cat3("Failed(", debug_text(why.as_str()).as_str(), ")"),
            JobStatus::Canceled => "Canceled".to_owned(),
        };
        cat2("[ft-man] finished: ", shown.as_str())
    }
}

/// How waiting for a job's process ended.
#[derive(Debug)]
pub enum Waited {
    Exited { code: Option<i32>, signal: Option<i32> },
    /// Waiting failed, with this reason.
    Lost(String),
}

pub open spec fn status_of(code: Option<i32>, signal: Option<i32>) -> JobStatusView {
    if code == Some(0i32) {
        JobStatusView::Done
    } else if signal == Some(SIGINT) {
        JobStatusView::Canceled
    } else {
        JobStatusView::Failed(exit_text(code, signal))
    }
}

/// What a job's end means: an exit with status 0 is success, and SIGINT is how a job is
/// canceled.
pub fn job_status(waited: &Waited) -> (r: JobStatus)
    ensures
        r@ == (match waited {
            Waited::Exited { code, signal } => status_of(*code, *signal),
            Waited::Lost(why) => JobStatusView::Failed(why@),
        }),
{
    match waited {
        Waited::Exited { code, signal } => {
            let done = match code {
                Some(c) => *c == 0,
                None => false,
            };
            let canceled = match signal {
                Some(s) => *s == SIGINT,
                None => false,
            };
            if done {
                JobStatus::Done
            } else if canceled {
                JobStatus::Canceled
            } else {
                JobStatus::Failed(describe_exit(*code, *signal))
            }
        },
        Waited::Lost(why) => JobStatus::Failed(why.clone()),
    }
}

/// Progress parsed out of a job's machine-readable output.
#[derive(Debug, Clone)]
pub struct JobProgress {
    /// `dense`, `experts`, `finalize` for a convert; the current format for a bench.
    pub phase: String,
    pub done: u64,
    pub total: u64,
    /// Whether `done`/`total` are byte counts (convert) or step counts (bench).
    pub bytes: bool,
}

pub struct JobProgressView {
    pub phase: Seq<char>,
    pub done: u64,
    pub total: u64,
    pub bytes: bool,
}

impl View for JobProgress {
    type V = JobProgressView;

    open spec fn view(&self) -> JobProgressView {
        JobProgressView {
            phase: self.phase@,
            done: self.done,
            total: self.total,
            bytes: self.bytes,
        }
    }
}

impl Default for JobProgress {
    fn default() -> (r: Self)
        ensures
            r@ == (JobProgressView { phase: ""@, done: 0, total: 0, bytes: false }),
    {
        JobProgress { phase: "".to_owned(), done: 0, total: 0, bytes: false }
    }
}

impl JobProgress {
    /// How far along: what is done, of how much. `None` while the total is unknown.
    pub fn share(&self) -> (r: Option<(u64, u64)>)
        ensures
            r == (if self.total > 0 {
                Some((self.done, self.total))
            } else {
                None
            }),
    {
        if self.total > 0 {
            Some((self.done, self.total))
        } else {
            None
        }
    }
}

/// A count in a convert's report; one that is missing or unreadable reads as 0.
pub open spec fn count_at(w: Seq<Seq<char>>, i: int) -> u64 {
    if i < w.len() {
        match unsigned_of(w[i]) {
            Some(n) if n <= u64::MAX => n as u64,
            _ => 0,
        }
    } else {
        0
    }
}

/// What a line of a job's output reports. A convert says `FTCONVERT <phase> <done> <total>`
/// and a bench says `FTBENCH <done> <total> <label>`.
pub open spec fn progress_of(kind: JobKind, line: Seq<char>) -> Option<JobProgressView> {
    match kind {
        JobKind::Convert => {
            let w = words_of(line.skip("FTCONVERT "@.len() as int));
            if "FTCONVERT "@.is_prefix_of(line) && w.len() > 0 {
                Some(
                    JobProgressView {
                        phase: w[0],
                        done: count_at(w, 1),
                        total: count_at(w, 2),
                        bytes: true,
                    },
                )
            } else {
                None
            }
        },
        JobKind::Bench => if "FTBENCH "@.is_prefix_of(line) {
            bench_progress(line.skip("FTBENCH "@.len() as int))
        } else {
            None
        },
        JobKind::Update => None,
    }
}

/// `<done> <total> <label>`, where the label is the rest of the line.
pub open spec fn bench_progress(rest: Seq<char>) -> Option<JobProgressView> {
    match cut_space(rest) {
        None => None,
        Some((first, tail)) => {
            let (second, label) = match cut_space(tail) {
                Some((second, label)) => (second, label),
                None => (tail, ""@),
            };
            match (unsigned_of(first), unsigned_of(second)) {
                (Some(done), Some(total)) if done <= u64::MAX && total <= u64::MAX => Some(
                    JobProgressView {
                        phase: trimmed(label),
                        done: done as u64,
                        total: total as u64,
                        bytes: false,
                    },
                ),
                _ => None,
            }
        },
    }
}

pub open spec fn opt_progress(p: Option<JobProgress>) -> Option<JobProgressView> {
    match p {
        Some(p) => Some(p@),
        None => None,
    }
}

fn count_word(w: &Vec<String>, i: usize) -> (r: u64)
    ensures
        r == count_at(texts(w@), i as int),
{
    if i < w.len() {
        assert(texts(w@)[i as int] == w@[i as int]@);
        match parse_u64(w[i].as_str()) {
            Some(n) => n,
            None => 0,
        }
    } else {
        0
    }
}

fn parse_bench(rest: &str) -> (r: Option<JobProgress>)
    ensures
        opt_progress(r) == bench_progress(rest@),
{
    let (first, tail) = match split_space(rest) {
        None => {
            return None;
        },
        Some(p) => p,
    };
    let (second, label) = match split_space(tail.as_str()) {
        Some(p) => p,
        None => (tail, "".to_owned()),
    };
    let done: u64 = match parse_u64(first.as_str()) {
        Some(n) => n,
        None => {
            return None;
        },
    };
    let total: u64 = match parse_u64(second.as_str()) {
        Some(n) => n,
        None => {
            return None;
        },
    };
    Some(JobProgress { phase: trim(label.as_str()), done, total, bytes: false })
}

/// `FTCONVERT <phase> <done> <total>` / `FTBENCH <done> <total> <label>`.
pub fn parse_progress(kind: JobKind, line: &str) -> (r: Option<JobProgress>)
    ensures
        opt_progress(r) == progress_of(kind, line@),
{
    match kind {
        JobKind::Convert => match strip_prefix(line, "FTCONVERT ") {
            None => None,
            Some(rest) => {
                let w = words(rest.as_str());
                assert(texts(w@).len() == w.len());
                if w.len() == 0 {
                    return None;
                }
                assert(texts(w@)[0] == w@[0]@);
                Some(
                    JobProgress {
                        phase: w[0].clone(),
                        done: count_word(&w, 1),
                        total: count_word(&w, 2),
                        bytes: true,
                    },
                )
            },
        },
        JobKind::Bench => match strip_prefix(line, "FTBENCH ") {
            None => None,
            Some(rest) => parse_bench(rest.as_str()),
        },
        // No protocol to parse: git and uv report progress as ordinary output.
        JobKind::Update => None,
    }
}

/// Events a running job pushes to the UI.
#[derive(Debug)]
pub enum JobEvent {
    Progress(u64, JobProgress),
    /// The job produced a line of output; it is already in the job's own ring, so this
    /// exists only to wake the UI for a redraw.
    Line,
    /// A bench run wrote its profile here.
    Output(u64, String),
    Finished(u64, JobStatus),
}

pub enum JobEventView {
    Progress(u64, JobProgressView),
    Line,
    Output(u64, Seq<char>),
    Finished(u64, JobStatusView),
}

impl View for JobEvent {
    type V = JobEventView;

    open spec fn view(&self) -> JobEventView {
        match self {
            JobEvent::Progress(id, p) => JobEventView::Progress(*id, p@),
            JobEvent::Line => JobEventView::Line,
            JobEvent::Output(id, path) => JobEventView::Output(*id, path@),
            JobEvent::Finished(id, status) => JobEventView::Finished(*id, status@),
        }
    }
}

/// A job as it is tracked. Wall-clock times are Unix milliseconds.
pub struct Job {
    pub id: u64,
    pub kind: JobKind,
    pub title: String,
    pub command_line: String,
    pub status: JobStatus,
    pub progress: JobProgress,
    pub log: LogRing,
    pub log_path: String,
    pub started_at: i64,
    pub finished_at: Option<i64>,
    /// Where a bench run wrote its profile, once it says so.
    pub output_path: Option<String>,
    /// When the write rate was last sampled, in nanoseconds on a clock that never goes
    /// back, and how much was written by then.
    pub last_sample: Option<(u64, u64)>,
    pub pid: Option<u32>,
}

pub struct JobView {
    pub id: u64,
    pub kind: JobKind,
    pub title: Seq<char>,
    pub command_line: Seq<char>,
    pub status: JobStatusView,
    pub progress: JobProgressView,
    pub log: RingView,
    pub log_path: Seq<char>,
    pub started_at: i64,
    pub finished_at: Option<i64>,
    pub output_path: Option<Seq<char>>,
    pub last_sample: Option<(u64, u64)>,
    pub pid: Option<u32>,
}

impl View for Job {
    type V = JobView;

    open spec fn view(&self) -> JobView {
        JobView {
            id: self.id,
            kind: self.kind,
            title: self.title@,
            command_line: self.command_line@,
            status: self.status@,
            progress: self.progress@,
            log: self.log@,
            log_path: self.log_path@,
            started_at: self.started_at,
            finished_at: self.finished_at,
            output_path: opt_text(self.output_path),
            last_sample: self.last_sample,
            pid: self.pid,
        }
    }
}

/// The least time, in nanoseconds, between two samples of the write rate.
pub const SAMPLE_INTERVAL: u64 = 500_000_000;

/// The bytes written since the last sample and the nanoseconds they took.
pub type RateSample = (u64, u64);

impl JobView {
    /// The sample that a progress report gives: bytes written since the last sample, once
    /// enough time has gone by.
    pub open spec fn sample(self, progress: JobProgressView, now: u64) -> Option<RateSample> {
        match self.last_sample {
            Some((then, bytes)) if progress.bytes && less(now as int, then as int)
                >= SAMPLE_INTERVAL => Some(
                (
                    less(progress.done as int, bytes as int) as u64,
                    less(now as int, then as int) as u64,
                ),
            ),
            _ => None,
        }
    }

    pub open spec fn observed(self, progress: JobProgressView, now: u64) -> JobView {
        JobView {
            progress,
            last_sample: if progress.bytes && (self.last_sample is None || self.sample(
                progress,
                now,
            ) is Some) {
                Some((now, progress.done))
            } else {
                self.last_sample
            },
            ..self
        }
    }

    /// What a line of output is to this job.
    pub open spec fn hears(self, line: Seq<char>) -> JobEventView {
        if "FTBENCH_OUT "@.is_prefix_of(line) {
            JobEventView::Output(self.id, trimmed(line.skip("FTBENCH_OUT "@.len() as int)))
        } else {
            match progress_of(self.kind, line) {
                Some(p) => JobEventView::Progress(self.id, p),
                None => JobEventView::Line,
            }
        }
    }
}

/// A trimmed line worth reading as the reason of a failure: not our own header, and not
/// the scaffolding of a Python traceback.
pub open spec fn interesting(l: Seq<char>) -> bool {
    &&& l.len() > 0
    &&& !"[ft-man]"@.is_prefix_of(l)
    &&& !"File \""@.is_prefix_of(l)
    &&& !"^"@.is_prefix_of(l)
    &&& !"~"@.is_prefix_of(l)
    &&& !"Traceback"@.is_prefix_of(l)
    &&& !"During handling"@.is_prefix_of(l)
    &&& !"The above exception"@.is_prefix_of(l)
}

fn is_interesting(l: &str) -> (r: bool)
    ensures
        r == interesting(l@),
{
    !l.is_empty() && !starts_with(l, "[ft-man]") && !starts_with(l, "File \"") && !starts_with(
        l,
        "^",
    ) && !starts_with(l, "~") && !starts_with(l, "Traceback") && !starts_with(l, "During handling")
        && !starts_with(l, "The above exception")
}

/// The last interesting line, at most 300 characters of it.
pub open spec fn reason_in(lines: Seq<LineView>) -> Option<Seq<char>>
    decreases lines.len(),
{
    if lines.len() == 0 {
        None
    } else if interesting(trimmed(lines.last().text)) {
        Some(clipped(trimmed(lines.last().text), 300))
    } else {
        reason_in(lines.drop_last())
    }
}

impl Job {
    /// How long the job has run, or ran, in milliseconds.
    pub fn elapsed(&self, now: i64) -> (r: u64)
        ensures
            r == less(
                (match self.finished_at {
                    Some(end) => end,
                    None => now,
                }) as int,
                self.started_at as int,
            ),
    {
        let end: i64 = match self.finished_at {
            Some(end) => end,
            None => now,
        };
        if end > self.started_at {
            (end as i128 - self.started_at as i128) as u64
        } else {
            0
        }
    }

    pub fn is_running(&self) -> (r: bool)
        ensures
            r == (self@.status is Running),
    {
        matches!(self.status, JobStatus::Running)
    }

    /// Fold a progress report in. Returns what was written since the last sample and the
    /// time it took, for a smoothed write rate.
    pub fn observe(&mut self, progress: JobProgress, now: u64) -> (r: Option<RateSample>)
        ensures
            final(self)@ == old(self)@.observed(progress@, now),
            r == old(self)@.sample(progress@, now),
    {
        let mut sample: Option<RateSample> = None;
        if progress.bytes {
            match self.last_sample {
                Some((then, bytes)) => {
                    let dt = sat_sub(now, then);
                    if dt >= SAMPLE_INTERVAL {
                        sample = Some((sat_sub(progress.done, bytes), dt));
                        self.last_sample = Some((now, progress.done));
                    }
                },
                None => {
                    self.last_sample = Some((now, progress.done));
                },
            }
        }
        self.progress = progress;
        sample
    }

    /// The most informative line the job printed before failing.
    ///
    /// `describe_exit` can only say "with status 1", which is true and useless. A Python
    /// traceback's last line is the thing worth reading, and leaving it buried in the
    /// output pane made a perfectly diagnosable failure look like a mystery.
    pub fn failure_reason(&self) -> (r: Option<String>)
        ensures
            opt_text(r) == reason_in(self@.log.lines),
    {
        let lines = self.log.snapshot();
        let ghost all = self@.log.lines;
        let mut i: usize = lines.len();
        assert(line_views(lines@).len() == lines.len());
        assert(all.take(i as int) =~= all);
        while i > 0
            invariant
                i <= lines.len(),
                all == self@.log.lines,
                line_views(lines@) == all,
                reason_in(all) == reason_in(all.take(i as int)),
            decreases i,
        {
            i = i - 1;
            assert(all.take(i + 1).drop_last() =~= all.take(i as int));
            assert(all.take(i + 1).last() == lines@[i as int]@);
            let l = trim(lines[i].text.as_str());
            if is_interesting(l.as_str()) {
                return Some(clip(l.as_str(), 300));
            }
        }
        None
    }

    /// Ask a running job to stop. Returns the signal to send and to which process group.
    pub fn cancel(&mut self) -> (r: Option<(u32, i32)>)
        requires
            old(self)@.log.room(1),
        ensures
            match old(self)@.pid {
                Some(pid) if old(self)@.status is Running => {
                    &&& r == Some((pid, SIGINT))
                    &&& final(self)@ == (JobView {
                        log: old(self)@.log.after_push(
                            "[ft-man] cancel requested (SIGINT)"@,
                            false,
                        ),
                        ..old(self)@
                    })
                },
                _ => r is None && final(self)@ == old(self)@,
            },
    {
        match self.pid {
            Some(pid) => if self.is_running() {
                self.log.push("[ft-man] cancel requested (SIGINT)".to_owned(), false);
                Some((pid, SIGINT))
            } else {
                None
            },
            None => None,
        }
    }

    /// Take in a line of the job's output: what speaks the progress protocol becomes an
    /// event, and the rest goes into the ring.
    pub fn take_line(&mut self, line: String, err: bool) -> (r: JobEvent)
        requires
            old(self)@.log.room(1),
        ensures
            r@ == old(self)@.hears(line@),
            final(self)@ == (if r@ is Line {
                JobView { log: old(self)@.log.after_push(line@, err), ..old(self)@ }
            } else {
                old(self)@
            }),
    {
        match strip_prefix(line.as_str(), "FTBENCH_OUT ") {
            Some(path) => {
                return JobEvent::Output(self.id, trim(path.as_str()));
            },
            None => {},
        }
        match parse_progress(self.kind, line.as_str()) {
            Some(p) => JobEvent::Progress(self.id, p),
            None => {
                self.log.push(line, err);
                JobEvent::Line
            },
        }
    }
}

/// What to run as a tracked job.
#[derive(Debug)]
pub struct JobSpec {
    pub kind: JobKind,
    /// The `ft` subcommand, e.g. `["checkpoint"]` or `["bench", "bw"]`.
    pub subcommand: Vec<String>,
    pub args: Vec<String>,
    /// What to call this job in the UI.
    pub title: String,
    pub log_capacity: usize,
}

/// A program to run as a tracked job, for work that is not an `ft` subcommand.
#[derive(Debug)]
pub struct Run {
    pub program: String,
    pub args: Vec<String>,
    /// Working directory, when the command means something only inside one.
    pub cwd: Option<String>,
    /// The command as the log header should print it, which for a shell script wrapping
    /// two steps is what the operator would have typed, not the wrapper.
    pub display: String,
    pub kind: JobKind,
    pub title: String,
    pub log_capacity: usize,
}

pub struct RunView {
    pub program: Seq<char>,
    pub args: Seq<Seq<char>>,
    pub cwd: Option<Seq<char>>,
    pub display: Seq<char>,
    pub kind: JobKind,
    pub title: Seq<char>,
    pub log_capacity: usize,
}

impl View for Run {
    type V = RunView;

    open spec fn view(&self) -> RunView {
        RunView {
            program: self.program@,
            args: texts(self.args@),
            cwd: opt_text(self.cwd),
            display: self.display@,
            kind: self.kind,
            title: self.title@,
            log_capacity: self.log_capacity,
        }
    }
}

/// A FreeToken subcommand as a tracked job.
///
/// Both long commands speak a line protocol on stdout when their progress variable is
/// set: `FTCONVERT <phase> <done> <total>` and `FTBENCH <done> <total> <label>`, plus
/// `FTBENCH_OUT <path>` for the written profile. Parsing those is what lets paddock show
/// a real progress bar instead of a spinner.
pub fn spawn_job(ft: &Freetoken, spec: JobSpec) -> (r: Run)
    ensures
        ({
            let argv = ft@.prefix + texts(spec.subcommand@) + texts(spec.args@);
            r@ == (RunView {
                program: ft@.program,
                args: argv,
                cwd: None,
                display: shell_line(seq![ft.display_text()] + argv),
                kind: spec.kind,
                title: spec.title@,
                log_capacity: spec.log_capacity,
            })
        }),
{
    let mut argv = copy_texts(&ft.prefix);
    extend_texts(&mut argv, &spec.subcommand);
    extend_texts(&mut argv, &spec.args);
    let display = display_line(ft, &argv);
    Run {
        program: ft.program.clone(),
        args: argv,
        cwd: None,
        display,
        kind: spec.kind,
        title: spec.title,
        log_capacity: spec.log_capacity,
    }
}

/// The variables of a job: those of any launch, and the switch for the command's progress
/// protocol where it has one.
pub open spec fn job_env(kind: JobKind, env: Seq<(Seq<char>, Seq<char>)>) -> Seq<
    (Seq<char>, Seq<char>),
> {
    match kind {
        JobKind::Convert => launch_env(env).push(("FREETOKEN_CONVERT_PROGRESS"@, "1"@)),
        JobKind::Bench => launch_env(env).push(("FREETOKEN_BENCH_PROGRESS"@, "1"@)),
        JobKind::Update => launch_env(env),
    }
}

impl Run {
    /// What starting this job runs.
    pub fn launch(&self, env: &Vec<(String, String)>) -> (r: Launch)
        ensures
            r.program@ == self@.program,
            texts(r.argv@) == self@.args,
            env_views(r.env@) == job_env(self@.kind, env_views(env@)),
            opt_text(r.cwd) == self@.cwd,
            r.display@ == self@.display,
    {
        let mut vars = copy_env(env);
        push_env(&mut vars, "PYTHONUNBUFFERED", "1");
        match self.kind {
            JobKind::Convert => {
                push_env(&mut vars, "FREETOKEN_CONVERT_PROGRESS", "1");
            },
            JobKind::Bench => {
                push_env(&mut vars, "FREETOKEN_BENCH_PROGRESS", "1");
            },
            // git and the package manager speak no progress protocol; their own output is
            // the progress, and it is already streamed to the Jobs tab line by line.
            JobKind::Update => {},
        }
        Launch {
            program: self.program.clone(),
            argv: copy_texts(&self.args),
            env: vars,
            cwd: match &self.cwd {
                Some(dir) => Some(dir.clone()),
                None => None,
            },
            display: self.display.clone(),
        }
    }

    /// The job that tracks this run once it has started. Its log opens with the command,
    /// and so should its log file.
    pub fn started(self, id: u64, pid: Option<u32>, log_path: String, now: i64) -> (r: Job)
        ensures
            r@ == (JobView {
                id,
                kind: self@.kind,
                title: self@.title,
                command_line: self@.display,
                status: JobStatusView::Running,
                progress: JobProgressView { phase: ""@, done: 0, total: 0, bytes: false },
                log: (RingView {
                    lines: Seq::empty(),
                    pushed: 0,
                    dropped: 0,
                    capacity: self@.log_capacity as nat,
                }).after_push("[ft-man] $ "@ + self@.display, false),
                log_path: log_path@,
                started_at: now,
                finished_at: None,
                output_path: None,
                last_sample: None,
                pid,
            }),
    {
        let mut log = LogRing::new(self.log_capacity);
        log.push(cat2("[ft-man] $ ", self.display.as_str()), false);
        Job {
            id,
            kind: self.kind,
            title: self.title,
            command_line: self.display,
            status: JobStatus::Running,
            progress: JobProgress::default(),
            log,
            log_path,
            started_at: now,
            finished_at: None,
            output_path: None,
            last_sample: None,
            pid,
        }
    }
}

/// The file that a run of `kind` started at `stamp` is logged to.
pub fn new_log_path(log_dir: &str, kind: &str, stamp: &str) -> (r: String)
    ensures
        r@ == joined_path(log_dir@, kind@ + "-"@ + stamp@ + ".log"@),
{
    join_path(log_dir, cat4(kind, "-", stamp, ".log").as_str())
}

/// The FTW marker file a converted checkpoint carries.
pub const FTW_INDEX: &'static str = "freetoken_weight.json";

/// Only a line of its own protocol is progress: what a convert reports does not read as a
/// bench's, nor the other way round, and an update reports none.
pub proof fn law_progress_is_only_read_from_its_own_protocol(kind: JobKind, line: Seq<char>)
    ensures
        progress_of(kind, line) matches Some(p) ==> match kind {
            JobKind::Convert => "FTCONVERT "@.is_prefix_of(line) && p.bytes,
            JobKind::Bench => "FTBENCH "@.is_prefix_of(line) && !p.bytes,
            JobKind::Update => false,
        },
{
    reveal_strlit("FTCONVERT ");
    reveal_strlit("FTBENCH ");
}

/// The reason offered for a failure is a line the job printed, worth reading, and short
/// enough to show.
pub proof fn law_a_failure_reason_is_an_interesting_line(lines: Seq<LineView>)
    ensures
        reason_in(lines) matches Some(why) ==> why.len() <= 300 && exists|i: int|
            0 <= i < lines.len() && interesting(trimmed((#[trigger] lines[i]).text)) && why
                == clipped(trimmed(lines[i].text), 300),
        reason_in(lines) is None ==> forall|i: int|
            0 <= i < lines.len() ==> !interesting(trimmed((#[trigger] lines[i]).text)),
    decreases lines.len(),
{
    if lines.len() > 0 {
        let n = lines.len() - 1;
        if interesting(trimmed(lines.last().text)) {
            assert(lines[n] == lines.last());
        } else {
            let head = lines.drop_last();
            law_a_failure_reason_is_an_interesting_line(head);
            if reason_in(lines) is Some {
                let i = choose|i: int|
                    0 <= i < head.len() && interesting(trimmed((#[trigger] head[i]).text))
                        && reason_in(lines)->0 == clipped(trimmed(head[i].text), 300);
                assert(lines[i] == head[i]);
            } else {
                assert forall|i: int| 0 <= i < lines.len() implies !interesting(
                    trimmed((#[trigger] lines[i]).text),
                ) by {
                    if i < n {
                        assert(lines[i] == head[i]);
                    }
                }
            }
        }
    }
}

} // verus!
