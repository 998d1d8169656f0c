//! What supervising the engine and its jobs owes to what is seen of their processes.

use vstd::prelude::*;
use crate::ft::proc::{
    count_at, exit_text, interesting, job_env, launch_env, lines_since, progress_of, reason_in,
    starttime_of, status_of, ChildView, EngineState, EngineView, JobEventView, JobKind,
    JobProgressView, JobStatusView, JobView, LineView, RingView, SeenView, ServeState,
    ServeStateView,
};
use crate::laws::text::{
    law_a_numeral_is_one_word, law_a_space_ends_a_word, law_a_text_is_cut_at_its_first_space,
    law_what_holds_no_space_is_a_word,
};
use crate::text::{after_last, clipped, dec, dec_int, no_space, trimmed, unsigned_of, words_of};

verus! {

// ---------------------------------------------------------------- the log

/// A line that arrives is the last one held, numbered past every other. Only a full log gives
/// up a line for it, its oldest; the others stay as they are.
pub proof fn law_a_log_keeps_its_newest_lines(r: RingView, text: Seq<char>, err: bool)
    requires
        r.capacity > 0,
        r.lines.len() <= r.capacity,
    ensures
        ({
            let n = r.after_push(text, err);
            &&& n.lines.last() == (LineView { seq: r.pushed + 1, text, err })
            &&& r.lines.len() < r.capacity ==> n.lines.drop_last() == r.lines && n.dropped
                == r.dropped
            &&& r.lines.len() == r.capacity ==> n.lines.drop_last() == r.lines.skip(1) && n.dropped
                == r.dropped + 1
            &&& n.pushed == r.pushed + 1
            &&& n.capacity == r.capacity
            &&& r.after_clear().lines.len() == 0
            &&& r.after_clear().dropped == r.dropped + r.lines.len()
            &&& r.after_clear().pushed == r.pushed
        }),
{
    let n = r.after_push(text, err);
    if r.lines.len() < r.capacity {
        assert(n.lines.drop_last() =~= r.lines);
    } else {
        assert(n.lines.drop_last() =~= r.lines.skip(1));
    }
}

/// A reader gets every line that came after the one it has seen, the oldest of them first, up
/// to the number it asks for.
pub proof fn law_a_reader_misses_no_line(lines: Seq<LineView>, after: nat, limit: nat)
    ensures
        ({
            let newer = lines.filter(|l: LineView| l.seq > after);
            let got = lines_since(lines, after, limit);
            &&& newer.len() <= limit ==> got == newer
            &&& newer.len() > limit ==> got == newer.take(limit as int)
        }),
    decreases lines.len(),
{
    reveal_with_fuel(Seq::filter, 2);
    if lines.len() > 0 {
        let head = lines.drop_last();
        law_a_reader_misses_no_line(head, after, limit);
        let f = |l: LineView| l.seq > after;
        let newer = head.filter(f);
        if lines.last().seq > after {
            assert(lines.filter(f) == newer.push(lines.last()));
            if newer.len() >= limit {
                assert(newer.push(lines.last()).take(limit as int) =~= newer.take(limit as int));
                assert(newer.len() == limit ==> newer.take(limit as int) =~= newer);
            }
        } else {
            assert(lines.filter(f) == newer);
        }
    }
}

// ---------------------------------------------------------------- the process

/// The start time of a process is the twentieth word behind the last bracket of its `stat`
/// line, whatever the name inside the brackets holds.
pub proof fn law_a_start_time_stands_behind_the_name(head: Seq<char>, tail: Seq<char>, n: u64)
    requires
        !tail.contains(')'),
        words_of(tail).len() > 19,
        words_of(tail)[19] == dec(n as nat),
    ensures
        starttime_of(head + seq![')'] + tail) == Some(n),
        !head.contains(')') ==> starttime_of(head) is None,
{
    let s = head + seq![')'] + tail;
    lemma_tail(head.push(')'), tail);
    assert(head.push(')') + tail =~= s);
    assert(s[head.len() as int] == ')');
    assert(s.contains(')'));
    crate::text::law_a_numeral_reads_back(n as nat);
}

proof fn lemma_tail(head: Seq<char>, tail: Seq<char>)
    requires
        !tail.contains(')'),
        head.len() > 0,
        head.last() == ')',
    ensures
        after_last(head + tail, ')') == tail,
    decreases tail.len(),
{
    let s = head + tail;
    if tail.len() == 0 {
        assert(s =~= head);
        assert(after_last(s, ')') =~= tail);
    } else {
        let t = tail.drop_last();
        assert forall|i: int| 0 <= i < t.len() implies t[i] != ')' by {
            assert(tail.contains(tail[i]));
        }
        lemma_tail(head, t);
        assert(s.drop_last() =~= head + t);
        assert(tail.contains(tail.last()));
        assert(t.push(tail.last()) =~= tail);
    }
}

/// A recorded engine is alive exactly when the process under its PID started when it did.
pub proof fn law_a_record_is_alive_by_its_start_time(s: ServeState, t: u64)
    ensures
        s.alive_at(Some(t)) <==> t == s.starttime,
        !s.alive_at(None),
{
}

/// An engine is live from its start until it is asked to stop or exits.
pub proof fn law_which_states_are_live(code: Option<i32>, signal: Option<i32>)
    ensures
        EngineState::Starting.live(),
        EngineState::Running.live(),
        EngineState::Adopted.live(),
        !EngineState::Stopped.live(),
        !EngineState::Stopping.live(),
        !(EngineState::Exited { code, signal }).live(),
        EngineState::Stopped.idle(),
        (EngineState::Exited { code, signal }).idle(),
        !EngineState::Stopping.idle(),
        !EngineState::Starting.idle(),
        !EngineState::Running.idle(),
        !EngineState::Adopted.idle(),
{
}

/// A live engine that is asked to stop is interrupted, or killed where that is forced, and is
/// stopping from then on.
pub proof fn law_a_stop_reaches_the_process(e: EngineView, pid: u32, force: bool, now: u64)
    requires
        e.state.live(),
        e.pid == Some(pid),
    ensures
        e.stop_signal(force) == Some(
            (
                pid,
                if force {
                    9i32
                } else {
                    2i32
                },
            ),
        ),
        e.stopping(force, now).state == EngineState::Stopping,
        e.stopping(force, now).stop_at == Some(now),
        e.stopping(force, now).stop_stage == (if force {
            2u8
        } else {
            0u8
        }),
        e.stopping(force, now).pid == e.pid,
        e.stopping(force, now).has_child == e.has_child,
        e.stopping(force, now).adopted_starttime == e.adopted_starttime,
        e.stopping(force, now).log.pushed == e.log.pushed + 1,
{
}

/// What does not stop is terminated after twenty-five seconds and killed after forty, counted
/// in nanoseconds from the request, and not before.
pub proof fn law_what_does_not_stop_is_ended(e: EngineView, since: u64, now: u64)
    requires
        e.state is Stopping,
        e.stop_at == Some(since),
        e.pid is Some,
        since <= now,
    ensures
        e.stop_stage == 0 ==> (e.escalation(now) is Some <==> now - since > 25_000_000_000),
        e.stop_stage == 1 ==> (e.escalation(now) is Some <==> now - since > 40_000_000_000),
        e.stop_stage >= 2 ==> e.escalation(now) is None,
        e.escalation(now) matches Some((stage, signal, _)) ==> stage == e.stop_stage + 1 && signal
            == (if e.stop_stage == 0 {
            15i32
        } else {
            9i32
        }) && e.escalated(now).stop_stage == stage,
        e.escalated(now).state == e.state,
        e.escalated(now).pid == e.pid,
        e.escalated(now).stop_at == e.stop_at,
        e.escalation(now) is None ==> e.escalated(now) == e,
{
}

/// Nothing escalates unless a stop is under way.
pub proof fn law_only_a_stop_escalates(e: EngineView, now: u64)
    requires
        !(e.state is Stopping) || e.pid is None || e.stop_at is None,
    ensures
        e.escalation(now) is None,
        e.escalated(now) == e,
{
}

/// An idle supervisor takes over a live engine that another one recorded, with all that the
/// record says of it; a busy one only notes it; its own engine is no other's.
pub proof fn law_a_recorded_engine_is_taken_over(e: EngineView, s: ServeStateView)
    ensures
        e.pid is None && e.state.idle() ==> ({
            let n = e.refreshed(Some(s), true);
            &&& n.state == EngineState::Adopted
            &&& n.pid == Some(s.pid)
            &&& n.adopted_starttime == Some(s.starttime)
            &&& n.model == Some(s.model)
            &&& n.port == Some(s.port)
            &&& n.log_path == Some(s.log_path)
            &&& n.foreign is None
            &&& n.has_child == e.has_child
        }),
        e.pid is Some && e.pid != Some(s.pid) ==> ({
            let n = e.refreshed(Some(s), true);
            &&& n.foreign == Some(s)
            &&& n.pid == e.pid && n.state == e.state && n.log == e.log
        }),
        e.pid == Some(s.pid) ==> e.refreshed(Some(s), true).foreign is None && e.refreshed(
            Some(s),
            true,
        ).pid == e.pid && e.refreshed(Some(s), true).state == e.state,
        e.refreshed(None, true).foreign is None,
        e.refreshed(None, true).pid == e.pid && e.refreshed(None, true).state == e.state,
{
}

/// The record is looked at once a second, and at once where it never was.
pub proof fn law_the_record_is_looked_at_once_a_second(
    e: EngineView,
    now: u64,
    found: Option<ServeStateView>,
    alive: bool,
)
    ensures
        e.last_adopt_check is None ==> e.adopt_due(now),
        e.last_adopt_check is Some && e.last_adopt_check->0 <= now ==> (e.adopt_due(now) <==> now
            - e.last_adopt_check->0 >= 1_000_000_000),
        !e.adopt_due(now) ==> e.readopted(now, found, alive) == e,
        e.adopt_due(now) ==> e.readopted(now, found, alive).last_adopt_check == Some(now),
        e.adopt_due(now) && !(e.state is Stopping) ==> e.readopted(now, found, alive).pid
            == e.refreshed(found, alive).pid && e.readopted(now, found, alive).state
            == e.refreshed(found, alive).state && e.readopted(now, found, alive).foreign
            == e.refreshed(found, alive).foreign,
{
}

/// A process that still runs is left alone: a child that has not exited, and an engine that
/// is no child while its PID has the start time that it was adopted with.
pub proof fn law_a_running_process_is_left_alone(e: EngineView, t: u64, child: ChildView)
    ensures
        e.has_child ==> e.reaped(ChildView::Running, Some(t)) == e && !e.clears_record(
            ChildView::Running,
            Some(t),
        ),
        !e.has_child && e.adopted_starttime == Some(t) ==> e.reaped(child, Some(t)) == e
            && !e.clears_record(child, Some(t)),
        !e.has_child && e.pid is None ==> e.reaped(child, Some(t)) == e,
{
}

/// A process that is gone is noticed: an adopted one when nothing runs under its PID, and a
/// child when it exits. The record is cleared then, and the engine can be started again.
pub proof fn law_a_process_that_is_gone_is_noticed(
    e: EngineView,
    child: ChildView,
    code: Option<i32>,
    signal: Option<i32>,
    t: Option<u64>,
)
    ensures
        !e.has_child && e.pid is Some ==> ({
            let n = e.reaped(child, None);
            &&& n.state == (EngineState::Exited { code: None, signal: None })
            &&& n.pid is None && n.stop_at is None && n.stop_stage == 0
            &&& e.clears_record(child, None)
        }),
        e.has_child ==> ({
            let n = e.reaped(ChildView::Exited { code, signal }, t);
            &&& n.state == (EngineState::Exited { code, signal })
            &&& !n.has_child && n.pid is None && n.stop_at is None && n.stop_stage == 0
        }),
{
}

/// A tick takes in an exit of the child, whatever the record says, and a stop that is under
/// way goes on.
pub proof fn law_a_tick_takes_in_an_exit(e: EngineView, now: u64, seen: SeenView)
    requires
        e.has_child,
        e.pid is Some,
    ensures
        seen.child matches ChildView::Exited { code, signal } ==> e.polled(now, seen).state == (
        EngineState::Exited { code, signal }) && e.polled(now, seen).pid is None,
        seen.child is Running ==> e.polled(now, seen).state == e.state && e.polled(now, seen).pid
            == e.pid && e.polled(now, seen).has_child,
{
}

// ---------------------------------------------------------------- jobs

/// How an exit reads, and what it means for a job: status 0 is success, an interrupt is a
/// cancellation, and anything else a failure that says how it ended.
pub proof fn law_what_an_exit_means(code: i32, signal: i32)
    ensures
        status_of(Some(0i32), None) is Done,
        code != 0 ==> status_of(Some(code), None) == JobStatusView::Failed(
            "with status "@ + dec_int(code as int),
        ),
        status_of(None, Some(2i32)) is Canceled,
        signal != 2 ==> status_of(None, Some(signal)) == JobStatusView::Failed(
            "on signal "@ + dec_int(signal as int),
        ),
        status_of(None, None) is Failed,
{
}

/// A convert's report reads back: the phase, the bytes done and the bytes in all.
pub proof fn law_a_convert_reports_its_bytes(phase: Seq<char>, done: u64, total: u64)
    requires
        no_space(phase),
        phase.len() > 0,
    ensures
        progress_of(
            JobKind::Convert,
            "FTCONVERT "@ + (phase + seq![' '] + (dec(done as nat) + seq![' '] + dec(
                total as nat,
            ))),
        ) == Some(JobProgressView { phase, done, total, bytes: true }),
{
    let (d, t) = (dec(done as nat), dec(total as nat));
    let rest = phase + seq![' '] + (d + seq![' '] + t);
    let line = "FTCONVERT "@ + rest;
    let n = "FTCONVERT "@.len() as int;
    assert(line.skip(n) =~= rest);
    assert(line.subrange(0, n) =~= "FTCONVERT "@);
    law_a_numeral_is_one_word(done as nat);
    law_a_numeral_is_one_word(total as nat);
    law_a_space_ends_a_word(phase, d + seq![' '] + t);
    law_a_space_ends_a_word(d, t);
    law_what_holds_no_space_is_a_word(phase);
    law_what_holds_no_space_is_a_word(d);
    law_what_holds_no_space_is_a_word(t);
    let w = words_of(rest);
    assert(w =~= seq![phase, d, t]);
    crate::text::law_a_numeral_reads_back(done as nat);
    crate::text::law_a_numeral_reads_back(total as nat);
}

/// A bench's report reads back: the steps done, the steps in all and what is measured.
pub proof fn law_a_bench_reports_its_steps(done: u64, total: u64, label: Seq<char>)
    ensures
        progress_of(
            JobKind::Bench,
            "FTBENCH "@ + (dec(done as nat) + seq![' '] + (dec(total as nat) + seq![' '] + label)),
        ) == Some(JobProgressView { phase: trimmed(label), done, total, bytes: false }),
{
    let (d, t) = (dec(done as nat), dec(total as nat));
    let rest = d + seq![' '] + (t + seq![' '] + label);
    let line = "FTBENCH "@ + rest;
    let n = "FTBENCH "@.len() as int;
    assert(line.skip(n) =~= rest);
    assert(line.subrange(0, n) =~= "FTBENCH "@);
    law_a_numeral_is_one_word(done as nat);
    law_a_numeral_is_one_word(total as nat);
    law_a_text_is_cut_at_its_first_space(d, t + seq![' '] + label);
    law_a_text_is_cut_at_its_first_space(t, label);
    crate::text::law_a_numeral_reads_back(done as nat);
    crate::text::law_a_numeral_reads_back(total as nat);
}

/// A line of a job is the path it wrote to, progress in its own protocol, or plain output.
pub proof fn law_a_job_hears_its_protocol(j: JobView, path: Seq<char>, line: Seq<char>)
    ensures
        j.hears("FTBENCH_OUT "@ + path) == JobEventView::Output(j.id, trimmed(path)),
        !"FTBENCH_OUT "@.is_prefix_of(line) && progress_of(j.kind, line) is Some ==> j.hears(line)
            == JobEventView::Progress(j.id, progress_of(j.kind, line)->0),
        !"FTBENCH_OUT "@.is_prefix_of(line) && progress_of(j.kind, line) is None ==> j.hears(line)
            is Line,
        progress_of(JobKind::Update, line) is None,
        !"FTCONVERT "@.is_prefix_of(line) ==> progress_of(JobKind::Convert, line) is None,
        !"FTBENCH "@.is_prefix_of(line) ==> progress_of(JobKind::Bench, line) is None,
{
    let s = "FTBENCH_OUT "@ + path;
    let n = "FTBENCH_OUT "@.len() as int;
    assert(s.subrange(0, n) =~= "FTBENCH_OUT "@);
    assert(s.skip(n) =~= path);
}

/// The reason of a failure is the last line worth reading: one more that is replaces it, and
/// one more that is not leaves it.
pub proof fn law_the_last_telling_line_is_the_reason(lines: Seq<LineView>, more: LineView)
    ensures
        interesting(trimmed(more.text)) ==> reason_in(lines.push(more)) == Some(
            clipped(trimmed(more.text), 300),
        ),
        !interesting(trimmed(more.text)) ==> reason_in(lines.push(more)) == reason_in(lines),
        reason_in(Seq::empty()) is None,
{
    assert(lines.push(more).drop_last() =~= lines);
}

/// A line is worth reading unless it is empty, paddock's own, or the scaffolding of a
/// traceback.
pub proof fn law_scaffolding_is_not_worth_reading(rest: Seq<char>, line: Seq<char>)
    ensures
        !interesting(Seq::empty()),
        !interesting("[ft-man]"@ + rest),
        !interesting("Traceback"@ + rest),
        !interesting("File \""@ + rest),
        !interesting("^"@ + rest),
        !interesting("~"@ + rest),
        !interesting("During handling"@ + rest),
        !interesting("The above exception"@ + rest),
        line.len() > 0 && line[0] != '[' && line[0] != 'F' && line[0] != '^' && line[0] != '~'
            && line[0] != 'T' && line[0] != 'D' ==> interesting(line),
{
    assert(("[ft-man]"@ + rest).subrange(0, "[ft-man]"@.len() as int) =~= "[ft-man]"@);
    assert(("Traceback"@ + rest).subrange(0, "Traceback"@.len() as int) =~= "Traceback"@);
    assert(("File \""@ + rest).subrange(0, "File \""@.len() as int) =~= "File \""@);
    assert(("^"@ + rest).subrange(0, "^"@.len() as int) =~= "^"@);
    assert(("~"@ + rest).subrange(0, "~"@.len() as int) =~= "~"@);
    assert(("During handling"@ + rest).subrange(0, "During handling"@.len() as int)
        =~= "During handling"@);
    assert(("The above exception"@ + rest).subrange(0, "The above exception"@.len() as int)
        =~= "The above exception"@);
    reveal_strlit("[ft-man]");
    reveal_strlit("File \"");
    reveal_strlit("^");
    reveal_strlit("~");
    reveal_strlit("Traceback");
    reveal_strlit("During handling");
    reveal_strlit("The above exception");
    assert("[ft-man]"@[0] == '[' && "File \""@[0] == 'F' && "^"@[0] == '^' && "~"@[0] == '~'
        && "Traceback"@[0] == 'T' && "During handling"@[0] == 'D' && "The above exception"@[0]
        == 'T');
    if line.len() > 0 {
        lemma_first(line, "[ft-man]"@);
        lemma_first(line, "File \""@);
        lemma_first(line, "^"@);
        lemma_first(line, "~"@);
        lemma_first(line, "Traceback"@);
        lemma_first(line, "During handling"@);
        lemma_first(line, "The above exception"@);
    }
}

proof fn lemma_first(line: Seq<char>, start: Seq<char>)
    requires
        line.len() > 0,
        start.len() > 0,
    ensures
        start.is_prefix_of(line) ==> start[0] == line[0],
{
    if start.is_prefix_of(line) {
        assert(line.subrange(0, start.len() as int)[0] == line[0]);
    }
}

/// A write rate is sampled at most twice a second: what was written since the last sample,
/// and how long that took. The progress itself is always taken in.
pub proof fn law_a_rate_is_what_was_written_since(
    j: JobView,
    p: JobProgressView,
    then: u64,
    before: u64,
    now: u64,
)
    requires
        then <= now,
        before <= p.done,
    ensures
        j.observed(p, now).progress == p,
        p.bytes && j.last_sample is None ==> j.observed(p, now).last_sample == Some((now, p.done))
            && j.sample(p, now) is None,
        p.bytes && j.last_sample == Some((then, before)) && now - then >= 500_000_000 ==> j.sample(
            p,
            now,
        ) == Some(((p.done - before) as u64, (now - then) as u64)) && j.observed(p, now).last_sample
            == Some((now, p.done)),
        p.bytes && j.last_sample == Some((then, before)) && now - then < 500_000_000 ==> j.sample(
            p,
            now,
        ) is None && j.observed(p, now).last_sample == j.last_sample,
        !p.bytes ==> j.sample(p, now) is None && j.observed(p, now).last_sample == j.last_sample,
{
}

/// A job runs with the variables that are configured, unbuffered, and with its progress
/// protocol on where it has one.
pub proof fn law_a_job_is_asked_for_its_progress(env: Seq<(Seq<char>, Seq<char>)>)
    ensures
        launch_env(env) == env + seq![("PYTHONUNBUFFERED"@, "1"@)],
        job_env(JobKind::Convert, env) == env + seq![
            ("PYTHONUNBUFFERED"@, "1"@),
            ("FREETOKEN_CONVERT_PROGRESS"@, "1"@),
        ],
        job_env(JobKind::Bench, env) == env + seq![
            ("PYTHONUNBUFFERED"@, "1"@),
            ("FREETOKEN_BENCH_PROGRESS"@, "1"@),
        ],
        job_env(JobKind::Update, env) == env + seq![("PYTHONUNBUFFERED"@, "1"@)],
{
    assert(launch_env(env) =~= env + seq![("PYTHONUNBUFFERED"@, "1"@)]);
    assert(job_env(JobKind::Convert, env) =~= env + seq![
        ("PYTHONUNBUFFERED"@, "1"@),
        ("FREETOKEN_CONVERT_PROGRESS"@, "1"@),
    ]);
    assert(job_env(JobKind::Bench, env) =~= env + seq![
        ("PYTHONUNBUFFERED"@, "1"@),
        ("FREETOKEN_BENCH_PROGRESS"@, "1"@),
    ]);
}

/// A tick that takes over an engine goes by the start time in its record, any other by the
/// one it saw.
pub proof fn law_a_tick_goes_by_the_start_time_of_its_engine(e: EngineView, now: u64, seen: SeenView)
    ensures
        e.looked_around(now, seen).pid == e.pid ==> e.start_seen(now, seen) == seen.starttime,
        e.looked_around(now, seen).pid != e.pid ==> e.start_seen(now, seen) == e.looked_around(
            now,
            seen,
        ).adopted_starttime,
{
}

/// How an exit is put into words: by its status, or else by its signal.
pub proof fn law_an_exit_is_put_into_words(code: i32, signal: i32)
    ensures
        code != 0 ==> exit_text(Some(code), None) == "with status "@ + dec_int(code as int),
        exit_text(Some(0), Some(signal)) == "cleanly (status 0)"@,
        exit_text(None, Some(signal)) == "on signal "@ + dec_int(signal as int),
        exit_text(None, None) == "for an unknown reason"@,
{
}

/// A count that a report leaves out, or that is none, is nothing.
pub proof fn law_a_missing_count_is_nothing(w: Seq<Seq<char>>, i: int, n: u64)
    requires
        0 <= i,
    ensures
        i >= w.len() ==> count_at(w, i) == 0,
        i < w.len() && w[i] == dec(n as nat) ==> count_at(w, i) == n,
        i < w.len() && unsigned_of(w[i]) is None ==> count_at(w, i) == 0,
{
    crate::text::law_a_numeral_reads_back(n as nat);
}

} // verus!
