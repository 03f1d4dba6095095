//! The decisions of a replay run: when the coordinator starts a worker, what a
//! worker does next, and what each step does to the metrics.
//!
//! The run itself, with its tasks and its database calls, lies outside: it asks
//! these functions what to do, does it, and comes back with what happened.

use crate::client_pool::{ClientPool, Handout};
use crate::dispatch::{
    call_views, carried_out, dispatch, is_carried_out, planned, DriverCall, OpRunMode,
};
use crate::host::unix_seconds;
use crate::indicator::{
    added, number_of, pushed, registry_wf, subbed, with_cost, with_number, Indicator,
    MetricView,
};
use crate::op_logs::{loaded, malformed_lines, OpLogs, OpLogsView, OpReadMode, ReadModeView};
use crate::op_row::{Op, OpRow, OpRowView};
use crate::stack::{are_stuck, not_stuck, stack_entries, OpStack};
use crate::strings::{decimal, i64_text, lines_in, lines_of, signed_decimal, usize_text};
use crate::text::json_text;
use vstd::prelude::*;

verus! {

/// The number of workers that a run wants: the workers it began with and those
/// that were asked for since.
pub open spec fn desired_workers(thread_count: u32, dyn_threads: usize) -> int {
    thread_count + dyn_threads
}

/// What the coordinator does next.
#[derive(Debug, Clone, Copy, PartialEq, Eq, Structural)]
pub enum Spawn {
    /// No further worker is started.
    Done,
    /// All wanted workers are started: look again in a second.
    Wait,
    /// Start the worker `index`; `gated` says whether it waits at the barrier of
    /// the workers that the run began with.
    Worker { index: usize, gated: bool },
}

/// What the coordinator does next, given how many workers it has started.
pub open spec fn spawn_decision(
    thread_count: u32,
    dyn_threads: usize,
    done_worker: usize,
    signal: usize,
    created: usize,
) -> Spawn {
    if done_worker >= desired_workers(thread_count, dyn_threads) || signal != 0 {
        Spawn::Done
    } else if created >= desired_workers(thread_count, dyn_threads) {
        Spawn::Wait
    } else {
        Spawn::Worker { index: created, gated: created < thread_count }
    }
}

/// What the coordinator does next.
pub fn next_spawn(
    thread_count: u32,
    dyn_threads: usize,
    done_worker: usize,
    signal: usize,
    created: usize,
) -> (step: Spawn)
    ensures
        step == spawn_decision(thread_count, dyn_threads, done_worker, signal, created),
{
    let desired: u128 = thread_count as u128 + dyn_threads as u128;
    if done_worker as u128 >= desired || signal != 0 {
        Spawn::Done
    } else if created as u128 >= desired {
        Spawn::Wait
    } else {
        Spawn::Worker { index: created, gated: (created as u128) < thread_count as u128 }
    }
}

/// The number of operations that a run is expected to dispatch: none known for a
/// run without end; in `FullLine` mode the records times the loops times the
/// wanted workers, cut to the largest number that fits; else the records.
pub open spec fn expected_total(
    records: usize,
    loop_count: usize,
    thread_count: u32,
    dyn_threads: usize,
    mode: ReadModeView,
) -> usize {
    if loop_count == 0 {
        0
    } else if mode is FullLine {
        let product = records * loop_count * desired_workers(thread_count, dyn_threads);
        if product > usize::MAX {
            usize::MAX
        } else {
            product as usize
        }
    } else {
        records
    }
}

/// The number of operations that a run is expected to dispatch.
pub fn progress_total(
    records: usize,
    loop_count: usize,
    thread_count: u32,
    dyn_threads: usize,
    mode: &OpReadMode,
) -> (total: usize)
    ensures
        total == expected_total(records, loop_count, thread_count, dyn_threads, mode@),
{
    if loop_count == 0 {
        return 0;
    }
    let striped = match mode {
        OpReadMode::FullLine(_) => true,
        _ => false,
    };
    if !striped {
        return records;
    }
    let desired: u128 = thread_count as u128 + dyn_threads as u128;
    if records == 0 || desired == 0 {
        assert(records * loop_count * desired_workers(thread_count, dyn_threads) == 0)
            by (nonlinear_arith)
            requires
                records == 0 || desired_workers(thread_count, dyn_threads) == 0,
        ;
        return 0;
    }
    let ghost w = desired_workers(thread_count, dyn_threads);
    if desired > usize::MAX as u128 {
        assert(records * loop_count * w > usize::MAX) by (nonlinear_arith)
            requires
                records >= 1,
                loop_count >= 1,
                w > usize::MAX,
        ;
        return usize::MAX;
    }
    let workers: usize = desired as usize;
    match records.checked_mul(loop_count) {
        Some(per_worker) => match per_worker.checked_mul(workers) {
            Some(product) => product,
            None => usize::MAX,
        },
        None => {
            assert(records * loop_count * w > usize::MAX) by (nonlinear_arith)
                requires
                    records * loop_count > usize::MAX,
                    w >= 1,
            ;
            usize::MAX
        },
    }
}

/// The state of one worker: which pass it is in and which record comes next.
#[derive(Debug, Clone, Copy, PartialEq, Eq, Structural)]
pub struct Worker {
    /// The worker's number, counted from zero in the order of starting.
    pub index: usize,
    /// How many passes over the log the worker makes; zero is without end.
    pub loop_count: usize,
    /// How many passes are done.
    pub loops_done: usize,
    /// Which of its records the worker takes next in this pass.
    pub row_index: usize,
}

/// What a worker does next.
#[derive(Debug, Clone, Copy, PartialEq, Eq, Structural)]
pub enum Step {
    /// Leave: the run is cancelled or the passes are done.
    Exit,
    /// Too many operations are under way: sleep a moment and ask again.
    Throttle,
    /// Ask the reader for the record `row` of the worker `worker`.
    Fetch { worker: usize, row: usize },
}

impl Worker {
    /// Whether the worker has made all its passes.
    pub open spec fn passes_done(self) -> bool {
        self.loop_count > 0 && self.loops_done >= self.loop_count
    }

    /// What the worker does next: it leaves where the signal is set or its passes
    /// are done, waits where the operations under way have reached a limit that
    /// is set, and else asks for its next record.
    pub open spec fn decision(self, signal: usize, dyn_cc_limit: usize, querying: usize) -> Step {
        if signal != 0 || self.passes_done() {
            Step::Exit
        } else if dyn_cc_limit > 0 && querying >= dyn_cc_limit {
            Step::Throttle
        } else {
            Step::Fetch { worker: self.index, row: self.row_index }
        }
    }

    /// The worker after it was given a record.
    pub open spec fn after_record(self) -> Worker {
        Worker {
            row_index: if self.row_index == usize::MAX {
                usize::MAX
            } else {
                (self.row_index + 1) as usize
            },
            ..self
        }
    }

    /// The worker after the reader had no further record for it: one more pass is
    /// done and the next begins at the first record.
    pub open spec fn after_pass(self) -> Worker {
        Worker {
            loops_done: if self.loops_done == usize::MAX {
                usize::MAX
            } else {
                (self.loops_done + 1) as usize
            },
            row_index: 0,
            ..self
        }
    }

    /// The worker `index` at the start of its first pass.
    pub fn new(index: usize, loop_count: usize) -> (w: Worker)
        ensures
            w == (Worker { index, loop_count, loops_done: 0, row_index: 0 }),
    {
        Worker { index, loop_count, loops_done: 0, row_index: 0 }
    }

    /// Whether the worker waits at the barrier of the `thread_count` workers that
    /// the run began with.
    pub fn is_gated(&self, thread_count: u32) -> (gated: bool)
        ensures
            gated == (self.index < thread_count),
    {
        (self.index as u128) < thread_count as u128
    }

    /// What the worker does next.
    pub fn next(&self, signal: usize, dyn_cc_limit: usize, querying: usize) -> (step: Step)
        ensures
            step == self.decision(signal, dyn_cc_limit, querying),
    {
        if signal != 0 || (self.loop_count > 0 && self.loops_done >= self.loop_count) {
            Step::Exit
        } else if dyn_cc_limit > 0 && querying >= dyn_cc_limit {
            Step::Throttle
        } else {
            Step::Fetch { worker: self.index, row: self.row_index }
        }
    }

    /// Notes that the worker was given the record it asked for.
    pub fn record_taken(&mut self)
        ensures
            *final(self) == old(self).after_record(),
    {
        self.row_index = self.row_index.saturating_add(1);
    }

    /// Notes that the reader had no further record for the worker.
    pub fn pass_ended(&mut self)
        ensures
            *final(self) == old(self).after_pass(),
    {
        self.loops_done = self.loops_done.saturating_add(1);
        self.row_index = 0;
    }
}

/// The registry after a worker has started.
pub open spec fn worker_booted(e: Seq<(Seq<char>, MetricView)>) -> Seq<(Seq<char>, MetricView)> {
    added(e, "boot_worker"@, 1)
}

/// The registry after a worker has left.
pub open spec fn worker_left(e: Seq<(Seq<char>, MetricView)>) -> Seq<(Seq<char>, MetricView)> {
    added(e, "done_worker"@, 1)
}

/// The registry after a record was handed to the database: one more operation
/// dispatched and one more under way.
pub open spec fn begun(e: Seq<(Seq<char>, MetricView)>) -> Seq<(Seq<char>, MetricView)> {
    added(added(e, "progress"@, 1), "querying"@, 1)
}

/// The registry after the operation of `row` has come back after `elapsed_ms`
/// milliseconds: where it was carried out its cost and itself are counted; its
/// cost goes into the statistics of its key with `example`; and one operation
/// less is under way.
pub open spec fn finished(
    e: Seq<(Seq<char>, MetricView)>,
    row: OpRowView,
    mode: OpRunMode,
    elapsed_ms: usize,
    example: Seq<char>,
) -> Seq<(Seq<char>, MetricView)> {
    let counted = if carried_out(row.op, mode) {
        added(added(e, "cost_ms"@, elapsed_ms), "query_count"@, 1)
    } else {
        e
    };
    subbed(with_cost(counted, "query_stats"@, row.key, elapsed_ms, example), "querying"@, 1)
}

/// Notes that a worker has started.
pub fn boot_worker(ind: &mut Indicator)
    ensures
        final(ind)@ == worker_booted(old(ind)@),
        registry_wf(old(ind)@) ==> registry_wf(final(ind)@),
{
    ind.add("boot_worker", 1);
}

/// Notes that a worker has left.
pub fn done_worker(ind: &mut Indicator)
    ensures
        final(ind)@ == worker_left(old(ind)@),
        registry_wf(old(ind)@) ==> registry_wf(final(ind)@),
{
    ind.add("done_worker", 1);
}

/// What `worker` does next, by the metrics of the run.
pub fn next_step_of(ind: &Indicator, worker: &Worker, signal: usize) -> (step: Step)
    ensures
        step == worker.decision(
            signal,
            number_of(ind@, "dyn_cc_limit"@),
            number_of(ind@, "querying"@),
        ),
{
    worker.next(signal, ind.get("dyn_cc_limit"), ind.get("querying"))
}

/// Notes that the record `id` is handed to the database at the millisecond `now`.
pub fn begin_op(ind: &mut Indicator, stack: &mut OpStack, id: &str, now: u64)
    ensures
        final(ind)@ == begun(old(ind)@),
        stack_entries(*final(stack)) == stack_entries(*old(stack)).insert(id@, now),
        registry_wf(old(ind)@) ==> registry_wf(final(ind)@),
{
    ind.add("progress", 1);
    ind.add("querying", 1);
    stack.insert(id.to_string(), now);
}

/// Notes that the operation of `row` has come back after `elapsed_ms` milliseconds.
pub fn finish_op(
    ind: &mut Indicator,
    stack: &mut OpStack,
    row: &OpRow,
    mode: OpRunMode,
    elapsed_ms: usize,
)
    ensures
        final(ind)@ == finished(old(ind)@, row@, mode, elapsed_ms, json_text(row@.cmd)),
        stack_entries(*final(stack)) == stack_entries(*old(stack)).remove(row@.id),
        registry_wf(old(ind)@) ==> registry_wf(final(ind)@),
{
    if is_carried_out(row.op, mode) {
        ind.add("cost_ms", elapsed_ms);
        ind.add("query_count", 1);
    }
    let example = row.cmd.to_text();
    ind.map_add("query_stats", row.key.as_str(), elapsed_ms, example.as_str());
    ind.sub("querying", 1);
    stack.remove(row.id.as_str());
}

/// The log line of a line of the log that stands for no record; `at` is the
/// line's position, counted from zero.
pub open spec fn malformed_text(at: usize) -> Seq<char> {
    "OPExec line "@ + decimal(at as nat + 1) + " is malformed and skipped"@
}

/// The log lines of the lines at the positions `at`, in their order.
pub open spec fn malformed_texts(at: Seq<usize>) -> Seq<Seq<char>>
    decreases at.len(),
{
    if at.len() == 0 {
        Seq::empty()
    } else {
        malformed_texts(at.drop_last()).push(malformed_text(at.last()))
    }
}

/// The reader of a run: it holds the records of the log with the text
/// `content` and deals them out to the `thread_count` workers that the run
/// begins with. That number is noted in the registry, and each line that stands
/// for no record is logged.
pub fn open_reader(
    ind: &mut Indicator,
    mode: OpReadMode,
    ignore_field: Vec<String>,
    content: &str,
    thread_count: u32,
) -> (logs: OpLogs)
    ensures
        logs@ == (OpLogsView {
            mode: mode@,
            ignore_field: ignore_field.deep_view(),
            rows: loaded(lines_in(content@), mode@.filter(), ignore_field.deep_view()),
            malformed: malformed_lines(lines_in(content@), mode@.filter()),
            stride: thread_count as usize,
            cursor: 0,
        }),
        final(ind)@ == logged_all(
            with_number(old(ind)@, "thread_count"@, thread_count as usize),
            malformed_texts(logs@.malformed),
        ),
        registry_wf(old(ind)@) ==> registry_wf(final(ind)@),
{
    ind.set("thread_count", thread_count as usize);
    let lines = lines_of(content);
    let logs = OpLogs::new(mode, ignore_field).init(&lines, thread_count as usize);
    let ghost start = ind@;
    let ghost at = logs.malformed@;
    let mut i: usize = 0;
    while i < logs.malformed.len()
        invariant
            i <= logs.malformed.len(),
            at == logs.malformed@,
            ind@ == logged_all(start, malformed_texts(at.take(i as int))),
            registry_wf(old(ind)@) ==> registry_wf(ind@),
        decreases logs.malformed.len() - i,
    {
        let n = logs.malformed[i];
        let mut line = "OPExec line ".to_string();
        if n == usize::MAX {
            line.append(crate::strings::u128_text(n as u128 + 1).as_str());
        } else {
            line.append(usize_text(n + 1).as_str());
        }
        line.append(" is malformed and skipped");
        ind.push("logs", line);
        proof {
            let next = at.take(i as int + 1);
            assert(next.drop_last() =~= at.take(i as int));
            let texts = malformed_texts(next);
            assert(texts.drop_last() =~= malformed_texts(at.take(i as int)));
        }
        i += 1;
    }
    assert(at.take(logs.malformed.len() as int) =~= at);
    logs
}

/// The coordinator of a run: what it starts workers by, and how many it has started.
#[derive(Debug, PartialEq)]
pub struct Coordinator {
    /// How many workers the run begins with.
    pub thread_count: u32,
    /// How many passes each worker makes; zero is without end.
    pub loop_count: usize,
    /// How many records the reader holds.
    pub records: usize,
    pub mode: OpReadMode,
    /// The plan of the clients that the workers are given.
    pub pool: ClientPool,
    /// How many workers were started.
    pub created: usize,
}

/// What the coordinator does next.
#[derive(Debug, Clone, Copy, PartialEq, Eq, Structural)]
pub enum Launch {
    /// No further worker is started: wait for the workers to leave.
    Done,
    /// All wanted workers are started: look again in a second.
    Wait,
    /// Start `worker` with the client of `client`; `gated` says whether it waits
    /// at the barrier of the workers that the run began with, and `total` is
    /// the number of operations that the run is expected to dispatch with the
    /// workers that are wanted now. Where the pool hands out no client the
    /// worker cannot be started.
    Start { worker: Worker, gated: bool, client: Option<Handout>, total: usize },
}

/// How many callers one client of a run with `thread_count` workers serves: a
/// hundred for each worker, cut to the largest number that fits.
pub open spec fn pool_block(thread_count: u32) -> u32 {
    if thread_count * 100 > u32::MAX {
        u32::MAX
    } else {
        (thread_count * 100) as u32
    }
}

impl Coordinator {
    /// The coordinator of a run over `records` records, whose clients connect to
    /// `uri`.
    pub fn new(
        uri: &str,
        thread_count: u32,
        loop_count: usize,
        records: usize,
        mode: OpReadMode,
    ) -> (c: Coordinator)
        ensures
            c.thread_count == thread_count,
            c.loop_count == loop_count,
            c.records == records,
            c.mode@ == mode@,
            c.created == 0,
            c.pool.uri_view() == uri@,
            c.pool.every() == pool_block(thread_count),
            c.pool.made() == 0,
            c.pool.handed_out() == 0,
    {
        let block = match thread_count.checked_mul(100) {
            Some(n) => n,
            None => u32::MAX,
        };
        Coordinator {
            thread_count,
            loop_count,
            records,
            mode,
            pool: ClientPool::new(uri, block),
            created: 0,
        }
    }

    /// What the coordinator does next, by the metrics `e` of the run.
    pub open spec fn planned(self, e: Seq<(Seq<char>, MetricView)>, signal: usize) -> Launch {
        match spawn_decision(
            self.thread_count,
            number_of(e, "dyn_threads"@),
            number_of(e, "done_worker"@),
            signal,
            self.created,
        ) {
            Spawn::Done => Launch::Done,
            Spawn::Wait => Launch::Wait,
            Spawn::Worker { index, gated } => Launch::Start {
                worker: Worker { index, loop_count: self.loop_count, loops_done: 0, row_index: 0 },
                gated,
                client: self.pool.next_handout(),
                total: expected_total(
                    self.records,
                    self.loop_count,
                    self.thread_count,
                    number_of(e, "dyn_threads"@),
                    self.mode@,
                ),
            },
        }
    }

    /// What the coordinator does next, by the metrics of the run.
    ///
    /// Nothing is counted yet: a worker that is to be started needs its client
    /// first, and the client may fail to be made. Once the worker is started,
    /// [`Coordinator::started`] counts it.
    pub fn next(&self, ind: &Indicator, signal: usize) -> (launch: Launch)
        ensures
            launch == self.planned(ind@, signal),
    {
        let dyn_threads = ind.get("dyn_threads");
        let done = ind.get("done_worker");
        match next_spawn(self.thread_count, dyn_threads, done, signal, self.created) {
            Spawn::Done => Launch::Done,
            Spawn::Wait => Launch::Wait,
            Spawn::Worker { index, gated } => Launch::Start {
                worker: Worker::new(index, self.loop_count),
                gated,
                client: self.pool.get(),
                total: progress_total(
                    self.records,
                    self.loop_count,
                    self.thread_count,
                    dyn_threads,
                    &self.mode,
                ),
            },
        }
    }

    /// Notes that the worker of the last plan was started with its client: the
    /// worker is counted, the pool counts its caller and, where the client was
    /// made for it, the client, and the number of operations that the run is
    /// expected to dispatch is set to `total`.
    pub fn started(&mut self, ind: &mut Indicator, total: usize)
        ensures
            final(self).thread_count == old(self).thread_count,
            final(self).loop_count == old(self).loop_count,
            final(self).records == old(self).records,
            final(self).mode == old(self).mode,
            final(self).pool.uri_view() == old(self).pool.uri_view(),
            final(self).pool.every() == old(self).pool.every(),
            final(self).created == if old(self).created == usize::MAX {
                usize::MAX
            } else {
                (old(self).created + 1) as usize
            },
            match old(self).pool.next_handout() {
                Some(h) => final(self).pool.handed_out() == old(self).pool.handed_out() + 1
                    && final(self).pool.made() == old(self).pool.made() + if h.created {
                    1int
                } else {
                    0int
                },
                None => final(self).pool.handed_out() == old(self).pool.handed_out()
                    && final(self).pool.made() == old(self).pool.made(),
            },
            final(ind)@ == with_number(old(ind)@, "progress_total"@, total),
            registry_wf(old(ind)@) ==> registry_wf(final(ind)@),
    {
        self.pool.commit();
        self.created = self.created.saturating_add(1);
        ind.set("progress_total", total);
    }
}

/// One turn of a worker.
#[derive(Debug, PartialEq)]
pub enum Turn {
    /// The worker leaves: the run is cancelled or the passes are done.
    Exit,
    /// Too many operations are under way: sleep a moment and ask again.
    Throttle,
    /// The pass has ended: the reader had no further record for the worker.
    PassEnded,
    /// The record was handed over: make the calls, then report the end of the
    /// operation.
    Run { row: OpRow, calls: Vec<DriverCall> },
}

impl Worker {
    /// One turn of the cycle of a worker, at the millisecond `now`.
    ///
    /// The worker leaves or waits as the signal and the limit of operations
    /// under way say. Else it asks the reader for its next record. Where there
    /// is none, its pass has ended. Where there is one, the record is counted as
    /// dispatched and as under way, it is put on the stack of operations under
    /// way, and the worker is told the calls that it turns into.
    pub fn turn(
        &mut self,
        ind: &mut Indicator,
        logs: &mut OpLogs,
        stack: &mut OpStack,
        signal: usize,
        run_mode: OpRunMode,
        now: u64,
    ) -> (turn: Turn)
        ensures
            match old(self).decision(
                signal,
                number_of(old(ind)@, "dyn_cc_limit"@),
                number_of(old(ind)@, "querying"@),
            ) {
                Step::Exit => turn == Turn::Exit && *final(self) == *old(self) && final(ind)@
                    == old(ind)@ && final(logs)@ == old(logs)@ && stack_entries(*final(stack))
                    == stack_entries(*old(stack)),
                Step::Throttle => turn == Turn::Throttle && *final(self) == *old(self)
                    && final(ind)@ == old(ind)@ && final(logs)@ == old(logs)@ && stack_entries(
                    *final(stack),
                ) == stack_entries(*old(stack)),
                Step::Fetch { worker, row } => {
                    &&& final(logs)@ == (OpLogsView {
                        cursor: old(logs)@.cursor_after(),
                        ..old(logs)@
                    })
                    &&& match old(logs)@.served(worker, row) {
                        None => turn == Turn::PassEnded && *final(self) == old(self).after_pass()
                            && final(ind)@ == old(ind)@ && stack_entries(*final(stack))
                            == stack_entries(*old(stack)),
                        Some(record) => {
                            &&& *final(self) == old(self).after_record()
                            &&& final(ind)@ == begun(old(ind)@)
                            &&& stack_entries(*final(stack)) == stack_entries(*old(stack)).insert(
                                record.id,
                                now,
                            )
                            &&& match turn {
                                Turn::Run { row, calls } => row@ == record && call_views(calls@)
                                    == planned(record, run_mode),
                                _ => false,
                            }
                        },
                    }
                },
            },
            registry_wf(old(ind)@) ==> registry_wf(final(ind)@),
    {
        match next_step_of(ind, self, signal) {
            Step::Exit => Turn::Exit,
            Step::Throttle => Turn::Throttle,
            Step::Fetch { worker, row } => match logs.read(worker, row) {
                None => {
                    self.pass_ended();
                    Turn::PassEnded
                },
                Some(record) => {
                    self.record_taken();
                    begin_op(ind, stack, record.id.as_str(), now);
                    let plan = dispatch(&record, run_mode);
                    Turn::Run { row: record, calls: plan.calls }
                },
            },
        }
    }
}

/// The words that stand before the error in the log line of a failed operation.
pub open spec fn error_label(op: Op) -> Seq<char> {
    match op {
        Op::GetMore => "getMore Error"@,
        Op::Update => "Update Err"@,
        Op::Insert => "Insert Err"@,
        Op::Delete => "Delete Err"@,
        Op::FindAndModify => "FindAndModify Err"@,
        _ => "err"@,
    }
}

/// The log line of an operation that failed at the second `at`.
pub open spec fn error_text(at: i64, id: Seq<char>, op: Op, error: Seq<char>) -> Seq<char> {
    "OPExec ["@ + signed_decimal(at as int) + "] ["@ + id + "] "@ + error_label(op) + " "@
        + error
}

/// The log line of an operation that was under way for too long, at the second `at`.
pub open spec fn timeout_text(at: i64, id: Seq<char>) -> Seq<char> {
    "OPExec ["@ + signed_decimal(at as int) + "] ["@ + id + "] timeout"@
}

/// The log line that ends a look at the operations under way, at the second `at`.
pub open spec fn checked_text(at: i64) -> Seq<char> {
    "OPExec ["@ + signed_decimal(at as int) + "] timeout check ok"@
}

/// The log line of an operation of kind `op` on the record `id` that failed with
/// `error` at the second `at`.
pub fn error_line(at: i64, id: &str, op: Op, error: &str) -> (line: String)
    ensures
        line@ == error_text(at, id@, op, error@),
{
    let mut line = "OPExec [".to_string();
    line.append(i64_text(at).as_str());
    line.append("] [");
    line.append(id);
    line.append("] ");
    line.append(
        match op {
            Op::GetMore => "getMore Error",
            Op::Update => "Update Err",
            Op::Insert => "Insert Err",
            Op::Delete => "Delete Err",
            Op::FindAndModify => "FindAndModify Err",
            _ => "err",
        },
    );
    line.append(" ");
    line.append(error);
    line
}

/// The log line of the record `id` whose operation was under way for too long.
pub fn timeout_line(at: i64, id: &str) -> (line: String)
    ensures
        line@ == timeout_text(at, id@),
{
    let mut line = "OPExec [".to_string();
    line.append(i64_text(at).as_str());
    line.append("] [");
    line.append(id);
    line.append("] timeout");
    line
}

/// The log line that ends a look at the operations under way.
pub fn checked_line(at: i64) -> (line: String)
    ensures
        line@ == checked_text(at),
{
    let mut line = "OPExec [".to_string();
    line.append(i64_text(at).as_str());
    line.append("] timeout check ok");
    line
}

/// Logs that the operation of `row` failed with `error`, under the time of the
/// machine, and returns that time in seconds. The worker goes on: nothing else
/// changes.
pub fn log_error(ind: &mut Indicator, row: &OpRow, error: &str) -> (at: i64)
    ensures
        final(ind)@ == pushed(old(ind)@, "logs"@, error_text(at, row@.id, row@.op, error@)),
        registry_wf(old(ind)@) ==> registry_wf(final(ind)@),
{
    let at = unix_seconds();
    let line = error_line(at, row.id.as_str(), row.op, error);
    ind.push("logs", line);
    at
}

/// What the watchdog does at one look.
#[derive(Debug, PartialEq)]
pub enum Watch {
    /// The run goes on: look again in five seconds.
    Sleep,
    /// The run is being stopped: the operations of these records were stuck, and
    /// the watchdog ends.
    Swept(Vec<String>),
}

/// The log lines for the stuck operations `ids`, in their order.
pub open spec fn timeout_texts(at: i64, ids: Seq<Seq<char>>) -> Seq<Seq<char>>
    decreases ids.len(),
{
    if ids.len() == 0 {
        Seq::empty()
    } else {
        timeout_texts(at, ids.drop_last()).push(timeout_text(at, ids.last()))
    }
}

/// The registry after `lines` were added to the log buffer of the metric `logs`,
/// one after another.
pub open spec fn logged_all(e: Seq<(Seq<char>, MetricView)>, lines: Seq<Seq<char>>) -> Seq<
    (Seq<char>, MetricView),
>
    decreases lines.len(),
{
    if lines.len() == 0 {
        e
    } else {
        pushed(logged_all(e, lines.drop_last()), "logs"@, lines.last())
    }
}

/// One look of the watchdog at the operations under way, at the millisecond
/// `now_ms` and the second `now_secs`.
///
/// While the run goes on nothing happens. Once the signal is set, the operations
/// that are stuck are taken out of the stack and a line is logged for each, then
/// a closing line; the operations themselves are not touched.
pub fn watchdog(
    ind: &mut Indicator,
    stack: &mut OpStack,
    signal: usize,
    now_ms: u64,
    now_secs: i64,
) -> (watch: Watch)
    ensures
        signal == 0 ==> watch == Watch::Sleep && final(ind)@ == old(ind)@ && stack_entries(
            *final(stack),
        ) == stack_entries(*old(stack)),
        signal != 0 ==> match watch {
            Watch::Sleep => false,
            Watch::Swept(ids) => {
                &&& stack_entries(*final(stack)) == not_stuck(stack_entries(*old(stack)), now_ms)
                &&& are_stuck(ids.deep_view(), stack_entries(*old(stack)), now_ms)
                &&& final(ind)@ == pushed(
                    logged_all(old(ind)@, timeout_texts(now_secs, ids.deep_view())),
                    "logs"@,
                    checked_text(now_secs),
                )
            },
        },
        registry_wf(old(ind)@) ==> registry_wf(final(ind)@),
{
    if signal == 0 {
        return Watch::Sleep;
    }
    let stuck = stack.sweep(now_ms);
    let ghost ids = stuck.deep_view();
    let mut i: usize = 0;
    while i < stuck.len()
        invariant
            i <= stuck.len(),
            ids == stuck.deep_view(),
            ind@ == logged_all(old(ind)@, timeout_texts(now_secs, ids.take(i as int))),
            registry_wf(old(ind)@) ==> registry_wf(ind@),
        decreases stuck.len() - i,
    {
        let line = timeout_line(now_secs, stuck[i].as_str());
        ind.push("logs", line);
        proof {
            let next = ids.take(i as int + 1);
            assert(next.drop_last() =~= ids.take(i as int));
            let texts = timeout_texts(now_secs, next);
            assert(texts.drop_last() =~= timeout_texts(now_secs, ids.take(i as int)));
        }
        i += 1;
    }
    assert(ids.take(stuck.len() as int) =~= ids);
    ind.push("logs", checked_line(now_secs));
    Watch::Swept(stuck)
}

/// The profiler level that is set before a run: the profiler is switched off
/// where it records every operation, and else left as it is.
pub fn profile_before(level: Option<i32>) -> (set: Option<i32>)
    ensures
        set == if level == Some(2i32) {
            Some(0i32)
        } else {
            None::<i32>
        },
{
    match level {
        Some(2) => Some(0),
        _ => None,
    }
}

/// The profiler level that is set after a run: the level from before the run
/// where the run has lowered it, and else none.
pub fn profile_after(level: Option<i32>) -> (set: Option<i32>)
    ensures
        set == if level == Some(2i32) {
            Some(2i32)
        } else {
            None::<i32>
        },
{
    match level {
        Some(2) => Some(2),
        _ => None,
    }
}

} // verus!
