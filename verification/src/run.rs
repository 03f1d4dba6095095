//! A run as a whole: the registry, the reader and the workers under every order
//! of events that a run can take, and what holds of them at any time.
//!
//! The functions of the engine each say what one step does. Here the steps are
//! put together: a run is a sequence of events, each of which applies one of
//! those functions, and the laws at the end hold after any such sequence.

use crate::client_pool::lemma_next_client;
use crate::dispatch::OpRunMode;
use crate::engine::{
    begun, desired_workers, expected_total, finished, spawn_decision, worker_booted,
    worker_left, Spawn, Step, Worker,
};
use crate::indicator::{
    added, metric_named, number_of, pushed, with_cost, with_metric, with_number, wrap_add,
    MetricView,
};
use crate::laws::{has_metric, lemma_stripe_len, lemma_with_metric, stripe_len};
use crate::op_logs::{OpLogsView, ReadModeView};
use crate::op_row::OpRowView;
use vstd::prelude::*;

verus! {

/// How far a worker has come.
pub enum Phase {
    /// The coordinator has started the worker.
    Spawned,
    /// The worker has said that it is there, and takes its turns.
    Running,
    /// The worker has left.
    Left,
}

/// A worker of a run, with the number of records that it was handed.
pub struct Flight {
    pub worker: Worker,
    pub phase: Phase,
    pub taken: nat,
}

/// A run at one moment.
pub struct Run {
    /// The registry of the metrics.
    pub e: Seq<(Seq<char>, MetricView)>,
    /// The reader.
    pub logs: OpLogsView,
    /// How many workers the run begins with.
    pub thread_count: u32,
    /// How many passes each worker makes; zero is without end.
    pub loop_count: usize,
    /// The workers that were started, in the order of starting.
    pub flights: Seq<Flight>,
}

/// What can happen in a run.
pub enum Event {
    /// The coordinator starts the next worker, with the signal as it is.
    Spawn { signal: usize },
    /// A worker says that it is there.
    Boot { at: int },
    /// A worker takes a turn, with the signal as it is; a worker that is told to
    /// leave says that it has left.
    Turn { at: int, signal: usize },
    /// An operation comes back.
    Finish { row: OpRowView, mode: OpRunMode, elapsed_ms: usize, example: Seq<char> },
    /// The operator asks for more workers.
    Boost { by: usize },
    /// The operator sets the limit of the operations under way.
    Limit { to: usize },
    /// A line is logged.
    Log { line: Seq<char> },
}

impl Run {
    /// The number of the records of the log.
    pub open spec fn records(self) -> usize {
        self.logs.rows.len() as usize
    }

    /// What the coordinator decides with the signal `signal`.
    pub open spec fn spawn(self, signal: usize) -> Spawn {
        spawn_decision(
            self.thread_count,
            number_of(self.e, "dyn_threads"@),
            number_of(self.e, "done_worker"@),
            signal,
            self.flights.len() as usize,
        )
    }

    /// What the worker `at` decides with the signal `signal`.
    pub open spec fn step(self, at: int, signal: usize) -> Step {
        self.flights[at].worker.decision(
            signal,
            number_of(self.e, "dyn_cc_limit"@),
            number_of(self.e, "querying"@),
        )
    }

    /// Whether the event can happen now. A counter that has reached the largest
    /// number of the machine is counted no further.
    pub open spec fn allows(self, ev: Event) -> bool {
        match ev {
            Event::Spawn { signal } => self.spawn(signal) is Worker && self.flights.len()
                < usize::MAX,
            Event::Boot { at } => 0 <= at < self.flights.len() && self.flights[at].phase
                is Spawned && number_of(self.e, "boot_worker"@) < usize::MAX,
            Event::Turn { at, signal } => 0 <= at < self.flights.len() && self.flights[at].phase
                is Running && number_of(self.e, "done_worker"@) < usize::MAX && number_of(
                self.e,
                "progress"@,
            ) < usize::MAX,
            Event::Boost { by } => number_of(self.e, "dyn_threads"@) + by <= usize::MAX,
            _ => true,
        }
    }

    /// The run after the event.
    pub open spec fn after(self, ev: Event) -> Run {
        match ev {
            Event::Spawn { signal } => Run {
                e: with_number(
                    self.e,
                    "progress_total"@,
                    expected_total(
                        self.records(),
                        self.loop_count,
                        self.thread_count,
                        number_of(self.e, "dyn_threads"@),
                        self.logs.mode,
                    ),
                ),
                flights: self.flights.push(
                    Flight {
                        worker: Worker {
                            index: self.flights.len() as usize,
                            loop_count: self.loop_count,
                            loops_done: 0,
                            row_index: 0,
                        },
                        phase: Phase::Spawned,
                        taken: 0,
                    },
                ),
                ..self
            },
            Event::Boot { at } => Run {
                e: worker_booted(self.e),
                flights: self.flights.update(
                    at,
                    Flight { phase: Phase::Running, ..self.flights[at] },
                ),
                ..self
            },
            Event::Turn { at, signal } => {
                let f = self.flights[at];
                match self.step(at, signal) {
                    Step::Exit => Run {
                        e: worker_left(self.e),
                        flights: self.flights.update(at, Flight { phase: Phase::Left, ..f }),
                        ..self
                    },
                    Step::Throttle => self,
                    Step::Fetch { worker, row } => match self.logs.served(worker, row) {
                        None => Run {
                            logs: OpLogsView { cursor: self.logs.cursor_after(), ..self.logs },
                            flights: self.flights.update(
                                at,
                                Flight { worker: f.worker.after_pass(), ..f },
                            ),
                            ..self
                        },
                        Some(record) => Run {
                            e: begun(self.e),
                            logs: OpLogsView { cursor: self.logs.cursor_after(), ..self.logs },
                            flights: self.flights.update(
                                at,
                                Flight {
                                    worker: f.worker.after_record(),
                                    taken: f.taken + 1,
                                    ..f
                                },
                            ),
                            ..self
                        },
                    },
                }
            },
            Event::Finish { row, mode, elapsed_ms, example } => Run {
                e: finished(self.e, row, mode, elapsed_ms, example),
                ..self
            },
            Event::Boost { by } => Run { e: added(self.e, "dyn_threads"@, by), ..self },
            Event::Limit { to } => Run { e: with_number(self.e, "dyn_cc_limit"@, to), ..self },
            Event::Log { line } => Run { e: pushed(self.e, "logs"@, line), ..self },
        }
    }

    /// The run after the events, one after another.
    pub open spec fn after_all(self, events: Seq<Event>) -> Run
        decreases events.len(),
    {
        if events.len() == 0 {
            self
        } else {
            self.after_all(events.drop_last()).after(events.last())
        }
    }

    /// Whether the events can happen one after another.
    pub open spec fn allows_all(self, events: Seq<Event>) -> bool
        decreases events.len(),
    {
        events.len() == 0 || (self.allows_all(events.drop_last()) && self.after_all(
            events.drop_last(),
        ).allows(events.last()))
    }

    /// Whether the records are dealt out to workers, in a run with an end.
    pub open spec fn striped(self) -> bool {
        self.logs.mode is FullLine && self.logs.stride > 0 && self.loop_count > 0
    }

    /// Whether the records are served one after another, each once.
    pub open spec fn in_order(self) -> bool {
        !(self.logs.mode is FullLine) && self.logs.mode != ReadModeView::ReadLine(true)
    }

    /// The number of records that fall to the worker `at` in one pass.
    pub open spec fn stripe(self, at: int) -> int {
        stripe_len(self.logs.rows.len() as int, self.logs.stride as int, at)
    }

    /// Whether the run is at its start: nothing is counted, no worker is
    /// started, and the reader stands before its first record.
    pub open spec fn starts(self) -> bool {
        &&& self.flights.len() == 0
        &&& self.logs.cursor == 0
        &&& self.logs.rows.len() <= usize::MAX
        &&& has_metric(self.e, "boot_worker"@)
        &&& has_metric(self.e, "done_worker"@)
        &&& has_metric(self.e, "progress"@)
        &&& has_metric(self.e, "dyn_threads"@)
        &&& number_of(self.e, "boot_worker"@) == 0
        &&& number_of(self.e, "done_worker"@) == 0
        &&& number_of(self.e, "progress"@) == 0
    }

    /// What holds of the worker `at` at any time.
    pub open spec fn flight_fits(self, at: int) -> bool {
        let f = self.flights[at];
        &&& f.worker.index == at
        &&& f.worker.loop_count == self.loop_count
        &&& (f.phase is Spawned ==> f.taken == 0 && f.worker.loops_done == 0
            && f.worker.row_index == 0)
        &&& (self.logs.mode is FullLine && self.logs.stride == 0 ==> f.taken == 0)
        &&& (self.striped() ==> {
            &&& f.taken == f.worker.loops_done * self.stripe(at) + f.worker.row_index
            &&& f.worker.row_index <= self.stripe(at)
            &&& f.worker.loops_done <= self.loop_count
            &&& (f.worker.loops_done == self.loop_count ==> f.worker.row_index == 0)
        })
    }

    /// What holds of a run at any time: the counters count what has happened.
    pub open spec fn fits(self) -> bool {
        &&& self.logs.rows.len() <= usize::MAX
        &&& has_metric(self.e, "boot_worker"@)
        &&& has_metric(self.e, "done_worker"@)
        &&& has_metric(self.e, "progress"@)
        &&& has_metric(self.e, "dyn_threads"@)
        &&& number_of(self.e, "boot_worker"@) == total(self.flights, booted())
        &&& number_of(self.e, "done_worker"@) == total(self.flights, left())
        &&& number_of(self.e, "progress"@) == total(self.flights, taken())
        &&& self.flights.len() <= desired_workers(
            self.thread_count,
            number_of(self.e, "dyn_threads"@),
        )
        &&& forall|at: int| 0 <= at < self.flights.len() ==> #[trigger] self.flight_fits(at)
        &&& (self.in_order() ==> total(self.flights, taken()) == self.logs.cursor
            && self.logs.cursor <= self.logs.rows.len())
    }

    /// Whether every worker that was started has left.
    pub open spec fn all_left(self) -> bool {
        forall|at: int| 0 <= at < self.flights.len() ==> (#[trigger] self.flights[at]).phase is Left
    }
}

/// One for a worker that has said that it is there.
pub open spec fn booted() -> spec_fn(Flight) -> int {
    |f: Flight|
        if f.phase is Spawned {
            0int
        } else {
            1int
        }
}

/// One for a worker that has left.
pub open spec fn left() -> spec_fn(Flight) -> int {
    |f: Flight|
        if f.phase is Left {
            1int
        } else {
            0int
        }
}

/// The number of records that a worker was handed.
pub open spec fn taken() -> spec_fn(Flight) -> int {
    |f: Flight| f.taken as int
}

/// The sum of `weight` over the workers.
pub open spec fn total(flights: Seq<Flight>, weight: spec_fn(Flight) -> int) -> int
    decreases flights.len(),
{
    if flights.len() == 0 {
        0
    } else {
        total(flights.drop_last(), weight) + weight(flights.last())
    }
}

/// Changing one worker changes the sum by what that worker's weight changes.
pub proof fn lemma_total_update(
    flights: Seq<Flight>,
    weight: spec_fn(Flight) -> int,
    at: int,
    f: Flight,
)
    requires
        0 <= at < flights.len(),
    ensures
        total(flights.update(at, f), weight) == total(flights, weight) - weight(flights[at])
            + weight(f),
    decreases flights.len(),
{
    let changed = flights.update(at, f);
    if at == flights.len() - 1 {
        assert(changed.drop_last() =~= flights.drop_last());
    } else {
        assert(changed.drop_last() =~= flights.drop_last().update(at, f));
        lemma_total_update(flights.drop_last(), weight, at, f);
    }
}

/// One more worker adds its weight to the sum.
pub proof fn lemma_total_push(flights: Seq<Flight>, weight: spec_fn(Flight) -> int, f: Flight)
    ensures
        total(flights.push(f), weight) == total(flights, weight) + weight(f),
{
    assert(flights.push(f).drop_last() =~= flights);
}

/// A sum of weights that are each within a bound is within the bound times the
/// number of the workers.
pub proof fn lemma_total_within(
    flights: Seq<Flight>,
    weight: spec_fn(Flight) -> int,
    bound: int,
)
    requires
        forall|at: int| 0 <= at < flights.len() ==> weight(#[trigger] flights[at]) <= bound,
    ensures
        total(flights, weight) <= flights.len() * bound,
    decreases flights.len(),
{
    if flights.len() > 0 {
        assert forall|at: int| 0 <= at < flights.drop_last().len() implies weight(
            #[trigger] flights.drop_last()[at],
        ) <= bound by {
            assert(flights.drop_last()[at] == flights[at]);
        }
        lemma_total_within(flights.drop_last(), weight, bound);
        assert(weight(flights[flights.len() - 1]) <= bound);
        assert((flights.len() - 1) * bound + bound == flights.len() * bound)
            by (nonlinear_arith);
    }
}

/// A sum of weights that are each the same is that weight times the number of
/// the workers.
pub proof fn lemma_total_same(flights: Seq<Flight>, weight: spec_fn(Flight) -> int, each: int)
    requires
        forall|at: int| 0 <= at < flights.len() ==> weight(#[trigger] flights[at]) == each,
    ensures
        total(flights, weight) == flights.len() * each,
    decreases flights.len(),
{
    if flights.len() > 0 {
        assert forall|at: int| 0 <= at < flights.drop_last().len() implies weight(
            #[trigger] flights.drop_last()[at],
        ) == each by {
            assert(flights.drop_last()[at] == flights[at]);
        }
        lemma_total_same(flights.drop_last(), weight, each);
        assert(weight(flights[flights.len() - 1]) == each);
        assert((flights.len() - 1) * each + each == flights.len() * each) by (nonlinear_arith);
    }
}

/// The names of the counters that count the workers and the records are
/// different from each other and from the names of the other metrics.
pub proof fn lemma_names()
    ensures
        "boot_worker"@ != "done_worker"@,
        "boot_worker"@ != "progress"@,
        "boot_worker"@ != "dyn_threads"@,
        "done_worker"@ != "progress"@,
        "done_worker"@ != "dyn_threads"@,
        "progress"@ != "dyn_threads"@,
        "progress_total"@ != "boot_worker"@,
        "progress_total"@ != "done_worker"@,
        "progress_total"@ != "progress"@,
        "progress_total"@ != "dyn_threads"@,
        "querying"@ != "boot_worker"@,
        "querying"@ != "done_worker"@,
        "querying"@ != "progress"@,
        "querying"@ != "dyn_threads"@,
        "cost_ms"@ != "boot_worker"@,
        "cost_ms"@ != "done_worker"@,
        "cost_ms"@ != "progress"@,
        "cost_ms"@ != "dyn_threads"@,
        "query_count"@ != "boot_worker"@,
        "query_count"@ != "done_worker"@,
        "query_count"@ != "progress"@,
        "query_count"@ != "dyn_threads"@,
        "query_stats"@ != "boot_worker"@,
        "query_stats"@ != "done_worker"@,
        "query_stats"@ != "progress"@,
        "query_stats"@ != "dyn_threads"@,
        "dyn_cc_limit"@ != "boot_worker"@,
        "dyn_cc_limit"@ != "done_worker"@,
        "dyn_cc_limit"@ != "progress"@,
        "dyn_cc_limit"@ != "dyn_threads"@,
        "logs"@ != "boot_worker"@,
        "logs"@ != "done_worker"@,
        "logs"@ != "progress"@,
        "logs"@ != "dyn_threads"@,
{
    reveal_strlit("boot_worker");
    reveal_strlit("done_worker");
    reveal_strlit("progress");
    reveal_strlit("dyn_threads");
    reveal_strlit("progress_total");
    reveal_strlit("querying");
    reveal_strlit("cost_ms");
    reveal_strlit("query_count");
    reveal_strlit("query_stats");
    reveal_strlit("dyn_cc_limit");
    reveal_strlit("logs");
    assert("boot_worker"@.len() == 11 && "boot_worker"@[0] == 'b');
    assert("done_worker"@.len() == 11 && "done_worker"@[0] == 'd' && "done_worker"@[1] == 'o');
    assert("dyn_threads"@.len() == 11 && "dyn_threads"@[0] == 'd' && "dyn_threads"@[1] == 'y');
    assert("query_count"@.len() == 11 && "query_count"@[0] == 'q');
    assert("query_stats"@.len() == 11 && "query_stats"@[0] == 'q');
    assert("progress"@.len() == 8 && "progress"@[0] == 'p');
    assert("querying"@.len() == 8 && "querying"@[0] == 'q');
    assert("progress_total"@.len() == 14);
    assert("cost_ms"@.len() == 7);
    assert("dyn_cc_limit"@.len() == 12);
    assert("logs"@.len() == 4);
}

/// Whether the registry `a` holds the counters of the workers and the records
/// as the registry `e` does, but for the counter under `name`.
pub open spec fn same_but(
    e: Seq<(Seq<char>, MetricView)>,
    a: Seq<(Seq<char>, MetricView)>,
    name: Seq<char>,
) -> bool {
    &&& has_metric(a, "boot_worker"@) == has_metric(e, "boot_worker"@)
    &&& has_metric(a, "done_worker"@) == has_metric(e, "done_worker"@)
    &&& has_metric(a, "progress"@) == has_metric(e, "progress"@)
    &&& has_metric(a, "dyn_threads"@) == has_metric(e, "dyn_threads"@)
    &&& (name != "boot_worker"@ ==> number_of(a, "boot_worker"@) == number_of(e, "boot_worker"@))
    &&& (name != "done_worker"@ ==> number_of(a, "done_worker"@) == number_of(e, "done_worker"@))
    &&& (name != "progress"@ ==> number_of(a, "progress"@) == number_of(e, "progress"@))
    &&& (name != "dyn_threads"@ ==> number_of(a, "dyn_threads"@) == number_of(e, "dyn_threads"@))
}

/// Putting a metric under one name leaves the counters under the other names
/// as they are.
pub proof fn lemma_same_but(e: Seq<(Seq<char>, MetricView)>, name: Seq<char>, m: MetricView)
    ensures
        same_but(e, with_metric(e, name, m), name),
        has_metric(e, name) ==> metric_named(with_metric(e, name, m), name) == m,
{
    lemma_with_metric(e, name, m, "boot_worker"@);
    lemma_with_metric(e, name, m, "done_worker"@);
    lemma_with_metric(e, name, m, "progress"@);
    lemma_with_metric(e, name, m, "dyn_threads"@);
    lemma_with_metric(e, name, m, name);
}

/// Adding to a counter leaves the other counters as they are, and adds to the
/// counter where the registry holds it.
pub proof fn lemma_added(e: Seq<(Seq<char>, MetricView)>, name: Seq<char>, value: usize)
    ensures
        same_but(e, added(e, name, value), name),
        has_metric(e, name) ==> number_of(added(e, name, value), name) == wrap_add(
            number_of(e, name),
            value,
        ),
{
    lemma_same_but(
        e,
        name,
        metric_named(e, name).with_number(wrap_add(number_of(e, name), value)),
    );
}

/// An operation that comes back leaves the counters of the workers and of the
/// records as they are.
pub proof fn lemma_finished_same(
    e: Seq<(Seq<char>, MetricView)>,
    row: OpRowView,
    mode: OpRunMode,
    elapsed_ms: usize,
    example: Seq<char>,
)
    ensures
        same_but(e, finished(e, row, mode, elapsed_ms, example), "querying"@),
{
    lemma_names();
    let counted = if crate::dispatch::carried_out(row.op, mode) {
        lemma_added(e, "cost_ms"@, elapsed_ms);
        lemma_added(added(e, "cost_ms"@, elapsed_ms), "query_count"@, 1);
        added(added(e, "cost_ms"@, elapsed_ms), "query_count"@, 1)
    } else {
        e
    };
    let costed = with_cost(counted, "query_stats"@, row.key, elapsed_ms, example);
    lemma_same_but(
        counted,
        "query_stats"@,
        metric_named(counted, "query_stats"@).with_stats(
            crate::indicator::stats_added(
                metric_named(counted, "query_stats"@).stats,
                row.key,
                elapsed_ms,
                example,
            ),
        ),
    );
    lemma_same_but(
        costed,
        "querying"@,
        metric_named(costed, "querying"@).with_number(
            crate::indicator::wrap_sub(number_of(costed, "querying"@), 1),
        ),
    );
}

/// A record that is handed over is counted as dispatched, and the counters of
/// the workers stay as they are.
pub proof fn lemma_begun_same(e: Seq<(Seq<char>, MetricView)>)
    requires
        has_metric(e, "progress"@),
    ensures
        same_but(e, begun(e), "progress"@),
        number_of(begun(e), "progress"@) == wrap_add(number_of(e, "progress"@), 1),
{
    lemma_names();
    lemma_added(e, "progress"@, 1);
    lemma_added(added(e, "progress"@, 1), "querying"@, 1);
}

/// The stripe of a worker is no longer than the log.
pub proof fn lemma_stripe_within(records: int, stride: int, at: int)
    requires
        records >= 0,
        stride > 0,
        at >= 0,
    ensures
        0 <= stripe_len(records, stride, at) <= records,
{
    if at < records {
        lemma_next_client(records - at, stride);
    }
}

/// What holds of a run at any time holds after one more event.
pub proof fn lemma_event_fits(run: Run, ev: Event)
    requires
        run.fits(),
        run.allows(ev),
    ensures
        run.after(ev).fits(),
{
    lemma_names();
    let next = run.after(ev);
    match ev {
        Event::Spawn { signal } => {
            let total_now = expected_total(
                run.records(),
                run.loop_count,
                run.thread_count,
                number_of(run.e, "dyn_threads"@),
                run.logs.mode,
            );
            lemma_same_but(
                run.e,
                "progress_total"@,
                metric_named(run.e, "progress_total"@).with_number(total_now),
            );
            let f = next.flights.last();
            lemma_total_push(run.flights, booted(), f);
            lemma_total_push(run.flights, left(), f);
            lemma_total_push(run.flights, taken(), f);
            assert forall|at: int| 0 <= at < next.flights.len() implies #[trigger] next.flight_fits(
                at,
            ) by {
                if at < run.flights.len() {
                    assert(run.flight_fits(at));
                    assert(next.flights[at] == run.flights[at]);
                } else {
                    lemma_stripe_within(
                        run.logs.rows.len() as int,
                        if run.logs.stride > 0 {
                            run.logs.stride as int
                        } else {
                            1
                        },
                        at,
                    );
                }
            }
        },
        Event::Boot { at } => {
            lemma_added(run.e, "boot_worker"@, 1);
            let f = Flight { phase: Phase::Running, ..run.flights[at] };
            lemma_total_update(run.flights, booted(), at, f);
            lemma_total_update(run.flights, left(), at, f);
            lemma_total_update(run.flights, taken(), at, f);
            assert forall|k: int| 0 <= k < next.flights.len() implies #[trigger] next.flight_fits(
                k,
            ) by {
                assert(run.flight_fits(k));
            }
        },
        Event::Turn { at, signal } => {
            lemma_turn_fits(run, at, signal);
        },
        Event::Finish { row, mode, elapsed_ms, example } => {
            lemma_finished_same(run.e, row, mode, elapsed_ms, example);
            assert forall|k: int| 0 <= k < next.flights.len() implies #[trigger] next.flight_fits(
                k,
            ) by {
                assert(run.flight_fits(k));
            }
        },
        Event::Boost { by } => {
            lemma_added(run.e, "dyn_threads"@, by);
            assert forall|k: int| 0 <= k < next.flights.len() implies #[trigger] next.flight_fits(
                k,
            ) by {
                assert(run.flight_fits(k));
            }
        },
        Event::Limit { to } => {
            lemma_same_but(
                run.e,
                "dyn_cc_limit"@,
                metric_named(run.e, "dyn_cc_limit"@).with_number(to),
            );
            assert forall|k: int| 0 <= k < next.flights.len() implies #[trigger] next.flight_fits(
                k,
            ) by {
                assert(run.flight_fits(k));
            }
        },
        Event::Log { line } => {
            lemma_same_but(run.e, "logs"@, metric_named(run.e, "logs"@).logged(line));
            assert forall|k: int| 0 <= k < next.flights.len() implies #[trigger] next.flight_fits(
                k,
            ) by {
                assert(run.flight_fits(k));
            }
        },
    }
}

/// What holds of a run at any time holds after one more turn of a worker.
pub proof fn lemma_turn_fits(run: Run, at: int, signal: usize)
    requires
        run.fits(),
        run.allows(Event::Turn { at, signal }),
    ensures
        run.after(Event::Turn { at, signal }).fits(),
{
    lemma_names();
    let next = run.after(Event::Turn { at, signal });
    let f = run.flights[at];
    assert(run.flight_fits(at));
    match run.step(at, signal) {
        Step::Exit => {
            lemma_added(run.e, "done_worker"@, 1);
            let g = Flight { phase: Phase::Left, ..f };
            lemma_total_update(run.flights, booted(), at, g);
            lemma_total_update(run.flights, left(), at, g);
            lemma_total_update(run.flights, taken(), at, g);
            assert forall|k: int| 0 <= k < next.flights.len() implies #[trigger] next.flight_fits(
                k,
            ) by {
                assert(run.flight_fits(k));
            }
        },
        Step::Throttle => {},
        Step::Fetch { worker, row } => {
            let n = run.logs.rows.len() as int;
            let sl = run.stripe(at);
            if run.logs.mode is FullLine && run.logs.stride > 0 {
                lemma_stripe_len(run.logs, worker, row);
                lemma_stripe_within(n, run.logs.stride as int, at);
            }
            match run.logs.served(worker, row) {
                None => {
                    let g = Flight { worker: f.worker.after_pass(), ..f };
                    lemma_total_update(run.flights, booted(), at, g);
                    lemma_total_update(run.flights, left(), at, g);
                    lemma_total_update(run.flights, taken(), at, g);
                    if run.striped() {
                        assert(f.worker.row_index == sl);
                        assert(f.worker.loops_done < run.loop_count);
                        assert((f.worker.loops_done + 1) * sl == f.worker.loops_done * sl + sl)
                            by (nonlinear_arith);
                    }
                    assert forall|k: int| 0 <= k < next.flights.len() implies #[trigger] next.flight_fits(
                        k,
                    ) by {
                        assert(run.flight_fits(k));
                    }
                },
                Some(record) => {
                    lemma_begun_same(run.e);
                    let g = Flight { worker: f.worker.after_record(), taken: f.taken + 1, ..f };
                    lemma_total_update(run.flights, booted(), at, g);
                    lemma_total_update(run.flights, left(), at, g);
                    lemma_total_update(run.flights, taken(), at, g);
                    if run.striped() {
                        assert(f.worker.row_index < sl);
                        assert(f.worker.loops_done < run.loop_count);
                    }
                    assert forall|k: int| 0 <= k < next.flights.len() implies #[trigger] next.flight_fits(
                        k,
                    ) by {
                        assert(run.flight_fits(k));
                    }
                },
            }
        },
    }
}

/// What holds of a run at any time: it holds at the start, and so after any
/// events that can happen one after another.
pub proof fn lemma_run_fits(start: Run, events: Seq<Event>)
    requires
        start.starts(),
        start.allows_all(events),
    ensures
        start.after_all(events).fits(),
    decreases events.len(),
{
    if events.len() == 0 {
    } else {
        lemma_run_fits(start, events.drop_last());
        lemma_event_fits(start.after_all(events.drop_last()), events.last());
    }
}

/// Workers of a whole run: when the coordinator of a run that was not cancelled
/// is done and every worker that was started has left, then the workers that
/// have left, the workers that have said that they are there, and the workers
/// that were started are as many as the workers that the run began with and
/// those that were asked for since.
pub proof fn lemma_run_workers(start: Run, events: Seq<Event>)
    requires
        start.starts(),
        start.allows_all(events),
        start.after_all(events).all_left(),
        start.after_all(events).spawn(0) == Spawn::Done,
    ensures
        ({
            let end = start.after_all(events);
            &&& number_of(end.e, "done_worker"@) == end.flights.len()
            &&& number_of(end.e, "boot_worker"@) == end.flights.len()
            &&& end.flights.len() == end.thread_count + number_of(end.e, "dyn_threads"@)
        }),
{
    let end = start.after_all(events);
    lemma_run_fits(start, events);
    assert forall|at: int| 0 <= at < end.flights.len() implies left()(#[trigger] end.flights[at])
        == 1 by {}
    assert forall|at: int| 0 <= at < end.flights.len() implies booted()(
        #[trigger] end.flights[at],
    ) == 1 by {}
    lemma_total_same(end.flights, left(), 1);
    lemma_total_same(end.flights, booted(), 1);
}

/// Whether the number of operations that the run is expected to dispatch is the
/// one for the workers that are wanted now: it was set when the last worker
/// was started, and no more workers were asked for since.
pub open spec fn total_is_current(run: Run) -> bool {
    number_of(run.e, "progress_total"@) == expected_total(
        run.records(),
        run.loop_count,
        run.thread_count,
        number_of(run.e, "dyn_threads"@),
        run.logs.mode,
    )
}

/// Progress of a whole run: in a run with an end, whose reader does not start
/// over, the operations dispatched are at any time no more than the number that
/// the run is expected to dispatch, where that number is the one for the
/// workers that are wanted now.
pub proof fn lemma_run_progress(start: Run, events: Seq<Event>)
    requires
        start.starts(),
        start.allows_all(events),
        start.loop_count > 0,
        start.logs.mode != ReadModeView::ReadLine(true),
        total_is_current(start.after_all(events)),
    ensures
        number_of(start.after_all(events).e, "progress"@) <= number_of(
            start.after_all(events).e,
            "progress_total"@,
        ),
{
    let end = start.after_all(events);
    lemma_run_fits(start, events);
    lemma_run_same_plan(start, events);
    let n = end.logs.rows.len() as int;
    let l = end.loop_count as int;
    let w = desired_workers(end.thread_count, number_of(end.e, "dyn_threads"@));
    if end.logs.mode is FullLine {
        if end.logs.stride == 0 {
            assert forall|at: int| 0 <= at < end.flights.len() implies taken()(
                #[trigger] end.flights[at],
            ) == 0 by {
                assert(end.flight_fits(at));
            }
            lemma_total_same(end.flights, taken(), 0);
        } else {
            assert forall|at: int| 0 <= at < end.flights.len() implies taken()(
                #[trigger] end.flights[at],
            ) <= l * n by {
                assert(end.flight_fits(at));
                let f = end.flights[at];
                let sl = end.stripe(at);
                lemma_stripe_within(n, end.logs.stride as int, at);
                assert(f.worker.loops_done * sl + f.worker.row_index <= l * n)
                    by (nonlinear_arith)
                    requires
                        0 <= sl <= n,
                        0 <= f.worker.row_index <= sl,
                        0 <= f.worker.loops_done <= l,
                        f.worker.loops_done == l ==> f.worker.row_index == 0,
                ;
            }
            lemma_total_within(end.flights, taken(), l * n);
            assert(end.flights.len() * (l * n) <= n * l * w) by (nonlinear_arith)
                requires
                    0 <= end.flights.len() <= w,
                    0 <= l,
                    0 <= n,
            ;
        }
    }
}

/// The events of a run change neither its plan nor its log: the workers it
/// begins with, the passes, the mode and the records stay as they are.
pub proof fn lemma_run_same_plan(start: Run, events: Seq<Event>)
    ensures
        start.after_all(events).thread_count == start.thread_count,
        start.after_all(events).loop_count == start.loop_count,
        start.after_all(events).logs.mode == start.logs.mode,
        start.after_all(events).logs.rows == start.logs.rows,
        start.after_all(events).logs.stride == start.logs.stride,
    decreases events.len(),
{
    if events.len() > 0 {
        lemma_run_same_plan(start, events.drop_last());
    }
}

/// Starting a worker sets the number of operations that the run is expected to
/// dispatch to the one for the workers that are wanted now.
pub proof fn lemma_spawn_sets_total(run: Run, signal: usize)
    requires
        has_metric(run.e, "progress_total"@),
    ensures
        total_is_current(run.after(Event::Spawn { signal })),
{
    reveal_strlit("progress_total");
    reveal_strlit("dyn_threads");
    assert("progress_total"@.len() == 14);
    assert("dyn_threads"@.len() == 11);
    let total_now = expected_total(
        run.records(),
        run.loop_count,
        run.thread_count,
        number_of(run.e, "dyn_threads"@),
        run.logs.mode,
    );
    let m = metric_named(run.e, "progress_total"@).with_number(total_now);
    lemma_with_metric(run.e, "progress_total"@, m, "progress_total"@);
    lemma_with_metric(run.e, "progress_total"@, m, "dyn_threads"@);
}

/// Only the turn of a worker dispatches: every other event leaves the number of
/// operations dispatched as it is, and so does the turn of a worker once the
/// signal is set.
pub proof fn lemma_only_turns_dispatch(run: Run, ev: Event)
    requires
        has_metric(run.e, "progress"@),
        match ev {
            Event::Turn { at, signal } => signal != 0,
            _ => true,
        },
    ensures
        number_of(run.after(ev).e, "progress"@) == number_of(run.e, "progress"@),
{
    lemma_names();
    match ev {
        Event::Spawn { signal } => {
            lemma_same_but(
                run.e,
                "progress_total"@,
                metric_named(run.e, "progress_total"@).with_number(
                    expected_total(
                        run.records(),
                        run.loop_count,
                        run.thread_count,
                        number_of(run.e, "dyn_threads"@),
                        run.logs.mode,
                    ),
                ),
            );
        },
        Event::Boot { at } => {
            lemma_added(run.e, "boot_worker"@, 1);
        },
        Event::Turn { at, signal } => {
            lemma_added(run.e, "done_worker"@, 1);
        },
        Event::Finish { row, mode, elapsed_ms, example } => {
            lemma_finished_same(run.e, row, mode, elapsed_ms, example);
        },
        Event::Boost { by } => {
            lemma_added(run.e, "dyn_threads"@, by);
        },
        Event::Limit { to } => {
            lemma_same_but(
                run.e,
                "dyn_cc_limit"@,
                metric_named(run.e, "dyn_cc_limit"@).with_number(to),
            );
        },
        Event::Log { line } => {
            lemma_same_but(run.e, "logs"@, metric_named(run.e, "logs"@).logged(line));
        },
    }
}

/// Once the signal is set, no worker is started, and a worker that takes its
/// turn leaves: a cancelled run comes to its end as fast as its workers take
/// their next turns.
pub proof fn lemma_signal_ends_run(run: Run, at: int, signal: usize)
    requires
        signal != 0,
        0 <= at < run.flights.len(),
        run.flights[at].phase is Running,
    ensures
        !run.allows(Event::Spawn { signal }),
        run.after(Event::Turn { at, signal }).flights[at].phase is Left,
{
}

/// Whether every turn among the events is taken with the signal not set.
pub open spec fn uncancelled(events: Seq<Event>) -> bool {
    forall|i: int|
        0 <= i < events.len() ==> match #[trigger] events[i] {
            Event::Turn { at, signal } => signal == 0,
            _ => true,
        }
}

/// A run without end does not end by itself: as long as the signal is not set,
/// none of its workers leaves.
pub proof fn lemma_run_without_end(start: Run, events: Seq<Event>)
    requires
        start.starts(),
        start.allows_all(events),
        start.loop_count == 0,
        uncancelled(events),
    ensures
        forall|at: int|
            0 <= at < start.after_all(events).flights.len() ==> !((
            #[trigger] start.after_all(events).flights[at]).phase is Left),
        number_of(start.after_all(events).e, "done_worker"@) == 0,
    decreases events.len(),
{
    let end = start.after_all(events);
    lemma_run_fits(start, events);
    lemma_run_same_plan(start, events);
    if events.len() > 0 {
        let before = start.after_all(events.drop_last());
        assert(uncancelled(events.drop_last())) by {
            assert forall|i: int| 0 <= i < events.drop_last().len() implies match #[trigger] events.drop_last()[i] {
                Event::Turn { at, signal } => signal == 0,
                _ => true,
            } by {
                assert(events.drop_last()[i] == events[i]);
            }
        }
        lemma_run_without_end(start, events.drop_last());
        lemma_run_fits(start, events.drop_last());
        lemma_run_same_plan(start, events.drop_last());
        assert(events[events.len() - 1] == events.last());
        match events.last() {
            Event::Turn { at, signal } => {
                assert(signal == 0);
                assert(before.flight_fits(at));
            },
            _ => {},
        }
    }
    assert forall|at: int| 0 <= at < end.flights.len() implies left()(#[trigger] end.flights[at])
        == 0 by {}
    lemma_total_same(end.flights, left(), 0);
}

} // verus!
