//! What holds of the library as a whole: laws that relate several of its
//! functions, each proved from the definitions that the functions' contracts use.

use crate::client_pool::{clients_for, lemma_next_client};
use crate::dispatch::OpRunMode;
use crate::engine::{
    begun, desired_workers, expected_total, finished, spawn_decision, Spawn, Step, Worker,
};
use crate::indicator::{
    added, all_reset, entry_index, lemma_entry_index, metric_named, number_of, registered,
    with_cost, with_metric, with_number, MetricView,
};
use crate::json::JsonTree;
use crate::op_logs::{loaded, striped_index, OpLogsView, ReadModeView};
use crate::op_row::{Op, OpRowView};
use crate::resume::{reinserts, resumed, restores};
use crate::revert::{
    compensation, doc_ids, insert_cmd, restore_cmd, revert_log, reverted, reverted_rows,
};
use vstd::prelude::*;
use vstd::set_lib::{lemma_int_range, set_int_range};

verus! {

/// Whether the registry holds a metric under `name`.
pub open spec fn has_metric(e: Seq<(Seq<char>, MetricView)>, name: Seq<char>) -> bool {
    entry_index(e, name).is_some()
}

/// Setting the metric under one name leaves the names of the registry, and the
/// metrics under all other names, as they are.
pub proof fn lemma_with_metric(
    e: Seq<(Seq<char>, MetricView)>,
    name: Seq<char>,
    m: MetricView,
    other: Seq<char>,
)
    ensures
        has_metric(with_metric(e, name, m), other) == has_metric(e, other),
        metric_named(with_metric(e, name, m), other) == if other == name && has_metric(e, name) {
            m
        } else {
            metric_named(e, other)
        },
{
    let after = with_metric(e, name, m);
    lemma_entry_index(e, name);
    lemma_entry_index(e, other);
    lemma_entry_index(after, other);
    if entry_index(e, name).is_some() {
        assert forall|k: int| 0 <= k < e.len() implies (#[trigger] after[k]).0 == e[k].0 by {}
        if entry_index(e, other).is_some() {
            assert(after[entry_index(e, other).unwrap()].0 == other);
        }
    }
}

/// A registry that was built from names holds a metric under each of them, and
/// each metric has counted and logged nothing.
pub proof fn lemma_registered_has(names: Seq<Seq<char>>, target: Seq<char>, i: int)
    requires
        0 <= i < names.len(),
    ensures
        has_metric(registered(names, target), names[i]),
        number_of(registered(names, target), names[i]) == 0,
        metric_named(registered(names, target), names[i]).logs == Seq::<Seq<char>>::empty(),
    decreases names.len(),
{
    let rest = registered(names.drop_last(), target);
    let last = names.last();
    let m = MetricView {
        print_file: Some(crate::indicator::print_path(target, last)),
        ..MetricView::fresh()
    };
    let all = registered(names, target);
    if i < names.len() - 1 {
        lemma_registered_has(names.drop_last(), target, i);
    }
    match entry_index(rest, last) {
        Some(k) => {
            lemma_with_metric(rest, last, m, names[i]);
        },
        None => {
            assert(all.drop_last() =~= rest);
            lemma_entry_index(all, names[i]);
        },
    }
}

/// The registry of a run, built from the names of the run's metrics, holds the
/// counters that a run counts its operations in, all at zero.
pub proof fn lemma_run_registry_ready(target: Seq<char>)
    ensures
        counts_kept(registered(crate::metric_names(), target)),
        counts_fit(registered(crate::metric_names(), target)),
{
    let names = crate::metric_names();
    lemma_registered_has(names, target, 3);
    lemma_registered_has(names, target, 10);
    lemma_registered_has(names, target, 1);
}

/// Setting a counter gives that counter the value, where the registry holds the
/// metric, and leaves all other counters as they are.
pub proof fn lemma_with_number(
    e: Seq<(Seq<char>, MetricView)>,
    name: Seq<char>,
    value: usize,
    other: Seq<char>,
)
    ensures
        has_metric(with_number(e, name, value), other) == has_metric(e, other),
        number_of(with_number(e, name, value), other) == if other == name && has_metric(e, name) {
            value
        } else {
            number_of(e, other)
        },
{
    lemma_with_metric(e, name, metric_named(e, name).with_number(value), other);
}

/// Taking a cost into the statistics of a metric changes no counter.
pub proof fn lemma_with_cost(
    e: Seq<(Seq<char>, MetricView)>,
    name: Seq<char>,
    key: Seq<char>,
    cost: usize,
    example: Seq<char>,
    other: Seq<char>,
)
    ensures
        has_metric(with_cost(e, name, key, cost, example), other) == has_metric(e, other),
        number_of(with_cost(e, name, key, cost, example), other) == number_of(e, other),
{
    let m = metric_named(e, name).with_stats(
        crate::indicator::stats_added(metric_named(e, name).stats, key, cost, example),
    );
    lemma_with_metric(e, name, m, other);
}

/// The names of the counters of a run are different names.
pub proof fn lemma_counter_names()
    ensures
        "progress"@ != "querying"@,
        "progress"@ != "query_count"@,
        "progress"@ != "cost_ms"@,
        "progress"@ != "query_stats"@,
        "querying"@ != "query_count"@,
        "querying"@ != "cost_ms"@,
        "querying"@ != "query_stats"@,
        "query_count"@ != "cost_ms"@,
        "query_count"@ != "query_stats"@,
        "cost_ms"@ != "query_stats"@,
{
    reveal_strlit("progress");
    reveal_strlit("querying");
    reveal_strlit("query_count");
    reveal_strlit("cost_ms");
    reveal_strlit("query_stats");
    assert("progress"@.len() == 8 && "progress"@[0] == 'p');
    assert("querying"@.len() == 8 && "querying"@[0] == 'q');
    assert("query_count"@.len() == 11 && "query_count"@[6] == 'c');
    assert("cost_ms"@.len() == 7);
}

/// Whether the counters of a run fit together: the operations that were counted
/// as queries and those that are under way are no more than those dispatched.
pub open spec fn counts_fit(e: Seq<(Seq<char>, MetricView)>) -> bool {
    number_of(e, "query_count"@) + number_of(e, "querying"@) <= number_of(e, "progress"@)
}

/// Whether the registry holds the counters that a run counts its operations in.
pub open spec fn counts_kept(e: Seq<(Seq<char>, MetricView)>) -> bool {
    has_metric(e, "progress"@) && has_metric(e, "querying"@) && has_metric(e, "query_count"@)
}

/// A registry that was reset counts nothing, so its counters fit together.
pub proof fn lemma_reset_counts_fit(e: Seq<(Seq<char>, MetricView)>)
    ensures
        counts_fit(all_reset(e)),
        number_of(all_reset(e), "progress"@) == 0,
        number_of(all_reset(e), "query_count"@) == 0,
        number_of(all_reset(e), "querying"@) == 0,
{
    let r = all_reset(e);
    lemma_entry_index(r, "progress"@);
    lemma_entry_index(r, "query_count"@);
    lemma_entry_index(r, "querying"@);
}

/// Handing a record to the database counts one more operation as dispatched and
/// one more as under way, changes no other count, and keeps the counters fitting
/// together.
pub proof fn lemma_begin_counts(e: Seq<(Seq<char>, MetricView)>)
    requires
        counts_kept(e),
        number_of(e, "progress"@) < usize::MAX,
        counts_fit(e),
    ensures
        counts_kept(begun(e)),
        number_of(begun(e), "progress"@) == number_of(e, "progress"@) + 1,
        number_of(begun(e), "querying"@) == number_of(e, "querying"@) + 1,
        number_of(begun(e), "query_count"@) == number_of(e, "query_count"@),
        counts_fit(begun(e)),
{
    lemma_counter_names();
    let p = number_of(e, "progress"@);
    let e1 = added(e, "progress"@, 1);
    lemma_with_number(e, "progress"@, (p + 1) as usize, "progress"@);
    lemma_with_number(e, "progress"@, (p + 1) as usize, "querying"@);
    lemma_with_number(e, "progress"@, (p + 1) as usize, "query_count"@);
    let q = number_of(e1, "querying"@);
    lemma_with_number(e1, "querying"@, (q + 1) as usize, "progress"@);
    lemma_with_number(e1, "querying"@, (q + 1) as usize, "querying"@);
    lemma_with_number(e1, "querying"@, (q + 1) as usize, "query_count"@);
}

/// An operation that comes back is counted as a query where it was carried out,
/// is no longer under way, and is still counted as dispatched; the counters keep
/// fitting together, so that the queries counted are never more than the
/// operations dispatched.
pub proof fn lemma_finish_counts(
    e: Seq<(Seq<char>, MetricView)>,
    row: OpRowView,
    mode: OpRunMode,
    elapsed_ms: usize,
    example: Seq<char>,
)
    requires
        counts_kept(e),
        number_of(e, "querying"@) >= 1,
        counts_fit(e),
    ensures
        counts_kept(finished(e, row, mode, elapsed_ms, example)),
        number_of(finished(e, row, mode, elapsed_ms, example), "progress"@) == number_of(
            e,
            "progress"@,
        ),
        number_of(finished(e, row, mode, elapsed_ms, example), "querying"@) == number_of(
            e,
            "querying"@,
        ) - 1,
        number_of(finished(e, row, mode, elapsed_ms, example), "query_count"@) == number_of(
            e,
            "query_count"@,
        ) + if crate::dispatch::carried_out(row.op, mode) {
            1int
        } else {
            0int
        },
        counts_fit(finished(e, row, mode, elapsed_ms, example)),
        number_of(finished(e, row, mode, elapsed_ms, example), "query_count"@) <= number_of(
            finished(e, row, mode, elapsed_ms, example),
            "progress"@,
        ),
{
    lemma_counter_names();
    let counted = if crate::dispatch::carried_out(row.op, mode) {
        let c = number_of(e, "cost_ms"@);
        let e1 = added(e, "cost_ms"@, elapsed_ms);
        let v1 = crate::indicator::wrap_add(c, elapsed_ms);
        lemma_with_number(e, "cost_ms"@, v1, "progress"@);
        lemma_with_number(e, "cost_ms"@, v1, "querying"@);
        lemma_with_number(e, "cost_ms"@, v1, "query_count"@);
        let q = number_of(e1, "query_count"@);
        let v2 = crate::indicator::wrap_add(q, 1);
        lemma_with_number(e1, "query_count"@, v2, "progress"@);
        lemma_with_number(e1, "query_count"@, v2, "querying"@);
        lemma_with_number(e1, "query_count"@, v2, "query_count"@);
        added(e1, "query_count"@, 1)
    } else {
        e
    };
    let e3 = with_cost(counted, "query_stats"@, row.key, elapsed_ms, example);
    lemma_with_cost(counted, "query_stats"@, row.key, elapsed_ms, example, "progress"@);
    lemma_with_cost(counted, "query_stats"@, row.key, elapsed_ms, example, "querying"@);
    lemma_with_cost(counted, "query_stats"@, row.key, elapsed_ms, example, "query_count"@);
    let u = number_of(e3, "querying"@);
    let v3 = crate::indicator::wrap_sub(u, 1);
    lemma_with_number(e3, "querying"@, v3, "progress"@);
    lemma_with_number(e3, "querying"@, v3, "querying"@);
    lemma_with_number(e3, "querying"@, v3, "query_count"@);
}

/// Once the signal is set the coordinator starts no worker and a worker asks for
/// no record: nothing new is dispatched.
pub proof fn lemma_cancel_stops_dispatch(
    worker: Worker,
    signal: usize,
    dyn_cc_limit: usize,
    querying: usize,
    thread_count: u32,
    dyn_threads: usize,
    done_worker: usize,
    created: usize,
)
    requires
        signal != 0,
    ensures
        worker.decision(signal, dyn_cc_limit, querying) == Step::Exit,
        spawn_decision(thread_count, dyn_threads, done_worker, signal, created) == Spawn::Done,
{
}

/// A worker is started only while fewer workers were started than are wanted, and
/// the first `thread_count` of them, and only they, wait at the barrier.
pub proof fn lemma_spawn_within_desired(
    thread_count: u32,
    dyn_threads: usize,
    done_worker: usize,
    signal: usize,
    created: usize,
)
    ensures
        match spawn_decision(thread_count, dyn_threads, done_worker, signal, created) {
            Spawn::Worker { index, gated } => index == created && created < desired_workers(
                thread_count,
                dyn_threads,
            ) && gated == (index < thread_count),
            _ => true,
        },
{
}

/// In a run that is not cancelled, where every worker that left was started and
/// no more workers were started than were wanted, the coordinator is done exactly
/// when all wanted workers were started and have left.
pub proof fn lemma_done_when_all_left(
    thread_count: u32,
    dyn_threads: usize,
    done_worker: usize,
    created: usize,
)
    requires
        done_worker <= created,
        created <= desired_workers(thread_count, dyn_threads),
    ensures
        spawn_decision(thread_count, dyn_threads, done_worker, 0, created) == Spawn::Done <==> (
        done_worker == created && created == desired_workers(thread_count, dyn_threads)),
{
}

/// A worker with a limit of passes leaves after exactly that many passes, and a
/// worker without a limit never leaves a run that is not cancelled.
pub proof fn lemma_passes(worker: Worker, dyn_cc_limit: usize, querying: usize)
    ensures
        worker.loop_count > 0 ==> (worker.decision(0, dyn_cc_limit, querying) == Step::Exit <==> worker.loops_done
            >= worker.loop_count),
        worker.loop_count == 0 ==> worker.decision(0, dyn_cc_limit, querying) != Step::Exit,
        worker.loop_count > 0 && worker.loops_done < worker.loop_count ==> worker.after_pass().loops_done
            == worker.loops_done + 1,
{
}

/// In `FullLine` mode every record falls to exactly one of the workers, at
/// exactly one place of that worker's pass: the records that the workers see are
/// all the records, and no two workers see the same one.
pub proof fn lemma_stripes_partition(logs: OpLogsView, at: int)
    requires
        logs.mode is FullLine,
        logs.stride > 0,
        0 <= at < logs.rows.len(),
    ensures
        0 <= at % (logs.stride as int) < logs.stride,
        0 <= at / (logs.stride as int) <= at,
        striped_index(at % (logs.stride as int), at / (logs.stride as int), logs.stride as int)
            == at,
        forall|worker: int, row: int|
            0 <= worker < logs.stride && 0 <= row && #[trigger] striped_index(
                worker,
                row,
                logs.stride as int,
            ) == at ==> worker == at % (logs.stride as int) && row == at / (logs.stride as int),
{
    let s = logs.stride as int;
    assert(at == (at / s) * s + at % s && 0 <= at % s < s && 0 <= at / s <= at)
        by (nonlinear_arith)
        requires
            s > 0,
            at >= 0,
    ;
    assert forall|worker: int, row: int|
        0 <= worker < s && 0 <= row && #[trigger] striped_index(worker, row, s) == at implies worker
        == at % s && row == at / s by {
        assert(worker == at % s && row == at / s) by (nonlinear_arith)
            requires
                0 <= worker < s,
                0 <= row,
                worker + row * s == at,
                s > 0,
        ;
    }
}

/// The number of records that fall to the worker `worker` in one pass over
/// `records` records that are dealt out to `stride` workers.
pub open spec fn stripe_len(records: int, stride: int, worker: int) -> int {
    if worker < records {
        clients_for(records - worker, stride)
    } else {
        0
    }
}

/// The number of records that fall to the first `workers` workers together.
pub open spec fn stripes_total(records: int, stride: int, workers: int) -> int
    decreases workers,
{
    if workers <= 0 {
        0
    } else {
        stripes_total(records, stride, workers - 1) + stripe_len(records, stride, workers - 1)
    }
}

/// A worker is served a record at the places below the length of its stripe,
/// and at no other place.
pub proof fn lemma_stripe_len(logs: OpLogsView, worker: usize, row: usize)
    requires
        logs.mode is FullLine,
        logs.stride > 0,
    ensures
        logs.served(worker, row).is_some() <==> row < stripe_len(
            logs.rows.len() as int,
            logs.stride as int,
            worker as int,
        ),
{
    let n = logs.rows.len() as int;
    let s = logs.stride as int;
    let w = worker as int;
    let r = row as int;
    if w < n {
        let d = n - w;
        assert(r < (d + s - 1) / s <==> w + r * s < n) by (nonlinear_arith)
            requires
                d == n - w,
                d > 0,
                s > 0,
                r >= 0,
        ;
    } else {
        assert(w + r * s >= n) by (nonlinear_arith)
            requires
                w >= n,
                r >= 0,
                s > 0,
        ;
    }
}

/// One more record in the log is one more record for the worker in whose turn
/// it comes, and for no other.
pub proof fn lemma_stripe_grows(records: int, stride: int, worker: int)
    requires
        records >= 0,
        stride > 0,
        0 <= worker < stride,
    ensures
        stripe_len(records + 1, stride, worker) == stripe_len(records, stride, worker)
            + if worker == records % stride {
            1int
        } else {
            0int
        },
{
    if worker <= records {
        let d = records - worker;
        lemma_next_client(d, stride);
        assert((d % stride == 0) <==> (worker == records % stride)) by (nonlinear_arith)
            requires
                d == records - worker,
                d >= 0,
                0 <= worker < stride,
                stride > 0,
        ;
    } else {
        assert(records % stride == records) by (nonlinear_arith)
            requires
                0 <= records < stride,
        ;
    }
}

/// One more record in the log is one more record for the first `workers`
/// workers together where it comes in the turn of one of them.
pub proof fn lemma_stripes_total_grows(records: int, stride: int, workers: int)
    requires
        records >= 0,
        stride > 0,
        0 <= workers <= stride,
    ensures
        stripes_total(records + 1, stride, workers) == stripes_total(records, stride, workers)
            + if records % stride < workers {
            1int
        } else {
            0int
        },
    decreases workers,
{
    if workers > 0 {
        lemma_stripes_total_grows(records, stride, workers - 1);
        lemma_stripe_grows(records, stride, workers - 1);
        assert(0 <= records % stride) by (nonlinear_arith)
            requires
                records >= 0,
                stride > 0,
        ;
    } else {
        assert(0 <= records % stride) by (nonlinear_arith)
            requires
                records >= 0,
                stride > 0,
        ;
    }
}

/// No record falls to any worker of an empty log.
pub proof fn lemma_stripes_total_empty(stride: int, workers: int)
    requires
        stride > 0,
        workers >= 0,
    ensures
        stripes_total(0, stride, workers) == 0,
    decreases workers,
{
    if workers > 0 {
        lemma_stripes_total_empty(stride, workers - 1);
    }
}

/// In one pass the workers of a run are served as many records as the log
/// holds: each record once.
pub proof fn lemma_stripes_total(records: int, stride: int)
    requires
        records >= 0,
        stride > 0,
    ensures
        stripes_total(records, stride, stride) == records,
    decreases records,
{
    if records == 0 {
        lemma_stripes_total_empty(stride, stride);
    } else {
        lemma_stripes_total(records - 1, stride);
        lemma_stripes_total_grows(records - 1, stride, stride);
        assert((records - 1) % stride < stride) by (nonlinear_arith)
            requires
                records - 1 >= 0,
                stride > 0,
        ;
    }
}

/// In `FullLine` mode a worker of the run is served the record at its place as
/// often as it asks: a pass of a later loop sees what the first pass saw.
pub proof fn lemma_full_line_repeats(logs: OpLogsView, worker: usize, row: usize)
    requires
        logs.mode is FullLine,
    ensures
        logs.cursor_after() == logs.cursor,
        (OpLogsView { cursor: logs.cursor_after(), ..logs }).served(worker, row) == logs.served(
            worker,
            row,
        ),
{
}

/// A reader that serves one record after another serves the records in the order
/// of the log, each once: the record at the cursor, and then the cursor moves on.
pub proof fn lemma_cursor_serves_in_order(logs: OpLogsView, worker: usize, row: usize)
    requires
        !(logs.mode is FullLine),
        logs.mode != ReadModeView::ReadLine(true),
        logs.rows.len() <= usize::MAX,
    ensures
        logs.cursor < logs.rows.len() ==> logs.served(worker, row) == Some(
            logs.rows[logs.cursor as int],
        ) && logs.cursor_after() == logs.cursor + 1,
        logs.cursor >= logs.rows.len() ==> logs.served(worker, row).is_none()
            && logs.cursor_after() == logs.cursor,
{
}

/// Two readers that are given the same lines, the same filter and the same
/// fields to drop hold the same records in the same order.
pub proof fn lemma_reader_deterministic(
    lines_a: Seq<Seq<char>>,
    lines_b: Seq<Seq<char>>,
    filter: Option<Seq<char>>,
    ignore: Seq<Seq<char>>,
)
    requires
        lines_a == lines_b,
    ensures
        loaded(lines_a, filter, ignore) == loaded(lines_b, filter, ignore),
{
}

/// The number of operations that a run is expected to dispatch is at least the
/// number that it dispatches when it runs to its end: in `FullLine` mode with at
/// least one worker each record once in each pass, and in the other modes each
/// record once.
pub proof fn lemma_progress_within_total(
    records: usize,
    loop_count: usize,
    thread_count: u32,
    dyn_threads: usize,
    mode: ReadModeView,
)
    requires
        loop_count > 0,
        mode is FullLine ==> desired_workers(thread_count, dyn_threads) >= 1,
    ensures
        mode is FullLine ==> records * loop_count <= expected_total(
            records,
            loop_count,
            thread_count,
            dyn_threads,
            mode,
        ) || expected_total(records, loop_count, thread_count, dyn_threads, mode) == usize::MAX,
        !(mode is FullLine) ==> records == expected_total(
            records,
            loop_count,
            thread_count,
            dyn_threads,
            mode,
        ),
{
    let w = desired_workers(thread_count, dyn_threads);
    if mode is FullLine {
        assert(records * loop_count <= records * loop_count * w) by (nonlinear_arith)
            requires
                w >= 1,
                records >= 0,
                loop_count >= 0,
        ;
    }
}

/// The clients that the first `calls` callers of a pool are given, where each
/// client serves `every` callers.
pub open spec fn clients_given(calls: int, every: int) -> Set<int> {
    Set::new(|client: int| exists|call: int| 0 <= call < calls && #[trigger] (call / every) == client)
}

/// The callers of a pool are given as many different clients as their number
/// divided by the callers of one client, rounded up.
pub proof fn lemma_distinct_clients(calls: int, every: int)
    requires
        calls >= 0,
        every > 0,
    ensures
        clients_given(calls, every).finite(),
        clients_given(calls, every).len() == clients_for(calls, every),
{
    let n = clients_for(calls, every);
    let given = clients_given(calls, every);
    assert forall|client: int| given.contains(client) <==> set_int_range(0, n).contains(
        client,
    ) by {
        if given.contains(client) {
            let call = choose|call: int| 0 <= call < calls && #[trigger] (call / every) == client;
            assert(0 <= call / every && call / every < n) by (nonlinear_arith)
                requires
                    0 <= call < calls,
                    every > 0,
                    n == (calls + every - 1) / every,
            ;
        }
        if 0 <= client < n {
            let call = client * every;
            assert(0 <= call < calls && call / every == client) by (nonlinear_arith)
                requires
                    call == client * every,
                    0 <= client < n,
                    every > 0,
                    calls >= 0,
                    n == (calls + every - 1) / every,
            ;
        }
    }
    assert(given =~= set_int_range(0, n));
    lemma_int_range(0, n);
}

/// With a single worker, that worker sees every record of the log in each pass,
/// in the order of the log.
pub proof fn lemma_single_worker_sees_all(logs: OpLogsView, row: usize)
    requires
        logs.mode is FullLine,
        logs.stride == 1,
    ensures
        row < logs.rows.len() ==> logs.served(0, row) == Some(logs.rows[row as int]),
        row >= logs.rows.len() ==> logs.served(0, row).is_none(),
{
}

/// A document of a database, by its database, its collection and its `_id`.
pub type DocId = (Seq<char>, Seq<char>, JsonTree);

/// The documents that a record inserts under an `_id` of their own.
pub open spec fn inserted_docs(row: OpRowView) -> Set<DocId> {
    if row.op == Op::Insert {
        match row.cmd.get("documents"@) {
            Some(JsonTree::Array(docs)) => Set::new(
                |d: DocId| d.0 == row.db && d.1 == row.coll && doc_ids(docs).contains(d.2),
            ),
            _ => Set::empty(),
        }
    } else {
        Set::empty()
    }
}

/// The `_id`s that a predicate of the form `{_id: {$in: [..]}}` picks.
pub open spec fn picked_ids(q: JsonTree) -> Seq<JsonTree> {
    match q.get("_id"@) {
        Some(by_id) => match by_id.get("$in"@) {
            Some(JsonTree::Array(ids)) => ids,
            _ => Seq::empty(),
        },
        None => Seq::empty(),
    }
}

/// The documents that a delete by `_id`s removes: those of its collection whose
/// `_id` one of its predicates picks.
pub open spec fn deleted_docs(row: OpRowView) -> Set<DocId> {
    if row.op == Op::Delete {
        match row.cmd.get("deletes"@) {
            Some(JsonTree::Array(entries)) => Set::new(
                |d: DocId|
                    d.0 == row.db && d.1 == row.coll && exists|i: int|
                        0 <= i < entries.len() && picked_ids(
                            crate::op_row::tree_at(#[trigger] entries[i], "q"@),
                        ).contains(d.2),
            ),
            _ => Set::empty(),
        }
    } else {
        Set::empty()
    }
}

/// The documents that are left of `docs` after the deletes of `log` were carried
/// out one after another.
pub open spec fn after_deletes(docs: Set<DocId>, log: Seq<OpRowView>) -> Set<DocId>
    decreases log.len(),
{
    if log.len() == 0 {
        docs
    } else {
        after_deletes(docs, log.drop_last()).difference(deleted_docs(log.last()))
    }
}

/// The documents that the records of `log` insert under an `_id` of their own.
pub open spec fn all_inserted(log: Seq<OpRowView>) -> Set<DocId>
    decreases log.len(),
{
    if log.len() == 0 {
        Set::empty()
    } else {
        all_inserted(log.drop_last()).union(inserted_docs(log.last()))
    }
}

/// The documents that the deletes of `log` remove.
pub open spec fn all_deleted(log: Seq<OpRowView>) -> Set<DocId>
    decreases log.len(),
{
    if log.len() == 0 {
        Set::empty()
    } else {
        all_deleted(log.drop_last()).union(deleted_docs(log.last()))
    }
}

/// The record that undoes an insert removes the documents that the insert has
/// inserted, and no others.
pub proof fn lemma_revert_deletes_inserted(row: OpRowView)
    ensures
        match reverted(row) {
            Some(undo) => deleted_docs(undo) == inserted_docs(row),
            None => inserted_docs(row) == Set::<DocId>::empty(),
        },
{
    match reverted(row) {
        Some(undo) => {
            let docs = row.cmd.get("documents"@)->Some_0->Array_0;
            let ids = doc_ids(docs);
            let q = crate::revert::id_in(ids);
            let entry = JsonTree::Object(seq![("q"@, q), ("limit"@, JsonTree::Int(0))]);
            let entries = seq![entry];
            assert forall|d: DocId| deleted_docs(undo).contains(d) <==> inserted_docs(row).contains(
                d,
            ) by {
                if inserted_docs(row).contains(d) {
                    assert(picked_ids(crate::op_row::tree_at(entries[0], "q"@)).contains(d.2));
                }
            }
        },
        None => {},
    }
}

/// The compensating records of a log remove what the log's records insert.
pub proof fn lemma_reverted_rows_delete_inserted(log: Seq<OpRowView>)
    ensures
        all_deleted(reverted_rows(log)) == all_inserted(log),
    decreases log.len(),
{
    if log.len() > 0 {
        lemma_reverted_rows_delete_inserted(log.drop_last());
        lemma_revert_deletes_inserted(log.last());
        if reverted(log.last()).is_some() {
            let rows = reverted_rows(log.drop_last()).push(reverted(log.last()).unwrap());
            assert(rows.drop_last() =~= reverted_rows(log.drop_last()));
        }
    }
}

/// Carrying out deletes one after another leaves what none of them removes.
pub proof fn lemma_after_deletes(docs: Set<DocId>, log: Seq<OpRowView>)
    ensures
        after_deletes(docs, log) == docs.difference(all_deleted(log)),
    decreases log.len(),
{
    if log.len() > 0 {
        lemma_after_deletes(docs, log.drop_last());
    }
}

/// What a log of deletes removes does not depend on a record put before it.
pub proof fn lemma_all_deleted_front(first: OpRowView, rest: Seq<OpRowView>)
    ensures
        all_deleted(seq![first] + rest) == deleted_docs(first).union(all_deleted(rest)),
    decreases rest.len(),
{
    let whole = seq![first] + rest;
    if rest.len() == 0 {
        assert(all_deleted(whole.drop_last()) =~= Set::<DocId>::empty());
    } else {
        assert(whole.drop_last() =~= seq![first] + rest.drop_last());
        lemma_all_deleted_front(first, rest.drop_last());
    }
}

/// What a log of deletes removes does not depend on the order of its records.
pub proof fn lemma_all_deleted_reverse(log: Seq<OpRowView>)
    ensures
        all_deleted(log.reverse()) == all_deleted(log),
    decreases log.len(),
{
    if log.len() > 0 {
        let init = log.drop_last();
        lemma_all_deleted_reverse(init);
        assert(log.reverse() =~= seq![log.last()] + init.reverse());
        lemma_all_deleted_front(log.last(), init.reverse());
    }
}

/// Reversibility of inserts: carrying out the compensating log of a log removes
/// from any set of documents exactly the documents that the log's records insert
/// under an `_id` of their own, and leaves all other documents as they are.
pub proof fn lemma_revert_round_trip(docs: Set<DocId>, log: Seq<OpRowView>)
    ensures
        after_deletes(docs, revert_log(log)) == docs.difference(all_inserted(log)),
        forall|i: int|
            0 <= i < revert_log(log).len() ==> (#[trigger] revert_log(log)[i]).op == Op::Delete,
{
    lemma_after_deletes(docs, revert_log(log));
    lemma_all_deleted_reverse(reverted_rows(log));
    lemma_reverted_rows_delete_inserted(log);
    lemma_reverted_are_deletes(log);
}

/// Every compensating record that is made from a log alone is a delete.
pub proof fn lemma_reverted_are_deletes(log: Seq<OpRowView>)
    ensures
        forall|i: int|
            0 <= i < reverted_rows(log).len() ==> (#[trigger] reverted_rows(log)[i]).op
                == Op::Delete,
        forall|i: int|
            0 <= i < revert_log(log).len() ==> (#[trigger] revert_log(log)[i]).op == Op::Delete,
    decreases log.len(),
{
    if log.len() > 0 {
        lemma_reverted_are_deletes(log.drop_last());
    }
    let rows = reverted_rows(log);
    assert forall|i: int| 0 <= i < rows.reverse().len() implies (#[trigger] rows.reverse()[i]).op
        == Op::Delete by {
    }
}

/// The records that bring deleted documents back insert the documents that
/// were found before the run, one record for each, in their order.
pub proof fn lemma_reinserts(row: OpRowView, found: Seq<JsonTree>)
    ensures
        reinserts(row, found).len() == found.len(),
        forall|i: int|
            0 <= i < found.len() ==> #[trigger] reinserts(row, found)[i] == compensation(
                row,
                Op::Insert,
                insert_cmd(found[i]),
            ),
    decreases found.len(),
{
    if found.len() > 0 {
        lemma_reinserts(row, found.drop_last());
    }
}

/// Where every document that was found has an `_id`, the records that set
/// changed documents back set each of them back to what was found, by its
/// `_id`, one record for each, in their order.
pub proof fn lemma_restores(row: OpRowView, found: Seq<JsonTree>)
    requires
        forall|i: int| 0 <= i < found.len() ==> (#[trigger] found[i]).get("_id"@).is_some(),
    ensures
        restores(row, found).len() == found.len(),
        forall|i: int|
            0 <= i < found.len() ==> #[trigger] restores(row, found)[i] == compensation(
                row,
                Op::Update,
                restore_cmd(found[i].get("_id"@).unwrap(), found[i]),
            ),
    decreases found.len(),
{
    if found.len() > 0 {
        assert forall|i: int| 0 <= i < found.drop_last().len() implies (
        #[trigger] found.drop_last()[i]).get("_id"@).is_some() by {
            assert(found.drop_last()[i] == found[i]);
        }
        lemma_restores(row, found.drop_last());
    }
}

/// What undoes a delete from the documents found before the run brings each of
/// those documents back, and what undoes a record that only reads is nothing.
pub proof fn lemma_resumed_kinds(row: OpRowView, filter: JsonTree, found: Seq<JsonTree>)
    ensures
        row.op == Op::Delete ==> resumed(row, filter, found) == reinserts(row, found),
        !row.op.writes() ==> resumed(row, filter, found) == Seq::<OpRowView>::empty(),
{
}

} // verus!
