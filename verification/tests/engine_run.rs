use mongobar::client_pool::Handout;
use mongobar::dispatch::{DriverCall, OpRunMode, Verb};
use mongobar::engine::{
    begin_op, boot_worker, done_worker, finish_op, next_step_of, open_reader, Coordinator,
    Launch, Step, Turn, Worker,
};
use mongobar::ind_keys;
use mongobar::indicator::Indicator;
use mongobar::json::Json;
use mongobar::mongobar::{Exec, ExecPlan, Mongobar, MongobarConfig};
use mongobar::op_logs::{OpLogs, OpReadMode};
use mongobar::report::report_csv;
use mongobar::stack::OpStack;

struct Run {
    ind: Indicator,
    calls: Vec<DriverCall>,
    gated: Vec<bool>,
    max_querying: usize,
}

/// Runs the engine's decisions in one thread: the coordinator starts every worker
/// that it wants, then the workers take turns, one step each.
fn run(
    lines: &[&str],
    thread_count: u32,
    loop_count: usize,
    mode: OpReadMode,
    run_mode: OpRunMode,
    cancel_after: Option<usize>,
) -> Run {
    let mut ind = Indicator::new().init(ind_keys(), "t".to_string());
    let content: String = lines.iter().map(|l| format!("{}\n", l)).collect();
    let config = MongobarConfig {
        uri: "mongodb://h".to_string(),
        db: "t".to_string(),
        loop_count,
        thread_count,
        rebuild: None,
    };
    let m = Mongobar::new("/w", "t", config);
    let plan = match mode {
        OpReadMode::FullLine(filter) => m.op_stress(filter, run_mode == OpRunMode::Readonly),
        OpReadMode::ReadLine(_) => m.op_run_revert(),
        OpReadMode::StreamLine => {
            let mut plan = m.op_import();
            plan.thread_count = thread_count;
            plan.loop_count = loop_count;
            plan
        }
    };
    let plan = ExecPlan { run_mode, ..plan };
    let Exec { mut logs, mut coordinator, mut stack, run_mode } =
        m.op_exec(&mut ind, &plan, &content);
    assert_eq!(coordinator.pool.uri(), "mongodb://h");
    let mut workers: Vec<(Worker, bool)> = Vec::new();
    let mut calls = Vec::new();
    let mut gated = Vec::new();
    let mut signal = 0;
    let mut max_querying = 0;
    loop {
        match coordinator.next(&ind, signal) {
            Launch::Done => break,
            Launch::Start { worker, gated: g, client, total } => {
                assert_eq!(worker.index, workers.len());
                assert_eq!(
                    client,
                    Some(Handout { client: 0, created: workers.is_empty() })
                );
                coordinator.started(&mut ind, total);
                boot_worker(&mut ind);
                workers.push((worker, true));
                gated.push(g);
            }
            Launch::Wait => {
                for (worker, alive) in workers.iter_mut() {
                    if !*alive {
                        continue;
                    }
                    match worker.turn(&mut ind, &mut logs, &mut stack, signal, run_mode, 0) {
                        Turn::Exit => {
                            done_worker(&mut ind);
                            *alive = false;
                        }
                        Turn::Throttle | Turn::PassEnded => {}
                        Turn::Run { row, calls: made } => {
                            max_querying = max_querying.max(ind.get("querying"));
                            calls.extend(made);
                            finish_op(&mut ind, &mut stack, &row, run_mode, 2);
                            if Some(ind.get("progress")) == cancel_after {
                                signal = 1;
                            }
                        }
                    }
                }
            }
        }
    }
    assert_eq!(coordinator.created, workers.len());
    // The coordinator waits for the workers that are still there.
    for (worker, alive) in workers.iter_mut() {
        if *alive {
            assert_eq!(next_step_of(&ind, worker, signal), Step::Exit);
            done_worker(&mut ind);
        }
    }
    Run {
        ind,
        calls,
        gated,
        max_querying,
    }
}

const FIND: &str = "{\"op\":\"Find\",\"db\":\"t\",\"coll\":\"c\",\"cmd\":{\"find\":\"c\",\"filter\":{}}}";

#[test]
fn empty_log() {
    let r = run(
        &[],
        4,
        1,
        OpReadMode::FullLine(None),
        OpRunMode::ReadWrite,
        None,
    );
    assert_eq!(r.ind.get("progress"), 0);
    assert_eq!(r.ind.get("query_count"), 0);
    assert_eq!(r.ind.get("done_worker"), 4);
    assert_eq!(r.ind.get("boot_worker"), 4);
    assert_eq!(r.ind.get("progress_total"), 0);
    assert!(r.calls.is_empty());
    let stats = r.ind.take("query_stats").unwrap();
    assert_eq!(
        report_csv(&stats),
        "Key,AvgCost(ms),MidCost(ms),Count,Eg\n"
    );
}

#[test]
fn single_find_looped() {
    // The one record falls to the worker 0, which dispatches it once in each of
    // its three passes; the worker 1 is dealt no record.
    let r = run(
        &[FIND],
        2,
        3,
        OpReadMode::FullLine(None),
        OpRunMode::ReadWrite,
        None,
    );
    assert_eq!(r.calls.len(), 3);
    for call in &r.calls {
        assert_eq!(call.verb, Verb::RunCursorCommand);
        assert_eq!(call.db, "t");
        assert_eq!(
            call.doc,
            Json::Object(vec![
                ("find".to_string(), Json::Str("c".to_string())),
                ("filter".to_string(), Json::Object(vec![])),
            ])
        );
    }
    assert_eq!(r.ind.get("progress"), 3);
    assert_eq!(r.ind.get("query_count"), 3);
    assert_eq!(r.ind.get("done_worker"), 2);
    assert_eq!(r.ind.get("progress_total"), 6);
    assert_eq!(r.ind.get("querying"), 0);
    assert_eq!(r.ind.get("cost_ms"), 6);
    let stats = r.ind.take("query_stats").unwrap();
    let bucket = stats.map_get("Find:").unwrap();
    assert_eq!(bucket.count, 3);
    assert_eq!(bucket.sum, 6);
}

#[test]
fn single_find_looped_by_one_worker_is_dispatched_in_every_pass() {
    let r = run(
        &[FIND, FIND],
        1,
        3,
        OpReadMode::FullLine(None),
        OpRunMode::Readonly,
        None,
    );
    assert_eq!(r.calls.len(), 6);
    assert_eq!(r.ind.get("progress"), 6);
    assert_eq!(r.ind.get("progress_total"), 6);
    assert_eq!(r.ind.get("query_count"), 6);
}

#[test]
fn full_line_deals_every_record_to_one_worker() {
    let lines: Vec<String> = (0..10)
        .map(|i| format!("{{\"id\":\"r{}\",\"op\":\"Find\",\"cmd\":{{}}}}", i))
        .collect();
    let mut logs = OpLogs::new(OpReadMode::FullLine(None), vec![]).init(&lines, 3);
    let mut seen: Vec<String> = Vec::new();
    for w in 0..3 {
        let mut i = 0;
        while let Some(row) = logs.read(w, i) {
            seen.push(row.id);
            i += 1;
        }
    }
    assert_eq!(
        seen,
        vec!["r0", "r3", "r6", "r9", "r1", "r4", "r7", "r2", "r5", "r8"]
    );
    seen.sort();
    seen.dedup();
    assert_eq!(seen.len(), 10);
}

#[test]
fn cancellation_mid_run() {
    let lines: Vec<&str> = (0..10_000).map(|_| FIND).collect();
    let r = run(
        &lines,
        32,
        0,
        OpReadMode::FullLine(None),
        OpRunMode::Readonly,
        Some(500),
    );
    assert_eq!(r.ind.get("done_worker"), 32);
    assert_eq!(r.ind.get("progress"), 500);
    assert!(r.ind.get("progress") < 10_000);
    assert_eq!(r.ind.get("querying"), 0);
    assert_eq!(r.ind.get("progress_total"), 0);
    assert!(r.ind.take("logs").unwrap().logs().is_empty());
}

#[test]
fn admission_control() {
    let mut ind = Indicator::new().init(ind_keys(), "t".to_string());
    ind.set("dyn_cc_limit", 5);
    let lines: Vec<String> = (0..200).map(|_| FIND.to_string()).collect();
    let mut logs = OpLogs::new(OpReadMode::FullLine(None), vec![]).init(&lines, 50);
    let mut stack = OpStack::new();
    let mut workers: Vec<Worker> = (0..50).map(|i| Worker::new(i, 1)).collect();
    let mut under_way = Vec::new();
    let mut max_querying = 0;
    let mut throttled = 0;
    // Every worker asks once before any operation comes back.
    for worker in workers.iter_mut() {
        match next_step_of(&ind, worker, 0) {
            Step::Fetch { worker: w, row } => {
                let record = logs.read(w, row).unwrap();
                worker.record_taken();
                begin_op(&mut ind, &mut stack, &record.id, 0);
                under_way.push(record);
            }
            Step::Throttle => throttled += 1,
            Step::Exit => panic!("no worker leaves before its pass is done"),
        }
        max_querying = max_querying.max(ind.get("querying"));
    }
    assert_eq!(max_querying, 5);
    assert_eq!(under_way.len(), 5);
    assert_eq!(throttled, 45);
    for record in under_way {
        finish_op(&mut ind, &mut stack, &record, OpRunMode::Readonly, 100);
    }
    assert_eq!(ind.get("querying"), 0);
    assert_eq!(
        next_step_of(&ind, &workers[49], 0),
        Step::Fetch { worker: 49, row: 0 }
    );
}

#[test]
fn boost_workers_bypass_barrier() {
    let mut ind = Indicator::new().init(ind_keys(), "t".to_string());
    let mut coordinator =
        Coordinator::new("mongodb://h", 4, 1, 10, OpReadMode::FullLine(None));
    let mut spawned = Vec::new();
    loop {
        match coordinator.next(&ind, 0) {
            Launch::Start { worker, gated, total, .. } => {
                coordinator.started(&mut ind, total);
                spawned.push((worker.index, gated));
            }
            Launch::Wait => break,
            Launch::Done => panic!("no worker has left"),
        }
    }
    assert_eq!(
        spawned,
        vec![(0, true), (1, true), (2, true), (3, true)]
    );
    assert_eq!(ind.get("progress_total"), 40);
    ind.set("dyn_threads", 4);
    loop {
        match coordinator.next(&ind, 0) {
            Launch::Start { worker, gated, total, .. } => {
                coordinator.started(&mut ind, total);
                spawned.push((worker.index, gated));
            }
            Launch::Wait => break,
            Launch::Done => panic!("no worker has left"),
        }
    }
    assert_eq!(spawned.len(), 8);
    assert_eq!(
        &spawned[4..],
        &[(4, false), (5, false), (6, false), (7, false)]
    );
    for (index, gated) in &spawned {
        assert_eq!(Worker::new(*index, 1).is_gated(4), *gated);
    }
    assert_eq!(ind.get("progress_total"), 80);
    assert_eq!(coordinator.created, 8);
    assert_eq!(coordinator.pool.len(), 1);
    ind.set("done_worker", 8);
    assert_eq!(coordinator.next(&ind, 0), Launch::Done);
}

#[test]
fn the_coordinator_stops_starting_workers_once_the_signal_is_set() {
    let mut ind = Indicator::new().init(ind_keys(), "t".to_string());
    let mut coordinator =
        Coordinator::new("mongodb://h", 4, 1, 10, OpReadMode::FullLine(None));
    match coordinator.next(&ind, 0) {
        Launch::Start { total, .. } => coordinator.started(&mut ind, total),
        _ => panic!("the first worker is wanted"),
    }
    assert_eq!(coordinator.next(&ind, 1), Launch::Done);
    assert_eq!(coordinator.next(&ind, 2), Launch::Done);
    assert_eq!(coordinator.created, 1);
}

#[test]
fn a_worker_whose_client_cannot_be_made_is_not_counted() {
    let mut ind = Indicator::new().init(ind_keys(), "t".to_string());
    let mut coordinator =
        Coordinator::new("not an address", 2, 3, 10, OpReadMode::FullLine(None));
    let plan = coordinator.next(&ind, 0);
    assert_eq!(
        plan,
        Launch::Start {
            worker: Worker::new(0, 3),
            gated: true,
            client: Some(Handout { client: 0, created: true }),
            total: 60,
        }
    );
    // The client could not be made: the coordinator and the metrics are as
    // they were, and the same plan comes again.
    assert_eq!(coordinator.created, 0);
    assert_eq!(coordinator.pool.len(), 0);
    assert_eq!(ind.get("progress_total"), 0);
    assert_eq!(coordinator.next(&ind, 0), plan);
    coordinator.started(&mut ind, 60);
    assert_eq!(coordinator.created, 1);
    assert_eq!(coordinator.pool.len(), 1);
    assert_eq!(ind.get("progress_total"), 60);
    assert_eq!(
        coordinator.next(&ind, 0),
        Launch::Start {
            worker: Worker::new(1, 3),
            gated: true,
            client: Some(Handout { client: 0, created: false }),
            total: 60,
        }
    );
}

#[test]
fn a_run_without_workers_to_begin_with_has_no_client_for_a_boost_worker() {
    let mut ind = Indicator::new().init(ind_keys(), "t".to_string());
    let mut coordinator =
        Coordinator::new("mongodb://h", 0, 1, 10, OpReadMode::FullLine(None));
    assert_eq!(coordinator.next(&ind, 0), Launch::Done);
    ind.set("dyn_threads", 1);
    assert_eq!(
        coordinator.next(&ind, 0),
        Launch::Start { worker: Worker::new(0, 1), gated: false, client: None, total: 10 }
    );
}

#[test]
fn malformed_lines_of_a_run_are_logged() {
    let mut ind = Indicator::new().init(ind_keys(), "t".to_string());
    let content = format!("x\n{}\n\n{{\"op\":1}}\n", FIND);
    let logs = open_reader(&mut ind, OpReadMode::StreamLine, vec![], &content, 7);
    assert_eq!(logs.len(), 1);
    assert_eq!(logs.stride, 7);
    assert_eq!(ind.get("thread_count"), 7);
    assert_eq!(
        ind.consumers("logs"),
        vec![
            "OPExec line 1 is malformed and skipped",
            "OPExec line 4 is malformed and skipped"
        ]
    );
}

#[test]
fn gated_flags_of_a_run() {
    let r = run(
        &[FIND],
        3,
        1,
        OpReadMode::FullLine(None),
        OpRunMode::Readonly,
        None,
    );
    assert_eq!(r.gated, vec![true, true, true]);
    assert_eq!(r.max_querying, 1);
}

#[test]
fn replay_reads_each_record_once_whoever_asks() {
    let lines = [FIND, "{\"op\":\"Count\",\"db\":\"t\",\"cmd\":{\"count\":\"c\"}}", FIND];
    let r = run(
        &lines,
        4,
        1,
        OpReadMode::ReadLine(false),
        OpRunMode::ReadWrite,
        None,
    );
    assert_eq!(r.ind.get("progress"), 3);
    assert_eq!(r.ind.get("progress_total"), 3);
    assert_eq!(r.ind.get("done_worker"), 4);
    let verbs: Vec<Verb> = r.calls.iter().map(|c| c.verb).collect();
    assert_eq!(
        verbs,
        vec![Verb::RunCursorCommand, Verb::RunCommand, Verb::RunCursorCommand]
    );
}

#[test]
fn queries_counted_never_exceed_operations_dispatched() {
    let lines = [
        FIND,
        "{\"op\":\"None\"}",
        "{\"op\":\"Insert\",\"db\":\"t\",\"coll\":\"c\",\"cmd\":{\"documents\":[{\"_id\":1}]}}",
        "{\"op\":\"Delete\",\"db\":\"t\",\"coll\":\"c\",\"cmd\":{\"q\":{\"a\":1}}}",
    ];
    let read_only = run(
        &lines,
        1,
        2,
        OpReadMode::StreamLine,
        OpRunMode::Readonly,
        None,
    );
    assert_eq!(read_only.ind.get("progress"), 4);
    assert_eq!(read_only.ind.get("query_count"), 1);
    assert_eq!(read_only.calls.len(), 1);
    let read_write = run(
        &lines,
        1,
        2,
        OpReadMode::StreamLine,
        OpRunMode::ReadWrite,
        None,
    );
    assert_eq!(read_write.ind.get("progress"), 4);
    assert_eq!(read_write.ind.get("query_count"), 3);
    assert_eq!(read_write.calls.len(), 3);
}
