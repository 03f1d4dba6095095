use mongobar::dispatch::OpRunMode;
use mongobar::engine::{
    begin_op, checked_line, error_line, finish_op, log_error, next_spawn, profile_after,
    profile_before, progress_total, timeout_line, watchdog, Spawn, Step, Watch, Worker,
};
use mongobar::host::{admission_delay, machine_worker_threads, throttle_delay, worker_threads};
use mongobar::ind_keys;
use mongobar::indicator::Indicator;
use mongobar::json::Json;
use mongobar::op_logs::OpReadMode;
use mongobar::op_row::{Op, OpRow};
use mongobar::signal::{Signal, RUNNING, STOPPED, STOP_REQUESTED};
use mongobar::stack::OpStack;

fn row(id: &str, op: Op) -> OpRow {
    OpRow {
        id: id.to_string(),
        op,
        db: "d".to_string(),
        coll: "c".to_string(),
        ns: "d.c".to_string(),
        ts: 0,
        cmd: Json::Object(vec![("a".to_string(), Json::Int(1))]),
        args: Json::Null,
        key: "the-key".to_string(),
        hash: String::new(),
    }
}

#[test]
fn spawn_decisions() {
    assert_eq!(next_spawn(2, 0, 0, 0, 0), Spawn::Worker { index: 0, gated: true });
    assert_eq!(next_spawn(2, 0, 0, 0, 1), Spawn::Worker { index: 1, gated: true });
    assert_eq!(next_spawn(2, 0, 0, 0, 2), Spawn::Wait);
    assert_eq!(next_spawn(2, 0, 1, 0, 2), Spawn::Wait);
    assert_eq!(next_spawn(2, 0, 2, 0, 2), Spawn::Done);
    assert_eq!(next_spawn(2, 3, 2, 0, 2), Spawn::Worker { index: 2, gated: false });
    assert_eq!(next_spawn(2, 3, 0, 1, 0), Spawn::Done);
    assert_eq!(next_spawn(2, 3, 0, 2, 1), Spawn::Done);
    assert_eq!(next_spawn(0, 0, 0, 0, 0), Spawn::Done);
    assert_eq!(
        next_spawn(u32::MAX, usize::MAX, usize::MAX, 0, usize::MAX),
        Spawn::Worker { index: usize::MAX, gated: false }
    );
}

#[test]
fn expected_totals() {
    let full = OpReadMode::FullLine(None);
    assert_eq!(progress_total(10, 3, 4, 0, &full), 120);
    assert_eq!(progress_total(10, 3, 4, 2, &full), 180);
    assert_eq!(progress_total(10, 0, 4, 2, &full), 0);
    assert_eq!(progress_total(0, 3, 4, 2, &full), 0);
    assert_eq!(progress_total(10, 3, 0, 0, &full), 0);
    assert_eq!(progress_total(usize::MAX, 2, 1, 0, &full), usize::MAX);
    assert_eq!(progress_total(1, 1, u32::MAX, usize::MAX, &full), usize::MAX);
    assert_eq!(progress_total(0, usize::MAX, u32::MAX, usize::MAX, &full), 0);
    assert_eq!(progress_total(10, 3, 4, 2, &OpReadMode::ReadLine(false)), 10);
    assert_eq!(progress_total(10, 3, 4, 2, &OpReadMode::StreamLine), 10);
    assert_eq!(progress_total(10, 0, 4, 2, &OpReadMode::StreamLine), 0);
}

#[test]
fn worker_steps() {
    let mut w = Worker::new(3, 2);
    assert_eq!(w.next(0, 0, 100), Step::Fetch { worker: 3, row: 0 });
    w.record_taken();
    w.record_taken();
    assert_eq!(w.next(0, 0, 0), Step::Fetch { worker: 3, row: 2 });
    assert_eq!(w.next(0, 5, 4), Step::Fetch { worker: 3, row: 2 });
    assert_eq!(w.next(0, 5, 5), Step::Throttle);
    assert_eq!(w.next(0, 5, 6), Step::Throttle);
    assert_eq!(w.next(1, 5, 6), Step::Exit);
    assert_eq!(w.next(2, 0, 0), Step::Exit);
    w.pass_ended();
    assert_eq!(w.next(0, 0, 0), Step::Fetch { worker: 3, row: 0 });
    w.pass_ended();
    assert_eq!(w.next(0, 0, 0), Step::Exit);
    assert_eq!(w.loops_done, 2);
    assert!(Worker::new(3, 1).is_gated(4));
    assert!(!Worker::new(4, 1).is_gated(4));
}

#[test]
fn a_worker_without_end_goes_on_until_the_signal() {
    let mut w = Worker::new(0, 0);
    for _ in 0..50 {
        w.pass_ended();
        assert_eq!(w.next(0, 0, 0), Step::Fetch { worker: 0, row: 0 });
    }
    assert_eq!(w.next(1, 0, 0), Step::Exit);
    let mut full = Worker { index: 0, loop_count: 0, loops_done: usize::MAX, row_index: usize::MAX };
    full.record_taken();
    assert_eq!(full.row_index, usize::MAX);
    full.pass_ended();
    assert_eq!(full.loops_done, usize::MAX);
    assert_eq!(full.row_index, 0);
}

#[test]
fn begin_and_finish_count_an_operation() {
    let mut ind = Indicator::new().init(ind_keys(), "t".to_string());
    let mut stack = OpStack::new();
    let r = row("r1", Op::Find);
    begin_op(&mut ind, &mut stack, &r.id, 1234);
    assert_eq!(ind.get("progress"), 1);
    assert_eq!(ind.get("querying"), 1);
    assert_eq!(ind.get("query_count"), 0);
    assert_eq!(stack.entries(), vec![("r1".to_string(), 1234)]);
    finish_op(&mut ind, &mut stack, &r, OpRunMode::Readonly, 17);
    assert_eq!(ind.get("progress"), 1);
    assert_eq!(ind.get("querying"), 0);
    assert_eq!(ind.get("query_count"), 1);
    assert_eq!(ind.get("cost_ms"), 17);
    assert!(stack.entries().is_empty());
    let stat = ind.take("query_stats").unwrap().map_get("the-key").unwrap();
    assert_eq!((stat.sum, stat.count, stat.middle), (17, 1, 17));
    assert_eq!(stat.egs, vec!["{\"a\":1}"]);
}

#[test]
fn an_operation_that_is_not_carried_out_costs_nothing() {
    let mut ind = Indicator::new().init(ind_keys(), "t".to_string());
    let mut stack = OpStack::new();
    for r in [row("w", Op::Insert), row("n", Op::Noop)] {
        begin_op(&mut ind, &mut stack, &r.id, 0);
        finish_op(&mut ind, &mut stack, &r, OpRunMode::Readonly, 9);
    }
    assert_eq!(ind.get("progress"), 2);
    assert_eq!(ind.get("query_count"), 0);
    assert_eq!(ind.get("cost_ms"), 0);
    assert_eq!(ind.get("querying"), 0);
    assert_eq!(ind.take("query_stats").unwrap().map_get("the-key").unwrap().count, 2);
}

#[test]
fn log_lines() {
    assert_eq!(
        error_line(1700000000, "abc", Op::Find, "boom"),
        "OPExec [1700000000] [abc] err boom"
    );
    assert_eq!(error_line(1, "i", Op::Count, "e"), "OPExec [1] [i] err e");
    assert_eq!(error_line(1, "i", Op::Aggregate, "e"), "OPExec [1] [i] err e");
    assert_eq!(error_line(1, "i", Op::Command, "e"), "OPExec [1] [i] err e");
    assert_eq!(
        error_line(1, "i", Op::GetMore, "e"),
        "OPExec [1] [i] getMore Error e"
    );
    assert_eq!(error_line(1, "i", Op::Update, "e"), "OPExec [1] [i] Update Err e");
    assert_eq!(error_line(1, "i", Op::Insert, "e"), "OPExec [1] [i] Insert Err e");
    assert_eq!(error_line(1, "i", Op::Delete, "e"), "OPExec [1] [i] Delete Err e");
    assert_eq!(
        error_line(-1, "i", Op::FindAndModify, "e"),
        "OPExec [-1] [i] FindAndModify Err e"
    );
    assert_eq!(timeout_line(12, "abc"), "OPExec [12] [abc] timeout");
    assert_eq!(checked_line(12), "OPExec [12] timeout check ok");
}

#[test]
fn log_error_pushes_one_line_under_the_time_of_the_machine() {
    let mut ind = Indicator::new().init(ind_keys(), "t".to_string());
    let at = log_error(&mut ind, &row("r7", Op::Update), "no such host");
    assert!(at > 1_600_000_000);
    assert_eq!(
        ind.take("logs").unwrap().logs(),
        vec![format!("OPExec [{}] [r7] Update Err no such host", at)]
    );
    assert_eq!(ind.get("progress"), 0);
}

#[test]
fn watchdog_sleeps_while_the_run_goes_on() {
    let mut ind = Indicator::new().init(ind_keys(), "t".to_string());
    let mut stack = OpStack::new();
    stack.insert("old".to_string(), 0);
    assert_eq!(watchdog(&mut ind, &mut stack, 0, 1_000_000, 5), Watch::Sleep);
    assert_eq!(stack.entries().len(), 1);
    assert!(ind.take("logs").unwrap().logs().is_empty());
}

#[test]
fn watchdog_reports_and_removes_stuck_operations() {
    let mut ind = Indicator::new().init(ind_keys(), "t".to_string());
    let mut stack = OpStack::new();
    stack.insert("fresh".to_string(), 95_000);
    stack.insert("edge".to_string(), 89_001);
    stack.insert("stuck".to_string(), 89_000);
    stack.insert("older".to_string(), 5);
    stack.insert("ahead".to_string(), 200_000);
    let watch = watchdog(&mut ind, &mut stack, 1, 100_000, 77);
    let mut ids = match watch {
        Watch::Swept(ids) => ids,
        Watch::Sleep => panic!("the signal is set"),
    };
    ids.sort();
    assert_eq!(ids, vec!["older", "stuck"]);
    let mut left: Vec<String> = stack.entries().into_iter().map(|e| e.0).collect();
    left.sort();
    assert_eq!(left, vec!["ahead", "edge", "fresh"]);
    let mut lines = ind.take("logs").unwrap().logs();
    assert_eq!(lines.pop().unwrap(), "OPExec [77] timeout check ok");
    lines.sort();
    assert_eq!(
        lines,
        vec!["OPExec [77] [older] timeout", "OPExec [77] [stuck] timeout"]
    );
}

#[test]
fn stack_insert_replaces_and_remove_forgets() {
    let mut stack = OpStack::new();
    assert!(stack.entries().is_empty());
    stack.insert("a".to_string(), 1);
    stack.insert("b".to_string(), 2);
    stack.insert("a".to_string(), 3);
    let mut entries = stack.entries();
    entries.sort();
    assert_eq!(entries, vec![("a".to_string(), 3), ("b".to_string(), 2)]);
    stack.remove("a");
    stack.remove("zz");
    assert_eq!(stack.entries(), vec![("b".to_string(), 2)]);
    assert!(stack.sweep(11_001).is_empty());
    assert_eq!(stack.sweep(11_002), vec!["b"]);
    assert!(stack.entries().is_empty());
}

#[test]
fn profiler_is_lowered_only_from_two_and_restored_only_then() {
    assert_eq!(profile_before(Some(2)), Some(0));
    assert_eq!(profile_before(Some(1)), None);
    assert_eq!(profile_before(Some(0)), None);
    assert_eq!(profile_before(None), None);
    assert_eq!(profile_after(Some(2)), Some(2));
    assert_eq!(profile_after(Some(1)), None);
    assert_eq!(profile_after(None), None);
}

#[test]
fn signal_states() {
    let mut s = Signal::new();
    assert_eq!(s.get(), RUNNING);
    s.request_stop();
    assert_eq!(s.get(), STOP_REQUESTED);
    s.request_stop();
    assert_eq!(s.get(), STOP_REQUESTED);
    s.set(STOPPED);
    assert_eq!(s.get(), 2);
    s.request_stop();
    assert_eq!(s.get(), STOPPED);
    s.set(0);
    assert_eq!(s.get(), 0);
    s.acknowledge();
    assert_eq!(s.get(), STOPPED);
}

#[test]
fn runtime_threads_and_delays() {
    assert_eq!(worker_threads(8, 4), 15);
    assert_eq!(worker_threads(1, 4), 1);
    assert_eq!(worker_threads(0, 4), 9);
    assert_eq!(worker_threads(usize::MAX, 1), usize::MAX);
    let n = machine_worker_threads();
    assert!(n >= 1 && n % 2 == 1);
    assert_eq!(admission_delay(0), 0);
    assert_eq!(admission_delay(99), 99);
    assert_eq!(admission_delay(100), 0);
    assert_eq!(admission_delay(u64::MAX), 15);
    let delays: Vec<u64> = (0..64).map(|_| throttle_delay()).collect();
    assert!(delays.iter().all(|d| *d < 100));
    assert!(delays.iter().any(|d| *d != delays[0]));
}
