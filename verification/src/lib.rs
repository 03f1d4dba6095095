//! Replaying a captured workload against a document database: the verified
//! core of the engine.
//!
//! The library holds what a run decides and computes, with contracts that Verus
//! proves:
//!
//! - [`json`] and [`text`]: the tree of a command payload, and its JSON text;
//! - [`op_row`] and [`shape`]: an operation record, its line in a log, and what
//!   is made of it when it is loaded;
//! - [`op_logs`]: the reader of a log and its three ways of serving records;
//! - [`dispatch`]: the driver calls that a record turns into;
//! - [`engine`]: the coordinator, the worker's cycle, and what they do to the
//!   metrics;
//! - [`indicator`], [`signal`], [`stack`], [`client_pool`]: the metrics, the
//!   cancellation signal, the operations under way, and the plan of the clients;
//! - [`revert`] and [`resume`]: the logs that undo a forward log;
//! - [`capture`], [`report`], [`monitor`], [`mongobar`]: records from the
//!   profiler, the CSV report, the console lines, and a run's files and plans;
//! - [`router`]: the menus of the dashboard;
//! - [`laws`], [`order`] and [`run`]: what holds of these together, and of a run
//!   as a whole.
//!
//! Tasks, files and the database itself lie with the caller, which asks the
//! library what to do, does it, and reports what came of it.

use vstd::prelude::*;

pub mod capture;
pub mod client_pool;
pub mod dispatch;
pub mod engine;
pub mod host;
pub mod indicator;
pub mod json;
pub mod laws;
pub mod monitor;
pub mod mongobar;
pub mod op_logs;
pub mod op_row;
pub mod order;
pub mod report;
pub mod resume;
pub mod revert;
pub mod router;
pub mod run;
pub mod shape;
pub mod signal;
pub mod stack;
pub mod strings;
pub mod text;

pub use dispatch::OpRunMode;

verus! {

/// The names of the metrics that every run keeps, in the order in which they are registered.
pub open spec fn metric_names() -> Seq<Seq<char>> {
    seq![
        "boot_worker"@,
        "query_count"@,
        "cost_ms"@,
        "progress"@,
        "logs"@,
        "query_stats"@,
        "progress_total"@,
        "thread_count"@,
        "done_worker"@,
        "query_qps"@,
        "querying"@,
        "dyn_threads"@,
        "dyn_cc_limit"@,
    ]
}

/// The metric names as owned strings.
pub fn ind_keys() -> (keys: Vec<String>)
    ensures
        keys.deep_view() == metric_names(),
{
    let mut keys: Vec<String> = Vec::new();
    keys.push("boot_worker".to_string());
    keys.push("query_count".to_string());
    keys.push("cost_ms".to_string());
    keys.push("progress".to_string());
    keys.push("logs".to_string());
    keys.push("query_stats".to_string());
    keys.push("progress_total".to_string());
    keys.push("thread_count".to_string());
    keys.push("done_worker".to_string());
    keys.push("query_qps".to_string());
    keys.push("querying".to_string());
    keys.push("dyn_threads".to_string());
    keys.push("dyn_cc_limit".to_string());
    keys
}

} // verus!
