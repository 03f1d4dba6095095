//! A named run: its configuration, the files of its working directory, and the
//! plans of its commands.

use crate::dispatch::OpRunMode;
use crate::engine::{logged_all, malformed_texts, open_reader, pool_block, Coordinator};
use crate::indicator::{
    metric_named, pushed, registry_wf, relogged, with_number, Indicator, MetricView,
};
use crate::json::{Json, JsonTree};
use crate::op_logs::{
    loaded, malformed_lines, row_views, OpLogs, OpLogsView, OpReadMode, ReadModeView,
};
use crate::stack::{no_entries, stack_entries, OpStack};
use crate::op_row::{int_at, row_written, OpRow, OpRowView};
use crate::report::{fixed2, fixed2_text, report_by_key, report_csv, report_text};
use crate::revert::{op_revert, revert_log};
use crate::signal::Signal;
use crate::strings::{i64_text, line_text, lines_in, lines_of, signed_decimal, text_of};
use crate::text::{json_read, json_text};
use vstd::prelude::*;

verus! {

/// The configuration of a run.
#[derive(Debug, PartialEq, Eq)]
pub struct MongobarConfig {
    /// The address of the database.
    pub uri: String,
    /// The database whose profiler is read.
    pub db: String,
    /// How many passes each worker makes; zero is without end.
    pub loop_count: usize,
    /// How many workers a run begins with.
    pub thread_count: u32,
    /// Whether files that are there already are built anew.
    pub rebuild: Option<bool>,
}

/// The counters of a run that are kept between commands.
#[derive(Debug, Clone, Copy, PartialEq, Eq, Structural)]
pub struct OpState {
    pub stress_index: i64,
    pub stress_start_ts: i64,
    pub stress_end_ts: i64,
    pub record_start_ts: i64,
    pub record_end_ts: i64,
}

/// A named run.
#[derive(Debug, PartialEq)]
pub struct Mongobar {
    /// The directory that holds the working directories of all runs.
    pub dir: String,
    pub name: String,
    pub op_workdir: String,
    pub op_file_oplogs: String,
    pub op_file_revert: String,
    pub op_file_resume: String,
    pub op_file_data: String,
    pub op_state_file: String,
    pub op_state: OpState,
    pub config: MongobarConfig,
    pub indicator: Indicator,
    pub signal: Signal,
    pub ignore_field: Vec<String>,
}

/// What the engine is asked to run.
#[derive(Debug, PartialEq)]
pub struct ExecPlan {
    /// The log that is replayed.
    pub exec_file: String,
    pub thread_count: u32,
    pub loop_count: usize,
    pub mode: OpReadMode,
    pub run_mode: OpRunMode,
}

/// A run that is set up: its reader, its coordinator, and its operations
/// under way.
pub struct Exec {
    pub logs: OpLogs,
    pub coordinator: Coordinator,
    pub stack: OpStack,
    pub run_mode: OpRunMode,
}

/// The model of an [`ExecPlan`].
pub struct ExecPlanView {
    pub exec_file: Seq<char>,
    pub thread_count: u32,
    pub loop_count: usize,
    pub mode: ReadModeView,
    pub run_mode: OpRunMode,
}

impl View for ExecPlan {
    type V = ExecPlanView;

    open spec fn view(&self) -> ExecPlanView {
        ExecPlanView {
            exec_file: self.exec_file@,
            thread_count: self.thread_count,
            loop_count: self.loop_count,
            mode: self.mode@,
            run_mode: self.run_mode,
        }
    }
}

/// The path of `name` in the directory `dir`.
pub open spec fn joined_path(dir: Seq<char>, name: Seq<char>) -> Seq<char> {
    dir + "/"@ + name
}

/// The working directory of the run `name` under the current directory `cwd`.
pub open spec fn workdir_of(cwd: Seq<char>, name: Seq<char>) -> Seq<char> {
    joined_path(joined_path(cwd, ".mongobar"@), name)
}

/// The path of `name` in the directory `dir`.
pub fn join_path(dir: &str, name: &str) -> (path: String)
    ensures
        path@ == joined_path(dir@, name@),
{
    let mut path = dir.to_string();
    path.append("/");
    path.append(name);
    path
}

/// The log line of a replay that finds no log to restore from.
pub open spec fn no_resume_text() -> Seq<char> {
    "OPReplay op_file_resume not exists, please run ui [Replay]->[Revert] first"@
}

/// The log line of a replay that is done, after `elapsed_ms` milliseconds.
pub open spec fn replay_done_text(elapsed_ms: usize) -> Seq<char> {
    "OPReplay op_exec oplogs.op done run("@ + fixed2(elapsed_ms as nat, 1000) + "s)"@
}

/// The log line of a compensating log that was built in `build_ms` milliseconds
/// and waits to be run.
pub open spec fn revert_waiting_text(build_ms: usize) -> Seq<char> {
    "OPReplay op_exec revert.op waiting... build("@ + fixed2(build_ms as nat, 1000) + "s)"@
}

/// The log line of a log to restore from that was built in `build_ms`
/// milliseconds.
pub open spec fn resume_waiting_text(build_ms: usize) -> Seq<char> {
    "OPReplay op_exec resume.op waiting... build("@ + fixed2(build_ms as nat, 1000) + "s)"@
}

/// The log line of a compensating log that was built and run.
pub open spec fn revert_done_text(build_ms: usize, run_ms: usize) -> Seq<char> {
    "OPReplay op_exec revert.op done  build("@ + fixed2(build_ms as nat, 1000) + "s) run("@
        + fixed2(run_ms as nat, 1000) + "s)"@
}

/// The registry after a replay has said that it begins.
pub open spec fn replay_announced(e: Seq<(Seq<char>, MetricView)>) -> Seq<(Seq<char>, MetricView)> {
    relogged(
        pushed(
            pushed(e, "logs"@, "OPReplay op_exec revert.op done"@),
            "logs"@,
            "OPReplay op_exec oplogs.op waiting..."@,
        ),
        "logs"@,
        1,
        "OPReplay op_exec oplogs.op running..."@,
    )
}

/// The lines that are written for records, line by line.
pub open spec fn written_lines(rows: Seq<OpRowView>) -> Seq<Seq<char>> {
    Seq::new(rows.len(), |i: int| row_written(rows[i]))
}

/// The lines that are written for `rows`, without line breaks.
pub fn write_lines(rows: &Vec<OpRow>) -> (lines: Vec<String>)
    ensures
        lines.deep_view() == written_lines(row_views(rows@)),
{
    let mut lines: Vec<String> = Vec::new();
    let mut i: usize = 0;
    while i < rows.len()
        invariant
            i <= rows.len(),
            lines@.len() == i,
            forall|k: int| 0 <= k < i ==> lines@[k]@ == row_written(rows@[k]@),
        decreases rows.len() - i,
    {
        lines.push(rows[i].to_line());
        i += 1;
    }
    lines
}

/// The JSON object that stands for the counters of a run.
pub open spec fn state_tree(state: OpState) -> JsonTree {
    JsonTree::Object(
        seq![
            ("stress_index"@, JsonTree::Int(state.stress_index)),
            ("stress_start_ts"@, JsonTree::Int(state.stress_start_ts)),
            ("stress_end_ts"@, JsonTree::Int(state.stress_end_ts)),
            ("record_start_ts"@, JsonTree::Int(state.record_start_ts)),
            ("record_end_ts"@, JsonTree::Int(state.record_end_ts)),
        ],
    )
}

/// The counters that a JSON object stands for: a counter that is absent is zero,
/// and a tree that is no object or holds a counter that is no integer stands for
/// none.
pub open spec fn state_of(tree: JsonTree) -> Option<OpState> {
    if tree is Object && int_at(tree, "stress_index"@).is_some() && int_at(
        tree,
        "stress_start_ts"@,
    ).is_some() && int_at(tree, "stress_end_ts"@).is_some() && int_at(
        tree,
        "record_start_ts"@,
    ).is_some() && int_at(tree, "record_end_ts"@).is_some() {
        Some(
            OpState {
                stress_index: int_at(tree, "stress_index"@).unwrap(),
                stress_start_ts: int_at(tree, "stress_start_ts"@).unwrap(),
                stress_end_ts: int_at(tree, "stress_end_ts"@).unwrap(),
                record_start_ts: int_at(tree, "record_start_ts"@).unwrap(),
                record_end_ts: int_at(tree, "record_end_ts"@).unwrap(),
            },
        )
    } else {
        None
    }
}

/// The counters that the text of a state file stands for.
pub open spec fn state_read(content: Seq<char>) -> Option<OpState> {
    match json_read(content) {
        Some(tree) => state_of(tree),
        None => None,
    }
}

/// The predicate that picks the entries of the profiler between two
/// milliseconds, but for those about the profiler's own collection of `db`.
pub open spec fn profile_filter(db: Seq<char>, start_ms: i64, end_ms: i64) -> JsonTree {
    JsonTree::Object(
        seq![
            ("ns"@, JsonTree::Object(seq![("$ne"@, JsonTree::Str(db + ".system.profile"@))])),
            (
                "ts"@,
                JsonTree::Object(
                    seq![
                        ("$gte"@, JsonTree::Object(seq![("$date"@, JsonTree::Int(start_ms))])),
                        ("$lt"@, JsonTree::Object(seq![("$date"@, JsonTree::Int(end_ms))])),
                    ],
                ),
            ),
        ],
    )
}

/// The log line of a log to restore from that is there already.
pub open spec fn resume_exists_text(at: i64, path: Seq<char>) -> Seq<char> {
    "OPResume ["@ + signed_decimal(at as int) + "] ["@ + path + "] file exists"@
}

/// The log line of a report that was built.
pub open spec fn report_built_text(path: Seq<char>) -> Seq<char> {
    "Build Report \""@ + path + "\"."@
}

/// The error of saving a log over a file that is there already.
pub open spec fn save_refused_text(path: Seq<char>) -> Seq<char> {
    "file "@ + path + " already exists, use --force to overwrite"@
}

/// What is done about the log to restore from before it is built.
#[derive(Debug, Clone, Copy, PartialEq, Eq, Structural)]
pub enum Build {
    /// There is a log already and it is kept: nothing is built.
    Skip,
    /// There is no log yet: it is built.
    Fresh,
    /// There is a log already: it is removed and built anew.
    Replace,
}

/// The value of the integer field `key` of `j`.
fn read_counter(j: &Json, key: &str) -> (r: Option<i64>)
    ensures
        r == int_at(j@, key@),
{
    match j.get(key) {
        None => Some(0),
        Some(v) => v.as_i64(),
    }
}

impl Mongobar {
    /// The run `name` with the configuration `config`, whose files lie under the
    /// current directory `cwd`.
    pub fn new(cwd: &str, name: &str, config: MongobarConfig) -> (m: Mongobar)
        ensures
            m.name@ == name@,
            m.dir@ == joined_path(cwd@, ".mongobar"@),
            m.op_workdir@ == workdir_of(cwd@, name@),
            m.op_file_oplogs@ == joined_path(workdir_of(cwd@, name@), "oplogs.op"@),
            m.op_file_revert@ == joined_path(workdir_of(cwd@, name@), "revert.op"@),
            m.op_file_resume@ == joined_path(workdir_of(cwd@, name@), "resume.op"@),
            m.op_file_data@ == joined_path(workdir_of(cwd@, name@), "data.op"@),
            m.op_state_file@ == joined_path(workdir_of(cwd@, name@), "state.json"@),
            m.op_state == (OpState {
                stress_index: 0,
                stress_start_ts: 0,
                stress_end_ts: 0,
                record_start_ts: 0,
                record_end_ts: 0,
            }),
            m.config == config,
            m.indicator@ == Seq::<(Seq<char>, MetricView)>::empty(),
            m.signal@ == 0,
            m.ignore_field@ == Seq::<String>::empty(),
    {
        let dir = join_path(cwd, ".mongobar");
        let workdir = join_path(dir.as_str(), name);
        Mongobar {
            name: name.to_string(),
            op_file_oplogs: join_path(workdir.as_str(), "oplogs.op"),
            op_file_revert: join_path(workdir.as_str(), "revert.op"),
            op_file_resume: join_path(workdir.as_str(), "resume.op"),
            op_file_data: join_path(workdir.as_str(), "data.op"),
            op_state_file: join_path(workdir.as_str(), "state.json"),
            op_workdir: workdir,
            dir,
            op_state: OpState {
                stress_index: 0,
                stress_start_ts: 0,
                stress_end_ts: 0,
                record_start_ts: 0,
                record_end_ts: 0,
            },
            config,
            indicator: Indicator::new(),
            signal: Signal::new(),
            ignore_field: Vec::new(),
        }
    }

    /// The working directory of the run.
    pub fn cwd(&self) -> (path: String)
        ensures
            path@ == joined_path(self.dir@, self.name@),
    {
        join_path(self.dir.as_str(), self.name.as_str())
    }

    /// The path of the report of the run.
    pub fn report_file(&self) -> (path: String)
        ensures
            path@ == joined_path(self.op_workdir@, "query_stats.csv"@),
    {
        join_path(self.op_workdir.as_str(), "query_stats.csv")
    }

    /// The run with another registry of metrics.
    pub fn set_indicator(self, indicator: Indicator) -> (m: Mongobar)
        ensures
            m == (Mongobar { indicator, ..self }),
    {
        Mongobar { indicator, ..self }
    }

    /// The run with another cancellation signal.
    pub fn set_signal(self, signal: Signal) -> (m: Mongobar)
        ensures
            m == (Mongobar { signal, ..self }),
    {
        Mongobar { signal, ..self }
    }

    /// The run with other fields to drop from the payloads.
    pub fn set_ignore_field(self, ignore_field: Vec<String>) -> (m: Mongobar)
        ensures
            m == (Mongobar { ignore_field, ..self }),
    {
        Mongobar { ignore_field, ..self }
    }

    /// The run with `rebuild` as its wish to build files anew.
    pub fn merge_config_rebuild(self, rebuild: Option<bool>) -> (m: Mongobar)
        ensures
            m == (Mongobar { config: (MongobarConfig { rebuild, ..self.config }), ..self }),
    {
        let mut m = self;
        m.config.rebuild = rebuild;
        m
    }

    /// The run with `uri` as the address of the database, where one is given.
    pub fn merge_config_uri(self, uri: Option<String>) -> (m: Mongobar)
        ensures
            m == match uri {
                Some(uri) => (Mongobar { config: (MongobarConfig { uri, ..self.config }), ..self }),
                None => self,
            },
    {
        let mut m = self;
        if let Some(uri) = uri {
            m.config.uri = uri;
        }
        m
    }

    /// The run with `db` as the database, where one is given.
    pub fn merge_config_db(self, db: Option<String>) -> (m: Mongobar)
        ensures
            m == match db {
                Some(db) => (Mongobar { config: (MongobarConfig { db, ..self.config }), ..self }),
                None => self,
            },
    {
        let mut m = self;
        if let Some(db) = db {
            m.config.db = db;
        }
        m
    }

    /// The run with `loop_count` passes for each worker, where a number is given.
    pub fn merge_config_loop_count(self, loop_count: Option<usize>) -> (m: Mongobar)
        ensures
            m == match loop_count {
                Some(loop_count) => (Mongobar {
                    config: (MongobarConfig { loop_count, ..self.config }),
                    ..self
                }),
                None => self,
            },
    {
        let mut m = self;
        if let Some(loop_count) = loop_count {
            m.config.loop_count = loop_count;
        }
        m
    }

    /// The run with `thread_count` workers to begin with, where a number is
    /// given; a number that does not fit is cut to the largest that does.
    pub fn merge_config_thread_count(self, thread_count: Option<usize>) -> (m: Mongobar)
        ensures
            m == match thread_count {
                Some(n) => (Mongobar {
                    config: (MongobarConfig {
                        thread_count: if n > u32::MAX {
                            u32::MAX
                        } else {
                            n as u32
                        },
                        ..self.config
                    }),
                    ..self
                }),
                None => self,
            },
    {
        let mut m = self;
        if let Some(n) = thread_count {
            m.config.thread_count = if n > u32::MAX as usize {
                u32::MAX
            } else {
                n as u32
            };
        }
        m
    }

    /// Sets up the run of `plan` over the log with the text `content`.
    ///
    /// The reader holds the records of the log for the workers that the run
    /// begins with; the lines that stand for no record are logged; the
    /// coordinator has started no worker and its pool has made no client; and no
    /// operation is under way.
    pub fn op_exec(&self, ind: &mut Indicator, plan: &ExecPlan, content: &str) -> (run: Exec)
        ensures
            run.logs@ == (OpLogsView {
                mode: plan@.mode,
                ignore_field: self.ignore_field.deep_view(),
                rows: loaded(
                    lines_in(content@),
                    plan@.mode.filter(),
                    self.ignore_field.deep_view(),
                ),
                malformed: malformed_lines(lines_in(content@), plan@.mode.filter()),
                stride: plan.thread_count as usize,
                cursor: 0,
            }),
            final(ind)@ == logged_all(
                with_number(old(ind)@, "thread_count"@, plan.thread_count as usize),
                malformed_texts(run.logs@.malformed),
            ),
            run.coordinator.thread_count == plan.thread_count,
            run.coordinator.loop_count == plan.loop_count,
            run.coordinator.records == run.logs@.rows.len(),
            run.coordinator.mode@ == plan@.mode,
            run.coordinator.created == 0,
            run.coordinator.pool.uri_view() == self.config.uri@,
            run.coordinator.pool.every() == pool_block(plan.thread_count),
            run.coordinator.pool.made() == 0,
            run.coordinator.pool.handed_out() == 0,
            stack_entries(run.stack) == no_entries(),
            run.run_mode == plan.run_mode,
            registry_wf(old(ind)@) ==> registry_wf(final(ind)@),
    {
        let ignore = crate::strings::copy_lines(&self.ignore_field);
        let logs = open_reader(ind, plan.mode.copy(), ignore, content, plan.thread_count);
        let coordinator = Coordinator::new(
            self.config.uri.as_str(),
            plan.thread_count,
            plan.loop_count,
            logs.len(),
            plan.mode.copy(),
        );
        Exec { logs, coordinator, stack: OpStack::new(), run_mode: plan.run_mode }
    }

    /// The plan of a stress run: the forward log, dealt out to the workers, with
    /// the configured workers and passes; only lines that hold `filter` are
    /// replayed, and a read-only run leaves the database as it is.
    pub fn op_stress(&self, filter: Option<String>, readonly: bool) -> (plan: ExecPlan)
        ensures
            plan@ == (ExecPlanView {
                exec_file: self.op_file_oplogs@,
                thread_count: self.config.thread_count,
                loop_count: self.config.loop_count,
                mode: ReadModeView::FullLine(
                    match filter {
                        Some(f) => Some(f@),
                        None => None,
                    },
                ),
                run_mode: if readonly {
                    OpRunMode::Readonly
                } else {
                    OpRunMode::ReadWrite
                },
            }),
    {
        ExecPlan {
            exec_file: self.op_file_oplogs.clone(),
            thread_count: self.config.thread_count,
            loop_count: self.config.loop_count,
            mode: OpReadMode::FullLine(filter),
            run_mode: if readonly {
                OpRunMode::Readonly
            } else {
                OpRunMode::ReadWrite
            },
        }
    }

    /// The plan of a replay: one pass over the forward log, each record once,
    /// with writes. There is none where the log to restore from is missing, which
    /// is logged.
    pub fn op_replay(&self, ind: &mut Indicator, resume_exists: bool) -> (plan: Option<ExecPlan>)
        ensures
            !resume_exists ==> plan.is_none() && final(ind)@ == pushed(
                old(ind)@,
                "logs"@,
                no_resume_text(),
            ),
            resume_exists ==> plan.is_some() && final(ind)@ == replay_announced(old(ind)@)
                && plan.unwrap()@ == (ExecPlanView {
                exec_file: self.op_file_oplogs@,
                thread_count: self.config.thread_count,
                loop_count: 1,
                mode: ReadModeView::ReadLine(false),
                run_mode: OpRunMode::ReadWrite,
            }),
            registry_wf(old(ind)@) ==> registry_wf(final(ind)@),
    {
        if !resume_exists {
            ind.push(
                "logs",
                "OPReplay op_file_resume not exists, please run ui [Replay]->[Revert] first".to_string(),
            );
            return None;
        }
        ind.push("logs", "OPReplay op_exec revert.op done".to_string());
        ind.push("logs", "OPReplay op_exec oplogs.op waiting...".to_string());
        ind.update("logs", 1, "OPReplay op_exec oplogs.op running...".to_string());
        Some(
            ExecPlan {
                exec_file: self.op_file_oplogs.clone(),
                thread_count: self.config.thread_count,
                loop_count: 1,
                mode: OpReadMode::ReadLine(false),
                run_mode: OpRunMode::ReadWrite,
            },
        )
    }

    /// Logs that a replay is done after `elapsed_ms` milliseconds.
    pub fn replay_done(ind: &mut Indicator, elapsed_ms: usize)
        ensures
            final(ind)@ == relogged(old(ind)@, "logs"@, 1, replay_done_text(elapsed_ms)),
            registry_wf(old(ind)@) ==> registry_wf(final(ind)@),
    {
        let mut line = "OPReplay op_exec oplogs.op done run(".to_string();
        line.append(fixed2_text(elapsed_ms, 1000).as_str());
        line.append("s)");
        ind.update("logs", 1, line);
    }

    /// Whether the compensating log is built before it is run: only where there
    /// is none yet.
    pub fn builds_revert(&self, revert_exists: bool) -> (build: bool)
        ensures
            build == !revert_exists,
    {
        !revert_exists
    }

    /// Whether the log to restore from is built: where there is none yet, or
    /// where the run is configured to build anew.
    pub fn builds_resume(&self, resume_exists: bool) -> (build: bool)
        ensures
            build == (!resume_exists || self.config.rebuild == Some(true)),
    {
        !resume_exists || match self.config.rebuild {
            Some(b) => b,
            None => false,
        }
    }

    /// The plan of running the compensating log: one pass, each record once,
    /// with writes.
    pub fn op_run_revert(&self) -> (plan: ExecPlan)
        ensures
            plan@ == (ExecPlanView {
                exec_file: self.op_file_revert@,
                thread_count: self.config.thread_count,
                loop_count: 1,
                mode: ReadModeView::ReadLine(false),
                run_mode: OpRunMode::ReadWrite,
            }),
    {
        ExecPlan {
            exec_file: self.op_file_revert.clone(),
            thread_count: self.config.thread_count,
            loop_count: 1,
            mode: OpReadMode::ReadLine(false),
            run_mode: OpRunMode::ReadWrite,
        }
    }

    /// The plan of running the log to restore from: one pass in the order of the
    /// log, with writes. There is none where that log is missing, which is logged.
    pub fn op_run_resume(&self, ind: &mut Indicator, resume_exists: bool) -> (plan: Option<
        ExecPlan,
    >)
        ensures
            !resume_exists ==> plan.is_none() && final(ind)@ == pushed(
                old(ind)@,
                "logs"@,
                "OPReplay op_file_resume not exists"@,
            ),
            resume_exists ==> plan.is_some() && final(ind)@ == old(ind)@ && plan.unwrap()@
                == (ExecPlanView {
                exec_file: self.op_file_resume@,
                thread_count: self.config.thread_count,
                loop_count: 1,
                mode: ReadModeView::StreamLine,
                run_mode: OpRunMode::ReadWrite,
            }),
            registry_wf(old(ind)@) ==> registry_wf(final(ind)@),
    {
        if !resume_exists {
            ind.push("logs", "OPReplay op_file_resume not exists".to_string());
            return None;
        }
        Some(
            ExecPlan {
                exec_file: self.op_file_resume.clone(),
                thread_count: self.config.thread_count,
                loop_count: 1,
                mode: OpReadMode::StreamLine,
                run_mode: OpRunMode::ReadWrite,
            },
        )
    }

    /// The plan of an import: one worker, one pass over the exported documents,
    /// with writes.
    pub fn op_import(&self) -> (plan: ExecPlan)
        ensures
            plan@ == (ExecPlanView {
                exec_file: self.op_file_data@,
                thread_count: 1,
                loop_count: 1,
                mode: ReadModeView::StreamLine,
                run_mode: OpRunMode::ReadWrite,
            }),
    {
        ExecPlan {
            exec_file: self.op_file_data.clone(),
            thread_count: 1,
            loop_count: 1,
            mode: OpReadMode::StreamLine,
            run_mode: OpRunMode::ReadWrite,
        }
    }

    /// The file that the forward log is saved as in the directory `outdir`, or the
    /// refusal to save over a file that is there where no force is asked for.
    /// With force the file that is there is removed first.
    pub fn save_as(&self, outdir: &str, force: bool, exists: bool) -> (r: Result<String, String>)
        ensures
            match r {
                Ok(path) => (force || !exists) && path@ == joined_path(
                    outdir@,
                    self.name@ + ".op"@,
                ),
                Err(msg) => !force && exists && msg@ == save_refused_text(
                    joined_path(outdir@, self.name@ + ".op"@),
                ),
            },
    {
        let mut file = self.name.clone();
        file.append(".op");
        let path = join_path(outdir, file.as_str());
        if !force && exists {
            let mut msg = "file ".to_string();
            msg.append(path.as_str());
            msg.append(" already exists, use --force to overwrite");
            Err(msg)
        } else {
            Ok(path)
        }
    }

    /// The text of the compensating log of the forward log with the text
    /// `content`: a line for each record that undoes an insert, the one for the
    /// latest insert first.
    pub fn op_revert(&self, content: &str) -> (text: String)
        ensures
            text@ == line_text(
                written_lines(
                    revert_log(
                        loaded(
                            lines_in(content@),
                            None::<Seq<char>>,
                            self.ignore_field.deep_view(),
                        ),
                    ),
                ),
            ),
    {
        let ignore = crate::strings::copy_lines(&self.ignore_field);
        let lines = lines_of(content);
        let logs = OpLogs::new(OpReadMode::StreamLine, ignore).init(&lines, 1);
        let undo = op_revert(&logs.rows);
        text_of(&write_lines(&undo))
    }

    /// Logs that the compensating log was built in `build_ms` milliseconds and
    /// that the log to restore from is being built.
    pub fn revert_built(ind: &mut Indicator, build_ms: usize)
        ensures
            final(ind)@ == relogged(
                relogged(old(ind)@, "logs"@, 0, revert_waiting_text(build_ms)),
                "logs"@,
                1,
                "OPReplay op_exec resume.op building..."@,
            ),
            registry_wf(old(ind)@) ==> registry_wf(final(ind)@),
    {
        let mut line = "OPReplay op_exec revert.op waiting... build(".to_string();
        line.append(fixed2_text(build_ms, 1000).as_str());
        line.append("s)");
        ind.update("logs", 0, line);
        ind.update("logs", 1, "OPReplay op_exec resume.op building...".to_string());
    }

    /// Logs that the log to restore from was built in `build_ms` milliseconds.
    pub fn resume_built(ind: &mut Indicator, build_ms: usize)
        ensures
            final(ind)@ == relogged(old(ind)@, "logs"@, 1, resume_waiting_text(build_ms)),
            registry_wf(old(ind)@) ==> registry_wf(final(ind)@),
    {
        let mut line = "OPReplay op_exec resume.op waiting... build(".to_string();
        line.append(fixed2_text(build_ms, 1000).as_str());
        line.append("s)");
        ind.update("logs", 1, line);
    }

    /// Logs that the compensating log, built in `build_ms` milliseconds, was run
    /// in `run_ms` milliseconds.
    pub fn revert_done(ind: &mut Indicator, build_ms: usize, run_ms: usize)
        ensures
            final(ind)@ == relogged(old(ind)@, "logs"@, 0, revert_done_text(build_ms, run_ms)),
            registry_wf(old(ind)@) ==> registry_wf(final(ind)@),
    {
        let mut line = "OPReplay op_exec revert.op done  build(".to_string();
        line.append(fixed2_text(build_ms, 1000).as_str());
        line.append("s) run(");
        line.append(fixed2_text(run_ms, 1000).as_str());
        line.append("s)");
        ind.update("logs", 0, line);
    }

    /// What is done about the log to restore from before it is built, at the
    /// second `now`: a log that is there is kept, which is logged, unless the run
    /// is configured to build anew.
    pub fn op_resume(&self, ind: &mut Indicator, resume_exists: bool, now: i64) -> (build: Build)
        ensures
            build == if !resume_exists {
                Build::Fresh
            } else if self.config.rebuild == Some(true) {
                Build::Replace
            } else {
                Build::Skip
            },
            final(ind)@ == if build == Build::Skip {
                pushed(old(ind)@, "logs"@, resume_exists_text(now, self.op_file_resume@))
            } else {
                old(ind)@
            },
            registry_wf(old(ind)@) ==> registry_wf(final(ind)@),
    {
        if !resume_exists {
            return Build::Fresh;
        }
        let rebuild = match self.config.rebuild {
            Some(b) => b,
            None => false,
        };
        if rebuild {
            return Build::Replace;
        }
        let mut line = "OPResume [".to_string();
        line.append(i64_text(now).as_str());
        line.append("] [");
        line.append(self.op_file_resume.as_str());
        line.append("] file exists");
        ind.push("logs", line);
        Build::Skip
    }

    /// The predicate by which the entries of the profiler between the
    /// milliseconds `start_ms` and `end_ms` are pulled.
    pub fn op_pull(&self, start_ms: i64, end_ms: i64) -> (filter: Json)
        ensures
            filter@ == profile_filter(self.config.db@, start_ms, end_ms),
    {
        let mut ns = self.config.db.clone();
        ns.append(".system.profile");
        Json::object2(
            "ns",
            Json::object1("$ne", Json::Str(ns)),
            "ts",
            Json::object2(
                "$gte",
                Json::object1("$date", Json::Int(start_ms)),
                "$lt",
                Json::object1("$date", Json::Int(end_ms)),
            ),
        )
    }

    /// The report of the run: the path of its file and its text, made of the
    /// statistics of the metric `query_stats`. That the report was built is
    /// logged. In a well-formed registry the report has one row for each key.
    pub fn report(&self, ind: &mut Indicator) -> (r: (String, String))
        ensures
            r.0@ == joined_path(self.op_workdir@, "query_stats.csv"@),
            r.1@ == report_text(metric_named(old(ind)@, "query_stats"@).stats),
            registry_wf(old(ind)@) ==> r.1@ == report_by_key(
                metric_named(old(ind)@, "query_stats"@).stats,
            ) && registry_wf(final(ind)@),
            final(ind)@ == pushed(
                old(ind)@,
                "logs"@,
                report_built_text(joined_path(self.op_workdir@, "query_stats.csv"@)),
            ),
    {
        let stats = match ind.take("query_stats") {
            Some(m) => m,
            None => crate::indicator::Metric::new(),
        };
        let csv = report_csv(&stats);
        let path = self.report_file();
        let mut line = "Build Report \"".to_string();
        line.append(path.as_str());
        line.append("\".");
        ind.push("logs", line);
        (path, csv)
    }

    /// The text of the state file.
    pub fn save_state(&self) -> (content: String)
        ensures
            content@ == json_text(state_tree(self.op_state)),
    {
        let mut fields: Vec<(String, Json)> = Vec::new();
        fields.push(("stress_index".to_string(), Json::Int(self.op_state.stress_index)));
        fields.push(("stress_start_ts".to_string(), Json::Int(self.op_state.stress_start_ts)));
        fields.push(("stress_end_ts".to_string(), Json::Int(self.op_state.stress_end_ts)));
        fields.push(("record_start_ts".to_string(), Json::Int(self.op_state.record_start_ts)));
        fields.push(("record_end_ts".to_string(), Json::Int(self.op_state.record_end_ts)));
        proof {
            crate::json::lemma_tree_fields(fields@);
            assert(crate::json::tree_fields(fields@) =~= state_tree(self.op_state)->Object_0);
        }
        Json::Object(fields).to_text()
    }

    /// The run with the counters that the text of a state file stands for, or
    /// nothing where the text stands for none.
    pub fn load_state(self, content: &str) -> (r: Option<Mongobar>)
        ensures
            match r {
                Some(m) => state_read(content@) == Some(m.op_state) && m == (Mongobar {
                    op_state: m.op_state,
                    ..self
                }),
                None => state_read(content@).is_none(),
            },
    {
        let j = match Json::parse(content) {
            Some(j) => j,
            None => {
                return None;
            },
        };
        let is_object = match &j {
            Json::Object(_) => true,
            _ => false,
        };
        if !is_object {
            return None;
        }
        let stress_index = match read_counter(&j, "stress_index") {
            Some(n) => n,
            None => {
                return None;
            },
        };
        let stress_start_ts = match read_counter(&j, "stress_start_ts") {
            Some(n) => n,
            None => {
                return None;
            },
        };
        let stress_end_ts = match read_counter(&j, "stress_end_ts") {
            Some(n) => n,
            None => {
                return None;
            },
        };
        let record_start_ts = match read_counter(&j, "record_start_ts") {
            Some(n) => n,
            None => {
                return None;
            },
        };
        let record_end_ts = match read_counter(&j, "record_end_ts") {
            Some(n) => n,
            None => {
                return None;
            },
        };
        let mut m = self;
        m.op_state = OpState {
            stress_index,
            stress_start_ts,
            stress_end_ts,
            record_start_ts,
            record_end_ts,
        };
        Some(m)
    }
}

} // verus!
