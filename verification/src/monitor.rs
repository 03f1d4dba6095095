//! The lines that the console shows of a run, once a second.

use crate::indicator::{
    metric_named, number_of, registry_wf, with_metric, wrap_sub, Indicator, MetricView,
};
use crate::report::{fixed2, fixed2_text, percent_text};
use crate::strings::{decimal, i64_text, signed_decimal, usize_text};
use vstd::prelude::*;

verus! {

/// The line of a run whose workers are not all started yet.
pub open spec fn wait_text(now: i64, boot_worker: usize, thread_count: usize) -> Seq<char> {
    "IND ["@ + signed_decimal(now as int) + "] wait for boot "@ + decimal(boot_worker as nat)
        + "/"@ + decimal(thread_count as nat) + "."@
}

/// The line of a run under way: the queries of the last second, the mean cost of
/// a query, and how far the run is.
pub open spec fn status_text(
    now: i64,
    e: Seq<(Seq<char>, MetricView)>,
    last_query_count: usize,
) -> Seq<char> {
    "IND ["@ + signed_decimal(now as int) + "] count: "@ + decimal(
        wrap_sub(number_of(e, "query_count"@), last_query_count) as nat,
    ) + "/s cost: "@ + fixed2(
        number_of(e, "cost_ms"@) as nat,
        number_of(e, "query_count"@) as nat,
    ) + "ms progress: "@ + fixed2(
        100 * (number_of(e, "progress"@) as nat),
        number_of(e, "progress_total"@) as nat,
    ) + "% "@ + decimal(number_of(e, "progress"@) as nat) + "/"@ + decimal(
        number_of(e, "progress_total"@) as nat,
    )
}

/// Whether all workers that the run began with are started.
pub open spec fn booted(e: Seq<(Seq<char>, MetricView)>) -> bool {
    number_of(e, "boot_worker"@) >= number_of(e, "thread_count"@)
}

/// What the console shows at one tick.
#[derive(Debug, PartialEq)]
pub struct Printed {
    /// The lines, in the order in which they are shown.
    pub lines: Vec<String>,
    /// The number of queries to compare with at the next tick.
    pub query_count: usize,
}

/// What the console shows at the second `now`, where `last_query_count` queries
/// were counted at the tick before.
///
/// While workers are still being started, one line says so. After that the log
/// lines that have gathered are taken out of the registry and shown, and then
/// the line of the run's state.
pub fn print_indicator(ind: &mut Indicator, last_query_count: usize, now: i64) -> (printed:
    Printed)
    ensures
        !booted(old(ind)@) ==> {
            &&& final(ind)@ == old(ind)@
            &&& printed.query_count == last_query_count
            &&& printed.lines.deep_view() == seq![
                wait_text(
                    now,
                    number_of(old(ind)@, "boot_worker"@),
                    number_of(old(ind)@, "thread_count"@),
                ),
            ]
        },
        booted(old(ind)@) ==> {
            &&& final(ind)@ == with_metric(
                old(ind)@,
                "logs"@,
                metric_named(old(ind)@, "logs"@).with_logs(Seq::empty()),
            )
            &&& printed.query_count == number_of(old(ind)@, "query_count"@)
            &&& printed.lines.deep_view() == metric_named(old(ind)@, "logs"@).logs.push(
                status_text(now, old(ind)@, last_query_count),
            )
        },
        registry_wf(old(ind)@) ==> registry_wf(final(ind)@),
{
    let boot_worker = ind.get("boot_worker");
    let thread_count = ind.get("thread_count");
    if boot_worker < thread_count {
        let mut line = "IND [".to_string();
        line.append(i64_text(now).as_str());
        line.append("] wait for boot ");
        line.append(usize_text(boot_worker).as_str());
        line.append("/");
        line.append(usize_text(thread_count).as_str());
        line.append(".");
        let mut lines: Vec<String> = Vec::new();
        lines.push(line);
        return Printed { lines, query_count: last_query_count };
    }
    let query_count = ind.get("query_count");
    let cost_ms = ind.get("cost_ms");
    let progress = ind.get("progress");
    let progress_total = ind.get("progress_total");
    let mut line = "IND [".to_string();
    line.append(i64_text(now).as_str());
    line.append("] count: ");
    line.append(usize_text(query_count.wrapping_sub(last_query_count)).as_str());
    line.append("/s cost: ");
    line.append(fixed2_text(cost_ms, query_count).as_str());
    line.append("ms progress: ");
    line.append(percent_text(progress, progress_total).as_str());
    line.append("% ");
    line.append(usize_text(progress).as_str());
    line.append("/");
    line.append(usize_text(progress_total).as_str());
    let mut lines = ind.consumers("logs");
    lines.push(line);
    Printed { lines, query_count }
}

} // verus!
