//! The metrics registry: named counters, log buffers and keyed cost statistics.
//!
//! The values here are plain: whoever shares a registry between tasks guards it.
//! A counter counts modulo the machine word, as an atomic counter does.

use crate::strings::{copy_lines, str_eq, truncate, truncated};
use vstd::prelude::*;

verus! {

/// How many examples a statistics entry keeps.
pub const MAX_EXAMPLES: usize = 3;

/// How many characters of an example are kept.
pub const EXAMPLE_CHARS: usize = 120;

/// `a + b` modulo the machine word.
pub open spec fn wrap_add(a: usize, b: usize) -> usize {
    if a + b > usize::MAX {
        (a + b - usize::MAX - 1) as usize
    } else {
        (a + b) as usize
    }
}

/// `a - b` modulo the machine word.
pub open spec fn wrap_sub(a: usize, b: usize) -> usize {
    if a < b {
        (a + usize::MAX + 1 - b) as usize
    } else {
        (a - b) as usize
    }
}

/// One step of the median estimate towards a new sample: the estimate moves by
/// one in the direction of the sample.
pub open spec fn median_step(middle: usize, sample: usize) -> usize {
    if sample > middle {
        (middle + 1) as usize
    } else if sample < middle {
        (middle - 1) as usize
    } else {
        middle
    }
}

/// The cost statistics of the operations of one key.
#[derive(Debug, PartialEq)]
pub struct Stat {
    pub key: String,
    /// Sum of the costs.
    pub sum: usize,
    /// Number of the costs.
    pub count: usize,
    /// Estimate of the median cost.
    pub middle: usize,
    /// Truncated examples of the operations, the earliest ones.
    pub egs: Vec<String>,
}

/// The model of a [`Stat`].
pub struct StatView {
    pub key: Seq<char>,
    pub sum: usize,
    pub count: usize,
    pub middle: usize,
    pub egs: Seq<Seq<char>>,
}

impl View for Stat {
    type V = StatView;

    open spec fn view(&self) -> StatView {
        StatView {
            key: self.key@,
            sum: self.sum,
            count: self.count,
            middle: self.middle,
            egs: self.egs.deep_view(),
        }
    }
}

impl StatView {
    /// The statistics of a key after its first operation.
    pub open spec fn first(key: Seq<char>, cost: usize, example: Seq<char>) -> StatView {
        StatView {
            key,
            sum: cost,
            count: 1,
            middle: cost,
            egs: seq![truncated(example, EXAMPLE_CHARS as nat)],
        }
    }

    /// The statistics after one more operation.
    pub open spec fn added(self, cost: usize, example: Seq<char>) -> StatView {
        StatView {
            key: self.key,
            sum: wrap_add(self.sum, cost),
            count: wrap_add(self.count, 1),
            middle: median_step(self.middle, cost),
            egs: if self.egs.len() < MAX_EXAMPLES {
                self.egs.push(truncated(example, EXAMPLE_CHARS as nat))
            } else {
                self.egs
            },
        }
    }
}

impl Stat {
    /// A copy of the statistics.
    pub fn copy(&self) -> (r: Stat)
        ensures
            r@ == self@,
    {
        Stat {
            key: self.key.clone(),
            sum: self.sum,
            count: self.count,
            middle: self.middle,
            egs: copy_lines(&self.egs),
        }
    }
}

/// The index of the first entry of `stats` with the key `key`.
pub open spec fn stat_index(stats: Seq<StatView>, key: Seq<char>) -> Option<int>
    decreases stats.len(),
{
    if stats.len() == 0 {
        None
    } else {
        match stat_index(stats.drop_last(), key) {
            Some(i) => Some(i),
            None => if stats.last().key == key {
                Some(stats.len() - 1)
            } else {
                None
            },
        }
    }
}

/// `stat_index` finds an entry with the key, and none before it has the key.
pub proof fn lemma_stat_index(stats: Seq<StatView>, key: Seq<char>)
    ensures
        match stat_index(stats, key) {
            Some(i) => 0 <= i < stats.len() && stats[i].key == key && forall|k: int|
                0 <= k < i ==> (#[trigger] stats[k]).key != key,
            None => forall|k: int| 0 <= k < stats.len() ==> (#[trigger] stats[k]).key != key,
        },
    decreases stats.len(),
{
    if stats.len() > 0 {
        lemma_stat_index(stats.drop_last(), key);
        assert forall|k: int| 0 <= k < stats.len() - 1 implies stats.drop_last()[k]
            == stats[k] by {}
        match stat_index(stats.drop_last(), key) {
            Some(i) => {
                assert forall|k: int| 0 <= k < i implies (#[trigger] stats[k]).key != key by {
                }
            },
            None => {
                assert forall|k: int| 0 <= k < stats.len() - 1 implies (#[trigger] stats[k]).key
                    != key by {
                }
            },
        }
    }
}

/// An entry that has the key, with none before it that has, is the one that
/// `stat_index` finds.
pub proof fn lemma_stat_index_is(stats: Seq<StatView>, key: Seq<char>, i: int)
    requires
        0 <= i < stats.len(),
        stats[i].key == key,
        forall|k: int| 0 <= k < i ==> (#[trigger] stats[k]).key != key,
    ensures
        stat_index(stats, key) == Some(i),
{
    lemma_stat_index(stats, key);
}

/// No entry has the key exactly where `stat_index` finds none.
pub proof fn lemma_stat_index_none(stats: Seq<StatView>, key: Seq<char>)
    requires
        forall|k: int| 0 <= k < stats.len() ==> (#[trigger] stats[k]).key != key,
    ensures
        stat_index(stats, key).is_none(),
{
    lemma_stat_index(stats, key);
}

/// Whether no two entries of `stats` have one key: the statistics are a map
/// from keys to entries, kept in the order in which the keys were first seen.
pub open spec fn keys_unique(stats: Seq<StatView>) -> bool {
    forall|i: int, j: int|
        0 <= i < j < stats.len() ==> (#[trigger] stats[i]).key != (#[trigger] stats[j]).key
}

/// Where no two entries have one key, each entry is the one found under its key.
pub proof fn lemma_unique_index(stats: Seq<StatView>, i: int)
    requires
        keys_unique(stats),
        0 <= i < stats.len(),
    ensures
        stat_index(stats, stats[i].key) == Some(i),
{
    lemma_stat_index_is(stats, stats[i].key, i);
}

/// The statistics after an operation of cost `cost` under `key`: the entry of the
/// key takes the cost in; a key that is new gets an entry at the end.
pub open spec fn stats_added(
    stats: Seq<StatView>,
    key: Seq<char>,
    cost: usize,
    example: Seq<char>,
) -> Seq<StatView> {
    match stat_index(stats, key) {
        Some(i) => stats.update(i, stats[i].added(cost, example)),
        None => stats.push(StatView::first(key, cost, example)),
    }
}

/// Taking a cost into statistics whose keys are all different leaves the keys
/// all different.
pub proof fn lemma_stats_added_unique(
    stats: Seq<StatView>,
    key: Seq<char>,
    cost: usize,
    example: Seq<char>,
)
    requires
        keys_unique(stats),
    ensures
        keys_unique(stats_added(stats, key, cost, example)),
{
    lemma_stat_index(stats, key);
    let after = stats_added(stats, key, cost, example);
    match stat_index(stats, key) {
        Some(at) => {
            assert forall|i: int, j: int| 0 <= i < j < after.len() implies (#[trigger] after[i]).key
                != (#[trigger] after[j]).key by {
                assert(after[i].key == stats[i].key);
                assert(after[j].key == stats[j].key);
            }
        },
        None => {
            assert forall|i: int, j: int| 0 <= i < j < after.len() implies (#[trigger] after[i]).key
                != (#[trigger] after[j]).key by {
                assert(after[i] == stats[i]);
                if j < stats.len() {
                    assert(after[j] == stats[j]);
                }
            }
        },
    }
}

/// One metric: a counter, a log buffer, the file that its log lines are copied
/// to, and cost statistics by key.
#[derive(Debug, PartialEq)]
pub struct Metric {
    pub number: usize,
    pub logs: Vec<String>,
    pub print_file_path: Option<String>,
    /// The text that is still to be appended to the file.
    pub unwritten: String,
    pub stats: Vec<Stat>,
}

/// The model of a [`Metric`].
pub struct MetricView {
    pub number: usize,
    pub logs: Seq<Seq<char>>,
    pub print_file: Option<Seq<char>>,
    pub unwritten: Seq<char>,
    pub stats: Seq<StatView>,
}

/// The models of statistics entries, entry by entry.
pub open spec fn stat_views(stats: Seq<Stat>) -> Seq<StatView> {
    Seq::new(stats.len(), |i: int| stats[i]@)
}

impl View for Metric {
    type V = MetricView;

    open spec fn view(&self) -> MetricView {
        MetricView {
            number: self.number,
            logs: self.logs.deep_view(),
            print_file: match self.print_file_path {
                Some(p) => Some(p@),
                None => None,
            },
            unwritten: self.unwritten@,
            stats: stat_views(self.stats@),
        }
    }
}

impl MetricView {
    /// Whether the metric is well formed: no two entries of its statistics have
    /// one key.
    pub open spec fn wf(self) -> bool {
        keys_unique(self.stats)
    }

    /// A metric that has counted and logged nothing and copies its lines nowhere.
    pub open spec fn fresh() -> MetricView {
        MetricView {
            number: 0,
            logs: Seq::empty(),
            print_file: None,
            unwritten: Seq::empty(),
            stats: Seq::empty(),
        }
    }

    /// The metric with another counter value.
    pub open spec fn with_number(self, number: usize) -> MetricView {
        MetricView { number, ..self }
    }

    /// The metric with another log buffer.
    pub open spec fn with_logs(self, logs: Seq<Seq<char>>) -> MetricView {
        MetricView { logs, ..self }
    }

    /// The metric with other statistics.
    pub open spec fn with_stats(self, stats: Seq<StatView>) -> MetricView {
        MetricView { stats, ..self }
    }

    /// The metric after `log` was added to its log buffer: where the metric has
    /// a file, the line and a line break are to be appended to it.
    pub open spec fn logged(self, log: Seq<char>) -> MetricView {
        MetricView {
            logs: self.logs.push(log),
            unwritten: if self.print_file.is_some() {
                self.unwritten + log + seq!['\n']
            } else {
                self.unwritten
            },
            ..self
        }
    }

    /// The log buffer after the line at `index` was set to `log`: replaced where
    /// the buffer has such a line, added at the end where it has not.
    pub open spec fn updated_logs(self, index: int, log: Seq<char>) -> Seq<Seq<char>> {
        if 0 <= index < self.logs.len() {
            self.logs.update(index, log)
        } else {
            self.logs.push(log)
        }
    }
}

impl Default for Metric {
    fn default() -> (m: Metric)
        ensures
            m@ == MetricView::fresh(),
    {
        Metric::new()
    }
}

impl Metric {
    /// A fresh metric.
    pub fn new() -> (m: Metric)
        ensures
            m@ == MetricView::fresh(),
            m@.wf(),
    {
        let m = Metric {
            number: 0,
            logs: Vec::new(),
            print_file_path: None,
            unwritten: String::new(),
            stats: Vec::new(),
        };
        assert(m@.logs =~= Seq::empty());
        assert(m@.stats =~= Seq::empty());
        m
    }

    /// The metric with `print_file` as the file that its log lines are copied to.
    pub fn set_print_file(self, print_file: String) -> (m: Metric)
        ensures
            m@ == (MetricView { print_file: Some(print_file@), ..self@ }),
            self@.wf() ==> m@.wf(),
    {
        let mut m = self;
        m.print_file_path = Some(print_file);
        m
    }

    /// A copy of the metric.
    pub fn copy(&self) -> (m: Metric)
        ensures
            m@ == self@,
    {
        let mut stats: Vec<Stat> = Vec::new();
        let mut i: usize = 0;
        while i < self.stats.len()
            invariant
                i <= self.stats.len(),
                stats@.len() == i,
                forall|k: int| 0 <= k < i ==> stats@[k]@ == self.stats@[k]@,
            decreases self.stats.len() - i,
        {
            stats.push(self.stats[i].copy());
            i += 1;
        }
        let m = Metric {
            number: self.number,
            logs: copy_lines(&self.logs),
            print_file_path: match &self.print_file_path {
                Some(p) => Some(p.clone()),
                None => None,
            },
            unwritten: self.unwritten.clone(),
            stats,
        };
        assert(m@.stats =~= self@.stats);
        m
    }

    /// Adds one to the counter.
    pub fn increment(&mut self)
        ensures
            final(self)@ == old(self)@.with_number(wrap_add(old(self)@.number, 1)),
            old(self)@.wf() ==> final(self)@.wf(),
    {
        self.number = self.number.wrapping_add(1);
    }

    /// Takes one from the counter.
    pub fn decrement(&mut self)
        ensures
            final(self)@ == old(self)@.with_number(wrap_sub(old(self)@.number, 1)),
            old(self)@.wf() ==> final(self)@.wf(),
    {
        self.number = self.number.wrapping_sub(1);
    }

    /// Sets the counter.
    pub fn set(&mut self, value: usize)
        ensures
            final(self)@ == old(self)@.with_number(value),
            old(self)@.wf() ==> final(self)@.wf(),
    {
        self.number = value;
    }

    /// The counter.
    pub fn get(&self) -> (value: usize)
        ensures
            value == self@.number,
    {
        self.number
    }

    /// Adds `value` to the counter.
    pub fn add(&mut self, value: usize)
        ensures
            final(self)@ == old(self)@.with_number(wrap_add(old(self)@.number, value)),
            old(self)@.wf() ==> final(self)@.wf(),
    {
        self.number = self.number.wrapping_add(value);
    }

    /// Takes `value` from the counter.
    pub fn sub(&mut self, value: usize)
        ensures
            final(self)@ == old(self)@.with_number(wrap_sub(old(self)@.number, value)),
            old(self)@.wf() ==> final(self)@.wf(),
    {
        self.number = self.number.wrapping_sub(value);
    }

    /// Adds a line to the log buffer, and to the text for the metric's file.
    pub fn push(&mut self, log: String)
        ensures
            final(self)@ == old(self)@.logged(log@),
            old(self)@.wf() ==> final(self)@.wf(),
    {
        if self.print_file_path.is_some() {
            proof {
                reveal_strlit("\n");
            }
            self.unwritten.append(log.as_str());
            self.unwritten.append("\n");
            assert("\n"@ =~= seq!['\n']);
        }
        self.logs.push(log);
        assert(self@.logs =~= old(self)@.logs.push(log@));
    }

    /// Takes out the text that is still to be appended to the metric's file.
    pub fn take_unwritten(&mut self) -> (text: String)
        ensures
            text@ == old(self)@.unwritten,
            final(self)@ == (MetricView { unwritten: Seq::empty(), ..old(self)@ }),
            old(self)@.wf() ==> final(self)@.wf(),
    {
        let mut text = String::new();
        text.append(self.unwritten.as_str());
        self.unwritten = String::new();
        text
    }

    /// Sets the line at `index` of the log buffer, or adds the line at the end
    /// where the buffer has no such line.
    pub fn update(&mut self, index: usize, new_log: String)
        ensures
            final(self)@ == old(self)@.with_logs(old(self)@.updated_logs(index as int, new_log@)),
            old(self)@.wf() ==> final(self)@.wf(),
    {
        if index < self.logs.len() {
            self.logs.set(index, new_log);
        } else {
            self.logs.push(new_log);
        }
        assert(self@.logs =~= old(self)@.updated_logs(index as int, new_log@));
    }

    /// Takes all lines out of the log buffer.
    pub fn consumers(&mut self) -> (lines: Vec<String>)
        ensures
            lines.deep_view() == old(self)@.logs,
            final(self)@ == old(self)@.with_logs(Seq::empty()),
            old(self)@.wf() ==> final(self)@.wf(),
    {
        let mut lines: Vec<String> = Vec::new();
        lines.append(&mut self.logs);
        assert(self@.logs =~= Seq::empty());
        lines
    }

    /// A copy of the log buffer.
    pub fn logs(&self) -> (lines: Vec<String>)
        ensures
            lines.deep_view() == self@.logs,
    {
        copy_lines(&self.logs)
    }

    /// The index of the first statistics entry with the key `key`.
    fn stat_slot(&self, key: &str) -> (r: Option<usize>)
        ensures
            match r {
                Some(i) => stat_index(self@.stats, key@) == Some(i as int) && i
                    < self.stats.len(),
                None => stat_index(self@.stats, key@).is_none(),
            },
    {
        let mut i: usize = 0;
        while i < self.stats.len()
            invariant
                i <= self.stats.len(),
                forall|k: int| 0 <= k < i ==> (#[trigger] self@.stats[k]).key != key@,
            decreases self.stats.len() - i,
        {
            if str_eq(self.stats[i].key.as_str(), key) {
                proof {
                    lemma_stat_index_is(self@.stats, key@, i as int);
                }
                return Some(i);
            }
            i += 1;
        }
        proof {
            lemma_stat_index_none(self@.stats, key@);
        }
        None
    }

    /// Takes the cost of one operation into the statistics of its key.
    pub fn map_add(&mut self, key: &str, cost: usize, example: &str)
        ensures
            final(self)@ == old(self)@.with_stats(
                stats_added(old(self)@.stats, key@, cost, example@),
            ),
            old(self)@.wf() ==> final(self)@.wf(),
    {
        proof {
            if self@.wf() {
                lemma_stats_added_unique(self@.stats, key@, cost, example@);
            }
        }
        let eg = truncate(example, EXAMPLE_CHARS);
        match self.stat_slot(key) {
            Some(i) => {
                let ghost before = self.stats@[i as int]@;
                let stat = &mut self.stats[i];
                stat.sum = stat.sum.wrapping_add(cost);
                stat.count = stat.count.wrapping_add(1);
                if cost > stat.middle {
                    stat.middle = stat.middle + 1;
                } else if cost < stat.middle {
                    stat.middle = stat.middle - 1;
                }
                if stat.egs.len() < MAX_EXAMPLES {
                    stat.egs.push(eg);
                }
                proof {
                    assert(self.stats@[i as int]@.egs =~= before.added(cost, example@).egs);
                    assert(self@.stats =~= stats_added(old(self)@.stats, key@, cost, example@));
                }
            },
            None => {
                let mut egs: Vec<String> = Vec::new();
                egs.push(eg);
                let stat = Stat { key: key.to_string(), sum: cost, count: 1, middle: cost, egs };
                assert(stat@.egs =~= StatView::first(key@, cost, example@).egs);
                self.stats.push(stat);
                assert(self@.stats =~= stats_added(old(self)@.stats, key@, cost, example@));
            },
        }
    }

    /// The keys of the statistics, in the order in which they were first seen.
    pub fn map_keys(&self) -> (keys: Vec<String>)
        ensures
            keys.deep_view() == Seq::new(self@.stats.len(), |i: int| self@.stats[i].key),
    {
        let mut keys: Vec<String> = Vec::new();
        let mut i: usize = 0;
        while i < self.stats.len()
            invariant
                i <= self.stats.len(),
                keys@.len() == i,
                forall|k: int| 0 <= k < i ==> keys@[k]@ == self.stats@[k].key@,
            decreases self.stats.len() - i,
        {
            keys.push(self.stats[i].key.clone());
            i += 1;
        }
        keys
    }

    /// The statistics of `key`.
    pub fn map_get(&self, key: &str) -> (r: Option<Stat>)
        ensures
            match r {
                Some(stat) => stat_index(self@.stats, key@).is_some() && stat@
                    == self@.stats[stat_index(self@.stats, key@).unwrap()],
                None => stat_index(self@.stats, key@).is_none(),
            },
    {
        match self.stat_slot(key) {
            Some(i) => Some(self.stats[i].copy()),
            None => None,
        }
    }
}

/// The registry: metrics by name, in the order in which they were registered.
#[derive(Debug, PartialEq)]
pub struct Indicator {
    pub metric: Vec<(String, Metric)>,
}

/// The index of the first entry of `entries` with the name `name`.
pub open spec fn entry_index(entries: Seq<(Seq<char>, MetricView)>, name: Seq<char>) -> Option<
    int,
>
    decreases entries.len(),
{
    if entries.len() == 0 {
        None
    } else {
        match entry_index(entries.drop_last(), name) {
            Some(i) => Some(i),
            None => if entries.last().0 == name {
                Some(entries.len() - 1)
            } else {
                None
            },
        }
    }
}

/// `entry_index` finds an entry with the name, and none before it has the name.
pub proof fn lemma_entry_index(entries: Seq<(Seq<char>, MetricView)>, name: Seq<char>)
    ensures
        match entry_index(entries, name) {
            Some(i) => 0 <= i < entries.len() && entries[i].0 == name && forall|k: int|
                0 <= k < i ==> (#[trigger] entries[k]).0 != name,
            None => forall|k: int| 0 <= k < entries.len() ==> (#[trigger] entries[k]).0 != name,
        },
    decreases entries.len(),
{
    if entries.len() > 0 {
        lemma_entry_index(entries.drop_last(), name);
        match entry_index(entries.drop_last(), name) {
            Some(i) => {
                assert forall|k: int| 0 <= k < i implies (#[trigger] entries[k]).0 != name by {
                    assert(entries.drop_last()[k] == entries[k]);
                }
            },
            None => {
                assert forall|k: int| 0 <= k < entries.len() - 1 implies (
                #[trigger] entries[k]).0 != name by {
                    assert(entries.drop_last()[k] == entries[k]);
                }
            },
        }
    }
}

/// Whether no two entries of the registry have one name: the registry is a map
/// from names to metrics, kept in the order in which the names were registered.
pub open spec fn names_unique(entries: Seq<(Seq<char>, MetricView)>) -> bool {
    forall|i: int, j: int|
        0 <= i < j < entries.len() ==> (#[trigger] entries[i]).0 != (#[trigger] entries[j]).0
}

/// Whether the registry is well formed: no two entries have one name, and each
/// metric is well formed.
pub open spec fn registry_wf(entries: Seq<(Seq<char>, MetricView)>) -> bool {
    &&& names_unique(entries)
    &&& forall|i: int| 0 <= i < entries.len() ==> (#[trigger] entries[i]).1.wf()
}

/// The metric that the registry holds under `name`; a fresh one where it holds none.
pub open spec fn metric_named(entries: Seq<(Seq<char>, MetricView)>, name: Seq<char>) -> MetricView {
    match entry_index(entries, name) {
        Some(i) => entries[i].1,
        None => MetricView::fresh(),
    }
}

/// The registry in which the metric under `name` is `m`; a registry that holds
/// none under that name is unchanged.
pub open spec fn with_metric(
    entries: Seq<(Seq<char>, MetricView)>,
    name: Seq<char>,
    m: MetricView,
) -> Seq<(Seq<char>, MetricView)> {
    match entry_index(entries, name) {
        Some(i) => entries.update(i, (name, m)),
        None => entries,
    }
}

/// The metric under a name of a well-formed registry is well formed.
pub proof fn lemma_metric_named_wf(entries: Seq<(Seq<char>, MetricView)>, name: Seq<char>)
    requires
        registry_wf(entries),
    ensures
        metric_named(entries, name).wf(),
{
    lemma_entry_index(entries, name);
}

/// Putting a well-formed metric under a name of a well-formed registry leaves
/// the registry well formed.
pub proof fn lemma_with_metric_wf(
    entries: Seq<(Seq<char>, MetricView)>,
    name: Seq<char>,
    m: MetricView,
)
    requires
        registry_wf(entries),
        m.wf(),
    ensures
        registry_wf(with_metric(entries, name, m)),
{
    lemma_entry_index(entries, name);
    let after = with_metric(entries, name, m);
    if entry_index(entries, name).is_some() {
        assert forall|i: int, j: int| 0 <= i < j < after.len() implies (#[trigger] after[i]).0 != (
        #[trigger] after[j]).0 by {
            assert(after[i].0 == entries[i].0);
            assert(after[j].0 == entries[j].0);
        }
        assert forall|i: int| 0 <= i < after.len() implies (#[trigger] after[i]).1.wf() by {
            if i != entry_index(entries, name).unwrap() {
                assert(after[i] == entries[i]);
            }
        }
    }
}

/// Changing the counter, the log buffer or the unwritten text of a metric of a
/// well-formed registry leaves the registry well formed.
pub proof fn lemma_same_stats_wf(
    entries: Seq<(Seq<char>, MetricView)>,
    name: Seq<char>,
    m: MetricView,
)
    requires
        registry_wf(entries),
        m.stats == metric_named(entries, name).stats,
    ensures
        registry_wf(with_metric(entries, name, m)),
{
    lemma_metric_named_wf(entries, name);
    lemma_with_metric_wf(entries, name, m);
}

/// The counter of the metric under `name`, zero where the registry holds none.
pub open spec fn number_of(entries: Seq<(Seq<char>, MetricView)>, name: Seq<char>) -> usize {
    metric_named(entries, name).number
}

/// The registry in which the counter of the metric under `name` is `value`.
pub open spec fn with_number(
    entries: Seq<(Seq<char>, MetricView)>,
    name: Seq<char>,
    value: usize,
) -> Seq<(Seq<char>, MetricView)> {
    with_metric(entries, name, metric_named(entries, name).with_number(value))
}

/// The registry after `value` was added to the counter of the metric under `name`.
pub open spec fn added(
    entries: Seq<(Seq<char>, MetricView)>,
    name: Seq<char>,
    value: usize,
) -> Seq<(Seq<char>, MetricView)> {
    with_number(entries, name, wrap_add(number_of(entries, name), value))
}

/// The registry after `value` was taken from the counter of the metric under `name`.
pub open spec fn subbed(
    entries: Seq<(Seq<char>, MetricView)>,
    name: Seq<char>,
    value: usize,
) -> Seq<(Seq<char>, MetricView)> {
    with_number(entries, name, wrap_sub(number_of(entries, name), value))
}

/// The registry after `log` was added to the log buffer of the metric under `name`.
pub open spec fn pushed(
    entries: Seq<(Seq<char>, MetricView)>,
    name: Seq<char>,
    log: Seq<char>,
) -> Seq<(Seq<char>, MetricView)> {
    with_metric(entries, name, metric_named(entries, name).logged(log))
}

/// The registry after the line at `index` of the log buffer of the metric under
/// `name` was set to `log`.
pub open spec fn relogged(
    entries: Seq<(Seq<char>, MetricView)>,
    name: Seq<char>,
    index: int,
    log: Seq<char>,
) -> Seq<(Seq<char>, MetricView)> {
    with_metric(
        entries,
        name,
        metric_named(entries, name).with_logs(
            metric_named(entries, name).updated_logs(index, log),
        ),
    )
}

/// The registry after the cost of one operation was taken into the statistics of
/// the metric under `name`.
pub open spec fn with_cost(
    entries: Seq<(Seq<char>, MetricView)>,
    name: Seq<char>,
    key: Seq<char>,
    cost: usize,
    example: Seq<char>,
) -> Seq<(Seq<char>, MetricView)> {
    with_metric(
        entries,
        name,
        metric_named(entries, name).with_stats(
            stats_added(metric_named(entries, name).stats, key, cost, example),
        ),
    )
}

/// The path of the file that the log lines of the metric `name` of the run
/// `target` are copied to.
pub open spec fn print_path(target: Seq<char>, name: Seq<char>) -> Seq<char> {
    "./.mongobar/"@ + target + "/"@ + name + ".log"@
}

/// The registry that `init` builds from `names`: one fresh metric for each name, a
/// later one of a repeated name in the place of the first.
pub open spec fn registered(names: Seq<Seq<char>>, target: Seq<char>) -> Seq<
    (Seq<char>, MetricView),
>
    decreases names.len(),
{
    if names.len() == 0 {
        Seq::empty()
    } else {
        let rest = registered(names.drop_last(), target);
        let m = MetricView {
            print_file: Some(print_path(target, names.last())),
            ..MetricView::fresh()
        };
        match entry_index(rest, names.last()) {
            Some(i) => rest.update(i, (names.last(), m)),
            None => rest.push((names.last(), m)),
        }
    }
}

/// A registry that is built from names is well formed: a name that is given
/// twice is registered once.
pub proof fn lemma_registered_wf(names: Seq<Seq<char>>, target: Seq<char>)
    ensures
        registry_wf(registered(names, target)),
    decreases names.len(),
{
    if names.len() > 0 {
        let rest = registered(names.drop_last(), target);
        lemma_registered_wf(names.drop_last(), target);
        lemma_entry_index(rest, names.last());
        let m = MetricView {
            print_file: Some(print_path(target, names.last())),
            ..MetricView::fresh()
        };
        let all = registered(names, target);
        match entry_index(rest, names.last()) {
            Some(at) => {
                lemma_with_metric_wf(rest, names.last(), m);
            },
            None => {
                assert forall|i: int, j: int| 0 <= i < j < all.len() implies (#[trigger] all[i]).0
                    != (#[trigger] all[j]).0 by {
                    assert(all[i] == rest[i]);
                    if j < rest.len() {
                        assert(all[j] == rest[j]);
                    }
                }
                assert forall|i: int| 0 <= i < all.len() implies (#[trigger] all[i]).1.wf() by {
                    if i < rest.len() {
                        assert(all[i] == rest[i]);
                    }
                }
            },
        }
    }
}

/// Resetting a well-formed registry leaves it well formed.
pub proof fn lemma_all_reset_wf(entries: Seq<(Seq<char>, MetricView)>)
    requires
        registry_wf(entries),
    ensures
        registry_wf(all_reset(entries)),
{
    let after = all_reset(entries);
    assert forall|i: int, j: int| 0 <= i < j < after.len() implies (#[trigger] after[i]).0 != (
    #[trigger] after[j]).0 by {
        assert(after[i].0 == entries[i].0);
        assert(after[j].0 == entries[j].0);
    }
    assert forall|i: int| 0 <= i < after.len() implies (#[trigger] after[i]).1.wf() by {
        assert(after[i].1.stats == entries[i].1.stats);
    }
}

/// Every metric with its counter at zero and its log buffer empty.
pub open spec fn all_reset(entries: Seq<(Seq<char>, MetricView)>) -> Seq<(Seq<char>, MetricView)> {
    Seq::new(
        entries.len(),
        |i: int| (entries[i].0, entries[i].1.with_number(0).with_logs(Seq::empty())),
    )
}

impl View for Indicator {
    type V = Seq<(Seq<char>, MetricView)>;

    open spec fn view(&self) -> Seq<(Seq<char>, MetricView)> {
        Seq::new(self.metric@.len(), |i: int| (self.metric@[i].0@, self.metric@[i].1@))
    }
}

impl Indicator {
    /// An empty registry.
    pub fn new() -> (ind: Indicator)
        ensures
            ind@ == Seq::<(Seq<char>, MetricView)>::empty(),
    {
        let ind = Indicator { metric: Vec::new() };
        ind
    }

    /// The index of the first metric under `name`.
    pub fn slot(&self, name: &str) -> (r: Option<usize>)
        ensures
            match r {
                Some(i) => entry_index(self@, name@) == Some(i as int) && i < self.metric.len(),
                None => entry_index(self@, name@).is_none(),
            },
    {
        let mut i: usize = 0;
        while i < self.metric.len()
            invariant
                i <= self.metric.len(),
                forall|k: int| 0 <= k < i ==> (#[trigger] self@[k]).0 != name@,
            decreases self.metric.len() - i,
        {
            if str_eq(self.metric[i].0.as_str(), name) {
                proof {
                    assert(self@[i as int].0 == name@);
                    lemma_entry_index(self@, name@);
                }
                return Some(i);
            }
            i += 1;
        }
        proof {
            lemma_entry_index(self@, name@);
        }
        None
    }

    /// The registry with one fresh metric for each of `metrics`, whose log lines
    /// are copied to a file of its own under the directory of the run `print_file`.
    pub fn init(self, metrics: Vec<String>, print_file: String) -> (ind: Indicator)
        ensures
            ind@ == registered(metrics.deep_view(), print_file@),
            registry_wf(ind@),
    {
        proof {
            lemma_registered_wf(metrics.deep_view(), print_file@);
        }
        let mut ind = Indicator { metric: Vec::new() };
        let mut i: usize = 0;
        while i < metrics.len()
            invariant
                i <= metrics.len(),
                ind@ == registered(metrics.deep_view().take(i as int), print_file@),
            decreases metrics.len() - i,
        {
            let mut path = "./.mongobar/".to_string();
            path.append(print_file.as_str());
            path.append("/");
            path.append(metrics[i].as_str());
            path.append(".log");
            let m = Metric::new().set_print_file(path);
            proof {
                let names = metrics.deep_view().take(i as int + 1);
                assert(names.drop_last() =~= metrics.deep_view().take(i as int));
            }
            match ind.slot(metrics[i].as_str()) {
                Some(k) => {
                    ind.metric.set(k, (metrics[i].clone(), m));
                },
                None => {
                    ind.metric.push((metrics[i].clone(), m));
                },
            }
            i += 1;
        }
        assert(metrics.deep_view().take(metrics.len() as int) =~= metrics.deep_view());
        ind
    }

    /// A copy of the metric under `name`, or a fresh metric where the registry
    /// holds none under that name.
    ///
    /// What is handed out is a copy, not the metric that the registry holds:
    /// counting or logging through it reaches nobody. The registry is changed by
    /// name, with [`Indicator::set`], [`Indicator::add`], [`Indicator::push`]
    /// and the like; who shares a registry between tasks guards the registry.
    pub fn take(&self, name: &str) -> (r: Option<Metric>)
        ensures
            r.is_some(),
            r.unwrap()@ == metric_named(self@, name@),
            registry_wf(self@) ==> r.unwrap()@.wf(),
    {
        proof {
            if registry_wf(self@) {
                lemma_metric_named_wf(self@, name@);
            }
        }
        match self.slot(name) {
            Some(i) => Some(self.metric[i].1.copy()),
            None => Some(Metric::new()),
        }
    }

    /// Sets every counter to zero and empties every log buffer.
    pub fn reset(&mut self)
        ensures
            final(self)@ == all_reset(old(self)@),
            registry_wf(old(self)@) ==> registry_wf(final(self)@),
    {
        proof {
            if registry_wf(self@) {
                lemma_all_reset_wf(self@);
            }
        }
        let mut i: usize = 0;
        while i < self.metric.len()
            invariant
                i <= self.metric.len(),
                self@.len() == old(self)@.len(),
                forall|k: int| 0 <= k < i ==> #[trigger] self@[k] == all_reset(old(self)@)[k],
                forall|k: int| i <= k < self@.len() ==> #[trigger] self@[k] == old(self)@[k],
            decreases self.metric.len() - i,
        {
            let ghost before = self@;
            let entry = &mut self.metric[i];
            entry.1.set(0);
            let _ = entry.1.consumers();
            proof {
                assert(before[i as int] == old(self)@[i as int]);
                assert forall|k: int| 0 <= k < self@.len() && k != i implies #[trigger] self@[k]
                    == before[k] by {}
            }
            i += 1;
        }
    }

    /// The counter of the metric under `name`, zero where there is none.
    pub fn get(&self, name: &str) -> (value: usize)
        ensures
            value == number_of(self@, name@),
    {
        match self.slot(name) {
            Some(i) => self.metric[i].1.get(),
            None => 0,
        }
    }

    /// Sets the counter of the metric under `name`.
    pub fn set(&mut self, name: &str, value: usize)
        ensures
            final(self)@ == with_number(old(self)@, name@, value),
            registry_wf(old(self)@) ==> registry_wf(final(self)@),
    {
        proof {
            if registry_wf(self@) {
                lemma_same_stats_wf(self@, name@, metric_named(self@, name@).with_number(value));
            }
        }
        match self.slot(name) {
            Some(i) => {
                proof {
                    lemma_entry_index(self@, name@);
                }
                let entry = &mut self.metric[i];
                entry.1.set(value);
                assert(self@ =~= with_number(old(self)@, name@, value));
            },
            None => {},
        }
    }

    /// Adds `value` to the counter of the metric under `name`.
    pub fn add(&mut self, name: &str, value: usize)
        ensures
            final(self)@ == added(old(self)@, name@, value),
            registry_wf(old(self)@) ==> registry_wf(final(self)@),
    {
        proof {
            if registry_wf(self@) {
                lemma_same_stats_wf(
                    self@,
                    name@,
                    metric_named(self@, name@).with_number(wrap_add(number_of(self@, name@), value)),
                );
            }
        }
        match self.slot(name) {
            Some(i) => {
                proof {
                    lemma_entry_index(self@, name@);
                }
                let entry = &mut self.metric[i];
                entry.1.add(value);
                assert(self@ =~= added(old(self)@, name@, value));
            },
            None => {},
        }
    }

    /// Takes `value` from the counter of the metric under `name`.
    pub fn sub(&mut self, name: &str, value: usize)
        ensures
            final(self)@ == subbed(old(self)@, name@, value),
            registry_wf(old(self)@) ==> registry_wf(final(self)@),
    {
        proof {
            if registry_wf(self@) {
                lemma_same_stats_wf(
                    self@,
                    name@,
                    metric_named(self@, name@).with_number(wrap_sub(number_of(self@, name@), value)),
                );
            }
        }
        match self.slot(name) {
            Some(i) => {
                proof {
                    lemma_entry_index(self@, name@);
                }
                let entry = &mut self.metric[i];
                entry.1.sub(value);
                assert(self@ =~= subbed(old(self)@, name@, value));
            },
            None => {},
        }
    }

    /// Adds a line to the log buffer of the metric under `name`.
    pub fn push(&mut self, name: &str, log: String)
        ensures
            final(self)@ == pushed(old(self)@, name@, log@),
            registry_wf(old(self)@) ==> registry_wf(final(self)@),
    {
        proof {
            if registry_wf(self@) {
                lemma_same_stats_wf(self@, name@, metric_named(self@, name@).logged(log@));
            }
        }
        match self.slot(name) {
            Some(i) => {
                proof {
                    lemma_entry_index(self@, name@);
                }
                let entry = &mut self.metric[i];
                entry.1.push(log);
                assert(self@ =~= pushed(old(self)@, name@, log@));
            },
            None => {},
        }
    }

    /// Takes out the text that is still to be appended to the file of the metric
    /// under `name`, with the path of that file. Nothing is taken where the
    /// registry holds no such metric or the metric has no file.
    pub fn take_unwritten(&mut self, name: &str) -> (r: Option<(String, String)>)
        ensures
            match r {
                Some(file) => metric_named(old(self)@, name@).print_file == Some(file.0@)
                    && file.1@ == metric_named(old(self)@, name@).unwritten && final(self)@
                    == with_metric(
                    old(self)@,
                    name@,
                    MetricView { unwritten: Seq::empty(), ..metric_named(old(self)@, name@) },
                ),
                None => metric_named(old(self)@, name@).print_file.is_none() && final(self)@
                    == old(self)@,
            },
            registry_wf(old(self)@) ==> registry_wf(final(self)@),
    {
        proof {
            if registry_wf(self@) {
                lemma_same_stats_wf(
                    self@,
                    name@,
                    MetricView { unwritten: Seq::empty(), ..metric_named(self@, name@) },
                );
            }
        }
        match self.slot(name) {
            Some(i) => {
                proof {
                    lemma_entry_index(self@, name@);
                }
                let path = match &self.metric[i].1.print_file_path {
                    Some(p) => p.clone(),
                    None => {
                        return None;
                    },
                };
                let entry = &mut self.metric[i];
                let text = entry.1.take_unwritten();
                assert(self@ =~= with_metric(
                    old(self)@,
                    name@,
                    MetricView { unwritten: Seq::empty(), ..metric_named(old(self)@, name@) },
                ));
                Some((path, text))
            },
            None => None,
        }
    }

    /// Takes all lines out of the log buffer of the metric under `name`.
    pub fn consumers(&mut self, name: &str) -> (lines: Vec<String>)
        ensures
            lines.deep_view() == metric_named(old(self)@, name@).logs,
            final(self)@ == with_metric(
                old(self)@,
                name@,
                metric_named(old(self)@, name@).with_logs(Seq::empty()),
            ),
            registry_wf(old(self)@) ==> registry_wf(final(self)@),
    {
        proof {
            if registry_wf(self@) {
                lemma_same_stats_wf(
                    self@,
                    name@,
                    metric_named(self@, name@).with_logs(Seq::empty()),
                );
            }
        }
        match self.slot(name) {
            Some(i) => {
                proof {
                    lemma_entry_index(self@, name@);
                }
                let entry = &mut self.metric[i];
                let lines = entry.1.consumers();
                assert(self@ =~= with_metric(
                    old(self)@,
                    name@,
                    metric_named(old(self)@, name@).with_logs(Seq::empty()),
                ));
                lines
            },
            None => {
                let lines: Vec<String> = Vec::new();
                lines
            },
        }
    }

    /// Sets the line at `index` of the log buffer of the metric under `name`.
    pub fn update(&mut self, name: &str, index: usize, new_log: String)
        ensures
            final(self)@ == relogged(old(self)@, name@, index as int, new_log@),
            registry_wf(old(self)@) ==> registry_wf(final(self)@),
    {
        proof {
            if registry_wf(self@) {
                lemma_same_stats_wf(
                    self@,
                    name@,
                    metric_named(self@, name@).with_logs(
                        metric_named(self@, name@).updated_logs(index as int, new_log@),
                    ),
                );
            }
        }
        match self.slot(name) {
            Some(i) => {
                proof {
                    lemma_entry_index(self@, name@);
                }
                let entry = &mut self.metric[i];
                entry.1.update(index, new_log);
                assert(self@ =~= relogged(old(self)@, name@, index as int, new_log@));
            },
            None => {},
        }
    }

    /// Takes the cost of one operation into the statistics of the metric under
    /// `name`.
    pub fn map_add(&mut self, name: &str, key: &str, cost: usize, example: &str)
        ensures
            final(self)@ == with_cost(old(self)@, name@, key@, cost, example@),
            registry_wf(old(self)@) ==> registry_wf(final(self)@),
    {
        proof {
            if registry_wf(self@) {
                let m = metric_named(self@, name@);
                lemma_metric_named_wf(self@, name@);
                lemma_stats_added_unique(m.stats, key@, cost, example@);
                lemma_with_metric_wf(
                    self@,
                    name@,
                    m.with_stats(stats_added(m.stats, key@, cost, example@)),
                );
            }
        }
        match self.slot(name) {
            Some(i) => {
                proof {
                    lemma_entry_index(self@, name@);
                }
                let entry = &mut self.metric[i];
                entry.1.map_add(key, cost, example);
                assert(self@ =~= with_cost(old(self)@, name@, key@, cost, example@));
            },
            None => {},
        }
    }
}

} // verus!
