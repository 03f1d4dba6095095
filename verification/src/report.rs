//! The report of a run: the cost statistics by key as CSV.

use crate::indicator::{keys_unique, lemma_unique_index, stat_index, Metric, Stat, StatView};
use crate::strings::{decimal, digit_char, digit_str, join, joined, u128_text, usize_text};
use vstd::prelude::*;

verus! {

/// The line that the `csv` crate writes for a record of fields, with its line
/// break: the fields with commas between them, each quoted where it has to be.
pub uninterp spec fn csv_line(fields: Seq<Seq<char>>) -> Seq<char>;

/// Trusted: a `csv::Writer` with the default settings over an in-memory buffer,
/// `write_record` with the fields, and `into_inner` for what was written. What is
/// written depends on the fields alone.
#[verifier::external_body]
fn write_csv_record(fields: &Vec<String>) -> (line: String)
    ensures
        line@ == csv_line(fields.deep_view()),
{
    let mut writer = csv::Writer::from_writer(Vec::new());
    match writer.write_record(fields) {
        Ok(()) => String::from_utf8(writer.into_inner().unwrap_or_default()).unwrap_or_default(),
        Err(_) => String::new(),
    }
}

/// The hundredths in `num / den`, rounded to the nearest, halves upwards.
///
/// The rounding is done on the exact quotient. A tie is always rounded up: an
/// eighth is `0.13`, where formatting a binary float of the quotient would give
/// `0.12`.
pub open spec fn hundredths(num: nat, den: nat) -> nat
    recommends
        den > 0,
{
    (200 * num + den) / (2 * den)
}

/// `num / den` with two decimal places, halves rounded upwards. Where `den` is
/// zero this is `NaN` for a zero `num` and `inf` for any other, as for a float.
pub open spec fn fixed2(num: nat, den: nat) -> Seq<char> {
    if den == 0 {
        if num == 0 {
            "NaN"@
        } else {
            "inf"@
        }
    } else {
        let h = hundredths(num, den);
        decimal(h / 100) + seq!['.', digit_char((h % 100) as int / 10), digit_char(
            (h % 100) as int % 10,
        )]
    }
}

/// `num / den` with two decimal places, halves rounded upwards.
pub fn fixed2_text(num: usize, den: usize) -> (text: String)
    ensures
        text@ == fixed2(num as nat, den as nat),
{
    if den == 0 {
        return if num == 0 {
            "NaN".to_string()
        } else {
            "inf".to_string()
        };
    }
    let h: u128 = (200 * (num as u128) + den as u128) / (2 * (den as u128));
    let frac: u128 = h % 100;
    let mut text = u128_text(h / 100);
    proof {
        reveal_strlit(".");
    }
    text.append(".");
    text.append(digit_str((frac / 10) as u8));
    text.append(digit_str((frac % 10) as u8));
    text
}

/// `part` in hundredths of `whole`, with two decimal places.
pub fn percent_text(part: usize, whole: usize) -> (text: String)
    ensures
        text@ == fixed2(100 * (part as nat), whole as nat),
{
    if whole == 0 {
        return if part == 0 {
            "NaN".to_string()
        } else {
            "inf".to_string()
        };
    }
    let h: u128 = (20000 * (part as u128) + whole as u128) / (2 * (whole as u128));
    let frac: u128 = h % 100;
    let mut text = u128_text(h / 100);
    proof {
        reveal_strlit(".");
    }
    text.append(".");
    text.append(digit_str((frac / 10) as u8));
    text.append(digit_str((frac % 10) as u8));
    text
}

/// The names of the columns of the report.
pub open spec fn header() -> Seq<Seq<char>> {
    seq!["Key"@, "AvgCost(ms)"@, "MidCost(ms)"@, "Count"@, "Eg"@]
}

/// The fields of the report's row for one key: the key, the mean cost, the
/// estimate of the median cost, the number of operations, and the examples with
/// bars between them.
pub open spec fn stat_fields(stat: StatView) -> Seq<Seq<char>> {
    seq![
        stat.key,
        fixed2(stat.sum as nat, stat.count as nat),
        fixed2(stat.middle as nat, 1),
        decimal(stat.count as nat),
        joined(stat.egs, "|"@),
    ]
}

/// The rows of the report for `stats`, one after another.
pub open spec fn report_rows(stats: Seq<StatView>) -> Seq<char>
    decreases stats.len(),
{
    if stats.len() == 0 {
        Seq::empty()
    } else {
        report_rows(stats.drop_last()) + csv_line(stat_fields(stats.last()))
    }
}

/// The report for `stats`: the header, then one row for each key in the order in
/// which the keys were first seen.
pub open spec fn report_text(stats: Seq<StatView>) -> Seq<char> {
    csv_line(header()) + report_rows(stats)
}

/// The keys of `stats`, in the order of the entries.
pub open spec fn keys_of(stats: Seq<StatView>) -> Seq<Seq<char>> {
    Seq::new(stats.len(), |i: int| stats[i].key)
}

/// The rows of the report for the keys `keys`, one after another: for each key
/// the row of the entry that the statistics hold under it.
pub open spec fn rows_by_key(stats: Seq<StatView>, keys: Seq<Seq<char>>) -> Seq<char>
    decreases keys.len(),
{
    if keys.len() == 0 {
        Seq::empty()
    } else {
        rows_by_key(stats, keys.drop_last()) + match stat_index(stats, keys.last()) {
            Some(i) => csv_line(stat_fields(stats[i])),
            None => Seq::empty(),
        }
    }
}

/// The report as it is read off statistics that are a map: the header, then for
/// each key, in the order in which the keys were first seen, the row of what
/// the statistics hold under that key.
pub open spec fn report_by_key(stats: Seq<StatView>) -> Seq<char> {
    csv_line(header()) + rows_by_key(stats, keys_of(stats))
}

/// In statistics whose keys are all different, the rows of the first entries
/// are the rows of the first keys.
pub proof fn lemma_rows_by_key(stats: Seq<StatView>, n: int)
    requires
        keys_unique(stats),
        0 <= n <= stats.len(),
    ensures
        report_rows(stats.take(n)) == rows_by_key(stats, keys_of(stats).take(n)),
    decreases n,
{
    if n > 0 {
        lemma_rows_by_key(stats, n - 1);
        lemma_unique_index(stats, n - 1);
        assert(stats.take(n).drop_last() =~= stats.take(n - 1));
        assert(keys_of(stats).take(n).drop_last() =~= keys_of(stats).take(n - 1));
        assert(keys_of(stats).take(n).last() == stats[n - 1].key);
        assert(stats.take(n).last() == stats[n - 1]);
    }
}

/// The report of statistics whose keys are all different has exactly one row
/// for each key: the row of what the statistics hold under that key.
pub proof fn lemma_report_by_key(stats: Seq<StatView>)
    requires
        keys_unique(stats),
    ensures
        report_text(stats) == report_by_key(stats),
{
    lemma_rows_by_key(stats, stats.len() as int);
    assert(stats.take(stats.len() as int) =~= stats);
    assert(keys_of(stats).take(stats.len() as int) =~= keys_of(stats));
}

/// The fields of the report's row for `stat`.
pub fn row_fields(stat: &Stat) -> (fields: Vec<String>)
    ensures
        fields.deep_view() == stat_fields(stat@),
{
    let mut fields: Vec<String> = Vec::new();
    fields.push(stat.key.clone());
    fields.push(fixed2_text(stat.sum, stat.count));
    fields.push(fixed2_text(stat.middle, 1));
    fields.push(usize_text(stat.count));
    fields.push(join(&stat.egs, "|"));
    fields
}

/// The report of the statistics of `stats` as CSV: the header, then one row for
/// each entry. Where the metric is well formed, so that no key has two entries,
/// that is one row for each key.
pub fn report_csv(stats: &Metric) -> (csv: String)
    ensures
        csv@ == report_text(stats@.stats),
        stats@.wf() ==> csv@ == report_by_key(stats@.stats),
{
    proof {
        if stats@.wf() {
            lemma_report_by_key(stats@.stats);
        }
    }
    let mut head: Vec<String> = Vec::new();
    head.push("Key".to_string());
    head.push("AvgCost(ms)".to_string());
    head.push("MidCost(ms)".to_string());
    head.push("Count".to_string());
    head.push("Eg".to_string());
    assert(head.deep_view() =~= header());
    let mut csv = write_csv_record(&head);
    let ghost all = stats@.stats;
    let mut i: usize = 0;
    while i < stats.stats.len()
        invariant
            i <= stats.stats.len(),
            all == stats@.stats,
            all.len() == stats.stats@.len(),
            csv@ == csv_line(header()) + report_rows(all.take(i as int)),
        decreases stats.stats.len() - i,
    {
        let fields = row_fields(&stats.stats[i]);
        let line = write_csv_record(&fields);
        csv.append(line.as_str());
        proof {
            let next = all.take(i as int + 1);
            assert(next.drop_last() =~= all.take(i as int));
        }
        i += 1;
    }
    assert(all.take(stats.stats.len() as int) =~= all);
    csv
}

} // verus!
