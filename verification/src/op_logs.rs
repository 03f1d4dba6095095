//! The reader of an operation log, and the writer's side of the log's lines.
//!
//! A reader is given the lines of a log, keeps the records that they stand for,
//! and serves them by one of three policies.

use crate::op_row::{row_read, row_written, OpRow, OpRowView};
use crate::shape::normalized;
use crate::strings::{
    drop_empty, filled, line_text, lines_in, lines_of, occurs_in, str_contains, text_of,
};
use vstd::prelude::*;

verus! {

/// How a reader serves its records.
#[derive(Debug, PartialEq)]
pub enum OpReadMode {
    /// One pass for a single consumer: each call takes the next record.
    StreamLine,
    /// Each call takes the next record, whoever calls; with `true` the reader
    /// starts over at the end.
    ReadLine(bool),
    /// The records are dealt out to the workers in turn, and only the lines that
    /// hold the given text are read.
    FullLine(Option<String>),
}

/// The model of an [`OpReadMode`].
pub enum ReadModeView {
    StreamLine,
    ReadLine(bool),
    FullLine(Option<Seq<char>>),
}

impl View for OpReadMode {
    type V = ReadModeView;

    open spec fn view(&self) -> ReadModeView {
        match self {
            OpReadMode::StreamLine => ReadModeView::StreamLine,
            OpReadMode::ReadLine(restart) => ReadModeView::ReadLine(*restart),
            OpReadMode::FullLine(filter) => ReadModeView::FullLine(
                match filter {
                    Some(f) => Some(f@),
                    None => None,
                },
            ),
        }
    }
}

impl ReadModeView {
    /// The text that a line must hold to be read, if the mode asks for one.
    pub open spec fn filter(self) -> Option<Seq<char>> {
        match self {
            ReadModeView::FullLine(f) => f,
            _ => None,
        }
    }
}

impl OpReadMode {
    /// A copy of the mode.
    pub fn copy(&self) -> (m: OpReadMode)
        ensures
            m@ == self@,
    {
        match self {
            OpReadMode::StreamLine => OpReadMode::StreamLine,
            OpReadMode::ReadLine(restart) => OpReadMode::ReadLine(*restart),
            OpReadMode::FullLine(filter) => OpReadMode::FullLine(
                match filter {
                    Some(f) => Some(f.clone()),
                    None => None,
                },
            ),
        }
    }
}

/// Whether a line is read at all: it is not empty and holds the filter's text.
pub open spec fn line_wanted(line: Seq<char>, filter: Option<Seq<char>>) -> bool {
    line.len() > 0 && match filter {
        Some(f) => occurs_in(f, line),
        None => true,
    }
}

/// The records of the wanted lines that stand for a record, in the lines' order,
/// each as it is served.
pub open spec fn loaded(
    lines: Seq<Seq<char>>,
    filter: Option<Seq<char>>,
    ignore: Seq<Seq<char>>,
) -> Seq<OpRowView>
    decreases lines.len(),
{
    if lines.len() == 0 {
        Seq::empty()
    } else {
        let rest = loaded(lines.drop_last(), filter, ignore);
        if line_wanted(lines.last(), filter) {
            match row_read(lines.last()) {
                Some(row) => rest.push(normalized(row, ignore)),
                None => rest,
            }
        } else {
            rest
        }
    }
}

/// The positions of the wanted lines that stand for no record, in their order.
pub open spec fn malformed_lines(lines: Seq<Seq<char>>, filter: Option<Seq<char>>) -> Seq<
    usize,
>
    decreases lines.len(),
{
    if lines.len() == 0 {
        Seq::empty()
    } else {
        let rest = malformed_lines(lines.drop_last(), filter);
        if line_wanted(lines.last(), filter) && row_read(lines.last()).is_none() {
            rest.push((lines.len() - 1) as usize)
        } else {
            rest
        }
    }
}

/// The position in the log of the `row`-th record of the worker `worker`, where
/// the records are dealt out to `stride` workers in turn.
pub open spec fn striped_index(worker: int, row: int, stride: int) -> int {
    worker + row * stride
}

/// A reader of an operation log.
#[derive(Debug, PartialEq)]
pub struct OpLogs {
    pub mode: OpReadMode,
    /// Fields of a payload that are dropped when a record is loaded.
    pub ignore_field: Vec<String>,
    /// The records, in the order of the log.
    pub rows: Vec<OpRow>,
    /// Positions of the lines that were skipped because they stand for no record.
    pub malformed: Vec<usize>,
    /// The number of workers that the records are dealt out to.
    pub stride: usize,
    /// The position of the next record of a reader that serves one after another.
    pub cursor: usize,
}

/// The model of an [`OpLogs`].
pub struct OpLogsView {
    pub mode: ReadModeView,
    pub ignore_field: Seq<Seq<char>>,
    pub rows: Seq<OpRowView>,
    pub malformed: Seq<usize>,
    pub stride: usize,
    pub cursor: usize,
}

/// The models of records, record by record.
pub open spec fn row_views(rows: Seq<OpRow>) -> Seq<OpRowView> {
    Seq::new(rows.len(), |i: int| rows[i]@)
}

impl View for OpLogs {
    type V = OpLogsView;

    open spec fn view(&self) -> OpLogsView {
        OpLogsView {
            mode: self.mode@,
            ignore_field: self.ignore_field.deep_view(),
            rows: row_views(self.rows@),
            malformed: self.malformed@,
            stride: self.stride,
            cursor: self.cursor,
        }
    }
}

impl OpLogsView {
    /// What a call of `read` returns.
    pub open spec fn served(self, worker: usize, row: usize) -> Option<OpRowView> {
        match self.mode {
            ReadModeView::FullLine(_) => {
                let at = striped_index(worker as int, row as int, self.stride as int);
                if self.stride > 0 && at < self.rows.len() {
                    Some(self.rows[at])
                } else {
                    None
                }
            },
            ReadModeView::ReadLine(true) => {
                if self.cursor < self.rows.len() {
                    Some(self.rows[self.cursor as int])
                } else if self.rows.len() > 0 {
                    Some(self.rows[0])
                } else {
                    None
                }
            },
            _ => {
                if self.cursor < self.rows.len() {
                    Some(self.rows[self.cursor as int])
                } else {
                    None
                }
            },
        }
    }

    /// The cursor after a call of `read`.
    pub open spec fn cursor_after(self) -> usize {
        match self.mode {
            ReadModeView::FullLine(_) => self.cursor,
            ReadModeView::ReadLine(true) => {
                if self.cursor < self.rows.len() {
                    (self.cursor + 1) as usize
                } else if self.rows.len() > 0 {
                    1
                } else {
                    self.cursor
                }
            },
            _ => {
                if self.cursor < self.rows.len() {
                    (self.cursor + 1) as usize
                } else {
                    self.cursor
                }
            },
        }
    }
}

impl OpLogs {
    /// A reader without records.
    pub fn new(mode: OpReadMode, ignore_field: Vec<String>) -> (logs: OpLogs)
        ensures
            logs@ == (OpLogsView {
                mode: mode@,
                ignore_field: ignore_field.deep_view(),
                rows: Seq::empty(),
                malformed: Seq::empty(),
                stride: 1,
                cursor: 0,
            }),
    {
        let logs = OpLogs {
            mode,
            ignore_field,
            rows: Vec::new(),
            malformed: Vec::new(),
            stride: 1,
            cursor: 0,
        };
        assert(logs@.rows =~= Seq::empty());
        logs
    }

    /// The reader with the records of `lines`, dealt out to `workers` workers.
    ///
    /// Empty lines and, in `FullLine` mode, lines without the filter's text are
    /// passed over. A line that stands for no record is skipped and its position
    /// noted.
    pub fn init(self, lines: &Vec<String>, workers: usize) -> (logs: OpLogs)
        ensures
            logs@ == (OpLogsView {
                rows: loaded(lines.deep_view(), self@.mode.filter(), self@.ignore_field),
                malformed: malformed_lines(lines.deep_view(), self@.mode.filter()),
                stride: workers,
                cursor: 0,
                ..self@
            }),
    {
        let mut rows: Vec<OpRow> = Vec::new();
        let mut malformed: Vec<usize> = Vec::new();
        let ghost filter = self@.mode.filter();
        let ghost ignore = self@.ignore_field;
        let ghost all = lines.deep_view();
        let mut i: usize = 0;
        while i < lines.len()
            invariant
                i <= lines.len(),
                all == lines.deep_view(),
                filter == self@.mode.filter(),
                ignore == self.ignore_field.deep_view(),
                row_views(rows@) == loaded(all.take(i as int), filter, ignore),
                malformed@ == malformed_lines(all.take(i as int), filter),
            decreases lines.len() - i,
        {
            proof {
                let next = all.take(i as int + 1);
                assert(next.drop_last() =~= all.take(i as int));
            }
            let line = lines[i].as_str();
            let wanted = line.unicode_len() > 0 && match &self.mode {
                OpReadMode::FullLine(Some(f)) => str_contains(line, f.as_str()),
                _ => true,
            };
            if wanted {
                match OpRow::parse_line(line) {
                    Some(row) => {
                        let row = row.normalize(&self.ignore_field);
                        rows.push(row);
                    },
                    None => {
                        malformed.push(i);
                    },
                }
            }
            i += 1;
        }
        assert(all.take(lines.len() as int) =~= all);
        OpLogs {
            mode: self.mode,
            ignore_field: self.ignore_field,
            rows,
            malformed,
            stride: workers,
            cursor: 0,
        }
    }

    /// The number of records.
    pub fn len(&self) -> (n: usize)
        ensures
            n == self@.rows.len(),
    {
        self.rows.len()
    }

    /// The next record for a worker.
    ///
    /// In `FullLine` mode this is the `row_index`-th of the records that fall to
    /// the worker `thread_index`, and the reader does not change; a reader that
    /// deals its records out to no worker serves none. In the other
    /// modes it is the record at the cursor, whoever asks, and the cursor moves on.
    pub fn read(&mut self, thread_index: usize, row_index: usize) -> (r: Option<OpRow>)
        ensures
            match r {
                Some(row) => old(self)@.served(thread_index, row_index) == Some(row@),
                None => old(self)@.served(thread_index, row_index).is_none(),
            },
            final(self)@ == (OpLogsView { cursor: old(self)@.cursor_after(), ..old(self)@ }),
    {
        let striped = match &self.mode {
            OpReadMode::FullLine(_) => true,
            _ => false,
        };
        let restart = match &self.mode {
            OpReadMode::ReadLine(true) => true,
            _ => false,
        };
        let n = self.rows.len();
        if striped {
            let at = if self.stride == 0 {
                None
            } else {
                match row_index.checked_mul(self.stride) {
                    Some(offset) => thread_index.checked_add(offset),
                    None => None,
                }
            };
            match at {
                Some(at) => {
                    if at < n {
                        Some(self.rows[at].copy())
                    } else {
                        None
                    }
                },
                None => None,
            }
        } else if self.cursor < n {
            let row = self.rows[self.cursor].copy();
            self.cursor = self.cursor + 1;
            Some(row)
        } else if restart && n > 0 {
            let row = self.rows[0].copy();
            self.cursor = 1;
            Some(row)
        } else {
            None
        }
    }

    /// What is appended to a log for a record: its line and a line break.
    pub fn push_line(row: &OpRow) -> (text: String)
        ensures
            text@ == row_written(row@) + seq!['\n'],
    {
        proof {
            reveal_strlit("\n");
        }
        let mut text = row.to_line();
        text.append("\n");
        text
    }
}

/// The lines of a file in the opposite order.
pub fn reverse_file(lines: &Vec<String>) -> (out: Vec<String>)
    ensures
        out.deep_view() == lines.deep_view().reverse(),
{
    let mut out: Vec<String> = Vec::new();
    let n = lines.len();
    let mut i: usize = 0;
    while i < n
        invariant
            n == lines.len(),
            i <= n,
            out@.len() == i,
            forall|k: int| 0 <= k < i ==> out@[k]@ == lines@[n - 1 - k]@,
        decreases n - i,
    {
        out.push(lines[n - 1 - i].clone());
        i += 1;
    }
    out
}

/// The text of a file whose lines stand in the opposite order: the lines of
/// `content` that are not empty, the last one first, each followed by a line
/// break.
pub fn reverse_text(content: &str) -> (text: String)
    ensures
        text@ == line_text(filled(lines_in(content@)).reverse()),
{
    let lines = lines_of(content);
    let kept = drop_empty(&lines);
    let turned = reverse_file(&kept);
    text_of(&turned)
}

} // verus!
