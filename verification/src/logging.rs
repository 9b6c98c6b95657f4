//! The lines of the log.
use vstd::prelude::*;
use vstd::string::StringExecFns;
use crate::text::{append_padded, padded};

verus! {

/// How many lines are kept for the screen.
pub const MAX_LOG_LINES: usize = 50;

/// The lines as text.
pub open spec fn lines_text(lines: Seq<String>) -> Seq<Seq<char>> {
    lines.map_values(|line: String| line@)
}

/// The lines with one more, without the oldest if they become too many.
pub open spec fn with_line(lines: Seq<Seq<char>>, line: Seq<char>) -> Seq<Seq<char>> {
    let more = lines.push(line);
    if more.len() > MAX_LOG_LINES {
        more.skip(1)
    } else {
        more
    }
}

/// A line of the log.
pub open spec fn log_line(now: Seq<char>, level: Seq<char>, message: Seq<char>) -> Seq<char> {
    "["@ + now + "] ["@ + padded(level, 5) + "] "@ + message
}

/// Writes a line of the log: when it was, how grave it is in five columns, and what it was.
pub fn format_line(now: &str, level: &str, message: &str) -> (r: String)
    ensures
        r@ == log_line(now@, level@, message@),
{
    let mut line = "[".to_owned();
    line.append(now);
    line.append("] [");
    append_padded(&mut line, level, 5);
    line.append("] ");
    line.append(message);
    line
}

/// What is written to the file for a line, if there is a file: the line and the end of it.
pub open spec fn file_text(has_file: bool, line: Seq<char>) -> Option<Seq<char>> {
    if has_file {
        Some(line.push('\n'))
    } else {
        None
    }
}

/// The log: its last lines, and whether they also go to a file.
pub struct TuiLogger {
    pub logs: Vec<String>,
    pub has_file: bool,
}

impl TuiLogger {
    /// Never more lines than are kept.
    pub open spec fn wf(&self) -> bool {
        self.logs@.len() <= MAX_LOG_LINES
    }

    /// An empty log.
    pub fn new(has_file: bool) -> (r: Self)
        ensures
            r.wf(),
            r.logs@ == Seq::<String>::empty(),
            r.has_file == has_file,
    {
        TuiLogger { logs: Vec::new(), has_file }
    }

    /// Takes a line, and gives what is to be written to the file, if there is one.
    pub fn log(&mut self, now: &str, level: &str, message: &str) -> (r: Option<String>)
        ensures
            old(self).wf() ==> final(self).wf(),
            final(self).has_file == old(self).has_file,
            lines_text(final(self).logs@) == with_line(
                lines_text(old(self).logs@),
                log_line(now@, level@, message@),
            ),
            match r {
                Some(out) => old(self).has_file && out@ == log_line(now@, level@, message@)
                    + "\n"@,
                None => !old(self).has_file,
            },
            file_text(old(self).has_file, log_line(now@, level@, message@)) == match r {
                Some(out) => Some(out@),
                None => None,
            },
    {
        let line = format_line(now, level, message);
        let out = if self.has_file {
            let mut out = line.clone();
            out.append("\n");
            proof {
                reveal_strlit("\n");
            }
            assert(out@ =~= line@.push('\n'));
            Some(out)
        } else {
            None
        };
        let ghost before = lines_text(self.logs@);
        self.logs.push(line);
        assert(lines_text(self.logs@) =~= before.push(log_line(now@, level@, message@)));
        if self.logs.len() > MAX_LOG_LINES {
            let _ = self.logs.remove(0);
            assert(lines_text(self.logs@) =~= before.push(log_line(now@, level@, message@)).skip(
                1,
            ));
        }
        out
    }

    /// Whether there is a file whose lines have to be flushed.
    pub fn flush(&self) -> (r: bool)
        ensures
            r == self.has_file,
    {
        self.has_file
    }
}

/// Whether there is a file whose lines have to be flushed; without a log there is none.
pub fn flush(logger: Option<&TuiLogger>) -> (r: bool)
    ensures
        r == (logger matches Some(l) && l.has_file),
{
    match logger {
        Some(logger) => logger.flush(),
        None => false,
    }
}

/// The lines after a row of entries.
pub open spec fn lines_after(lines: Seq<Seq<char>>, entries: Seq<Seq<char>>) -> Seq<Seq<char>>
    decreases entries.len(),
{
    if entries.len() == 0 {
        lines
    } else {
        with_line(lines_after(lines, entries.drop_last()), entries.last())
    }
}

/// The log always holds the newest lines, as many as are kept, in the order in which they came.
pub proof fn law_log_keeps_newest(entries: Seq<Seq<char>>)
    ensures
        lines_after(Seq::empty(), entries) == if entries.len() > MAX_LOG_LINES {
            entries.skip(entries.len() - MAX_LOG_LINES)
        } else {
            entries
        },
    decreases entries.len(),
{
    if entries.len() > 0 {
        law_log_keeps_newest(entries.drop_last());
        let lines = lines_after(Seq::empty(), entries.drop_last());
        if entries.len() > MAX_LOG_LINES {
            assert(with_line(lines, entries.last()) =~= entries.skip(
                entries.len() - MAX_LOG_LINES,
            ));
        } else {
            assert(with_line(lines, entries.last()) =~= entries);
        }
    }
}

} // verus!
