//! Reading a chat log for offline analysis: one message per line, written
//! `session|context|text`; blank lines and lines starting with `#` are skipped.

use vstd::prelude::*;

use crate::text::{chars_of, lines_of, lines_spec, split_once, split_once_spec, string_of, trim_chars, trim_spec};

verus! {

/// What a line of the log holds.
pub enum LogLine {
    /// A blank line or a comment.
    Skip,
    /// A line without two `|`, given trimmed.
    Malformed(String),
    /// A message: its session, its context, and its text (which may hold more `|`).
    Entry { session_id: String, context: String, text: String },
}

pub enum LogLineV {
    Skip,
    Malformed(Seq<char>),
    Entry { session_id: Seq<char>, context: Seq<char>, text: Seq<char> },
}

pub open spec fn log_line_view(l: LogLine) -> LogLineV {
    match l {
        LogLine::Skip => LogLineV::Skip,
        LogLine::Malformed(s) => LogLineV::Malformed(s@),
        LogLine::Entry { session_id, context, text } => LogLineV::Entry {
            session_id: session_id@,
            context: context@,
            text: text@,
        },
    }
}

/// A line, trimmed, split at its first two `|` (`splitn(3, '|')`).
pub open spec fn log_line_spec(line: Seq<char>) -> LogLineV {
    let t = trim_spec(line);
    if t.len() == 0 || t[0] == '#' {
        LogLineV::Skip
    } else {
        let (session_id, rest) = split_once_spec(t, '|');
        match rest {
            None => LogLineV::Malformed(t),
            Some(r) => {
                let (context, text) = split_once_spec(r, '|');
                match text {
                    None => LogLineV::Malformed(t),
                    Some(text) => LogLineV::Entry { session_id, context, text },
                }
            },
        }
    }
}

fn read_line(line: &Vec<char>) -> (r: LogLine)
    ensures
        log_line_view(r) == log_line_spec(line@),
{
    let t = trim_chars(line);
    if t.len() == 0 || t[0] == '#' {
        return LogLine::Skip;
    }
    let (session_id, rest) = split_once(&t, '|');
    match rest {
        None => LogLine::Malformed(string_of(&t)),
        Some(r) => {
            let (context, text) = split_once(&r, '|');
            match text {
                None => LogLine::Malformed(string_of(&t)),
                Some(text) => LogLine::Entry {
                    session_id: string_of(&session_id),
                    context: string_of(&context),
                    text: string_of(&text),
                },
            }
        },
    }
}

/// What each line of a log holds, line by line as `str::lines` splits the text.
pub fn read_analysis_log(content: &str) -> (r: Vec<LogLine>)
    ensures
        r@.len() == lines_spec(content@).len(),
        forall|i: int| 0 <= i < r@.len() ==> log_line_view(#[trigger] r@[i]) == log_line_spec(lines_spec(content@)[i]),
{
    let v = chars_of(content);
    let lines = lines_of(&v);
    let mut out: Vec<LogLine> = Vec::new();
    let mut i: usize = 0;
    while i < lines.len()
        invariant
            i <= lines@.len(),
            v@ == content@,
            lines@.len() == lines_spec(v@).len(),
            forall|j: int| 0 <= j < lines@.len() ==> (#[trigger] lines@[j])@ == lines_spec(v@)[j],
            out@.len() == i,
            forall|j: int| 0 <= j < i ==> log_line_view(#[trigger] out@[j]) == log_line_spec(lines_spec(v@)[j]),
        decreases lines@.len() - i,
    {
        let l = read_line(&lines[i]);
        out.push(l);
        i = i + 1;
    }
    out
}

} // verus!
