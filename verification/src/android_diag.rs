//! Bookkeeping of the Android build's diagnostics log: where it is written and
//! the lines appended to it. Creating directories, reading the clock and
//! writing the file are left to the caller, which performs each `LogWrite`.
use vstd::prelude::*;
use crate::text::{decimal, push_decimal};

verus! {

/// The log file used when the app's files directory cannot be found.
pub open spec fn default_log_path_text() -> Seq<char> {
    "/sdcard/Android/data/io.github.taled.editor/files/logs/taled-editor.log"@
}

/// The log file used when the app's files directory cannot be found.
pub fn default_log_path() -> (path: String)
    ensures
        path@ == default_log_path_text(),
{
    "/sdcard/Android/data/io.github.taled.editor/files/logs/taled-editor.log".to_string()
}

/// The log file chosen at start-up; it is recorded once and never replaced.
pub struct LogTarget {
    path: Option<String>,
}

/// One line to append to the file at `path`.
pub struct LogWrite {
    pub path: String,
    pub line: String,
}

impl LogTarget {
    /// No log file recorded yet.
    pub fn new() -> (t: LogTarget)
        ensures
            t.recorded() is None,
    {
        LogTarget { path: None }
    }

    /// The recorded log file, if any.
    pub closed spec fn recorded(&self) -> Option<Seq<char>> {
        match self.path {
            Some(p) => Some(p@),
            None => None,
        }
    }

    /// Records `path` unless a log file is already recorded.
    pub fn record(&mut self, path: String)
        ensures
            final(self).recorded() == match old(self).recorded() {
                Some(p) => Some(p),
                None => Some(path@),
            },
    {
        if self.path.is_none() {
            self.path = Some(path);
        }
    }
}

/// The file that log lines go to: the recorded one, or the default.
pub open spec fn log_file(target: LogTarget) -> Seq<char> {
    match target.recorded() {
        Some(p) => p,
        None => default_log_path_text(),
    }
}

/// The path of the log file, for display.
pub fn log_path(target: &LogTarget) -> (path: String)
    ensures
        path@ == log_file(*target),
{
    match &target.path {
        Some(p) => p.clone(),
        None => default_log_path(),
    }
}

/// `part` appended to the directory path `base`, with a '/' between them
/// unless `base` is empty or already ends with one.
pub open spec fn joined_path(base: Seq<char>, part: Seq<char>) -> Seq<char> {
    if base.len() == 0 || base.last() == '/' {
        base + part
    } else {
        base + seq!['/'] + part
    }
}

fn join_path(base: &str, part: &str) -> (joined: String)
    ensures
        joined@ == joined_path(base@, part@),
{
    let mut joined = base.to_string();
    let n = base.unicode_len();
    if n > 0 && base.get_char(n - 1) != '/' {
        joined.append("/");
        proof { reveal_strlit("/"); }
    }
    joined.append(part);
    joined
}

/// The log file inside the app's files directory `dir`.
pub fn log_file_in(dir: &str) -> (path: String)
    ensures
        path@ == joined_path(joined_path(dir@, "logs"@), "taled-editor.log"@),
{
    let logs = join_path(dir, "logs");
    join_path(logs.as_str(), "taled-editor.log")
}

/// A log line as written: the time in milliseconds between brackets, then the message.
pub open spec fn log_line(timestamp_ms: u128, message: Seq<char>) -> Seq<char> {
    seq!['['] + decimal(timestamp_ms as nat) + "] "@ + message + seq!['\n']
}

/// The write that appends `message`, stamped with `timestamp_ms`, to the log file.
pub fn append_line(target: &LogTarget, timestamp_ms: u128, message: &str) -> (w: LogWrite)
    ensures
        w.path@ == log_file(*target),
        w.line@ == log_line(timestamp_ms, message@),
{
    let mut line = "[".to_string();
    push_decimal(&mut line, timestamp_ms);
    line.append("] ");
    line.append(message);
    line.append("\n");
    proof {
        reveal_strlit("[");
        reveal_strlit("\n");
    }
    LogWrite { path: log_path(target), line }
}

/// Logs `message`.
pub fn log(target: &LogTarget, timestamp_ms: u128, message: String) -> (w: LogWrite)
    ensures
        w.path@ == log_file(*target),
        w.line@ == log_line(timestamp_ms, message@),
{
    append_line(target, timestamp_ms, message.as_str())
}

/// Logs that the first frame was rendered.
pub fn mark_app_rendered(target: &LogTarget, timestamp_ms: u128) -> (w: LogWrite)
    ensures
        w.path@ == log_file(*target),
        w.line@ == log_line(timestamp_ms, "boot: first render committed"@),
{
    append_line(target, timestamp_ms, "boot: first render committed")
}

/// Start-up: records the log file (the one found in the app's files
/// directory, else the default) and answers the two boot lines to write.
pub fn install(target: &mut LogTarget, found: Option<String>, timestamp_ms: u128) -> (writes: Vec<LogWrite>)
    ensures
        final(target).recorded() == match old(target).recorded() {
            Some(p) => Some(p),
            None => Some(
                match found {
                    Some(f) => f@,
                    None => default_log_path_text(),
                },
            ),
        },
        writes@.len() == 2,
        writes@[0].path@ == log_file(*final(target)),
        writes@[0].line@ == log_line(timestamp_ms, "boot: installing android diagnostics"@),
        writes@[1].path@ == log_file(*final(target)),
        writes@[1].line@ == log_line(
            timestamp_ms,
            "boot: log_path="@ + match found {
                Some(f) => f@,
                None => default_log_path_text(),
            },
        ),
{
    let path = match found {
        Some(f) => f,
        None => default_log_path(),
    };
    let mut shown = "boot: log_path=".to_string();
    shown.append(path.as_str());
    target.record(path);
    let mut writes: Vec<LogWrite> = Vec::new();
    writes.push(append_line(target, timestamp_ms, "boot: installing android diagnostics"));
    writes.push(append_line(target, timestamp_ms, shown.as_str()));
    writes
}

} // verus!
