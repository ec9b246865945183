//! Bookkeeping of the web build's diagnostics: the bounded in-memory log, the
//! text of the boot overlay and the payload of the log download.
use vstd::prelude::*;
use crate::text::joined;

verus! {

/// How many log lines are kept.
pub const MAX_LOG_LINES: usize = 400;

/// The in-memory log: the most recent lines, oldest first.
pub struct WebLog {
    lines: Vec<String>,
}

/// The lines kept of a history of logged lines: the last `MAX_LOG_LINES`.
pub open spec fn kept(history: Seq<Seq<char>>) -> Seq<Seq<char>> {
    if history.len() <= MAX_LOG_LINES {
        history
    } else {
        history.subrange(history.len() - MAX_LOG_LINES, history.len() as int)
    }
}

pub open spec fn lines_view(lines: Seq<String>) -> Seq<Seq<char>> {
    lines.map_values(|s: String| s@)
}

impl View for WebLog {
    type V = Seq<Seq<char>>;

    closed spec fn view(&self) -> Seq<Seq<char>> {
        lines_view(self.lines@)
    }
}

impl WebLog {
    /// No line logged yet.
    pub fn new() -> (log: WebLog)
        ensures
            log@ == Seq::<Seq<char>>::empty(),
    {
        let log = WebLog { lines: Vec::new() };
        assert(log@ =~= Seq::<Seq<char>>::empty());
        log
    }

}

/// Records `message` as the newest line, dropping the oldest lines beyond
/// `MAX_LOG_LINES`.
pub fn log(logs: &mut WebLog, message: String)
    ensures
        final(logs)@ == kept(old(logs)@.push(message@)),
        final(logs)@.len() <= MAX_LOG_LINES,
{
    let ghost m = message@;
    logs.lines.push(message);
    assert(lines_view(logs.lines@) =~= old(logs)@.push(m));
    if logs.lines.len() > MAX_LOG_LINES {
        let extra = logs.lines.len() - MAX_LOG_LINES;
        let ghost all = logs.lines@;
        let rest = logs.lines.split_off(extra);
        logs.lines = rest;
        assert(lines_view(logs.lines@) =~= lines_view(all).subrange(extra as int, all.len() as int));
    }
}

/// The lines currently kept, oldest first.
pub fn entries(logs: &WebLog) -> (lines: Vec<String>)
    ensures
        lines_view(lines@) == logs@,
{
    let mut lines: Vec<String> = Vec::new();
    let mut i: usize = 0;
    while i < logs.lines.len()
        invariant
            0 <= i <= logs.lines@.len(),
            lines_view(lines@) == lines_view(logs.lines@).take(i as int),
        decreases logs.lines.len() - i,
    {
        let line: &String = &logs.lines[i];
        let copy = line.clone();
        assert(copy@ == logs.lines@[i as int]@);
        let ghost before = lines@;
        let ghost copied = copy@;
        lines.push(copy);
        assert(lines_view(lines@) =~= lines_view(before).push(copied));
        assert(lines_view(lines@) =~= lines_view(logs.lines@).take(i as int + 1));
        i += 1;
    }
    assert(lines_view(logs.lines@).take(i as int) =~= lines_view(logs.lines@));
    lines
}

/// Logs that the first frame was rendered.
pub fn mark_app_rendered(logs: &mut WebLog)
    ensures
        final(logs)@ == kept(old(logs)@.push("boot: first render committed"@)),
{
    log(logs, "boot: first render committed".to_string());
}

/// The boot overlay's text after a line is appended to it.
pub fn append_boot_line(existing: &str, message: &str) -> (next: String)
    ensures
        next@ == existing@ + message@ + seq!['\n'],
{
    let mut next = existing.to_string();
    next.append(message);
    next.append("\n");
    proof { reveal_strlit("\n"); }
    next
}

/// Logging a line after older lines were dropped keeps what logging it into
/// the whole history would keep: the log always holds the latest lines.
pub proof fn log_keeps_latest(history: Seq<Seq<char>>, message: Seq<char>)
    ensures
        kept(kept(history).push(message)) == kept(history.push(message)),
{
    let full = history.push(message);
    if history.len() >= MAX_LOG_LINES {
        assert(kept(kept(history).push(message)) =~= kept(full));
    }
}

/// The text of a log download: the lines, one per line, or a notice that
/// nothing was captured.
pub fn download_payload(lines: &Vec<String>) -> (payload: String)
    ensures
        payload@ == if lines@.len() == 0 {
            "no logs captured"@
        } else {
            joined(lines_view(lines@), "\n"@)
        },
{
    if lines.len() == 0 {
        return "no logs captured".to_string();
    }
    let mut payload = String::new();
    let mut i: usize = 0;
    while i < lines.len()
        invariant
            0 <= i <= lines@.len(),
            payload@ == joined(lines_view(lines@).take(i as int), "\n"@),
        decreases lines.len() - i,
    {
        let ghost taken = lines_view(lines@).take(i as int + 1);
        assert(taken.drop_last() =~= lines_view(lines@).take(i as int));
        if i > 0 {
            payload.append("\n");
        }
        payload.append(lines[i].as_str());
        proof {
            if i == 0 {
                assert(payload@ =~= taken[0]);
            }
        }
        i += 1;
    }
    assert(lines_view(lines@).take(i as int) =~= lines_view(lines@));
    payload
}

} // verus!
