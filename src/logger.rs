//! Log-line formatting. Each function here composes the line that a
//! logging call emits, with its level; the caller hands it to the logger.
use std::collections::HashMap;
use std::time::Instant;
use vstd::prelude::*;
use crate::text::{decimal, push_char, push_decimal, push_str};
use vstd::utf8::encode_utf8;

verus! {

/// `std::time::Instant`, a reading of the monotonic clock, carried through
/// unopened.
#[verifier::external_type_specification]
#[verifier::external_body]
pub struct ExInstant(Instant);

/// Relies on `Instant::now`: the current instant of the monotonic clock.
#[verifier::external_body]
fn now() -> (r: Instant) {
    Instant::now()
}

/// Relies on `Instant::elapsed`: the time since `start`, written as
/// `Duration`'s `Debug` form does.
#[verifier::external_body]
fn elapsed_text(start: &Instant) -> (r: String) {
    format!("{:?}", start.elapsed())
}

/// Log levels, from the most to the least verbose.
#[derive(Debug, Clone, Copy, PartialEq, Eq, Structural)]
pub enum LogLevel {
    Debug,
    Info,
    Warn,
    Error,
}

/// One line to be logged, at a level.
#[derive(Debug, Clone)]
pub struct LogLine {
    pub level: LogLevel,
    pub text: String,
}

/// `message` tagged with its component: `[component] message`.
pub open spec fn tagged(component: Seq<char>, message: Seq<char>) -> Seq<char> {
    "["@ + component + "] "@ + message
}

/// A line at `level` whose text is `text`.
pub open spec fn line_is(r: LogLine, level: LogLevel, text: Seq<char>) -> bool {
    r.level == level && r.text@ == text
}

fn tagged_line(level: LogLevel, message: &str, component: &str) -> (r: LogLine)
    ensures
        line_is(r, level, tagged(component@, message@)),
{
    let mut text = String::from_str("[");
    push_str(&mut text, component);
    push_str(&mut text, "] ");
    push_str(&mut text, message);
    LogLine { level, text }
}

/// A debug line for `message`, tagged with `component`.
pub fn log_debug(message: &str, component: &str) -> (r: LogLine)
    ensures
        line_is(r, LogLevel::Debug, tagged(component@, message@)),
{
    tagged_line(LogLevel::Debug, message, component)
}

/// An info line for `message`, tagged with `component`.
pub fn log_info(message: &str, component: &str) -> (r: LogLine)
    ensures
        line_is(r, LogLevel::Info, tagged(component@, message@)),
{
    tagged_line(LogLevel::Info, message, component)
}

/// A warning line for `message`, tagged with `component`.
pub fn log_warn(message: &str, component: &str) -> (r: LogLine)
    ensures
        line_is(r, LogLevel::Warn, tagged(component@, message@)),
{
    tagged_line(LogLevel::Warn, message, component)
}

/// An error line for `message`, tagged with `component`.
pub fn log_error(message: &str, component: &str) -> (r: LogLine)
    ensures
        line_is(r, LogLevel::Error, tagged(component@, message@)),
{
    tagged_line(LogLevel::Error, message, component)
}

/// The words of `parts` joined by single spaces.
pub open spec fn join_words(parts: Seq<Seq<char>>) -> Seq<char>
    decreases parts.len(),
{
    if parts.len() == 0 {
        seq![]
    } else if parts.len() == 1 {
        parts[0]
    } else {
        join_words(parts.drop_last()) + " "@ + parts.last()
    }
}

/// The views of a slice of string slices.
pub open spec fn str_views(parts: Seq<&str>) -> Seq<Seq<char>> {
    parts.map_values(|p: &str| p@)
}

/// A debug line announcing the command `cmd`, its words joined by spaces.
pub fn log_command(cmd: &[&str], component: &str) -> (r: LogLine)
    ensures
        line_is(r, LogLevel::Debug, tagged(component@, "Executing: "@ + join_words(str_views(cmd@)))),
{
    let mut text = String::from_str("Executing: ");
    let n = cmd.len();
    for i in 0..n
        invariant
            n == cmd@.len(),
            text@ == "Executing: "@ + join_words(str_views(cmd@.subrange(0, i as int))),
    {
        let ghost before = text@;
        if i > 0 {
            push_str(&mut text, " ");
        }
        push_str(&mut text, cmd[i]);
        proof {
            let ps = str_views(cmd@.subrange(0, i + 1));
            assert(ps.drop_last() =~= str_views(cmd@.subrange(0, i as int)));
            assert(ps.last() == cmd@[i as int]@);
            if i == 0 {
                assert(ps =~= seq![cmd@[0]@]);
                assert(text@ =~= "Executing: "@ + join_words(ps));
            } else {
                assert(text@ =~= "Executing: "@ + join_words(ps));
            }
        }
    }
    assert(cmd@.subrange(0, n as int) =~= cmd@);
    log_debug(text.as_str(), component)
}

/// A debug line for a file operation: `operation: path`.
pub fn log_file_op(operation: &str, path: &str, component: &str) -> (r: LogLine)
    ensures
        line_is(r, LogLevel::Debug, tagged(component@, operation@ + ": "@ + path@)),
{
    let mut text = String::from_str(operation);
    push_str(&mut text, ": ");
    push_str(&mut text, path);
    log_debug(text.as_str(), component)
}

/// An info line reporting a status: `Status: status`.
pub fn log_status(status: &str, component: &str) -> (r: LogLine)
    ensures
        line_is(r, LogLevel::Info, tagged(component@, "Status: "@ + status@)),
{
    let mut text = String::from_str("Status: ");
    push_str(&mut text, status);
    log_info(text.as_str(), component)
}

fn prefixed_line(level: LogLevel, prefix: &str, subject: &str) -> (r: LogLine)
    ensures
        line_is(r, level, prefix@ + subject@),
{
    let mut text = String::from_str(prefix);
    push_str(&mut text, subject);
    LogLine { level, text }
}

/// An info line announcing that a script starts.
pub fn log_script_start(script_name: &str) -> (r: LogLine)
    ensures
        line_is(r, LogLevel::Info, "🚀 Starting script: "@ + script_name@),
{
    prefixed_line(LogLevel::Info, "🚀 Starting script: ", script_name)
}

/// An info line announcing that a script completed.
pub fn log_script_complete(script_name: &str) -> (r: LogLine)
    ensures
        line_is(r, LogLevel::Info, "✅ Script completed: "@ + script_name@),
{
    prefixed_line(LogLevel::Info, "✅ Script completed: ", script_name)
}

/// An info line reporting success, tagged with `component`.
pub fn log_success(message: &str, component: &str) -> (r: LogLine)
    ensures
        line_is(r, LogLevel::Info, "✅ "@ + tagged(component@, message@)),
{
    let t = tagged_line(LogLevel::Info, message, component);
    prefixed_line(LogLevel::Info, "✅ ", t.text.as_str())
}

/// An error line reporting that a script failed: `❌ Script failed: name - error`.
pub fn log_script_error(script_name: &str, error: &str) -> (r: LogLine)
    ensures
        line_is(r, LogLevel::Error, "❌ Script failed: "@ + script_name@ + " - "@ + error@),
{
    let mut text = String::from_str("❌ Script failed: ");
    push_str(&mut text, script_name);
    push_str(&mut text, " - ");
    push_str(&mut text, error);
    LogLine { level: LogLevel::Error, text }
}

/// An info line for a `Result`: `success_msg` when it is `Ok`, and
/// `Failed: <error>` at error level when it is `Err`.
pub fn log_result<T, E: std::fmt::Display>(
    result: &Result<T, E>,
    success_msg: &str,
    component: &str,
) -> (r: LogLine)
    ensures
        result is Ok ==> line_is(r, LogLevel::Info, tagged(component@, success_msg@)),
        result is Err ==> r.level == LogLevel::Error && exists|shown: Seq<char>|
            r.text@ == tagged(component@, "Failed: "@ + shown),
{
    match result {
        Ok(_) => log_info(success_msg, component),
        Err(e) => {
            let shown = e.to_string();
            let mut text = String::from_str("Failed: ");
            push_str(&mut text, shown.as_str());
            let r = log_error(text.as_str(), component);
            assert(r.text@ == tagged(component@, "Failed: "@ + shown@));
            r
        },
    }
}

/// The line that ends a timed operation which took `took`.
pub open spec fn completed_text(operation: Seq<char>, took: Seq<char>) -> Seq<char> {
    "✅ Completed: "@ + operation + " (took "@ + took + ")"@
}

/// The line that ends a timed operation which failed after `took`.
pub open spec fn failed_text(operation: Seq<char>, took: Seq<char>, reason: Seq<char>) -> Seq<char> {
    "❌ Failed: "@ + operation + " after "@ + took + " - "@ + reason
}

/// Measures how long an operation takes.
pub struct PerformanceTimer {
    start: Instant,
    operation: String,
}

impl PerformanceTimer {
    /// The operation being timed.
    pub closed spec fn operation_view(&self) -> Seq<char> {
        self.operation@
    }

    /// Starts timing `operation`. The caller emits the start line that
    /// `started` gives.
    pub fn new(operation: &str) -> (r: PerformanceTimer)
        ensures
            r.operation_view() == operation@,
    {
        PerformanceTimer { start: now(), operation: String::from_str(operation) }
    }

    /// The info line that announces the start of the operation.
    pub fn started(&self) -> (r: LogLine)
        ensures
            line_is(r, LogLevel::Info, "⏱️  Starting: "@ + self.operation_view()),
    {
        prefixed_line(LogLevel::Info, "⏱️  Starting: ", self.operation.as_str())
    }

    /// Stops the timer: an info line with the operation and the time it took.
    pub fn finish(self) -> (r: LogLine)
        ensures
            r.level == LogLevel::Info,
            exists|took: Seq<char>| r.text@ == #[trigger] completed_text(self.operation_view(), took),
    {
        let took = elapsed_text(&self.start);
        let mut text = String::from_str("✅ Completed: ");
        push_str(&mut text, self.operation.as_str());
        push_str(&mut text, " (took ");
        push_str(&mut text, took.as_str());
        push_str(&mut text, ")");
        assert(text@ == completed_text(self.operation_view(), took@));
        LogLine { level: LogLevel::Info, text }
    }

    /// Stops the timer on failure: an error line with the operation, the
    /// time it ran and `reason`.
    pub fn fail(self, reason: &str) -> (r: LogLine)
        ensures
            r.level == LogLevel::Error,
            exists|took: Seq<char>| r.text@ == #[trigger] failed_text(self.operation_view(), took, reason@),
    {
        let took = elapsed_text(&self.start);
        let mut text = String::from_str("❌ Failed: ");
        push_str(&mut text, self.operation.as_str());
        push_str(&mut text, " after ");
        push_str(&mut text, took.as_str());
        push_str(&mut text, " - ");
        push_str(&mut text, reason);
        assert(text@ == failed_text(self.operation_view(), took@, reason@));
        LogLine { level: LogLevel::Error, text }
    }
}

/// A structured log record.
#[derive(Debug, Clone)]
pub struct LogEntry {
    pub timestamp: String,
    pub level: String,
    pub component: String,
    pub message: String,
    pub metadata: Option<HashMap<String, String>>,
}

impl LogEntry {
    /// A record stamped with `timestamp` (the caller reads the clock),
    /// without metadata.
    pub fn new(level: &str, component: &str, message: &str, timestamp: &str) -> (r: LogEntry)
        ensures
            r.timestamp@ == timestamp@,
            r.level@ == level@,
            r.component@ == component@,
            r.message@ == message@,
            r.metadata is None,
    {
        LogEntry {
            timestamp: String::from_str(timestamp),
            level: String::from_str(level),
            component: String::from_str(component),
            message: String::from_str(message),
            metadata: None,
        }
    }

    /// The same record, carrying `metadata`.
    pub fn with_metadata(self, metadata: HashMap<String, String>) -> (r: LogEntry)
        ensures
            r.timestamp == self.timestamp,
            r.level == self.level,
            r.component == self.component,
            r.message == self.message,
            r.metadata == Some(metadata),
    {
        LogEntry { metadata: Some(metadata), ..self }
    }

    /// The line for this record: `[component] message` at the level that
    /// the record names (`DEBUG`, `INFO`, `WARN`, `ERROR`); info for any
    /// other level.
    pub fn log(&self) -> (r: LogLine)
        ensures
            r.text@ == tagged(self.component@, self.message@),
            r.level == level_named(self.level@),
    {
        let level = if self.level == String::from_str("DEBUG") {
            LogLevel::Debug
        } else if self.level == String::from_str("WARN") {
            LogLevel::Warn
        } else if self.level == String::from_str("ERROR") {
            LogLevel::Error
        } else {
            LogLevel::Info
        };
        tagged_line(level, self.message.as_str(), self.component.as_str())
    }
}

/// The level that a level name stands for; info for an unknown name.
pub open spec fn level_named(name: Seq<char>) -> LogLevel {
    if name == "DEBUG"@ {
        LogLevel::Debug
    } else if name == "WARN"@ {
        LogLevel::Warn
    } else if name == "ERROR"@ {
        LogLevel::Error
    } else {
        LogLevel::Info
    }
}

/// The share of `current` in `total`, in whole percent: exactly
/// `100 * current / total` rounded down, saturated at `u32::MAX`; 0 for 0
/// of 0 and `u32::MAX` for more than 0 of 0. This is integer arithmetic: a
/// floating-point quotient scaled by 100 and truncated can come out one
/// lower (29 of 100 gives 28.999…, hence 28, there; 29 here).
pub open spec fn percent(current: nat, total: nat) -> nat {
    if total == 0 {
        if current == 0 {
            0
        } else {
            u32::MAX as nat
        }
    } else if current * 100 / total > u32::MAX {
        u32::MAX as nat
    } else {
        current * 100 / total
    }
}

/// Follows the progress of a long-running operation.
pub struct ProgressTracker {
    total: usize,
    current: usize,
    message: String,
    start: Instant,
}

/// The text of a tracker's start line.
pub open spec fn progress_start_text(message: Seq<char>, total: nat) -> Seq<char> {
    "📊 Starting: "@ + message + " (0/"@ + decimal(total) + ")"@
}

/// The text of a progress line.
pub open spec fn progress_text(message: Seq<char>, current: nat, total: nat) -> Seq<char> {
    "📊 Progress: "@ + message + " ("@ + decimal(current) + "/"@ + decimal(total) + ") - "@
        + decimal(percent(current, total)) + "%"@
}

/// The text of a finished tracker's line, for an operation that took `took`.
pub open spec fn progress_done_text(message: Seq<char>, total: nat, took: Seq<char>) -> Seq<char> {
    "✅ Completed: "@ + message + " ("@ + decimal(total) + "/"@ + decimal(total) + ") in "@
        + took
}

impl ProgressTracker {
    /// The number of steps in all.
    pub closed spec fn total_view(&self) -> nat {
        self.total as nat
    }

    /// The number of steps done.
    pub closed spec fn current_view(&self) -> nat {
        self.current as nat
    }

    /// What is being tracked.
    pub closed spec fn message_view(&self) -> Seq<char> {
        self.message@
    }

    /// A tracker of `total` steps, none of them done. Its start line (see
    /// `started`) reads `📊 Starting: <message> (0/<total>)`; the caller
    /// emits it.
    pub fn new(total: usize, message: &str) -> (r: ProgressTracker)
        ensures
            r.total_view() == total,
            r.current_view() == 0,
            r.message_view() == message@,
            progress_start_text(r.message_view(), r.total_view()) == progress_start_text(
                message@,
                total as nat,
            ),
    {
        ProgressTracker { total, current: 0, message: String::from_str(message), start: now() }
    }

    /// The info line that announces the start: `📊 Starting: message (0/total)`.
    pub fn started(&self) -> (r: LogLine)
        ensures
            line_is(r, LogLevel::Info, progress_start_text(self.message_view(), self.total_view())),
    {
        let mut text = String::from_str("📊 Starting: ");
        push_str(&mut text, self.message.as_str());
        push_str(&mut text, " (0/");
        push_decimal(&mut text, self.total as u64);
        push_str(&mut text, ")");
        LogLine { level: LogLevel::Info, text }
    }

    /// Records that `current` steps are done, and gives the progress line,
    /// whose percentage is `percent` (exact integer arithmetic).
    pub fn update(&mut self, current: usize) -> (r: LogLine)
        ensures
            final(self).current_view() == current,
            final(self).total_view() == old(self).total_view(),
            final(self).message_view() == old(self).message_view(),
            line_is(
                r,
                LogLevel::Info,
                progress_text(old(self).message_view(), current as nat, old(self).total_view()),
            ),
    {
        self.current = current;
        let pct: u64 = if self.total == 0 {
            if current == 0 {
                0
            } else {
                4294967295
            }
        } else {
            let q: u128 = (current as u128) * 100 / (self.total as u128);
            if q > 4294967295 {
                4294967295
            } else {
                q as u64
            }
        };
        let mut text = String::from_str("📊 Progress: ");
        push_str(&mut text, self.message.as_str());
        push_str(&mut text, " (");
        push_decimal(&mut text, current as u64);
        push_str(&mut text, "/");
        push_decimal(&mut text, self.total as u64);
        push_str(&mut text, ") - ");
        push_decimal(&mut text, pct);
        push_str(&mut text, "%");
        LogLine { level: LogLevel::Info, text }
    }

    /// Records one more step done, and gives the progress line.
    pub fn increment(&mut self) -> (r: LogLine)
        requires
            old(self).current_view() < usize::MAX,
        ensures
            final(self).current_view() == old(self).current_view() + 1,
            final(self).total_view() == old(self).total_view(),
            final(self).message_view() == old(self).message_view(),
            line_is(
                r,
                LogLevel::Info,
                progress_text(
                    old(self).message_view(),
                    old(self).current_view() + 1,
                    old(self).total_view(),
                ),
            ),
    {
        let next = self.current + 1;
        self.update(next)
    }

    /// Ends tracking: an info line with the total and the time taken.
    pub fn finish(self) -> (r: LogLine)
        ensures
            r.level == LogLevel::Info,
            exists|took: Seq<char>|
                r.text@ == #[trigger] progress_done_text(self.message_view(), self.total_view(), took),
    {
        let took = elapsed_text(&self.start);
        let mut text = String::from_str("✅ Completed: ");
        push_str(&mut text, self.message.as_str());
        push_str(&mut text, " (");
        push_decimal(&mut text, self.total as u64);
        push_str(&mut text, "/");
        push_decimal(&mut text, self.total as u64);
        push_str(&mut text, ") in ");
        push_str(&mut text, took.as_str());
        assert(text@ == progress_done_text(self.message_view(), self.total_view(), took@));
        LogLine { level: LogLevel::Info, text }
    }
}

/// A named logging context; its lines carry the context's name.
pub struct LogContext {
    context: String,
    start: Instant,
}

impl LogContext {
    /// The context's name.
    pub closed spec fn context_view(&self) -> Seq<char> {
        self.context@
    }

    /// Enters the context `context`. The caller emits the line that
    /// `entered` gives.
    pub fn new(context: &str) -> (r: LogContext)
        ensures
            r.context_view() == context@,
    {
        LogContext { context: String::from_str(context), start: now() }
    }

    /// The info line that announces entering the context.
    pub fn entered(&self) -> (r: LogLine)
        ensures
            line_is(r, LogLevel::Info, "➡️  Entering context: "@ + self.context_view()),
    {
        prefixed_line(LogLevel::Info, "➡️  Entering context: ", self.context.as_str())
    }

    /// `message` at `level`, tagged with the context's name.
    pub fn log(&self, level: LogLevel, message: &str) -> (r: LogLine)
        ensures
            line_is(r, level, tagged(self.context_view(), message@)),
    {
        tagged_line(level, message, self.context.as_str())
    }

    /// The info line that announces leaving the context, with the time spent in it.
    pub fn leaving(&self) -> (r: LogLine)
        ensures
            r.level == LogLevel::Info,
            exists|took: Seq<char>|
                r.text@ == #[trigger] leaving_text(self.context_view(), took),
    {
        let took = elapsed_text(&self.start);
        let mut text = String::from_str("⬅️  Leaving context: ");
        push_str(&mut text, self.context.as_str());
        push_str(&mut text, " (took ");
        push_str(&mut text, took.as_str());
        push_str(&mut text, ")");
        assert(text@ == leaving_text(self.context_view(), took@));
        LogLine { level: LogLevel::Info, text }
    }
}

/// The text of the line that leaves a context after `took`.
pub open spec fn leaving_text(context: Seq<char>, took: Seq<char>) -> Seq<char> {
    "⬅️  Leaving context: "@ + context + " (took "@ + took + ")"@
}

// ---------------------------------------------------------------------------
// Tables
// ---------------------------------------------------------------------------

/// The length in bytes of `s` encoded as UTF-8 (what `str::len` gives).
pub open spec fn byte_len(s: Seq<char>) -> nat {
    encode_utf8(s).len()
}

/// The views of a row of strings.
pub open spec fn string_views(row: Seq<String>) -> Seq<Seq<char>> {
    row.map_values(|c: String| c@)
}

/// The views of table rows.
pub open spec fn row_views(rows: Seq<Vec<String>>) -> Seq<Seq<Seq<char>>> {
    rows.map_values(|r: Vec<String>| string_views(r@))
}

/// The width of column `i` over the header and the first `m` rows: the
/// largest byte length of its header and of its cells there.
pub open spec fn width_upto(hs: Seq<Seq<char>>, rs: Seq<Seq<Seq<char>>>, i: int, m: int) -> nat
    decreases m,
{
    if m <= 0 {
        byte_len(hs[i])
    } else {
        let w = width_upto(hs, rs, i, m - 1);
        let r = rs[m - 1];
        if i < r.len() && byte_len(r[i]) > w {
            byte_len(r[i])
        } else {
            w
        }
    }
}

/// The width of each column.
pub open spec fn column_widths(hs: Seq<Seq<char>>, rs: Seq<Seq<Seq<char>>>) -> Seq<nat> {
    Seq::new(hs.len(), |i: int| width_upto(hs, rs, i, rs.len() as int))
}

/// `n` copies of `c`.
pub open spec fn repeat(c: char, n: nat) -> Seq<char> {
    Seq::new(n, |_i: int| c)
}

/// A horizontal rule: for each column a run of `─` two longer than its
/// width, with `mid` between runs.
pub open spec fn rule_body(ws: Seq<nat>, mid: Seq<char>) -> Seq<char>
    decreases ws.len(),
{
    if ws.len() == 0 {
        seq![]
    } else if ws.len() == 1 {
        repeat('─', ws[0] + 2)
    } else {
        rule_body(ws.drop_last(), mid) + mid + repeat('─', ws.last() + 2)
    }
}

/// A cell: `s` left-aligned and padded with spaces to `w` characters, with
/// one space on each side.
pub open spec fn padded(s: Seq<char>, w: nat) -> Seq<char> {
    " "@ + s + repeat(
        ' ',
        if s.len() < w {
            (w - s.len()) as nat
        } else {
            0
        },
    ) + " "@
}

/// The first `k` cells of a row, each followed by `│`.
pub open spec fn cells(cs: Seq<Seq<char>>, ws: Seq<nat>, k: int) -> Seq<char>
    decreases k,
{
    if k <= 0 {
        seq![]
    } else {
        cells(cs, ws, k - 1) + padded(cs[k - 1], ws[k - 1]) + "│"@
    }
}

/// One line of the table: the cells that have a column.
pub open spec fn row_line(r: Seq<Seq<char>>, ws: Seq<nat>) -> Seq<char> {
    "│"@ + cells(
        r,
        ws,
        if r.len() < ws.len() {
            r.len() as int
        } else {
            ws.len() as int
        },
    ) + "\n"@
}

/// The lines of the rows.
pub open spec fn rows_text(rs: Seq<Seq<Seq<char>>>, ws: Seq<nat>) -> Seq<char>
    decreases rs.len(),
{
    if rs.len() == 0 {
        seq![]
    } else {
        rows_text(rs.drop_last(), ws) + row_line(rs.last(), ws)
    }
}

/// The whole table drawn with box characters: top rule, header line,
/// separator, one line per row, bottom rule.
pub open spec fn table_text(hs: Seq<Seq<char>>, rs: Seq<Seq<Seq<char>>>) -> Seq<char> {
    let ws = column_widths(hs, rs);
    "┌"@ + rule_body(ws, "┬"@) + "┐\n"@ + row_line(hs, ws) + "├"@ + rule_body(ws, "┼"@) + "┤\n"@
        + rows_text(rs, ws) + "└"@ + rule_body(ws, "┴"@) + "┘"@
}

/// The widths as natural numbers.
pub open spec fn nat_widths(ws: Seq<usize>) -> Seq<nat> {
    ws.map_values(|w: usize| w as nat)
}

fn push_repeat(s: &mut String, c: char, n: usize)
    ensures
        final(s)@ == old(s)@ + repeat(c, n as nat),
{
    let ghost start = s@;
    for i in 0..n
        invariant
            s@ == start + repeat(c, i as nat),
    {
        push_char(s, c);
        assert(start + repeat(c, (i + 1) as nat) =~= (start + repeat(c, i as nat)).push(c));
    }
}

fn push_rule(s: &mut String, ws: &Vec<usize>, left: &str, mid: &str, right: &str)
    ensures
        final(s)@ == old(s)@ + left@ + rule_body(nat_widths(ws@), mid@) + right@,
{
    let ghost start = s@;
    push_str(s, left);
    let n = ws.len();
    for k in 0..n
        invariant
            n == ws.len(),
            s@ == start + left@ + rule_body(nat_widths(ws@.subrange(0, k as int)), mid@) + (if 0
                < k && k < n {
                mid@
            } else {
                seq![]
            }),
    {
        let ghost before = s@;
        let w = ws[k];
        push_repeat(s, '─', w);
        push_repeat(s, '─', 2);
        proof {
            let p = nat_widths(ws@.subrange(0, k + 1));
            assert(p.drop_last() =~= nat_widths(ws@.subrange(0, k as int)));
            assert(p.last() == w as nat);
            assert(repeat('─', w as nat) + repeat('─', 2) =~= repeat('─', (w + 2) as nat));
            if k == 0 {
                assert(p.len() == 1);
                assert(rule_body(nat_widths(ws@.subrange(0, k as int)), mid@) =~= seq![]);
            }
            assert(s@ =~= start + left@ + rule_body(p, mid@));
        }
        if k + 1 < n {
            push_str(s, mid);
        }
    }
    assert(ws@.subrange(0, n as int) =~= ws@);
    push_str(s, right);
}

fn push_padded(s: &mut String, cell: &str, w: usize)
    ensures
        final(s)@ == old(s)@ + padded(cell@, w as nat),
{
    let ghost start = s@;
    push_str(s, " ");
    push_str(s, cell);
    let n = cell.unicode_len();
    let pad = if n < w {
        w - n
    } else {
        0
    };
    push_repeat(s, ' ', pad);
    push_str(s, " ");
}

fn push_row(s: &mut String, cs: &Vec<&str>, ws: &Vec<usize>)
    ensures
        final(s)@ == old(s)@ + row_line(str_views(cs@), nat_widths(ws@)),
{
    let ghost start = s@;
    push_str(s, "│");
    let k = if cs.len() < ws.len() {
        cs.len()
    } else {
        ws.len()
    };
    for i in 0..k
        invariant
            k <= cs.len(),
            k <= ws.len(),
            s@ == start + "│"@ + cells(str_views(cs@), nat_widths(ws@), i as int),
    {
        push_padded(s, cs[i], ws[i]);
        push_str(s, "│");
    }
    push_str(s, "\n");
}

/// The string slices of a row of cells.
fn cell_strs(row: &Vec<String>) -> (r: Vec<&str>)
    ensures
        str_views(r@) == string_views(row@),
{
    let mut r: Vec<&str> = Vec::new();
    let n = row.len();
    for i in 0..n
        invariant
            n == row.len(),
            str_views(r@) == string_views(row@.subrange(0, i as int)),
    {
        let c = row[i].as_str();
        let ghost before = r@;
        r.push(c);
        assert(r@ == before.push(c));
        assert(c@ == row@[i as int]@);
        assert(str_views(r@).drop_last() =~= str_views(before));
        assert(string_views(row@.subrange(0, i + 1)).drop_last() =~= string_views(
            row@.subrange(0, i as int),
        ));
        assert forall|k: int| 0 <= k <= i implies #[trigger] str_views(r@)[k] == string_views(
            row@.subrange(0, i + 1),
        )[k] by {
            if k < i {
                assert(str_views(r@)[k] == str_views(before)[k]);
                assert(string_views(row@.subrange(0, i + 1))[k] == string_views(
                    row@.subrange(0, i as int),
                )[k]);
            }
        }
        assert(str_views(r@) =~= string_views(row@.subrange(0, i + 1)));
    }
    assert(row@.subrange(0, n as int) =~= row@);
    r
}

/// Draws `rows` under `headers` as a table with box characters. Each
/// column is as wide as its longest header or cell, counted in bytes;
/// cells beyond the last header are left out.
pub fn format_table(headers: Vec<&str>, rows: Vec<Vec<String>>) -> (r: String)
    requires
        forall|i: int| 0 <= i < headers.len() ==> byte_len(#[trigger] headers@[i]@) <= usize::MAX,
        forall|m: int, j: int|
            0 <= m < rows.len() && 0 <= j < rows@[m].len() ==> byte_len(#[trigger] rows@[m]@[j]@)
                <= usize::MAX,
    ensures
        r@ == table_text(str_views(headers@), row_views(rows@)),
{
    let ghost hs = str_views(headers@);
    let ghost rs = row_views(rows@);
    let n = headers.len();
    let mut widths: Vec<usize> = Vec::new();
    for i in 0..n
        invariant
            n == headers.len(),
            hs == str_views(headers@),
            widths.len() == i,
            forall|j: int| 0 <= j < n ==> byte_len(#[trigger] headers@[j]@) <= usize::MAX,
            forall|j: int| 0 <= j < i ==> widths@[j] as nat == width_upto(hs, rs, j, 0),
    {
        let l = headers[i].len();
        assert(hs[i as int] == headers@[i as int]@);
        assert(byte_len(headers@[i as int]@) <= usize::MAX);
        widths.push(l);
    }
    let nr = rows.len();
    for m in 0..nr
        invariant
            n == headers.len(),
            nr == rows.len(),
            hs == str_views(headers@),
            rs == row_views(rows@),
            widths.len() == n,
            forall|a: int, b: int|
                0 <= a < rows.len() && 0 <= b < rows@[a].len() ==> byte_len(#[trigger] rows@[a]@[b]@)
                    <= usize::MAX,
            forall|j: int| 0 <= j < n ==> widths@[j] as nat == width_upto(hs, rs, j, m as int),
    {
        let row = &rows[m];
        let nc = row.len();
        assert(rs[m as int] == string_views(row@));
        for j in 0..nc
            invariant
                n == headers.len(),
                nr == rows.len(),
                m < nr,
                row == rows@[m as int],
                nc == row.len(),
                hs == str_views(headers@),
                rs == row_views(rows@),
                rs[m as int] == string_views(row@),
                widths.len() == n,
                forall|a: int, b: int|
                    0 <= a < rows.len() && 0 <= b < rows@[a].len() ==> byte_len(
                        #[trigger] rows@[a]@[b]@,
                    ) <= usize::MAX,
                forall|i: int|
                    0 <= i < n ==> widths@[i] as nat == if i < j {
                        width_upto(hs, rs, i, m + 1)
                    } else {
                        width_upto(hs, rs, i, m as int)
                    },
        {
            if j < widths.len() {
                let l = row[j].as_str().len();
                assert(byte_len(rows@[m as int]@[j as int]@) <= usize::MAX);
                assert(rs[m as int][j as int] == row@[j as int]@);
                if l > widths[j] {
                    widths.set(j, l);
                }
            }
        }
        assert forall|i: int| 0 <= i < n implies widths@[i] as nat == width_upto(
            hs,
            rs,
            i,
            m + 1,
        ) by {
            if i >= nc {
                assert(width_upto(hs, rs, i, m + 1) == width_upto(hs, rs, i, m as int));
            }
        }
    }
    let ghost ws = nat_widths(widths@);
    assert(ws =~= column_widths(hs, rs));
    let mut out = String::new();
    push_rule(&mut out, &widths, "┌", "┬", "┐\n");
    push_row(&mut out, &headers, &widths);
    assert(hs.len() <= ws.len());
    push_rule(&mut out, &widths, "├", "┼", "┤\n");
    for m in 0..nr
        invariant
            nr == rows.len(),
            rs == row_views(rows@),
            ws == nat_widths(widths@),
            ws == column_widths(hs, rs),
            out@ == "┌"@ + rule_body(ws, "┬"@) + "┐\n"@ + row_line(hs, ws) + "├"@ + rule_body(
                ws,
                "┼"@,
            ) + "┤\n"@ + rows_text(rs.subrange(0, m as int), ws),
    {
        let cs = cell_strs(&rows[m]);
        push_row(&mut out, &cs, &widths);
        assert(rs.subrange(0, m + 1).drop_last() =~= rs.subrange(0, m as int));
        assert(rs.subrange(0, m + 1).last() == str_views(cs@));
    }
    assert(rs.subrange(0, nr as int) =~= rs);
    push_rule(&mut out, &widths, "└", "┴", "┘");
    out
}

} // verus!
