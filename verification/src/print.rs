//! Stateful print frontend.
//!
//! [`PrintFrontend`] consumes [`AgentEvent`]s and writes text to an output
//! sink with two streams: assistant text goes to stdout, everything else
//! (tool progress, errors, notices) to stderr. It tracks the current run so
//! that stale events are dropped and each run reports its end only once,
//! and it tracks tools so that each tool call is announced and summarised
//! once.
//!
//! The frontend's state is modelled by [`FrontendModel`]; the text that an
//! event produces is given by [`stdout_text`] and [`stderr_text`].

use vstd::prelude::*;
use vstd::utf8::encode_utf8;
use crate::command::{format_help, help_listing, item_view, preview, truncate_preview, CommandResult};
use crate::out::SessionSummary;
use crate::session_controller::RunId;
use crate::text::{
    append, append_decimal, append_str, chars_eq, chars_eq_str, chars_of, decimal, lines,
    lines_exec, string_from_chars,
};

verus! {

// ── Outside types ───────────────────────────────────────────────────────────

#[verifier::external_type_specification]
#[verifier::external_body]
pub struct ExIoError(std::io::Error);

#[verifier::external_type_specification]
#[verifier::external_body]
pub struct ExInstant(std::time::Instant);

/// `std::io::Error::other` with the given message. Nothing is claimed of the
/// error value.
#[verifier::external_body]
fn io_error(message: &str) -> std::io::Error {
    std::io::Error::other(message.to_string())
}

/// `std::time::Instant::now`. A clock reading: nothing is claimed of it.
#[verifier::external_body]
pub(crate) fn clock_now() -> std::time::Instant {
    std::time::Instant::now()
}

/// A duration in seconds with one decimal (`{:.1}` of
/// `Duration::as_secs_f64`). Float formatting: nothing is claimed of the
/// text.
#[verifier::external_body]
fn seconds_text(d: std::time::Duration) -> String {
    format!("{:.1}", d.as_secs_f64())
}

/// ` in S.Ds`: the time elapsed since `start`.
fn elapsed_suffix(start: &std::time::Instant) -> (s: String)
    ensures
        exists|t: Seq<char>| s@ == " in "@ + t + "s"@,
{
    let d = crate::transcript::elapsed_since(start);
    let t = seconds_text(d);
    let mut out: Vec<char> = Vec::new();
    append_str(&mut out, " in ");
    append_str(&mut out, t.as_str());
    append_str(&mut out, "s");
    assert(out@ == " in "@ + t@ + "s"@);
    string_from_chars(out.as_slice())
}

/// `String::from_utf8_lossy`: valid UTF-8 decodes to its characters; what
/// invalid input gives (replacement characters) is not stated.
#[verifier::external_body]
pub(crate) fn utf8_lossy(bytes: &[u8]) -> (s: String)
    ensures
        vstd::utf8::valid_utf8(bytes@) ==> s@ == vstd::utf8::decode_utf8(bytes@),
{
    String::from_utf8_lossy(bytes).into_owned()
}

// ── Agent events ────────────────────────────────────────────────────────────

impl RunId {
    pub fn new(id: u64) -> (r: Self)
        ensures
            r.0 == id,
    {
        RunId(id)
    }
}

/// The stream a chunk of tool output came from.
#[derive(Debug, Clone, Copy, PartialEq, Eq, Structural)]
pub enum ToolOutputStream {
    Stdout,
    Stderr,
}

/// Why the model stopped producing output.
#[derive(Debug, Clone, Copy, PartialEq, Eq, Structural)]
pub enum StopReason {
    Stop,
    Length,
    ToolUse,
    Error,
    Aborted,
}

/// Where in a run a failure happened.
#[derive(Debug, Clone, Copy, PartialEq, Eq, Structural)]
pub enum AgentRunPhase {
    ProviderStart,
    AgentLoop,
}

pub open spec fn phase_label(p: AgentRunPhase) -> Seq<char> {
    match p {
        AgentRunPhase::ProviderStart => "provider start"@,
        AgentRunPhase::AgentLoop => "agent loop"@,
    }
}

impl AgentRunPhase {
    /// The phase as shown to the user.
    pub fn label(&self) -> (s: &'static str)
        ensures
            s@ == phase_label(*self),
    {
        match self {
            AgentRunPhase::ProviderStart => {
                proof {
                    reveal_strlit("provider start");
                }
                "provider start"
            },
            AgentRunPhase::AgentLoop => {
                proof {
                    reveal_strlit("agent loop");
                }
                "agent loop"
            },
        }
    }
}

/// A failure that ended a run.
#[derive(Debug, Clone, PartialEq, Eq)]
pub struct AgentRunError {
    pub phase: AgentRunPhase,
    pub message: String,
}

/// An error reported by the model provider during a run.
#[derive(Debug, Clone, PartialEq, Eq)]
pub struct ProviderError {
    pub reason: StopReason,
    pub message: String,
}

/// One piece of tool result content.
#[derive(Debug, Clone, PartialEq, Eq)]
pub enum Content {
    Text { text: String },
    Image { data: String, mime_type: String },
}

/// What a tool call returned.
#[derive(Debug, Clone, PartialEq, Eq)]
pub struct AgentToolResult {
    pub content: Vec<Content>,
    pub is_error: bool,
    pub exit_code: Option<i32>,
    pub timed_out: bool,
    pub aborted: bool,
    /// The result's details as compact JSON text; `null` when there are none.
    pub details: String,
}

impl Default for AgentToolResult {
    fn default() -> (r: Self)
        ensures
            r.content@.len() == 0,
            !r.is_error,
            r.exit_code is None,
            !r.timed_out,
            !r.aborted,
            r.details@ == "null"@,
    {
        AgentToolResult {
            content: Vec::new(),
            is_error: false,
            exit_code: None,
            timed_out: false,
            aborted: false,
            details: crate::text::to_string("null"),
        }
    }
}

/// Events of one agent run. Tool arguments are carried as their compact
/// JSON text (an empty object is `{}`).
#[derive(Debug, Clone, PartialEq, Eq)]
pub enum AgentEvent {
    RunStarted { run_id: RunId },
    TextDelta { run_id: RunId, text: String },
    ThinkingDelta { run_id: RunId, text: String },
    ToolStarted { run_id: RunId, tool_call_id: String, name: String, arguments: String },
    ToolOutput { run_id: RunId, tool_call_id: String, stream: ToolOutputStream, chunk: String },
    ToolFinished { run_id: RunId, tool_call_id: String, name: String, result: AgentToolResult },
    ProviderError { run_id: RunId, error: ProviderError },
    RunAborted { run_id: RunId },
    RunFailed { run_id: RunId, error: AgentRunError },
    RunFinished { run_id: RunId, stop_reason: StopReason },
}

// ── Output sinks ────────────────────────────────────────────────────────────

/// Where a frontend writes. `stdout_bytes` and `stderr_bytes` are what has
/// reached each stream so far; a write that succeeds appends the UTF-8
/// encoding of its text to its own stream and leaves the other alone, and
/// a flush that succeeds changes neither. A `reliable` sink (one in memory)
/// never fails and stays reliable.
pub trait FrontendOutput {
    spec fn stdout_bytes(&self) -> Seq<u8>;

    spec fn stderr_bytes(&self) -> Seq<u8>;

    spec fn reliable(&self) -> bool;

    fn write_stdout(&mut self, text: &str) -> (r: Result<(), std::io::Error>)
        ensures
            r is Ok ==> final(self).stdout_bytes() == old(self).stdout_bytes() + encode_utf8(
                text@,
            ),
            r is Ok ==> final(self).stderr_bytes() == old(self).stderr_bytes(),
            old(self).reliable() ==> r is Ok,
            final(self).reliable() == old(self).reliable(),
    ;

    fn write_stderr(&mut self, text: &str) -> (r: Result<(), std::io::Error>)
        ensures
            r is Ok ==> final(self).stderr_bytes() == old(self).stderr_bytes() + encode_utf8(
                text@,
            ),
            r is Ok ==> final(self).stdout_bytes() == old(self).stdout_bytes(),
            old(self).reliable() ==> r is Ok,
            final(self).reliable() == old(self).reliable(),
    ;

    fn flush_stdout(&mut self) -> (r: Result<(), std::io::Error>)
        ensures
            r is Ok ==> final(self).stdout_bytes() == old(self).stdout_bytes(),
            r is Ok ==> final(self).stderr_bytes() == old(self).stderr_bytes(),
            old(self).reliable() ==> r is Ok,
            final(self).reliable() == old(self).reliable(),
    ;

    fn flush_stderr(&mut self) -> (r: Result<(), std::io::Error>)
        ensures
            r is Ok ==> final(self).stdout_bytes() == old(self).stdout_bytes(),
            r is Ok ==> final(self).stderr_bytes() == old(self).stderr_bytes(),
            old(self).reliable() ==> r is Ok,
            final(self).reliable() == old(self).reliable(),
    ;
}

/// In-memory sink: stdout and stderr captured as separate byte buffers.
#[derive(Debug)]
pub struct MemoryOutput {
    pub stdout: Vec<u8>,
    pub stderr: Vec<u8>,
}

impl MemoryOutput {
    pub fn new() -> (m: Self)
        ensures
            m.stdout@.len() == 0,
            m.stderr@.len() == 0,
    {
        MemoryOutput { stdout: Vec::new(), stderr: Vec::new() }
    }

    /// Stdout as text; valid UTF-8 reads back as its characters.
    pub fn stdout_str(&self) -> (s: String)
        ensures
            vstd::utf8::valid_utf8(self.stdout@) ==> s@ == vstd::utf8::decode_utf8(self.stdout@),
    {
        utf8_lossy(self.stdout.as_slice())
    }

    /// Stderr as text; valid UTF-8 reads back as its characters.
    pub fn stderr_str(&self) -> (s: String)
        ensures
            vstd::utf8::valid_utf8(self.stderr@) ==> s@ == vstd::utf8::decode_utf8(self.stderr@),
    {
        utf8_lossy(self.stderr.as_slice())
    }

    /// Empty both buffers.
    pub fn clear(&mut self)
        ensures
            final(self).stdout@.len() == 0,
            final(self).stderr@.len() == 0,
    {
        self.stdout.clear();
        self.stderr.clear();
    }
}

impl Default for MemoryOutput {
    fn default() -> (m: Self)
        ensures
            m.stdout@.len() == 0,
            m.stderr@.len() == 0,
    {
        MemoryOutput::new()
    }
}

fn push_bytes(buf: &mut Vec<u8>, text: &str)
    ensures
        final(buf)@ == old(buf)@ + encode_utf8(text@),
{
    let bytes = text.as_bytes();
    let ghost start = buf@;
    let mut i: usize = 0;
    while i < bytes.len()
        invariant
            0 <= i <= bytes@.len(),
            bytes@ == encode_utf8(text@),
            buf@ == start + bytes@.take(i as int),
        decreases bytes@.len() - i,
    {
        buf.push(bytes[i]);
        i = i + 1;
        assert(buf@ =~= start + bytes@.take(i as int));
    }
    assert(bytes@.take(i as int) =~= bytes@);
}

impl FrontendOutput for MemoryOutput {
    open spec fn reliable(&self) -> bool {
        true
    }

    open spec fn stdout_bytes(&self) -> Seq<u8> {
        self.stdout@
    }

    open spec fn stderr_bytes(&self) -> Seq<u8> {
        self.stderr@
    }

    fn write_stdout(&mut self, text: &str) -> (r: Result<(), std::io::Error>)
        ensures
            r is Ok,
    {
        push_bytes(&mut self.stdout, text);
        Ok(())
    }

    fn write_stderr(&mut self, text: &str) -> (r: Result<(), std::io::Error>)
        ensures
            r is Ok,
    {
        push_bytes(&mut self.stderr, text);
        Ok(())
    }

    fn flush_stdout(&mut self) -> (r: Result<(), std::io::Error>)
        ensures
            r is Ok,
    {
        Ok(())
    }

    fn flush_stderr(&mut self) -> (r: Result<(), std::io::Error>)
        ensures
            r is Ok,
    {
        Ok(())
    }
}

/// Writes `text` to the process's stdout (`Write::write_all` on
/// `std::io::stdout()`). Whether it succeeds depends on the environment:
/// nothing is claimed.
#[verifier::external_body]
fn process_stdout_write(text: &str) -> Result<(), std::io::Error> {
    std::io::Write::write_all(&mut std::io::stdout(), text.as_bytes())
}

/// Writes `text` to the process's stderr (`Write::write_all` on
/// `std::io::stderr()`). Nothing is claimed.
#[verifier::external_body]
fn process_stderr_write(text: &str) -> Result<(), std::io::Error> {
    std::io::Write::write_all(&mut std::io::stderr(), text.as_bytes())
}

/// Flushes the process's stdout (`Write::flush`). Nothing is claimed.
#[verifier::external_body]
fn process_stdout_flush() -> Result<(), std::io::Error> {
    std::io::Write::flush(&mut std::io::stdout())
}

/// Flushes the process's stderr (`Write::flush`). Nothing is claimed.
#[verifier::external_body]
fn process_stderr_flush() -> Result<(), std::io::Error> {
    std::io::Write::flush(&mut std::io::stderr())
}

/// The process's own stdout and stderr. Its model is what it has handed
/// to each stream with success.
pub struct RealOutput {
    sent_stdout: Ghost<Seq<u8>>,
    sent_stderr: Ghost<Seq<u8>>,
}

impl RealOutput {
    pub fn new() -> (o: Self)
        ensures
            o.stdout_bytes().len() == 0,
            o.stderr_bytes().len() == 0,
    {
        RealOutput { sent_stdout: Ghost(Seq::empty()), sent_stderr: Ghost(Seq::empty()) }
    }
}

impl FrontendOutput for RealOutput {
    /// Whether the process's streams accept writes is not known.
    open spec fn reliable(&self) -> bool {
        false
    }

    closed spec fn stdout_bytes(&self) -> Seq<u8> {
        self.sent_stdout@
    }

    closed spec fn stderr_bytes(&self) -> Seq<u8> {
        self.sent_stderr@
    }

    fn write_stdout(&mut self, text: &str) -> (r: Result<(), std::io::Error>) {
        let r = process_stdout_write(text);
        if r.is_ok() {
            self.sent_stdout = Ghost(self.sent_stdout@ + encode_utf8(text@));
        }
        r
    }

    fn write_stderr(&mut self, text: &str) -> (r: Result<(), std::io::Error>) {
        let r = process_stderr_write(text);
        if r.is_ok() {
            self.sent_stderr = Ghost(self.sent_stderr@ + encode_utf8(text@));
        }
        r
    }

    fn flush_stdout(&mut self) -> (r: Result<(), std::io::Error>) {
        process_stdout_flush()
    }

    fn flush_stderr(&mut self) -> (r: Result<(), std::io::Error>) {
        process_stderr_flush()
    }
}

/// A sink whose every operation fails.
#[derive(Debug, Clone, Copy)]
pub struct FailingOutput;

impl FrontendOutput for FailingOutput {
    open spec fn reliable(&self) -> bool {
        false
    }

    open spec fn stdout_bytes(&self) -> Seq<u8> {
        Seq::empty()
    }

    open spec fn stderr_bytes(&self) -> Seq<u8> {
        Seq::empty()
    }

    fn write_stdout(&mut self, text: &str) -> (r: Result<(), std::io::Error>)
        ensures
            r is Err,
    {
        Err(io_error("stdout write failed"))
    }

    fn write_stderr(&mut self, text: &str) -> (r: Result<(), std::io::Error>)
        ensures
            r is Err,
    {
        Err(io_error("stderr write failed"))
    }

    fn flush_stdout(&mut self) -> (r: Result<(), std::io::Error>)
        ensures
            r is Err,
    {
        Err(io_error("stdout flush failed"))
    }

    fn flush_stderr(&mut self) -> (r: Result<(), std::io::Error>)
        ensures
            r is Err,
    {
        Err(io_error("stderr flush failed"))
    }
}

} // verus!

verus! {

// ── Frontend model ──────────────────────────────────────────────────────────

/// What the frontend remembers of one tool call.
pub struct ToolView {
    pub name: Seq<char>,
    pub saw_stream_output: bool,
    pub finished: bool,
}

/// The frontend's state: the run it follows, whether assistant text has
/// been seen, the tool calls of the run by id (in the order they were first
/// seen), and whether the run's end was reported.
pub struct FrontendModel {
    pub current_run: Option<RunId>,
    pub assistant_output_started: bool,
    pub tools: Seq<(Seq<char>, ToolView)>,
    pub terminal_event_seen: bool,
}

pub open spec fn initial_model() -> FrontendModel {
    FrontendModel {
        current_run: None,
        assistant_output_started: false,
        tools: Seq::empty(),
        terminal_event_seen: false,
    }
}

/// No two tool entries share an id.
pub open spec fn distinct_ids(tools: Seq<(Seq<char>, ToolView)>) -> bool {
    forall|i: int, j: int|
        0 <= i < tools.len() && 0 <= j < tools.len() && i != j ==> tools[i].0 != tools[j].0
}

/// Position of the entry for `id`, if there is one.
pub open spec fn tool_slot(tools: Seq<(Seq<char>, ToolView)>, id: Seq<char>) -> Option<int> {
    if exists|i: int| 0 <= i < tools.len() && tools[i].0 == id {
        Some(choose|i: int| 0 <= i < tools.len() && tools[i].0 == id)
    } else {
        None
    }
}

/// The event belongs to the current run.
pub open spec fn accepts(m: FrontendModel, run: RunId) -> bool {
    m.current_run == Some(run)
}

/// The event belongs to the current run and the run has not ended.
pub open spec fn accepts_active(m: FrontendModel, run: RunId) -> bool {
    accepts(m, run) && !m.terminal_event_seen
}

pub open spec fn with_tools(m: FrontendModel, tools: Seq<(Seq<char>, ToolView)>) -> FrontendModel {
    FrontendModel {
        current_run: m.current_run,
        assistant_output_started: m.assistant_output_started,
        tools,
        terminal_event_seen: m.terminal_event_seen,
    }
}

pub open spec fn ended(m: FrontendModel) -> FrontendModel {
    FrontendModel {
        current_run: m.current_run,
        assistant_output_started: m.assistant_output_started,
        tools: m.tools,
        terminal_event_seen: true,
    }
}

/// Mark the tool at `i` as having streamed output.
pub open spec fn mark_streamed(tools: Seq<(Seq<char>, ToolView)>, i: int) -> Seq<(Seq<char>, ToolView)> {
    tools.update(
        i,
        (tools[i].0, ToolView { name: tools[i].1.name, saw_stream_output: true, finished: tools[i].1.finished }),
    )
}

/// Mark the tool at `i` as finished.
pub open spec fn mark_finished(tools: Seq<(Seq<char>, ToolView)>, i: int) -> Seq<(Seq<char>, ToolView)> {
    tools.update(
        i,
        (
            tools[i].0,
            ToolView {
                name: tools[i].1.name,
                saw_stream_output: tools[i].1.saw_stream_output,
                finished: true,
            },
        ),
    )
}

/// The state after `e`; `written` tells whether every write the event
/// made succeeded (a tool is only recorded as started once its
/// announcement was written).
pub open spec fn next_state(m: FrontendModel, e: AgentEvent, written: bool) -> FrontendModel {
    match e {
        AgentEvent::RunStarted { run_id } => FrontendModel {
            current_run: Some(run_id),
            assistant_output_started: false,
            tools: Seq::empty(),
            terminal_event_seen: false,
        },
        AgentEvent::TextDelta { run_id, .. } => if accepts_active(m, run_id) {
            FrontendModel {
                current_run: m.current_run,
                assistant_output_started: true,
                tools: m.tools,
                terminal_event_seen: m.terminal_event_seen,
            }
        } else {
            m
        },
        AgentEvent::ToolStarted { run_id, tool_call_id, name, .. } => if accepts_active(m, run_id)
            && tool_slot(m.tools, tool_call_id@) is None && written {
            with_tools(
                m,
                m.tools.push(
                    (tool_call_id@, ToolView { name: name@, saw_stream_output: false, finished: false }),
                ),
            )
        } else {
            m
        },
        AgentEvent::ToolOutput { run_id, tool_call_id, .. } => if accepts_active(m, run_id) {
            match tool_slot(m.tools, tool_call_id@) {
                Some(i) => if !m.tools[i].1.finished {
                    with_tools(m, mark_streamed(m.tools, i))
                } else {
                    m
                },
                None => m,
            }
        } else {
            m
        },
        AgentEvent::ToolFinished { run_id, tool_call_id, name, .. } => if accepts_active(m, run_id) {
            match tool_slot(m.tools, tool_call_id@) {
                Some(i) => if m.tools[i].1.finished {
                    m
                } else {
                    with_tools(m, mark_finished(m.tools, i))
                },
                None => with_tools(
                    m,
                    m.tools.push(
                        (tool_call_id@, ToolView { name: name@, saw_stream_output: false, finished: true }),
                    ),
                ),
            }
        } else {
            m
        },
        AgentEvent::RunAborted { run_id } => if accepts(m, run_id) {
            ended(m)
        } else {
            m
        },
        AgentEvent::RunFailed { run_id, .. } => if accepts(m, run_id) {
            ended(m)
        } else {
            m
        },
        AgentEvent::RunFinished { run_id, .. } => if accepts(m, run_id) {
            ended(m)
        } else {
            m
        },
        _ => m,
    }
}

/// Whether handling `e` in state `m` uses the output sink at all.
pub open spec fn touches_sink(m: FrontendModel, e: AgentEvent) -> bool {
    match e {
        AgentEvent::RunStarted { .. } => false,
        AgentEvent::TextDelta { run_id, .. } => accepts_active(m, run_id),
        AgentEvent::ThinkingDelta { run_id, .. } => accepts_active(m, run_id),
        AgentEvent::ToolStarted { run_id, tool_call_id, .. } => accepts_active(m, run_id)
            && tool_slot(m.tools, tool_call_id@) is None,
        AgentEvent::ToolOutput { run_id, tool_call_id, .. } => accepts_active(m, run_id)
            && match tool_slot(m.tools, tool_call_id@) {
            Some(i) => !m.tools[i].1.finished,
            None => false,
        },
        AgentEvent::ToolFinished { run_id, tool_call_id, .. } => accepts_active(m, run_id)
            && match tool_slot(m.tools, tool_call_id@) {
            Some(i) => !m.tools[i].1.finished,
            None => true,
        },
        AgentEvent::ProviderError { run_id, .. } => accepts_active(m, run_id),
        AgentEvent::RunAborted { run_id } => accepts(m, run_id) && !m.terminal_event_seen,
        AgentEvent::RunFailed { run_id, .. } => accepts(m, run_id) && !m.terminal_event_seen,
        AgentEvent::RunFinished { run_id, stop_reason } => accepts(m, run_id)
            && !m.terminal_event_seen && stop_reason == StopReason::Length,
    }
}

// ── Rendered text ───────────────────────────────────────────────────────────

/// The text of the first text content, if any.
pub open spec fn first_text(content: Seq<Content>) -> Option<Seq<char>>
    decreases content.len(),
{
    if content.len() == 0 {
        None
    } else {
        match content[0] {
            Content::Text { text } => Some(text@),
            _ => first_text(content.drop_first()),
        }
    }
}

/// First line of the first text content (empty when there is none).
pub open spec fn first_line(result: AgentToolResult) -> Seq<char> {
    match first_text(result.content@) {
        Some(t) => if lines(t).len() > 0 {
            lines(t)[0]
        } else {
            Seq::empty()
        },
        None => Seq::empty(),
    }
}

/// The exit code, when it is present and not zero.
pub open spec fn nonzero_exit(result: AgentToolResult) -> Option<i32> {
    match result.exit_code {
        Some(c) => if c != 0 {
            Some(c)
        } else {
            None
        },
        None => None,
    }
}

/// A tool call failed: an error result, a non-zero exit code, a timeout
/// or an abort.
pub open spec fn is_failure(result: AgentToolResult) -> bool {
    result.is_error || nonzero_exit(result) is Some || result.timed_out || result.aborted
}

/// Decimal text of a signed integer.
pub open spec fn signed_decimal(c: int) -> Seq<char> {
    if c < 0 {
        "-"@ + decimal((-c) as nat)
    } else {
        decimal(c as nat)
    }
}

/// Status of a failed tool call; abort wins over timeout, timeout over an
/// exit code.
pub open spec fn failure_status(name: Seq<char>, result: AgentToolResult, dur: Seq<char>) -> Seq<char> {
    if result.aborted {
        "  ⏹ "@ + name + " aborted"@ + dur
    } else if result.timed_out {
        "  ⏰ "@ + name + " timed out"@ + dur
    } else {
        match nonzero_exit(result) {
            Some(c) => "  ❌ "@ + name + " exit code "@ + signed_decimal(c as int) + dur,
            None => "  ❌ "@ + name + " error"@ + dur,
        }
    }
}

/// The completion line of a tool call. After streamed output only the
/// status is shown; otherwise the first line of the result, at most 80
/// characters, follows it.
pub open spec fn finished_text(
    name: Seq<char>,
    result: AgentToolResult,
    saw_stream: bool,
    dur: Seq<char>,
) -> Seq<char> {
    if saw_stream {
        if is_failure(result) {
            failure_status(name, result, dur) + "\n"@
        } else {
            "  ✅ "@ + name + " done"@ + dur + "\n"@
        }
    } else if is_failure(result) {
        let line = first_line(result);
        let shown = if line.len() == 0 {
            "unknown error"@
        } else {
            line
        };
        failure_status(name, result, dur) + " — "@ + preview(shown, 80) + "\n"@
    } else {
        let line = first_line(result);
        if line.len() > 0 {
            "  ✅ "@ + name + dur + ": "@ + preview(line, 80) + "\n"@
        } else {
            "  ✅ "@ + name + " done"@ + dur + "\n"@
        }
    }
}

/// Tool arguments as shown after the tool name: nothing for an empty
/// object, else a space and the JSON text.
pub open spec fn args_part(arguments: Seq<char>) -> Seq<char> {
    if arguments == "{}"@ {
        Seq::empty()
    } else {
        " "@ + arguments
    }
}

/// What a tool completion writes: nothing when it was already summarised;
/// the completion line, with the elapsed time `dur`, when it was seen
/// starting; and the completion line without a time otherwise.
pub open spec fn finished_stderr(
    tools: Seq<(Seq<char>, ToolView)>,
    id: Seq<char>,
    name: Seq<char>,
    result: AgentToolResult,
    dur: Seq<char>,
) -> Seq<char> {
    match tool_slot(tools, id) {
        Some(i) => if tools[i].1.finished {
            Seq::empty()
        } else {
            finished_text(name, result, tools[i].1.saw_stream_output, dur)
        },
        None => finished_text(name, result, false, Seq::empty()),
    }
}

pub open spec fn run_failed_text(error: AgentRunError) -> Seq<char> {
    "\n❌ Run failed ["@ + phase_label(error.phase) + "]: "@ + error.message@ + "\n"@
}

/// What `e` writes to stdout in state `m`.
pub open spec fn stdout_text(m: FrontendModel, e: AgentEvent) -> Seq<char> {
    match e {
        AgentEvent::TextDelta { run_id, text } => if accepts_active(m, run_id) {
            text@
        } else {
            Seq::empty()
        },
        _ => Seq::empty(),
    }
}

/// What `e` writes to stderr in state `m`; `dur` is the elapsed-time text
/// of a tool that finishes after it was seen starting.
pub open spec fn stderr_text(m: FrontendModel, e: AgentEvent, dur: Seq<char>) -> Seq<char> {
    if !touches_sink(m, e) {
        Seq::empty()
    } else {
        match e {
            AgentEvent::ThinkingDelta { text, .. } => "[thinking] "@ + text@,
            AgentEvent::ToolStarted { name, arguments, .. } => "\n⚙ "@ + name@ + args_part(
                arguments@,
            ) + "\n"@,
            AgentEvent::ToolOutput { chunk, .. } => chunk@,
            AgentEvent::ToolFinished { tool_call_id, name, result, .. } => finished_stderr(
                m.tools,
                tool_call_id@,
                name@,
                result,
                dur,
            ),
            AgentEvent::ProviderError { error, .. } => "\n❌ Provider error: "@ + error.message@,
            AgentEvent::RunAborted { .. } => "\n⏹ Run aborted\n"@,
            AgentEvent::RunFailed { error, .. } => run_failed_text(error),
            AgentEvent::RunFinished { .. } => "\n⚠ Response truncated (length limit)\n"@,
            _ => Seq::empty(),
        }
    }
}

/// One line of the session listing.
pub open spec fn session_line(s: SessionSummary) -> Seq<char> {
    "  "@ + s.id@ + " | model: "@ + s.model@ + " | msgs: "@ + decimal(s.msg_count as nat)
        + " | created: "@ + s.created@ + "\n"@
}

pub open spec fn session_lines(ss: Seq<SessionSummary>) -> Seq<char>
    decreases ss.len(),
{
    if ss.len() == 0 {
        Seq::empty()
    } else {
        session_lines(ss.drop_last()) + session_line(ss.last())
    }
}

pub open spec fn sessions_text(ss: Seq<SessionSummary>) -> Seq<char> {
    if ss.len() == 0 {
        "No sessions found.\n"@
    } else {
        "Available sessions:\n"@ + session_lines(ss)
    }
}

/// What a command result writes to stdout.
pub open spec fn command_stdout(r: CommandResult) -> Seq<char> {
    match r {
        CommandResult::Message(m) => m@ + "\n"@,
        CommandResult::Error(_) => Seq::empty(),
        CommandResult::Help(items) => help_listing(
            items@.map_values(|item: crate::command::CommandHelpItem| item_view(item)),
        ),
        CommandResult::ModelChanged { model } => "Switched to "@ + model@ + "\n"@,
        CommandResult::Sessions { sessions, .. } => sessions_text(sessions@),
    }
}

/// What a command result writes to stderr.
pub open spec fn command_stderr(r: CommandResult) -> Seq<char> {
    match r {
        CommandResult::Error(m) => m@ + "\n"@,
        _ => Seq::empty(),
    }
}

pub proof fn lemma_encode_utf8_concat(a: Seq<char>, b: Seq<char>)
    ensures
        encode_utf8(a + b) == encode_utf8(a) + encode_utf8(b),
    decreases a.len(),
{
    if a.len() == 0 {
        assert(a + b =~= b);
        assert(encode_utf8(a) =~= Seq::<u8>::empty());
        assert(encode_utf8(a) + encode_utf8(b) =~= encode_utf8(b));
    } else {
        lemma_encode_utf8_concat(a.drop_first(), b);
        assert((a + b).drop_first() =~= a.drop_first() + b);
        assert((a + b)[0] == a[0]);
        assert(encode_utf8(a + b) =~= encode_utf8(a) + encode_utf8(b));
    }
}

} // verus!

verus! {

// ── Text builders ───────────────────────────────────────────────────────────

pub(crate) fn append_signed(out: &mut Vec<char>, c: i32)
    ensures
        final(out)@ == old(out)@ + signed_decimal(c as int),
{
    if c < 0 {
        out.push('-');
        let wide: i64 = c as i64;
        let n: u64 = (0i64 - wide) as u64;
        assert(n as int == -(c as int));
        append_decimal(out, n);
        proof {
            reveal_strlit("-");
        }
        assert(out@ =~= old(out)@ + signed_decimal(c as int));
    } else {
        append_decimal(out, c as u64);
    }
}

/// First text content, as characters.
fn first_text_chars(content: &Vec<Content>) -> (r: Option<Vec<char>>)
    ensures
        match first_text(content@) {
            Some(t) => r matches Some(v) && v@ == t,
            None => r is None,
        },
{
    let mut i: usize = 0;
    assert(content@.skip(0) =~= content@);
    while i < content.len()
        invariant
            0 <= i <= content@.len(),
            first_text(content@) == first_text(content@.skip(i as int)),
        decreases content@.len() - i,
    {
        assert(content@.skip(i as int)[0] == content@[i as int]);
        assert(content@.skip(i as int).drop_first() =~= content@.skip(i + 1));
        match &content[i] {
            Content::Text { text } => {
                return Some(chars_of(text.as_str()));
            },
            _ => {},
        }
        i = i + 1;
    }
    assert(content@.skip(i as int).len() == 0);
    None
}

/// First line of the first text content.
fn first_line_chars(result: &AgentToolResult) -> (v: Vec<char>)
    ensures
        v@ == first_line(*result),
{
    match first_text_chars(&result.content) {
        Some(t) => {
            let ls = lines_exec(t.as_slice());
            if ls.len() > 0 {
                let first = &ls[0];
                let mut v: Vec<char> = Vec::new();
                append(&mut v, first.as_slice());
                v
            } else {
                Vec::new()
            }
        },
        None => Vec::new(),
    }
}

fn append_failure_status(out: &mut Vec<char>, name: &str, result: &AgentToolResult, dur: &str)
    ensures
        final(out)@ == old(out)@ + failure_status(name@, *result, dur@),
{
    if result.aborted {
        append_str(out, "  ⏹ ");
        append_str(out, name);
        append_str(out, " aborted");
    } else if result.timed_out {
        append_str(out, "  ⏰ ");
        append_str(out, name);
        append_str(out, " timed out");
    } else {
        let code: Option<i32> = match result.exit_code {
            Some(c) => if c != 0 {
                Some(c)
            } else {
                None
            },
            None => None,
        };
        match code {
            Some(c) => {
                append_str(out, "  ❌ ");
                append_str(out, name);
                append_str(out, " exit code ");
                append_signed(out, c);
            },
            None => {
                append_str(out, "  ❌ ");
                append_str(out, name);
                append_str(out, " error");
            },
        }
    }
    append_str(out, dur);
    assert(out@ =~= old(out)@ + failure_status(name@, *result, dur@));
}

/// The completion line of a tool call named `name` that returned `result`;
/// `saw_stream_output` tells whether its output was streamed, and
/// `duration` is the elapsed-time text (empty when unknown).
pub fn tool_finished_summary(
    name: &str,
    result: &AgentToolResult,
    saw_stream_output: bool,
    duration: &str,
) -> (s: String)
    ensures
        s@ == finished_text(name@, *result, saw_stream_output, duration@),
{
    let failure = result.is_error || (match result.exit_code {
        Some(c) => c != 0,
        None => false,
    }) || result.timed_out || result.aborted;
    assert(failure == is_failure(*result));
    let mut out: Vec<char> = Vec::new();
    if saw_stream_output {
        if failure {
            append_failure_status(&mut out, name, result, duration);
            append_str(&mut out, "\n");
        } else {
            append_str(&mut out, "  ✅ ");
            append_str(&mut out, name);
            append_str(&mut out, " done");
            append_str(&mut out, duration);
            append_str(&mut out, "\n");
        }
    } else if failure {
        let line = first_line_chars(result);
        let shown = if line.len() == 0 {
            proof {
                reveal_strlit("unknown error");
            }
            truncate_preview("unknown error", 80)
        } else {
            let l = string_from_chars(line.as_slice());
            truncate_preview(l.as_str(), 80)
        };
        append_failure_status(&mut out, name, result, duration);
        append_str(&mut out, " — ");
        append_str(&mut out, shown.as_str());
        append_str(&mut out, "\n");
    } else {
        let line = first_line_chars(result);
        if line.len() > 0 {
            let l = string_from_chars(line.as_slice());
            let shown = truncate_preview(l.as_str(), 80);
            append_str(&mut out, "  ✅ ");
            append_str(&mut out, name);
            append_str(&mut out, duration);
            append_str(&mut out, ": ");
            append_str(&mut out, shown.as_str());
            append_str(&mut out, "\n");
        } else {
            append_str(&mut out, "  ✅ ");
            append_str(&mut out, name);
            append_str(&mut out, " done");
            append_str(&mut out, duration);
            append_str(&mut out, "\n");
        }
    }
    assert(out@ =~= finished_text(name@, *result, saw_stream_output, duration@));
    string_from_chars(out.as_slice())
}

/// Character-count truncation that never splits a character: text longer
/// than `max_chars` keeps its first `max_chars - 3` characters and gains
/// `...` (or just its first `max_chars` when that leaves no room).
pub fn truncate_chars(text: &str, max_chars: usize) -> (r: String)
    ensures
        r@ == preview(text@, max_chars as nat),
{
    truncate_preview(text, max_chars)
}

fn tool_started_text(name: &str, arguments: &str) -> (s: String)
    ensures
        s@ == "\n⚙ "@ + name@ + args_part(arguments@) + "\n"@,
{
    let mut out: Vec<char> = Vec::new();
    append_str(&mut out, "\n⚙ ");
    append_str(&mut out, name);
    let a = chars_of(arguments);
    let empty_object = chars_eq_str(a.as_slice(), "{}");
    if !empty_object {
        append_str(&mut out, " ");
        append(&mut out, a.as_slice());
    }
    assert(out@ =~= "\n⚙ "@ + name@ + args_part(arguments@) + "\n"@.take(0));
    append_str(&mut out, "\n");
    assert(out@ =~= "\n⚙ "@ + name@ + args_part(arguments@) + "\n"@);
    string_from_chars(out.as_slice())
}

fn run_failed_line(error: &AgentRunError) -> (s: String)
    ensures
        s@ == run_failed_text(*error),
{
    let mut out: Vec<char> = Vec::new();
    append_str(&mut out, "\n❌ Run failed [");
    append_str(&mut out, error.phase.label());
    append_str(&mut out, "]: ");
    append_str(&mut out, error.message.as_str());
    append_str(&mut out, "\n");
    assert(out@ =~= run_failed_text(*error));
    string_from_chars(out.as_slice())
}

fn concat2(a: &str, b: &str) -> (s: String)
    ensures
        s@ == a@ + b@,
{
    let mut out: Vec<char> = Vec::new();
    append_str(&mut out, a);
    append_str(&mut out, b);
    string_from_chars(out.as_slice())
}

} // verus!

verus! {

// ── The frontend ────────────────────────────────────────────────────────────

/// Per-tool state tracked by the frontend.
#[derive(Debug)]
pub struct ToolState {
    /// Tool name.
    pub name: String,
    /// When the tool started executing.
    pub started_at: std::time::Instant,
    /// Whether streaming output was observed for this tool.
    pub saw_stream_output: bool,
    /// Whether the completion of this tool has been rendered.
    pub finished: bool,
}

pub open spec fn tool_view(t: ToolState) -> ToolView {
    ToolView { name: t.name@, saw_stream_output: t.saw_stream_output, finished: t.finished }
}

pub open spec fn tools_view(entries: Seq<(String, ToolState)>) -> Seq<(Seq<char>, ToolView)> {
    entries.map_values(|e: (String, ToolState)| (e.0@, tool_view(e.1)))
}

fn emit_stdout<O: FrontendOutput>(out: &mut O, text: &str) -> (r: Result<(), std::io::Error>)
    ensures
        old(out).reliable() ==> r is Ok,
        final(out).reliable() == old(out).reliable(),
        r is Ok ==> final(out).stdout_bytes() == old(out).stdout_bytes() + encode_utf8(text@),
        r is Ok ==> final(out).stderr_bytes() == old(out).stderr_bytes(),
{
    match out.write_stdout(text) {
        Ok(()) => {},
        Err(e) => {
            return Err(e);
        },
    }
    out.flush_stdout()
}

fn emit_stderr<O: FrontendOutput>(out: &mut O, text: &str) -> (r: Result<(), std::io::Error>)
    ensures
        old(out).reliable() ==> r is Ok,
        final(out).reliable() == old(out).reliable(),
        r is Ok ==> final(out).stderr_bytes() == old(out).stderr_bytes() + encode_utf8(text@),
        r is Ok ==> final(out).stdout_bytes() == old(out).stdout_bytes(),
{
    match out.write_stderr(text) {
        Ok(()) => {},
        Err(e) => {
            return Err(e);
        },
    }
    out.flush_stderr()
}

/// A frontend that consumes [`AgentEvent`]s and writes to an output sink.
///
/// It drops events of other runs, reports a run's end once, announces each
/// tool call once and summarises it once, and keeps assistant text on
/// stdout and everything else on stderr.
pub struct PrintFrontend<O: FrontendOutput> {
    output: O,
    current_run_id: Option<RunId>,
    assistant_output_started: bool,
    tool_states: Vec<(String, ToolState)>,
    terminal_event_seen: bool,
}

impl<O: FrontendOutput> PrintFrontend<O> {
    pub closed spec fn model(&self) -> FrontendModel {
        FrontendModel {
            current_run: self.current_run_id,
            assistant_output_started: self.assistant_output_started,
            tools: tools_view(self.tool_states@),
            terminal_event_seen: self.terminal_event_seen,
        }
    }

    /// The output sink.
    pub closed spec fn sink(&self) -> O {
        self.output
    }

    pub open spec fn wf(&self) -> bool {
        distinct_ids(self.model().tools)
    }

    /// A frontend writing to `output`, following no run yet.
    pub fn with_output(output: O) -> (f: Self)
        ensures
            f.wf(),
            f.model() == initial_model(),
            f.sink() == output,
    {
        let f = PrintFrontend {
            output,
            current_run_id: None,
            assistant_output_started: false,
            tool_states: Vec::new(),
            terminal_event_seen: false,
        };
        assert(tools_view(f.tool_states@) =~= Seq::empty());
        f
    }

    /// The output sink.
    pub fn output(&self) -> (o: &O)
        ensures
            *o == self.sink(),
    {
        &self.output
    }

    fn accepts_run(&self, run_id: RunId) -> (b: bool)
        ensures
            b == accepts(self.model(), run_id),
    {
        match self.current_run_id {
            Some(r) => r.0 == run_id.0,
            None => false,
        }
    }

    fn accepts_active_run(&self, run_id: RunId) -> (b: bool)
        ensures
            b == accepts_active(self.model(), run_id),
    {
        self.accepts_run(run_id) && !self.terminal_event_seen
    }

    fn find_tool(&self, id: &str) -> (r: Option<usize>)
        requires
            self.wf(),
        ensures
            r is Some ==> tool_slot(self.model().tools, id@) == Some(r.unwrap() as int) && r.unwrap()
                < self.tool_states@.len(),
            r is None ==> tool_slot(self.model().tools, id@) is None,
    {
        let ghost tools = self.model().tools;
        let idc = chars_of(id);
        let mut i: usize = 0;
        while i < self.tool_states.len()
            invariant
                0 <= i <= self.tool_states@.len(),
                tools == tools_view(self.tool_states@),
                distinct_ids(tools),
                idc@ == id@,
                forall|k: int| 0 <= k < i ==> tools[k].0 != id@,
            decreases self.tool_states@.len() - i,
        {
            let kc = chars_of(self.tool_states[i].0.as_str());
            if chars_eq(kc.as_slice(), idc.as_slice()) {
                proof {
                    assert(tools[i as int].0 == id@);
                    let j = choose|j: int| 0 <= j < tools.len() && tools[j].0 == id@;
                    assert(j == i);
                }
                return Some(i);
            }
            i = i + 1;
        }
        None
    }

    fn tool_started(&mut self, tool_call_id: &String, name: &String, arguments: &String) -> (r: Result<
        (),
        std::io::Error,
    >)
        requires
            old(self).wf(),
        ensures
            old(self).sink().reliable() ==> r is Ok,
            final(self).sink().reliable() == old(self).sink().reliable(),
            final(self).wf(),
            final(self).model() == if tool_slot(old(self).model().tools, tool_call_id@) is None
                && r is Ok {
                with_tools(
                    old(self).model(),
                    old(self).model().tools.push(
                        (tool_call_id@, ToolView { name: name@, saw_stream_output: false, finished: false }),
                    ),
                )
            } else {
                old(self).model()
            },
            tool_slot(old(self).model().tools, tool_call_id@) is Some ==> r is Ok && final(self).sink()
                == old(self).sink(),
            r is Ok ==> final(self).sink().stdout_bytes() == old(self).sink().stdout_bytes(),
            r is Ok ==> final(self).sink().stderr_bytes() == old(self).sink().stderr_bytes()
                + encode_utf8(
                if tool_slot(old(self).model().tools, tool_call_id@) is None {
                    "\n⚙ "@ + name@ + args_part(arguments@) + "\n"@
                } else {
                    Seq::empty()
                },
            ),
    {
        let found = self.find_tool(tool_call_id.as_str());
        if found.is_some() {
            assert(encode_utf8(Seq::<char>::empty()) =~= Seq::<u8>::empty());
            assert(old(self).sink().stderr_bytes() + Seq::<u8>::empty() =~= old(self).sink().stderr_bytes());
            return Ok(());
        }
        let text = tool_started_text(name.as_str(), arguments.as_str());
        match emit_stderr(&mut self.output, text.as_str()) {
            Ok(()) => {},
            Err(e) => {
                return Err(e);
            },
        }
        let state = ToolState {
            name: name.clone(),
            started_at: clock_now(),
            saw_stream_output: false,
            finished: false,
        };
        let ghost before = self.tool_states@;
        self.tool_states.push((tool_call_id.clone(), state));
        proof {
            let new_tools = old(self).model().tools.push(
                (tool_call_id@, ToolView { name: name@, saw_stream_output: false, finished: false }),
            );
            assert(tools_view(self.tool_states@) =~= new_tools);
            assert forall|i: int, j: int|
                0 <= i < new_tools.len() && 0 <= j < new_tools.len() && i != j implies new_tools[i].0
                != new_tools[j].0 by {
                if i == new_tools.len() - 1 && j < new_tools.len() - 1 {
                    assert(new_tools[j] == old(self).model().tools[j]);
                }
                if j == new_tools.len() - 1 && i < new_tools.len() - 1 {
                    assert(new_tools[i] == old(self).model().tools[i]);
                }
            }
        }
        Ok(())
    }

    fn tool_output(&mut self, tool_call_id: &String, chunk: &String) -> (r: Result<(), std::io::Error>)
        requires
            old(self).wf(),
        ensures
            old(self).sink().reliable() ==> r is Ok,
            final(self).sink().reliable() == old(self).sink().reliable(),
            final(self).wf(),
            final(self).model() == match tool_slot(old(self).model().tools, tool_call_id@) {
                Some(i) => if !old(self).model().tools[i].1.finished {
                    with_tools(old(self).model(), mark_streamed(old(self).model().tools, i))
                } else {
                    old(self).model()
                },
                None => old(self).model(),
            },
            !(match tool_slot(old(self).model().tools, tool_call_id@) {
                Some(i) => !old(self).model().tools[i].1.finished,
                None => false,
            }) ==> r is Ok && final(self).sink() == old(self).sink(),
            r is Ok ==> final(self).sink().stdout_bytes() == old(self).sink().stdout_bytes(),
            r is Ok ==> final(self).sink().stderr_bytes() == old(self).sink().stderr_bytes()
                + encode_utf8(
                match tool_slot(old(self).model().tools, tool_call_id@) {
                    Some(i) => if !old(self).model().tools[i].1.finished {
                        chunk@
                    } else {
                        Seq::empty()
                    },
                    None => Seq::empty(),
                },
            ),
    {
        proof {
            assert(encode_utf8(Seq::<char>::empty()) =~= Seq::<u8>::empty());
            assert(old(self).sink().stderr_bytes() + Seq::<u8>::empty() =~= old(self).sink().stderr_bytes());
        }
        let found = self.find_tool(tool_call_id.as_str());
        match found {
            None => Ok(()),
            Some(i) => {
                assert(old(self).model().tools[i as int].1.finished
                    == self.tool_states@[i as int].1.finished);
                if self.tool_states[i].1.finished {
                    return Ok(());
                }
                let key = self.tool_states[i].0.clone();
                let updated = ToolState {
                    name: self.tool_states[i].1.name.clone(),
                    started_at: self.tool_states[i].1.started_at,
                    saw_stream_output: true,
                    finished: false,
                };
                self.tool_states.set(i, (key, updated));
                proof {
                    let old_tools = old(self).model().tools;
                    let new_tools = mark_streamed(old_tools, i as int);
                    assert(tools_view(self.tool_states@) =~= new_tools);
                    assert forall|k: int| 0 <= k < new_tools.len() implies new_tools[k].0
                        == old_tools[k].0 by {}
                }
                emit_stderr(&mut self.output, chunk.as_str())
            },
        }
    }

    fn tool_finished(&mut self, tool_call_id: &String, name: &String, result: &AgentToolResult) -> (r:
        Result<(), std::io::Error>)
        requires
            old(self).wf(),
        ensures
            old(self).sink().reliable() ==> r is Ok,
            final(self).sink().reliable() == old(self).sink().reliable(),
            final(self).wf(),
            final(self).model() == match tool_slot(old(self).model().tools, tool_call_id@) {
                Some(i) => if old(self).model().tools[i].1.finished {
                    old(self).model()
                } else {
                    with_tools(old(self).model(), mark_finished(old(self).model().tools, i))
                },
                None => with_tools(
                    old(self).model(),
                    old(self).model().tools.push(
                        (tool_call_id@, ToolView { name: name@, saw_stream_output: false, finished: true }),
                    ),
                ),
            },
            (match tool_slot(old(self).model().tools, tool_call_id@) {
                Some(i) => old(self).model().tools[i].1.finished,
                None => false,
            }) ==> r is Ok && final(self).sink() == old(self).sink(),
            r is Ok ==> final(self).sink().stdout_bytes() == old(self).sink().stdout_bytes(),
            r is Ok ==> exists|d: Seq<char>|
                final(self).sink().stderr_bytes() == old(self).sink().stderr_bytes() + encode_utf8(
                    #[trigger] finished_stderr(old(self).model().tools, tool_call_id@, name@, *result, d),
                ),
    {
        proof {
            assert(encode_utf8(Seq::<char>::empty()) =~= Seq::<u8>::empty());
            assert(old(self).sink().stderr_bytes() + Seq::<u8>::empty() =~= old(self).sink().stderr_bytes());
        }
        let ghost old_tools = old(self).model().tools;
        let found = self.find_tool(tool_call_id.as_str());
        let saw: bool;
        let duration: String;
        match found {
            Some(i) => {
                assert(old_tools[i as int].1.finished == self.tool_states@[i as int].1.finished);
                if self.tool_states[i].1.finished {
                    assert(finished_stderr(old_tools, tool_call_id@, name@, *result, Seq::empty())
                        == Seq::<char>::empty());
                    return Ok(());
                }
                saw = self.tool_states[i].1.saw_stream_output;
                duration = elapsed_suffix(&self.tool_states[i].1.started_at);
                let key = self.tool_states[i].0.clone();
                let updated = ToolState {
                    name: self.tool_states[i].1.name.clone(),
                    started_at: self.tool_states[i].1.started_at,
                    saw_stream_output: self.tool_states[i].1.saw_stream_output,
                    finished: true,
                };
                self.tool_states.set(i, (key, updated));
                proof {
                    let new_tools = mark_finished(old_tools, i as int);
                    assert(tools_view(self.tool_states@) =~= new_tools);
                    assert forall|k: int| 0 <= k < new_tools.len() implies new_tools[k].0
                        == old_tools[k].0 by {}
                }
            },
            None => {
                saw = false;
                duration = String::new();
                let state = ToolState {
                    name: name.clone(),
                    started_at: clock_now(),
                    saw_stream_output: false,
                    finished: true,
                };
                self.tool_states.push((tool_call_id.clone(), state));
                proof {
                    let new_tools = old_tools.push(
                        (tool_call_id@, ToolView { name: name@, saw_stream_output: false, finished: true }),
                    );
                    assert(tools_view(self.tool_states@) =~= new_tools);
                    assert forall|a: int, b: int|
                        0 <= a < new_tools.len() && 0 <= b < new_tools.len() && a != b implies new_tools[a].0
                        != new_tools[b].0 by {
                        if a == new_tools.len() - 1 && b < new_tools.len() - 1 {
                            assert(new_tools[b] == old_tools[b]);
                        }
                        if b == new_tools.len() - 1 && a < new_tools.len() - 1 {
                            assert(new_tools[a] == old_tools[a]);
                        }
                    }
                }
            },
        }
        let text = tool_finished_summary(name.as_str(), result, saw, duration.as_str());
        let r = emit_stderr(&mut self.output, text.as_str());
        proof {
            assert(text@ == finished_stderr(old_tools, tool_call_id@, name@, *result, duration@));
        }
        r
    }

    /// Process one agent event.
    ///
    /// Events of another run are ignored, and so is everything but the
    /// run's end after the run has ended. A run's end (abort, failure,
    /// finish) is reported once; a tool is announced once and summarised
    /// once, and its output is dropped once it was summarised.
    pub fn handle_event(&mut self, event: &AgentEvent) -> (r: Result<(), std::io::Error>)
        requires
            old(self).wf(),
        ensures
            old(self).sink().reliable() ==> r is Ok,
            final(self).sink().reliable() == old(self).sink().reliable(),
            final(self).wf(),
            final(self).model() == next_state(old(self).model(), *event, r is Ok),
            !touches_sink(old(self).model(), *event) ==> r is Ok && final(self).sink() == old(
                self,
            ).sink(),
            r is Ok ==> final(self).sink().stdout_bytes() == old(self).sink().stdout_bytes()
                + encode_utf8(stdout_text(old(self).model(), *event)),
            r is Ok ==> exists|d: Seq<char>|
                final(self).sink().stderr_bytes() == old(self).sink().stderr_bytes() + encode_utf8(
                    #[trigger] stderr_text(old(self).model(), *event, d),
                ),
    {
        let ghost m = old(self).model();
        let ghost e = *event;
        let ghost none = Seq::<char>::empty();
        proof {
            assert(encode_utf8(Seq::<char>::empty()) =~= Seq::<u8>::empty());
            assert(old(self).sink().stderr_bytes() + Seq::<u8>::empty() =~= old(self).sink().stderr_bytes());
            assert(old(self).sink().stdout_bytes() + Seq::<u8>::empty() =~= old(self).sink().stdout_bytes());
        }
        match event {
            AgentEvent::RunStarted { run_id } => {
                self.current_run_id = Some(*run_id);
                self.assistant_output_started = false;
                self.tool_states.clear();
                self.terminal_event_seen = false;
                proof {
                    assert(tools_view(self.tool_states@) =~= Seq::empty());
                    assert(stderr_text(m, e, none) == none);
                }
                Ok(())
            },
            AgentEvent::TextDelta { run_id, text } => {
                assert(stderr_text(m, e, none) == none);
                if !self.accepts_active_run(*run_id) {
                    return Ok(());
                }
                self.assistant_output_started = true;
                emit_stdout(&mut self.output, text.as_str())
            },
            AgentEvent::ThinkingDelta { run_id, text } => {
                if !self.accepts_active_run(*run_id) {
                    assert(stderr_text(m, e, none) == none);
                    return Ok(());
                }
                proof {
                    reveal_strlit("[thinking] ");
                }
                let line = concat2("[thinking] ", text.as_str());
                assert(stderr_text(m, e, none) == line@);
                emit_stderr(&mut self.output, line.as_str())
            },
            AgentEvent::ToolStarted { run_id, tool_call_id, name, arguments } => {
                if !self.accepts_active_run(*run_id) {
                    assert(stderr_text(m, e, none) == none);
                    return Ok(());
                }
                let r = self.tool_started(tool_call_id, name, arguments);
                proof {
                    if tool_slot(m.tools, tool_call_id@) is None {
                        assert(stderr_text(m, e, none) == "\n⚙ "@ + name@ + args_part(arguments@)
                            + "\n"@);
                    } else {
                        assert(stderr_text(m, e, none) == none);
                    }
                }
                r
            },
            AgentEvent::ToolOutput { run_id, tool_call_id, chunk, .. } => {
                if !self.accepts_active_run(*run_id) {
                    assert(stderr_text(m, e, none) == none);
                    return Ok(());
                }
                let r = self.tool_output(tool_call_id, chunk);
                proof {
                    match tool_slot(m.tools, tool_call_id@) {
                        Some(i) => if !m.tools[i].1.finished {
                            assert(stderr_text(m, e, none) == chunk@);
                        } else {
                            assert(stderr_text(m, e, none) == none);
                        },
                        None => {
                            assert(stderr_text(m, e, none) == none);
                        },
                    }
                }
                r
            },
            AgentEvent::ToolFinished { run_id, tool_call_id, name, result } => {
                if !self.accepts_active_run(*run_id) {
                    assert(stderr_text(m, e, none) == none);
                    return Ok(());
                }
                let r = self.tool_finished(tool_call_id, name, result);
                proof {
                    if r is Ok {
                        let d0 = choose|d: Seq<char>|
                            self.sink().stderr_bytes() == old(self).sink().stderr_bytes() + encode_utf8(
                                #[trigger] finished_stderr(m.tools, tool_call_id@, name@, *result, d),
                            );
                        assert(stderr_text(m, e, d0) == finished_stderr(
                            m.tools,
                            tool_call_id@,
                            name@,
                            *result,
                            d0,
                        ));
                    }
                }
                r
            },
            AgentEvent::ProviderError { run_id, error } => {
                if !self.accepts_active_run(*run_id) {
                    assert(stderr_text(m, e, none) == none);
                    return Ok(());
                }
                let line = concat2("\n❌ Provider error: ", error.message.as_str());
                assert(stderr_text(m, e, none) == line@);
                emit_stderr(&mut self.output, line.as_str())
            },
            AgentEvent::RunAborted { run_id } => {
                if !self.accepts_run(*run_id) || self.terminal_event_seen {
                    assert(stderr_text(m, e, none) == none);
                    return Ok(());
                }
                self.terminal_event_seen = true;
                assert(stderr_text(m, e, none) == "\n⏹ Run aborted\n"@);
                emit_stderr(&mut self.output, "\n⏹ Run aborted\n")
            },
            AgentEvent::RunFailed { run_id, error } => {
                if !self.accepts_run(*run_id) || self.terminal_event_seen {
                    assert(stderr_text(m, e, none) == none);
                    return Ok(());
                }
                self.terminal_event_seen = true;
                let line = run_failed_line(error);
                assert(stderr_text(m, e, none) == line@);
                emit_stderr(&mut self.output, line.as_str())
            },
            AgentEvent::RunFinished { run_id, stop_reason } => {
                if !self.accepts_run(*run_id) || self.terminal_event_seen {
                    assert(stderr_text(m, e, none) == none);
                    return Ok(());
                }
                self.terminal_event_seen = true;
                match stop_reason {
                    StopReason::Length => {
                        assert(stderr_text(m, e, none) == "\n⚠ Response truncated (length limit)\n"@);
                        emit_stderr(&mut self.output, "\n⚠ Response truncated (length limit)\n")
                    },
                    _ => {
                        assert(stderr_text(m, e, none) == none);
                        Ok(())
                    },
                }
            },
        }
    }

    /// Report a run failure that arrived without an event, unless the
    /// run's end was already reported.
    pub fn report_run_error(&mut self, error: &AgentRunError) -> (r: Result<(), std::io::Error>)
        requires
            old(self).wf(),
        ensures
            old(self).sink().reliable() ==> r is Ok,
            final(self).sink().reliable() == old(self).sink().reliable(),
            final(self).wf(),
            final(self).model() == ended(old(self).model()),
            old(self).model().terminal_event_seen ==> r is Ok && final(self).sink() == old(
                self,
            ).sink(),
            r is Ok ==> final(self).sink().stdout_bytes() == old(self).sink().stdout_bytes(),
            r is Ok ==> final(self).sink().stderr_bytes() == old(self).sink().stderr_bytes()
                + encode_utf8(
                if old(self).model().terminal_event_seen {
                    Seq::empty()
                } else {
                    run_failed_text(*error)
                },
            ),
    {
        proof {
            assert(encode_utf8(Seq::<char>::empty()) =~= Seq::<u8>::empty());
            assert(old(self).sink().stderr_bytes() + Seq::<u8>::empty() =~= old(self).sink().stderr_bytes());
        }
        if self.terminal_event_seen {
            return Ok(());
        }
        self.terminal_event_seen = true;
        let line = run_failed_line(error);
        emit_stderr(&mut self.output, line.as_str())
    }

    /// Show the result of a slash command: errors on stderr, everything
    /// else on stdout.
    pub fn handle_command_result(&mut self, result: &CommandResult) -> (r: Result<(), std::io::Error>)
        requires
            old(self).wf(),
        ensures
            old(self).sink().reliable() ==> r is Ok,
            final(self).sink().reliable() == old(self).sink().reliable(),
            final(self).wf(),
            final(self).model() == old(self).model(),
            r is Ok ==> final(self).sink().stdout_bytes() == old(self).sink().stdout_bytes()
                + encode_utf8(command_stdout(*result)),
            r is Ok ==> final(self).sink().stderr_bytes() == old(self).sink().stderr_bytes()
                + encode_utf8(command_stderr(*result)),
    {
        proof {
            assert(encode_utf8(Seq::<char>::empty()) =~= Seq::<u8>::empty());
            assert(old(self).sink().stderr_bytes() + Seq::<u8>::empty() =~= old(self).sink().stderr_bytes());
            assert(old(self).sink().stdout_bytes() + Seq::<u8>::empty() =~= old(self).sink().stdout_bytes());
        }
        match result {
            CommandResult::Message(message) => {
                match self.output.write_stdout(message.as_str()) {
                    Ok(()) => {},
                    Err(e) => {
                        return Err(e);
                    },
                }
                match self.output.write_stdout("\n") {
                    Ok(()) => {},
                    Err(e) => {
                        return Err(e);
                    },
                }
                proof {
                    lemma_encode_utf8_concat(message@, "\n"@);
                    assert(old(self).sink().stdout_bytes() + encode_utf8(message@) + encode_utf8(
                        "\n"@,
                    ) =~= old(self).sink().stdout_bytes() + encode_utf8(message@ + "\n"@));
                }
                self.output.flush_stdout()
            },
            CommandResult::Error(message) => {
                match self.output.write_stderr(message.as_str()) {
                    Ok(()) => {},
                    Err(e) => {
                        return Err(e);
                    },
                }
                match self.output.write_stderr("\n") {
                    Ok(()) => {},
                    Err(e) => {
                        return Err(e);
                    },
                }
                proof {
                    lemma_encode_utf8_concat(message@, "\n"@);
                    assert(old(self).sink().stderr_bytes() + encode_utf8(message@) + encode_utf8(
                        "\n"@,
                    ) =~= old(self).sink().stderr_bytes() + encode_utf8(message@ + "\n"@));
                }
                self.output.flush_stderr()
            },
            CommandResult::Help(items) => {
                let text = format_help(items.as_slice());
                emit_stdout(&mut self.output, text.as_str())
            },
            CommandResult::ModelChanged { model } => {
                let mut out: Vec<char> = Vec::new();
                append_str(&mut out, "Switched to ");
                append_str(&mut out, model.as_str());
                append_str(&mut out, "\n");
                let text = string_from_chars(out.as_slice());
                assert(text@ =~= command_stdout(*result));
                emit_stdout(&mut self.output, text.as_str())
            },
            CommandResult::Sessions { sessions, .. } => {
                let text = sessions_listing(sessions);
                emit_stdout(&mut self.output, text.as_str())
            },
        }
    }

    /// The output sink, for changes made by the caller. The frontend's own
    /// state is left as it is.
    pub fn output_mut(&mut self) -> (o: &mut O)
        ensures
            *o == old(self).sink(),
            final(self).sink() == *final(o),
            final(self).model() == old(self).model(),
    {
        &mut self.output
    }
}

fn session_line_text(s: &SessionSummary) -> (t: String)
    ensures
        t@ == session_line(*s),
{
    let mut out: Vec<char> = Vec::new();
    append_str(&mut out, "  ");
    append_str(&mut out, s.id.as_str());
    append_str(&mut out, " | model: ");
    append_str(&mut out, s.model.as_str());
    append_str(&mut out, " | msgs: ");
    append_decimal(&mut out, s.msg_count as u64);
    append_str(&mut out, " | created: ");
    append_str(&mut out, s.created.as_str());
    append_str(&mut out, "\n");
    assert(out@ =~= session_line(*s));
    string_from_chars(out.as_slice())
}

fn sessions_listing(sessions: &Vec<SessionSummary>) -> (t: String)
    ensures
        t@ == sessions_text(sessions@),
{
    let mut out: Vec<char> = Vec::new();
    if sessions.len() == 0 {
        append_str(&mut out, "No sessions found.\n");
        return string_from_chars(out.as_slice());
    }
    append_str(&mut out, "Available sessions:\n");
    let ghost head = out@;
    let mut i: usize = 0;
    while i < sessions.len()
        invariant
            0 <= i <= sessions@.len(),
            out@ == head + session_lines(sessions@.take(i as int)),
        decreases sessions@.len() - i,
    {
        let line = session_line_text(&sessions[i]);
        append_str(&mut out, line.as_str());
        assert(sessions@.take(i + 1).drop_last() =~= sessions@.take(i as int));
        i = i + 1;
    }
    assert(sessions@.take(sessions@.len() as int) =~= sessions@);
    string_from_chars(out.as_slice())
}

} // verus!

verus! {

// ── Laws of the frontend ────────────────────────────────────────────────────

/// A run's last event: it finished, was aborted or failed.
pub open spec fn ends_run(e: AgentEvent) -> bool {
    e is RunFinished || e is RunAborted || e is RunFailed
}

/// Whether the event ends its run.
pub fn is_terminal(event: &AgentEvent) -> (r: bool)
    ensures
        r == ends_run(*event),
{
    match event {
        AgentEvent::RunFinished { .. } | AgentEvent::RunAborted { .. } | AgentEvent::RunFailed { .. } => true,
        _ => false,
    }
}

/// The run an event belongs to.
pub open spec fn event_run(e: AgentEvent) -> RunId {
    match e {
        AgentEvent::RunStarted { run_id } => run_id,
        AgentEvent::TextDelta { run_id, .. } => run_id,
        AgentEvent::ThinkingDelta { run_id, .. } => run_id,
        AgentEvent::ToolStarted { run_id, .. } => run_id,
        AgentEvent::ToolOutput { run_id, .. } => run_id,
        AgentEvent::ToolFinished { run_id, .. } => run_id,
        AgentEvent::ProviderError { run_id, .. } => run_id,
        AgentEvent::RunAborted { run_id } => run_id,
        AgentEvent::RunFailed { run_id, .. } => run_id,
        AgentEvent::RunFinished { run_id, .. } => run_id,
    }
}

/// The event reports the end of its run.
pub open spec fn is_terminal_event(e: AgentEvent) -> bool {
    e is RunAborted || e is RunFailed || e is RunFinished
}

/// The id of a tool event, if it is one.
pub open spec fn event_tool_id(e: AgentEvent) -> Option<Seq<char>> {
    match e {
        AgentEvent::ToolStarted { tool_call_id, .. } => Some(tool_call_id@),
        AgentEvent::ToolOutput { tool_call_id, .. } => Some(tool_call_id@),
        AgentEvent::ToolFinished { tool_call_id, .. } => Some(tool_call_id@),
        _ => None,
    }
}

proof fn lemma_slot_at(tools: Seq<(Seq<char>, ToolView)>, id: Seq<char>, i: int)
    requires
        distinct_ids(tools),
        0 <= i < tools.len(),
        tools[i].0 == id,
    ensures
        tool_slot(tools, id) == Some(i),
{
    let j = choose|j: int| 0 <= j < tools.len() && tools[j].0 == id;
    assert(j == i);
}

/// Every step keeps tool ids distinct.
pub proof fn lemma_next_state_keeps_ids_distinct(m: FrontendModel, e: AgentEvent, written: bool)
    requires
        distinct_ids(m.tools),
    ensures
        distinct_ids(next_state(m, e, written).tools),
{
    let n = next_state(m, e, written).tools;
    if n.len() == m.tools.len() + 1 {
        assert forall|i: int, j: int|
            0 <= i < n.len() && 0 <= j < n.len() && i != j implies n[i].0 != n[j].0 by {
            if i == n.len() - 1 && j < n.len() - 1 {
                assert(n[j] == m.tools[j]);
            }
            if j == n.len() - 1 && i < n.len() - 1 {
                assert(n[i] == m.tools[i]);
            }
        }
    } else if n.len() == m.tools.len() {
        assert forall|i: int| 0 <= i < n.len() implies n[i].0 == m.tools[i].0 by {}
    }
}

/// Events of a run other than the one being followed change nothing and
/// write nothing.
pub proof fn lemma_stale_event_is_ignored(m: FrontendModel, e: AgentEvent, written: bool)
    requires
        !(e is RunStarted),
        m.current_run != Some(event_run(e)),
    ensures
        next_state(m, e, written) == m,
        !touches_sink(m, e),
        stdout_text(m, e).len() == 0,
{
}

/// Once the run's end was reported, nothing but the start of a new run
/// changes the state or writes anything.
pub proof fn lemma_ended_run_is_silent(m: FrontendModel, e: AgentEvent, written: bool)
    requires
        m.terminal_event_seen,
        !(e is RunStarted),
    ensures
        next_state(m, e, written) == m,
        !touches_sink(m, e),
        stdout_text(m, e).len() == 0,
{
}

/// A run's end is reported once: after a terminal event of the current
/// run, every later event but a new start is silent.
pub proof fn lemma_end_reported_once(m: FrontendModel, end: AgentEvent, later: AgentEvent, written: bool)
    requires
        is_terminal_event(end),
        accepts(m, event_run(end)),
        !(later is RunStarted),
    ensures
        next_state(m, end, written).terminal_event_seen,
        !touches_sink(next_state(m, end, written), later),
{
}

/// A tool is summarised once: after its completion in the current run, a
/// second completion or more output for the same id writes nothing.
pub proof fn lemma_tool_summarised_once(m: FrontendModel, done: AgentEvent, later: AgentEvent, written: bool)
    requires
        distinct_ids(m.tools),
        done is ToolFinished,
        accepts_active(m, event_run(done)),
        later is ToolFinished || later is ToolOutput,
        event_tool_id(later) == event_tool_id(done),
    ensures
        !touches_sink(next_state(m, done, written), later),
{
    let id = event_tool_id(done).unwrap();
    let n = next_state(m, done, written);
    lemma_next_state_keeps_ids_distinct(m, done, written);
    match tool_slot(m.tools, id) {
        Some(i) => {
            assert(n.tools[i].0 == id);
            assert(n.tools[i].1.finished);
            lemma_slot_at(n.tools, id, i);
        },
        None => {
            let k = n.tools.len() - 1;
            assert(n.tools[k].0 == id);
            assert(n.tools[k].1.finished);
            lemma_slot_at(n.tools, id, k);
        },
    }
}

/// A tool is announced once: after its start was written, another start
/// with the same id writes nothing.
pub proof fn lemma_tool_announced_once(m: FrontendModel, start: AgentEvent, again: AgentEvent)
    requires
        distinct_ids(m.tools),
        start is ToolStarted,
        again is ToolStarted,
        event_run(again) == event_run(start),
        event_tool_id(again) == event_tool_id(start),
    ensures
        !touches_sink(next_state(m, start, true), again),
{
    let id = event_tool_id(start).unwrap();
    let n = next_state(m, start, true);
    lemma_next_state_keeps_ids_distinct(m, start, true);
    if accepts_active(m, event_run(start)) {
        match tool_slot(m.tools, id) {
            Some(i) => {
                assert(n.tools[i].0 == id);
                lemma_slot_at(n.tools, id, i);
            },
            None => {
                let k = n.tools.len() - 1;
                assert(n.tools[k].0 == id);
                lemma_slot_at(n.tools, id, k);
            },
        }
    }
}

/// Only assistant text reaches stdout.
pub proof fn lemma_stdout_is_assistant_text(m: FrontendModel, e: AgentEvent)
    requires
        !(e is TextDelta),
    ensures
        stdout_text(m, e).len() == 0,
{
}

/// A new run starts from a clean state, whatever came before.
pub proof fn lemma_run_start_resets(m: FrontendModel, run_id: RunId, written: bool)
    ensures
        next_state(m, AgentEvent::RunStarted { run_id }, written) == (FrontendModel {
            current_run: Some(run_id),
            assistant_output_started: false,
            tools: Seq::empty(),
            terminal_event_seen: false,
        }),
        !touches_sink(m, AgentEvent::RunStarted { run_id }),
{
}

} // verus!

verus! {

// ── Print run bookkeeping ───────────────────────────────────────────────────

/// How a print run ended.
#[derive(Debug, Clone, PartialEq, Eq)]
pub enum PrintRunOutcome {
    /// The run finished with the given stop reason.
    Finished(StopReason),
    /// The run was cancelled.
    Aborted,
    /// The run failed.
    Failed(AgentRunError),
}

/// The outcome an event announces, if it ends a run.
pub open spec fn event_outcome(e: AgentEvent) -> Option<PrintRunOutcome> {
    match e {
        AgentEvent::RunFinished { stop_reason, .. } => Some(PrintRunOutcome::Finished(stop_reason)),
        AgentEvent::RunAborted { .. } => Some(PrintRunOutcome::Aborted),
        AgentEvent::RunFailed { error, .. } => Some(PrintRunOutcome::Failed(error)),
        _ => None,
    }
}

/// The outcome an event announces, if it ends a run.
pub fn terminal_outcome(event: &AgentEvent) -> (r: Option<PrintRunOutcome>)
    ensures
        r == event_outcome(*event),
{
    match event {
        AgentEvent::RunFinished { stop_reason, .. } => Some(PrintRunOutcome::Finished(*stop_reason)),
        AgentEvent::RunAborted { .. } => Some(PrintRunOutcome::Aborted),
        AgentEvent::RunFailed { error, .. } => Some(
            PrintRunOutcome::Failed(
                AgentRunError { phase: error.phase, message: error.message.clone() },
            ),
        ),
        _ => None,
    }
}

/// The outcome of a run once the agent has settled: the last announced
/// outcome; without one, a failure of the agent (in the agent loop) or,
/// when it returned normally, an abort.
pub open spec fn settled_outcome(announced: Option<PrintRunOutcome>, agent_failure: Option<String>) -> PrintRunOutcome {
    match announced {
        Some(o) => o,
        None => match agent_failure {
            Some(message) => PrintRunOutcome::Failed(
                AgentRunError { phase: AgentRunPhase::AgentLoop, message },
            ),
            None => PrintRunOutcome::Aborted,
        },
    }
}

/// Bookkeeping of one print run: which outcome the events announced, and
/// the first failure of the output sink. Once output failed, later events
/// are no longer shown (the run is cancelled and left to settle).
pub struct PrintRun {
    outcome: Option<PrintRunOutcome>,
    output_error: Option<std::io::Error>,
}

impl PrintRun {
    /// The outcome announced so far.
    pub closed spec fn announced(&self) -> Option<PrintRunOutcome> {
        self.outcome
    }

    /// Whether the output sink has failed.
    pub closed spec fn output_failed(&self) -> bool {
        self.output_error is Some
    }

    pub fn new() -> (r: Self)
        ensures
            r.announced() is None,
            !r.output_failed(),
    {
        PrintRun { outcome: None, output_error: None }
    }

    /// Show one event (unless output already failed) and note the outcome
    /// it announces. Returns whether the run must now be cancelled, which
    /// is when showing this event made the output fail.
    pub fn observe<O: FrontendOutput>(&mut self, frontend: &mut PrintFrontend<O>, event: &AgentEvent) -> (cancel: bool)
        requires
            old(frontend).wf(),
        ensures
            final(frontend).wf(),
            final(self).announced() == match event_outcome(*event) {
                Some(o) => Some(o),
                None => old(self).announced(),
            },
            old(self).output_failed() ==> !cancel && *final(frontend) == *old(frontend),
            final(self).output_failed() == (old(self).output_failed() || cancel),
            !old(self).output_failed() ==> final(frontend).model() == next_state(
                old(frontend).model(),
                *event,
                !cancel,
            ),
            !old(self).output_failed() && !cancel ==> final(frontend).sink().stdout_bytes()
                == old(frontend).sink().stdout_bytes() + encode_utf8(
                stdout_text(old(frontend).model(), *event),
            ),
            !old(self).output_failed() && !touches_sink(old(frontend).model(), *event) ==> !cancel,
            old(frontend).sink().reliable() ==> !cancel,
            final(frontend).sink().reliable() == old(frontend).sink().reliable(),
    {
        let mut cancel = false;
        if self.output_error.is_none() {
            match frontend.handle_event(event) {
                Ok(()) => {},
                Err(e) => {
                    self.output_error = Some(e);
                    cancel = true;
                },
            }
        }
        match terminal_outcome(event) {
            Some(o) => {
                self.outcome = Some(o);
            },
            None => {},
        }
        cancel
    }

    /// Settle the run after the agent finished; `agent_failure` is the
    /// agent's error message when it returned one. A failure without an
    /// announced outcome is reported through the frontend. The result is
    /// the first output failure if there was one, else the settled
    /// outcome.
    pub fn settle<O: FrontendOutput>(self, frontend: &mut PrintFrontend<O>, agent_failure: Option<String>) -> (r: Result<PrintRunOutcome, std::io::Error>)
        requires
            old(frontend).wf(),
        ensures
            final(frontend).wf(),
            r is Ok ==> r == Ok::<PrintRunOutcome, std::io::Error>(settled_outcome(self.announced(), agent_failure)),
            !self.output_failed() && (self.announced() is Some || agent_failure is None) ==> r is Ok
                && *final(frontend) == *old(frontend),
            self.output_failed() ==> r is Err && *final(frontend) == *old(frontend),
            !self.output_failed() && old(frontend).sink().reliable() ==> r is Ok,
            !self.output_failed() && self.announced() is None && agent_failure is Some ==> (
            final(frontend).model() == ended(old(frontend).model())),
            r is Ok && self.announced() is None && agent_failure is Some ==> final(frontend).sink().stderr_bytes()
                == old(frontend).sink().stderr_bytes() + encode_utf8(
                if old(frontend).model().terminal_event_seen {
                    Seq::empty()
                } else {
                    run_failed_text(AgentRunError { phase: AgentRunPhase::AgentLoop, message: agent_failure.unwrap() })
                },
            ),
    {
        let PrintRun { outcome, output_error } = self;
        let mut output_error = output_error;
        let settled = match outcome {
            Some(o) => o,
            None => match agent_failure {
                Some(message) => {
                    let error = AgentRunError { phase: AgentRunPhase::AgentLoop, message };
                    if output_error.is_none() {
                        match frontend.report_run_error(&error) {
                            Ok(()) => {},
                            Err(e) => {
                                output_error = Some(e);
                            },
                        }
                    }
                    PrintRunOutcome::Failed(error)
                },
                None => PrintRunOutcome::Aborted,
            },
        };
        match output_error {
            Some(e) => Err(e),
            None => Ok(settled),
        }
    }
}

} // verus!

verus! {

impl PrintFrontend<RealOutput> {
    /// A frontend writing to the process's stdout and stderr.
    pub fn new() -> (f: Self)
        ensures
            f.wf(),
            f.model() == initial_model(),
            f.sink().stdout_bytes().len() == 0,
            f.sink().stderr_bytes().len() == 0,
    {
        PrintFrontend::with_output(RealOutput::new())
    }
}

impl Default for PrintFrontend<RealOutput> {
    fn default() -> (f: Self)
        ensures
            f.wf(),
            f.model() == initial_model(),
            f.sink().stdout_bytes().len() == 0,
            f.sink().stderr_bytes().len() == 0,
    {
        PrintFrontend::new()
    }
}

} // verus!
