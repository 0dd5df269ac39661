//! The terminal UI's view model: transcript blocks built from agent events
//! and command results, tool run states, focus, selection and scroll state,
//! and the text rules behind them (redacting secrets in messages, bounding
//! retained tool output).

use vstd::prelude::*;
use crate::print::{phase_label, AgentEvent, AgentRunError, AgentToolResult, Content, StopReason, ToolOutputStream};
use crate::command::{pad_right, CommandControl, CommandHelpItem, CommandOutcome, CommandResult};
use crate::out::SessionSummary;
use crate::session_controller::RunId;
use crate::tui::{char_columns, cursor_at, InputHistory, InputState, InputView};
use crate::text::{
    append, append_str, chars_of, contains, find_exec, join, join_exec, lemma_utf8_len_concat, lemma_utf8_len_subrange, lines, lines_exec, replace_all,
    replace_all_exec, split_char, split_char_exec, string_from_chars, sub_chars, trim_end,
    trim_end_chars, utf8_len, utf8_width,
};

verus! {

// ── Redaction ───────────────────────────────────────────────────────────────

pub open spec fn ascii_lower(c: char) -> char {
    if 'A' <= c <= 'Z' {
        ((c as u32) + 32) as char
    } else {
        c
    }
}

pub open spec fn ascii_lowercase(s: Seq<char>) -> Seq<char> {
    s.map_values(|c: char| ascii_lower(c))
}

/// Fragments that mark a line as carrying a secret.
pub open spec fn sensitive_needles() -> Seq<Seq<char>> {
    seq!["authorization"@, "api_key"@, "apikey"@, "access_token"@, "bearer "@, "token="@]
}

pub open spec fn is_sensitive(line: Seq<char>) -> bool {
    exists|i: int|
        0 <= i < sensitive_needles().len() && contains(ascii_lowercase(line), #[trigger] sensitive_needles()[i])
}

/// First `=` or `:` at or after `i`.
pub open spec fn first_separator(line: Seq<char>, i: int) -> Option<int>
    decreases line.len() - i,
{
    if i < 0 || i >= line.len() {
        None
    } else if line[i] == '=' || line[i] == ':' {
        Some(i)
    } else {
        first_separator(line, i + 1)
    }
}

/// Index just after the first `=` or `:`, or 0 without one.
pub open spec fn key_end(line: Seq<char>) -> int {
    match first_separator(line, 0) {
        Some(j) => j + 1,
        None => 0,
    }
}

/// A line with a secret keeps its key (up to the first `=` or `:`, without
/// trailing whitespace) followed by ` [redacted]`; other lines are kept.
pub open spec fn sanitize_line(line: Seq<char>) -> Seq<char> {
    if is_sensitive(line) {
        trim_end(line.take(key_end(line))) + " [redacted]"@
    } else {
        line
    }
}

/// The message line by line, with secrets redacted.
pub open spec fn sanitized(message: Seq<char>) -> Seq<char> {
    join(lines(message).map_values(|l: Seq<char>| sanitize_line(l)), "\n"@)
}


fn ascii_lowercase_exec(s: &[char]) -> (v: Vec<char>)
    ensures
        v@ == ascii_lowercase(s@),
{
    let mut v: Vec<char> = Vec::new();
    let mut i: usize = 0;
    while i < s.len()
        invariant
            0 <= i <= s@.len(),
            v@ == ascii_lowercase(s@.take(i as int)),
        decreases s@.len() - i,
    {
        let c = s[i];
        let l = if 'A' <= c && c <= 'Z' {
            let b: u8 = ((c as u32) + 32) as u8;
            b as char
        } else {
            c
        };
        assert(l == ascii_lower(c));
        v.push(l);
        i = i + 1;
        assert(v@ =~= ascii_lowercase(s@.take(i as int)));
    }
    assert(s@.take(i as int) =~= s@);
    v
}

fn is_sensitive_exec(line: &[char]) -> (r: bool)
    ensures
        r == is_sensitive(line@),
{
    let lower = ascii_lowercase_exec(line);
    let n0 = chars_of("authorization");
    let n1 = chars_of("api_key");
    let n2 = chars_of("apikey");
    let n3 = chars_of("access_token");
    let n4 = chars_of("bearer ");
    let n5 = chars_of("token=");
    let f0 = find_exec(lower.as_slice(), n0.as_slice()).is_some();
    let f1 = find_exec(lower.as_slice(), n1.as_slice()).is_some();
    let f2 = find_exec(lower.as_slice(), n2.as_slice()).is_some();
    let f3 = find_exec(lower.as_slice(), n3.as_slice()).is_some();
    let f4 = find_exec(lower.as_slice(), n4.as_slice()).is_some();
    let f5 = find_exec(lower.as_slice(), n5.as_slice()).is_some();
    let r = f0 || f1 || f2 || f3 || f4 || f5;
    proof {
        let ns = sensitive_needles();
        assert(ns[0] == n0@ && ns[1] == n1@ && ns[2] == n2@ && ns[3] == n3@ && ns[4] == n4@ && ns[5]
            == n5@);
        if r {
            if f0 {
                assert(contains(ascii_lowercase(line@), ns[0]));
            } else if f1 {
                assert(contains(ascii_lowercase(line@), ns[1]));
            } else if f2 {
                assert(contains(ascii_lowercase(line@), ns[2]));
            } else if f3 {
                assert(contains(ascii_lowercase(line@), ns[3]));
            } else if f4 {
                assert(contains(ascii_lowercase(line@), ns[4]));
            } else {
                assert(contains(ascii_lowercase(line@), ns[5]));
            }
        } else {
            assert forall|i: int| 0 <= i < ns.len() implies !contains(ascii_lowercase(line@), #[trigger] ns[i]) by {
                if i == 0 {
                } else if i == 1 {
                } else if i == 2 {
                } else if i == 3 {
                } else if i == 4 {
                } else {
                }
            }
        }
    }
    r
}

fn key_end_exec(line: &[char]) -> (r: usize)
    ensures
        r == key_end(line@),
        r <= line@.len(),
{
    let mut i: usize = 0;
    while i < line.len()
        invariant
            0 <= i <= line@.len(),
            first_separator(line@, 0) == first_separator(line@, i as int),
        decreases line@.len() - i,
    {
        if line[i] == '=' || line[i] == ':' {
            return i + 1;
        }
        i = i + 1;
    }
    0
}

fn sanitize_line_exec(line: &[char]) -> (v: Vec<char>)
    ensures
        v@ == sanitize_line(line@),
{
    if is_sensitive_exec(line) {
        let end = key_end_exec(line);
        let key = sub_chars(line, 0, end);
        let mut out = trim_end_chars(key.as_slice());
        append_str(&mut out, " [redacted]");
        assert(key@ =~= line@.take(end as int));
        out
    } else {
        let mut out: Vec<char> = Vec::new();
        append(&mut out, line);
        assert(out@ =~= line@);
        out
    }
}

/// The message line by line, with lines that carry a secret (an
/// authorization header, an API key or access token, a bearer token)
/// reduced to their key and ` [redacted]`.
pub fn sanitize_message(message: &str) -> (r: String)
    ensures
        r@ == sanitized(message@),
{
    let m = chars_of(message);
    let ls = lines_exec(m.as_slice());
    let ghost lv = lines(message@);
    let mut out: Vec<Vec<char>> = Vec::new();
    let mut i: usize = 0;
    while i < ls.len()
        invariant
            0 <= i <= ls@.len(),
            ls@.len() == lv.len(),
            lv == lines(message@),
            forall|j: int| 0 <= j < ls@.len() ==> (#[trigger] ls@[j])@ == lv[j],
            out@.len() == i,
            forall|j: int| 0 <= j < i ==> (#[trigger] out@[j])@ == sanitize_line(lv[j]),
        decreases ls@.len() - i,
    {
        let l = sanitize_line_exec(ls[i].as_slice());
        out.push(l);
        i = i + 1;
    }
    let sep = chars_of("\n");
    let joined = join_exec(out.as_slice(), sep.as_slice());
    assert(out@.map_values(|p: Vec<char>| p@) =~= lv.map_values(|l: Seq<char>| sanitize_line(l)));
    string_from_chars(joined.as_slice())
}

} // verus!

verus! {

// ── Bounded tool output ─────────────────────────────────────────────────────

/// Most bytes kept for either stream of one tool.
pub const MAX_TOOL_OUTPUT_BYTES: usize = 65536;

/// Bytes of the truncation marker.
pub const OUTPUT_MARKER_BYTES: usize = 24;

/// Marker left where retained tool output was cut.
pub open spec fn output_marker() -> Seq<char> {
    "… output truncated …"@
}

/// Number of leading characters of `s` that fit in `budget` bytes.
pub open spec fn prefix_within(s: Seq<char>, budget: nat) -> nat
    decreases s.len(),
{
    if s.len() == 0 || crate::text::char_utf8_len(s[0]) > budget {
        0
    } else {
        1 + prefix_within(s.drop_first(), (budget - crate::text::char_utf8_len(s[0])) as nat)
    }
}

/// Number of trailing characters of `s` that fit in `budget` bytes.
pub open spec fn suffix_within(s: Seq<char>, budget: nat) -> nat
    decreases s.len(),
{
    if s.len() == 0 || crate::text::char_utf8_len(s.last()) > budget {
        0
    } else {
        1 + suffix_within(s.drop_last(), (budget - crate::text::char_utf8_len(s.last())) as nat)
    }
}

/// Retained output after a chunk arrives: earlier markers are dropped and
/// the chunk appended; if that exceeds the limit, the first and last parts
/// (half of the room left beside the marker each, never splitting a
/// character) are kept around one marker. An empty chunk changes nothing.
pub open spec fn limited(output: Seq<char>, chunk: Seq<char>) -> Seq<char> {
    if chunk.len() == 0 {
        output
    } else {
        let combined = replace_all(output, output_marker(), Seq::empty()) + chunk;
        if utf8_len(combined) <= MAX_TOOL_OUTPUT_BYTES {
            combined
        } else {
            let available = (MAX_TOOL_OUTPUT_BYTES - OUTPUT_MARKER_BYTES) as nat;
            let head_budget = available / 2;
            let tail_budget = (available - head_budget) as nat;
            combined.take(prefix_within(combined, head_budget) as int) + output_marker() + combined.skip(
                combined.len() - suffix_within(combined, tail_budget),
            )
        }
    }
}

fn prefix_within_exec(s: &[char], budget: usize) -> (k: usize)
    ensures
        k == prefix_within(s@, budget as nat),
        k <= s@.len(),
{
    let mut i: usize = 0;
    let mut left = budget;
    assert(s@.skip(0) =~= s@);
    while i < s.len()
        invariant
            0 <= i <= s@.len(),
            left <= budget,
            prefix_within(s@, budget as nat) == i + prefix_within(s@.skip(i as int), left as nat),
        decreases s@.len() - i,
    {
        let w = utf8_width(s[i]);
        assert(s@.skip(i as int)[0] == s@[i as int]);
        assert(s@.skip(i as int).drop_first() =~= s@.skip(i + 1));
        if w > left {
            return i;
        }
        left = left - w;
        i = i + 1;
    }
    i
}

fn suffix_within_exec(s: &[char], budget: usize) -> (k: usize)
    ensures
        k == suffix_within(s@, budget as nat),
        k <= s@.len(),
{
    let mut n: usize = 0;
    let mut left = budget;
    assert(s@.take(s@.len() as int) =~= s@);
    while n < s.len()
        invariant
            0 <= n <= s@.len(),
            left <= budget,
            suffix_within(s@, budget as nat) == n + suffix_within(s@.take(s@.len() - n), left as nat),
        decreases s@.len() - n,
    {
        let w = utf8_width(s[s.len() - 1 - n]);
        assert(s@.take(s@.len() - n).last() == s@[s@.len() - 1 - n]);
        assert(s@.take(s@.len() - n).drop_last() =~= s@.take(s@.len() - (n + 1)));
        if w > left {
            return n;
        }
        left = left - w;
        n = n + 1;
    }
    n
}

/// Whether `s` takes at most `cap` bytes.
fn fits_bytes(s: &[char], cap: usize) -> (r: bool)
    requires
        cap <= 0x1000_0000,
    ensures
        r == (utf8_len(s@) <= cap),
{
    let mut i: usize = 0;
    let mut n: usize = 0;
    while i < s.len()
        invariant
            0 <= i <= s@.len(),
            cap <= 0x1000_0000,
            n == utf8_len(s@.take(i as int)),
            n <= cap,
        decreases s@.len() - i,
    {
        assert(s@.take(i + 1).drop_last() =~= s@.take(i as int));
        let w = utf8_width(s[i]);
        if n + w > cap {
            proof {
                crate::text::lemma_utf8_len_subrange(s@, 0, i + 1);
                assert(s@.subrange(0, i + 1) =~= s@.take(i + 1));
                assert(s@ =~= s@.take(i + 1) + s@.skip(i + 1));
                lemma_utf8_len_concat(s@.take(i + 1), s@.skip(i + 1));
            }
            return false;
        }
        n = n + w;
        i = i + 1;
    }
    assert(s@.take(i as int) =~= s@);
    true
}

/// Append `chunk` to retained tool output, keeping it within
/// [`MAX_TOOL_OUTPUT_BYTES`] bytes and never splitting a character.
pub fn append_limited(output: &mut String, chunk: &str)
    ensures
        final(output)@ == limited(old(output)@, chunk@),
{
    let c = chars_of(chunk);
    if c.len() == 0 {
        return;
    }
    let o = chars_of(output.as_str());
    let marker = chars_of("… output truncated …");
    proof {
        reveal_strlit("… output truncated …");
    }
    let empty: Vec<char> = Vec::new();
    let mut combined = replace_all_exec(o.as_slice(), marker.as_slice(), empty.as_slice());
    append(&mut combined, c.as_slice());
    assert(combined@ =~= replace_all(old(output)@, output_marker(), Seq::empty()) + chunk@);
    if fits_bytes(combined.as_slice(), MAX_TOOL_OUTPUT_BYTES) {
        *output = string_from_chars(combined.as_slice());
        return;
    }
    let available: usize = MAX_TOOL_OUTPUT_BYTES - OUTPUT_MARKER_BYTES;
    let head_budget = available / 2;
    let tail_budget = available - head_budget;
    let h = prefix_within_exec(combined.as_slice(), head_budget);
    let t = suffix_within_exec(combined.as_slice(), tail_budget);
    let mut out = sub_chars(combined.as_slice(), 0, h);
    append(&mut out, marker.as_slice());
    let tail = sub_chars(combined.as_slice(), combined.len() - t, combined.len());
    append(&mut out, tail.as_slice());
    assert(out@ =~= limited(old(output)@, chunk@));
    *output = string_from_chars(out.as_slice());
}

} // verus!

verus! {

proof fn lemma_prefix_within_bytes(s: Seq<char>, budget: nat)
    ensures
        prefix_within(s, budget) <= s.len(),
        utf8_len(s.take(prefix_within(s, budget) as int)) <= budget,
    decreases s.len(),
{
    if s.len() == 0 || crate::text::char_utf8_len(s[0]) > budget {
        assert(s.take(0) =~= Seq::<char>::empty());
    } else {
        let w = crate::text::char_utf8_len(s[0]);
        let rest = s.drop_first();
        lemma_prefix_within_bytes(rest, (budget - w) as nat);
        let k = prefix_within(s, budget);
        assert(s.take(k as int) =~= seq![s[0]] + rest.take(k - 1));
        lemma_utf8_len_concat(seq![s[0]], rest.take(k - 1));
        crate::text::lemma_utf8_len_push(Seq::<char>::empty(), s[0]);
        assert(Seq::<char>::empty().push(s[0]) =~= seq![s[0]]);
    }
}

proof fn lemma_suffix_within_bytes(s: Seq<char>, budget: nat)
    ensures
        suffix_within(s, budget) <= s.len(),
        utf8_len(s.skip(s.len() - suffix_within(s, budget))) <= budget,
    decreases s.len(),
{
    if s.len() == 0 || crate::text::char_utf8_len(s.last()) > budget {
        assert(s.skip(s.len() as int) =~= Seq::<char>::empty());
    } else {
        let w = crate::text::char_utf8_len(s.last());
        let rest = s.drop_last();
        lemma_suffix_within_bytes(rest, (budget - w) as nat);
        let k = suffix_within(s, budget);
        assert(s.skip(s.len() - k) =~= rest.skip(rest.len() - (k - 1)).push(s.last()));
        crate::text::lemma_utf8_len_push(rest.skip(rest.len() - (k - 1)), s.last());
    }
}

/// The marker takes [`OUTPUT_MARKER_BYTES`] bytes.
pub proof fn lemma_marker_bytes()
    ensures
        utf8_len(output_marker()) == OUTPUT_MARKER_BYTES,
{
    reveal_strlit("… output truncated …");
    reveal_with_fuel(utf8_len, 21);
}

/// Retained output stays within the limit once a chunk has arrived.
pub proof fn lemma_limited_is_bounded(output: Seq<char>, chunk: Seq<char>)
    requires
        chunk.len() > 0,
    ensures
        utf8_len(limited(output, chunk)) <= MAX_TOOL_OUTPUT_BYTES,
{
    let combined = replace_all(output, output_marker(), Seq::empty()) + chunk;
    if utf8_len(combined) > MAX_TOOL_OUTPUT_BYTES {
        let available = (MAX_TOOL_OUTPUT_BYTES - OUTPUT_MARKER_BYTES) as nat;
        let hb = available / 2;
        let tb = (available - hb) as nat;
        let head = combined.take(prefix_within(combined, hb) as int);
        let tail = combined.skip(combined.len() - suffix_within(combined, tb));
        lemma_prefix_within_bytes(combined, hb);
        lemma_suffix_within_bytes(combined, tb);
        lemma_marker_bytes();
        lemma_utf8_len_concat(head + output_marker(), tail);
        lemma_utf8_len_concat(head, output_marker());
    }
}

} // verus!

verus! {

// ── View model ──────────────────────────────────────────────────────────────

/// The state of a tool call as shown in the transcript.
#[derive(Debug, Clone, Copy, PartialEq, Eq, Structural)]
pub enum ToolRunState {
    Running,
    Succeeded,
    Failed,
    TimedOut,
    Aborted,
}

pub open spec fn run_state_label(s: ToolRunState) -> Seq<char> {
    match s {
        ToolRunState::Running => "running"@,
        ToolRunState::Succeeded => "success"@,
        ToolRunState::Failed => "failed"@,
        ToolRunState::TimedOut => "timed out"@,
        ToolRunState::Aborted => "aborted"@,
    }
}

impl ToolRunState {
    pub fn label(self) -> (s: &'static str)
        ensures
            s@ == run_state_label(self),
    {
        match self {
            ToolRunState::Running => "running",
            ToolRunState::Succeeded => "success",
            ToolRunState::Failed => "failed",
            ToolRunState::TimedOut => "timed out",
            ToolRunState::Aborted => "aborted",
        }
    }
}

/// A tool result's state: a timeout wins over an abort, an abort over an
/// error.
pub open spec fn state_for(result: AgentToolResult) -> ToolRunState {
    if result.timed_out {
        ToolRunState::TimedOut
    } else if result.aborted {
        ToolRunState::Aborted
    } else if result.is_error {
        ToolRunState::Failed
    } else {
        ToolRunState::Succeeded
    }
}

pub fn tool_state_for(result: &AgentToolResult) -> (s: ToolRunState)
    ensures
        s == state_for(*result),
{
    if result.timed_out {
        ToolRunState::TimedOut
    } else if result.aborted {
        ToolRunState::Aborted
    } else if result.is_error {
        ToolRunState::Failed
    } else {
        ToolRunState::Succeeded
    }
}

#[derive(Debug, Clone, Copy, PartialEq, Eq, Structural)]
pub enum Focus {
    Input,
    Transcript,
}

#[derive(Debug, Clone, Copy, PartialEq, Eq, Structural)]
pub struct TranscriptSelection {
    pub selected_block: Option<usize>,
}

/// Transcript scrolling: distance from the bottom, whether new output is
/// followed, and how many lines arrived while not following.
#[derive(Debug, Clone, Copy, PartialEq, Eq, Structural)]
pub struct ScrollState {
    pub offset_from_bottom: usize,
    pub follow_output: bool,
    pub unread_lines: usize,
}

impl Default for ScrollState {
    fn default() -> (s: Self)
        ensures
            s == (ScrollState { offset_from_bottom: 0, follow_output: true, unread_lines: 0 }),
    {
        ScrollState { offset_from_bottom: 0, follow_output: true, unread_lines: 0 }
    }
}

#[derive(Debug, Clone, Copy, PartialEq, Eq, Structural)]
pub enum ActivityState {
    Idle,
    AgentRunning,
    AgentCancelling,
    CommandRunning,
    CommandCancelling,
}

#[derive(Debug, Clone, PartialEq, Eq)]
pub enum RunOutcome {
    Completed,
    Aborted,
    ProviderError(String),
    ToolError(String),
}

#[derive(Debug, Clone, PartialEq, Eq)]
pub enum Effect {
    SubmitInput(String),
    RunAgent(String),
    CancelAgent,
    CancelCommand,
    Quit,
}

/// Number of lines of a text: line feeds plus one.
pub open spec fn line_count(text: Seq<char>) -> nat {
    split_char(text, '\n').len()
}

pub fn text_line_count(text: &str) -> (n: usize)
    ensures
        n == line_count(text@),
        1 <= n <= text@.len() + 1,
        n <= isize::MAX + 1,
{
    let c = chars_of(text);
    let parts = split_char_exec(c.as_slice(), '\n');
    proof {
        crate::text::lemma_split_char_nonempty(text@, '\n');
        crate::text::lemma_join_split(text@, '\n');
        lemma_join_len(split_char(text@, '\n'), '\n');
    }
    parts.len()
}

/// Scroll state after `count` new lines: followed output stays at the
/// bottom; otherwise the lines (at least one) count as unread.
pub open spec fn noted(s: ScrollState, count: nat) -> ScrollState {
    if !s.follow_output {
        let n: nat = if count == 0 {
            1
        } else {
            count
        };
        ScrollState {
            offset_from_bottom: s.offset_from_bottom,
            follow_output: false,
            unread_lines: if s.unread_lines + n > usize::MAX {
                usize::MAX
            } else {
                (s.unread_lines + n) as usize
            },
        }
    } else {
        ScrollState { offset_from_bottom: 0, follow_output: true, unread_lines: 0 }
    }
}

impl ScrollState {
    pub fn note_new_lines(&mut self, count: usize)
        ensures
            *final(self) == noted(*old(self), count as nat),
    {
        if !self.follow_output {
            let n = if count == 0 {
                1
            } else {
                count
            };
            self.unread_lines = self.unread_lines.saturating_add(n);
        } else {
            self.offset_from_bottom = 0;
            self.unread_lines = 0;
        }
    }
}

} // verus!

verus! {

// ── Transcript blocks ───────────────────────────────────────────────────────

/// Structured content shown in the transcript. Tool arguments are their
/// JSON text; `arguments_display` is its pretty form, redacted.
#[derive(Debug, PartialEq)]
pub enum TranscriptBlock {
    User { text: String },
    Assistant { text: String, streaming: bool },
    Thinking { text: String, expanded: bool },
    Tool {
        tool_call_id: String,
        name: String,
        arguments: String,
        arguments_display: String,
        stdout: String,
        stderr: String,
        state: ToolRunState,
        expanded: bool,
        exit_code: Option<i32>,
        duration: Option<std::time::Duration>,
    },
    Error { message: String },
    System { message: String },
}

/// A block as the model sees it: its text fields as characters; of the
/// duration only whether it is known.
pub enum BlockView {
    User { text: Seq<char> },
    Assistant { text: Seq<char>, streaming: bool },
    Thinking { text: Seq<char>, expanded: bool },
    Tool {
        id: Seq<char>,
        name: Seq<char>,
        arguments: Seq<char>,
        display: Seq<char>,
        stdout: Seq<char>,
        stderr: Seq<char>,
        state: ToolRunState,
        expanded: bool,
        exit_code: Option<i32>,
        timed: bool,
    },
    Error { message: Seq<char> },
    System { message: Seq<char> },
}

pub open spec fn block_view(b: TranscriptBlock) -> BlockView {
    match b {
        TranscriptBlock::User { text } => BlockView::User { text: text@ },
        TranscriptBlock::Assistant { text, streaming } => BlockView::Assistant { text: text@, streaming },
        TranscriptBlock::Thinking { text, expanded } => BlockView::Thinking { text: text@, expanded },
        TranscriptBlock::Tool {
            tool_call_id,
            name,
            arguments,
            arguments_display,
            stdout,
            stderr,
            state,
            expanded,
            exit_code,
            duration,
        } => BlockView::Tool {
            id: tool_call_id@,
            name: name@,
            arguments: arguments@,
            display: arguments_display@,
            stdout: stdout@,
            stderr: stderr@,
            state,
            expanded,
            exit_code,
            timed: duration is Some,
        },
        TranscriptBlock::Error { message } => BlockView::Error { message: message@ },
        TranscriptBlock::System { message } => BlockView::System { message: message@ },
    }
}

pub open spec fn blocks_view(bs: Seq<TranscriptBlock>) -> Seq<BlockView> {
    bs.map_values(|b: TranscriptBlock| block_view(b))
}

/// What the pretty JSON printer makes of argument text (`None` when it is
/// not JSON).
pub uninterp spec fn pretty_json(text: Seq<char>) -> Option<Seq<char>>;

/// `serde_json::from_str::<serde_json::Value>` and then
/// `serde_json::to_string_pretty`; `None` when either fails. The result is
/// named, not stated.
#[verifier::external_body]
fn pretty_json_text(text: &str) -> (r: Option<String>)
    ensures
        match r {
            Some(s) => pretty_json(text@) == Some(s@),
            None => pretty_json(text@) is None,
        },
{
    match serde_json::from_str::<serde_json::Value>(text) {
        Ok(value) => match serde_json::to_string_pretty(&value) {
            Ok(pretty) => Some(pretty),
            Err(_) => None,
        },
        Err(_) => None,
    }
}

/// How tool arguments are shown: pretty JSON, redacted.
pub open spec fn arguments_display(arguments: Seq<char>) -> Seq<char> {
    sanitized(
        match pretty_json(arguments) {
            Some(p) => p,
            None => "<invalid arguments>"@,
        },
    )
}

fn arguments_display_exec(arguments: &str) -> (r: String)
    ensures
        r@ == arguments_display(arguments@),
{
    match pretty_json_text(arguments) {
        Some(p) => sanitize_message(p.as_str()),
        None => {
            proof {
                reveal_strlit("<invalid arguments>");
            }
            sanitize_message("<invalid arguments>")
        },
    }
}

/// A running tool block with nothing received yet.
pub open spec fn new_tool_view(id: Seq<char>, name: Seq<char>, arguments: Seq<char>) -> BlockView {
    BlockView::Tool {
        id,
        name,
        arguments,
        display: arguments_display(arguments),
        stdout: Seq::empty(),
        stderr: Seq::empty(),
        state: ToolRunState::Running,
        expanded: false,
        exit_code: None,
        timed: false,
    }
}

fn new_tool_block(id: &str, name: &str, arguments: &str) -> (b: TranscriptBlock)
    ensures
        block_view(b) == new_tool_view(id@, name@, arguments@),
{
    TranscriptBlock::Tool {
        tool_call_id: crate::text::to_string(id),
        name: crate::text::to_string(name),
        arguments: crate::text::to_string(arguments),
        arguments_display: arguments_display_exec(arguments),
        stdout: String::new(),
        stderr: String::new(),
        state: ToolRunState::Running,
        expanded: false,
        exit_code: None,
        duration: None,
    }
}

impl TranscriptBlock {
    /// A running tool block for a call with the given JSON argument text.
    pub fn tool(tool_call_id: String, name: String, arguments: String) -> (b: Self)
        ensures
            block_view(b) == new_tool_view(tool_call_id@, name@, arguments@),
    {
        let arguments_display = arguments_display_exec(arguments.as_str());
        TranscriptBlock::Tool {
            tool_call_id,
            name,
            arguments,
            arguments_display,
            stdout: String::new(),
            stderr: String::new(),
            state: ToolRunState::Running,
            expanded: false,
            exit_code: None,
            duration: None,
        }
    }

    /// A copy of the block.
    pub fn duplicate(&self) -> (b: Self)
        ensures
            block_view(b) == block_view(*self),
    {
        match self {
            TranscriptBlock::User { text } => TranscriptBlock::User { text: text.clone() },
            TranscriptBlock::Assistant { text, streaming } => TranscriptBlock::Assistant {
                text: text.clone(),
                streaming: *streaming,
            },
            TranscriptBlock::Thinking { text, expanded } => TranscriptBlock::Thinking {
                text: text.clone(),
                expanded: *expanded,
            },
            TranscriptBlock::Tool {
                tool_call_id,
                name,
                arguments,
                arguments_display,
                stdout,
                stderr,
                state,
                expanded,
                exit_code,
                duration,
            } => TranscriptBlock::Tool {
                tool_call_id: tool_call_id.clone(),
                name: name.clone(),
                arguments: arguments.clone(),
                arguments_display: arguments_display.clone(),
                stdout: stdout.clone(),
                stderr: stderr.clone(),
                state: *state,
                expanded: *expanded,
                exit_code: *exit_code,
                duration: *duration,
            },
            TranscriptBlock::Error { message } => TranscriptBlock::Error { message: message.clone() },
            TranscriptBlock::System { message } => TranscriptBlock::System { message: message.clone() },
        }
    }

    pub open spec fn expandable(self) -> bool {
        self is Tool || self is Thinking
    }

    pub fn is_expandable(&self) -> (r: bool)
        ensures
            r == self.expandable(),
    {
        match self {
            TranscriptBlock::Tool { .. } | TranscriptBlock::Thinking { .. } => true,
            _ => false,
        }
    }
}

/// The blocks of a stored transcript, for display.
pub fn transcript_to_blocks(entries: &[TranscriptBlock]) -> (r: Vec<TranscriptBlock>)
    ensures
        blocks_view(r@) == blocks_view(entries@),
{
    let mut r: Vec<TranscriptBlock> = Vec::new();
    let mut i: usize = 0;
    while i < entries.len()
        invariant
            0 <= i <= entries@.len(),
            r@.len() == i,
            blocks_view(r@) == blocks_view(entries@.take(i as int)),
        decreases entries@.len() - i,
    {
        let b = entries[i].duplicate();
        let ghost before = r@;
        r.push(b);
        proof {
            let t = entries@.take(i + 1);
            assert(t =~= entries@.take(i as int).push(entries@[i as int]));
            assert forall|k: int| 0 <= k < t.len() implies #[trigger] blocks_view(r@)[k] == blocks_view(t)[k] by {
                if k < i {
                    assert(r@[k] == before[k]);
                    assert(blocks_view(before)[k] == blocks_view(entries@.take(i as int))[k]);
                }
            }
            assert(blocks_view(r@) =~= blocks_view(t));
        }
        i = i + 1;
    }
    assert(entries@.take(i as int) =~= entries@);
    r
}

} // verus!

verus! {

// ── Reducer model ───────────────────────────────────────────────────────────

/// Most transcript blocks kept; older ones are dropped.
pub const MAX_TRANSCRIPT_BLOCKS: usize = 2000;

pub enum OutcomeView {
    Completed,
    Aborted,
    ProviderError(Seq<char>),
    ToolError(Seq<char>),
}

pub open spec fn outcome_view(o: RunOutcome) -> OutcomeView {
    match o {
        RunOutcome::Completed => OutcomeView::Completed,
        RunOutcome::Aborted => OutcomeView::Aborted,
        RunOutcome::ProviderError(m) => OutcomeView::ProviderError(m@),
        RunOutcome::ToolError(m) => OutcomeView::ToolError(m@),
    }
}

pub open spec fn opt_outcome_view(o: Option<RunOutcome>) -> Option<OutcomeView> {
    match o {
        Some(x) => Some(outcome_view(x)),
        None => None,
    }
}

pub open spec fn opt_text(o: Option<String>) -> Option<Seq<char>> {
    match o {
        Some(s) => Some(s@),
        None => None,
    }
}

/// The part of the UI state that agent events and command results change.
pub struct ReducerModel {
    pub transcript: Seq<BlockView>,
    /// Transcript position of each tool call's block.
    pub tool_index: Seq<(Seq<char>, usize)>,
    /// Tool calls whose start time is known.
    pub started: Seq<Seq<char>>,
    pub run_tool_error: Option<Seq<char>>,
    pub current_run: Option<RunId>,
    pub activity: ActivityState,
    pub last_outcome: Option<OutcomeView>,
    pub status: Seq<char>,
    pub error: Option<Seq<char>>,
    pub scroll: ScrollState,
    pub selection: TranscriptSelection,
}

pub open spec fn keys_distinct(idx: Seq<(Seq<char>, usize)>) -> bool {
    forall|i: int, j: int| 0 <= i < idx.len() && 0 <= j < idx.len() && i != j ==> idx[i].0 != idx[j].0
}

pub open spec fn ids_distinct(ids: Seq<Seq<char>>) -> bool {
    forall|i: int, j: int| 0 <= i < ids.len() && 0 <= j < ids.len() && i != j ==> ids[i] != ids[j]
}

/// Position of `id` in the tool index.
pub open spec fn index_slot(idx: Seq<(Seq<char>, usize)>, id: Seq<char>) -> Option<int> {
    if exists|i: int| 0 <= i < idx.len() && idx[i].0 == id {
        Some(choose|i: int| 0 <= i < idx.len() && idx[i].0 == id)
    } else {
        None
    }
}

/// The index with `id` mapped to `v` (replacing an earlier entry).
pub open spec fn index_set(idx: Seq<(Seq<char>, usize)>, id: Seq<char>, v: usize) -> Seq<(Seq<char>, usize)> {
    match index_slot(idx, id) {
        Some(i) => idx.update(i, (id, v)),
        None => idx.push((id, v)),
    }
}

pub open spec fn started_with(ids: Seq<Seq<char>>, id: Seq<char>) -> Seq<Seq<char>> {
    if ids.contains(id) {
        ids
    } else {
        ids.push(id)
    }
}

pub open spec fn started_without(ids: Seq<Seq<char>>, id: Seq<char>) -> Seq<Seq<char>>
    decreases ids.len(),
{
    if ids.len() == 0 {
        ids
    } else if ids.last() == id {
        started_without(ids.drop_last(), id)
    } else {
        started_without(ids.drop_last(), id).push(ids.last())
    }
}

/// Index entries moved back by `remove` positions (not below zero); those
/// then beyond the transcript are dropped.
pub open spec fn shifted_index(idx: Seq<(Seq<char>, usize)>, remove: nat, len: nat) -> Seq<(Seq<char>, usize)>
    decreases idx.len(),
{
    if idx.len() == 0 {
        idx
    } else {
        let rest = shifted_index(idx.drop_last(), remove, len);
        let e = idx.last();
        let v: usize = if e.1 >= remove {
            (e.1 - remove) as usize
        } else {
            0usize
        };
        if v < len {
            rest.push((e.0, v))
        } else {
            rest
        }
    }
}

/// Keep at most [`MAX_TRANSCRIPT_BLOCKS`] blocks, dropping the oldest and
/// moving tool positions and the selection along.
pub open spec fn limit_blocks(m: ReducerModel) -> ReducerModel {
    if m.transcript.len() <= MAX_TRANSCRIPT_BLOCKS {
        m
    } else {
        let remove = (m.transcript.len() - MAX_TRANSCRIPT_BLOCKS) as nat;
        ReducerModel {
            transcript: m.transcript.skip(remove as int),
            tool_index: shifted_index(m.tool_index, remove, MAX_TRANSCRIPT_BLOCKS as nat),
            selection: TranscriptSelection {
                selected_block: match m.selection.selected_block {
                    Some(i) => if i >= remove {
                        Some((i - remove) as usize)
                    } else {
                        None
                    },
                    None => None,
                },
            },
            ..m
        }
    }
}

pub open spec fn with_lines(m: ReducerModel, count: nat) -> ReducerModel {
    ReducerModel { scroll: noted(m.scroll, count), ..m }
}

/// The last assistant block stops streaming.
pub open spec fn finish_stream(t: Seq<BlockView>) -> Seq<BlockView> {
    if t.len() > 0 && t.last() is Assistant {
        t.update(t.len() - 1, BlockView::Assistant { text: t.last()->Assistant_text, streaming: false })
    } else {
        t
    }
}

/// All text contents, joined by line feeds.
pub open spec fn result_texts(content: Seq<Content>) -> Seq<Seq<char>>
    decreases content.len(),
{
    if content.len() == 0 {
        Seq::empty()
    } else {
        result_texts(content.drop_last()) + match content.last() {
            Content::Text { text } => seq![text@],
            _ => Seq::empty(),
        }
    }
}

pub open spec fn final_text(result: AgentToolResult) -> Seq<char> {
    join(result_texts(result.content@), "\n"@)
}

/// A tool block after its completion: the name fills in for `unknown`,
/// state, exit code and timing are set, and a tool that streamed nothing
/// keeps its final text as stdout.
pub open spec fn finished_block(b: BlockView, name: Seq<char>, result: AgentToolResult, timed: bool) -> BlockView {
    match b {
        BlockView::Tool { id, name: old_name, arguments, display, stdout, stderr, expanded, .. } => {
            let text = final_text(result);
            BlockView::Tool {
                id,
                name: if old_name == "unknown"@ {
                    name
                } else {
                    old_name
                },
                arguments,
                display,
                stdout: if stdout.len() == 0 && stderr.len() == 0 && text.len() > 0 {
                    limited(stdout, text)
                } else {
                    stdout
                },
                stderr,
                state: state_for(result),
                expanded,
                exit_code: result.exit_code,
                timed,
            }
        },
        _ => b,
    }
}

/// A tool block after output on one of its streams.
pub open spec fn with_output(b: BlockView, stream: ToolOutputStream, chunk: Seq<char>) -> BlockView {
    match b {
        BlockView::Tool { id, name, arguments, display, stdout, stderr, state, expanded, exit_code, timed } => {
            BlockView::Tool {
                id,
                name,
                arguments,
                display,
                stdout: if stream == ToolOutputStream::Stdout {
                    limited(stdout, chunk)
                } else {
                    stdout
                },
                stderr: if stream == ToolOutputStream::Stderr {
                    limited(stderr, chunk)
                } else {
                    stderr
                },
                state,
                expanded,
                exit_code,
                timed,
            }
        },
        _ => b,
    }
}

} // verus!

verus! {

pub open spec fn accepts_run(m: ReducerModel, run: RunId) -> bool {
    m.current_run == Some(run)
}

pub open spec fn thinking_status(text: Seq<char>) -> Seq<char> {
    "Thinking · "@ + crate::text::decimal(line_count(text)) + " lines"@
}

/// The transcript after assistant text arrives: it extends the last block
/// when that is assistant text, else starts a new one; either way it is
/// streaming.
pub open spec fn with_assistant_text(t: Seq<BlockView>, text: Seq<char>) -> Seq<BlockView> {
    if t.len() > 0 && t.last() is Assistant {
        t.update(t.len() - 1, BlockView::Assistant { text: t.last()->Assistant_text + text, streaming: true })
    } else {
        t.push(BlockView::Assistant { text, streaming: true })
    }
}

/// The transcript after thinking text arrives: it extends the last block
/// when that is thinking, else starts a new collapsed one.
pub open spec fn with_thinking_text(t: Seq<BlockView>, text: Seq<char>) -> Seq<BlockView> {
    if t.len() > 0 && t.last() is Thinking {
        t.update(
            t.len() - 1,
            BlockView::Thinking { text: t.last()->Thinking_text + text, expanded: t.last()->Thinking_expanded },
        )
    } else {
        t.push(BlockView::Thinking { text, expanded: false })
    }
}

/// Update the tool block at `pos`, if there is one there.
pub open spec fn update_tool_at(t: Seq<BlockView>, pos: int, b: BlockView) -> Seq<BlockView> {
    if 0 <= pos < t.len() && t[pos] is Tool {
        t.update(pos, b)
    } else {
        t
    }
}

pub open spec fn tool_output_step(m: ReducerModel, id: Seq<char>, stream: ToolOutputStream, chunk: Seq<char>) -> ReducerModel {
    let m1 = match index_slot(m.tool_index, id) {
        Some(i) => m,
        None => ReducerModel {
            tool_index: index_set(m.tool_index, id, m.transcript.len() as usize),
            transcript: m.transcript.push(new_tool_view(id, "unknown"@, "null"@)),
            ..m
        },
    };
    let pos: int = match index_slot(m.tool_index, id) {
        Some(i) => m.tool_index[i].1 as int,
        None => m.transcript.len() as int,
    };
    let t = if 0 <= pos < m1.transcript.len() {
        update_tool_at(m1.transcript, pos, with_output(m1.transcript[pos], stream, chunk))
    } else {
        m1.transcript
    };
    with_lines(limit_blocks(ReducerModel { transcript: t, ..m1 }), line_count(chunk))
}

pub open spec fn tool_finished_step(m: ReducerModel, id: Seq<char>, name: Seq<char>, result: AgentToolResult) -> ReducerModel {
    let timed = m.started.contains(id);
    let st = state_for(result);
    let m1 = match index_slot(m.tool_index, id) {
        Some(i) => {
            let pos = m.tool_index[i].1 as int;
            ReducerModel {
                transcript: if 0 <= pos < m.transcript.len() {
                    update_tool_at(m.transcript, pos, finished_block(m.transcript[pos], name, result, timed))
                } else {
                    m.transcript
                },
                started: started_without(m.started, id),
                ..m
            }
        },
        None => with_lines(
            ReducerModel {
                transcript: m.transcript.push(
                    finished_block(new_tool_view(id, name, "null"@), name, result, timed),
                ),
                tool_index: index_set(m.tool_index, id, m.transcript.len() as usize),
                started: started_without(m.started, id),
                ..m
            },
            1,
        ),
    };
    if st == ToolRunState::Failed {
        ReducerModel { run_tool_error: Some(name + " failed"@), status: "Tool error · "@ + name, ..m1 }
    } else {
        ReducerModel { status: name + " · "@ + run_state_label(st), ..m1 }
    }
}

pub open spec fn run_failed_outcome(error: AgentRunError) -> OutcomeView {
    OutcomeView::ToolError(phase_label(error.phase) + ": "@ + error.message@)
}

pub open spec fn run_failed_message(error: AgentRunError) -> Seq<char> {
    "Run failed ["@ + phase_label(error.phase) + "]: "@ + error.message@
}

pub open spec fn run_finished_step(m: ReducerModel, stop: StopReason) -> ReducerModel {
    let m = ReducerModel { transcript: finish_stream(m.transcript), ..m };
    match stop {
        StopReason::ToolUse => ReducerModel { activity: ActivityState::AgentRunning, status: "Agent running"@, ..m },
        StopReason::Stop => ReducerModel {
            activity: ActivityState::Idle,
            last_outcome: Some(
                match m.run_tool_error {
                    Some(e) => OutcomeView::ToolError(e),
                    None => OutcomeView::Completed,
                },
            ),
            run_tool_error: None,
            status: "Ready"@,
            ..m
        },
        StopReason::Length => ReducerModel {
            activity: ActivityState::Idle,
            last_outcome: Some(OutcomeView::Completed),
            status: "Completed · response truncated"@,
            ..m
        },
        StopReason::Error => ReducerModel {
            activity: ActivityState::Idle,
            last_outcome: Some(
                OutcomeView::ProviderError(
                    match m.error {
                        Some(e) => e,
                        None => "Provider error"@,
                    },
                ),
            ),
            status: "Provider error"@,
            ..m
        },
        StopReason::Aborted => ReducerModel {
            activity: ActivityState::Idle,
            last_outcome: Some(OutcomeView::Aborted),
            status: "Aborted"@,
            ..m
        },
    }
}

/// How one agent event changes the UI state. Events of another run change
/// nothing; a new run resets the tool bookkeeping.
pub open spec fn event_step(m: ReducerModel, e: AgentEvent) -> ReducerModel {
    match e {
        AgentEvent::RunStarted { run_id } => ReducerModel {
            current_run: Some(run_id),
            activity: ActivityState::AgentRunning,
            tool_index: Seq::empty(),
            started: Seq::empty(),
            run_tool_error: None,
            ..m
        },
        AgentEvent::TextDelta { run_id, text } => if !accepts_run(m, run_id) || text@.len() == 0 {
            m
        } else {
            limit_blocks(
                with_lines(
                    ReducerModel { transcript: with_assistant_text(m.transcript, text@), ..m },
                    line_count(text@),
                ),
            )
        },
        AgentEvent::ThinkingDelta { run_id, text } => if !accepts_run(m, run_id) || text@.len() == 0 {
            m
        } else {
            limit_blocks(
                with_lines(
                    ReducerModel {
                        transcript: with_thinking_text(m.transcript, text@),
                        status: thinking_status(text@),
                        ..m
                    },
                    line_count(text@),
                ),
            )
        },
        AgentEvent::ToolStarted { run_id, tool_call_id, name, arguments } => if !accepts_run(m, run_id) {
            m
        } else {
            limit_blocks(
                with_lines(
                    ReducerModel {
                        tool_index: index_set(m.tool_index, tool_call_id@, m.transcript.len() as usize),
                        started: started_with(m.started, tool_call_id@),
                        transcript: m.transcript.push(new_tool_view(tool_call_id@, name@, arguments@)),
                        status: "Running "@ + name@,
                        ..m
                    },
                    1,
                ),
            )
        },
        AgentEvent::ToolOutput { run_id, tool_call_id, stream, chunk } => if !accepts_run(m, run_id) {
            m
        } else {
            tool_output_step(m, tool_call_id@, stream, chunk@)
        },
        AgentEvent::ToolFinished { run_id, tool_call_id, name, result } => if !accepts_run(m, run_id) {
            m
        } else {
            tool_finished_step(m, tool_call_id@, name@, result)
        },
        AgentEvent::ProviderError { run_id, error } => if !accepts_run(m, run_id) {
            m
        } else {
            let message = sanitized(error.message@);
            limit_blocks(
                with_lines(
                    ReducerModel {
                        error: Some(message),
                        transcript: m.transcript.push(BlockView::Error { message }),
                        ..m
                    },
                    2,
                ),
            )
        },
        AgentEvent::RunAborted { run_id } => if !accepts_run(m, run_id) {
            m
        } else {
            limit_blocks(
                with_lines(
                    ReducerModel {
                        transcript: finish_stream(m.transcript).push(BlockView::System { message: "Run aborted"@ }),
                        activity: ActivityState::Idle,
                        last_outcome: Some(OutcomeView::Aborted),
                        status: "Aborted"@,
                        ..m
                    },
                    2,
                ),
            )
        },
        AgentEvent::RunFailed { run_id, error } => if !accepts_run(m, run_id) {
            m
        } else {
            limit_blocks(
                with_lines(
                    ReducerModel {
                        transcript: finish_stream(m.transcript).push(
                            BlockView::Error { message: run_failed_message(error) },
                        ),
                        activity: ActivityState::Idle,
                        last_outcome: Some(run_failed_outcome(error)),
                        status: "Failed · "@ + phase_label(error.phase),
                        ..m
                    },
                    2,
                ),
            )
        },
        AgentEvent::RunFinished { run_id, stop_reason } => if !accepts_run(m, run_id) {
            m
        } else {
            run_finished_step(m, stop_reason)
        },
    }
}

} // verus!

verus! {

// ── App state ───────────────────────────────────────────────────────────────

/// `Instant::elapsed`. A clock reading: nothing is claimed of it.
#[verifier::external_body]
pub(crate) fn elapsed_since(start: &std::time::Instant) -> std::time::Duration {
    start.elapsed()
}

/// The terminal UI's state.
#[derive(Debug)]
pub struct AppState {
    pub transcript: Vec<TranscriptBlock>,
    pub input: InputState,
    pub history: InputHistory,
    pub focus: Focus,
    pub selection: TranscriptSelection,
    pub scroll: ScrollState,
    pub activity: ActivityState,
    pub last_outcome: Option<RunOutcome>,
    pub current_run_id: Option<RunId>,
    pub provider: String,
    pub model: String,
    pub status: String,
    pub error: Option<String>,
    pub terminal_size: (u16, u16),
    pub quit: bool,
    tool_index: Vec<(String, usize)>,
    tool_started_at: Vec<(String, std::time::Instant)>,
    run_tool_error: Option<String>,
}

/// The parts of the UI state that agent events and command results leave
/// alone.
pub struct UiView {
    pub input: InputState,
    pub history: InputHistory,
    pub focus: Focus,
    pub provider: Seq<char>,
    pub model: Seq<char>,
    pub terminal_size: (u16, u16),
    pub quit: bool,
}

/// The UI state as the model sees it: the editor and history by their
/// views.
pub struct UiModel {
    pub input: InputView,
    pub history: crate::tui::HistoryModel,
    pub focus: Focus,
    pub provider: Seq<char>,
    pub model: Seq<char>,
    pub terminal_size: (u16, u16),
    pub quit: bool,
}

pub open spec fn ui_model_of(u: UiView) -> UiModel {
    UiModel {
        input: u.input.iview(),
        history: u.history.model(),
        focus: u.focus,
        provider: u.provider,
        model: u.model,
        terminal_size: u.terminal_size,
        quit: u.quit,
    }
}

impl AppState {
    pub closed spec fn model(&self) -> ReducerModel {
        ReducerModel {
            transcript: blocks_view(self.transcript@),
            tool_index: self.tool_index@.map_values(|e: (String, usize)| (e.0@, e.1)),
            started: self.tool_started_at@.map_values(|e: (String, std::time::Instant)| e.0@),
            run_tool_error: opt_text(self.run_tool_error),
            current_run: self.current_run_id,
            activity: self.activity,
            last_outcome: opt_outcome_view(self.last_outcome),
            status: self.status@,
            error: opt_text(self.error),
            scroll: self.scroll,
            selection: self.selection,
        }
    }

    pub closed spec fn ui(&self) -> UiView {
        UiView {
            input: self.input,
            history: self.history,
            focus: self.focus,
            provider: self.provider@,
            model: self.model@,
            terminal_size: self.terminal_size,
            quit: self.quit,
        }
    }

    pub open spec fn wf(&self) -> bool {
        keys_distinct(self.model().tool_index) && ids_distinct(self.model().started)
    }

    /// A fresh UI of the given terminal size: input focus, following output.
    pub fn new(terminal_size: (u16, u16)) -> (s: Self)
        ensures
            s.wf(),
            s.model() == (ReducerModel {
                transcript: Seq::empty(),
                tool_index: Seq::empty(),
                started: Seq::empty(),
                run_tool_error: None,
                current_run: None,
                activity: ActivityState::Idle,
                last_outcome: None,
                status: "Ready"@,
                error: None,
                scroll: ScrollState { offset_from_bottom: 0, follow_output: true, unread_lines: 0 },
                selection: TranscriptSelection { selected_block: None },
            }),
            s.ui().focus == Focus::Input,
            s.ui().provider == "mock"@,
            s.ui().model == "mock"@,
            s.ui().terminal_size == terminal_size,
            !s.ui().quit,
            s.ui().input.text@.len() == 0,
            s.ui().input.wf(),
            s.ui().history.entries@.len() == 0,
    {
        let s = AppState {
            transcript: Vec::new(),
            input: InputState {
                text: String::new(),
                cursor_byte: 0,
                preferred_column: None,
                viewport_line: 0,
            },
            history: InputHistory { entries: Vec::new(), cursor: None, draft: String::new() },
            focus: Focus::Input,
            selection: TranscriptSelection { selected_block: None },
            scroll: ScrollState { offset_from_bottom: 0, follow_output: true, unread_lines: 0 },
            activity: ActivityState::Idle,
            last_outcome: None,
            current_run_id: None,
            provider: crate::text::to_string("mock"),
            model: crate::text::to_string("mock"),
            status: crate::text::to_string("Ready"),
            error: None,
            terminal_size,
            quit: false,
            tool_index: Vec::new(),
            tool_started_at: Vec::new(),
            run_tool_error: None,
        };
        assert(s.model().tool_index =~= Seq::<(Seq<char>, usize)>::empty());
        assert(s.model().started =~= Seq::<Seq<char>>::empty());
        assert(s.model().transcript =~= Seq::<BlockView>::empty());
        proof {
            reveal_strlit("Ready");
            reveal_strlit("mock");
            assert(s.input.text@.take(0) =~= Seq::<char>::empty());
            assert(cursor_at_zero(s.input));
        }
        s
    }

    /// Set the provider and model shown in the status line.
    pub fn set_provider_model(&mut self, provider: String, model: String)
        ensures
            final(self).ui() == (UiView { provider: provider@, model: model@, ..old(self).ui() }),
            final(self).model() == old(self).model(),
    {
        self.provider = provider;
        self.model = model;
    }

    fn index_position(&self, id: &str) -> (r: Option<usize>)
        requires
            self.wf(),
        ensures
            r is Some ==> index_slot(self.model().tool_index, id@) == Some(r.unwrap() as int) && r.unwrap()
                < self.tool_index@.len(),
            r is None ==> index_slot(self.model().tool_index, id@) is None,
    {
        let ghost idx = self.model().tool_index;
        let idc = chars_of(id);
        let mut i: usize = 0;
        while i < self.tool_index.len()
            invariant
                0 <= i <= self.tool_index@.len(),
                idx == self.model().tool_index,
                keys_distinct(idx),
                idc@ == id@,
                forall|k: int| 0 <= k < i ==> idx[k].0 != id@,
            decreases self.tool_index@.len() - i,
        {
            let kc = chars_of(self.tool_index[i].0.as_str());
            if crate::text::chars_eq(kc.as_slice(), idc.as_slice()) {
                proof {
                    assert(idx[i as int].0 == id@);
                    let j = choose|j: int| 0 <= j < idx.len() && idx[j].0 == id@;
                    assert(j == i);
                }
                return Some(i);
            }
            i = i + 1;
        }
        None
    }

    fn index_set(&mut self, id: &str, v: usize)
        requires
            old(self).wf(),
        ensures
            final(self).wf(),
            final(self).model() == (ReducerModel {
                tool_index: index_set(old(self).model().tool_index, id@, v),
                ..old(self).model()
            }),
            final(self).ui() == old(self).ui(),
    {
        let ghost idx = old(self).model().tool_index;
        match self.index_position(id) {
            Some(i) => {
                self.tool_index.set(i, (crate::text::to_string(id), v));
                assert(self.model().tool_index =~= idx.update(i as int, (id@, v)));
                assert forall|a: int| 0 <= a < idx.len() implies self.model().tool_index[a].0 == idx[a].0 by {}
            },
            None => {
                self.tool_index.push((crate::text::to_string(id), v));
                let ghost n = self.model().tool_index;
                assert(n =~= idx.push((id@, v)));
                assert forall|a: int, b: int| 0 <= a < n.len() && 0 <= b < n.len() && a != b implies n[a].0
                    != n[b].0 by {
                    if a == n.len() - 1 && b < n.len() - 1 {
                        assert(n[b] == idx[b]);
                    }
                    if b == n.len() - 1 && a < n.len() - 1 {
                        assert(n[a] == idx[a]);
                    }
                }
            },
        }
    }

    fn started_position(&self, id: &str) -> (r: Option<usize>)
        requires
            self.wf(),
        ensures
            r is Some ==> r.unwrap() < self.tool_started_at@.len() && self.model().started[r.unwrap() as int]
                == id@,
            r is Some <==> self.model().started.contains(id@),
    {
        let ghost ids = self.model().started;
        let idc = chars_of(id);
        let mut i: usize = 0;
        while i < self.tool_started_at.len()
            invariant
                0 <= i <= self.tool_started_at@.len(),
                ids == self.model().started,
                idc@ == id@,
                forall|k: int| 0 <= k < i ==> ids[k] != id@,
            decreases self.tool_started_at@.len() - i,
        {
            let kc = chars_of(self.tool_started_at[i].0.as_str());
            if crate::text::chars_eq(kc.as_slice(), idc.as_slice()) {
                assert(ids[i as int] == id@);
                return Some(i);
            }
            i = i + 1;
        }
        None
    }

    /// Remember the start time of a tool call.
    fn note_started(&mut self, id: &str)
        requires
            old(self).wf(),
        ensures
            final(self).wf(),
            final(self).model() == (ReducerModel {
                started: started_with(old(self).model().started, id@),
                ..old(self).model()
            }),
            final(self).ui() == old(self).ui(),
    {
        let ghost ids = old(self).model().started;
        let now = crate::print::clock_now();
        match self.started_position(id) {
            Some(i) => {
                self.tool_started_at.set(i, (crate::text::to_string(id), now));
                assert(self.model().started =~= ids);
            },
            None => {
                self.tool_started_at.push((crate::text::to_string(id), now));
                let ghost n = self.model().started;
                assert(n =~= ids.push(id@));
                assert forall|a: int, b: int| 0 <= a < n.len() && 0 <= b < n.len() && a != b implies n[a]
                    != n[b] by {
                    if a == n.len() - 1 && b < n.len() - 1 {
                        assert(n[b] == ids[b]);
                    }
                    if b == n.len() - 1 && a < n.len() - 1 {
                        assert(n[a] == ids[a]);
                    }
                }
            },
        }
    }
}

spec fn cursor_at_zero(input: InputState) -> bool {
    crate::tui::cursor_at(input.text@, input.cursor_byte as int, 0)
}

fn joined_text(a: &str, b: &str) -> (r: String)
    ensures
        r@ == a@ + b@,
{
    let mut v = chars_of(a);
    append_str(&mut v, b);
    string_from_chars(v.as_slice())
}

proof fn lemma_shifted_keys(idx: Seq<(Seq<char>, usize)>, remove: nat, len: nat)
    ensures
        forall|k: int|
            0 <= k < shifted_index(idx, remove, len).len() ==> exists|j: int|
                0 <= j < idx.len() && idx[j].0 == #[trigger] shifted_index(idx, remove, len)[k].0,
    decreases idx.len(),
{
    if idx.len() > 0 {
        lemma_shifted_keys(idx.drop_last(), remove, len);
        let rest = shifted_index(idx.drop_last(), remove, len);
        let sh = shifted_index(idx, remove, len);
        assert forall|k: int| 0 <= k < sh.len() implies exists|j: int|
            0 <= j < idx.len() && idx[j].0 == #[trigger] sh[k].0 by {
            if k < rest.len() {
                assert(sh[k] == rest[k]);
                let j = choose|j: int| 0 <= j < idx.drop_last().len() && idx.drop_last()[j].0 == rest[k].0;
                assert(idx[j] == idx.drop_last()[j]);
            } else {
                assert(sh[k].0 == idx.last().0);
                assert(idx[idx.len() - 1] == idx.last());
            }
        }
    }
}

proof fn lemma_shifted_distinct(idx: Seq<(Seq<char>, usize)>, remove: nat, len: nat)
    requires
        keys_distinct(idx),
    ensures
        keys_distinct(shifted_index(idx, remove, len)),
    decreases idx.len(),
{
    if idx.len() > 0 {
        let d = idx.drop_last();
        assert(keys_distinct(d)) by {
            assert forall|a: int, b: int| 0 <= a < d.len() && 0 <= b < d.len() && a != b implies d[a].0
                != d[b].0 by {
                assert(d[a] == idx[a]);
                assert(d[b] == idx[b]);
            }
        }
        lemma_shifted_distinct(d, remove, len);
        lemma_shifted_keys(d, remove, len);
        let rest = shifted_index(d, remove, len);
        let sh = shifted_index(idx, remove, len);
        if sh.len() == rest.len() + 1 {
            assert forall|a: int, b: int| 0 <= a < sh.len() && 0 <= b < sh.len() && a != b implies sh[a].0
                != sh[b].0 by {
                if a == sh.len() - 1 && b < rest.len() {
                    assert(sh[b] == rest[b]);
                    let j = choose|j: int| 0 <= j < d.len() && d[j].0 == #[trigger] rest[b].0;
                    assert(d[j] == idx[j]);
                    assert(sh[a].0 == idx[idx.len() - 1].0);
                }
                if b == sh.len() - 1 && a < rest.len() {
                    assert(sh[a] == rest[a]);
                    let j = choose|j: int| 0 <= j < d.len() && d[j].0 == #[trigger] rest[a].0;
                    assert(d[j] == idx[j]);
                    assert(sh[b].0 == idx[idx.len() - 1].0);
                }
                if a < rest.len() && b < rest.len() {
                    assert(sh[a] == rest[a]);
                    assert(sh[b] == rest[b]);
                }
            }
        }
    }
}

impl AppState {
    fn take_started(&mut self, id: &str) -> (r: Option<std::time::Instant>)
        requires
            old(self).wf(),
        ensures
            final(self).wf(),
            final(self).model() == (ReducerModel {
                started: started_without(old(self).model().started, id@),
                ..old(self).model()
            }),
            r is Some <==> old(self).model().started.contains(id@),
            final(self).ui() == old(self).ui(),
    {
        let ghost ids = old(self).model().started;
        match self.started_position(id) {
            Some(i) => {
                let (_, t) = self.tool_started_at.remove(i);
                proof {
                    lemma_without_at(ids, id@, i as int);
                    assert(self.model().started =~= ids.remove(i as int));
                    let n = self.model().started;
                    assert forall|a: int, b: int| 0 <= a < n.len() && 0 <= b < n.len() && a != b implies n[a]
                        != n[b] by {
                        let oa = if a < i { a } else { a + 1 };
                        let ob = if b < i { b } else { b + 1 };
                        assert(n[a] == ids[oa]);
                        assert(n[b] == ids[ob]);
                    }
                }
                Some(t)
            },
            None => {
                proof {
                    lemma_without_absent(ids, id@);
                }
                None
            },
        }
    }

    /// Keep at most [`MAX_TRANSCRIPT_BLOCKS`] blocks.
    fn enforce_block_limit(&mut self)
        requires
            old(self).wf(),
        ensures
            final(self).wf(),
            final(self).model() == limit_blocks(old(self).model()),
            final(self).ui() == old(self).ui(),
    {
        let len = self.transcript.len();
        if len <= MAX_TRANSCRIPT_BLOCKS {
            return;
        }
        let remove = len - MAX_TRANSCRIPT_BLOCKS;
        let ghost old_idx = old(self).model().tool_index;
        let tail = self.transcript.split_off(remove);
        self.transcript = tail;
        let mut shifted: Vec<(String, usize)> = Vec::new();
        let mut i: usize = 0;
        while i < self.tool_index.len()
            invariant
                0 <= i <= self.tool_index@.len(),
                remove == len - MAX_TRANSCRIPT_BLOCKS,
                old_idx == self.tool_index@.map_values(|e: (String, usize)| (e.0@, e.1)),
                shifted@.map_values(|e: (String, usize)| (e.0@, e.1)) == shifted_index(
                    old_idx.take(i as int),
                    remove as nat,
                    MAX_TRANSCRIPT_BLOCKS as nat,
                ),
            decreases self.tool_index@.len() - i,
        {
            let v = self.tool_index[i].1;
            let nv: usize = if v >= remove {
                v - remove
            } else {
                0
            };
            assert(old_idx.take(i + 1).drop_last() =~= old_idx.take(i as int));
            if nv < MAX_TRANSCRIPT_BLOCKS {
                let ghost before = shifted@;
                shifted.push((self.tool_index[i].0.clone(), nv));
                assert(shifted@.map_values(|e: (String, usize)| (e.0@, e.1)) =~= before.map_values(
                    |e: (String, usize)| (e.0@, e.1),
                ).push((old_idx[i as int].0, nv)));
            }
            i = i + 1;
        }
        assert(old_idx.take(i as int) =~= old_idx);
        self.tool_index = shifted;
        self.selection.selected_block = match self.selection.selected_block {
            Some(s) => if s >= remove {
                Some(s - remove)
            } else {
                None
            },
            None => None,
        };
        proof {
            lemma_shifted_distinct(old_idx, remove as nat, MAX_TRANSCRIPT_BLOCKS as nat);
            assert(self.model().transcript =~= old(self).model().transcript.skip(remove as int));
        }
    }

    fn note_lines(&mut self, count: usize)
        ensures
            final(self).model() == with_lines(old(self).model(), count as nat),
            final(self).ui() == old(self).ui(),
            final(self).wf() == old(self).wf(),
    {
        self.scroll.note_new_lines(count);
    }

    fn push_block(&mut self, b: TranscriptBlock)
        ensures
            final(self).model() == (ReducerModel {
                transcript: old(self).model().transcript.push(block_view(b)),
                ..old(self).model()
            }),
            final(self).ui() == old(self).ui(),
            final(self).wf() == old(self).wf(),
    {
        self.transcript.push(b);
        assert(self.model().transcript =~= old(self).model().transcript.push(block_view(b)));
    }

    /// Replace block `i`, returning the block that was there.
    fn swap_block(&mut self, i: usize, b: TranscriptBlock) -> (r: TranscriptBlock)
        requires
            i < old(self).transcript@.len(),
        ensures
            r == old(self).transcript@[i as int],
            final(self).model() == (ReducerModel {
                transcript: old(self).model().transcript.update(i as int, block_view(b)),
                ..old(self).model()
            }),
            final(self).transcript@ == old(self).transcript@.update(i as int, b),
            final(self).ui() == old(self).ui(),
            final(self).wf() == old(self).wf(),
    {
        let mut x = b;
        self.transcript.set_and_swap(i, &mut x);
        assert(self.model().transcript =~= old(self).model().transcript.update(i as int, block_view(b)));
        x
    }

    /// The last assistant block stops streaming.
    fn finish_assistant_stream(&mut self)
        ensures
            final(self).model() == (ReducerModel {
                transcript: finish_stream(old(self).model().transcript),
                ..old(self).model()
            }),
            final(self).ui() == old(self).ui(),
            final(self).wf() == old(self).wf(),
    {
        let n = self.transcript.len();
        if n == 0 {
            return;
        }
        let is_assistant = match &self.transcript[n - 1] {
            TranscriptBlock::Assistant { .. } => true,
            _ => false,
        };
        if !is_assistant {
            return;
        }
        let placeholder = TranscriptBlock::System { message: String::new() };
        let old_block = self.swap_block(n - 1, placeholder);
        match old_block {
            TranscriptBlock::Assistant { text, .. } => {
                self.swap_block(n - 1, TranscriptBlock::Assistant { text, streaming: false });
            },
            other => {
                self.swap_block(n - 1, other);
            },
        }
        proof {
            assert(self.model().transcript =~= finish_stream(old(self).model().transcript));
        }
    }
}

fn final_text_exec(result: &AgentToolResult) -> (r: String)
    ensures
        r@ == final_text(*result),
{
    let mut parts: Vec<Vec<char>> = Vec::new();
    let mut i: usize = 0;
    while i < result.content.len()
        invariant
            0 <= i <= result.content@.len(),
            parts@.map_values(|p: Vec<char>| p@) == result_texts(result.content@.take(i as int)),
        decreases result.content@.len() - i,
    {
        assert(result.content@.take(i + 1).drop_last() =~= result.content@.take(i as int));
        match &result.content[i] {
            Content::Text { text } => {
                let ghost before = parts@;
                parts.push(chars_of(text.as_str()));
                assert(parts@.map_values(|p: Vec<char>| p@) =~= before.map_values(|p: Vec<char>| p@).push(
                    text@,
                ));
            },
            _ => {},
        }
        i = i + 1;
    }
    assert(result.content@.take(i as int) =~= result.content@);
    let sep = chars_of("\n");
    let j = join_exec(parts.as_slice(), sep.as_slice());
    string_from_chars(j.as_slice())
}

/// Apply a completion to a tool block.
fn finish_tool_block(
    b: TranscriptBlock,
    name: &str,
    result: &AgentToolResult,
    duration: Option<std::time::Duration>,
    text: &str,
) -> (r: TranscriptBlock)
    requires
        text@ == final_text(*result),
    ensures
        block_view(r) == finished_block(block_view(b), name@, *result, duration is Some),
{
    match b {
        TranscriptBlock::Tool {
            tool_call_id,
            name: old_name,
            arguments,
            arguments_display,
            stdout,
            stderr,
            expanded,
            ..
        } => {
            let on = chars_of(old_name.as_str());
            let new_name = if crate::text::chars_eq_str(on.as_slice(), "unknown") {
                crate::text::to_string(name)
            } else {
                old_name
            };
            let mut out = stdout;
            if out.as_str().is_empty() && stderr.as_str().is_empty() && !text.is_empty() {
                append_limited(&mut out, text);
            }
            TranscriptBlock::Tool {
                tool_call_id,
                name: new_name,
                arguments,
                arguments_display,
                stdout: out,
                stderr,
                state: tool_state_for(result),
                expanded,
                exit_code: result.exit_code,
                duration,
            }
        },
        other => other,
    }
}

/// Add output to a tool block's stream.
fn tool_block_with_output(b: TranscriptBlock, stream: ToolOutputStream, chunk: &str) -> (r: TranscriptBlock)
    ensures
        block_view(r) == with_output(block_view(b), stream, chunk@),
{
    match b {
        TranscriptBlock::Tool {
            tool_call_id,
            name,
            arguments,
            arguments_display,
            stdout,
            stderr,
            state,
            expanded,
            exit_code,
            duration,
        } => {
            let mut out = stdout;
            let mut err = stderr;
            match stream {
                ToolOutputStream::Stdout => append_limited(&mut out, chunk),
                ToolOutputStream::Stderr => append_limited(&mut err, chunk),
            }
            TranscriptBlock::Tool {
                tool_call_id,
                name,
                arguments,
                arguments_display,
                stdout: out,
                stderr: err,
                state,
                expanded,
                exit_code,
                duration,
            }
        },
        other => other,
    }
}

impl AppState {
    fn accepts(&self, run_id: RunId) -> (b: bool)
        ensures
            b == accepts_run(self.model(), run_id),
    {
        match self.current_run_id {
            Some(r) => r.0 == run_id.0,
            None => false,
        }
    }

    fn is_tool_at(&self, pos: usize) -> (b: bool)
        ensures
            b == (pos < self.transcript@.len() && self.model().transcript[pos as int] is Tool),
    {
        if pos >= self.transcript.len() {
            return false;
        }
        match &self.transcript[pos] {
            TranscriptBlock::Tool { .. } => true,
            _ => false,
        }
    }

    fn append_assistant(&mut self, text: &str)
        ensures
            final(self).model() == (ReducerModel {
                transcript: with_assistant_text(old(self).model().transcript, text@),
                ..old(self).model()
            }),
            final(self).ui() == old(self).ui(),
            final(self).wf() == old(self).wf(),
    {
        let n = self.transcript.len();
        let last_is = n > 0 && match &self.transcript[n - 1] {
            TranscriptBlock::Assistant { .. } => true,
            _ => false,
        };
        if last_is {
            let taken = self.swap_block(n - 1, TranscriptBlock::System { message: String::new() });
            match taken {
                TranscriptBlock::Assistant { text: current, .. } => {
                    let joined = joined_text(current.as_str(), text);
                    self.swap_block(n - 1, TranscriptBlock::Assistant { text: joined, streaming: true });
                },
                other => {
                    self.swap_block(n - 1, other);
                },
            }
            assert(self.model().transcript =~= with_assistant_text(old(self).model().transcript, text@));
        } else {
            self.push_block(TranscriptBlock::Assistant { text: crate::text::to_string(text), streaming: true });
        }
    }

    fn append_thinking(&mut self, text: &str)
        ensures
            final(self).model() == (ReducerModel {
                transcript: with_thinking_text(old(self).model().transcript, text@),
                ..old(self).model()
            }),
            final(self).ui() == old(self).ui(),
            final(self).wf() == old(self).wf(),
    {
        let n = self.transcript.len();
        let last_is = n > 0 && match &self.transcript[n - 1] {
            TranscriptBlock::Thinking { .. } => true,
            _ => false,
        };
        if last_is {
            let taken = self.swap_block(n - 1, TranscriptBlock::System { message: String::new() });
            match taken {
                TranscriptBlock::Thinking { text: current, expanded } => {
                    let joined = joined_text(current.as_str(), text);
                    self.swap_block(n - 1, TranscriptBlock::Thinking { text: joined, expanded });
                },
                other => {
                    self.swap_block(n - 1, other);
                },
            }
            assert(self.model().transcript =~= with_thinking_text(old(self).model().transcript, text@));
        } else {
            self.push_block(TranscriptBlock::Thinking { text: crate::text::to_string(text), expanded: false });
        }
    }
}

impl AppState {
    /// Reduce one agent event into the transcript and status. Events of an
    /// older run are ignored.
    #[verifier::rlimit(50)]
    pub fn handle_agent_event(&mut self, event: AgentEvent)
        requires
            old(self).wf(),
        ensures
            final(self).wf(),
            final(self).model() == event_step(old(self).model(), event),
            final(self).ui() == old(self).ui(),
    {
        match event {
            AgentEvent::RunStarted { run_id } => {
                self.current_run_id = Some(run_id);
                self.activity = ActivityState::AgentRunning;
                self.tool_index = Vec::new();
                self.tool_started_at = Vec::new();
                self.run_tool_error = None;
                assert(self.model().tool_index =~= Seq::<(Seq<char>, usize)>::empty());
                assert(self.model().started =~= Seq::<Seq<char>>::empty());
            },
            AgentEvent::TextDelta { run_id, text } => {
                if !self.accepts(run_id) || text.as_str().is_empty() {
                    return;
                }
                let n = text_line_count(text.as_str());
                self.append_assistant(text.as_str());
                self.note_lines(n);
                self.enforce_block_limit();
            },
            AgentEvent::ThinkingDelta { run_id, text } => {
                if !self.accepts(run_id) || text.as_str().is_empty() {
                    return;
                }
                let n = text_line_count(text.as_str());
                self.append_thinking(text.as_str());
                let mut st: Vec<char> = Vec::new();
                append_str(&mut st, "Thinking · ");
                crate::text::append_decimal(&mut st, n as u64);
                append_str(&mut st, " lines");
                self.status = string_from_chars(st.as_slice());
                assert(self.status@ =~= thinking_status(text@));
                self.note_lines(n);
                self.enforce_block_limit();
            },
            AgentEvent::ToolStarted { run_id, tool_call_id, name, arguments } => {
                if !self.accepts(run_id) {
                    return;
                }
                let pos = self.transcript.len();
                self.index_set(tool_call_id.as_str(), pos);
                self.note_started(tool_call_id.as_str());
                let b = new_tool_block(tool_call_id.as_str(), name.as_str(), arguments.as_str());
                self.push_block(b);
                self.status = joined_text("Running ", name.as_str());
                self.note_lines(1);
                self.enforce_block_limit();
            },
            AgentEvent::ToolOutput { run_id, tool_call_id, stream, chunk } => {
                if !self.accepts(run_id) {
                    return;
                }
                self.reduce_tool_output(tool_call_id.as_str(), stream, chunk.as_str());
            },
            AgentEvent::ToolFinished { run_id, tool_call_id, name, result } => {
                if !self.accepts(run_id) {
                    return;
                }
                self.reduce_tool_finished(tool_call_id.as_str(), name.as_str(), &result);
            },
            AgentEvent::ProviderError { run_id, error } => {
                if !self.accepts(run_id) {
                    return;
                }
                let message = sanitize_message(error.message.as_str());
                self.error = Some(message.clone());
                self.push_block(TranscriptBlock::Error { message });
                self.note_lines(2);
                self.enforce_block_limit();
            },
            AgentEvent::RunAborted { run_id } => {
                if !self.accepts(run_id) {
                    return;
                }
                self.finish_assistant_stream();
                self.activity = ActivityState::Idle;
                self.last_outcome = Some(RunOutcome::Aborted);
                self.push_block(TranscriptBlock::System { message: crate::text::to_string("Run aborted") });
                self.status = crate::text::to_string("Aborted");
                self.note_lines(2);
                self.enforce_block_limit();
            },
            AgentEvent::RunFailed { run_id, error } => {
                if !self.accepts(run_id) {
                    return;
                }
                self.finish_assistant_stream();
                self.activity = ActivityState::Idle;
                let phase = error.phase.label();
                let mut o: Vec<char> = chars_of(phase);
                append_str(&mut o, ": ");
                append_str(&mut o, error.message.as_str());
                self.last_outcome = Some(RunOutcome::ToolError(string_from_chars(o.as_slice())));
                let mut m: Vec<char> = Vec::new();
                append_str(&mut m, "Run failed [");
                append_str(&mut m, phase);
                append_str(&mut m, "]: ");
                append_str(&mut m, error.message.as_str());
                let ms = string_from_chars(m.as_slice());
                assert(ms@ =~= run_failed_message(error));
                self.push_block(TranscriptBlock::Error { message: ms });
                self.status = joined_text("Failed · ", phase);
                self.note_lines(2);
                self.enforce_block_limit();
            },
            AgentEvent::RunFinished { run_id, stop_reason } => {
                if !self.accepts(run_id) {
                    return;
                }
                self.finish_assistant_stream();
                match stop_reason {
                    StopReason::ToolUse => {
                        self.activity = ActivityState::AgentRunning;
                        self.status = crate::text::to_string("Agent running");
                    },
                    StopReason::Stop => {
                        self.activity = ActivityState::Idle;
                        let taken = self.run_tool_error.take();
                        self.last_outcome = Some(
                            match taken {
                                Some(e) => RunOutcome::ToolError(e),
                                None => RunOutcome::Completed,
                            },
                        );
                        self.status = crate::text::to_string("Ready");
                    },
                    StopReason::Length => {
                        self.activity = ActivityState::Idle;
                        self.last_outcome = Some(RunOutcome::Completed);
                        self.status = crate::text::to_string("Completed · response truncated");
                    },
                    StopReason::Error => {
                        self.activity = ActivityState::Idle;
                        let message = match &self.error {
                            Some(e) => e.clone(),
                            None => crate::text::to_string("Provider error"),
                        };
                        self.last_outcome = Some(RunOutcome::ProviderError(message));
                        self.status = crate::text::to_string("Provider error");
                    },
                    StopReason::Aborted => {
                        self.activity = ActivityState::Idle;
                        self.last_outcome = Some(RunOutcome::Aborted);
                        self.status = crate::text::to_string("Aborted");
                    },
                }
            },
        }
    }

    fn reduce_tool_output(&mut self, id: &str, stream: ToolOutputStream, chunk: &str)
        requires
            old(self).wf(),
        ensures
            final(self).wf(),
            final(self).model() == tool_output_step(old(self).model(), id@, stream, chunk@),
            final(self).ui() == old(self).ui(),
    {
        let ghost m = old(self).model();
        let lines = text_line_count(chunk);
        let pos = match self.index_position(id) {
            Some(i) => {
                assert(self.model().tool_index[i as int].1 == self.tool_index@[i as int].1);
                self.tool_index[i].1
            },
            None => {
                let p = self.transcript.len();
                self.index_set(id, p);
                proof {
                    reveal_strlit("unknown");
                    reveal_strlit("null");
                }
                let b = new_tool_block(id, "unknown", "null");
                self.push_block(b);
                p
            },
        };
        let ghost m1 = self.model();
        assert(m1 == match index_slot(m.tool_index, id@) {
            Some(i) => m,
            None => ReducerModel {
                tool_index: index_set(m.tool_index, id@, m.transcript.len() as usize),
                transcript: m.transcript.push(new_tool_view(id@, "unknown"@, "null"@)),
                ..m
            },
        });
        assert(pos as int == match index_slot(m.tool_index, id@) {
            Some(i) => m.tool_index[i].1 as int,
            None => m.transcript.len() as int,
        });
        if self.is_tool_at(pos) {
            let taken = self.swap_block(pos, TranscriptBlock::System { message: String::new() });
            let updated = tool_block_with_output(taken, stream, chunk);
            self.swap_block(pos, updated);
            assert(self.model().transcript =~= update_tool_at(
                m1.transcript,
                pos as int,
                with_output(m1.transcript[pos as int], stream, chunk@),
            ));
        }
        assert(self.model() == ReducerModel {
            transcript: if 0 <= pos < m1.transcript.len() {
                update_tool_at(m1.transcript, pos as int, with_output(m1.transcript[pos as int], stream, chunk@))
            } else {
                m1.transcript
            },
            ..m1
        });
        self.enforce_block_limit();
        self.note_lines(lines);
    }

    fn reduce_tool_finished(&mut self, id: &str, name: &str, result: &AgentToolResult)
        requires
            old(self).wf(),
        ensures
            final(self).wf(),
            final(self).model() == tool_finished_step(old(self).model(), id@, name@, *result),
            final(self).ui() == old(self).ui(),
    {
        let ghost m = old(self).model();
        let st = tool_state_for(result);
        let start = self.take_started(id);
        let duration = match start {
            Some(t) => Some(elapsed_since(&t)),
            None => None,
        };
        assert((duration is Some) == m.started.contains(id@));
        let text = final_text_exec(result);
        match self.index_position(id) {
            Some(i) => {
                assert(self.model().tool_index[i as int].1 == self.tool_index@[i as int].1);
                let pos = self.tool_index[i].1;
                let ghost mt = self.model().transcript;
                if self.is_tool_at(pos) {
                    let taken = self.swap_block(pos, TranscriptBlock::System { message: String::new() });
                    let updated = finish_tool_block(taken, name, result, duration, text.as_str());
                    self.swap_block(pos, updated);
                    assert(self.model().transcript =~= update_tool_at(
                        mt,
                        pos as int,
                        finished_block(mt[pos as int], name@, *result, m.started.contains(id@)),
                    ));
                }
            },
            None => {
                let p = self.transcript.len();
                proof {
                    reveal_strlit("null");
                }
                let fresh = new_tool_block(id, name, "null");
                let b = finish_tool_block(fresh, name, result, duration, text.as_str());
                self.push_block(b);
                self.index_set(id, p);
                self.note_lines(1);
            },
        }
        assert(self.model() == match index_slot(m.tool_index, id@) {
            Some(i) => {
                let pos = m.tool_index[i].1 as int;
                ReducerModel {
                    transcript: if 0 <= pos < m.transcript.len() {
                        update_tool_at(
                            m.transcript,
                            pos,
                            finished_block(m.transcript[pos], name@, *result, m.started.contains(id@)),
                        )
                    } else {
                        m.transcript
                    },
                    started: started_without(m.started, id@),
                    ..m
                }
            },
            None => with_lines(
                ReducerModel {
                    transcript: m.transcript.push(
                        finished_block(new_tool_view(id@, name@, "null"@), name@, *result, m.started.contains(id@)),
                    ),
                    tool_index: index_set(m.tool_index, id@, m.transcript.len() as usize),
                    started: started_without(m.started, id@),
                    ..m
                },
                1,
            ),
        });
        match st {
            ToolRunState::Failed => {
                self.run_tool_error = Some(joined_text(name, " failed"));
                self.status = joined_text("Tool error · ", name);
            },
            _ => {
                let mut v = chars_of(name);
                append_str(&mut v, " · ");
                append_str(&mut v, st.label());
                self.status = string_from_chars(v.as_slice());
            },
        }
    }
}

proof fn lemma_without_absent(ids: Seq<Seq<char>>, id: Seq<char>)
    requires
        !ids.contains(id),
    ensures
        started_without(ids, id) == ids,
    decreases ids.len(),
{
    if ids.len() > 0 {
        assert(!ids.drop_last().contains(id)) by {
            if ids.drop_last().contains(id) {
                let k = choose|k: int| 0 <= k < ids.drop_last().len() && ids.drop_last()[k] == id;
                assert(ids[k] == id);
            }
        }
        lemma_without_absent(ids.drop_last(), id);
        assert(ids.drop_last().push(ids.last()) =~= ids);
    }
}

proof fn lemma_without_at(ids: Seq<Seq<char>>, id: Seq<char>, i: int)
    requires
        ids_distinct(ids),
        0 <= i < ids.len(),
        ids[i] == id,
    ensures
        started_without(ids, id) == ids.remove(i),
    decreases ids.len(),
{
    if i == ids.len() - 1 {
        assert(!ids.drop_last().contains(id)) by {
            if ids.drop_last().contains(id) {
                let k = choose|k: int| 0 <= k < ids.drop_last().len() && ids.drop_last()[k] == id;
                assert(ids[k] == id);
            }
        }
        lemma_without_absent(ids.drop_last(), id);
        assert(ids.remove(i) =~= ids.drop_last());
    } else {
        assert(ids.drop_last()[i] == id);
        assert forall|a: int, b: int|
            0 <= a < ids.drop_last().len() && 0 <= b < ids.drop_last().len() && a != b implies ids.drop_last()[a]
            != ids.drop_last()[b] by {
            assert(ids.drop_last()[a] == ids[a]);
            assert(ids.drop_last()[b] == ids[b]);
        }
        lemma_without_at(ids.drop_last(), id, i);
        assert(ids.last() != id);
        assert(ids.remove(i) =~= ids.drop_last().remove(i).push(ids.last()));
    }
}

} // verus!

verus! {

// ── Transcript lines ────────────────────────────────────────────────────────

/// Colors used in the transcript.
#[derive(Debug, Clone, Copy, PartialEq, Eq, Structural)]
pub enum LineColor {
    Cyan,
    Green,
    White,
    Magenta,
    Yellow,
    DarkGray,
    Red,
    Blue,
}

/// How a transcript line is drawn.
#[derive(Debug, Clone, Copy, PartialEq, Eq, Structural)]
pub struct LineStyle {
    pub color: Option<LineColor>,
    pub bold: bool,
    pub reversed: bool,
}

/// One drawn transcript line.
#[derive(Debug, Clone, PartialEq, Eq)]
pub struct RenderLine {
    pub text: String,
    pub style: LineStyle,
}

pub open spec fn styled(color: LineColor, bold: bool, selected: bool) -> LineStyle {
    LineStyle { color: Some(color), bold, reversed: selected }
}

pub open spec fn plain_style() -> LineStyle {
    LineStyle { color: None, bold: false, reversed: false }
}

/// Each line of `text`, indented by two spaces.
pub open spec fn body_lines(text: Seq<char>, color: LineColor, selected: bool) -> Seq<(Seq<char>, LineStyle)> {
    split_char(text, '\n').map_values(|l: Seq<char>| ("  "@ + l, styled(color, false, selected)))
}

pub open spec fn tool_color(s: ToolRunState) -> LineColor {
    match s {
        ToolRunState::Running => LineColor::Yellow,
        ToolRunState::Succeeded => LineColor::Green,
        ToolRunState::Failed => LineColor::Red,
        ToolRunState::TimedOut => LineColor::Red,
        ToolRunState::Aborted => LineColor::Yellow,
    }
}

pub open spec fn exit_suffix(code: Option<i32>) -> Seq<char> {
    match code {
        Some(c) => " · exit "@ + crate::print::signed_decimal(c as int),
        None => Seq::empty(),
    }
}

pub open spec fn or_empty_marker(text: Seq<char>) -> Seq<char> {
    if text.len() == 0 {
        "(empty)"@
    } else {
        text
    }
}

/// The lines of one block (without the blank line that follows it).
pub open spec fn block_lines(b: BlockView, selected: bool) -> Seq<(Seq<char>, LineStyle)> {
    match b {
        BlockView::User { text } => seq![("You"@, styled(LineColor::Cyan, true, selected))] + body_lines(
            text,
            LineColor::Cyan,
            selected,
        ),
        BlockView::Assistant { text, streaming } => seq![
            (if streaming {
                "Assistant · streaming"@
            } else {
                "Assistant"@
            }, styled(LineColor::Green, true, selected)),
        ] + body_lines(text, LineColor::White, selected),
        BlockView::Thinking { text, expanded } => if expanded {
            seq![("▼ Thinking"@, styled(LineColor::Magenta, false, selected))] + body_lines(
                text,
                LineColor::Magenta,
                selected,
            )
        } else {
            seq![
                ("▶ Thinking… "@ + crate::text::decimal(line_count(text)) + " lines"@, styled(
                    LineColor::Magenta,
                    false,
                    selected,
                )),
            ]
        },
        BlockView::Tool { name, display, stdout, stderr, state, expanded, exit_code, .. } => {
            let header = (if expanded {
                "▼ "@
            } else {
                "▶ "@
            }) + name + "  "@ + run_state_label(state) + exit_suffix(exit_code);
            let head = seq![(header, styled(tool_color(state), false, selected))];
            if expanded {
                head + seq![("Arguments:"@, styled(LineColor::Yellow, true, selected))] + body_lines(
                    display,
                    LineColor::Yellow,
                    selected,
                ) + seq![("stdout:"@, styled(LineColor::DarkGray, true, selected))] + body_lines(
                    or_empty_marker(stdout),
                    LineColor::DarkGray,
                    selected,
                ) + seq![("stderr:"@, styled(LineColor::Red, true, selected))] + body_lines(
                    or_empty_marker(stderr),
                    LineColor::Red,
                    selected,
                )
            } else {
                head
            }
        },
        BlockView::Error { message } => seq![("Error"@, styled(LineColor::Red, true, selected))]
            + body_lines(message, LineColor::Red, selected),
        BlockView::System { message } => seq![("System"@, styled(LineColor::Blue, true, selected))]
            + body_lines(message, LineColor::Blue, selected),
    }
}

/// All transcript lines: each block's lines and a blank line after it.
pub open spec fn transcript_lines(t: Seq<BlockView>, selected: Option<usize>) -> Seq<(Seq<char>, LineStyle)>
    decreases t.len(),
{
    if t.len() == 0 {
        Seq::empty()
    } else {
        transcript_lines(t.drop_last(), selected) + block_lines(
            t.last(),
            selected == Some((t.len() - 1) as usize),
        ) + seq![(Seq::<char>::empty(), plain_style())]
    }
}

pub open spec fn render_view(lines: Seq<RenderLine>) -> Seq<(Seq<char>, LineStyle)> {
    lines.map_values(|l: RenderLine| (l.text@, l.style))
}

} // verus!

verus! {

fn push_line(lines: &mut Vec<RenderLine>, text: String, style: LineStyle)
    ensures
        render_view(final(lines)@) == render_view(old(lines)@).push((text@, style)),
{
    lines.push(RenderLine { text, style });
    assert(render_view(lines@) =~= render_view(old(lines)@).push((text@, style)));
}

fn push_body_lines(lines: &mut Vec<RenderLine>, text: &str, color: LineColor, selected: bool)
    ensures
        render_view(final(lines)@) == render_view(old(lines)@) + body_lines(text@, color, selected),
{
    let c = chars_of(text);
    let parts = split_char_exec(c.as_slice(), '\n');
    let ghost sp = split_char(text@, '\n');
    let ghost start = render_view(lines@);
    let mut i: usize = 0;
    while i < parts.len()
        invariant
            0 <= i <= parts@.len(),
            parts@.len() == sp.len(),
            forall|j: int| 0 <= j < parts@.len() ==> (#[trigger] parts@[j])@ == sp[j],
            render_view(lines@) == start + sp.take(i as int).map_values(
                |l: Seq<char>| ("  "@ + l, styled(color, false, selected)),
            ),
        decreases parts@.len() - i,
    {
        let mut t: Vec<char> = Vec::new();
        append_str(&mut t, "  ");
        append(&mut t, parts[i].as_slice());
        let ghost before = render_view(lines@);
        push_line(lines, string_from_chars(t.as_slice()), LineStyle { color: Some(color), bold: false, reversed: selected });
        assert(sp.take(i + 1).map_values(|l: Seq<char>| ("  "@ + l, styled(color, false, selected))) =~= sp.take(
            i as int,
        ).map_values(|l: Seq<char>| ("  "@ + l, styled(color, false, selected))).push(("  "@ + sp[i as int], styled(color, false, selected))));
        i = i + 1;
    }
    assert(sp.take(i as int) =~= sp);
}

fn push_header(lines: &mut Vec<RenderLine>, text: &str, color: LineColor, bold: bool, selected: bool)
    ensures
        render_view(final(lines)@) == render_view(old(lines)@).push((text@, styled(color, bold, selected))),
{
    push_line(lines, crate::text::to_string(text), LineStyle { color: Some(color), bold, reversed: selected });
}

fn push_tool_lines(lines: &mut Vec<RenderLine>, b: &TranscriptBlock, selected: bool)
    requires
        b is Tool,
    ensures
        render_view(final(lines)@) == render_view(old(lines)@) + block_lines(block_view(*b), selected),
{
    let ghost start = render_view(lines@);
    match b {
        TranscriptBlock::Tool { name, arguments_display, stdout, stderr, state, expanded, exit_code, .. } => {
            let mut h: Vec<char> = Vec::new();
            if *expanded {
                append_str(&mut h, "▼ ");
            } else {
                append_str(&mut h, "▶ ");
            }
            append_str(&mut h, name.as_str());
            append_str(&mut h, "  ");
            append_str(&mut h, state.label());
            match exit_code {
                Some(c) => {
                    append_str(&mut h, " · exit ");
                    crate::print::append_signed(&mut h, *c);
                },
                None => {},
            }
            let color = match state {
                ToolRunState::Running => LineColor::Yellow,
                ToolRunState::Succeeded => LineColor::Green,
                ToolRunState::Failed => LineColor::Red,
                ToolRunState::TimedOut => LineColor::Red,
                ToolRunState::Aborted => LineColor::Yellow,
            };
            let ghost header = (if *expanded {
                "▼ "@
            } else {
                "▶ "@
            }) + name@ + "  "@ + run_state_label(*state) + exit_suffix(*exit_code);
            assert(h@ =~= header);
            assert(color == tool_color(*state));
            push_line(lines, string_from_chars(h.as_slice()), LineStyle { color: Some(color), bold: false, reversed: selected });
            assert(render_view(lines@) =~= start + seq![(header, styled(tool_color(*state), false, selected))]);
            if *expanded {
                push_header(lines, "Arguments:", LineColor::Yellow, true, selected);
                push_body_lines(lines, arguments_display.as_str(), LineColor::Yellow, selected);
                push_header(lines, "stdout:", LineColor::DarkGray, true, selected);
                if stdout.as_str().is_empty() {
                    push_body_lines(lines, "(empty)", LineColor::DarkGray, selected);
                } else {
                    push_body_lines(lines, stdout.as_str(), LineColor::DarkGray, selected);
                }
                push_header(lines, "stderr:", LineColor::Red, true, selected);
                if stderr.as_str().is_empty() {
                    push_body_lines(lines, "(empty)", LineColor::Red, selected);
                } else {
                    push_body_lines(lines, stderr.as_str(), LineColor::Red, selected);
                }
            }
            assert(render_view(lines@) =~= start + block_lines(block_view(*b), selected));
        },
        _ => {},
    }
}

fn push_block_lines(lines: &mut Vec<RenderLine>, b: &TranscriptBlock, selected: bool)
    ensures
        render_view(final(lines)@) == render_view(old(lines)@) + block_lines(block_view(*b), selected),
{
    let ghost start = render_view(lines@);
    match b {
        TranscriptBlock::User { text } => {
            push_header(lines, "You", LineColor::Cyan, true, selected);
            push_body_lines(lines, text.as_str(), LineColor::Cyan, selected);
            assert(render_view(lines@) =~= start + block_lines(block_view(*b), selected));
        },
        TranscriptBlock::Assistant { text, streaming } => {
            if *streaming {
                push_header(lines, "Assistant · streaming", LineColor::Green, true, selected);
            } else {
                push_header(lines, "Assistant", LineColor::Green, true, selected);
            }
            push_body_lines(lines, text.as_str(), LineColor::White, selected);
            assert(render_view(lines@) =~= start + block_lines(block_view(*b), selected));
        },
        TranscriptBlock::Thinking { text, expanded } => {
            if *expanded {
                push_header(lines, "▼ Thinking", LineColor::Magenta, false, selected);
                push_body_lines(lines, text.as_str(), LineColor::Magenta, selected);
                assert(render_view(lines@) =~= start + block_lines(block_view(*b), selected));
            } else {
                let n = text_line_count(text.as_str());
                let mut h: Vec<char> = Vec::new();
                append_str(&mut h, "▶ Thinking… ");
                crate::text::append_decimal(&mut h, n as u64);
                append_str(&mut h, " lines");
                push_line(lines, string_from_chars(h.as_slice()), LineStyle {
                    color: Some(LineColor::Magenta),
                    bold: false,
                    reversed: selected,
                });
                assert(render_view(lines@) =~= start + block_lines(block_view(*b), selected));
            }
        },
        TranscriptBlock::Tool { .. } => {
            push_tool_lines(lines, b, selected);
        },
        TranscriptBlock::Error { message } => {
            push_header(lines, "Error", LineColor::Red, true, selected);
            push_body_lines(lines, message.as_str(), LineColor::Red, selected);
            assert(render_view(lines@) =~= start + block_lines(block_view(*b), selected));
        },
        TranscriptBlock::System { message } => {
            push_header(lines, "System", LineColor::Blue, true, selected);
            push_body_lines(lines, message.as_str(), LineColor::Blue, selected);
            assert(render_view(lines@) =~= start + block_lines(block_view(*b), selected));
        },
    }
    assert(render_view(lines@) =~= start + block_lines(block_view(*b), selected));
}

impl AppState {
    /// The transcript as drawn lines.
    pub fn render_lines(&self) -> (r: Vec<RenderLine>)
        ensures
            render_view(r@) == transcript_lines(self.model().transcript, self.model().selection.selected_block),
    {
        let ghost t = self.model().transcript;
        let ghost sel = self.model().selection.selected_block;
        let mut lines: Vec<RenderLine> = Vec::new();
        let mut i: usize = 0;
        assert(render_view(lines@) =~= Seq::<(Seq<char>, LineStyle)>::empty());
        while i < self.transcript.len()
            invariant
                0 <= i <= self.transcript@.len(),
                t == self.model().transcript,
                sel == self.model().selection.selected_block,
                render_view(lines@) == transcript_lines(t.take(i as int), sel),
            decreases self.transcript@.len() - i,
        {
            let selected = match self.selection.selected_block {
                Some(s) => s == i,
                None => false,
            };
            push_block_lines(&mut lines, &self.transcript[i], selected);
            push_line(&mut lines, String::new(), LineStyle { color: None, bold: false, reversed: false });
            assert(t.take(i + 1).drop_last() =~= t.take(i as int));
            assert(t.take(i + 1).last() == block_view(self.transcript@[i as int]));
            i = i + 1;
        }
        assert(t.take(i as int) =~= t);
        lines
    }
}

} // verus!

verus! {

// ── Wrapping and scrolling ──────────────────────────────────────────────────

/// Lines and column after one more character when wrapping at `width`: a
/// character that does not fit on a started line starts a new one.
pub open spec fn wrap_step(st: (nat, nat), c: char, width: nat) -> (nat, nat) {
    let w = char_columns(c);
    if st.1 > 0 && st.1 + w > width {
        (st.0 + 1, w)
    } else {
        (st.0, st.1 + w)
    }
}

pub open spec fn wrap_state(s: Seq<char>, width: nat) -> (nat, nat)
    decreases s.len(),
{
    if s.len() == 0 {
        (1, 0)
    } else {
        wrap_step(wrap_state(s.drop_last(), width), s.last(), width)
    }
}

/// Screen lines of one line of text wrapped at `width` columns.
pub open spec fn line_wraps(line: Seq<char>, width: nat) -> nat {
    wrap_state(line, width).0
}

pub open spec fn sum_wraps(pieces: Seq<Seq<char>>, width: nat) -> nat
    decreases pieces.len(),
{
    if pieces.len() == 0 {
        0
    } else {
        sum_wraps(pieces.drop_last(), width) + line_wraps(pieces.last(), width)
    }
}

pub open spec fn at_least_one(n: nat) -> nat {
    if n == 0 {
        1
    } else {
        n
    }
}

/// Screen lines of a text wrapped at `width` columns (at least one column,
/// at least one line).
pub open spec fn wrapped_lines(text: Seq<char>, width: nat) -> nat {
    at_least_one(sum_wraps(split_char(text, '\n'), at_least_one(width)))
}

proof fn lemma_wrap_state_bound(s: Seq<char>, width: nat)
    ensures
        1 <= wrap_state(s, width).0 <= s.len() + 1,
    decreases s.len(),
{
    if s.len() > 0 {
        lemma_wrap_state_bound(s.drop_last(), width);
    }
}

fn line_wraps_exec(v: &[char], a: usize, b: usize, width: usize) -> (r: usize)
    requires
        a <= b <= v@.len(),
        v@.len() <= isize::MAX,
    ensures
        r == line_wraps(v@.subrange(a as int, b as int), width as nat),
        1 <= r <= b - a + 1,
{
    let mut lines: usize = 1;
    let mut column: usize = 0;
    let mut i = a;
    assert(v@.subrange(a as int, a as int) =~= Seq::<char>::empty());
    while i < b
        invariant
            a <= i <= b <= v@.len(),
            v@.len() <= isize::MAX,
            (lines as nat, column as nat) == wrap_state(v@.subrange(a as int, i as int), width as nat),
            1 <= lines <= i - a + 1,
            column <= (if width > 3 { width } else { 3 }),
        decreases b - i,
    {
        let w = crate::tui::char_columns_exec(v[i]);
        assert(v@.subrange(a as int, i + 1).drop_last() =~= v@.subrange(a as int, i as int));
        if column > 0 && (column > width || w > width - column) {
            lines = lines + 1;
            column = w;
        } else {
            column = column + w;
        }
        i = i + 1;
    }
    r_lines(lines)
}

pub open spec fn sum_len(ps: Seq<Seq<char>>) -> nat
    decreases ps.len(),
{
    if ps.len() == 0 {
        0
    } else {
        sum_len(ps.drop_last()) + ps.last().len()
    }
}

proof fn lemma_join_len(ps: Seq<Seq<char>>, c: char)
    requires
        ps.len() >= 1,
    ensures
        join(ps, seq![c]).len() == sum_len(ps) + ps.len() - 1,
    decreases ps.len(),
{
    if ps.len() > 1 {
        lemma_join_len(ps.drop_last(), c);
        assert(join(ps, seq![c]) == join(ps.drop_last(), seq![c]) + seq![c] + ps.last());
        assert(seq![c].len() == 1);
    } else {
        assert(ps.drop_last() =~= Seq::<Seq<char>>::empty());
        assert(join(ps, seq![c]) == ps[0]);
        assert(sum_len(ps) == sum_len(ps.drop_last()) + ps.last().len());
        assert(sum_len(ps.drop_last()) == 0);
    }
}

proof fn lemma_sum_len_prefix(ps: Seq<Seq<char>>, i: int)
    requires
        0 <= i <= ps.len(),
    ensures
        sum_len(ps.take(i)) <= sum_len(ps),
    decreases ps.len(),
{
    if i == ps.len() {
        assert(ps.take(i) =~= ps);
    } else {
        lemma_sum_len_prefix(ps.drop_last(), i);
        assert(ps.drop_last().take(i) =~= ps.take(i));
    }
}

fn r_lines(n: usize) -> (r: usize)
    ensures
        r == n,
{
    n
}

/// Screen lines of `text` wrapped at `width` columns.
pub fn wrapped_line_count(text: &str, width: usize) -> (r: usize)
    ensures
        r == wrapped_lines(text@, width as nat),
{
    let w = if width == 0 {
        1
    } else {
        width
    };
    let v = chars_of(text);
    let parts = split_char_exec(v.as_slice(), '\n');
    let ghost sp = split_char(text@, '\n');
    proof {
        crate::text::lemma_split_char_nonempty(text@, '\n');
        crate::text::lemma_join_split(text@, '\n');
        lemma_join_len(sp, '\n');
        assert(sp.take(0) =~= Seq::<Seq<char>>::empty());
    }
    let mut total: usize = 0;
    let mut i: usize = 0;
    let mut used: usize = 0;
    while i < parts.len()
        invariant
            0 <= i <= parts@.len(),
            parts@.len() == sp.len(),
            forall|j: int| 0 <= j < parts@.len() ==> (#[trigger] parts@[j])@ == sp[j],
            total == sum_wraps(sp.take(i as int), w as nat),
            total <= used + i,
            used == sum_len(sp.take(i as int)),
            sum_len(sp) <= v@.len(),
            sp.len() <= v@.len() + 1,
            v@.len() <= isize::MAX,
            w == at_least_one(width as nat),
        decreases parts@.len() - i,
    {
        let piece = &parts[i];
        assert(sp.take(i + 1).drop_last() =~= sp.take(i as int));
        proof {
            lemma_wrap_state_bound(piece@, w as nat);
            lemma_sum_len_prefix(sp, i + 1);
            assert(sum_len(sp.take(i + 1)) == sum_len(sp.take(i as int)) + piece@.len());
        }
        let n = line_wraps_exec(piece.as_slice(), 0, piece.len(), w);
        assert(piece@.subrange(0, piece@.len() as int) =~= piece@);
        total = total + n;
        used = used + piece.len();
        i = i + 1;
    }
    assert(sp.take(i as int) =~= sp);
    if total == 0 {
        1
    } else {
        total
    }
}

} // verus!

verus! {

pub open spec fn sub_sat(a: int, b: int) -> nat {
    if a > b {
        (a - b) as nat
    } else {
        0
    }
}

pub open spec fn clamp_to(n: nat, lo: nat, hi: nat) -> nat {
    if n < lo {
        lo
    } else if n > hi {
        hi
    } else {
        n
    }
}

/// Height of the input box: up to three tenths of the terminal (three to
/// eight rows, borders included), enough for the wrapped text and the
/// cursor; tiny terminals give it all but one row.
pub open spec fn input_box_height(width: u16, height: u16, input: InputView) -> nat {
    if height <= 4 {
        at_least_one(sub_sat(height as int, 1))
    } else {
        let max_h = clamp_to((if height * 3 > 65535 { 65535 } else { height * 3 }) as nat / 10, 3, 8);
        let inner = at_least_one(sub_sat(width as int, 2));
        let content = wrapped_lines(input.text, inner);
        let cursor_line = crate::tui::visual_position(input.text.take(input.cursor), inner).0 + 1;
        let lines = (if content > cursor_line {
            content
        } else {
            cursor_line
        }) % 65536;
        clamp_to(if lines + 2 > 65535 { 65535 } else { lines + 2 }, 3, max_h)
    }
}

pub fn input_height(width: u16, height: u16, input: &InputState) -> (r: u16)
    requires
        input.wf(),
    ensures
        r as nat == input_box_height(width, height, input.iview()),
{
    if height <= 4 {
        let h = height.saturating_sub(1);
        return if h == 0 {
            1
        } else {
            h
        };
    }
    let prod: u32 = (height as u32) * 3;
    let capped: u32 = if prod > 65535 {
        65535
    } else {
        prod
    };
    let third: u16 = (capped / 10) as u16;
    let max_height: u16 = if third < 3 {
        3
    } else if third > 8 {
        8
    } else {
        third
    };
    let iw = width.saturating_sub(2);
    let inner: usize = if iw == 0 {
        1
    } else {
        iw as usize
    };
    let content_lines = wrapped_line_count(input.text.as_str(), inner);
    let (cl, _) = input.cursor_visual_position(inner);
    let cursor_line: usize = cl + 1;
    let lines_all: usize = if content_lines > cursor_line {
        content_lines
    } else {
        cursor_line
    };
    let lines: u16 = (lines_all % 65536) as u16;
    let total = lines.saturating_add(2);
    let r = if total < 3 {
        3
    } else if total > max_height {
        max_height
    } else {
        total
    };
    r
}

} // verus!

verus! {

pub open spec fn sum_line_wraps(lines: Seq<(Seq<char>, LineStyle)>, width: nat) -> nat
    decreases lines.len(),
{
    if lines.len() == 0 {
        0
    } else {
        sum_line_wraps(lines.drop_last(), width) + wrapped_lines(lines.last().0, width)
    }
}

pub open spec fn capped(n: nat) -> nat {
    if n > usize::MAX {
        usize::MAX as nat
    } else {
        n
    }
}

/// Columns available to transcript text.
pub open spec fn text_width(size: (u16, u16)) -> nat {
    at_least_one(sub_sat(size.0 as int, 2))
}

/// Screen lines of the whole transcript (capped at `usize::MAX`).
pub open spec fn total_lines(m: ReducerModel, size: (u16, u16)) -> nat {
    capped(sum_line_wraps(transcript_lines(m.transcript, m.selection.selected_block), text_width(size)))
}

/// Rows the transcript shows: what the input box and status line leave.
pub open spec fn viewport_lines(size: (u16, u16), input: InputView) -> nat {
    at_least_one(sub_sat(sub_sat(size.1 as int, input_box_height(size.0, size.1, input) as int) as int, 3))
}

/// Furthest the transcript can be scrolled up.
pub open spec fn max_offset(m: ReducerModel, u: UiModel) -> nat {
    sub_sat(total_lines(m, u.terminal_size) as int, viewport_lines(u.terminal_size, u.input) as int)
}

/// Scroll state kept within range; back at the bottom while following,
/// nothing is unread.
pub open spec fn clamped(s: ScrollState, max: nat) -> ScrollState {
    let offset = if s.offset_from_bottom > max {
        max as usize
    } else {
        s.offset_from_bottom
    };
    ScrollState {
        offset_from_bottom: offset,
        follow_output: s.follow_output,
        unread_lines: if offset == 0 && s.follow_output {
            0
        } else {
            s.unread_lines
        },
    }
}

/// Scrolling by `amount` lines: towards the start stops following; back
/// at the bottom it follows again.
pub open spec fn scrolled(s: ScrollState, amount: usize, towards_start: bool) -> ScrollState {
    if towards_start {
        ScrollState {
            offset_from_bottom: if s.offset_from_bottom + amount > usize::MAX {
                usize::MAX
            } else {
                (s.offset_from_bottom + amount) as usize
            },
            follow_output: false,
            unread_lines: s.unread_lines,
        }
    } else {
        let offset = sub_sat(s.offset_from_bottom as int, amount as int) as usize;
        if offset == 0 {
            ScrollState { offset_from_bottom: 0, follow_output: true, unread_lines: 0 }
        } else {
            ScrollState { offset_from_bottom: offset, follow_output: s.follow_output, unread_lines: s.unread_lines }
        }
    }
}

impl AppState {
    fn transcript_viewport_lines(&self) -> (r: usize)
        requires
            self.ui().input.wf(),
        ensures
            r == viewport_lines(self.ui().terminal_size, self.ui().input.iview()),
    {
        let ih = input_height(self.terminal_size.0, self.terminal_size.1, &self.input);
        let v = self.terminal_size.1.saturating_sub(ih).saturating_sub(3);
        if v == 0 {
            1
        } else {
            v as usize
        }
    }

    fn transcript_width(&self) -> (r: usize)
        ensures
            r == text_width(self.ui().terminal_size),
    {
        let w = self.terminal_size.0.saturating_sub(2);
        if w == 0 {
            1
        } else {
            w as usize
        }
    }

    /// Screen lines of the whole transcript at the current width.
    pub fn total_transcript_lines(&self) -> (r: usize)
        ensures
            r == total_lines(self.model(), self.ui().terminal_size),
    {
        let lines = self.render_lines();
        let width = self.transcript_width();
        let ghost lv = render_view(lines@);
        let mut total: usize = 0;
        let mut i: usize = 0;
        while i < lines.len()
            invariant
                0 <= i <= lines@.len(),
                lv == render_view(lines@),
                total == capped(sum_line_wraps(lv.take(i as int), width as nat)),
            decreases lines@.len() - i,
        {
            let n = wrapped_line_count(lines[i].text.as_str(), width);
            assert(lv.take(i + 1).drop_last() =~= lv.take(i as int));
            assert(lv.take(i + 1).last().0 == lines@[i as int].text@);
            total = total.saturating_add(n);
            i = i + 1;
        }
        assert(lv.take(i as int) =~= lv);
        total
    }

    fn clamp_scroll(&mut self)
        requires
            old(self).ui().input.wf(),
        ensures
            final(self).model() == (ReducerModel {
                scroll: clamped(old(self).model().scroll, max_offset(old(self).model(), ui_model_of(old(self).ui()))),
                ..old(self).model()
            }),
            final(self).ui() == old(self).ui(),
    {
        let max = self.total_transcript_lines().saturating_sub(self.transcript_viewport_lines());
        if self.scroll.offset_from_bottom > max {
            self.scroll.offset_from_bottom = max;
        }
        if self.scroll.offset_from_bottom == 0 && self.scroll.follow_output {
            self.scroll.unread_lines = 0;
        }
    }

    /// Scroll the transcript by `amount` lines, up when `towards_start`.
    pub fn scroll_by(&mut self, amount: usize, towards_start: bool)
        requires
            old(self).ui().input.wf(),
        ensures
            final(self).model() == (ReducerModel {
                scroll: clamped(
                    scrolled(old(self).model().scroll, amount, towards_start),
                    max_offset(old(self).model(), ui_model_of(old(self).ui())),
                ),
                ..old(self).model()
            }),
            final(self).ui() == old(self).ui(),
    {
        if towards_start {
            self.scroll.offset_from_bottom = self.scroll.offset_from_bottom.saturating_add(amount);
            self.scroll.follow_output = false;
        } else {
            self.scroll.offset_from_bottom = self.scroll.offset_from_bottom.saturating_sub(amount);
            if self.scroll.offset_from_bottom == 0 {
                self.scroll.follow_output = true;
                self.scroll.unread_lines = 0;
            }
        }
        self.clamp_scroll();
    }

    /// Scroll to the oldest output.
    pub fn scroll_to_start(&mut self)
        requires
            old(self).ui().input.wf(),
        ensures
            final(self).model() == (ReducerModel {
                scroll: ScrollState {
                    offset_from_bottom: max_offset(old(self).model(), ui_model_of(old(self).ui())) as usize,
                    follow_output: false,
                    unread_lines: old(self).model().scroll.unread_lines,
                },
                ..old(self).model()
            }),
            final(self).ui() == old(self).ui(),
    {
        self.scroll.offset_from_bottom = self.total_transcript_lines().saturating_sub(
            self.transcript_viewport_lines(),
        );
        self.scroll.follow_output = false;
    }

    /// Back to the latest output, following it.
    pub fn scroll_to_end(&mut self)
        ensures
            final(self).model() == (ReducerModel {
                scroll: ScrollState { offset_from_bottom: 0, follow_output: true, unread_lines: 0 },
                ..old(self).model()
            }),
            final(self).ui() == old(self).ui(),
    {
        self.scroll.offset_from_bottom = 0;
        self.scroll.follow_output = true;
        self.scroll.unread_lines = 0;
    }
}

} // verus!

verus! {

// ── Input viewport and selection ────────────────────────────────────────────

/// The first input line shown, moved just enough to keep the cursor's line
/// visible.
pub open spec fn synced_viewport(u: UiModel) -> usize {
    let width = at_least_one(sub_sat(u.terminal_size.0 as int, 2));
    let line = crate::tui::visual_position(u.input.text.take(u.input.cursor), width).0;
    let visible = at_least_one(sub_sat(input_box_height(u.terminal_size.0, u.terminal_size.1, u.input) as int, 2));
    let vl = u.input.viewport;
    if line < vl {
        line as usize
    } else if line >= vl + visible {
        (line + 1 - visible) as usize
    } else {
        vl
    }
}

pub open spec fn with_viewport(ui: UiView, vl: usize) -> UiView {
    UiView { input: InputState { viewport_line: vl, ..ui.input }, ..ui }
}

/// Indices of the expandable blocks (tools and thinking), in order.
pub open spec fn expandable_indices(t: Seq<BlockView>) -> Seq<usize>
    decreases t.len(),
{
    if t.len() == 0 {
        Seq::empty()
    } else {
        let rest = expandable_indices(t.drop_last());
        if t.last() is Tool || t.last() is Thinking {
            rest.push((t.len() - 1) as usize)
        } else {
            rest
        }
    }
}

pub open spec fn first_expandable(t: Seq<BlockView>) -> Option<usize> {
    let c = expandable_indices(t);
    if c.len() == 0 {
        None
    } else {
        Some(c[0])
    }
}

pub open spec fn last_expandable(t: Seq<BlockView>) -> Option<usize> {
    let c = expandable_indices(t);
    if c.len() == 0 {
        None
    } else {
        Some(c.last())
    }
}

/// Position of `x` in `c`, if it is there.
pub open spec fn position_of(c: Seq<usize>, x: usize) -> Option<int>
    decreases c.len(),
{
    if c.len() == 0 {
        None
    } else {
        match position_of(c.drop_last(), x) {
            Some(p) => Some(p),
            None => if c.last() == x {
                Some(c.len() - 1)
            } else {
                None
            },
        }
    }
}

/// Selection after moving up (`direction == -1`) or down among expandable
/// blocks; with no selection, up picks the last and down the first.
pub open spec fn moved_selection(t: Seq<BlockView>, selected: Option<usize>, direction: i32) -> Option<usize> {
    let c = expandable_indices(t);
    if c.len() == 0 {
        selected
    } else {
        let current = match selected {
            Some(s) => position_of(c, s),
            None => None,
        };
        let next: int = match current {
            None => if direction == -1 {
                c.len() - 1
            } else {
                0
            },
            Some(p) => if direction == -1 {
                if p > 0 {
                    p - 1
                } else {
                    0
                }
            } else if p + 1 < c.len() {
                p + 1
            } else {
                c.len() - 1
            },
        };
        Some(c[next])
    }
}

/// A tool or thinking block with its expansion flipped.
pub open spec fn toggled(b: BlockView) -> BlockView {
    match b {
        BlockView::Tool { id, name, arguments, display, stdout, stderr, state, expanded, exit_code, timed } => {
            BlockView::Tool { id, name, arguments, display, stdout, stderr, state, expanded: !expanded, exit_code, timed }
        },
        BlockView::Thinking { text, expanded } => BlockView::Thinking { text, expanded: !expanded },
        _ => b,
    }
}

pub open spec fn toggled_at(t: Seq<BlockView>, selected: Option<usize>) -> Seq<BlockView> {
    match selected {
        Some(i) => if i < t.len() && (t[i as int] is Tool || t[i as int] is Thinking) {
            t.update(i as int, toggled(t[i as int]))
        } else {
            t
        },
        None => t,
    }
}

proof fn lemma_expandable_indices(t: Seq<BlockView>)
    ensures
        forall|k: int| 0 <= k < expandable_indices(t).len() ==> #[trigger] expandable_indices(t)[k] < t.len(),
        expandable_indices(t).len() <= t.len(),
    decreases t.len(),
{
    if t.len() > 0 {
        lemma_expandable_indices(t.drop_last());
    }
}

impl AppState {
    fn sync_input_viewport(&mut self)
        requires
            old(self).ui().input.wf(),
        ensures
            final(self).ui() == with_viewport(old(self).ui(), synced_viewport(ui_model_of(old(self).ui()))),
            final(self).model() == old(self).model(),
            final(self).ui().input.wf(),
            final(self).ui().input.cursor() == old(self).ui().input.cursor(),
    {
        let w = self.terminal_size.0.saturating_sub(2);
        let width: usize = if w == 0 {
            1
        } else {
            w as usize
        };
        let (line, _) = self.input.cursor_visual_position(width);
        let ih = input_height(self.terminal_size.0, self.terminal_size.1, &self.input);
        let v = ih.saturating_sub(2);
        let visible: usize = if v == 0 {
            1
        } else {
            v as usize
        };
        let vl = self.input.viewport_line;
        if line < vl {
            self.input.viewport_line = line;
        } else if line - vl >= visible {
            self.input.viewport_line = line + 1 - visible;
        }
        assert(self.ui() == with_viewport(old(self).ui(), synced_viewport(ui_model_of(old(self).ui()))));
        assert(cursor_at(self.input.text@, self.input.cursor_byte as int, old(self).input.cursor()));
    }

    fn expandable_positions(&self) -> (r: Vec<usize>)
        ensures
            r@ == expandable_indices(self.model().transcript),
    {
        let ghost t = self.model().transcript;
        let mut c: Vec<usize> = Vec::new();
        let mut i: usize = 0;
        while i < self.transcript.len()
            invariant
                0 <= i <= self.transcript@.len(),
                t == self.model().transcript,
                c@ == expandable_indices(t.take(i as int)),
            decreases self.transcript@.len() - i,
        {
            assert(t.take(i + 1).drop_last() =~= t.take(i as int));
            assert(t.take(i + 1).last() == block_view(self.transcript@[i as int]));
            if self.transcript[i].is_expandable() {
                c.push(i);
            }
            i = i + 1;
        }
        assert(t.take(i as int) =~= t);
        c
    }

    fn first_selectable(&self) -> (r: Option<usize>)
        ensures
            r == first_expandable(self.model().transcript),
    {
        let c = self.expandable_positions();
        if c.len() == 0 {
            None
        } else {
            Some(c[0])
        }
    }

    fn last_selectable(&self) -> (r: Option<usize>)
        ensures
            r == last_expandable(self.model().transcript),
    {
        let c = self.expandable_positions();
        if c.len() == 0 {
            None
        } else {
            Some(c[c.len() - 1])
        }
    }

    fn move_selection(&mut self, direction: i32)
        ensures
            final(self).model() == (ReducerModel {
                selection: TranscriptSelection {
                    selected_block: moved_selection(
                        old(self).model().transcript,
                        old(self).model().selection.selected_block,
                        direction,
                    ),
                },
                ..old(self).model()
            }),
            final(self).ui() == old(self).ui(),
    {
        let c = self.expandable_positions();
        if c.len() == 0 {
            return;
        }
        let ghost cs = c@;
        let current: Option<usize> = match self.selection.selected_block {
            Some(sel) => {
                let mut p: Option<usize> = None;
                let mut j: usize = 0;
                while j < c.len()
                    invariant
                        0 <= j <= c@.len(),
                        cs == c@,
                        p matches Some(q) ==> q < j,
                        (match p {
                            Some(q) => Some(q as int),
                            None => None,
                        }) == position_of(cs.take(j as int), sel),
                    decreases c@.len() - j,
                {
                    assert(cs.take(j + 1).drop_last() =~= cs.take(j as int));
                    if p.is_none() && c[j] == sel {
                        p = Some(j);
                    }
                    j = j + 1;
                }
                assert(cs.take(j as int) =~= cs);
                p
            },
            None => None,
        };
        let n = c.len();
        let next: usize = match current {
            None => if direction == -1 {
                n - 1
            } else {
                0
            },
            Some(q) => if direction == -1 {
                if q > 0 {
                    q - 1
                } else {
                    0
                }
            } else if q + 1 < n {
                q + 1
            } else {
                n - 1
            },
        };
        self.selection.selected_block = Some(c[next]);
    }

    fn toggle_selected(&mut self)
        ensures
            final(self).model() == (ReducerModel {
                transcript: toggled_at(old(self).model().transcript, old(self).model().selection.selected_block),
                ..old(self).model()
            }),
            final(self).ui() == old(self).ui(),
            final(self).wf() == old(self).wf(),
    {
        let index = match self.selection.selected_block {
            Some(i) => i,
            None => {
                return;
            },
        };
        if index >= self.transcript.len() {
            return;
        }
        if !self.transcript[index].is_expandable() {
            return;
        }
        let taken = self.swap_block(index, TranscriptBlock::System { message: String::new() });
        let flipped = match taken {
            TranscriptBlock::Tool {
                tool_call_id,
                name,
                arguments,
                arguments_display,
                stdout,
                stderr,
                state,
                expanded,
                exit_code,
                duration,
            } => TranscriptBlock::Tool {
                tool_call_id,
                name,
                arguments,
                arguments_display,
                stdout,
                stderr,
                state,
                expanded: !expanded,
                exit_code,
                duration,
            },
            TranscriptBlock::Thinking { text, expanded } => TranscriptBlock::Thinking { text, expanded: !expanded },
            other => other,
        };
        self.swap_block(index, flipped);
        assert(self.model().transcript =~= toggled_at(
            old(self).model().transcript,
            old(self).model().selection.selected_block,
        ));
    }
}

} // verus!

verus! {

// ── Command results in the transcript ───────────────────────────────────────

pub open spec fn tui_help_line(item: (Seq<char>, Seq<char>)) -> Seq<char> {
    "\n  /"@ + pad_right(item.0, 12) + " "@ + item.1
}

pub open spec fn tui_help_lines(items: Seq<(Seq<char>, Seq<char>)>) -> Seq<char>
    decreases items.len(),
{
    if items.len() == 0 {
        Seq::empty()
    } else {
        tui_help_lines(items.drop_last()) + tui_help_line(items.last())
    }
}

pub open spec fn keys_help() -> Seq<char> {
    "\n\nKeys: Enter submit · Ctrl+J newline · Tab focus · PageUp/Down scroll · End latest · Space expand · Ctrl+C cancel"@
}

/// The help listing shown in the transcript.
pub open spec fn tui_help_text(items: Seq<(Seq<char>, Seq<char>)>) -> Seq<char> {
    "Commands:"@ + tui_help_lines(items) + keys_help()
}

pub open spec fn skipped_note(n: nat) -> Seq<char> {
    "Skipped "@ + crate::text::decimal(n) + " unreadable session files."@
}

pub open spec fn tui_session_line(s: SessionSummary) -> Seq<char> {
    "\n  "@ + s.id@ + " | model: "@ + s.model@ + " | msgs: "@ + crate::text::decimal(s.msg_count as nat)
        + " | created: "@ + s.created@
}

pub open spec fn tui_session_lines(ss: Seq<SessionSummary>) -> Seq<char>
    decreases ss.len(),
{
    if ss.len() == 0 {
        Seq::empty()
    } else {
        tui_session_lines(ss.drop_last()) + tui_session_line(ss.last())
    }
}

/// The session listing shown in the transcript, with a note of skipped
/// unreadable files.
pub open spec fn tui_sessions_text(ss: Seq<SessionSummary>, skipped: nat) -> Seq<char> {
    if ss.len() == 0 {
        if skipped == 0 {
            "No sessions found."@
        } else {
            "No sessions found.\n"@ + skipped_note(skipped)
        }
    } else {
        "Available sessions:"@ + tui_session_lines(ss) + if skipped > 0 {
            "\n"@ + skipped_note(skipped)
        } else {
            Seq::empty()
        }
    }
}

/// The block a command result adds to the transcript.
pub open spec fn command_result_block(r: CommandResult) -> BlockView {
    match r {
        CommandResult::Message(m) => BlockView::System { message: m@ },
        CommandResult::Error(m) => BlockView::Error { message: sanitized(m@) },
        CommandResult::Help(items) => BlockView::System {
            message: tui_help_text(items@.map_values(|i: CommandHelpItem| crate::command::item_view(i))),
        },
        CommandResult::ModelChanged { model } => BlockView::System { message: "Switched to "@ + model@ },
        CommandResult::Sessions { sessions, skipped } => BlockView::System {
            message: tui_sessions_text(sessions@, skipped as nat),
        },
    }
}

/// Screen lines a block adds (before wrapping).
pub open spec fn block_line_count(b: BlockView) -> nat {
    match b {
        BlockView::User { text } => line_count(text) + 1,
        BlockView::Assistant { text, .. } => line_count(text) + 1,
        BlockView::Error { message } => line_count(message) + 1,
        BlockView::System { message } => line_count(message) + 1,
        BlockView::Thinking { text, expanded } => if expanded {
            line_count(text) + 1
        } else {
            1
        },
        BlockView::Tool { stdout, stderr, expanded, .. } => if expanded {
            capped(5 + line_count(stdout) + line_count(stderr))
        } else {
            1
        },
    }
}

/// How a command result changes the state: the activity ends, the result
/// is added to the transcript, and an error result is also kept as the
/// current error.
pub open spec fn command_result_step(m: ReducerModel, r: CommandResult) -> ReducerModel {
    let b = command_result_block(r);
    let m1 = ReducerModel {
        activity: ActivityState::Idle,
        error: match r {
            CommandResult::Error(msg) => Some(sanitized(msg@)),
            _ => None,
        },
        status: if r is Error {
            "Command error"@
        } else {
            m.status
        },
        transcript: m.transcript.push(b),
        ..m
    };
    let m2 = with_lines(limit_blocks(m1), block_line_count(b));
    if r is Error {
        m2
    } else {
        ReducerModel { status: "Ready"@, ..m2 }
    }
}

fn tui_help_exec(items: &Vec<CommandHelpItem>) -> (r: String)
    ensures
        r@ == tui_help_text(items@.map_values(|i: CommandHelpItem| crate::command::item_view(i))),
{
    let ghost views = items@.map_values(|i: CommandHelpItem| crate::command::item_view(i));
    let mut out: Vec<char> = Vec::new();
    append_str(&mut out, "Commands:");
    let ghost head = out@;
    let mut i: usize = 0;
    while i < items.len()
        invariant
            0 <= i <= items@.len(),
            views == items@.map_values(|it: CommandHelpItem| crate::command::item_view(it)),
            out@ == head + tui_help_lines(views.take(i as int)),
        decreases items@.len() - i,
    {
        let ghost before = out@;
        append_str(&mut out, "\n  /");
        let n = chars_of(items[i].name.as_str());
        crate::command::append_padded(&mut out, n.as_slice(), 12);
        append_str(&mut out, " ");
        append_str(&mut out, items[i].description.as_str());
        assert(views.take(i + 1).drop_last() =~= views.take(i as int));
        assert(views.take(i + 1).last() == crate::command::item_view(items@[i as int]));
        assert(out@ =~= before + tui_help_line(crate::command::item_view(items@[i as int])));
        i = i + 1;
    }
    assert(views.take(items@.len() as int) =~= views);
    append_str(
        &mut out,
        "\n\nKeys: Enter submit · Ctrl+J newline · Tab focus · PageUp/Down scroll · End latest · Space expand · Ctrl+C cancel",
    );
    string_from_chars(out.as_slice())
}

fn append_skipped_note(out: &mut Vec<char>, n: usize)
    ensures
        final(out)@ == old(out)@ + skipped_note(n as nat),
{
    append_str(out, "Skipped ");
    crate::text::append_decimal(out, n as u64);
    append_str(out, " unreadable session files.");
}

fn tui_sessions_exec(sessions: &Vec<SessionSummary>, skipped: usize) -> (r: String)
    ensures
        r@ == tui_sessions_text(sessions@, skipped as nat),
{
    let mut out: Vec<char> = Vec::new();
    if sessions.len() == 0 {
        if skipped == 0 {
            append_str(&mut out, "No sessions found.");
        } else {
            append_str(&mut out, "No sessions found.\n");
            append_skipped_note(&mut out, skipped);
        }
        return string_from_chars(out.as_slice());
    }
    append_str(&mut out, "Available sessions:");
    let ghost head = out@;
    let mut i: usize = 0;
    while i < sessions.len()
        invariant
            0 <= i <= sessions@.len(),
            out@ == head + tui_session_lines(sessions@.take(i as int)),
        decreases sessions@.len() - i,
    {
        let s = &sessions[i];
        append_str(&mut out, "\n  ");
        append_str(&mut out, s.id.as_str());
        append_str(&mut out, " | model: ");
        append_str(&mut out, s.model.as_str());
        append_str(&mut out, " | msgs: ");
        crate::text::append_decimal(&mut out, s.msg_count as u64);
        append_str(&mut out, " | created: ");
        append_str(&mut out, s.created.as_str());
        assert(sessions@.take(i + 1).drop_last() =~= sessions@.take(i as int));
        assert(out@ =~= head + tui_session_lines(sessions@.take(i + 1)));
        i = i + 1;
    }
    assert(sessions@.take(i as int) =~= sessions@);
    if skipped > 0 {
        append_str(&mut out, "\n");
        append_skipped_note(&mut out, skipped);
    }
    string_from_chars(out.as_slice())
}

fn block_line_count_exec(b: &TranscriptBlock) -> (n: usize)
    ensures
        n == block_line_count(block_view(*b)),
{
    match b {
        TranscriptBlock::User { text } => text_line_count(text.as_str()) + 1,
        TranscriptBlock::Assistant { text, .. } => text_line_count(text.as_str()) + 1,
        TranscriptBlock::Error { message } => text_line_count(message.as_str()) + 1,
        TranscriptBlock::System { message } => text_line_count(message.as_str()) + 1,
        TranscriptBlock::Thinking { text, expanded } => if *expanded {
            text_line_count(text.as_str()) + 1
        } else {
            1
        },
        TranscriptBlock::Tool { stdout, stderr, expanded, .. } => if *expanded {
            5usize.saturating_add(text_line_count(stdout.as_str())).saturating_add(
                text_line_count(stderr.as_str()),
            )
        } else {
            1
        },
    }
}

} // verus!

verus! {

// ── Prompt and command lifecycle ────────────────────────────────────────────

pub enum EffectView {
    SubmitInput(Seq<char>),
    RunAgent(Seq<char>),
    CancelAgent,
    CancelCommand,
    Quit,
}

pub open spec fn effect_view(e: Effect) -> EffectView {
    match e {
        Effect::SubmitInput(s) => EffectView::SubmitInput(s@),
        Effect::RunAgent(s) => EffectView::RunAgent(s@),
        Effect::CancelAgent => EffectView::CancelAgent,
        Effect::CancelCommand => EffectView::CancelCommand,
        Effect::Quit => EffectView::Quit,
    }
}

pub open spec fn effects_view(v: Seq<Effect>) -> Seq<EffectView> {
    v.map_values(|e: Effect| effect_view(e))
}

/// The editor was emptied.
pub open spec fn cleared(input: InputState) -> bool {
    &&& input.wf()
    &&& input.text@.len() == 0
    &&& input.cursor() == 0
    &&& input.preferred_column is None
    &&& input.viewport_line == 0
}

/// Only the editor and the history differ between the two views.
pub open spec fn same_frame(a: UiView, b: UiView) -> bool {
    &&& a.focus == b.focus
    &&& a.provider == b.provider
    &&& a.model == b.model
    &&& a.terminal_size == b.terminal_size
    &&& a.quit == b.quit
}

impl AppState {
    /// The editor and history are consistent and the tool bookkeeping is.
    pub open spec fn ready(&self) -> bool {
        self.wf() && self.ui().input.wf() && self.ui().history.wf()
    }

    /// Submit the editor's text: only when idle and not blank. The text
    /// goes to the history, the editor is emptied and focused, and the
    /// text is handed out for routing.
    pub fn submit(&mut self) -> (effects: Vec<Effect>)
        requires
            old(self).ready(),
        ensures
            final(self).ready(),
            old(self).model().activity != ActivityState::Idle ==> final(self).model() == (ReducerModel {
                status: "Busy · Enter unavailable · Ctrl+C to cancel"@,
                ..old(self).model()
            }) && final(self).ui() == old(self).ui() && effects@.len() == 0,
            old(self).model().activity == ActivityState::Idle && crate::text::trim(old(self).ui().input.text@).len()
                == 0 ==> final(self).model() == old(self).model() && final(self).ui() == old(self).ui()
                && effects@.len() == 0,
            old(self).model().activity == ActivityState::Idle && crate::text::trim(old(self).ui().input.text@).len()
                > 0 ==> {
                &&& final(self).model() == (ReducerModel {
                    last_outcome: None,
                    run_tool_error: None,
                    status: "Dispatching"@,
                    ..old(self).model()
                })
                &&& final(self).ui().history.model() == crate::tui::recorded(
                    old(self).ui().history.model(),
                    old(self).ui().input.text@,
                )
                &&& cleared(final(self).ui().input)
                &&& final(self).ui().focus == Focus::Input
                &&& same_frame(final(self).ui(), UiView { focus: Focus::Input, ..old(self).ui() })
                &&& effects_view(effects@) == seq![EffectView::SubmitInput(old(self).ui().input.text@)]
            },
            took_step(*final(self), effects@, submit_step(old(self).model(), ui_model_of(old(self).ui()))),
    {
        if self.activity != ActivityState::Idle {
            self.status = crate::text::to_string("Busy · Enter unavailable · Ctrl+C to cancel");
            return Self::no_effects();
        }
        let prompt = self.input.text.clone();
        let pc = chars_of(prompt.as_str());
        let t = crate::text::trim_chars(pc.as_slice());
        if t.len() == 0 {
            return Self::no_effects();
        }
        self.history.record(prompt.as_str());
        self.input.clear();
        self.focus = Focus::Input;
        self.last_outcome = None;
        self.run_tool_error = None;
        self.status = crate::text::to_string("Dispatching");
        let effects = vec![Effect::SubmitInput(prompt)];
        assert(effects_view(effects@) =~= seq![EffectView::SubmitInput(old(self).ui().input.text@)]);
        assert(self.input.text@ =~= Seq::<char>::empty());
        assert(self.input.iview() == crate::tui::iv_set_text(Seq::empty()));
        effects
    }

    /// Ask a running agent to stop.
    pub fn cancel(&mut self) -> (effects: Vec<Effect>)
        ensures
            old(self).model().activity == ActivityState::AgentRunning ==> final(self).model() == (ReducerModel {
                activity: ActivityState::AgentCancelling,
                status: "Cancelling · waiting for agent"@,
                ..old(self).model()
            }) && effects_view(effects@) == seq![EffectView::CancelAgent],
            old(self).model().activity != ActivityState::AgentRunning ==> final(self).model() == old(
                self,
            ).model() && effects@.len() == 0,
            final(self).ui() == old(self).ui(),
    {
        if self.activity == ActivityState::AgentRunning {
            self.activity = ActivityState::AgentCancelling;
            self.status = crate::text::to_string("Cancelling · waiting for agent");
            let e = vec![Effect::CancelAgent];
            assert(effects_view(e@) =~= seq![EffectView::CancelAgent]);
            e
        } else {
            Vec::new()
        }
    }

    /// A prompt was routed to the agent: it enters the transcript as the
    /// user's text and the agent runs the expanded text.
    pub fn agent_prompt_started(&mut self, original: String, expanded: String) -> (effects: Vec<Effect>)
        requires
            old(self).wf(),
        ensures
            final(self).wf(),
            final(self).model() == with_lines(
                ReducerModel {
                    activity: ActivityState::AgentRunning,
                    last_outcome: None,
                    run_tool_error: None,
                    status: "Agent running"@,
                    ..limit_blocks(
                        ReducerModel {
                            transcript: old(self).model().transcript.push(BlockView::User { text: original@ }),
                            ..old(self).model()
                        },
                    )
                },
                2,
            ),
            final(self).ui() == old(self).ui(),
            effects_view(effects@) == seq![EffectView::RunAgent(expanded@)],
    {
        self.push_block(TranscriptBlock::User { text: original });
        self.enforce_block_limit();
        self.activity = ActivityState::AgentRunning;
        self.last_outcome = None;
        self.run_tool_error = None;
        self.status = crate::text::to_string("Agent running");
        self.note_lines(2);
        let ghost ev = expanded@;
        let e = vec![Effect::RunAgent(expanded)];
        assert(effects_view(e@) =~= seq![EffectView::RunAgent(ev)]);
        e
    }

    /// A slash command started.
    pub fn command_started(&mut self, name: &str)
        ensures
            final(self).model() == (ReducerModel {
                activity: ActivityState::CommandRunning,
                error: None,
                last_outcome: None,
                status: "Command /"@ + name@,
                ..old(self).model()
            }),
            final(self).ui() == old(self).ui(),
    {
        self.activity = ActivityState::CommandRunning;
        self.error = None;
        self.last_outcome = None;
        self.status = joined_text("Command /", name);
    }

    /// Show a command's result in the transcript.
    pub fn apply_command_result(&mut self, result: CommandResult) -> (effects: Vec<Effect>)
        requires
            old(self).wf(),
        ensures
            final(self).wf(),
            final(self).model() == command_result_step(old(self).model(), result),
            final(self).ui() == old(self).ui(),
            effects@.len() == 0,
    {
        let ghost r = result;
        self.activity = ActivityState::Idle;
        self.error = None;
        let block = match result {
            CommandResult::Message(message) => TranscriptBlock::System { message },
            CommandResult::Error(message) => {
                let message = sanitize_message(message.as_str());
                self.error = Some(message.clone());
                self.status = crate::text::to_string("Command error");
                TranscriptBlock::Error { message }
            },
            CommandResult::Help(items) => TranscriptBlock::System { message: tui_help_exec(&items) },
            CommandResult::ModelChanged { model } => TranscriptBlock::System {
                message: joined_text("Switched to ", model.as_str()),
            },
            CommandResult::Sessions { sessions, skipped } => TranscriptBlock::System {
                message: tui_sessions_exec(&sessions, skipped),
            },
        };
        assert(block_view(block) == command_result_block(r));
        let lines = block_line_count_exec(&block);
        self.push_block(block);
        self.enforce_block_limit();
        self.note_lines(lines);
        if self.error.is_none() {
            self.status = crate::text::to_string("Ready");
        }
        Vec::new()
    }

    /// A command finished: quit if it asked to, else show its result.
    pub fn apply_command_outcome(&mut self, outcome: CommandOutcome) -> (effects: Vec<Effect>)
        requires
            old(self).wf(),
        ensures
            final(self).wf(),
            outcome.control == CommandControl::Quit ==> final(self).model() == (ReducerModel {
                activity: ActivityState::Idle,
                ..old(self).model()
            }) && final(self).ui() == (UiView { quit: true, ..old(self).ui() }) && effects_view(effects@)
                == seq![EffectView::Quit],
            outcome.control != CommandControl::Quit ==> final(self).ui() == old(self).ui() && effects@.len()
                == 0 && final(self).model() == match outcome.result {
                Some(r) => command_result_step(old(self).model(), r),
                None => ReducerModel {
                    activity: ActivityState::Idle,
                    error: None,
                    status: "Ready"@,
                    ..old(self).model()
                },
            },
    {
        match outcome.control {
            CommandControl::Quit => {
                self.activity = ActivityState::Idle;
                self.quit = true;
                let e = vec![Effect::Quit];
                assert(effects_view(e@) =~= seq![EffectView::Quit]);
                return e;
            },
            CommandControl::Continue => {},
        }
        self.activity = ActivityState::Idle;
        match outcome.result {
            Some(result) => self.apply_command_result(result),
            None => {
                self.error = None;
                self.status = crate::text::to_string("Ready");
                Vec::new()
            },
        }
    }

    /// A running command was cancelled.
    pub fn command_cancelled(&mut self) -> (effects: Vec<Effect>)
        requires
            old(self).wf(),
        ensures
            final(self).wf(),
            (old(self).model().activity == ActivityState::CommandRunning || old(self).model().activity
                == ActivityState::CommandCancelling) ==> final(self).model() == with_lines(
                ReducerModel {
                    activity: ActivityState::Idle,
                    error: None,
                    status: "Command cancelled"@,
                    transcript: old(self).model().transcript.push(
                        BlockView::System { message: "Command cancelled"@ },
                    ),
                    ..old(self).model()
                },
                2,
            ),
            !(old(self).model().activity == ActivityState::CommandRunning || old(self).model().activity
                == ActivityState::CommandCancelling) ==> final(self).model() == old(self).model(),
            final(self).ui() == old(self).ui(),
            effects@.len() == 0,
    {
        if self.activity == ActivityState::CommandRunning || self.activity
            == ActivityState::CommandCancelling {
            self.activity = ActivityState::Idle;
            self.error = None;
            self.status = crate::text::to_string("Command cancelled");
            self.push_block(TranscriptBlock::System { message: crate::text::to_string("Command cancelled") });
            self.note_lines(2);
        }
        Vec::new()
    }

    /// A command failed, or its input could not be routed.
    pub fn command_failed(&mut self, message: &str) -> (effects: Vec<Effect>)
        requires
            old(self).wf(),
        ensures
            final(self).wf(),
            final(self).model() == limit_blocks(
                with_lines(
                    ReducerModel {
                        activity: ActivityState::Idle,
                        error: Some(sanitized(message@)),
                        status: "Command error"@,
                        transcript: old(self).model().transcript.push(
                            BlockView::Error { message: sanitized(message@) },
                        ),
                        ..old(self).model()
                    },
                    2,
                ),
            ),
            final(self).ui() == old(self).ui(),
            effects@.len() == 0,
    {
        self.activity = ActivityState::Idle;
        let m = sanitize_message(message);
        self.error = Some(m.clone());
        self.status = crate::text::to_string("Command error");
        self.push_block(TranscriptBlock::Error { message: m });
        self.note_lines(2);
        self.enforce_block_limit();
        Vec::new()
    }
}

} // verus!

verus! {

// ── Keys and actions ────────────────────────────────────────────────────────

/// Keys the UI reacts to; anything else is `Other`.
#[derive(Debug, Clone, Copy, PartialEq, Eq, Structural)]
pub enum KeyCode {
    Char(char),
    Tab,
    PageUp,
    PageDown,
    Esc,
    Up,
    Down,
    Left,
    Right,
    Home,
    End,
    Enter,
    Backspace,
    Delete,
    Other,
}

/// A key press with the modifiers the UI looks at.
#[derive(Debug, Clone, Copy, PartialEq, Eq, Structural)]
pub struct KeyPress {
    pub code: KeyCode,
    pub control: bool,
    pub shift: bool,
    pub alt: bool,
}

impl KeyPress {
    pub fn new(code: KeyCode) -> (k: Self)
        ensures
            k == (KeyPress { code, control: false, shift: false, alt: false }),
    {
        KeyPress { code, control: false, shift: false, alt: false }
    }

    pub fn ctrl(c: char) -> (k: Self)
        ensures
            k == (KeyPress { code: KeyCode::Char(c), control: true, shift: false, alt: false }),
    {
        KeyPress { code: KeyCode::Char(c), control: true, shift: false, alt: false }
    }
}

/// Everything the UI reacts to.
#[derive(Debug)]
pub enum Action {
    KeyInput(KeyPress),
    Paste(String),
    Resize(u16, u16),
    Submit,
    Cancel,
    AgentPromptStarted { original: String, expanded: String },
    CommandStarted { name: String },
    CommandCompleted(CommandOutcome),
    CommandCancelled,
    CommandFailed(String),
    InputRouteError(String),
    AgentEvent(AgentEvent),
    Quit,
}

pub struct Step {
    pub m: ReducerModel,
    pub u: UiModel,
    pub effects: Seq<EffectView>,
}

pub open spec fn quiet(m: ReducerModel, u: UiModel) -> Step {
    Step { m, u, effects: Seq::empty() }
}

/// The editor's first visible line brought to the cursor.
pub open spec fn sync(u: UiModel) -> UiModel {
    UiModel { input: InputView { viewport: synced_viewport(u), ..u.input }, ..u }
}

/// An editing step followed by keeping the cursor visible.
pub open spec fn edit(m: ReducerModel, u: UiModel, input: InputView) -> Step {
    quiet(m, sync(UiModel { input, ..u }))
}

pub open spec fn with_scroll(m: ReducerModel, scroll: ScrollState) -> ReducerModel {
    ReducerModel { scroll, ..m }
}

pub open spec fn with_selection(m: ReducerModel, selected: Option<usize>) -> ReducerModel {
    ReducerModel { selection: TranscriptSelection { selected_block: selected }, ..m }
}

pub open spec fn scroll_step(m: ReducerModel, u: UiModel, amount: usize, towards_start: bool) -> ReducerModel {
    with_scroll(m, clamped(scrolled(m.scroll, amount, towards_start), max_offset(m, u)))
}

pub open spec fn at_start(m: ReducerModel, u: UiModel) -> ReducerModel {
    with_scroll(
        m,
        ScrollState {
            offset_from_bottom: max_offset(m, u) as usize,
            follow_output: false,
            unread_lines: m.scroll.unread_lines,
        },
    )
}

pub open spec fn at_end(m: ReducerModel) -> ReducerModel {
    with_scroll(m, ScrollState { offset_from_bottom: 0, follow_output: true, unread_lines: 0 })
}

pub open spec fn submit_step(m: ReducerModel, u: UiModel) -> Step {
    if m.activity != ActivityState::Idle {
        quiet(ReducerModel { status: "Busy · Enter unavailable · Ctrl+C to cancel"@, ..m }, u)
    } else if crate::text::trim(u.input.text).len() == 0 {
        quiet(m, u)
    } else {
        Step {
            m: ReducerModel { last_outcome: None, run_tool_error: None, status: "Dispatching"@, ..m },
            u: UiModel {
                history: crate::tui::recorded(u.history, u.input.text),
                input: crate::tui::iv_set_text(Seq::empty()),
                focus: Focus::Input,
                ..u
            },
            effects: seq![EffectView::SubmitInput(u.input.text)],
        }
    }
}

pub open spec fn cancel_step(m: ReducerModel, u: UiModel) -> Step {
    if m.activity == ActivityState::AgentRunning {
        Step {
            m: ReducerModel {
                activity: ActivityState::AgentCancelling,
                status: "Cancelling · waiting for agent"@,
                ..m
            },
            u,
            effects: seq![EffectView::CancelAgent],
        }
    } else {
        quiet(m, u)
    }
}

/// Ctrl+C: cancels a running agent or command; when idle it clears a draft
/// and ends history browsing.
pub open spec fn ctrl_c_step(m: ReducerModel, u: UiModel) -> Step {
    match m.activity {
        ActivityState::AgentRunning => cancel_step(m, u),
        ActivityState::AgentCancelling => quiet(m, u),
        ActivityState::CommandCancelling => quiet(m, u),
        ActivityState::CommandRunning => Step {
            m: ReducerModel {
                activity: ActivityState::CommandCancelling,
                status: "Command cancelling · waiting"@,
                ..m
            },
            u,
            effects: seq![EffectView::CancelCommand],
        },
        ActivityState::Idle => if u.input.text.len() > 0 {
            quiet(
                ReducerModel { status: "Input cleared"@, ..m },
                UiModel {
                    input: crate::tui::iv_set_text(Seq::empty()),
                    history: crate::tui::HistoryModel {
                        cursor: None,
                        draft: Seq::empty(),
                        ..u.history
                    },
                    ..u
                },
            )
        } else {
            quiet(m, u)
        },
    }
}

/// History is browsed with Up only on a single-line draft.
pub open spec fn can_browse(v: InputView) -> bool {
    !v.text.contains('\n') && crate::tui::line_feeds(v.text, v.cursor) == 0
}

pub open spec fn history_back(m: ReducerModel, u: UiModel) -> Step {
    let (h, shown) = crate::tui::browse_back(u.history, u.input.text);
    quiet(
        m,
        sync(
            UiModel {
                history: h,
                input: match shown {
                    Some(t) => crate::tui::iv_set_text(t),
                    None => u.input,
                },
                ..u
            },
        ),
    )
}

pub open spec fn history_forward(m: ReducerModel, u: UiModel) -> Step {
    let (h, shown) = crate::tui::browse_forward(u.history);
    quiet(
        m,
        sync(
            UiModel {
                history: h,
                input: match shown {
                    Some(t) => crate::tui::iv_set_text(t),
                    None => u.input,
                },
                ..u
            },
        ),
    )
}

pub open spec fn input_key_step(m: ReducerModel, u: UiModel, key: KeyPress) -> Step {
    let v = u.input;
    if key.code == KeyCode::Char('c') && key.control {
        ctrl_c_step(m, u)
    } else if key.code == KeyCode::Enter && (key.shift || key.alt) {
        edit(m, u, crate::tui::iv_insert_char(v, '\n'))
    } else {
        match key.code {
            KeyCode::Char(c) => if key.control {
                if c == 'a' {
                    edit(m, u, crate::tui::iv_home(v))
                } else if c == 'e' {
                    edit(m, u, crate::tui::iv_end(v))
                } else if c == 'j' {
                    edit(m, u, crate::tui::iv_insert_char(v, '\n'))
                } else if c == 'u' {
                    edit(m, u, crate::tui::iv_delete_to_line_start(v))
                } else if c == 'k' {
                    edit(m, u, crate::tui::iv_delete_to_line_end(v))
                } else if c == 'w' {
                    edit(m, u, crate::tui::iv_delete_previous_word(v))
                } else {
                    quiet(m, u)
                }
            } else {
                edit(m, u, crate::tui::iv_insert_char(v, c))
            },
            KeyCode::Enter => submit_step(m, u),
            KeyCode::Backspace => edit(m, u, crate::tui::iv_backspace(v)),
            KeyCode::Delete => edit(m, u, crate::tui::iv_delete(v)),
            KeyCode::Left => edit(m, u, crate::tui::iv_left(v)),
            KeyCode::Right => edit(m, u, crate::tui::iv_right(v)),
            KeyCode::Up => if v.text.len() == 0 || can_browse(v) {
                history_back(m, u)
            } else {
                edit(m, u, crate::tui::iv_vertical(v, -1i32))
            },
            KeyCode::Down => if u.history.cursor is Some {
                history_forward(m, u)
            } else {
                edit(m, u, crate::tui::iv_vertical(v, 1i32))
            },
            KeyCode::Home => edit(m, u, crate::tui::iv_home(v)),
            KeyCode::End => edit(at_end(m), u, crate::tui::iv_end(v)),
            _ => quiet(m, u),
        }
    }
}

pub open spec fn transcript_key_step(m: ReducerModel, u: UiModel, key: KeyPress) -> Step {
    match key.code {
        KeyCode::Char(c) => if c == 'i' {
            quiet(m, UiModel { focus: Focus::Input, ..u })
        } else if c == ' ' {
            quiet(ReducerModel { transcript: toggled_at(m.transcript, m.selection.selected_block), ..m }, u)
        } else {
            quiet(m, u)
        },
        KeyCode::Up => quiet(with_selection(m, moved_selection(m.transcript, m.selection.selected_block, -1i32)), u),
        KeyCode::Down => quiet(with_selection(m, moved_selection(m.transcript, m.selection.selected_block, 1i32)), u),
        KeyCode::Home => quiet(with_selection(at_start(m, u), first_expandable(m.transcript)), u),
        KeyCode::End => quiet(with_selection(at_end(m), last_expandable(m.transcript)), u),
        KeyCode::Enter => quiet(ReducerModel { transcript: toggled_at(m.transcript, m.selection.selected_block), ..m }, u),
        _ => quiet(m, u),
    }
}

/// A key press: the current error is cleared; Tab, PageUp/PageDown and
/// Esc work everywhere; other keys go to the focused pane.
pub open spec fn key_step(m: ReducerModel, u: UiModel, key: KeyPress) -> Step {
    let m = ReducerModel { error: None, ..m };
    match key.code {
        KeyCode::Tab => match u.focus {
            Focus::Input => quiet(with_selection(m, last_expandable(m.transcript)), UiModel { focus: Focus::Transcript, ..u }),
            Focus::Transcript => quiet(m, UiModel { focus: Focus::Input, ..u }),
        },
        KeyCode::PageUp => quiet(scroll_step(m, u, 10, true), u),
        KeyCode::PageDown => quiet(scroll_step(m, u, 10, false), u),
        KeyCode::Esc => quiet(with_selection(m, None), UiModel { focus: Focus::Input, ..u }),
        _ => if u.focus == Focus::Transcript {
            transcript_key_step(m, u, key)
        } else {
            input_key_step(m, u, key)
        },
    }
}

/// What an action does to the model and the UI, and the effects it asks
/// for.
pub open spec fn action_step(m: ReducerModel, u: UiModel, a: Action) -> Step {
    match a {
        Action::KeyInput(key) => key_step(m, u, key),
        Action::Paste(text) => if u.focus == Focus::Input {
            edit(m, u, crate::tui::iv_insert_text(u.input, text@))
        } else {
            quiet(m, u)
        },
        Action::Resize(width, height) => {
            let u2 = UiModel { terminal_size: (width, height), ..u };
            quiet(with_scroll(m, clamped(m.scroll, max_offset(m, u2))), sync(u2))
        },
        Action::Submit => submit_step(m, u),
        Action::Cancel => cancel_step(m, u),
        Action::AgentPromptStarted { original, expanded } => Step {
            m: with_lines(
                ReducerModel {
                    activity: ActivityState::AgentRunning,
                    last_outcome: None,
                    run_tool_error: None,
                    status: "Agent running"@,
                    ..limit_blocks(
                        ReducerModel { transcript: m.transcript.push(BlockView::User { text: original@ }), ..m },
                    )
                },
                2,
            ),
            u,
            effects: seq![EffectView::RunAgent(expanded@)],
        },
        Action::CommandStarted { name } => quiet(
            ReducerModel {
                activity: ActivityState::CommandRunning,
                error: None,
                last_outcome: None,
                status: "Command /"@ + name@,
                ..m
            },
            u,
        ),
        Action::CommandCompleted(outcome) => if outcome.control == CommandControl::Quit {
            Step {
                m: ReducerModel { activity: ActivityState::Idle, ..m },
                u: UiModel { quit: true, ..u },
                effects: seq![EffectView::Quit],
            }
        } else {
            quiet(
                match outcome.result {
                    Some(r) => command_result_step(m, r),
                    None => ReducerModel { activity: ActivityState::Idle, error: None, status: "Ready"@, ..m },
                },
                u,
            )
        },
        Action::CommandCancelled => if m.activity == ActivityState::CommandRunning || m.activity
            == ActivityState::CommandCancelling {
            quiet(
                with_lines(
                    ReducerModel {
                        activity: ActivityState::Idle,
                        error: None,
                        status: "Command cancelled"@,
                        transcript: m.transcript.push(BlockView::System { message: "Command cancelled"@ }),
                        ..m
                    },
                    2,
                ),
                u,
            )
        } else {
            quiet(m, u)
        },
        Action::CommandFailed(message) => quiet(failed_step(m, message@), u),
        Action::InputRouteError(message) => quiet(failed_step(m, message@), u),
        Action::AgentEvent(e) => quiet(event_step(m, e), u),
        Action::Quit => Step { m, u: UiModel { quit: true, ..u }, effects: seq![EffectView::Quit] },
    }
}

/// A failed command or unroutable input: the redacted message is shown as
/// an error.
pub open spec fn failed_step(m: ReducerModel, message: Seq<char>) -> ReducerModel {
    limit_blocks(
        with_lines(
            ReducerModel {
                activity: ActivityState::Idle,
                error: Some(sanitized(message)),
                status: "Command error"@,
                transcript: m.transcript.push(BlockView::Error { message: sanitized(message) }),
                ..m
            },
            2,
        ),
    )
}

/// Bytes an action may add to the editor's text.
pub open spec fn added_bytes(a: Action) -> nat {
    match a {
        Action::KeyInput(_) => 4,
        Action::Paste(text) => utf8_len(text@),
        _ => 0,
    }
}

/// `after` and `effects` are what step `st` describes.
pub open spec fn took_step(after: AppState, effects: Seq<Effect>, st: Step) -> bool {
    &&& after.model() == st.m
    &&& ui_model_of(after.ui()) == st.u
    &&& effects_view(effects) == st.effects
}

fn has_line_feed(s: &str) -> (r: bool)
    ensures
        r == s@.contains('\n'),
{
    let v = chars_of(s);
    let mut i: usize = 0;
    while i < v.len()
        invariant
            0 <= i <= v@.len(),
            v@ == s@,
            forall|j: int| 0 <= j < i ==> v@[j] != '\n',
        decreases v@.len() - i,
    {
        if v[i] == '\n' {
            return true;
        }
        i = i + 1;
    }
    false
}

impl AppState {
    /// The editor's text leaves room for `extra` more bytes, and for moving
    /// between its lines.
    pub open spec fn has_room(&self, extra: nat) -> bool {
        &&& utf8_len(self.ui().input.text@) + extra <= isize::MAX
        &&& 3 * self.ui().input.text@.len() <= usize::MAX
    }

    fn handle_ctrl_c(&mut self) -> (effects: Vec<Effect>)
        requires
            old(self).ready(),
        ensures
            final(self).ready(),
            took_step(*final(self), effects@, ctrl_c_step(old(self).model(), ui_model_of(old(self).ui()))),
    {
        let ghost u = ui_model_of(self.ui());
        match self.activity {
            ActivityState::AgentRunning => self.cancel(),
            ActivityState::AgentCancelling => {
                let e: Vec<Effect> = Vec::new();
                assert(effects_view(e@) =~= Seq::<EffectView>::empty());
                e
            },
            ActivityState::CommandCancelling => {
                let e: Vec<Effect> = Vec::new();
                assert(effects_view(e@) =~= Seq::<EffectView>::empty());
                e
            },
            ActivityState::CommandRunning => {
                self.activity = ActivityState::CommandCancelling;
                self.status = crate::text::to_string("Command cancelling · waiting");
                let e = vec![Effect::CancelCommand];
                assert(effects_view(e@) =~= seq![EffectView::CancelCommand]);
                e
            },
            ActivityState::Idle => {
                if !self.input.text.as_str().is_empty() {
                    self.input.clear();
                    self.history.cursor = None;
                    self.history.draft = String::new();
                    self.status = crate::text::to_string("Input cleared");
                    assert(self.input.text@ =~= Seq::<char>::empty());
                }
                let e: Vec<Effect> = Vec::new();
                assert(effects_view(e@) =~= Seq::<EffectView>::empty());
                e
            },
        }
    }
}

impl AppState {
    fn no_effects() -> (e: Vec<Effect>)
        ensures
            e@.len() == 0,
            effects_view(e@) == Seq::<EffectView>::empty(),
    {
        let e: Vec<Effect> = Vec::new();
        assert(effects_view(e@) =~= Seq::<EffectView>::empty());
        e
    }

    fn handle_transcript_key(&mut self, key: KeyPress) -> (effects: Vec<Effect>)
        requires
            old(self).ready(),
        ensures
            final(self).ready(),
            took_step(*final(self), effects@, transcript_key_step(old(self).model(), ui_model_of(old(self).ui()), key)),
    {
        match key.code {
            KeyCode::Char(c) => {
                if c == 'i' {
                    self.focus = Focus::Input;
                } else if c == ' ' {
                    self.toggle_selected();
                }
            },
            KeyCode::Up => self.move_selection(-1),
            KeyCode::Down => self.move_selection(1),
            KeyCode::Home => {
                self.scroll_to_start();
                self.selection.selected_block = self.first_selectable();
            },
            KeyCode::End => {
                self.scroll_to_end();
                self.selection.selected_block = self.last_selectable();
            },
            KeyCode::Enter => self.toggle_selected(),
            _ => {},
        }
        Self::no_effects()
    }

    fn handle_control_char(&mut self, c: char)
        requires
            old(self).ready(),
            old(self).has_room(4),
        ensures
            final(self).ready(),
            took_step(
                *final(self),
                Seq::empty(),
                input_key_step(
                    old(self).model(),
                    ui_model_of(old(self).ui()),
                    KeyPress { code: KeyCode::Char(c), control: true, shift: false, alt: false },
                ),
            ) || c == 'c',
    {
        if c == 'a' {
            self.input.move_home();
        } else if c == 'e' {
            self.input.move_end();
        } else if c == 'j' {
            self.input.insert_char('\n');
        } else if c == 'u' {
            self.input.delete_to_line_start();
        } else if c == 'k' {
            self.input.delete_to_line_end();
        } else if c == 'w' {
            self.input.delete_previous_word();
        } else {
            assert(effects_view(Seq::<Effect>::empty()) =~= Seq::<EffectView>::empty());
            return;
        }
        self.sync_input_viewport();
        assert(effects_view(Seq::<Effect>::empty()) =~= Seq::<EffectView>::empty());
    }
}

impl AppState {
    fn handle_input_key(&mut self, key: KeyPress) -> (effects: Vec<Effect>)
        requires
            old(self).ready(),
            old(self).has_room(4),
        ensures
            final(self).ready(),
            took_step(*final(self), effects@, input_key_step(old(self).model(), ui_model_of(old(self).ui()), key)),
    {
        if key.code == KeyCode::Char('c') && key.control {
            return self.handle_ctrl_c();
        }
        if key.code == KeyCode::Enter && (key.shift || key.alt) {
            self.input.insert_char('\n');
            self.sync_input_viewport();
            return Self::no_effects();
        }
        match key.code {
            KeyCode::Char(c) => {
                if key.control {
                    self.handle_control_char(c);
                    return Self::no_effects();
                }
                self.input.insert_char(c);
            },
            KeyCode::Enter => {
                return self.submit();
            },
            KeyCode::Backspace => self.input.backspace(),
            KeyCode::Delete => self.input.delete(),
            KeyCode::Left => self.input.move_left(),
            KeyCode::Right => self.input.move_right(),
            KeyCode::Up => {
                let browse = self.input.text.as_str().is_empty() || (!has_line_feed(self.input.text.as_str())
                    && self.input.current_line() == 0);
                if browse {
                    self.history.previous(&mut self.input);
                } else {
                    self.input.move_vertical(-1);
                }
            },
            KeyCode::Down => {
                if self.history.cursor.is_some() {
                    self.history.next(&mut self.input);
                } else {
                    self.input.move_vertical(1);
                }
            },
            KeyCode::Home => self.input.move_home(),
            KeyCode::End => {
                self.input.move_end();
                self.scroll_to_end();
            },
            _ => {
                return Self::no_effects();
            },
        }
        self.sync_input_viewport();
        Self::no_effects()
    }

    fn handle_key(&mut self, key: KeyPress) -> (effects: Vec<Effect>)
        requires
            old(self).ready(),
            old(self).has_room(4),
        ensures
            final(self).ready(),
            took_step(*final(self), effects@, key_step(old(self).model(), ui_model_of(old(self).ui()), key)),
    {
        self.error = None;
        match key.code {
            KeyCode::Tab => {
                match self.focus {
                    Focus::Input => {
                        self.selection.selected_block = self.last_selectable();
                        self.focus = Focus::Transcript;
                    },
                    Focus::Transcript => {
                        self.focus = Focus::Input;
                    },
                }
                return Self::no_effects();
            },
            KeyCode::PageUp => {
                self.scroll_by(10, true);
                return Self::no_effects();
            },
            KeyCode::PageDown => {
                self.scroll_by(10, false);
                return Self::no_effects();
            },
            KeyCode::Esc => {
                self.selection.selected_block = None;
                self.focus = Focus::Input;
                return Self::no_effects();
            },
            _ => {},
        }
        if self.focus == Focus::Transcript {
            return self.handle_transcript_key(key);
        }
        self.handle_input_key(key)
    }
}

impl AppState {
    /// Apply one action: the model, the UI and the effects asked for are
    /// those `action_step` describes.
    #[verifier::rlimit(30)]
    pub fn update(&mut self, action: Action) -> (effects: Vec<Effect>)
        requires
            old(self).ready(),
            old(self).has_room(added_bytes(action)),
        ensures
            final(self).ready(),
            took_step(*final(self), effects@, action_step(old(self).model(), ui_model_of(old(self).ui()), action)),
    {
        let ghost st = action_step(self.model(), ui_model_of(self.ui()), action);
        match action {
            Action::KeyInput(key) => {
                let e = self.handle_key(key);
                assert(took_step(*self, e@, st));
                e
            },
            Action::Paste(text) => {
                if self.focus == Focus::Input {
                    self.input.insert_text(text.as_str());
                    self.sync_input_viewport();
                }
                let e = Self::no_effects();
                assert(took_step(*self, e@, st));
                e
            },
            Action::Resize(width, height) => {
                self.terminal_size = (width, height);
                self.clamp_scroll();
                self.sync_input_viewport();
                let e = Self::no_effects();
                assert(took_step(*self, e@, st));
                e
            },
            Action::Submit => self.submit(),
            Action::Cancel => {
                let e = self.cancel();
                proof {
                    if e@.len() == 0 {
                        assert(effects_view(e@) =~= Seq::<EffectView>::empty());
                    }
                }
                assert(took_step(*self, e@, st));
                e
            },
            Action::AgentPromptStarted { original, expanded } => {
                let e = self.agent_prompt_started(original, expanded);
                assert(took_step(*self, e@, st));
                e
            },
            Action::CommandStarted { name } => {
                self.command_started(name.as_str());
                let e = Self::no_effects();
                assert(took_step(*self, e@, st));
                e
            },
            Action::CommandCompleted(outcome) => {
                let e = self.apply_command_outcome(outcome);
                proof {
                    if e@.len() == 0 {
                        assert(effects_view(e@) =~= Seq::<EffectView>::empty());
                    }
                }
                assert(took_step(*self, e@, st));
                e
            },
            Action::CommandCancelled => {
                let e = self.command_cancelled();
                proof {
                    if e@.len() == 0 {
                        assert(effects_view(e@) =~= Seq::<EffectView>::empty());
                    }
                }
                assert(took_step(*self, e@, st));
                e
            },
            Action::CommandFailed(message) => {
                let e = self.command_failed(message.as_str());
                proof {
                    if e@.len() == 0 {
                        assert(effects_view(e@) =~= Seq::<EffectView>::empty());
                    }
                }
                assert(took_step(*self, e@, st));
                e
            },
            Action::InputRouteError(message) => {
                let e = self.command_failed(message.as_str());
                proof {
                    if e@.len() == 0 {
                        assert(effects_view(e@) =~= Seq::<EffectView>::empty());
                    }
                }
                assert(took_step(*self, e@, st));
                e
            },
            Action::AgentEvent(event) => {
                self.handle_agent_event(event);
                let e = Self::no_effects();
                assert(took_step(*self, e@, st));
                e
            },
            Action::Quit => {
                self.quit = true;
                let e = vec![Effect::Quit];
                assert(effects_view(e@) =~= seq![EffectView::Quit]);
                assert(took_step(*self, e@, st));
                e
            },
        }
    }
}

} // verus!

verus! {

// ── Driving a command ───────────────────────────────────────────────────────

/// Why driving a command ended.
#[derive(Debug)]
pub enum CommandDriveOutcome {
    Completed(CommandOutcome),
    Cancelled,
    Failed(String),
    Quit,
}

/// The model and the UI are those of step `st`.
pub open spec fn reached(after: AppState, st: Step) -> bool {
    &&& after.model() == st.m
    &&& ui_model_of(after.ui()) == st.u
}

/// Some effect asks the running command to stop: a cancellation or quit.
pub open spec fn asks_cancel(es: Seq<EffectView>) -> bool {
    exists|i: int| 0 <= i < es.len() && (es[i] is CancelCommand || es[i] is Quit)
}

impl AppState {
    /// A running command settled. `cancelled` tells whether its
    /// cancellation was asked for while it ran; `result` is what it
    /// returned, an error as its text. The UI takes the cancellation, the
    /// outcome or the failure; the drive ends cancelled, failed, quitting
    /// (the command or the UI asked to quit) or with the outcome.
    #[verifier::rlimit(40)]
    pub fn command_settled(&mut self, cancelled: bool, result: Result<CommandOutcome, String>) -> (r:
        CommandDriveOutcome)
        requires
            old(self).ready(),
        ensures
            final(self).ready(),
            cancelled ==> r is Cancelled && reached(
                *final(self),
                action_step(old(self).model(), ui_model_of(old(self).ui()), Action::CommandCancelled),
            ),
            !cancelled ==> match result {
                Ok(o) => {
                    let st = action_step(old(self).model(), ui_model_of(old(self).ui()), Action::CommandCompleted(o));
                    &&& reached(*final(self), st)
                    &&& (o.control == CommandControl::Quit || st.u.quit) ==> r is Quit
                    &&& !(o.control == CommandControl::Quit || st.u.quit) ==> (r is Completed
                        && crate::command::outcome_view(r->Completed_0) == crate::command::outcome_view(o))
                },
                Err(message) => {
                    &&& reached(
                        *final(self),
                        action_step(old(self).model(), ui_model_of(old(self).ui()), Action::CommandFailed(message)),
                    )
                    &&& r matches CommandDriveOutcome::Failed(m) && m@ == message@
                },
            },
    {
        if cancelled {
            self.command_cancelled();
            return CommandDriveOutcome::Cancelled;
        }
        match result {
            Ok(outcome) => {
                let quit = outcome.control == CommandControl::Quit;
                let copy = outcome.duplicate();
                self.apply_command_outcome(outcome);
                if quit || self.quit {
                    CommandDriveOutcome::Quit
                } else {
                    CommandDriveOutcome::Completed(copy)
                }
            },
            Err(message) => {
                let text = message.clone();
                self.command_failed(message.as_str());
                CommandDriveOutcome::Failed(text)
            },
        }
    }

    /// A terminal action while a command runs. Returns whether the command
    /// is to be cancelled: the UI asked to cancel it or to quit.
    pub fn command_drive_action(&mut self, action: Action) -> (cancel: bool)
        requires
            old(self).ready(),
            old(self).has_room(added_bytes(action)),
        ensures
            final(self).ready(),
            reached(*final(self), action_step(old(self).model(), ui_model_of(old(self).ui()), action)),
            cancel == asks_cancel(action_step(old(self).model(), ui_model_of(old(self).ui()), action).effects),
    {
        let effects = self.update(action);
        let ghost ev = effects_view(effects@);
        let mut cancel = false;
        let mut k: usize = 0;
        while k < effects.len()
            invariant
                0 <= k <= effects@.len(),
                ev == effects_view(effects@),
                cancel == exists|i: int| 0 <= i < k && (ev[i] is CancelCommand || ev[i] is Quit),
            decreases effects@.len() - k,
        {
            match &effects[k] {
                Effect::CancelCommand => {
                    cancel = true;
                },
                Effect::Quit => {
                    cancel = true;
                },
                _ => {},
            }
            assert(ev[k as int] == effect_view(effects@[k as int]));
            k = k + 1;
        }
        cancel
    }
}

} // verus!

verus! {

// ── Status line and panel decorations ───────────────────────────────────────

pub open spec fn activity_label(a: ActivityState) -> Seq<char> {
    match a {
        ActivityState::Idle => "Ready"@,
        ActivityState::AgentRunning => "Agent running"@,
        ActivityState::AgentCancelling => "Agent cancelling"@,
        ActivityState::CommandRunning => "Command running"@,
        ActivityState::CommandCancelling => "Command cancelling"@,
    }
}

pub open spec fn outcome_label(o: OutcomeView) -> Seq<char> {
    match o {
        OutcomeView::Completed => "Completed"@,
        OutcomeView::Aborted => "Aborted"@,
        OutcomeView::ProviderError(_) => "Provider error"@,
        OutcomeView::ToolError(_) => "Tool error"@,
    }
}

/// Name of the latest tool block still running.
pub open spec fn running_tool(t: Seq<BlockView>) -> Option<Seq<char>>
    decreases t.len(),
{
    if t.len() == 0 {
        None
    } else if t.last() matches BlockView::Tool { name, state, .. } && state == ToolRunState::Running {
        Some(t.last()->Tool_name)
    } else {
        running_tool(t.drop_last())
    }
}

pub open spec fn opt_part(o: Option<Seq<char>>) -> Seq<Seq<char>> {
    match o {
        Some(p) => seq![p],
        None => Seq::empty(),
    }
}

/// Where the view stands when not following the output.
pub open spec fn browsing_part(s: ScrollState) -> Option<Seq<char>> {
    if s.follow_output {
        None
    } else if s.unread_lines > 0 {
        Some(crate::text::decimal(s.unread_lines as nat) + " new lines · End latest"@)
    } else {
        Some("browsing history · End latest"@)
    }
}

pub open spec fn focus_hint(f: Focus) -> Seq<char> {
    match f {
        Focus::Input => "Input · Tab transcript · PageUp/Down scroll · Ctrl+C cancel"@,
        Focus::Transcript => "Transcript · Space expand · i input · End latest"@,
    }
}

/// The status text, shown unless it is empty, `Ready` or `Running`.
pub open spec fn status_part(status: Seq<char>) -> Option<Seq<char>> {
    if status.len() == 0 || status == "Ready"@ || status == "Running"@ {
        None
    } else {
        Some(status)
    }
}

/// The status bar: on a narrow terminal (under 40 columns) the activity
/// and one hint; otherwise provider/model, activity, last outcome, the
/// running tool, where the view stands, the focus hints, the status and
/// the error, joined by ` | `.
pub open spec fn status_line(m: ReducerModel, u: UiModel, width: u16) -> Seq<char> {
    let activity = activity_label(m.activity);
    if width < 40 {
        if m.activity != ActivityState::Idle {
            activity + " · Ctrl+C cancel"@
        } else {
            activity + " · Tab focus · Enter submit"@
        }
    } else {
        join(status_parts(m, u), " | "@)
    }
}

pub open spec fn outcome_part(m: ReducerModel) -> Option<Seq<char>> {
    match m.last_outcome {
        Some(o) => Some("last: "@ + outcome_label(o)),
        None => None,
    }
}

pub open spec fn tool_part(m: ReducerModel) -> Option<Seq<char>> {
    match running_tool(m.transcript) {
        Some(n) => Some("tool: "@ + n),
        None => None,
    }
}

pub open spec fn error_part(m: ReducerModel) -> Option<Seq<char>> {
    match m.error {
        Some(e) => Some("Error: "@ + e),
        None => None,
    }
}

/// The pieces of the wide status bar, in order.
pub open spec fn status_parts(m: ReducerModel, u: UiModel) -> Seq<Seq<char>> {
    seq![u.provider + "/"@ + u.model, activity_label(m.activity)] + opt_part(outcome_part(m)) + opt_part(
        tool_part(m),
    ) + opt_part(browsing_part(m.scroll)) + seq![focus_hint(u.focus)] + opt_part(status_part(m.status))
        + opt_part(error_part(m))
}

/// Red with an error, yellow while busy, green when ready.
pub open spec fn status_color_of(m: ReducerModel) -> LineColor {
    if m.error is Some {
        LineColor::Red
    } else if m.activity != ActivityState::Idle {
        LineColor::Yellow
    } else {
        LineColor::Green
    }
}

/// The transcript panel's title.
pub open spec fn transcript_title_of(s: ScrollState) -> Seq<char> {
    if s.follow_output {
        "Transcript"@
    } else if s.unread_lines > 0 {
        "Transcript · "@ + crate::text::decimal(s.unread_lines as nat) + " new lines · End to follow"@
    } else {
        "Transcript · browsing history"@
    }
}

/// The input panel's title.
pub open spec fn input_title_of(a: ActivityState) -> Seq<char> {
    if a != ActivityState::Idle {
        "Input · draft (Enter unavailable)"@
    } else {
        "Input · Enter submit · Ctrl+J newline"@
    }
}

/// First transcript row shown in a panel of `height` rows (borders
/// included) whose text is `total` lines: the bottom while following, else
/// `offset` lines above it; as a row number it is taken modulo 2^16.
pub open spec fn transcript_top_of(s: ScrollState, total: nat, height: u16) -> u16 {
    let visible = at_least_one(sub_sat(height as int, 2));
    let max_top = sub_sat(total as int, visible as int);
    let top = if s.follow_output {
        max_top
    } else {
        sub_sat(max_top as int, s.offset_from_bottom as int)
    };
    (top % 65536) as u16
}

/// First input line shown in a panel of `height` rows whose cursor is on
/// wrapped line `line`: the kept viewport, moved to show the cursor.
pub open spec fn input_top_of(viewport: usize, line: nat, height: u16) -> nat {
    let visible = at_least_one(sub_sat(height as int, 2));
    let a = if viewport < line {
        viewport as nat
    } else {
        line
    };
    let b = sub_sat(line as int, sub_sat(visible as int, 1) as int);
    if a > b {
        a
    } else {
        b
    }
}

fn opt_push(parts: &mut Vec<Vec<char>>, part: Option<Vec<char>>)
    ensures
        final(parts)@.map_values(|p: Vec<char>| p@) == old(parts)@.map_values(|p: Vec<char>| p@) + opt_part(
            match part {
                Some(p) => Some(p@),
                None => None,
            },
        ),
{
    let ghost before = parts@;
    match part {
        Some(p) => {
            parts.push(p);
            assert(parts@.map_values(|p: Vec<char>| p@) =~= before.map_values(|p: Vec<char>| p@) + opt_part(
                Some(parts@.last()@),
            ));
        },
        None => {
            assert(parts@.map_values(|p: Vec<char>| p@) =~= before.map_values(|p: Vec<char>| p@) + Seq::<
                Seq<char>,
            >::empty());
        },
    }
}

fn prefixed(prefix: &str, rest: &[char]) -> (v: Vec<char>)
    ensures
        v@ == prefix@ + rest@,
{
    let mut v: Vec<char> = Vec::new();
    append_str(&mut v, prefix);
    append(&mut v, rest);
    v
}

fn decimal_chars_of(n: usize) -> (v: Vec<char>)
    ensures
        v@ == crate::text::decimal(n as nat),
{
    let mut v: Vec<char> = Vec::new();
    crate::text::append_decimal(&mut v, n as u64);
    v
}

fn browsing_exec(s: ScrollState) -> (r: Option<Vec<char>>)
    ensures
        match r {
            Some(v) => browsing_part(s) == Some(v@),
            None => browsing_part(s) is None,
        },
{
    if s.follow_output {
        None
    } else if s.unread_lines > 0 {
        let mut v = decimal_chars_of(s.unread_lines);
        append_str(&mut v, " new lines · End latest");
        Some(v)
    } else {
        Some(chars_of("browsing history · End latest"))
    }
}

impl AppState {
    fn running_tool_name(&self) -> (r: Option<Vec<char>>)
        ensures
            match r {
                Some(v) => running_tool(self.model().transcript) == Some(v@),
                None => running_tool(self.model().transcript) is None,
            },
    {
        let ghost t = self.model().transcript;
        let mut i: usize = self.transcript.len();
        assert(t.take(i as int) =~= t);
        while i > 0
            invariant
                i <= self.transcript@.len(),
                t == self.model().transcript,
                running_tool(t) == running_tool(t.take(i as int)),
            decreases i,
        {
            assert(t.take(i as int).drop_last() =~= t.take(i - 1));
            assert(t.take(i as int).last() == block_view(self.transcript@[i - 1]));
            match &self.transcript[i - 1] {
                TranscriptBlock::Tool { name, state, .. } => {
                    if *state == ToolRunState::Running {
                        return Some(chars_of(name.as_str()));
                    }
                },
                _ => {},
            }
            i = i - 1;
        }
        assert(t.take(0) =~= Seq::<BlockView>::empty());
        None
    }

    fn activity_text(&self) -> (r: &'static str)
        ensures
            r@ == activity_label(self.model().activity),
    {
        match self.activity {
            ActivityState::Idle => "Ready",
            ActivityState::AgentRunning => "Agent running",
            ActivityState::AgentCancelling => "Agent cancelling",
            ActivityState::CommandRunning => "Command running",
            ActivityState::CommandCancelling => "Command cancelling",
        }
    }

    fn outcome_text(&self) -> (r: Option<Vec<char>>)
        ensures
            match r {
                Some(v) => outcome_part(self.model()) == Some(v@),
                None => outcome_part(self.model()) is None,
            },
    {
        let label: &str = match &self.last_outcome {
            Some(RunOutcome::Completed) => "Completed",
            Some(RunOutcome::Aborted) => "Aborted",
            Some(RunOutcome::ProviderError(_)) => "Provider error",
            Some(RunOutcome::ToolError(_)) => "Tool error",
            None => {
                return None;
            },
        };
        Some(prefixed("last: ", chars_of(label).as_slice()))
    }

    fn error_text(&self) -> (r: Option<Vec<char>>)
        ensures
            match r {
                Some(v) => error_part(self.model()) == Some(v@),
                None => error_part(self.model()) is None,
            },
    {
        match &self.error {
            Some(e) => Some(prefixed("Error: ", chars_of(e.as_str()).as_slice())),
            None => None,
        }
    }

    fn status_shown(&self) -> (r: Option<Vec<char>>)
        ensures
            match r {
                Some(v) => status_part(self.model().status) == Some(v@),
                None => status_part(self.model().status) is None,
            },
    {
        let st = chars_of(self.status.as_str());
        if st.len() > 0 && !crate::text::chars_eq_str(st.as_slice(), "Ready") && !crate::text::chars_eq_str(
            st.as_slice(),
            "Running",
        ) {
            Some(st)
        } else {
            None
        }
    }

    fn status_part_list(&self) -> (parts: Vec<Vec<char>>)
        ensures
            parts@.map_values(|p: Vec<char>| p@) == status_parts(self.model(), ui_model_of(self.ui())),
    {
        let ghost m = self.model();
        let ghost u = ui_model_of(self.ui());
        let mut parts: Vec<Vec<char>> = Vec::new();
        let mut head = chars_of(self.provider.as_str());
        append_str(&mut head, "/");
        append_str(&mut head, self.model.as_str());
        parts.push(head);
        parts.push(chars_of(self.activity_text()));
        assert(parts@.map_values(|p: Vec<char>| p@) =~= seq![u.provider + "/"@ + u.model, activity_label(m.activity)]);
        opt_push(&mut parts, self.outcome_text());
        let tool: Option<Vec<char>> = match self.running_tool_name() {
            Some(n) => Some(prefixed("tool: ", n.as_slice())),
            None => None,
        };
        opt_push(&mut parts, tool);
        opt_push(&mut parts, browsing_exec(self.scroll));
        let ghost before = parts@;
        let hint = match self.focus {
            Focus::Input => chars_of("Input · Tab transcript · PageUp/Down scroll · Ctrl+C cancel"),
            Focus::Transcript => chars_of("Transcript · Space expand · i input · End latest"),
        };
        parts.push(hint);
        assert(parts@.map_values(|p: Vec<char>| p@) =~= before.map_values(|p: Vec<char>| p@) + seq![
            focus_hint(u.focus),
        ]);
        opt_push(&mut parts, self.status_shown());
        opt_push(&mut parts, self.error_text());
        assert(parts@.map_values(|p: Vec<char>| p@) =~= status_parts(m, u));
        parts
    }

    /// The status bar's text for a terminal `width` columns wide.
    pub fn status_text(&self, width: u16) -> (s: String)
        ensures
            s@ == status_line(self.model(), ui_model_of(self.ui()), width),
    {
        let activity = self.activity_text();
        if width < 40 {
            let mut v = chars_of(activity);
            if self.activity != ActivityState::Idle {
                append_str(&mut v, " · Ctrl+C cancel");
            } else {
                append_str(&mut v, " · Tab focus · Enter submit");
            }
            return string_from_chars(v.as_slice());
        }
        let parts = self.status_part_list();
        let joined = crate::text::join_exec(parts.as_slice(), chars_of(" | ").as_slice());
        string_from_chars(joined.as_slice())
    }

    /// The status bar's colour.
    pub fn status_color(&self) -> (c: LineColor)
        ensures
            c == status_color_of(self.model()),
    {
        if self.error.is_some() {
            LineColor::Red
        } else if self.activity != ActivityState::Idle {
            LineColor::Yellow
        } else {
            LineColor::Green
        }
    }

    /// The transcript panel's title.
    pub fn transcript_title(&self) -> (s: String)
        ensures
            s@ == transcript_title_of(self.model().scroll),
    {
        if self.scroll.follow_output {
            crate::text::to_string("Transcript")
        } else if self.scroll.unread_lines > 0 {
            let mut v = chars_of("Transcript · ");
            append(&mut v, decimal_chars_of(self.scroll.unread_lines).as_slice());
            append_str(&mut v, " new lines · End to follow");
            string_from_chars(v.as_slice())
        } else {
            crate::text::to_string("Transcript · browsing history")
        }
    }

    /// The input panel's title.
    pub fn input_title(&self) -> (s: String)
        ensures
            s@ == input_title_of(self.model().activity),
    {
        if self.activity != ActivityState::Idle {
            crate::text::to_string("Input · draft (Enter unavailable)")
        } else {
            crate::text::to_string("Input · Enter submit · Ctrl+J newline")
        }
    }

    /// First row of the transcript shown in a panel `width` by `height`
    /// (borders included).
    pub fn transcript_top(&self, width: u16, height: u16) -> (top: u16)
        ensures
            top == transcript_top_of(
                self.model().scroll,
                capped(
                    sum_line_wraps(
                        transcript_lines(self.model().transcript, self.model().selection.selected_block),
                        at_least_one(sub_sat(width as int, 2)),
                    ),
                ),
                height,
            ),
    {
        let lines = self.render_lines();
        let w = width.saturating_sub(2);
        let w: usize = if w == 0 {
            1
        } else {
            w as usize
        };
        let ghost lv = render_view(lines@);
        let mut total: usize = 0;
        let mut i: usize = 0;
        while i < lines.len()
            invariant
                0 <= i <= lines@.len(),
                lv == render_view(lines@),
                total == capped(sum_line_wraps(lv.take(i as int), w as nat)),
            decreases lines@.len() - i,
        {
            let n = wrapped_line_count(lines[i].text.as_str(), w);
            assert(lv.take(i + 1).drop_last() =~= lv.take(i as int));
            assert(lv.take(i + 1).last().0 == lines@[i as int].text@);
            total = total.saturating_add(n);
            i = i + 1;
        }
        assert(lv.take(i as int) =~= lv);
        let v = height.saturating_sub(2);
        let visible: usize = if v == 0 {
            1
        } else {
            v as usize
        };
        let max_top = total.saturating_sub(visible);
        let top = if self.scroll.follow_output {
            max_top
        } else {
            max_top.saturating_sub(self.scroll.offset_from_bottom)
        };
        (top % 65536) as u16
    }

    /// First input line shown in a panel `width` by `height` (borders
    /// included), and the cursor's wrapped line and column.
    pub fn input_layout(&self, width: u16, height: u16) -> (r: (usize, usize, usize))
        requires
            self.ui().input.wf(),
        ensures
            ({
                let w = at_least_one(sub_sat(width as int, 2));
                let p = crate::tui::visual_position(
                    self.ui().input.text@.take(self.ui().input.cursor()),
                    w,
                );
                &&& r.1 == p.0
                &&& r.2 == p.1
                &&& r.0 == input_top_of(self.ui().input.viewport_line, p.0, height)
            }),
    {
        let w = width.saturating_sub(2);
        let w: usize = if w == 0 {
            1
        } else {
            w as usize
        };
        let (line, column) = self.input.cursor_visual_position(w);
        let v = height.saturating_sub(2);
        let visible: usize = if v == 0 {
            1
        } else {
            v as usize
        };
        let a = if self.input.viewport_line < line {
            self.input.viewport_line
        } else {
            line
        };
        let b = line.saturating_sub(visible - 1);
        let top = if a > b {
            a
        } else {
            b
        };
        (top, line, column)
    }
}

} // verus!

verus! {

// ── Laws of the UI state ────────────────────────────────────────────────────

/// An event of a run other than the current one changes nothing; only the
/// start of a run is always taken.
pub proof fn lemma_stale_events_change_nothing(m: ReducerModel, e: AgentEvent)
    requires
        !(e is RunStarted),
        m.current_run != Some(crate::print::event_run(e)),
    ensures
        event_step(m, e) == m,
{
}

proof fn lemma_limit_blocks_bounded(m: ReducerModel)
    ensures
        limit_blocks(m).transcript.len() <= MAX_TRANSCRIPT_BLOCKS,
        m.transcript.len() <= MAX_TRANSCRIPT_BLOCKS ==> limit_blocks(m) == m,
{
}

/// Agent events keep the transcript within its block limit. The one
/// exception is a tool that finishes without having been announced: its
/// block is added without trimming.
pub proof fn lemma_events_keep_block_limit(m: ReducerModel, e: AgentEvent)
    requires
        m.transcript.len() <= MAX_TRANSCRIPT_BLOCKS,
        !(e matches AgentEvent::ToolFinished { run_id, tool_call_id, .. } && accepts_run(m, run_id) && index_slot(
            m.tool_index,
            tool_call_id@,
        ) is None),
    ensures
        event_step(m, e).transcript.len() <= MAX_TRANSCRIPT_BLOCKS,
{
    match e {
        AgentEvent::TextDelta { run_id, text } => {
            lemma_limit_blocks_bounded(
                with_lines(ReducerModel { transcript: with_assistant_text(m.transcript, text@), ..m }, line_count(text@)),
            );
        },
        AgentEvent::ThinkingDelta { run_id, text } => {
            lemma_limit_blocks_bounded(
                with_lines(
                    ReducerModel {
                        transcript: with_thinking_text(m.transcript, text@),
                        status: thinking_status(text@),
                        ..m
                    },
                    line_count(text@),
                ),
            );
        },
        AgentEvent::ToolStarted { run_id, tool_call_id, name, arguments } => {
            lemma_limit_blocks_bounded(
                with_lines(
                    ReducerModel {
                        tool_index: index_set(m.tool_index, tool_call_id@, m.transcript.len() as usize),
                        started: started_with(m.started, tool_call_id@),
                        transcript: m.transcript.push(new_tool_view(tool_call_id@, name@, arguments@)),
                        status: "Running "@ + name@,
                        ..m
                    },
                    1,
                ),
            );
        },
        AgentEvent::ToolOutput { run_id, tool_call_id, stream, chunk } => {
            if accepts_run(m, run_id) {
                let id = tool_call_id@;
                let m1 = match index_slot(m.tool_index, id) {
                    Some(i) => m,
                    None => ReducerModel {
                        tool_index: index_set(m.tool_index, id, m.transcript.len() as usize),
                        transcript: m.transcript.push(new_tool_view(id, "unknown"@, "null"@)),
                        ..m
                    },
                };
                let pos: int = match index_slot(m.tool_index, id) {
                    Some(i) => m.tool_index[i].1 as int,
                    None => m.transcript.len() as int,
                };
                let t = if 0 <= pos < m1.transcript.len() {
                    update_tool_at(m1.transcript, pos, with_output(m1.transcript[pos], stream, chunk@))
                } else {
                    m1.transcript
                };
                lemma_limit_blocks_bounded(ReducerModel { transcript: t, ..m1 });
            }
        },
        AgentEvent::ProviderError { run_id, error } => {
            let message = sanitized(error.message@);
            lemma_limit_blocks_bounded(
                with_lines(
                    ReducerModel { error: Some(message), transcript: m.transcript.push(BlockView::Error { message }), ..m },
                    2,
                ),
            );
        },
        _ => {},
    }
}

/// Toggling the same selection twice gives the transcript back.
pub proof fn lemma_toggle_twice_restores(t: Seq<BlockView>, selected: Option<usize>)
    ensures
        toggled_at(toggled_at(t, selected), selected) == t,
{
    if let Some(i) = selected {
        if i < t.len() && (t[i as int] is Tool || t[i as int] is Thinking) {
            assert(toggled(toggled(t[i as int])) == t[i as int]);
            assert(toggled_at(toggled_at(t, selected), selected) =~= t);
        }
    }
}

/// Output and completion never change whether a tool block is expanded.
pub proof fn lemma_tool_updates_keep_expansion(
    b: BlockView,
    stream: ToolOutputStream,
    chunk: Seq<char>,
    name: Seq<char>,
    result: AgentToolResult,
    timed: bool,
)
    requires
        b is Tool,
    ensures
        with_output(b, stream, chunk) is Tool,
        with_output(b, stream, chunk)->Tool_expanded == b->Tool_expanded,
        finished_block(b, name, result, timed) is Tool,
        finished_block(b, name, result, timed)->Tool_expanded == b->Tool_expanded,
{
}

/// Consecutive assistant deltas of the current run extend one block.
pub proof fn lemma_assistant_deltas_merge(m: ReducerModel, run_id: RunId, a: String, b: String)
    requires
        m.transcript.len() <= MAX_TRANSCRIPT_BLOCKS,
        accepts_run(m, run_id),
        a@.len() > 0,
        b@.len() > 0,
    ensures
        ({
            let m1 = event_step(m, AgentEvent::TextDelta { run_id, text: a });
            let m2 = event_step(m1, AgentEvent::TextDelta { run_id, text: b });
            &&& m1.transcript.len() > 0
            &&& m1.transcript.last() is Assistant
            &&& m2.transcript.len() == m1.transcript.len()
            &&& m2.transcript.last() == (BlockView::Assistant {
                text: m1.transcript.last()->Assistant_text + b@,
                streaming: true,
            })
        }),
{
    let e1 = AgentEvent::TextDelta { run_id, text: a };
    lemma_events_keep_block_limit(m, e1);
    let m1 = event_step(m, e1);
    let x = with_lines(ReducerModel { transcript: with_assistant_text(m.transcript, a@), ..m }, line_count(a@));
    lemma_limit_blocks_bounded(x);
    if x.transcript.len() > MAX_TRANSCRIPT_BLOCKS {
        let remove = (x.transcript.len() - MAX_TRANSCRIPT_BLOCKS) as int;
        assert(m1.transcript == x.transcript.skip(remove));
        assert(m1.transcript.last() == x.transcript.last());
    }
    let y = with_lines(ReducerModel { transcript: with_assistant_text(m1.transcript, b@), ..m1 }, line_count(b@));
    lemma_limit_blocks_bounded(y);
}

/// The editor after typing a character and deleting the one before the
/// cursor is as it was, but for the remembered column.
pub proof fn lemma_backspace_undoes_insert(v: InputView, c: char)
    requires
        0 <= v.cursor <= v.text.len(),
    ensures
        crate::tui::iv_backspace(crate::tui::iv_insert_char(v, c)) == (InputView { preferred: None, ..v }),
{
    let w = crate::tui::iv_insert_char(v, c);
    assert(crate::tui::cut(w.text, v.cursor, v.cursor + 1) =~= v.text);
}

/// Enter while the agent or a command is busy leaves the draft, the
/// history and the transcript alone and dispatches nothing.
pub proof fn lemma_busy_enter_keeps_draft(m: ReducerModel, u: UiModel)
    requires
        m.activity != ActivityState::Idle,
        u.focus == Focus::Input,
    ensures
        ({
            let st = key_step(m, u, KeyPress { code: KeyCode::Enter, control: false, shift: false, alt: false });
            &&& st.u == u
            &&& st.effects.len() == 0
            &&& st.m.transcript == m.transcript
        }),
{
}

/// A blank draft is never submitted: nothing is dispatched and neither
/// the history nor the transcript changes.
pub proof fn lemma_blank_input_is_not_submitted(m: ReducerModel, u: UiModel)
    requires
        crate::text::trim(u.input.text).len() == 0,
    ensures
        submit_step(m, u).u.history == u.history,
        submit_step(m, u).effects.len() == 0,
        submit_step(m, u).m.transcript == m.transcript,
{
}

/// Submitting never writes the transcript: the text is handed out as it
/// was typed, line feeds included, for the router to decide.
pub proof fn lemma_submit_leaves_transcript(m: ReducerModel, u: UiModel)
    requires
        m.activity == ActivityState::Idle,
        crate::text::trim(u.input.text).len() > 0,
    ensures
        submit_step(m, u).m.transcript == m.transcript,
        submit_step(m, u).effects == seq![EffectView::SubmitInput(u.input.text)],
        submit_step(m, u).u.input.text.len() == 0,
{
}

/// A second cancellation notice for the same command changes nothing.
pub proof fn lemma_command_cancelled_once(m: ReducerModel, u: UiModel)
    ensures
        ({
            let s1 = action_step(m, u, Action::CommandCancelled);
            action_step(s1.m, s1.u, Action::CommandCancelled) == quiet(s1.m, s1.u)
        }),
{
    let s1 = action_step(m, u, Action::CommandCancelled);
    if m.activity == ActivityState::CommandRunning || m.activity == ActivityState::CommandCancelling {
        assert(s1.m.activity == ActivityState::Idle);
    } else {
        assert(s1 == quiet(m, u));
    }
}

/// Ctrl+C cancels what runs: the agent, or a command, never both.
pub proof fn lemma_ctrl_c_targets_running_work(m: ReducerModel, u: UiModel)
    ensures
        m.activity == ActivityState::AgentRunning ==> ctrl_c_step(m, u).effects == seq![EffectView::CancelAgent],
        m.activity == ActivityState::CommandRunning ==> ctrl_c_step(m, u).effects
            == seq![EffectView::CancelCommand],
        m.activity != ActivityState::AgentRunning && m.activity != ActivityState::CommandRunning
            ==> ctrl_c_step(m, u).effects.len() == 0,
{
}

/// Scrolling keeps the offset within what the transcript can show, and
/// returning to the end resumes following with nothing unread.
pub proof fn lemma_scroll_stays_in_range(m: ReducerModel, u: UiModel, amount: usize, towards_start: bool)
    ensures
        scroll_step(m, u, amount, towards_start).scroll.offset_from_bottom <= max_offset(m, u),
        at_start(m, u).scroll.offset_from_bottom == max_offset(m, u),
        at_end(m).scroll.follow_output,
        at_end(m).scroll.unread_lines == 0,
{
}

} // verus!
