//! Session summaries and the text formatting of tool progress lines.

use vstd::prelude::*;

use sparcli::{Alert, Badge, KeyValue, Renderable, Table};

use crate::text::{
    append, append_decimal, append_str, chars_of, decimal, string_from_chars, to_string, trim, trim_chars,
};

verus! {

/// Summary of session state for display purposes.
#[derive(Debug, Clone, PartialEq, Eq)]
pub struct SessionInfo {
    pub id: String,
    pub model: String,
    pub msg_count: usize,
    pub cwd: String,
}

/// Summary of a stored session for listing purposes.
#[derive(Debug, Clone, PartialEq, Eq)]
pub struct SessionSummary {
    pub id: String,
    pub model: String,
    pub msg_count: usize,
    pub created: String,
}

/// Formatter for user-visible progress lines. Every method returns a
/// `String`; callers decide where it is written.
#[derive(Debug, Clone, Copy, PartialEq, Eq, Structural)]
pub struct OutputFormatter;

/// `─── name: S.Ds ───` and a newline, where `S` is whole seconds and `D`
/// tenths of a second (rounded down).
pub open spec fn tool_end_line(name: Seq<char>, duration_ms: nat) -> Seq<char> {
    "─── "@ + name + ": "@ + decimal(duration_ms / 1000) + "."@ + decimal(
        (duration_ms % 1000) / 100,
    ) + "s ───\n"@
}

impl OutputFormatter {
    pub fn new() -> (f: Self)
        ensures
            f == OutputFormatter,
    {
        OutputFormatter
    }

    /// Format a tool end line (tool name, separator and duration).
    pub fn tool_end(&self, name: &str, duration_ms: u64) -> (s: String)
        ensures
            s@ == tool_end_line(name@, duration_ms as nat),
    {
        let mut out: Vec<char> = Vec::new();
        append_str(&mut out, "─── ");
        let n = chars_of(name);
        append(&mut out, n.as_slice());
        append_str(&mut out, ": ");
        append_decimal(&mut out, duration_ms / 1000);
        append_str(&mut out, ".");
        append_decimal(&mut out, (duration_ms % 1000) / 100);
        append_str(&mut out, "s ───\n");
        string_from_chars(out.as_slice())
    }
}

/// `Badge::new(label)` of `sparcli`, laid out by `Renderable::render` at
/// width 80 and read back with `Rendered::plain`. The badge's source makes
/// this one line, the label between square brackets; the styling is not
/// part of the plain text.
#[verifier::external_body]
fn badge_plain(label: &str) -> (s: String)
    ensures
        s@ == "["@ + label@ + "]"@,
{
    Badge::new(label).render(80).plain()
}

/// `rusty-pi | [provider] | [model] | session`.
pub open spec fn banner_line(provider: Seq<char>, model: Seq<char>, session_id: Seq<char>) -> Seq<
    char,
> {
    "rusty-pi | "@ + trim("["@ + provider + "]"@) + " | "@ + trim("["@ + model + "]"@) + " | "@
        + session_id
}

impl OutputFormatter {
    /// The startup banner: provider and model as badges, then the session.
    pub fn banner(&self, provider: &str, model: &str, session_id: &str) -> (s: String)
        ensures
            s@ == banner_line(provider@, model@, session_id@),
    {
        let p = badge_plain(provider);
        let m = badge_plain(model);
        let mut out: Vec<char> = Vec::new();
        append_str(&mut out, "rusty-pi | ");
        append(&mut out, trim_chars(chars_of(p.as_str()).as_slice()).as_slice());
        append_str(&mut out, " | ");
        append(&mut out, trim_chars(chars_of(m.as_str()).as_slice()).as_slice());
        append_str(&mut out, " | ");
        append_str(&mut out, session_id);
        string_from_chars(out.as_slice())
    }
}

impl Default for OutputFormatter {
    fn default() -> (f: Self)
        ensures
            f == OutputFormatter,
    {
        OutputFormatter::new()
    }
}

// ── Rendered blocks ─────────────────────────────────────────────────────────
//
// `Renderable::print_to` lays a widget out for the width of standard output
// (unconstrained when it is not a terminal) and colours it as the
// environment allows (`NO_COLOR`, `CLICOLOR_FORCE`, a terminal or not), so
// what these calls give is not a function of their arguments. What holds
// of every outcome: `write_rendered` writes each laid-out line followed by
// `\n`, as UTF-8 text and ANSI codes, so when the widget lays out at least
// one line the text is not empty and ends with a line feed. Which widgets
// always have a line is said on each wrapper. What is handed to the calls
// is fixed by the verified functions below. Writing into a `Vec<u8>` does
// not fail, so the write's result is not looked at; the bytes are read
// back with `String::from_utf8_lossy`, which keeps valid UTF-8 as it is.

/// Whether text is a laid-out block: not empty, ending with a line feed.
pub open spec fn block_text(s: Seq<char>) -> bool {
    s.len() > 0 && s.last() == '\n'
}

/// `KeyValue::new()` with each `(key, value)` pair added in order, written
/// with `Renderable::print_to`. Each pair lays out at least one line (a
/// value's text is split on line feeds, which gives at least one piece).
#[verifier::external_body]
fn key_value_text(pairs: &Vec<(String, String)>) -> (s: String)
    ensures
        pairs@.len() > 0 ==> block_text(s@),
{
    let list = pairs.iter().fold(KeyValue::new(), |list, pair| list.add(pair.0.as_str(), pair.1.as_str()));
    let mut buf = Vec::new();
    let _ = list.print_to(&mut buf);
    String::from_utf8_lossy(&buf).into_owned()
}

/// `Table::new()` with the given columns and rows, `striped` as given,
/// written with `Renderable::print_to`. With columns, every row lays out at
/// least one line (an empty cell gets an empty line).
#[verifier::external_body]
fn table_text(columns: &Vec<String>, rows: &Vec<Vec<String>>, striped: bool) -> (s: String)
    ensures
        columns@.len() > 0 && rows@.len() > 0 ==> block_text(s@),
{
    let table = rows.iter().fold(
        Table::new().columns(columns.iter().map(|c| c.as_str())),
        |table, row| table.row(row.iter().map(|c| c.as_str())),
    );
    let mut buf = Vec::new();
    let _ = table.striped(striped).print_to(&mut buf);
    String::from_utf8_lossy(&buf).into_owned()
}

/// `Badge::new(label)` written with `Renderable::print_to`: a badge is one
/// line.
#[verifier::external_body]
fn badge_text(label: &str) -> (s: String)
    ensures
        block_text(s@),
{
    let mut buf = Vec::new();
    let _ = Badge::new(label).print_to(&mut buf);
    String::from_utf8_lossy(&buf).into_owned()
}

/// `Alert::error(message)` written with `Renderable::print_to`: the icon
/// line is always there.
#[verifier::external_body]
fn alert_error_text(message: &str) -> (s: String)
    ensures
        block_text(s@),
{
    let mut buf = Vec::new();
    let _ = Alert::error(message).print_to(&mut buf);
    String::from_utf8_lossy(&buf).into_owned()
}

/// `Alert::warning(message)` written with `Renderable::print_to`: the icon
/// line is always there.
#[verifier::external_body]
fn alert_warning_text(message: &str) -> (s: String)
    ensures
        block_text(s@),
{
    let mut buf = Vec::new();
    let _ = Alert::warning(message).print_to(&mut buf);
    String::from_utf8_lossy(&buf).into_owned()
}

pub open spec fn pairs_view(v: Seq<(String, String)>) -> Seq<(Seq<char>, Seq<char>)> {
    v.map_values(|p: (String, String)| (p.0@, p.1@))
}

pub open spec fn rows_view(v: Seq<Vec<String>>) -> Seq<Seq<Seq<char>>> {
    v.map_values(|r: Vec<String>| r@.map_values(|c: String| c@))
}

/// The session summary's rows: id, model, message count and directory.
pub open spec fn info_rows(info: SessionInfo) -> Seq<(Seq<char>, Seq<char>)> {
    seq![
        ("Session"@, info.id@),
        ("Model"@, info.model@),
        ("Messages"@, decimal(info.msg_count as nat)),
        ("CWD"@, info.cwd@),
    ]
}

/// The session table's headers.
pub open spec fn list_columns() -> Seq<Seq<char>> {
    seq!["Session"@, "Model"@, "Messages"@, "Created"@]
}

/// One table row per session: id, model, message count, creation time.
pub open spec fn list_rows(sessions: Seq<SessionSummary>) -> Seq<Seq<Seq<char>>> {
    sessions.map_values(|s: SessionSummary| seq![s.id@, s.model@, decimal(s.msg_count as nat), s.created@])
}

fn decimal_string(n: usize) -> (s: String)
    ensures
        s@ == decimal(n as nat),
{
    let mut out: Vec<char> = Vec::new();
    append_decimal(&mut out, n as u64);
    string_from_chars(out.as_slice())
}

/// The rows of [`OutputFormatter::session_info`].
pub fn session_info_rows(info: &SessionInfo) -> (r: Vec<(String, String)>)
    ensures
        pairs_view(r@) == info_rows(*info),
{
    proof {
        reveal_strlit("Session");
        reveal_strlit("Model");
        reveal_strlit("Messages");
        reveal_strlit("CWD");
    }
    let r = vec![
        (to_string("Session"), info.id.clone()),
        (to_string("Model"), info.model.clone()),
        (to_string("Messages"), decimal_string(info.msg_count)),
        (to_string("CWD"), info.cwd.clone()),
    ];
    assert(pairs_view(r@) =~= info_rows(*info));
    r
}

/// The rows of [`OutputFormatter::session_list`].
pub fn session_list_rows(sessions: &[SessionSummary]) -> (r: Vec<Vec<String>>)
    ensures
        rows_view(r@) == list_rows(sessions@),
{
    let mut r: Vec<Vec<String>> = Vec::new();
    let mut i: usize = 0;
    while i < sessions.len()
        invariant
            0 <= i <= sessions@.len(),
            r@.len() == i,
            forall|k: int| 0 <= k < i ==> #[trigger] rows_view(r@)[k] == list_rows(sessions@)[k],
        decreases sessions@.len() - i,
    {
        let s = &sessions[i];
        let row = vec![s.id.clone(), s.model.clone(), decimal_string(s.msg_count), s.created.clone()];
        assert(row@.map_values(|c: String| c@) =~= list_rows(sessions@)[i as int]);
        let ghost before = r@;
        r.push(row);
        assert forall|k: int| 0 <= k < i + 1 implies #[trigger] rows_view(r@)[k] == list_rows(sessions@)[k] by {
            if k < i {
                assert(r@[k] == before[k]);
                assert(rows_view(before)[k] == list_rows(sessions@)[k]);
            }
        }
        i = i + 1;
    }
    assert(rows_view(r@) =~= list_rows(sessions@));
    r
}

/// `[tool] error`, the text of a tool error alert.
pub open spec fn tool_error_text(tool: Seq<char>, error: Seq<char>) -> Seq<char> {
    "["@ + tool + "] "@ + error
}

pub fn tool_error_message(tool: &str, error: &str) -> (s: String)
    ensures
        s@ == tool_error_text(tool@, error@),
{
    let mut out: Vec<char> = Vec::new();
    append_str(&mut out, "[");
    append_str(&mut out, tool);
    append_str(&mut out, "] ");
    append_str(&mut out, error);
    string_from_chars(out.as_slice())
}

impl OutputFormatter {
    /// The session summary as a key-value list (see
    /// [`session_info_rows`]).
    pub fn session_info(&self, info: &SessionInfo) -> (s: String)
        ensures
            block_text(s@),
    {
        let rows = session_info_rows(info);
        assert(pairs_view(rows@).len() == rows@.len());
        key_value_text(&rows)
    }

    /// The stored sessions as a striped table (see [`session_list_rows`]),
    /// or `No sessions found.` when there are none.
    pub fn session_list(&self, sessions: &[SessionSummary]) -> (s: String)
        ensures
            sessions@.len() == 0 ==> s@ == "No sessions found."@,
            sessions@.len() > 0 ==> block_text(s@),
    {
        if sessions.len() == 0 {
            return to_string("No sessions found.");
        }
        let columns = vec![to_string("Session"), to_string("Model"), to_string("Messages"), to_string("Created")];
        let rows = session_list_rows(sessions);
        assert(rows_view(rows@).len() == rows@.len());
        table_text(&columns, &rows, true)
    }

    /// A tool start line: the tool's badge, a space and its arguments.
    pub fn tool_start(&self, name: &str, args: &str) -> (s: String)
        ensures
            s@.len() > 0,
            crate::text::ends_with(s@, " "@ + args@),
    {
        let badge = badge_text(name);
        let mut out = chars_of(badge.as_str());
        append_str(&mut out, " ");
        append_str(&mut out, args);
        proof {
            reveal_strlit(" ");
            let t = " "@ + args@;
            assert(out@ =~= badge@ + t);
            assert(out@.subrange(out@.len() - t.len(), out@.len() as int) =~= t);
        }
        string_from_chars(out.as_slice())
    }

    /// A tool error as an error alert around `[tool] error`.
    pub fn tool_error(&self, tool: &str, error: &str) -> (s: String)
        ensures
            block_text(s@),
    {
        let message = tool_error_message(tool, error);
        alert_error_text(message.as_str())
    }

    /// The warning shown when the user aborts a run.
    pub fn interrupt(&self) -> (s: String)
        ensures
            block_text(s@),
    {
        alert_warning_text("Aborted by user")
    }

    /// An error message as an error alert.
    pub fn error(&self, msg: &str) -> (s: String)
        ensures
            block_text(s@),
    {
        alert_error_text(msg)
    }
}

} // verus!
