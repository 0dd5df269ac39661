//! The bash tool's parameters, the working-directory marker that a
//! command's output ends with, and the tool result made of a finished run.

use vstd::prelude::*;

use crate::print::{append_signed, signed_decimal, AgentToolResult, Content};
use crate::truncate::{tail_truncation, truncate_tail, TruncationResult, DEFAULT_MAX_BYTES, DEFAULT_MAX_LINES};
use crate::text::{
    append, append_decimal, decimal, append_str, chars_of, join, join_exec, lines, lines_exec, starts_with, starts_with_exec,
    string_from_chars, sub_chars, trim, trim_chars,
};

verus! {

/// Parameters for the bash tool.
#[derive(Debug, Clone, PartialEq, Eq)]
pub struct BashParams {
    /// Bash command to execute.
    pub command: String,
    /// Timeout in seconds (optional, no default timeout).
    pub timeout: Option<u64>,
    /// Maximum output lines before truncation (default: 2000).
    pub max_lines: Option<usize>,
    /// Maximum output bytes before truncation (default: 50 KB).
    pub max_bytes: Option<usize>,
}

/// The prefix of the line a command prints with its final directory.
pub open spec fn marker_prefix() -> Seq<char> {
    "__RUSTY_PI_PWD__:"@
}

/// The command that runs `command` and then reports the directory it
/// ended in.
pub open spec fn command_with_marker(command: Seq<char>) -> Seq<char> {
    command + "; echo __RUSTY_PI_PWD__:$(pwd)"@
}

pub fn marked_command(command: &str) -> (r: String)
    ensures
        r@ == command_with_marker(command@),
{
    let mut out = chars_of(command);
    append_str(&mut out, "; echo __RUSTY_PI_PWD__:$(pwd)");
    string_from_chars(out.as_slice())
}

pub open spec fn is_marker_line(l: Seq<char>) -> bool {
    starts_with(trim(l), marker_prefix())
}

/// Index of the last marker line.
pub open spec fn last_marker(ls: Seq<Seq<char>>) -> Option<int>
    decreases ls.len(),
{
    if ls.len() == 0 {
        None
    } else if is_marker_line(ls.last()) {
        Some(ls.len() - 1)
    } else {
        last_marker(ls.drop_last())
    }
}

/// The output without the last marker line, and the directory that line
/// reports (when it reports a non-empty one).
pub open spec fn split_marker(output: Seq<char>) -> (Seq<char>, Option<Seq<char>>) {
    let ls = lines(output);
    match last_marker(ls) {
        None => (join(ls, seq!['\n']), None),
        Some(p) => {
            let dir = trim(trim(ls[p]).skip(marker_prefix().len() as int));
            (
                join(ls.remove(p), seq!['\n']),
                if dir.len() > 0 {
                    Some(dir)
                } else {
                    None
                },
            )
        },
    }
}

proof fn lemma_last_marker_bound(ls: Seq<Seq<char>>)
    ensures
        last_marker(ls) matches Some(p) ==> 0 <= p < ls.len() && is_marker_line(ls[p]),
    decreases ls.len(),
{
    if ls.len() > 0 && !is_marker_line(ls.last()) {
        lemma_last_marker_bound(ls.drop_last());
    }
}

fn last_marker_exec(ls: &Vec<Vec<char>>, prefix: &[char], Ghost(lv): Ghost<Seq<Seq<char>>>) -> (r:
    Option<usize>)
    requires
        ls@.len() == lv.len(),
        forall|k: int| 0 <= k < ls@.len() ==> (#[trigger] ls@[k])@ == lv[k],
        prefix@ == marker_prefix(),
    ensures
        match last_marker(lv) {
            Some(p) => r matches Some(x) && x as int == p,
            None => r is None,
        },
{
    let mut i: usize = ls.len();
    assert(lv.take(i as int) =~= lv);
    while i > 0
        invariant
            i <= ls@.len() == lv.len(),
            forall|k: int| 0 <= k < ls@.len() ==> (#[trigger] ls@[k])@ == lv[k],
            prefix@ == marker_prefix(),
            last_marker(lv) == last_marker(lv.take(i as int)),
        decreases i,
    {
        let t = trim_chars(ls[i - 1].as_slice());
        assert(lv.take(i as int).drop_last() =~= lv.take(i - 1));
        if starts_with_exec(t.as_slice(), prefix) {
            return Some(i - 1);
        }
        i = i - 1;
    }
    None
}

/// Find the last marker line of a command's output: the output without it,
/// and the directory it reports.
#[verifier::spinoff_prover]
pub fn extract_cwd_marker(output: &str) -> (r: (String, Option<String>))
    ensures
        r.0@ == split_marker(output@).0,
        match split_marker(output@).1 {
            Some(d) => r.1 matches Some(x) && x@ == d,
            None => r.1 is None,
        },
{
    let oc = chars_of(output);
    let ls = lines_exec(oc.as_slice());
    let ghost lv = lines(output@);
    let prefix = chars_of("__RUSTY_PI_PWD__:");
    let pos = last_marker_exec(&ls, prefix.as_slice(), Ghost(lv));
    proof {
        lemma_last_marker_bound(lv);
    }
    let nl = vec!['\n'];
    assert(nl@ =~= seq!['\n']);
    match pos {
        None => {
            assert(ls@.map_values(|p: Vec<char>| p@) =~= lv);
            let text = join_exec(ls.as_slice(), nl.as_slice());
            (string_from_chars(text.as_slice()), None)
        },
        Some(p) => {
            let t = trim_chars(ls[p].as_slice());
            assert(last_marker(lv) == Some(p as int));
            assert(is_marker_line(lv[p as int]));
            assert(t@ == trim(lv[p as int]));
            assert(prefix@.len() <= t@.len());
            let rest = sub_chars(t.as_slice(), prefix.len(), t.len());
            assert(rest@ =~= trim(lv[p as int]).skip(marker_prefix().len() as int));
            let dir = trim_chars(rest.as_slice());
            let mut kept: Vec<Vec<char>> = Vec::new();
            let mut k: usize = 0;
            while k < ls.len()
                invariant
                    k <= ls@.len() == lv.len(),
                    p < ls@.len(),
                    forall|j: int| 0 <= j < ls@.len() ==> (#[trigger] ls@[j])@ == lv[j],
                    kept@.map_values(|x: Vec<char>| x@) == (if k <= p {
                        lv.take(k as int)
                    } else {
                        lv.take(k as int).remove(p as int)
                    }),
                decreases ls@.len() - k,
            {
                let ghost before = kept@.map_values(|x: Vec<char>| x@);
                if k != p {
                    let line = sub_chars(ls[k].as_slice(), 0, ls[k].len());
                    assert(line@ =~= lv[k as int]);
                    kept.push(line);
                    assert(kept@.map_values(|x: Vec<char>| x@) =~= before.push(lv[k as int]));
                }
                proof {
                    if k < p {
                        assert(kept@.map_values(|x: Vec<char>| x@) =~= lv.take(k + 1));
                    } else if k == p {
                        assert(kept@.map_values(|x: Vec<char>| x@) =~= lv.take(k + 1).remove(
                            p as int,
                        ));
                    } else {
                        assert(kept@.map_values(|x: Vec<char>| x@) =~= lv.take(k + 1).remove(
                            p as int,
                        ));
                    }
                }
                k = k + 1;
            }
            assert(lv.take(ls@.len() as int) =~= lv);
            let text = join_exec(kept.as_slice(), nl.as_slice());
            let d = if dir.len() > 0 {
                Some(string_from_chars(dir.as_slice()))
            } else {
                None
            };
            (string_from_chars(text.as_slice()), d)
        },
    }
}

// ── Results ─────────────────────────────────────────────────────────────────

/// How a command's run ended.
#[derive(Debug, Clone, Copy, PartialEq, Eq)]
pub enum BashEnd {
    /// The run was aborted.
    Aborted,
    /// The run passed its timeout.
    TimedOut,
    /// The command finished, with its exit code when one was reported.
    Exited(Option<i32>),
}

/// Where the shown lines start and how they were cut.
pub open spec fn showing_note(tr: TruncationResult, max_bytes: usize) -> Seq<char> {
    let start: nat = if tr.output_lines < tr.total_lines {
        (tr.total_lines - tr.output_lines + 1) as nat
    } else {
        1
    };
    let range = "\n\n[Showing lines "@ + decimal(start) + "-"@ + decimal(tr.total_lines as nat) + " of "@ + decimal(
        tr.total_lines as nat,
    );
    if tr.truncated_by@ == "lines"@ {
        range + "]\n"@
    } else {
        range + " ("@ + decimal((max_bytes / 1024) as nat) + " KB limit)]\n"@
    }
}

/// The shown output: trimmed, with a note where it was cut.
pub open spec fn shown_output(tr: TruncationResult, max_bytes: usize) -> Seq<char> {
    trim(tr.content@) + if tr.truncated {
        showing_note(tr, max_bytes)
    } else {
        Seq::empty()
    }
}

/// The text of a finished command's result: a non-zero exit code is
/// reported after the output; no output at all reads `(no output)`.
pub open spec fn exited_text(shown: Seq<char>, code: Option<i32>) -> Seq<char> {
    match code {
        Some(c) => if c != 0 {
            if shown.len() == 0 {
                "Command exited with code "@ + signed_decimal(c as int)
            } else {
                shown + "\n\nCommand exited with code "@ + signed_decimal(c as int)
            }
        } else if shown.len() == 0 {
            "(no output)"@
        } else {
            shown
        },
        None => if shown.len() == 0 {
            "(no output)"@
        } else {
            shown
        },
    }
}

/// The result's single text content.
pub open spec fn only_text(r: AgentToolResult) -> Option<Seq<char>> {
    if r.content@.len() == 1 && r.content@[0] is Text {
        Some(r.content@[0]->Text_text@)
    } else {
        None
    }
}

proof fn lemma_split_char_len(s: Seq<char>, c: char)
    ensures
        crate::text::split_char(s, c).len() <= s.len() + 1,
    decreases s.len(),
{
    match crate::text::index_of(s, c) {
        Some(k) => {
            if 0 <= k < s.len() {
                lemma_split_char_len(s.skip(k + 1), c);
            }
        },
        None => {},
    }
}

proof fn lemma_split_lines_len(content: Seq<char>)
    ensures
        crate::truncate::split_lines(content).len() <= content.len() + 1,
{
    let trimmed = if content.len() > 0 && content.last() == '\n' {
        content.drop_last()
    } else {
        content
    };
    lemma_split_char_len(trimmed, '\n');
}

/// The result of a finished command whose cleaned output was cut to `tr`
/// (the byte limit being `max_bytes`) and which exited with `code`.
/// The details of a command's result, as compact JSON text: whether it
/// was aborted, that it timed out with its timeout (`null` when none was
/// set), or its exit code (`null` when it has none).
pub open spec fn bash_details(end: BashEnd, timeout: Option<u64>) -> Seq<char> {
    match end {
        BashEnd::Aborted => "{\"aborted\":true}"@,
        BashEnd::TimedOut => "{\"timed_out\":true,\"timeout\":"@ + (match timeout {
            Some(t) => decimal(t as nat),
            None => "null"@,
        }) + "}"@,
        BashEnd::Exited(code) => exit_details(code),
    }
}

pub open spec fn exit_details(code: Option<i32>) -> Seq<char> {
    "{\"exit_code\":"@ + (match code {
        Some(c) => signed_decimal(c as int),
        None => "null"@,
    }) + "}"@
}

fn exit_details_text(code: Option<i32>) -> (r: String)
    ensures
        r@ == exit_details(code),
{
    let mut out: Vec<char> = Vec::new();
    append_str(&mut out, "{\"exit_code\":");
    match code {
        Some(c) => append_signed(&mut out, c),
        None => append_str(&mut out, "null"),
    }
    append_str(&mut out, "}");
    string_from_chars(out.as_slice())
}

fn aborted_details_text() -> (r: String)
    ensures
        r@ == "{\"aborted\":true}"@,
{
    let mut out: Vec<char> = Vec::new();
    append_str(&mut out, "{\"aborted\":true}");
    string_from_chars(out.as_slice())
}

fn timeout_details_text(timeout: Option<u64>) -> (r: String)
    ensures
        r@ == bash_details(BashEnd::TimedOut, timeout),
{
    let mut out: Vec<char> = Vec::new();
    append_str(&mut out, "{\"timed_out\":true,\"timeout\":");
    match timeout {
        Some(t) => append_decimal(&mut out, t),
        None => append_str(&mut out, "null"),
    }
    append_str(&mut out, "}");
    string_from_chars(out.as_slice())
}

pub fn exited_result(tr: &TruncationResult, max_bytes: usize, code: Option<i32>) -> (r: AgentToolResult)
    requires
        tr.total_lines < usize::MAX,
    ensures
        only_text(r) == Some(exited_text(shown_output(*tr, max_bytes), code)),
        r.exit_code == code,
        r.is_error == (code matches Some(c) && c != 0),
        !r.timed_out,
        !r.aborted,
        r.details@ == exit_details(code),
{
    let mut shown = trim_chars(chars_of(tr.content.as_str()).as_slice());
    if tr.truncated {
        let start: usize = if tr.output_lines < tr.total_lines {
            tr.total_lines - tr.output_lines + 1
        } else {
            1
        };
        let mut note: Vec<char> = Vec::new();
        append_str(&mut note, "\n\n[Showing lines ");
        append_decimal(&mut note, start as u64);
        append_str(&mut note, "-");
        append_decimal(&mut note, tr.total_lines as u64);
        append_str(&mut note, " of ");
        append_decimal(&mut note, tr.total_lines as u64);
        if crate::text::chars_eq_str(chars_of(tr.truncated_by).as_slice(), "lines") {
            append_str(&mut note, "]\n");
        } else {
            append_str(&mut note, " (");
            append_decimal(&mut note, (max_bytes / 1024) as u64);
            append_str(&mut note, " KB limit)]\n");
        }
        assert(note@ == showing_note(*tr, max_bytes));
        append(&mut shown, note.as_slice());
    }
    assert(shown@ == shown_output(*tr, max_bytes));
    let is_error = match code {
        Some(c) => c != 0,
        None => false,
    };
    let mut text: Vec<char> = Vec::new();
    if is_error {
        let c = code.unwrap();
        if shown.len() == 0 {
            append_str(&mut text, "Command exited with code ");
        } else {
            append(&mut text, shown.as_slice());
            append_str(&mut text, "\n\nCommand exited with code ");
        }
        append_signed(&mut text, c);
    } else if shown.len() == 0 {
        append_str(&mut text, "(no output)");
    } else {
        append(&mut text, shown.as_slice());
    }
    let r = AgentToolResult {
        content: vec![Content::Text { text: string_from_chars(text.as_slice()) }],
        is_error,
        exit_code: code,
        timed_out: false,
        aborted: false,
        details: exit_details_text(code),
    };
    assert(r.content@.len() == 1);
    r
}

/// `r` shows `cleaned`, cut from the tail to the parameters' limits (2000
/// lines and 50 KB by default), as a run that exited with `code`.
pub open spec fn exited_shows(r: AgentToolResult, cleaned: Seq<char>, params: BashParams, code: Option<i32>) -> bool {
    exists|tr: TruncationResult|
        #[trigger] tail_truncation(tr, cleaned, line_limit(params), byte_limit(params)) && only_text(r) == Some(
            exited_text(shown_output(tr, byte_limit(params)), code),
        )
}

pub open spec fn line_limit(params: BashParams) -> usize {
    match params.max_lines {
        Some(m) => m,
        None => DEFAULT_MAX_LINES,
    }
}

pub open spec fn byte_limit(params: BashParams) -> usize {
    match params.max_bytes {
        Some(m) => m,
        None => DEFAULT_MAX_BYTES,
    }
}

/// The tool result of a command run: an aborted or timed-out run says so;
/// a finished one shows its output without the directory marker, cut from
/// the tail to the parameters' limits (2000 lines and 50 KB by default).
/// Returns the result and the directory the command ended in, when its
/// output reported one.
pub fn bash_result(params: &BashParams, output: &str, end: BashEnd) -> (r: (AgentToolResult, Option<String>))
    ensures
        match split_marker(output@).1 {
            Some(d) => r.1 matches Some(x) && x@ == d,
            None => r.1 is None,
        },
        end == BashEnd::Aborted ==> only_text(r.0) == Some("Command aborted"@) && r.0.aborted && r.0.is_error
            && !r.0.timed_out && r.0.exit_code is None,
        end == BashEnd::TimedOut ==> only_text(r.0) == Some(
            "Command timed out after "@ + decimal(
                match params.timeout {
                    Some(t) => t as nat,
                    None => 0,
                },
            ) + " seconds"@,
        ) && r.0.timed_out && r.0.is_error && !r.0.aborted && r.0.exit_code is None,
        end matches BashEnd::Exited(code) ==> exited_shows(r.0, split_marker(output@).0, *params, code)
            && r.0.exit_code == code && r.0.is_error == (code matches Some(c) && c != 0) && !r.0.timed_out
            && !r.0.aborted,
{
    let (cleaned, cwd) = extract_cwd_marker(output);
    match end {
        BashEnd::Aborted => {
            proof {
                reveal_strlit("Command aborted");
            }
            let r = AgentToolResult {
                content: vec![Content::Text { text: crate::text::to_string("Command aborted") }],
                is_error: true,
                exit_code: None,
                timed_out: false,
                aborted: true,
                details: aborted_details_text(),
            };
            assert(r.content@.len() == 1);
            (r, cwd)
        },
        BashEnd::TimedOut => {
            let mut text: Vec<char> = Vec::new();
            append_str(&mut text, "Command timed out after ");
            let t: u64 = match params.timeout {
                Some(t) => t,
                None => 0,
            };
            append_decimal(&mut text, t);
            append_str(&mut text, " seconds");
            let r = AgentToolResult {
                content: vec![Content::Text { text: string_from_chars(text.as_slice()) }],
                is_error: true,
                exit_code: None,
                timed_out: true,
                aborted: false,
                details: timeout_details_text(params.timeout),
            };
            assert(r.content@.len() == 1);
            (r, cwd)
        },
        BashEnd::Exited(code) => {
            let max_lines = match params.max_lines {
                Some(m) => m,
                None => DEFAULT_MAX_LINES,
            };
            let max_bytes = match params.max_bytes {
                Some(m) => m,
                None => DEFAULT_MAX_BYTES,
            };
            let tr = truncate_tail(cleaned.as_str(), max_lines, max_bytes);
            let n = crate::text::str_byte_len(cleaned.as_str());
            proof {
                lemma_split_lines_len(cleaned@);
                crate::text::lemma_utf8_len_at_least_len(cleaned@);
            }
            let r = exited_result(&tr, max_bytes, code);
            assert(tail_truncation(tr, split_marker(output@).0, max_lines, max_bytes));
            assert(only_text(r) == Some(exited_text(shown_output(tr, max_bytes), code)));
            assert(max_lines == line_limit(*params));
            assert(max_bytes == byte_limit(*params));
            assert(tail_truncation(tr, split_marker(output@).0, line_limit(*params), byte_limit(*params)));
            assert(exited_shows(r, split_marker(output@).0, *params, code));
            (r, cwd)
        },
    }
}

} // verus!
