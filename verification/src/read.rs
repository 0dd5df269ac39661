//! The read tool's parameters, its working directory, the alternative
//! spellings of a path that macOS may have stored a file under, and the
//! content block of an image file.

use vstd::prelude::*;

use std::path::PathBuf;
use std::sync::{Arc, RwLock};
use unicode_normalization::UnicodeNormalization;
use base64::Engine;

use crate::text::{
    append_decimal, append_str, chars_eq, chars_of, decimal, join, join_exec, lines,
    lines_exec, replace_all, replace_all_exec, split_char, split_char_exec, string_from_chars,
    utf8_len,
};
use crate::truncate::{head_truncation, truncate_head, TruncationResult, DEFAULT_MAX_BYTES, DEFAULT_MAX_LINES};
use crate::workdir::current_dir_text;

verus! {

/// Parameters for the read tool.
#[derive(Debug, Clone, PartialEq, Eq)]
pub struct ReadParams {
    /// Path to the file to read (relative or absolute).
    pub path: String,
    /// Line number to start reading from (1-indexed).
    pub offset: Option<usize>,
    /// Maximum number of lines to read.
    pub limit: Option<usize>,
}

/// The read tool: reads file contents relative to the shared working
/// directory.
pub struct ReadTool {
    shared_cwd: Arc<RwLock<PathBuf>>,
}

impl ReadTool {
    pub fn new(shared_cwd: Arc<RwLock<PathBuf>>) -> (t: Self)
        ensures
            t.shared_cwd() == shared_cwd,
    {
        ReadTool { shared_cwd }
    }

    pub closed spec fn shared_cwd(&self) -> Arc<RwLock<PathBuf>> {
        self.shared_cwd
    }

    /// The working directory as text, as it stands now.
    pub fn cwd(&self) -> String {
        current_dir_text(&self.shared_cwd)
    }
}

// ── Path spellings ──────────────────────────────────────────────────────────

/// The screenshot spelling: a narrow no-break space before `AM.`/`PM.`.
pub open spec fn am_pm_variant(s: Seq<char>) -> Seq<char> {
    replace_all(
        replace_all(s, " AM."@, "\u{202F}AM."@),
        " PM."@,
        "\u{202F}PM."@,
    )
}

/// The spelling with a right single quotation mark for each apostrophe.
pub open spec fn curly_quote_variant(s: Seq<char>) -> Seq<char> {
    replace_all(s, seq!['\''], seq!['\u{2019}'])
}

/// The canonical decomposition (Unicode NFD) of a character sequence.
pub uninterp spec fn nfd(s: Seq<char>) -> Seq<char>;

/// `UnicodeNormalization::nfd` of `unicode-normalization`, collected into a
/// string: the canonical decomposition of `s`, named `nfd`.
#[verifier::external_body]
fn nfd_string(s: &str) -> (r: String)
    ensures
        r@ == nfd(s@),
{
    s.nfd().collect()
}

/// Try the macOS AM/PM screenshot spelling.
pub fn try_am_pm_variant(file_path: &str) -> (r: String)
    ensures
        r@ == am_pm_variant(file_path@),
{
    let s = chars_of(file_path);
    let am = chars_of(" AM.");
    let am2 = chars_of("\u{202F}AM.");
    let pm = chars_of(" PM.");
    let pm2 = chars_of("\u{202F}PM.");
    proof {
        reveal_strlit(" AM.");
        reveal_strlit(" PM.");
    }
    let a = replace_all_exec(s.as_slice(), am.as_slice(), am2.as_slice());
    let b = replace_all_exec(a.as_slice(), pm.as_slice(), pm2.as_slice());
    string_from_chars(b.as_slice())
}

/// Try the decomposed (NFD) spelling that macOS file systems store.
pub fn try_nfd_variant(file_path: &str) -> (r: String)
    ensures
        r@ == nfd(file_path@),
{
    nfd_string(file_path)
}

/// Try the curly-quote spelling of screenshot names like "Capture d’écran".
pub fn try_curly_quote_variant(file_path: &str) -> (r: String)
    ensures
        r@ == curly_quote_variant(file_path@),
{
    let s = chars_of(file_path);
    let q = vec!['\''];
    let c = vec!['\u{2019}'];
    assert(q@ =~= seq!['\'']);
    assert(c@ =~= seq!['\u{2019}']);
    let v = replace_all_exec(s.as_slice(), q.as_slice(), c.as_slice());
    string_from_chars(v.as_slice())
}

pub open spec fn keep_if(cond: bool, s: Seq<char>) -> Seq<Seq<char>> {
    if cond {
        seq![s]
    } else {
        seq![]
    }
}

/// The spellings to try, in order, when the resolved path does not exist:
/// AM/PM, NFD, curly quotes, then NFD with curly quotes; each only where it
/// differs from the path itself.
pub open spec fn path_candidates(s: Seq<char>) -> Seq<Seq<char>> {
    keep_if(am_pm_variant(s) != s, am_pm_variant(s)) + keep_if(nfd(s) != s, nfd(s)) + keep_if(
        curly_quote_variant(s) != s,
        curly_quote_variant(s),
    ) + keep_if(curly_quote_variant(nfd(s)) != s, curly_quote_variant(nfd(s)))
}

fn push_if_differs(out: &mut Vec<String>, candidate: String, resolved: &[char])
    ensures
        final(out)@.map_values(|x: String| x@) == old(out)@.map_values(|x: String| x@) + keep_if(
            candidate@ != resolved@,
            candidate@,
        ),
{
    let ghost before = out@.map_values(|x: String| x@);
    let c = chars_of(candidate.as_str());
    if !chars_eq(c.as_slice(), resolved) {
        let ghost cv = candidate@;
        out.push(candidate);
        assert(out@.map_values(|x: String| x@) =~= before + seq![cv]);
    } else {
        assert(out@.map_values(|x: String| x@) =~= before + Seq::<Seq<char>>::empty());
    }
}

/// The alternative spellings of a resolved read path, in the order they are
/// tried.
pub fn read_path_candidates(resolved: &str) -> (r: Vec<String>)
    ensures
        r@.map_values(|x: String| x@) == path_candidates(resolved@),
{
    let rc = chars_of(resolved);
    let mut out: Vec<String> = Vec::new();
    assert(out@.map_values(|x: String| x@) =~= Seq::<Seq<char>>::empty());
    push_if_differs(&mut out, try_am_pm_variant(resolved), rc.as_slice());
    let nfd_text = try_nfd_variant(resolved);
    let nfd_curly = try_curly_quote_variant(nfd_text.as_str());
    push_if_differs(&mut out, nfd_text, rc.as_slice());
    push_if_differs(&mut out, try_curly_quote_variant(resolved), rc.as_slice());
    push_if_differs(&mut out, nfd_curly, rc.as_slice());
    assert(out@.map_values(|x: String| x@) =~= path_candidates(resolved@));
    out
}

// ── The text a read returns ─────────────────────────────────────────────────

/// How a read of a text file ends: complete, or with a hint on how to go on.
#[derive(Debug, Clone, PartialEq, Eq)]
pub enum ReadHint {
    /// Everything selected is shown.
    Complete,
    /// The first selected line alone exceeds the byte limit: its number
    /// and size in bytes.
    FirstLineTooLong { line: usize, size: usize },
    /// Cut at the line limit: lines shown, total lines, offset to go on.
    ShowingLines { first: usize, last: usize, total: usize, next: usize },
    /// Cut at the byte limit: lines shown, total lines, offset to go on.
    ShowingBytes { first: usize, last: usize, total: usize, next: usize },
    /// The limit ended the selection before the end of the file.
    MoreLines { remaining: usize, next: usize },
}

/// The selected lines of a text file after head truncation, and the hint.
pub struct ReadWindow {
    pub truncation: TruncationResult,
    pub hint: ReadHint,
    pub total_lines: usize,
}

/// Index of the first selected line (from a 1-based offset).
pub open spec fn start_line(offset: Option<usize>) -> nat {
    match offset {
        Some(o) => if o > 0 {
            (o - 1) as nat
        } else {
            0
        },
        None => 0,
    }
}

/// One past the last selected line.
pub open spec fn end_line(start: nat, limit: Option<usize>, total: nat) -> nat {
    match limit {
        Some(l) => if start + l <= total {
            (start + l) as nat
        } else {
            total
        },
        None => total,
    }
}

/// The selected text: lines `start..end` of the file (split at `\n`)
/// joined with `\n`.
pub open spec fn selected_text(content: Seq<char>, offset: Option<usize>, limit: Option<usize>) -> Seq<char> {
    let ls = split_char(content, '\n');
    let start = start_line(offset);
    join(ls.subrange(start as int, end_line(start, limit, ls.len()) as int), seq!['\n'])
}

/// The error for an offset past the last line.
pub open spec fn offset_error(offset: Option<usize>, total: nat) -> Seq<char> {
    "Offset "@ + decimal(match offset {
        Some(o) => o as nat,
        None => 0,
    }) + " is beyond end of file ("@ + decimal(total) + " lines total)"@
}

/// When the limit alone ends a read, the next read starts right after the
/// selected lines, and the remaining lines run from there to the end.
pub proof fn lemma_read_more_lines(
    tr: TruncationResult,
    selected: Seq<char>,
    start: nat,
    limit: Option<usize>,
    total: nat,
)
    requires
        limit matches Some(l) ==> start + l + 1 <= usize::MAX,
        total <= usize::MAX,
    ensures
        read_hint(tr, selected, start, limit, total) matches ReadHint::MoreLines { remaining, next }
            ==> (limit matches Some(l) && next == start + l + 1 && next + remaining == total + 1),
{
}

/// When a read is cut at the line or the byte limit, the hint names the
/// lines actually shown: it starts at the offset, covers exactly the
/// lines the truncation kept, and the next read starts right after them.
pub proof fn lemma_read_hint_range(
    tr: TruncationResult,
    selected: Seq<char>,
    start: nat,
    limit: Option<usize>,
    total: nat,
)
    requires
        start + tr.output_lines + 1 <= usize::MAX,
        total <= usize::MAX,
    ensures
        read_hint(tr, selected, start, limit, total) matches ReadHint::ShowingLines {
            first,
            last,
            total: t,
            next,
        } ==> first == start + 1 && last + 1 == first + tr.output_lines && next == last + 1 && t
            == total,
        read_hint(tr, selected, start, limit, total) matches ReadHint::ShowingBytes {
            first,
            last,
            total: t,
            next,
        } ==> first == start + 1 && last + 1 == first + tr.output_lines && next == last + 1 && t
            == total,
{
}

/// The hint for a selection starting at `start` of a file with `total`
/// lines, given its head truncation.
pub open spec fn read_hint(
    tr: TruncationResult,
    selected: Seq<char>,
    start: nat,
    limit: Option<usize>,
    total: nat,
) -> ReadHint {
    if tr.first_line_exceeds_limit {
        ReadHint::FirstLineTooLong {
            line: (start + 1) as usize,
            size: (if lines(selected).len() > 0 {
                utf8_len(lines(selected)[0])
            } else {
                0
            }) as usize,
        }
    } else if tr.truncated {
        let last = start + tr.output_lines;
        if tr.truncated_by@ == "lines"@ {
            ReadHint::ShowingLines {
                first: (start + 1) as usize,
                last: last as usize,
                total: total as usize,
                next: (last + 1) as usize,
            }
        } else {
            ReadHint::ShowingBytes {
                first: (start + 1) as usize,
                last: last as usize,
                total: total as usize,
                next: (last + 1) as usize,
            }
        }
    } else {
        match limit {
            Some(l) => if start + l < total {
                ReadHint::MoreLines {
                    remaining: (total - (start + l)) as usize,
                    next: (start + l + 1) as usize,
                }
            } else {
                ReadHint::Complete
            },
            None => ReadHint::Complete,
        }
    }
}

proof fn lemma_split_count(s: Seq<char>, c: char)
    ensures
        split_char(s, c).len() <= s.len() + 1,
    decreases s.len(),
{
    match crate::text::index_of(s, c) {
        Some(k) => if 0 <= k < s.len() {
            lemma_split_count(s.skip(k + 1), c);
        },
        None => {},
    }
}

/// Select lines `offset..offset+limit` (1-based offset) of a text file,
/// truncate them at the head to the default limits, and say how to go on.
/// An offset past the last line is an error.
pub fn read_text_window(content: &str, offset: Option<usize>, limit: Option<usize>) -> (r: Result<
    ReadWindow,
    String,
>)
    requires
        limit matches Some(l) ==> start_line(offset) + l <= usize::MAX,
    ensures
        ({
            let total = split_char(content@, '\n').len();
            let start = start_line(offset);
            match r {
                Err(e) => start >= total && e@ == offset_error(offset, total),
                Ok(w) => {
                    let sel = selected_text(content@, offset, limit);
                    &&& start < total
                    &&& w.total_lines == total
                    &&& head_truncation(w.truncation, sel, DEFAULT_MAX_LINES, DEFAULT_MAX_BYTES)
                    &&& w.hint == read_hint(w.truncation, sel, start, limit, total)
                    &&& (w.hint matches ReadHint::ShowingLines { first, last, total: t, next }
                        ==> first == start + 1 && last + 1 == first + w.truncation.output_lines
                        && next == last + 1 && t == total)
                    &&& (w.hint matches ReadHint::ShowingBytes { first, last, total: t, next }
                        ==> first == start + 1 && last + 1 == first + w.truncation.output_lines
                        && next == last + 1 && t == total)
                },
            }
        }),
{
    let cs = chars_of(content);
    let all_lines = split_char_exec(cs.as_slice(), '\n');
    let ghost ls = split_char(content@, '\n');
    let total = all_lines.len();
    proof {
        lemma_split_count(content@, '\n');
    }
    let start: usize = match offset {
        Some(o) => if o > 0 {
            o - 1
        } else {
            0
        },
        None => 0,
    };
    if start >= total {
        let mut m: Vec<char> = Vec::new();
        append_str(&mut m, "Offset ");
        append_decimal(
            &mut m,
            match offset {
                Some(o) => o as u64,
                None => 0,
            },
        );
        append_str(&mut m, " is beyond end of file (");
        append_decimal(&mut m, total as u64);
        append_str(&mut m, " lines total)");
        return Err(string_from_chars(m.as_slice()));
    }
    let end: usize = match limit {
        Some(l) => if start + l <= total {
            start + l
        } else {
            total
        },
        None => total,
    };
    let mut picked: Vec<Vec<char>> = Vec::new();
    let mut i: usize = start;
    while i < end
        invariant
            start <= i <= end <= total,
            total == all_lines@.len() == ls.len(),
            forall|k: int| 0 <= k < all_lines@.len() ==> (#[trigger] all_lines@[k])@ == ls[k],
            picked@.map_values(|p: Vec<char>| p@) == ls.subrange(start as int, i as int),
        decreases end - i,
    {
        let ghost before = picked@.map_values(|p: Vec<char>| p@);
        let line = crate::text::copy_chars(all_lines[i].as_slice());
        picked.push(line);
        assert(picked@.map_values(|p: Vec<char>| p@) =~= before.push(ls[i as int]));
        assert(ls.subrange(start as int, i + 1) =~= ls.subrange(start as int, i as int).push(
            ls[i as int],
        ));
        i = i + 1;
    }
    let nl = vec!['\n'];
    assert(nl@ =~= seq!['\n']);
    let selected = join_exec(picked.as_slice(), nl.as_slice());
    let sel_text = string_from_chars(selected.as_slice());
    let tr = truncate_head(sel_text.as_str(), DEFAULT_MAX_LINES, DEFAULT_MAX_BYTES);
    let ghost sel = selected_text(content@, offset, limit);
    assert(sel_text@ == sel);
    let hint = if tr.first_line_exceeds_limit {
        let size = first_line_bytes_of(sel_text.as_str());
        ReadHint::FirstLineTooLong { line: start + 1, size }
    } else if tr.truncated {
        assert(tr.output_lines <= DEFAULT_MAX_LINES);
        assert(total <= content@.len() + 1);
        assert(start <= isize::MAX);
        let last = start + tr.output_lines;
        proof {
            lemma_read_hint_range(tr, sel, start as nat, limit, total as nat);
        }
        if chars_eq(chars_of(tr.truncated_by).as_slice(), chars_of("lines").as_slice()) {
            ReadHint::ShowingLines { first: start + 1, last, total, next: last + 1 }
        } else {
            ReadHint::ShowingBytes { first: start + 1, last, total, next: last + 1 }
        }
    } else {
        match limit {
            Some(l) => if start + l < total {
                ReadHint::MoreLines { remaining: total - (start + l), next: start + l + 1 }
            } else {
                ReadHint::Complete
            },
            None => ReadHint::Complete,
        }
    };
    Ok(ReadWindow { truncation: tr, hint, total_lines: total })
}

fn first_line_bytes_of(s: &str) -> (n: usize)
    ensures
        n == (if lines(s@).len() > 0 {
            utf8_len(lines(s@)[0])
        } else {
            0
        }),
{
    let ls = lines_exec(chars_of(s).as_slice());
    if ls.len() > 0 {
        let first = string_from_chars(ls[0].as_slice());
        crate::text::str_byte_len(first.as_str())
    } else {
        0
    }
}

/// The text a read returns: the shown lines with the hint after them; for
/// a first line over the byte limit, only the advice on reading it.
/// `max_bytes_text` and `first_line_size_text` are the byte limit and the
/// first line's size as the size formatter writes them.
pub open spec fn read_result_text(
    shown: Seq<char>,
    hint: ReadHint,
    path: Seq<char>,
    max_bytes_text: Seq<char>,
    first_line_size_text: Seq<char>,
) -> Seq<char> {
    match hint {
        ReadHint::Complete => shown,
        ReadHint::FirstLineTooLong { line, size } => "[Line "@ + decimal(line as nat) + " is "@
            + first_line_size_text + ", exceeds "@ + max_bytes_text
            + " limit. Use bash: sed -n '"@ + decimal(line as nat) + "p' "@ + path
            + " | head -c "@ + decimal(DEFAULT_MAX_BYTES as nat) + "]"@,
        ReadHint::ShowingLines { first, last, total, next } => shown + "\n\n[Showing lines "@
            + decimal(first as nat) + "-"@ + decimal(last as nat) + " of "@ + decimal(total as nat)
            + ". Use offset="@ + decimal(next as nat) + " to continue.]"@,
        ReadHint::ShowingBytes { first, last, total, next } => shown + "\n\n[Showing lines "@
            + decimal(first as nat) + "-"@ + decimal(last as nat) + " of "@ + decimal(total as nat)
            + " ("@ + max_bytes_text + " limit). Use offset="@ + decimal(next as nat)
            + " to continue.]"@,
        ReadHint::MoreLines { remaining, next } => shown + "\n\n["@ + decimal(remaining as nat)
            + " more lines in file. Use offset="@ + decimal(next as nat) + " to continue.]"@,
    }
}

/// Render the text of a read (see [`read_result_text`]).
pub fn render_read_result(
    window: &ReadWindow,
    path: &str,
    max_bytes_text: &str,
    first_line_size_text: &str,
) -> (r: String)
    ensures
        r@ == read_result_text(
            window.truncation.content@,
            window.hint,
            path@,
            max_bytes_text@,
            first_line_size_text@,
        ),
{
    let mut out: Vec<char> = Vec::new();
    match window.hint {
        ReadHint::Complete => {
            append_str(&mut out, window.truncation.content.as_str());
        },
        ReadHint::FirstLineTooLong { line, size } => {
            append_str(&mut out, "[Line ");
            append_decimal(&mut out, line as u64);
            append_str(&mut out, " is ");
            append_str(&mut out, first_line_size_text);
            append_str(&mut out, ", exceeds ");
            append_str(&mut out, max_bytes_text);
            append_str(&mut out, " limit. Use bash: sed -n '");
            append_decimal(&mut out, line as u64);
            append_str(&mut out, "p' ");
            append_str(&mut out, path);
            append_str(&mut out, " | head -c ");
            append_decimal(&mut out, DEFAULT_MAX_BYTES as u64);
            append_str(&mut out, "]");
        },
        ReadHint::ShowingLines { first, last, total, next } => {
            append_str(&mut out, window.truncation.content.as_str());
            append_str(&mut out, "\n\n[Showing lines ");
            append_decimal(&mut out, first as u64);
            append_str(&mut out, "-");
            append_decimal(&mut out, last as u64);
            append_str(&mut out, " of ");
            append_decimal(&mut out, total as u64);
            append_str(&mut out, ". Use offset=");
            append_decimal(&mut out, next as u64);
            append_str(&mut out, " to continue.]");
        },
        ReadHint::ShowingBytes { first, last, total, next } => {
            append_str(&mut out, window.truncation.content.as_str());
            append_str(&mut out, "\n\n[Showing lines ");
            append_decimal(&mut out, first as u64);
            append_str(&mut out, "-");
            append_decimal(&mut out, last as u64);
            append_str(&mut out, " of ");
            append_decimal(&mut out, total as u64);
            append_str(&mut out, " (");
            append_str(&mut out, max_bytes_text);
            append_str(&mut out, " limit). Use offset=");
            append_decimal(&mut out, next as u64);
            append_str(&mut out, " to continue.]");
        },
        ReadHint::MoreLines { remaining, next } => {
            append_str(&mut out, window.truncation.content.as_str());
            append_str(&mut out, "\n\n[");
            append_decimal(&mut out, remaining as u64);
            append_str(&mut out, " more lines in file. Use offset=");
            append_decimal(&mut out, next as u64);
            append_str(&mut out, " to continue.]");
        },
    }
    string_from_chars(out.as_slice())
}


// ── Images ──────────────────────────────────────────────────────────────────

/// What the standard padded base64 engine makes of some bytes.
pub uninterp spec fn base64_standard(bytes: Seq<u8>) -> Seq<char>;

/// `base64::engine::general_purpose::STANDARD.encode`: the padded standard
/// alphabet, four characters for every three bytes or part of three. It
/// panics when that length does not fit a `usize`, which `requires` rules
/// out.
#[verifier::external_body]
fn base64_encode(bytes: &[u8]) -> (s: String)
    requires
        4 * ((bytes@.len() + 2) / 3) <= usize::MAX,
    ensures
        s@ == base64_standard(bytes@),
        s@.len() == 4 * ((bytes@.len() + 2) / 3),
{
    base64::engine::general_purpose::STANDARD.encode(bytes)
}

/// The type an image file is sent as: the sniffed one, JPEG otherwise.
pub open spec fn image_type(bytes: Seq<u8>) -> Seq<char> {
    match crate::mime::image_mime(bytes) {
        Some(m) => m,
        None => "image/jpeg"@,
    }
}

/// The content block for an image file's bytes: its type and the bytes in
/// base64.
pub fn image_content(bytes: &[u8]) -> (c: crate::print::Content)
    requires
        4 * ((bytes@.len() + 2) / 3) <= usize::MAX,
    ensures
        c matches crate::print::Content::Image { data, mime_type } && data@ == base64_standard(bytes@)
            && mime_type@ == image_type(bytes@),
{
    let mime: &str = match crate::mime::detect_image_mime_type(bytes) {
        Some(m) => m,
        None => {
            proof {
                reveal_strlit("image/jpeg");
            }
            "image/jpeg"
        },
    };
    let data = base64_encode(bytes);
    crate::print::Content::Image { data, mime_type: crate::text::to_string(mime) }
}

} // verus!
