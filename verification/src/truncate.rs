//! Output truncation for tool results.
//!
//! Two independent limits apply, whichever is hit first: a line limit and a
//! byte limit. `truncate_head` keeps the first lines (file reads),
//! `truncate_tail` keeps the last lines (command output). Neither returns a
//! partial line.

use vstd::prelude::*;

use crate::text::{
    chars_of, copy_chars, join, join_exec, lemma_join_concat, lemma_join_piece_bound,
    lemma_join_push, lemma_join_split, lemma_utf8_len_concat, lemma_utf8_len_newline, lemma_utf8_len_subrange, split_char,
    split_char_exec, string_from_chars, sub_chars, utf8_len, utf8_len_of,
};

verus! {

/// Default maximum number of output lines before truncation.
pub const DEFAULT_MAX_LINES: usize = 2000;

/// Default maximum output bytes (50 KB) before truncation.
pub const DEFAULT_MAX_BYTES: usize = 50 * 1024;

/// Result of a truncation operation.
pub struct TruncationResult {
    /// The truncated content.
    pub content: String,
    /// Whether truncation occurred.
    pub truncated: bool,
    /// Which limit was hit: "lines", "bytes", or empty if not truncated.
    pub truncated_by: &'static str,
    /// Total number of lines in the original content.
    pub total_lines: usize,
    /// Total number of bytes in the original content.
    pub total_bytes: usize,
    /// Number of complete lines in the truncated output.
    pub output_lines: usize,
    /// Number of bytes in the truncated output.
    pub output_bytes: usize,
    /// Whether the first line exceeded the byte limit (head truncation).
    pub first_line_exceeds_limit: bool,
    /// The max lines limit that was applied.
    pub max_lines: usize,
    /// The max bytes limit that was applied.
    pub max_bytes: usize,
}

/// The lines of `content`: split on `\n` after dropping one trailing `\n`,
/// and none at all for empty text.
pub open spec fn split_lines(content: Seq<char>) -> Seq<Seq<char>> {
    let trimmed = if content.len() > 0 && content.last() == '\n' {
        content.drop_last()
    } else {
        content
    };
    if trimmed.len() == 0 {
        seq![]
    } else {
        split_char(trimmed, '\n')
    }
}

/// Lines joined back with `\n`.
pub open spec fn joined(lines: Seq<Seq<char>>) -> Seq<char> {
    join(lines, seq!['\n'])
}

/// Bytes of lines joined with `\n`.
pub open spec fn joined_bytes(lines: Seq<Seq<char>>) -> nat {
    utf8_len(joined(lines))
}

/// The fields that every result carries about its input and limits.
pub open spec fn reports_input(
    r: TruncationResult,
    content: Seq<char>,
    max_lines: usize,
    max_bytes: usize,
) -> bool {
    &&& r.total_lines == split_lines(content).len()
    &&& r.total_bytes == utf8_len(content)
    &&& r.max_lines == max_lines
    &&& r.max_bytes == max_bytes
    &&& r.output_bytes == utf8_len(r.content@)
}

/// No truncation was needed: the content comes back unchanged.
pub open spec fn untouched(r: TruncationResult, content: Seq<char>) -> bool {
    &&& !r.truncated
    &&& r.truncated_by@ == ""@
    &&& r.content@ == content
    &&& r.output_lines == split_lines(content).len()
    &&& !r.first_line_exceeds_limit
}

fn split_lines_exec(content: &[char]) -> (v: Vec<Vec<char>>)
    requires
        utf8_len(content@) <= usize::MAX,
    ensures
        v@.len() == split_lines(content@).len(),
        forall|i: int| 0 <= i < v@.len() ==> (#[trigger] v@[i])@ == split_lines(content@)[i],
        forall|i: int| 0 <= i < v@.len() ==> utf8_len((#[trigger] v@[i])@) <= utf8_len(content@),
        joined_bytes(split_lines(content@)) <= utf8_len(content@),
{
    let n = content.len();
    let end = if n > 0 && content[n - 1] == '\n' {
        n - 1
    } else {
        n
    };
    let trimmed = sub_chars(content, 0, end);
    proof {
        lemma_utf8_len_subrange(content@, 0, end as int);
        if n > 0 && content@[n - 1] == '\n' {
            assert(trimmed@ =~= content@.drop_last());
        } else {
            assert(trimmed@ =~= content@);
        }
        lemma_join_split(trimmed@, '\n');
    }
    if end == 0 {
        proof {
            assert(joined(seq![]) =~= Seq::<char>::empty());
        }
        return Vec::new();
    }
    let v = split_char_exec(trimmed.as_slice(), '\n');
    proof {
        assert forall|i: int| 0 <= i < v@.len() implies utf8_len((#[trigger] v@[i])@) <= utf8_len(
            content@,
        ) by {
            lemma_join_piece_bound(split_char(trimmed@, '\n'), seq!['\n'], i);
        }
    }
    v
}

proof fn lemma_joined_step(lines: Seq<Seq<char>>, i: int)
    requires
        0 <= i < lines.len(),
    ensures
        joined_bytes(lines.take(i + 1)) == joined_bytes(lines.take(i)) + utf8_len(lines[i]) + (
        if i == 0 {
            0int
        } else {
            1int
        }),
{
    if i == 0 {
        assert(lines.take(1) =~= seq![lines[0]]);
        assert(lines.take(0) =~= Seq::<Seq<char>>::empty());
    } else {
        assert(lines.take(i + 1) =~= lines.take(i).push(lines[i]));
        lemma_join_push(lines.take(i), lines[i], seq!['\n']);
        lemma_utf8_len_concat(joined(lines.take(i)) + seq!['\n'], lines[i]);
        lemma_utf8_len_concat(joined(lines.take(i)), seq!['\n']);
        lemma_utf8_len_newline();
    }
}

proof fn lemma_joined_back_step(lines: Seq<Seq<char>>, i: int)
    requires
        0 <= i < lines.len(),
    ensures
        joined_bytes(lines.skip(i)) == joined_bytes(lines.skip(i + 1)) + utf8_len(lines[i]) + (
        if i + 1 == lines.len() {
            0int
        } else {
            1int
        }),
{
    if i + 1 == lines.len() {
        assert(lines.skip(i) =~= seq![lines[i]]);
        assert(lines.skip(i + 1) =~= Seq::<Seq<char>>::empty());
    } else {
        assert(lines.skip(i) =~= seq![lines[i]] + lines.skip(i + 1));
        lemma_join_concat(seq![lines[i]], lines.skip(i + 1), seq!['\n']);
        lemma_utf8_len_concat(lines[i] + seq!['\n'], joined(lines.skip(i + 1)));
        lemma_utf8_len_concat(lines[i], seq!['\n']);
        lemma_utf8_len_newline();
    }
}

/// Truncate content from the head: keep the first lines that fit.
///
/// If the first line alone exceeds the byte limit, the content is empty and
/// `first_line_exceeds_limit` is set.
/// What [`truncate_head`] promises of its result. `truncated_by` names the
/// limit that was hit: `lines` only when the line limit stopped it.
pub open spec fn head_truncation(
    r: TruncationResult,
    content: Seq<char>,
    max_lines: usize,
    max_bytes: usize,
) -> bool {
    &&& reports_input(r, content, max_lines, max_bytes)
    &&& (split_lines(content).len() <= max_lines && utf8_len(content) <= max_bytes) <==> !r.truncated
    &&& !r.truncated ==> untouched(r, content)
    &&& r.truncated ==> ({
        let lines = split_lines(content);
        let k = r.output_lines as int;
        let by_bytes = k < lines.len() && joined_bytes(lines.take(k + 1)) > max_bytes;
        &&& r.first_line_exceeds_limit == (lines.len() > 0 && utf8_len(lines[0]) > max_bytes)
        &&& 0 <= k <= lines.len()
        &&& r.content@ == joined(lines.take(k))
        &&& k <= max_lines
        &&& joined_bytes(lines.take(k)) <= max_bytes
        &&& (k < lines.len() ==> k == max_lines || by_bytes)
        &&& r.truncated_by@ == (if by_bytes || k == lines.len() {
            "bytes"@
        } else {
            "lines"@
        })
    })
}

pub fn truncate_head(content: &str, max_lines: usize, max_bytes: usize) -> (r: TruncationResult)
    ensures
        head_truncation(r, content@, max_lines, max_bytes),
{
    let chars = chars_of(content);
    let total_bytes = utf8_len_of(chars.as_slice());
    let lines = split_lines_exec(chars.as_slice());
    let ghost ls = split_lines(content@);
    let total_lines = lines.len();
    if total_lines <= max_lines && total_bytes <= max_bytes {
        let out = string_from_chars(chars.as_slice());
        return TruncationResult {
            content: out,
            truncated: false,
            truncated_by: "",
            total_lines,
            total_bytes,
            output_lines: total_lines,
            output_bytes: total_bytes,
            first_line_exceeds_limit: false,
            max_lines,
            max_bytes,
        };
    }
    if total_lines > 0 {
        let first_line_bytes = utf8_len_of(lines[0].as_slice());
        if first_line_bytes > max_bytes {
            proof {
                assert(ls.take(0) =~= Seq::<Seq<char>>::empty());
                lemma_joined_step(ls, 0);
            }
            let empty: Vec<char> = Vec::new();
            return TruncationResult {
                content: string_from_chars(empty.as_slice()),
                truncated: true,
                truncated_by: "bytes",
                total_lines,
                total_bytes,
                output_lines: 0,
                output_bytes: 0,
                first_line_exceeds_limit: true,
                max_lines,
                max_bytes,
            };
        }
    }
    let mut kept: Vec<Vec<char>> = Vec::new();
    let mut count: usize = 0;
    let mut by_bytes = false;
    let mut i: usize = 0;
    proof {
        assert(ls.take(0) =~= Seq::<Seq<char>>::empty());
    }
    while i < total_lines
        invariant_except_break
            0 <= i <= total_lines,
            total_lines == lines@.len() == ls.len(),
            ls == split_lines(content@),
            forall|j: int| 0 <= j < lines@.len() ==> (#[trigger] lines@[j])@ == ls[j],
            forall|j: int| 0 <= j < lines@.len() ==> utf8_len((#[trigger] lines@[j])@) <= utf8_len(
                content@,
            ),
            utf8_len(content@) <= usize::MAX,
            kept@.len() == i,
            forall|j: int| 0 <= j < i ==> (#[trigger] kept@[j])@ == ls[j],
            i <= max_lines,
            count == joined_bytes(ls.take(i as int)),
            count <= max_bytes,
            !by_bytes,
        ensures
            0 <= i <= total_lines,
            kept@.len() == i,
            forall|j: int| 0 <= j < i ==> (#[trigger] kept@[j])@ == ls[j],
            i <= max_lines,
            count == joined_bytes(ls.take(i as int)),
            count <= max_bytes,
            by_bytes == (i < total_lines && joined_bytes(ls.take(i + 1)) > max_bytes),
            i < total_lines ==> i == max_lines || by_bytes,
        decreases total_lines - i,
    {
        let len = utf8_len_of(lines[i].as_slice());
        proof {
            lemma_joined_step(ls, i as int);
        }
        let room = max_bytes - count;
        let fits = if i == 0 {
            len <= room
        } else {
            room >= 1 && len <= room - 1
        };
        if !fits {
            by_bytes = true;
            break;
        }
        if i >= max_lines {
            break;
        }
        kept.push(copy_chars(lines[i].as_slice()));
        count = if i == 0 {
            len
        } else {
            count + 1 + len
        };
        i = i + 1;
    }
    let out = join_exec(kept.as_slice(), &['\n']);
    proof {
        assert(kept@.map_values(|p: Vec<char>| p@) =~= ls.take(i as int));
        assert(seq!['\n'] =~= (&['\n'])@);
    }
    TruncationResult {
        content: string_from_chars(out.as_slice()),
        truncated: true,
        truncated_by: if by_bytes || i == total_lines {
            "bytes"
        } else {
            "lines"
        },
        total_lines,
        total_bytes,
        output_lines: i,
        output_bytes: count,
        first_line_exceeds_limit: false,
        max_lines,
        max_bytes,
    }
}

/// `r` is what truncating `content` from the tail gives: untouched when it
/// fits; otherwise the last lines that fit both limits, cut by the line
/// limit or at the first line (from the end) that would pass the byte
/// limit. `truncated_by` names the limit that was hit: `lines` only when
/// the line limit stopped it, `bytes` otherwise.
pub open spec fn tail_truncation(r: TruncationResult, content: Seq<char>, max_lines: usize, max_bytes: usize) -> bool {
    &&& reports_input(r, content, max_lines, max_bytes)
    &&& ((split_lines(content).len() <= max_lines && utf8_len(content) <= max_bytes) <==> !r.truncated)
    &&& (!r.truncated ==> untouched(r, content))
    &&& (r.truncated ==> ({
        let lines = split_lines(content);
        let n = lines.len() as int;
        let k = r.output_lines as int;
        let by_bytes = k < n && joined_bytes(lines.skip(n - k - 1)) > max_bytes;
        &&& !r.first_line_exceeds_limit
        &&& 0 <= k <= n
        &&& r.content@ == joined(lines.skip(n - k))
        &&& k <= max_lines
        &&& joined_bytes(lines.skip(n - k)) <= max_bytes
        &&& (k < n ==> k == max_lines || by_bytes)
        &&& r.truncated_by@ == (if by_bytes || k == n {
            "bytes"@
        } else {
            "lines"@
        })
    }))
}

/// Truncate content from the tail: keep the last lines that fit.
pub fn truncate_tail(content: &str, max_lines: usize, max_bytes: usize) -> (r: TruncationResult)
    ensures
        tail_truncation(r, content@, max_lines, max_bytes),
{
    let chars = chars_of(content);
    let total_bytes = utf8_len_of(chars.as_slice());
    let lines = split_lines_exec(chars.as_slice());
    let ghost ls = split_lines(content@);
    let total_lines = lines.len();
    if total_lines <= max_lines && total_bytes <= max_bytes {
        let out = string_from_chars(chars.as_slice());
        return TruncationResult {
            content: out,
            truncated: false,
            truncated_by: "",
            total_lines,
            total_bytes,
            output_lines: total_lines,
            output_bytes: total_bytes,
            first_line_exceeds_limit: false,
            max_lines,
            max_bytes,
        };
    }
    let mut count: usize = 0;
    let mut by_bytes = false;
    let mut k: usize = 0;
    proof {
        assert(ls.skip(ls.len() as int) =~= Seq::<Seq<char>>::empty());
    }
    while k < total_lines
        invariant_except_break
            0 <= k <= total_lines,
            total_lines == lines@.len() == ls.len(),
            ls == split_lines(content@),
            forall|j: int| 0 <= j < lines@.len() ==> (#[trigger] lines@[j])@ == ls[j],
            forall|j: int| 0 <= j < lines@.len() ==> utf8_len((#[trigger] lines@[j])@) <= utf8_len(
                content@,
            ),
            utf8_len(content@) <= usize::MAX,
            k <= max_lines,
            count == joined_bytes(ls.skip(total_lines - k)),
            count <= max_bytes,
            !by_bytes,
        ensures
            0 <= k <= total_lines,
            k <= max_lines,
            count == joined_bytes(ls.skip(total_lines - k)),
            count <= max_bytes,
            by_bytes == (k < total_lines && joined_bytes(ls.skip(total_lines - k - 1)) > max_bytes),
            k < total_lines ==> k == max_lines || by_bytes,
        decreases total_lines - k,
    {
        let idx = total_lines - k - 1;
        let len = utf8_len_of(lines[idx].as_slice());
        proof {
            lemma_joined_back_step(ls, idx as int);
        }
        let room = max_bytes - count;
        let fits = if k == 0 {
            len <= room
        } else {
            room >= 1 && len <= room - 1
        };
        if !fits {
            by_bytes = true;
            break;
        }
        if k >= max_lines {
            break;
        }
        count = if k == 0 {
            len
        } else {
            count + 1 + len
        };
        k = k + 1;
    }
    let start = total_lines - k;
    let mut kept: Vec<Vec<char>> = Vec::new();
    let mut j = start;
    while j < total_lines
        invariant
            start <= j <= total_lines,
            total_lines == lines@.len() == ls.len(),
            forall|m: int| 0 <= m < lines@.len() ==> (#[trigger] lines@[m])@ == ls[m],
            kept@.len() == j - start,
            forall|m: int| 0 <= m < j - start ==> (#[trigger] kept@[m])@ == ls[start + m],
        decreases total_lines - j,
    {
        kept.push(copy_chars(lines[j].as_slice()));
        j = j + 1;
    }
    let out = join_exec(kept.as_slice(), &['\n']);
    proof {
        assert(kept@.map_values(|p: Vec<char>| p@) =~= ls.skip(start as int));
        assert(seq!['\n'] =~= (&['\n'])@);
    }
    TruncationResult {
        content: string_from_chars(out.as_slice()),
        truncated: true,
        truncated_by: if by_bytes || k == total_lines {
            "bytes"
        } else {
            "lines"
        },
        total_lines,
        total_bytes,
        output_lines: k,
        output_bytes: count,
        first_line_exceeds_limit: false,
        max_lines,
        max_bytes,
    }
}

} // verus!
