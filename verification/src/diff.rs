//! Line diffs of an edit for display: a numbered listing of the changed
//! lines and a unified patch. The diff itself comes from `similar`; this
//! module lays it out.

use vstd::prelude::*;

use similar::{ChangeTag, TextDiff};

use crate::text::{
    append, append_decimal, append_str, chars_of, decimal, join, join_exec, split_char,
    split_char_exec, string_from_chars, trim_end, trim_end_chars,
};

verus! {

/// One line of a line diff: whether it is kept (`0`), removed (`1`) or
/// added (`2`), its index among the old and the new lines, and its text.
#[derive(Debug, Clone, PartialEq, Eq)]
pub struct LineChange {
    pub tag: u8,
    pub old_index: Option<usize>,
    pub new_index: Option<usize>,
    pub value: String,
}

pub open spec fn change_view(c: LineChange) -> (u8, Option<usize>, Option<usize>, Seq<char>) {
    (c.tag, c.old_index, c.new_index, c.value@)
}

pub open spec fn changes_view(cs: Seq<LineChange>) -> Seq<(u8, Option<usize>, Option<usize>, Seq<char>)> {
    cs.map_values(|c: LineChange| change_view(c))
}

/// The changes, line by line, of the line diff of `old` into `new` as
/// `similar` computes it (`TextDiff::from_lines`, then
/// `iter_all_changes`).
pub uninterp spec fn line_diff(old: Seq<char>, new: Seq<char>) -> Seq<
    (u8, Option<usize>, Option<usize>, Seq<char>),
>;

/// `TextDiff::from_lines(old, new).iter_all_changes()` of `similar`, each
/// change copied into a [`LineChange`]. The contract names the result
/// `line_diff(old, new)` and states that every index is that of a line,
/// below `isize::MAX`; what the diff is, is not stated.
#[verifier::external_body]
fn diff_line_changes(old: &str, new: &str) -> (r: Vec<LineChange>)
    ensures
        changes_view(r@) == line_diff(old@, new@),
        forall|i: int|
            0 <= i < r@.len() ==> ((#[trigger] r@[i]).old_index matches Some(k) ==> k < isize::MAX)
                && (r@[i].new_index matches Some(k) ==> k < isize::MAX),
{
    let diff = TextDiff::from_lines(old, new);
    let mut out = Vec::new();
    for change in diff.iter_all_changes() {
        let tag = match change.tag() {
            ChangeTag::Equal => 0u8,
            ChangeTag::Delete => 1u8,
            ChangeTag::Insert => 2u8,
        };
        out.push(LineChange { tag, old_index: change.old_index(), new_index: change.new_index(), value: change.value().to_string() });
    }
    out
}

/// `s` padded with spaces on the left to at least `width` characters.
pub open spec fn pad_left(s: Seq<char>, width: nat) -> Seq<char> {
    if s.len() >= width {
        s
    } else {
        Seq::new((width - s.len()) as nat, |_i: int| ' ') + s
    }
}

/// The listing line of one change, if it has one: a kept line under its
/// old number, a removed line under its old number, an added line under
/// its new number; numbers right-aligned to `width`, text without trailing
/// whitespace.
pub open spec fn listing_line(
    c: (u8, Option<usize>, Option<usize>, Seq<char>),
    width: nat,
) -> Option<Seq<char>> {
    let line_num: nat = match c.1 {
        Some(i) => (i + 1) as nat,
        None => match c.2 {
            Some(j) => (j + 1) as nat,
            None => 0,
        },
    };
    if c.0 == 0 {
        match c.1 {
            Some(_i) => Some(" "@ + pad_left(decimal(line_num), width) + " "@ + trim_end(c.3)),
            None => None,
        }
    } else if c.0 == 1 {
        match c.1 {
            Some(i) => Some("-"@ + pad_left(decimal((i + 1) as nat), width) + " "@ + trim_end(c.3)),
            None => None,
        }
    } else {
        match c.2 {
            Some(j) => Some("+"@ + pad_left(decimal((j + 1) as nat), width) + " "@ + trim_end(c.3)),
            None => None,
        }
    }
}

pub open spec fn listing_lines(cs: Seq<(u8, Option<usize>, Option<usize>, Seq<char>)>, width: nat) -> Seq<
    Seq<char>,
>
    decreases cs.len(),
{
    if cs.len() == 0 {
        seq![]
    } else {
        let prev = listing_lines(cs.drop_last(), width);
        match listing_line(cs.last(), width) {
            Some(l) => prev.push(l),
            None => prev,
        }
    }
}

/// The new line number of the first added line.
pub open spec fn first_added(cs: Seq<(u8, Option<usize>, Option<usize>, Seq<char>)>) -> Option<nat>
    decreases cs.len(),
{
    if cs.len() == 0 {
        None
    } else {
        match first_added(cs.drop_last()) {
            Some(n) => Some(n),
            None => if cs.last().0 != 0 && cs.last().0 != 1 && cs.last().2 is Some {
                Some((cs.last().2.unwrap() + 1) as nat)
            } else {
                None
            },
        }
    }
}

/// Width of the line numbers: the digits of the larger line count of the
/// two texts (lines split at `\n`).
pub open spec fn number_width(old: Seq<char>, new: Seq<char>) -> nat {
    let a = split_char(old, '\n').len();
    let b = split_char(new, '\n').len();
    decimal(if a >= b { a } else { b }).len()
}

fn append_padded_number(out: &mut Vec<char>, n: u64, width: usize)
    ensures
        final(out)@ == old(out)@ + pad_left(decimal(n as nat), width as nat),
{
    let d = crate::text::decimal_chars(n);
    let ghost start = out@;
    if d.len() < width {
        let mut k: usize = d.len();
        while k < width
            invariant
                d@.len() <= k <= width,
                out@ == start + Seq::new((k - d@.len()) as nat, |_i: int| ' '),
            decreases width - k,
        {
            out.push(' ');
            assert(out@ =~= start + Seq::new((k + 1 - d@.len()) as nat, |_i: int| ' '));
            k = k + 1;
        }
    }
    append(out, d.as_slice());
    assert(out@ =~= start + pad_left(decimal(n as nat), width as nat));
}

/// The numbered listing of a list of changes (see [`listing_line`]), lines
/// joined with `\n`, and the new line number of the first added line.
pub fn format_diff_listing(changes: &[LineChange], width: usize) -> (r: (String, Option<usize>))
    requires
        forall|i: int|
            0 <= i < changes@.len() ==> ((#[trigger] changes@[i]).old_index matches Some(k) ==> k
                < isize::MAX) && (changes@[i].new_index matches Some(k) ==> k < isize::MAX),
    ensures
        r.0@ == join(listing_lines(changes_view(changes@), width as nat), seq!['\n']),
        match first_added(changes_view(changes@)) {
            Some(n) => r.1 == Some(n as usize),
            None => r.1 is None,
        },
{
    let ghost cv = changes_view(changes@);
    let mut lines: Vec<Vec<char>> = Vec::new();
    let mut first: Option<usize> = None;
    let mut i: usize = 0;
    while i < changes.len()
        invariant
            i <= changes@.len(),
            cv == changes_view(changes@),
            forall|k: int|
                0 <= k < changes@.len() ==> ((#[trigger] changes@[k]).old_index matches Some(x) ==> x
                    < isize::MAX) && (changes@[k].new_index matches Some(x) ==> x < isize::MAX),
            lines@.map_values(|p: Vec<char>| p@) == listing_lines(cv.take(i as int), width as nat),
            match first_added(cv.take(i as int)) {
                Some(n) => first == Some(n as usize),
                None => first is None,
            },
        decreases changes@.len() - i,
    {
        let c = &changes[i];
        assert(cv.take(i + 1).drop_last() =~= cv.take(i as int));
        assert(cv.take(i + 1).last() == change_view(*c));
        let ghost before = lines@.map_values(|p: Vec<char>| p@);
        let value = trim_end_chars(chars_of(c.value.as_str()).as_slice());
        let line_num: usize = match c.old_index {
            Some(k) => k + 1,
            None => match c.new_index {
                Some(j) => j + 1,
                None => 0,
            },
        };
        let mut pushed = false;
        let mut line: Vec<char> = Vec::new();
        if c.tag == 0 {
            if c.old_index.is_some() {
                append_str(&mut line, " ");
                append_padded_number(&mut line, line_num as u64, width);
                append_str(&mut line, " ");
                append(&mut line, value.as_slice());
                pushed = true;
            }
        } else if c.tag == 1 {
            if let Some(k) = c.old_index {
                append_str(&mut line, "-");
                append_padded_number(&mut line, (k + 1) as u64, width);
                append_str(&mut line, " ");
                append(&mut line, value.as_slice());
                pushed = true;
            }
        } else {
            if let Some(j) = c.new_index {
                if first.is_none() {
                    first = Some(j + 1);
                }
                append_str(&mut line, "+");
                append_padded_number(&mut line, (j + 1) as u64, width);
                append_str(&mut line, " ");
                append(&mut line, value.as_slice());
                pushed = true;
            }
        }
        proof {
            match listing_line(change_view(*c), width as nat) {
                Some(l) => {
                    assert(pushed);
                    assert(line@ =~= l);
                },
                None => {
                    assert(!pushed);
                },
            }
        }
        if pushed {
            lines.push(line);
            assert(lines@.map_values(|p: Vec<char>| p@) =~= before.push(
                listing_line(change_view(*c), width as nat).unwrap(),
            ));
        }
        i = i + 1;
    }
    assert(cv.take(changes@.len() as int) =~= cv);
    let nl = vec!['\n'];
    assert(nl@ =~= seq!['\n']);
    let text = join_exec(lines.as_slice(), nl.as_slice());
    (string_from_chars(text.as_slice()), first)
}

/// A display-oriented diff with line numbers: the numbered listing of the
/// line diff of `old_content` into `new_content`, and the new line number
/// of the first added line.
pub fn generate_diff_string(old_content: &str, new_content: &str) -> (r: (String, Option<usize>))
    ensures
        r.0@ == join(
            listing_lines(line_diff(old_content@, new_content@), number_width(old_content@, new_content@)),
            seq!['\n'],
        ),
        match first_added(line_diff(old_content@, new_content@)) {
            Some(n) => r.1 == Some(n as usize),
            None => r.1 is None,
        },
{
    let changes = diff_line_changes(old_content, new_content);
    let old_lines = split_char_exec(chars_of(old_content).as_slice(), '\n');
    let new_lines = split_char_exec(chars_of(new_content).as_slice(), '\n');
    let max_line = if old_lines.len() >= new_lines.len() {
        old_lines.len()
    } else {
        new_lines.len()
    };
    let width = crate::text::decimal_chars(max_line as u64).len();
    format_diff_listing(changes.as_slice(), width)
}

// ── Unified patch ───────────────────────────────────────────────────────────

/// One diff operation of a hunk: its range of old lines, its range of new
/// lines, and its changes (tag as in [`LineChange`], and text).
#[derive(Debug, Clone, PartialEq, Eq)]
pub struct PatchOp {
    pub old_start: usize,
    pub old_end: usize,
    pub new_start: usize,
    pub new_end: usize,
    pub changes: Vec<(u8, String)>,
}

pub open spec fn op_view(op: PatchOp) -> (usize, usize, usize, usize, Seq<(u8, Seq<char>)>) {
    (
        op.old_start,
        op.old_end,
        op.new_start,
        op.new_end,
        op.changes@.map_values(|c: (u8, String)| (c.0, c.1@)),
    )
}

pub open spec fn hunks_view(hs: Seq<Vec<PatchOp>>) -> Seq<
    Seq<(usize, usize, usize, usize, Seq<(u8, Seq<char>)>)>,
> {
    hs.map_values(|h: Vec<PatchOp>| h@.map_values(|op: PatchOp| op_view(op)))
}

/// The hunks of the line diff of `old` into `new` with `context` lines of
/// context, as `similar` groups them (`TextDiff::grouped_ops`), each
/// operation with its changes (`TextDiff::iter_changes`).
pub uninterp spec fn patch_hunks(old: Seq<char>, new: Seq<char>, context: usize) -> Seq<
    Seq<(usize, usize, usize, usize, Seq<(u8, Seq<char>)>)>,
>;

/// The code of a `similar` change tag: `0` kept, `1` removed, `2` added.
#[verifier::external_body]
fn tag_code(tag: ChangeTag) -> (code: u8) {
    match tag {
        ChangeTag::Equal => 0,
        ChangeTag::Delete => 1,
        ChangeTag::Insert => 2,
    }
}

#[verifier::external_type_specification]
#[verifier::external_body]
pub struct ExChangeTag(similar::ChangeTag);

/// `TextDiff::from_lines(old, new).grouped_ops(context)` of `similar`, each
/// operation with its ranges and `iter_changes`. The contract names the
/// result `patch_hunks(old, new, context)`; nothing else is stated of it.
#[verifier::external_body]
fn diff_hunks(old: &str, new: &str, context: usize) -> (r: Vec<Vec<PatchOp>>)
    ensures
        hunks_view(r@) == patch_hunks(old@, new@, context),
{
    let diff = TextDiff::from_lines(old, new);
    let mut hunks = Vec::new();
    for group in diff.grouped_ops(context) {
        let mut ops = Vec::new();
        for op in &group {
            let changes = diff.iter_changes(op).map(|c| (tag_code(c.tag()), c.value().to_string())).collect();
            let (o, n) = (op.old_range(), op.new_range());
            ops.push(PatchOp { old_start: o.start, old_end: o.end, new_start: n.start, new_end: n.end, changes });
        }
        hunks.push(ops);
    }
    hunks
}

/// Every hunk can be laid out: it has an operation, its numbers do not
/// overflow, and its last operation does not end before its first starts.
pub open spec fn hunks_ok(hs: Seq<Seq<(usize, usize, usize, usize, Seq<(u8, Seq<char>)>)>>) -> bool {
    forall|i: int|
        0 <= i < hs.len() ==> {
            let h = #[trigger] hs[i];
            &&& h.len() > 0
            &&& h[0].0 < usize::MAX
            &&& h[0].2 < usize::MAX
            &&& h.last().1 != h[0].1 ==> h.last().1 >= h[0].0
            &&& h.last().3 != h[0].3 ==> h.last().3 >= h[0].2
        }
}

/// Length of a range, `Range::len` (none when it runs backwards).
pub open spec fn range_len(start: usize, end: usize) -> nat {
    if end >= start {
        (end - start) as nat
    } else {
        0
    }
}

pub open spec fn sign(tag: u8) -> Seq<char> {
    if tag == 0 {
        " "@
    } else if tag == 1 {
        "-"@
    } else {
        "+"@
    }
}

pub open spec fn change_lines(cs: Seq<(u8, Seq<char>)>) -> Seq<char>
    decreases cs.len(),
{
    if cs.len() == 0 {
        seq![]
    } else {
        change_lines(cs.drop_last()) + sign(cs.last().0) + trim_end(cs.last().1) + "\n"@
    }
}

pub open spec fn ops_lines(ops: Seq<(usize, usize, usize, usize, Seq<(u8, Seq<char>)>)>) -> Seq<char>
    decreases ops.len(),
{
    if ops.len() == 0 {
        seq![]
    } else {
        ops_lines(ops.drop_last()) + change_lines(ops.last().4)
    }
}

/// Number of lines from `start` to the end of a hunk: the first
/// operation's own length when the last operation ends where it does,
/// else up to the last operation's end.
pub open spec fn span_len(start: nat, first_end: nat, last_end: nat) -> nat {
    if last_end == first_end {
        if first_end >= start {
            (first_end - start) as nat
        } else {
            0
        }
    } else {
        (last_end - start) as nat
    }
}

/// The `@@ -start,len +start,len @@` header of a hunk (starts 1-based).
pub open spec fn hunk_header(old_start: nat, old_len: nat, new_start: nat, new_len: nat) -> Seq<char> {
    "@@ -"@ + decimal(old_start) + ","@ + decimal(old_len) + " +"@ + decimal(new_start) + ","@
        + decimal(new_len) + " @@\n"@
}

/// A hunk: its header, then every change with its sign.
pub open spec fn hunk_text(h: Seq<(usize, usize, usize, usize, Seq<(u8, Seq<char>)>)>) -> Seq<char> {
    hunk_header(
        (h[0].0 + 1) as nat,
        span_len(h[0].0 as nat, h[0].1 as nat, h.last().1 as nat),
        (h[0].2 + 1) as nat,
        span_len(h[0].2 as nat, h[0].3 as nat, h.last().3 as nat),
    ) + ops_lines(h)
}

pub open spec fn hunks_text(hs: Seq<Seq<(usize, usize, usize, usize, Seq<(u8, Seq<char>)>)>>) -> Seq<
    char,
>
    decreases hs.len(),
{
    if hs.len() == 0 {
        seq![]
    } else {
        hunks_text(hs.drop_last()) + hunk_text(hs.last())
    }
}

/// A unified patch of `path` with the given hunks.
pub open spec fn patch_text(
    path: Seq<char>,
    hs: Seq<Seq<(usize, usize, usize, usize, Seq<(u8, Seq<char>)>)>>,
) -> Seq<char> {
    "--- "@ + path + "\n+++ "@ + path + "\n"@ + hunks_text(hs)
}

fn append_changes(out: &mut Vec<char>, cs: &Vec<(u8, String)>)
    ensures
        final(out)@ == old(out)@ + change_lines(cs@.map_values(|c: (u8, String)| (c.0, c.1@))),
{
    let ghost cv = cs@.map_values(|c: (u8, String)| (c.0, c.1@));
    let ghost start = out@;
    let mut i: usize = 0;
    while i < cs.len()
        invariant
            i <= cs@.len(),
            cv == cs@.map_values(|c: (u8, String)| (c.0, c.1@)),
            out@ == start + change_lines(cv.take(i as int)),
        decreases cs@.len() - i,
    {
        assert(cv.take(i + 1).drop_last() =~= cv.take(i as int));
        let tag = cs[i].0;
        if tag == 0 {
            append_str(out, " ");
        } else if tag == 1 {
            append_str(out, "-");
        } else {
            append_str(out, "+");
        }
        let v = trim_end_chars(chars_of(cs[i].1.as_str()).as_slice());
        append(out, v.as_slice());
        append_str(out, "\n");
        i = i + 1;
        assert(out@ =~= start + change_lines(cv.take(i as int)));
    }
    assert(cv.take(cs@.len() as int) =~= cv);
}

fn span_len_exec(start: usize, first_end: usize, last_end: usize) -> (r: usize)
    requires
        last_end != first_end ==> last_end >= start,
    ensures
        r == span_len(start as nat, first_end as nat, last_end as nat),
{
    if last_end == first_end {
        if first_end >= start {
            first_end - start
        } else {
            0
        }
    } else {
        last_end - start
    }
}

fn append_hunk_header(out: &mut Vec<char>, a: u64, b: u64, c: u64, d: u64)
    ensures
        final(out)@ == old(out)@ + hunk_header(a as nat, b as nat, c as nat, d as nat),
{
    let ghost start = out@;
    append_str(out, "@@ -");
    append_decimal(out, a);
    append_str(out, ",");
    append_decimal(out, b);
    append_str(out, " +");
    append_decimal(out, c);
    append_str(out, ",");
    append_decimal(out, d);
    append_str(out, " @@\n");
    assert(out@ =~= start + hunk_header(a as nat, b as nat, c as nat, d as nat));
}

fn append_hunk(out: &mut Vec<char>, h: &Vec<PatchOp>)
    requires
        h@.len() > 0,
        h@[0].old_start < usize::MAX,
        h@[0].new_start < usize::MAX,
        h@.last().old_end != h@[0].old_end ==> h@.last().old_end >= h@[0].old_start,
        h@.last().new_end != h@[0].new_end ==> h@.last().new_end >= h@[0].new_start,
    ensures
        final(out)@ == old(out)@ + hunk_text(h@.map_values(|op: PatchOp| op_view(op))),
{
    let ghost hv = h@.map_values(|op: PatchOp| op_view(op));
    let ghost start = out@;
    let first = &h[0];
    let last = &h[h.len() - 1];
    let ol = span_len_exec(first.old_start, first.old_end, last.old_end);
    let nl = span_len_exec(first.new_start, first.new_end, last.new_end);
    append_hunk_header(out, (first.old_start + 1) as u64, ol as u64, (first.new_start + 1) as u64, nl as u64);
    let ghost head = out@;
    let mut k: usize = 0;
    while k < h.len()
        invariant
            k <= h@.len(),
            hv == h@.map_values(|op: PatchOp| op_view(op)),
            out@ == head + ops_lines(hv.take(k as int)),
        decreases h@.len() - k,
    {
        assert(hv.take(k + 1).drop_last() =~= hv.take(k as int));
        append_changes(out, &h[k].changes);
        k = k + 1;
        assert(out@ =~= head + ops_lines(hv.take(k as int)));
    }
    assert(hv.take(h@.len() as int) =~= hv);
    assert(hv.last() == op_view(h@.last()));
    assert(hv[0] == op_view(h@[0]));
    assert(out@ =~= start + hunk_text(hv));
}

/// Lay out a unified patch of `path` from its hunks.
pub fn format_unified_patch(path: &str, hunks: &Vec<Vec<PatchOp>>) -> (r: String)
    requires
        hunks_ok(hunks_view(hunks@)),
    ensures
        r@ == patch_text(path@, hunks_view(hunks@)),
{
    let ghost hv = hunks_view(hunks@);
    let mut out: Vec<char> = Vec::new();
    append_str(&mut out, "--- ");
    append_str(&mut out, path);
    append_str(&mut out, "\n+++ ");
    append_str(&mut out, path);
    append_str(&mut out, "\n");
    let ghost head = out@;
    let mut i: usize = 0;
    while i < hunks.len()
        invariant
            i <= hunks@.len(),
            hv == hunks_view(hunks@),
            hunks_ok(hv),
            out@ == head + hunks_text(hv.take(i as int)),
        decreases hunks@.len() - i,
    {
        assert(hv.take(i + 1).drop_last() =~= hv.take(i as int));
        assert(hv[i as int] == hunks@[i as int]@.map_values(|op: PatchOp| op_view(op)));
        let h = &hunks[i];
        assert(hv[i as int].len() > 0);
        assert(h@[0] == h@[0]);
        assert(op_view(h@[0]) == hv[i as int][0]);
        assert(op_view(h@.last()) == hv[i as int].last());
        append_hunk(&mut out, h);
        i = i + 1;
        assert(out@ =~= head + hunks_text(hv.take(i as int)));
    }
    assert(hv.take(hunks@.len() as int) =~= hv);
    string_from_chars(out.as_slice())
}

fn check_hunks(hunks: &Vec<Vec<PatchOp>>) -> (ok: bool)
    ensures
        ok == hunks_ok(hunks_view(hunks@)),
{
    let ghost hv = hunks_view(hunks@);
    let mut i: usize = 0;
    while i < hunks.len()
        invariant
            i <= hunks@.len(),
            hv == hunks_view(hunks@),
            forall|j: int|
                0 <= j < i ==> {
                    let h = #[trigger] hv[j];
                    &&& h.len() > 0
                    &&& h[0].0 < usize::MAX
                    &&& h[0].2 < usize::MAX
                    &&& h.last().1 != h[0].1 ==> h.last().1 >= h[0].0
                    &&& h.last().3 != h[0].3 ==> h.last().3 >= h[0].2
                },
        decreases hunks@.len() - i,
    {
        let h = &hunks[i];
        assert(hv[i as int] == h@.map_values(|op: PatchOp| op_view(op)));
        if h.len() == 0 {
            return false;
        }
        let first = &h[0];
        let last = &h[h.len() - 1];
        assert(op_view(*first) == hv[i as int][0]);
        assert(op_view(*last) == hv[i as int].last());
        if first.old_start == usize::MAX || first.new_start == usize::MAX {
            return false;
        }
        if last.old_end != first.old_end && last.old_end < first.old_start {
            return false;
        }
        if last.new_end != first.new_end && last.new_end < first.new_start {
            return false;
        }
        i = i + 1;
    }
    true
}

/// A unified patch of the line diff of `old_content` into `new_content`
/// with 4 lines of context. `None` only where the hunks `similar` returned
/// could not be laid out (see [`hunks_ok`]).
pub fn generate_unified_patch(path: &str, old_content: &str, new_content: &str) -> (r: Option<String>)
    ensures
        hunks_ok(patch_hunks(old_content@, new_content@, 4)) <==> r is Some,
        r matches Some(s) ==> s@ == patch_text(path@, patch_hunks(old_content@, new_content@, 4)),
{
    let hunks = diff_hunks(old_content, new_content, 4);
    if check_hunks(&hunks) {
        Some(format_unified_patch(path, &hunks))
    } else {
        None
    }
}

} // verus!
