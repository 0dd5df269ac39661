//! Terminal UI state: the multiline prompt editor and the prompt history.
//!
//! The editor keeps its cursor as a byte offset into the text, always on a
//! character boundary. Its operations are specified on the text's
//! characters: [`InputState::cursor`] is the number of characters before
//! the cursor.

use vstd::prelude::*;
use crate::text::{
    char_is_whitespace, char_utf8_len, chars_of, is_ws, lemma_utf8_len_at_least_len,
    lemma_utf8_len_concat, lemma_utf8_len_push, lemma_utf8_len_subrange, str_byte_len,
    string_from_chars, sub_chars, trim, trim_chars, utf8_len, utf8_len_of, utf8_width,
};

verus! {

// ── Character widths ────────────────────────────────────────────────────────

/// What `UnicodeWidthChar::width` reports for a character.
pub uninterp spec fn unicode_width(c: char) -> Option<usize>;

/// `unicode_width::UnicodeWidthChar::width`: printable ASCII is one column,
/// control characters have no width (`None`), and other widths come from
/// the crate's tables, as a `u8`. Beyond that the result is named, not
/// stated.
#[verifier::external_body]
fn display_width(c: char) -> (r: Option<usize>)
    ensures
        r == unicode_width(c),
        ' ' <= c <= '~' ==> r == Some(1usize),
        (c < ' ' || ('\u{7f}' <= c && c < '\u{a0}')) ==> r is None,
        r matches Some(w) ==> w <= 3,
{
    unicode_width::UnicodeWidthChar::width(c)
}

/// Columns a character takes in the editor: its display width, and at
/// least one.
pub open spec fn char_columns(c: char) -> nat {
    match unicode_width(c) {
        Some(w) => if w == 0 {
            1
        } else {
            w as nat
        },
        None => 1,
    }
}

pub(crate) fn char_columns_exec(c: char) -> (n: usize)
    ensures
        n == char_columns(c),
        1 <= n <= 3,
{
    match display_width(c) {
        Some(w) => if w == 0 {
            1
        } else {
            w
        },
        None => 1,
    }
}

/// Columns taken by a run of characters.
pub open spec fn columns(s: Seq<char>) -> nat
    decreases s.len(),
{
    if s.len() == 0 {
        0
    } else {
        columns(s.drop_last()) + char_columns(s.last())
    }
}

// ── Positions in the text ───────────────────────────────────────────────────

/// The cursor sits before character `k` of `s`, at byte offset `byte`.
pub open spec fn cursor_at(s: Seq<char>, byte: int, k: int) -> bool {
    0 <= k <= s.len() && utf8_len(s.take(k)) == byte
}

/// Start of the line holding position `k`: just after the last line feed
/// before it.
pub open spec fn line_start_of(s: Seq<char>, k: int) -> int
    decreases k,
{
    if k <= 0 || k > s.len() {
        0
    } else if s[k - 1] == '\n' {
        k
    } else {
        line_start_of(s, k - 1)
    }
}

/// End of the line holding position `k`: the next line feed, or the end.
pub open spec fn line_end_of(s: Seq<char>, k: int) -> int
    decreases s.len() - k,
{
    if k < 0 || k >= s.len() {
        s.len() as int
    } else if s[k] == '\n' {
        k
    } else {
        line_end_of(s, k + 1)
    }
}

/// Number of line feeds among the first `k` characters.
pub open spec fn line_feeds(s: Seq<char>, k: int) -> nat
    decreases k,
{
    if k <= 0 || k > s.len() {
        0
    } else {
        line_feeds(s, k - 1) + if s[k - 1] == '\n' {
            1nat
        } else {
            0nat
        }
    }
}

/// Start of line number `n` (counting from zero), if the text has it.
pub open spec fn nth_line_start(s: Seq<char>, n: nat) -> Option<int>
    decreases n,
{
    if n == 0 {
        Some(0)
    } else {
        match nth_line_start(s, (n - 1) as nat) {
            Some(start) => {
                let end = line_end_of(s, start);
                if end < s.len() {
                    Some(end + 1)
                } else {
                    None
                }
            },
            None => None,
        }
    }
}

/// How many leading characters of `s` fit in `budget` columns, taking
/// characters while they fit.
pub open spec fn fitting(s: Seq<char>, budget: nat) -> nat
    decreases s.len(),
{
    if s.len() == 0 || char_columns(s[0]) > budget {
        0
    } else {
        1 + fitting(s.drop_first(), (budget - char_columns(s[0])) as nat)
    }
}

/// Start of the word before position `k`: whitespace right before the
/// cursor is passed over, then the word before it.
pub open spec fn skip_ws_back(s: Seq<char>, k: int) -> int
    decreases k,
{
    if k <= 0 || k > s.len() {
        if k > s.len() {
            s.len() as int
        } else {
            0
        }
    } else if is_ws(s[k - 1]) {
        skip_ws_back(s, k - 1)
    } else {
        k
    }
}

pub open spec fn skip_word_back(s: Seq<char>, k: int) -> int
    decreases k,
{
    if k <= 0 || k > s.len() {
        if k > s.len() {
            s.len() as int
        } else {
            0
        }
    } else if !is_ws(s[k - 1]) {
        skip_word_back(s, k - 1)
    } else {
        k
    }
}

pub open spec fn word_start(s: Seq<char>, k: int) -> int {
    skip_word_back(s, skip_ws_back(s, k))
}

/// `s` with the characters from `a` to `b` removed.
pub open spec fn cut(s: Seq<char>, a: int, b: int) -> Seq<char> {
    s.take(a) + s.skip(b)
}

/// Where the character at each step lands on screen when the text is
/// wrapped at `width` columns: a line feed starts a new line; a character
/// that does not fit on a started line moves to the next; a full line
/// moves the cursor to the next line.
pub open spec fn visual_step(pos: (nat, nat), c: char, width: nat) -> (nat, nat) {
    let (line, column) = pos;
    if c == '\n' {
        (line + 1, 0)
    } else {
        let w = char_columns(c);
        let (line, column) = if column > 0 && column + w > width {
            (line + 1, 0nat)
        } else {
            (line, column)
        };
        let column = column + w;
        if column >= width {
            (line + 1, 0)
        } else {
            (line, column)
        }
    }
}

/// Screen line and column after the characters of `s`.
pub open spec fn visual_position(s: Seq<char>, width: nat) -> (nat, nat)
    decreases s.len(),
{
    if s.len() == 0 {
        (0, 0)
    } else {
        visual_step(visual_position(s.drop_last(), width), s.last(), width)
    }
}

pub proof fn lemma_utf8_prefix_strict(s: Seq<char>, i: int, j: int)
    requires
        0 <= i < j <= s.len(),
    ensures
        utf8_len(s.take(i)) < utf8_len(s.take(j)),
{
    assert(s.take(j) =~= s.take(i) + s.subrange(i, j));
    lemma_utf8_len_concat(s.take(i), s.subrange(i, j));
    lemma_utf8_len_at_least_len(s.subrange(i, j));
}

pub proof fn lemma_cursor_unique(s: Seq<char>, byte: int, a: int, b: int)
    requires
        cursor_at(s, byte, a),
        cursor_at(s, byte, b),
    ensures
        a == b,
{
    if a < b {
        lemma_utf8_prefix_strict(s, a, b);
    }
    if b < a {
        lemma_utf8_prefix_strict(s, b, a);
    }
}

} // verus!

verus! {

// ── Scans over characters ───────────────────────────────────────────────────

fn line_start_exec(v: &[char], k: usize) -> (r: usize)
    requires
        k <= v@.len(),
    ensures
        r == line_start_of(v@, k as int),
        r <= k,
{
    let mut i = k;
    while i > 0 && v[i - 1] != '\n'
        invariant
            i <= k <= v@.len(),
            line_start_of(v@, k as int) == line_start_of(v@, i as int),
        decreases i,
    {
        i = i - 1;
    }
    i
}

fn line_end_exec(v: &[char], k: usize) -> (r: usize)
    requires
        k <= v@.len(),
    ensures
        r == line_end_of(v@, k as int),
        k <= r <= v@.len(),
{
    let mut i = k;
    while i < v.len() && v[i] != '\n'
        invariant
            k <= i <= v@.len(),
            line_end_of(v@, k as int) == line_end_of(v@, i as int),
        decreases v@.len() - i,
    {
        i = i + 1;
    }
    i
}

fn line_feeds_exec(v: &[char], k: usize) -> (r: usize)
    requires
        k <= v@.len(),
    ensures
        r == line_feeds(v@, k as int),
        r <= k,
{
    let mut i: usize = 0;
    let mut n: usize = 0;
    while i < k
        invariant
            i <= k <= v@.len(),
            n == line_feeds(v@, i as int),
            n <= i,
        decreases k - i,
    {
        if v[i] == '\n' {
            n = n + 1;
        }
        i = i + 1;
    }
    n
}

proof fn lemma_line_end_bounds(s: Seq<char>, k: int)
    requires
        0 <= k <= s.len(),
    ensures
        k <= line_end_of(s, k) <= s.len(),
        line_end_of(s, k) < s.len() ==> s[line_end_of(s, k)] == '\n',
    decreases s.len() - k,
{
    if k < s.len() && s[k] != '\n' {
        lemma_line_end_bounds(s, k + 1);
    }
}

proof fn lemma_nth_line_start_bounds(s: Seq<char>, n: nat)
    ensures
        nth_line_start(s, n) matches Some(st) ==> 0 <= st <= s.len(),
    decreases n,
{
    if n > 0 {
        lemma_nth_line_start_bounds(s, (n - 1) as nat);
        if let Some(st) = nth_line_start(s, (n - 1) as nat) {
            lemma_line_end_bounds(s, st);
        }
    }
}

proof fn lemma_no_later_line(s: Seq<char>, m: nat, n: nat)
    requires
        m <= n,
        nth_line_start(s, m) is None,
    ensures
        nth_line_start(s, n) is None,
    decreases n - m,
{
    if m < n {
        lemma_no_later_line(s, (m + 1) as nat, n);
    }
}

fn nth_line_start_exec(v: &[char], n: usize) -> (r: Option<usize>)
    ensures
        match nth_line_start(v@, n as nat) {
            Some(st) => r == Some(st as usize) && st <= v@.len(),
            None => r is None,
        },
{
    let mut j: usize = 0;
    let mut start: usize = 0;
    while j < n
        invariant
            j <= n,
            start <= v@.len(),
            nth_line_start(v@, j as nat) == Some(start as int),
        decreases n - j,
    {
        let end = line_end_exec(v, start);
        proof {
            lemma_line_end_bounds(v@, start as int);
        }
        if end >= v.len() {
            proof {
                assert(nth_line_start(v@, (j + 1) as nat) is None);
                lemma_no_later_line(v@, (j + 1) as nat, n as nat);
            }
            return None;
        }
        start = end + 1;
        j = j + 1;
    }
    Some(start)
}

/// Columns of `v[a..b]`.
fn columns_exec(v: &[char], a: usize, b: usize) -> (r: usize)
    requires
        a <= b <= v@.len(),
        3 * v@.len() <= usize::MAX,
    ensures
        r == columns(v@.subrange(a as int, b as int)),
        r <= 3 * (b - a),
{
    let mut i = a;
    let mut c: usize = 0;
    assert(v@.subrange(a as int, a as int) =~= Seq::<char>::empty());
    while i < b
        invariant
            a <= i <= b <= v@.len(),
            3 * v@.len() <= usize::MAX,
            c == columns(v@.subrange(a as int, i as int)),
            c <= 3 * (i - a),
        decreases b - i,
    {
        let w = char_columns_exec(v[i]);
        assert(v@.subrange(a as int, i + 1).drop_last() =~= v@.subrange(a as int, i as int));
        c = c + w;
        i = i + 1;
    }
    c
}

/// How many characters of `v[a..b]` fit in `budget` columns.
fn fitting_exec(v: &[char], a: usize, b: usize, budget: usize) -> (r: usize)
    requires
        a <= b <= v@.len(),
    ensures
        r == fitting(v@.subrange(a as int, b as int), budget as nat),
        r <= b - a,
{
    let mut i = a;
    let mut left = budget;
    while i < b
        invariant
            a <= i <= b <= v@.len(),
            left <= budget,
            fitting(v@.subrange(a as int, b as int), budget as nat) == (i - a) + fitting(
                v@.subrange(i as int, b as int),
                left as nat,
            ),
        decreases b - i,
    {
        let w = char_columns_exec(v[i]);
        assert(v@.subrange(i as int, b as int)[0] == v@[i as int]);
        assert(v@.subrange(i as int, b as int).drop_first() =~= v@.subrange(i + 1, b as int));
        if w > left {
            return i - a;
        }
        left = left - w;
        i = i + 1;
    }
    assert(v@.subrange(i as int, b as int) =~= Seq::<char>::empty());
    i - a
}

fn skip_ws_back_exec(v: &[char], k: usize) -> (r: usize)
    requires
        k <= v@.len(),
    ensures
        r == skip_ws_back(v@, k as int),
        r <= k,
{
    let mut i = k;
    while i > 0 && char_is_whitespace(v[i - 1])
        invariant
            i <= k <= v@.len(),
            skip_ws_back(v@, k as int) == skip_ws_back(v@, i as int),
        decreases i,
    {
        i = i - 1;
    }
    i
}

fn skip_word_back_exec(v: &[char], k: usize) -> (r: usize)
    requires
        k <= v@.len(),
    ensures
        r == skip_word_back(v@, k as int),
        r <= k,
{
    let mut i = k;
    while i > 0 && !char_is_whitespace(v[i - 1])
        invariant
            i <= k <= v@.len(),
            skip_word_back(v@, k as int) == skip_word_back(v@, i as int),
        decreases i,
    {
        i = i - 1;
    }
    i
}

/// `v` without `v[a..b]`.
fn cut_exec(v: &[char], a: usize, b: usize) -> (r: Vec<char>)
    requires
        a <= b <= v@.len(),
    ensures
        r@ == cut(v@, a as int, b as int),
{
    let mut r = sub_chars(v, 0, a);
    let rest = sub_chars(v, b, v.len());
    crate::text::append(&mut r, rest.as_slice());
    assert(r@ =~= cut(v@, a as int, b as int));
    r
}

/// Screen position after `v[..k]` at `width` columns.
fn visual_position_exec(v: &[char], k: usize, width: usize) -> (r: (usize, usize))
    requires
        k <= v@.len(),
        v@.len() <= isize::MAX,
        width >= 1,
    ensures
        r.0 == visual_position(v@.take(k as int), width as nat).0,
        r.1 == visual_position(v@.take(k as int), width as nat).1,
        r.0 <= 2 * k,
{
    let mut i: usize = 0;
    let mut line: usize = 0;
    let mut column: usize = 0;
    assert(v@.take(0) =~= Seq::<char>::empty());
    while i < k
        invariant
            i <= k <= v@.len(),
            v@.len() <= isize::MAX,
            width >= 1,
            (line as nat, column as nat) == visual_position(v@.take(i as int), width as nat),
            line <= 2 * i,
            column < width,
        decreases k - i,
    {
        let c = v[i];
        assert(v@.take(i + 1).drop_last() =~= v@.take(i as int));
        assert(v@.take(i + 1).last() == c);
        if c == '\n' {
            line = line + 1;
            column = 0;
        } else {
            let w = char_columns_exec(c);
            if column > 0 && w > width - column {
                line = line + 1;
                column = 0;
            }
            column = column + w;
            if column >= width {
                line = line + 1;
                column = 0;
            }
        }
        i = i + 1;
    }
    (line, column)
}

} // verus!

verus! {

// ── Editor model ────────────────────────────────────────────────────────────

/// The editor as the model sees it: text, cursor (characters before it),
/// remembered column and first visible line.
pub struct InputView {
    pub text: Seq<char>,
    pub cursor: int,
    pub preferred: Option<usize>,
    pub viewport: usize,
}

pub open spec fn iv_edit(v: InputView, text: Seq<char>, cursor: int, preferred: Option<usize>) -> InputView {
    InputView { text, cursor, preferred, viewport: v.viewport }
}

pub open spec fn iv_set_text(t: Seq<char>) -> InputView {
    InputView { text: t, cursor: t.len() as int, preferred: None, viewport: 0 }
}

pub open spec fn iv_insert_text(v: InputView, t: Seq<char>) -> InputView {
    if t.len() == 0 {
        v
    } else {
        iv_edit(v, v.text.take(v.cursor) + t + v.text.skip(v.cursor), v.cursor + t.len(), None)
    }
}

pub open spec fn iv_insert_char(v: InputView, c: char) -> InputView {
    iv_edit(v, v.text.take(v.cursor) + seq![c] + v.text.skip(v.cursor), v.cursor + 1, None)
}

pub open spec fn iv_left(v: InputView) -> InputView {
    iv_edit(v, v.text, if v.cursor > 0 { v.cursor - 1 } else { v.cursor }, None)
}

pub open spec fn iv_right(v: InputView) -> InputView {
    iv_edit(v, v.text, if v.cursor + 2 <= v.text.len() { v.cursor + 1 } else { v.cursor }, None)
}

pub open spec fn iv_home(v: InputView) -> InputView {
    iv_edit(v, v.text, line_start_of(v.text, v.cursor), None)
}

pub open spec fn iv_end(v: InputView) -> InputView {
    iv_edit(v, v.text, line_end_of(v.text, v.cursor), None)
}

pub open spec fn iv_vertical(v: InputView, direction: i32) -> InputView {
    let s = v.text;
    let k = v.cursor;
    let line = line_feeds(s, k);
    let target: nat = if direction < 0 {
        if line > 0 {
            (line - 1) as nat
        } else {
            0
        }
    } else {
        line + 1
    };
    let desired: nat = match v.preferred {
        Some(c) => c as nat,
        None => columns(s.subrange(line_start_of(s, k), k)),
    };
    match nth_line_start(s, target) {
        Some(start) => {
            let end = line_end_of(s, start);
            iv_edit(v, s, start + fitting(s.subrange(start, end), desired), Some(desired as usize))
        },
        None => v,
    }
}

pub open spec fn iv_delete_to_line_start(v: InputView) -> InputView {
    let st = line_start_of(v.text, v.cursor);
    iv_edit(v, cut(v.text, st, v.cursor), st, None)
}

pub open spec fn iv_delete_to_line_end(v: InputView) -> InputView {
    let e = line_end_of(v.text, v.cursor);
    iv_edit(v, cut(v.text, v.cursor, e), v.cursor, None)
}

pub open spec fn iv_delete_previous_word(v: InputView) -> InputView {
    let st = word_start(v.text, v.cursor);
    iv_edit(v, cut(v.text, st, v.cursor), st, None)
}

pub open spec fn iv_backspace(v: InputView) -> InputView {
    if v.cursor == 0 {
        v
    } else {
        iv_edit(v, cut(v.text, v.cursor - 1, v.cursor), v.cursor - 1, None)
    }
}

pub open spec fn iv_delete(v: InputView) -> InputView {
    if v.cursor + 2 > v.text.len() {
        v
    } else {
        iv_edit(v, cut(v.text, v.cursor, v.cursor + 1), v.cursor, None)
    }
}

// ── The prompt editor ───────────────────────────────────────────────────────

/// Multiline prompt editor. `cursor_byte` is a byte offset into `text` on a
/// character boundary.
#[derive(Debug, Clone, Default, PartialEq, Eq)]
pub struct InputState {
    pub text: String,
    pub cursor_byte: usize,
    pub preferred_column: Option<usize>,
    /// Vertical scroll in wrapped display lines.
    pub viewport_line: usize,
}

impl InputState {
    /// The cursor is on a character boundary of the text.
    pub open spec fn wf(&self) -> bool {
        exists|k: int| cursor_at(self.text@, self.cursor_byte as int, k)
    }

    /// Number of characters before the cursor.
    pub open spec fn cursor(&self) -> int {
        choose|k: int| cursor_at(self.text@, self.cursor_byte as int, k)
    }

    pub open spec fn iview(&self) -> InputView {
        InputView {
            text: self.text@,
            cursor: self.cursor(),
            preferred: self.preferred_column,
            viewport: self.viewport_line,
        }
    }

    /// The text and cursor position after an edit that leaves the rest of
    /// the editor as it was.
    pub open spec fn edited(&self, before: Self, text: Seq<char>, cursor: int) -> bool {
        &&& self.wf()
        &&& self.text@ == text
        &&& self.cursor() == cursor
        &&& self.viewport_line == before.viewport_line
    }

    /// The characters of the text and the cursor's character index.
    fn split_view(&self) -> (r: (Vec<char>, usize))
        requires
            self.wf(),
        ensures
            r.0@ == self.text@,
            r.1 == self.cursor(),
            r.1 <= r.0@.len(),
            utf8_len(r.0@) <= isize::MAX,
            r.0@.len() <= isize::MAX,
    {
        let v = chars_of(self.text.as_str());
        let ghost k = self.cursor();
        let mut i: usize = 0;
        let mut b: usize = 0;
        proof {
            assert(v@.take(0) =~= Seq::<char>::empty());
        }
        while b < self.cursor_byte
            invariant
                v@ == self.text@,
                cursor_at(v@, self.cursor_byte as int, k),
                utf8_len(v@) <= isize::MAX,
                0 <= i <= k,
                b == utf8_len(v@.take(i as int)),
            decreases k - i,
        {
            proof {
                if i == k {
                    assert(false);
                }
                assert(v@.take(i + 1).drop_last() =~= v@.take(i as int));
                lemma_utf8_len_subrange(v@, 0, i + 1);
                assert(v@.subrange(0, i + 1) =~= v@.take(i + 1));
            }
            b = b + utf8_width(v[i]);
            i = i + 1;
            proof {
                if i > k {
                    lemma_utf8_prefix_strict(v@, k, i as int);
                }
            }
        }
        proof {
            if i < k {
                lemma_utf8_prefix_strict(v@, i as int, k);
            }
        }
        (v, i)
    }

    /// Store `v` as the text with the cursor before character `k`, and
    /// `preferred` as the remembered column.
    fn place(&mut self, v: Vec<char>, k: usize, preferred: Option<usize>)
        requires
            k <= v@.len(),
            utf8_len(v@) <= isize::MAX,
        ensures
            final(self).edited(*old(self), v@, k as int),
            final(self).preferred_column == preferred,
    {
        let prefix = sub_chars(v.as_slice(), 0, k);
        proof {
            lemma_utf8_len_subrange(v@, 0, k as int);
            assert(prefix@ =~= v@.take(k as int));
        }
        let b = utf8_len_of(prefix.as_slice());
        self.text = string_from_chars(v.as_slice());
        self.cursor_byte = b;
        self.preferred_column = preferred;
        proof {
            assert(cursor_at(self.text@, b as int, k as int));
            let c = self.cursor();
            lemma_cursor_unique(self.text@, b as int, c, k as int);
        }
    }

    /// Replace the text; the cursor goes to its end.
    pub fn set_text(&mut self, text: String)
        ensures
            final(self).wf(),
            final(self).text@ == text@,
            final(self).cursor() == text@.len(),
            final(self).preferred_column is None,
            final(self).viewport_line == 0,
            final(self).iview() == iv_set_text(text@),
    {
        let n = str_byte_len(text.as_str());
        self.text = text;
        self.cursor_byte = n;
        self.preferred_column = None;
        self.viewport_line = 0;
        proof {
            assert(self.text@.take(self.text@.len() as int) =~= self.text@);
            assert(cursor_at(self.text@, n as int, self.text@.len() as int));
            lemma_cursor_unique(self.text@, n as int, self.cursor(), self.text@.len() as int);
        }
    }

    /// Empty the editor.
    pub fn clear(&mut self)
        ensures
            final(self).wf(),
            final(self).text@.len() == 0,
            final(self).cursor() == 0,
            final(self).preferred_column is None,
            final(self).viewport_line == 0,
            final(self).iview() == iv_set_text(Seq::empty()),
    {
        self.set_text(String::new());
    }

    /// Insert a character at the cursor and move past it.
    pub fn insert_char(&mut self, c: char)
        requires
            old(self).wf(),
            utf8_len(old(self).text@) + 4 <= isize::MAX,
        ensures
            final(self).edited(
                *old(self),
                old(self).text@.take(old(self).cursor()) + seq![c] + old(self).text@.skip(
                    old(self).cursor(),
                ),
                old(self).cursor() + 1,
            ),
            final(self).preferred_column is None,
            final(self).iview() == iv_insert_char(old(self).iview(), c),
    {
        let (mut v, k) = self.split_view();
        let ghost s = v@;
        v.insert(k, c);
        assert(v@ =~= s.take(k as int) + seq![c] + s.skip(k as int));
        proof {
            lemma_utf8_len_concat(s.take(k as int) + seq![c], s.skip(k as int));
            lemma_utf8_len_concat(s.take(k as int), seq![c]);
            lemma_utf8_len_concat(s.take(k as int), s.skip(k as int));
            assert(s =~= s.take(k as int) + s.skip(k as int));
            lemma_utf8_len_push(Seq::<char>::empty(), c);
            assert(Seq::<char>::empty().push(c) =~= seq![c]);
            assert(utf8_len(seq![c]) == char_utf8_len(c));
            assert(utf8_len(v@) == utf8_len(s) + char_utf8_len(c));
        }
        self.place(v, k + 1, None);
    }

    /// Insert text at the cursor and move past it; empty text changes
    /// nothing.
    pub fn insert_text(&mut self, text: &str)
        requires
            old(self).wf(),
            utf8_len(old(self).text@) + utf8_len(text@) <= isize::MAX,
        ensures
            text@.len() == 0 ==> *final(self) == *old(self),
            text@.len() > 0 ==> final(self).edited(
                *old(self),
                old(self).text@.take(old(self).cursor()) + text@ + old(self).text@.skip(
                    old(self).cursor(),
                ),
                old(self).cursor() + text@.len(),
            ) && final(self).preferred_column is None,
            final(self).iview() == iv_insert_text(old(self).iview(), text@),
    {
        let t = chars_of(text);
        if t.len() == 0 {
            return;
        }
        let (v, k) = self.split_view();
        let mut out = sub_chars(v.as_slice(), 0, k);
        crate::text::append(&mut out, t.as_slice());
        let rest = sub_chars(v.as_slice(), k, v.len());
        crate::text::append(&mut out, rest.as_slice());
        let ghost s = v@;
        assert(out@ =~= s.take(k as int) + text@ + s.skip(k as int));
        proof {
            lemma_utf8_len_concat(s.take(k as int) + text@, s.skip(k as int));
            lemma_utf8_len_concat(s.take(k as int), text@);
            lemma_utf8_len_concat(s.take(k as int), s.skip(k as int));
            assert(s =~= s.take(k as int) + s.skip(k as int));
            lemma_utf8_len_at_least_len(text@);
        }
        self.place(out, k + t.len(), None);
    }

    /// Move one character left, if there is one.
    pub fn move_left(&mut self)
        requires
            old(self).wf(),
        ensures
            final(self).edited(
                *old(self),
                old(self).text@,
                if old(self).cursor() > 0 {
                    old(self).cursor() - 1
                } else {
                    old(self).cursor()
                },
            ),
            final(self).preferred_column is None,
            final(self).iview() == iv_left(old(self).iview()),
    {
        let (v, k) = self.split_view();
        if k > 0 {
            self.place(v, k - 1, None);
        } else {
            self.place(v, k, None);
        }
    }

    /// Move one character right, when at least two characters follow the
    /// cursor.
    pub fn move_right(&mut self)
        requires
            old(self).wf(),
        ensures
            final(self).edited(
                *old(self),
                old(self).text@,
                if old(self).cursor() + 2 <= old(self).text@.len() {
                    old(self).cursor() + 1
                } else {
                    old(self).cursor()
                },
            ),
            final(self).preferred_column is None,
            final(self).iview() == iv_right(old(self).iview()),
    {
        let (v, k) = self.split_view();
        if k + 2 <= v.len() {
            self.place(v, k + 1, None);
        } else {
            self.place(v, k, None);
        }
    }

    /// Move to the start of the current line.
    pub fn move_home(&mut self)
        requires
            old(self).wf(),
        ensures
            final(self).edited(*old(self), old(self).text@, line_start_of(old(self).text@, old(self).cursor())),
            final(self).preferred_column is None,
            final(self).iview() == iv_home(old(self).iview()),
    {
        let (v, k) = self.split_view();
        let st = line_start_exec(v.as_slice(), k);
        self.place(v, st, None);
    }

    /// Move to the end of the current line.
    pub fn move_end(&mut self)
        requires
            old(self).wf(),
        ensures
            final(self).edited(*old(self), old(self).text@, line_end_of(old(self).text@, old(self).cursor())),
            final(self).preferred_column is None,
            final(self).iview() == iv_end(old(self).iview()),
    {
        let (v, k) = self.split_view();
        let e = line_end_exec(v.as_slice(), k);
        self.place(v, e, None);
    }

    /// Number of line feeds before the cursor.
    pub fn current_line(&self) -> (n: usize)
        requires
            self.wf(),
        ensures
            n == line_feeds(self.text@, self.cursor()),
    {
        let (v, k) = self.split_view();
        line_feeds_exec(v.as_slice(), k)
    }

    /// Move to the line above (`direction < 0`) or below, keeping the
    /// remembered column (or the current one): the cursor goes after the
    /// characters of that line that fit in it. Without such a line nothing
    /// changes.
    pub fn move_vertical(&mut self, direction: i32)
        requires
            old(self).wf(),
            3 * old(self).text@.len() <= usize::MAX,
        ensures
            ({
                let s = old(self).text@;
                let k = old(self).cursor();
                let line = line_feeds(s, k);
                let target: nat = if direction < 0 {
                    if line > 0 {
                        (line - 1) as nat
                    } else {
                        0
                    }
                } else {
                    line + 1
                };
                let desired: nat = match old(self).preferred_column {
                    Some(c) => c as nat,
                    None => columns(s.subrange(line_start_of(s, k), k)),
                };
                match nth_line_start(s, target) {
                    Some(start) => {
                        let end = line_end_of(s, start);
                        final(self).edited(*old(self), s, start + fitting(s.subrange(start, end), desired))
                            && final(self).preferred_column == Some(desired as usize)
                    },
                    None => *final(self) == *old(self),
                }
            }),
            final(self).iview() == iv_vertical(old(self).iview(), direction),
    {
        let (v, k) = self.split_view();
        let line = line_feeds_exec(v.as_slice(), k);
        let target: usize = if direction < 0 {
            if line > 0 {
                line - 1
            } else {
                0
            }
        } else {
            line + 1
        };
        proof {
            lemma_nth_line_start_bounds(v@, target as nat);
        }
        let start = match nth_line_start_exec(v.as_slice(), target) {
            Some(st) => st,
            None => {
                return;
            },
        };
        proof {
            lemma_line_end_bounds(v@, start as int);
        }
        let end = line_end_exec(v.as_slice(), start);
        let desired: usize = match self.preferred_column {
            Some(c) => c,
            None => {
                let ls = line_start_exec(v.as_slice(), k);
                columns_exec(v.as_slice(), ls, k)
            },
        };
        let n = fitting_exec(v.as_slice(), start, end, desired);
        self.place(v, start + n, Some(desired));
    }

    /// Delete from the start of the line to the cursor.
    pub fn delete_to_line_start(&mut self)
        requires
            old(self).wf(),
        ensures
            ({
                let s = old(self).text@;
                let st = line_start_of(s, old(self).cursor());
                final(self).edited(*old(self), cut(s, st, old(self).cursor()), st)
            }),
            final(self).preferred_column is None,
            final(self).iview() == iv_delete_to_line_start(old(self).iview()),
    {
        let (v, k) = self.split_view();
        let st = line_start_exec(v.as_slice(), k);
        let out = cut_exec(v.as_slice(), st, k);
        proof {
            lemma_utf8_len_concat(v@.take(st as int), v@.skip(k as int));
            lemma_utf8_len_subrange(v@, 0, st as int);
            lemma_utf8_len_subrange(v@, k as int, v@.len() as int);
            assert(v@ =~= v@.take(st as int) + v@.subrange(st as int, k as int) + v@.skip(k as int));
            lemma_utf8_len_concat(v@.take(st as int) + v@.subrange(st as int, k as int), v@.skip(k as int));
            lemma_utf8_len_concat(v@.take(st as int), v@.subrange(st as int, k as int));
        }
        self.place(out, st, None);
    }

    /// Delete from the cursor to the end of the line.
    pub fn delete_to_line_end(&mut self)
        requires
            old(self).wf(),
        ensures
            ({
                let s = old(self).text@;
                let e = line_end_of(s, old(self).cursor());
                final(self).edited(*old(self), cut(s, old(self).cursor(), e), old(self).cursor())
            }),
            final(self).preferred_column is None,
            final(self).iview() == iv_delete_to_line_end(old(self).iview()),
    {
        let (v, k) = self.split_view();
        let e = line_end_exec(v.as_slice(), k);
        let out = cut_exec(v.as_slice(), k, e);
        proof {
            assert(v@ =~= v@.take(k as int) + v@.subrange(k as int, e as int) + v@.skip(e as int));
            lemma_utf8_len_concat(v@.take(k as int) + v@.subrange(k as int, e as int), v@.skip(e as int));
            lemma_utf8_len_concat(v@.take(k as int), v@.subrange(k as int, e as int));
            lemma_utf8_len_concat(v@.take(k as int), v@.skip(e as int));
        }
        self.place(out, k, None);
    }

    /// Delete the word before the cursor, with the whitespace after it.
    pub fn delete_previous_word(&mut self)
        requires
            old(self).wf(),
        ensures
            ({
                let s = old(self).text@;
                let st = word_start(s, old(self).cursor());
                final(self).edited(*old(self), cut(s, st, old(self).cursor()), st)
            }),
            final(self).preferred_column is None,
            final(self).iview() == iv_delete_previous_word(old(self).iview()),
    {
        let (v, k) = self.split_view();
        let a = skip_ws_back_exec(v.as_slice(), k);
        let st = skip_word_back_exec(v.as_slice(), a);
        let out = cut_exec(v.as_slice(), st, k);
        proof {
            assert(v@ =~= v@.take(st as int) + v@.subrange(st as int, k as int) + v@.skip(k as int));
            lemma_utf8_len_concat(v@.take(st as int) + v@.subrange(st as int, k as int), v@.skip(k as int));
            lemma_utf8_len_concat(v@.take(st as int), v@.subrange(st as int, k as int));
            lemma_utf8_len_concat(v@.take(st as int), v@.skip(k as int));
        }
        self.place(out, st, None);
    }

    /// Delete the character before the cursor, if there is one.
    pub fn backspace(&mut self)
        requires
            old(self).wf(),
        ensures
            old(self).cursor() == 0 ==> *final(self) == *old(self),
            old(self).cursor() > 0 ==> final(self).edited(
                *old(self),
                cut(old(self).text@, old(self).cursor() - 1, old(self).cursor()),
                old(self).cursor() - 1,
            ) && final(self).preferred_column is None,
            final(self).iview() == iv_backspace(old(self).iview()),
    {
        let (v, k) = self.split_view();
        if k == 0 {
            return;
        }
        let out = cut_exec(v.as_slice(), k - 1, k);
        proof {
            assert(v@ =~= v@.take(k - 1) + v@.subrange(k - 1, k as int) + v@.skip(k as int));
            lemma_utf8_len_concat(v@.take(k - 1) + v@.subrange(k - 1, k as int), v@.skip(k as int));
            lemma_utf8_len_concat(v@.take(k - 1), v@.subrange(k - 1, k as int));
            lemma_utf8_len_concat(v@.take(k - 1), v@.skip(k as int));
        }
        self.place(out, k - 1, None);
    }

    /// Delete the character after the cursor, when at least two characters
    /// follow it.
    pub fn delete(&mut self)
        requires
            old(self).wf(),
        ensures
            old(self).cursor() + 2 > old(self).text@.len() ==> *final(self) == *old(self),
            old(self).cursor() + 2 <= old(self).text@.len() ==> final(self).edited(
                *old(self),
                cut(old(self).text@, old(self).cursor(), old(self).cursor() + 1),
                old(self).cursor(),
            ) && final(self).preferred_column is None,
            final(self).iview() == iv_delete(old(self).iview()),
    {
        let (v, k) = self.split_view();
        if k + 2 > v.len() {
            return;
        }
        let out = cut_exec(v.as_slice(), k, k + 1);
        proof {
            assert(v@ =~= v@.take(k as int) + v@.subrange(k as int, k + 1) + v@.skip(k + 1));
            lemma_utf8_len_concat(v@.take(k as int) + v@.subrange(k as int, k + 1), v@.skip(k + 1));
            lemma_utf8_len_concat(v@.take(k as int), v@.subrange(k as int, k + 1));
            lemma_utf8_len_concat(v@.take(k as int), v@.skip(k + 1));
        }
        self.place(out, k, None);
    }

    /// Screen line and column of the cursor when the text is wrapped at
    /// `width` columns (at least one).
    pub fn cursor_visual_position(&self, width: usize) -> (r: (usize, usize))
        requires
            self.wf(),
        ensures
            ({
                let w: nat = if width == 0 {
                    1
                } else {
                    width as nat
                };
                let p = visual_position(self.text@.take(self.cursor()), w);
                r.0 == p.0 && r.1 == p.1
            }),
            r.0 < usize::MAX,
    {
        let (v, k) = self.split_view();
        let w = if width == 0 {
            1
        } else {
            width
        };
        visual_position_exec(v.as_slice(), k, w)
    }
}

} // verus!

verus! {

// ── Prompt history ──────────────────────────────────────────────────────────

/// Prompts submitted in this process, the entry being browsed, and the
/// draft that was in the editor when browsing began.
pub struct HistoryModel {
    pub entries: Seq<Seq<char>>,
    pub cursor: Option<usize>,
    pub draft: Seq<char>,
}

/// Recording a prompt: blank prompts are not kept, nor a repeat of the
/// latest entry; a kept prompt ends browsing and drops the draft.
pub open spec fn recorded(m: HistoryModel, prompt: Seq<char>) -> HistoryModel {
    if trim(prompt).len() == 0 {
        m
    } else {
        HistoryModel {
            entries: if m.entries.len() == 0 || m.entries.last() != prompt {
                m.entries.push(prompt)
            } else {
                m.entries
            },
            cursor: None,
            draft: Seq::empty(),
        }
    }
}

/// Browsing back from editor text `text`: the first step keeps the text as
/// the draft and shows the latest entry; later steps show earlier entries,
/// stopping at the first. Returns the text to show, if any.
pub open spec fn browse_back(m: HistoryModel, text: Seq<char>) -> (HistoryModel, Option<Seq<char>>) {
    if m.entries.len() == 0 {
        (m, None)
    } else {
        let (cursor, draft) = match m.cursor {
            None => ((m.entries.len() - 1) as usize, text),
            Some(c) => (if c > 0 {
                (c - 1) as usize
            } else {
                0usize
            }, m.draft),
        };
        (HistoryModel { entries: m.entries, cursor: Some(cursor), draft }, Some(m.entries[cursor as int]))
    }
}

/// Browsing forward: the next entry, or past the latest one the draft
/// (which is then dropped). Not browsing, nothing happens.
pub open spec fn browse_forward(m: HistoryModel) -> (HistoryModel, Option<Seq<char>>) {
    match m.cursor {
        None => (m, None),
        Some(c) => if c + 1 < m.entries.len() {
            (
                HistoryModel { entries: m.entries, cursor: Some((c + 1) as usize), draft: m.draft },
                Some(m.entries[c + 1]),
            )
        } else {
            (HistoryModel { entries: m.entries, cursor: None, draft: Seq::empty() }, Some(m.draft))
        },
    }
}

/// The editor after its text was replaced by `text`.
pub open spec fn shows(input: InputState, text: Seq<char>) -> bool {
    &&& input.wf()
    &&& input.text@ == text
    &&& input.cursor() == text.len()
    &&& input.preferred_column is None
    &&& input.viewport_line == 0
}

/// Prompt history for the current process.
#[derive(Debug, Clone, Default, PartialEq, Eq)]
pub struct InputHistory {
    pub entries: Vec<String>,
    pub cursor: Option<usize>,
    pub draft: String,
}

impl InputHistory {
    pub open spec fn model(&self) -> HistoryModel {
        HistoryModel {
            entries: self.entries@.map_values(|e: String| e@),
            cursor: self.cursor,
            draft: self.draft@,
        }
    }

    /// The browsed entry exists.
    pub open spec fn wf(&self) -> bool {
        self.cursor matches Some(c) ==> c < self.entries@.len()
    }

    /// Remember a submitted prompt.
    pub fn record(&mut self, prompt: &str)
        requires
            old(self).wf(),
        ensures
            final(self).wf(),
            final(self).model() == recorded(old(self).model(), prompt@),
    {
        let p = chars_of(prompt);
        let t = trim_chars(p.as_slice());
        if t.len() == 0 {
            return;
        }
        let n = self.entries.len();
        let repeat = if n == 0 {
            false
        } else {
            let last = chars_of(self.entries[n - 1].as_str());
            crate::text::chars_eq(last.as_slice(), p.as_slice())
        };
        let ghost before = self.entries@;
        if !repeat {
            self.entries.push(crate::text::to_string(prompt));
            assert(self.model().entries =~= old(self).model().entries.push(prompt@));
        }
        self.cursor = None;
        self.draft = String::new();
    }

    /// Show the previous entry in `input`.
    pub fn previous(&mut self, input: &mut InputState)
        requires
            old(self).wf(),
        ensures
            final(self).wf(),
            final(self).model() == browse_back(old(self).model(), old(input).text@).0,
            match browse_back(old(self).model(), old(input).text@).1 {
                Some(t) => shows(*final(input), t),
                None => *final(input) == *old(input),
            },
    {
        let n = self.entries.len();
        if n == 0 {
            return;
        }
        let c = match self.cursor {
            None => {
                self.draft = input.text.clone();
                n - 1
            },
            Some(c) => if c > 0 {
                c - 1
            } else {
                0
            },
        };
        self.cursor = Some(c);
        let shown = self.entries[c].clone();
        input.set_text(shown);
    }

    /// Show the next entry, or the draft after the latest one.
    pub fn next(&mut self, input: &mut InputState)
        requires
            old(self).wf(),
        ensures
            final(self).wf(),
            final(self).model() == browse_forward(old(self).model()).0,
            match browse_forward(old(self).model()).1 {
                Some(t) => shows(*final(input), t),
                None => *final(input) == *old(input),
            },
    {
        let c = match self.cursor {
            None => {
                return;
            },
            Some(c) => c,
        };
        let n = self.entries.len();
        assert(c < n);
        if c + 1 < n {
            self.cursor = Some(c + 1);
            let shown = self.entries[c + 1].clone();
            input.set_text(shown);
        } else {
            self.cursor = None;
            let draft = self.draft.clone();
            input.set_text(draft);
            self.draft = String::new();
        }
    }
}

/// Browsing back once and forward once gives the draft back and ends
/// browsing.
pub proof fn lemma_browse_round_trip(m: HistoryModel, text: Seq<char>)
    requires
        0 < m.entries.len() <= usize::MAX,
        m.cursor is None,
    ensures
        browse_forward(browse_back(m, text).0).1 == Some(text),
        browse_forward(browse_back(m, text).0).0 == (HistoryModel {
            entries: m.entries,
            cursor: None,
            draft: Seq::empty(),
        }),
{
}

/// Recording the same prompt twice in a row keeps one entry.
pub proof fn lemma_record_twice(m: HistoryModel, prompt: Seq<char>)
    ensures
        recorded(recorded(m, prompt), prompt) == recorded(m, prompt),
{
}

/// Browsing back never leaves the entries: the shown text is an entry.
pub proof fn lemma_browse_back_shows_entry(m: HistoryModel, text: Seq<char>)
    requires
        m.cursor matches Some(c) ==> c < m.entries.len(),
        m.entries.len() > 0,
    ensures
        browse_back(m, text).0.cursor matches Some(c) && c < m.entries.len() && browse_back(m, text).1
            == Some(m.entries[c as int]),
{
}

} // verus!
