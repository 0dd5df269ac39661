//! The edit tool: exact-text replacements in a file. Line endings and a
//! byte-order mark are kept, edit texts are matched exactly or, failing
//! that, in a fuzzy normal form, and every edit must match one region of
//! the file that no other edit touches.

use vstd::prelude::*;

use std::path::PathBuf;
use std::sync::{Arc, RwLock};

use crate::text::{
    append, append_decimal, append_str, chars_eq, chars_of, decimal, find, find_exec, index_of,
    is_ws, join, join_exec, lemma_find_from, lemma_join_concat, lemma_join_len_mono, lemma_join_split,
    lemma_split_char_nonempty, lemma_trim_end_len, matches_at, matches_at_exec, replace_all,
    replace_all_exec, split_char, split_char_exec, string_from_chars, sub_chars, trim_end,
    trim_end_chars,
};
use crate::workdir::current_dir_text;

verus! {

// ── Parameters ──────────────────────────────────────────────────────────────

/// A single text replacement.
#[derive(Debug, Clone, PartialEq, Eq)]
pub struct Edit {
    /// Exact text to search for. Must be unique in the file.
    pub old_text: String,
    /// Replacement text.
    pub new_text: String,
}

/// Parameters for the edit tool.
#[derive(Debug, Clone, PartialEq, Eq)]
pub struct EditParams {
    /// Path to the file to edit.
    pub path: String,
    /// One or more targeted replacements.
    pub edits: Vec<Edit>,
}

/// The edit tool: edits files relative to the shared working directory.
pub struct EditTool {
    shared_cwd: Arc<RwLock<PathBuf>>,
}

impl EditTool {
    pub fn new(shared_cwd: Arc<RwLock<PathBuf>>) -> (t: Self)
        ensures
            t.shared_cwd() == shared_cwd,
    {
        EditTool { shared_cwd }
    }

    pub closed spec fn shared_cwd(&self) -> Arc<RwLock<PathBuf>> {
        self.shared_cwd
    }

    /// The working directory as text, as it stands now.
    pub fn cwd(&self) -> String {
        current_dir_text(&self.shared_cwd)
    }
}

/// The old and new texts of the edits.
pub open spec fn edit_pairs(edits: Seq<Edit>) -> Seq<(Seq<char>, Seq<char>)> {
    edits.map_values(|e: Edit| (e.old_text@, e.new_text@))
}

// ── Byte-order mark and line endings ────────────────────────────────────────

/// The text split into its byte-order mark (empty when there is none) and
/// the rest.
pub open spec fn bom_split(s: Seq<char>) -> (Seq<char>, Seq<char>) {
    if s.len() > 0 && s[0] == '\u{FEFF}' {
        (seq!['\u{FEFF}'], s.skip(1))
    } else {
        (seq![], s)
    }
}

/// Strip a UTF-8 byte-order mark if present.
pub fn strip_bom(content: &str) -> (r: (String, String))
    ensures
        (r.0@, r.1@) == bom_split(content@),
{
    let cs = chars_of(content);
    if cs.len() > 0 && cs[0] == '\u{FEFF}' {
        let bom = vec!['\u{FEFF}'];
        let rest = sub_chars(cs.as_slice(), 1, cs.len());
        assert(bom@ =~= seq!['\u{FEFF}']);
        assert(rest@ =~= content@.skip(1));
        (string_from_chars(bom.as_slice()), string_from_chars(rest.as_slice()))
    } else {
        let none: Vec<char> = Vec::new();
        assert(none@ =~= Seq::<char>::empty());
        (string_from_chars(none.as_slice()), string_from_chars(cs.as_slice()))
    }
}

/// CRLF when the text holds one, else LF.
pub open spec fn line_ending(s: Seq<char>) -> Seq<char> {
    if find(s, seq!['\r', '\n']) is Some {
        seq!['\r', '\n']
    } else {
        seq!['\n']
    }
}

/// Detect the line ending style.
pub fn detect_line_ending(content: &str) -> (r: &'static str)
    ensures
        r@ == line_ending(content@),
        has_crlf_pair(content@) ==> r@ == seq!['\r', '\n'],
        !has_crlf_pair(content@) ==> r@ == seq!['\n'],
{
    proof {
        lemma_line_ending_is_crlf_iff_pair(content@);
    }
    let cs = chars_of(content);
    let crlf = vec!['\r', '\n'];
    assert(crlf@ =~= seq!['\r', '\n']);
    if find_exec(cs.as_slice(), crlf.as_slice()).is_some() {
        let r = "\r\n";
        proof {
            reveal_strlit("\r\n");
        }
        assert(r@ =~= seq!['\r', '\n']);
        r
    } else {
        let r = "\n";
        proof {
            reveal_strlit("\n");
        }
        assert(r@ =~= seq!['\n']);
        r
    }
}

/// CRLF and lone CR become LF.
pub open spec fn to_lf(text: Seq<char>) -> Seq<char> {
    replace_all(replace_all(text, seq!['\r', '\n'], seq!['\n']), seq!['\r'], seq!['\n'])
}

/// Normalize line endings to LF.
pub fn normalize_to_lf(text: &str) -> (r: String)
    ensures
        r@ == to_lf(text@),
{
    let v = normalize_to_lf_chars(chars_of(text).as_slice());
    string_from_chars(v.as_slice())
}

fn normalize_to_lf_chars(cs: &[char]) -> (v: Vec<char>)
    ensures
        v@ == to_lf(cs@),
{
    let crlf = vec!['\r', '\n'];
    let cr = vec!['\r'];
    let lf = vec!['\n'];
    assert(crlf@ =~= seq!['\r', '\n']);
    assert(cr@ =~= seq!['\r']);
    assert(lf@ =~= seq!['\n']);
    let a = replace_all_exec(cs, crlf.as_slice(), lf.as_slice());
    replace_all_exec(a.as_slice(), cr.as_slice(), lf.as_slice())
}

/// LF text written back in a file's line-ending style: with CRLF each LF
/// becomes CRLF, else the text stands.
pub open spec fn restored(text: Seq<char>, crlf: bool) -> Seq<char> {
    if crlf {
        replace_all(text, seq!['\n'], seq!['\r', '\n'])
    } else {
        text
    }
}

/// Restore line endings to the file's style: LF becomes CRLF when the
/// ending is `"\r\n"`.
pub fn restore_line_endings(text: &str, ending: &str) -> (r: String)
    ensures
        r@ == restored(text@, ending@ == seq!['\r', '\n']),
{
    let cs = chars_of(text);
    let e = chars_of(ending);
    let crlf = vec!['\r', '\n'];
    assert(crlf@ =~= seq!['\r', '\n']);
    if chars_eq(e.as_slice(), crlf.as_slice()) {
        let lf = vec!['\n'];
        assert(lf@ =~= seq!['\n']);
        let v = replace_all_exec(cs.as_slice(), lf.as_slice(), crlf.as_slice());
        string_from_chars(v.as_slice())
    } else {
        string_from_chars(cs.as_slice())
    }
}

/// `s` holds a CR immediately followed by an LF somewhere.
pub open spec fn has_crlf_pair(s: Seq<char>) -> bool {
    exists|i: int| 0 <= i && i + 1 < s.len() && s[i] == '\r' && #[trigger] s[i + 1] == '\n'
}

/// The line-ending style is CRLF exactly when a CR-LF pair occurs
/// anywhere in the text (not only at its end), and LF otherwise.
pub proof fn lemma_line_ending_is_crlf_iff_pair(s: Seq<char>)
    ensures
        has_crlf_pair(s) ==> line_ending(s) == seq!['\r', '\n'],
        !has_crlf_pair(s) ==> line_ending(s) == seq!['\n'],
{
    let p = seq!['\r', '\n'];
    lemma_find_from(s, p, 0);
    if has_crlf_pair(s) {
        let i = choose|i: int| 0 <= i && i + 1 < s.len() && s[i] == '\r' && #[trigger] s[i + 1] == '\n';
        assert(s.subrange(i, i + 2) =~= p);
        assert(matches_at(s, p, i));
    } else {
        match find(s, p) {
            Some(k) => {
                assert(s.subrange(k, k + 2)[0] == s[k]);
                assert(s.subrange(k, k + 2)[1] == s[k + 1]);
                assert(s[k] == '\r' && s[k + 1] == '\n');
            },
            None => {},
        }
    }
}

/// An edited file whose body holds a CR-LF pair anywhere is written back
/// with CRLF line endings, whether or not it ends in a line break.
pub proof fn lemma_crlf_file_stays_crlf(raw: Seq<char>, pairs: Seq<(Seq<char>, Seq<char>)>, path: Seq<char>)
    requires
        file_outcome(raw, pairs, path) is Ok,
        has_crlf_pair(bom_split(raw).1),
    ensures
        file_outcome(raw, pairs, path)->Ok_0.0 == bom_split(raw).0 + replace_all(
            file_outcome(raw, pairs, path)->Ok_0.2,
            seq!['\n'],
            seq!['\r', '\n'],
        ),
{
    lemma_line_ending_is_crlf_iff_pair(bom_split(raw).1);
}

// ── Fuzzy matching ──────────────────────────────────────────────────────────

/// Smart quotes, dashes and special spaces map to their ASCII forms.
pub open spec fn fuzzy_char(c: char) -> char {
    let u = c as u32;
    if u == 0x2018 || u == 0x2019 || u == 0x201A || u == 0x201B {
        '\''
    } else if u == 0x201C || u == 0x201D || u == 0x201E || u == 0x201F {
        '"'
    } else if (0x2010 <= u && u <= 0x2015) || u == 0x2212 {
        '-'
    } else if u == 0xA0 || (0x2002 <= u && u <= 0x200A) || u == 0x202F || u == 0x205F || u
        == 0x3000 {
        ' '
    } else {
        c
    }
}

fn fuzzy_char_exec(c: char) -> (r: char)
    ensures
        r == fuzzy_char(c),
{
    let u = c as u32;
    if u == 0x2018 || u == 0x2019 || u == 0x201A || u == 0x201B {
        '\''
    } else if u == 0x201C || u == 0x201D || u == 0x201E || u == 0x201F {
        '"'
    } else if (0x2010 <= u && u <= 0x2015) || u == 0x2212 {
        '-'
    } else if u == 0xA0 || (0x2002 <= u && u <= 0x200A) || u == 0x202F || u == 0x205F || u
        == 0x3000 {
        ' '
    } else {
        c
    }
}

/// Fuzzy normal form: characters mapped by [`fuzzy_char`], then trailing
/// whitespace stripped from every line.
pub open spec fn fuzzy_normal(text: Seq<char>) -> Seq<char> {
    join(
        split_char(text.map_values(|c: char| fuzzy_char(c)), '\n').map_values(
            |l: Seq<char>| trim_end(l),
        ),
        seq!['\n'],
    )
}

/// The fuzzy normal form is never longer than the text.
pub proof fn lemma_fuzzy_normal_len(text: Seq<char>)
    ensures
        fuzzy_normal(text).len() <= text.len(),
{
    let m = text.map_values(|c: char| fuzzy_char(c));
    let sp = split_char(m, '\n');
    let tr = sp.map_values(|l: Seq<char>| trim_end(l));
    assert forall|i: int| 0 <= i < sp.len() implies (#[trigger] tr[i]).len() <= sp[i].len() by {
        lemma_trim_end_len(sp[i]);
    }
    lemma_join_len_mono(sp, tr, seq!['\n']);
    lemma_join_split(m, '\n');
}

/// Normalize text for fuzzy matching: smart quotes, dashes and special
/// spaces become ASCII, and trailing whitespace is stripped per line.
pub fn normalize_for_fuzzy_match(text: &str) -> (r: String)
    ensures
        r@ == fuzzy_normal(text@),
{
    let v = fuzzy_normal_chars(chars_of(text).as_slice());
    string_from_chars(v.as_slice())
}

fn fuzzy_normal_chars(cs: &[char]) -> (v: Vec<char>)
    ensures
        v@ == fuzzy_normal(cs@),
{
    let mut mapped: Vec<char> = Vec::new();
    let mut i: usize = 0;
    while i < cs.len()
        invariant
            0 <= i <= cs@.len(),
            mapped@ == cs@.take(i as int).map_values(|c: char| fuzzy_char(c)),
        decreases cs@.len() - i,
    {
        mapped.push(fuzzy_char_exec(cs[i]));
        i = i + 1;
        assert(mapped@ =~= cs@.take(i as int).map_values(|c: char| fuzzy_char(c)));
    }
    assert(cs@.take(cs@.len() as int) =~= cs@);
    let ghost m = cs@.map_values(|c: char| fuzzy_char(c));
    let pieces = split_char_exec(mapped.as_slice(), '\n');
    let ghost sp = split_char(m, '\n');
    let mut trimmed: Vec<Vec<char>> = Vec::new();
    let mut j: usize = 0;
    while j < pieces.len()
        invariant
            0 <= j <= pieces@.len() == sp.len(),
            mapped@ == m,
            forall|k: int| 0 <= k < pieces@.len() ==> (#[trigger] pieces@[k])@ == sp[k],
            trimmed@.len() == j,
            forall|k: int| 0 <= k < j ==> (#[trigger] trimmed@[k])@ == trim_end(sp[k]),
        decreases pieces@.len() - j,
    {
        let t = trim_end_chars(pieces[j].as_slice());
        trimmed.push(t);
        j = j + 1;
    }
    let nl = vec!['\n'];
    assert(nl@ =~= seq!['\n']);
    let v = join_exec(trimmed.as_slice(), nl.as_slice());
    assert(trimmed@.map_values(|p: Vec<char>| p@) =~= sp.map_values(|l: Seq<char>| trim_end(l)));
    v
}

// ── Finding an edit's text ──────────────────────────────────────────────────

/// Where an edit's text is found: exactly, else in the fuzzy normal forms
/// of both texts. `(found, index, length, fuzzy)`.
pub open spec fn fuzzy_find(content: Seq<char>, old: Seq<char>) -> (bool, int, int, bool) {
    match find(content, old) {
        Some(i) => (true, i, old.len() as int, false),
        None => match find(fuzzy_normal(content), fuzzy_normal(old)) {
            Some(i) => (true, i, fuzzy_normal(old).len() as int, true),
            None => (false, 0, 0, false),
        },
    }
}

fn fuzzy_find_exec(content: &[char], old: &[char]) -> (r: (bool, usize, usize, bool))
    ensures
        r.0 == fuzzy_find(content@, old@).0,
        r.1 as int == fuzzy_find(content@, old@).1,
        r.2 as int == fuzzy_find(content@, old@).2,
        r.3 == fuzzy_find(content@, old@).3,
{
    match find_exec(content, old) {
        Some(i) => (true, i, old.len(), false),
        None => {
            let fc = fuzzy_normal_chars(content);
            let fo = fuzzy_normal_chars(old);
            match find_exec(fc.as_slice(), fo.as_slice()) {
                Some(i) => (true, i, fo.len(), true),
                None => (false, 0, 0, false),
            }
        },
    }
}

/// How many times `p` occurs in `s`, scanning from the left without
/// overlaps, as `str::matches` counts; an empty pattern matches at every
/// position, ends included.
pub open spec fn count_matches(s: Seq<char>, p: Seq<char>) -> nat
    decreases s.len(),
{
    if p.len() == 0 {
        s.len() + 1
    } else if s.len() < p.len() {
        0
    } else if s.take(p.len() as int) == p {
        1 + count_matches(s.skip(p.len() as int), p)
    } else {
        count_matches(s.skip(1), p)
    }
}

proof fn lemma_count_matches_bound(s: Seq<char>, p: Seq<char>)
    requires
        p.len() > 0,
    ensures
        count_matches(s, p) <= s.len(),
    decreases s.len(),
{
    if s.len() >= p.len() {
        if s.take(p.len() as int) == p {
            lemma_count_matches_bound(s.skip(p.len() as int), p);
        } else {
            lemma_count_matches_bound(s.skip(1), p);
        }
    }
}

fn count_matches_exec(s: &[char], p: &[char]) -> (r: usize)
    requires
        s@.len() < usize::MAX,
    ensures
        r == count_matches(s@, p@),
{
    if p.len() == 0 {
        return s.len() + 1;
    }
    let mut n: usize = 0;
    let mut i: usize = 0;
    proof {
        lemma_count_matches_bound(s@, p@);
        assert(s@.skip(0) =~= s@);
    }
    while i < s.len() && p.len() <= s.len() - i
        invariant
            0 <= i <= s@.len(),
            p@.len() > 0,
            n + count_matches(s@.skip(i as int), p@) == count_matches(s@, p@),
            count_matches(s@, p@) <= s@.len(),
        decreases s@.len() - i,
    {
        let ghost t = s@.skip(i as int);
        if matches_at_exec(s, p, i) {
            assert(t.take(p@.len() as int) =~= s@.subrange(i as int, i + p@.len()));
            assert(t.skip(p@.len() as int) =~= s@.skip(i + p@.len()));
            proof {
                lemma_count_matches_bound(s@.skip(i + p@.len()), p@);
            }
            n = n + 1;
            i = i + p.len();
        } else {
            assert(t.take(p@.len() as int) =~= s@.subrange(i as int, i + p@.len()));
            assert(t.skip(1) =~= s@.skip(i + 1));
            i = i + 1;
        }
    }
    proof {
        let t = s@.skip(i as int);
        if i < s@.len() {
            assert(t.len() < p@.len());
        } else {
            assert(t.len() == 0);
        }
    }
    n
}

// ── Error messages ──────────────────────────────────────────────────────────

pub open spec fn not_found_error(path: Seq<char>, index: nat, total: nat) -> Seq<char> {
    if total == 1 {
        "Could not find the exact text in "@ + path
            + ". The old text must match exactly including all whitespace and newlines."@
    } else {
        "Could not find edits["@ + decimal(index) + "] in "@ + path
            + ". The oldText must match exactly including all whitespace and newlines."@
    }
}

pub fn get_not_found_error(path: &str, index: usize, total: usize) -> (r: String)
    ensures
        r@ == not_found_error(path@, index as nat, total as nat),
{
    let mut out: Vec<char> = Vec::new();
    if total == 1 {
        append_str(&mut out, "Could not find the exact text in ");
        append_str(&mut out, path);
        append_str(&mut out, ". The old text must match exactly including all whitespace and newlines.");
    } else {
        append_str(&mut out, "Could not find edits[");
        append_decimal(&mut out, index as u64);
        append_str(&mut out, "] in ");
        append_str(&mut out, path);
        append_str(&mut out, ". The oldText must match exactly including all whitespace and newlines.");
    }
    string_from_chars(out.as_slice())
}

pub open spec fn duplicate_error(path: Seq<char>, index: nat, total: nat, occurrences: nat) -> Seq<
    char,
> {
    if total == 1 {
        "Found "@ + decimal(occurrences) + " occurrences of the text in "@ + path
            + ". The text must be unique. Please provide more context to make it unique."@
    } else {
        "Found "@ + decimal(occurrences) + " occurrences of edits["@ + decimal(index) + "] in "@
            + path + ". Each oldText must be unique. Please provide more context to make it unique."@
    }
}

pub fn get_duplicate_error(path: &str, index: usize, total: usize, occurrences: usize) -> (r: String)
    ensures
        r@ == duplicate_error(path@, index as nat, total as nat, occurrences as nat),
{
    let mut out: Vec<char> = Vec::new();
    append_str(&mut out, "Found ");
    append_decimal(&mut out, occurrences as u64);
    if total == 1 {
        append_str(&mut out, " occurrences of the text in ");
        append_str(&mut out, path);
        append_str(&mut out, ". The text must be unique. Please provide more context to make it unique.");
    } else {
        append_str(&mut out, " occurrences of edits[");
        append_decimal(&mut out, index as u64);
        append_str(&mut out, "] in ");
        append_str(&mut out, path);
        append_str(&mut out, ". Each oldText must be unique. Please provide more context to make it unique.");
    }
    string_from_chars(out.as_slice())
}

pub open spec fn empty_old_text_error(path: Seq<char>, index: nat, total: nat) -> Seq<char> {
    if total == 1 {
        "oldText must not be empty in "@ + path + "."@
    } else {
        "edits["@ + decimal(index) + "].oldText must not be empty in "@ + path + "."@
    }
}

pub fn get_empty_old_text_error(path: &str, index: usize, total: usize) -> (r: String)
    ensures
        r@ == empty_old_text_error(path@, index as nat, total as nat),
{
    let mut out: Vec<char> = Vec::new();
    if total == 1 {
        append_str(&mut out, "oldText must not be empty in ");
    } else {
        append_str(&mut out, "edits[");
        append_decimal(&mut out, index as u64);
        append_str(&mut out, "].oldText must not be empty in ");
    }
    append_str(&mut out, path);
    append_str(&mut out, ".");
    string_from_chars(out.as_slice())
}

pub open spec fn no_change_error(path: Seq<char>, total: nat) -> Seq<char> {
    if total == 1 {
        "No changes made to "@ + path
            + ". The replacement produced identical content. This might indicate an issue with special characters or the text not existing as expected."@
    } else {
        "No changes made to "@ + path + ". The replacements produced identical content."@
    }
}

pub fn get_no_change_error(path: &str, total: usize) -> (r: String)
    ensures
        r@ == no_change_error(path@, total as nat),
{
    let mut out: Vec<char> = Vec::new();
    append_str(&mut out, "No changes made to ");
    append_str(&mut out, path);
    if total == 1 {
        append_str(
            &mut out,
            ". The replacement produced identical content. This might indicate an issue with special characters or the text not existing as expected.",
        );
    } else {
        append_str(&mut out, ". The replacements produced identical content.");
    }
    string_from_chars(out.as_slice())
}

pub open spec fn overlap_error(first: nat, second: nat, path: Seq<char>) -> Seq<char> {
    "edits["@ + decimal(first) + "] and edits["@ + decimal(second) + "] overlap in "@ + path
        + ". Merge them into one edit or target disjoint regions."@
}

fn get_overlap_error(first: usize, second: usize, path: &str) -> (r: String)
    ensures
        r@ == overlap_error(first as nat, second as nat, path@),
{
    let mut out: Vec<char> = Vec::new();
    append_str(&mut out, "edits[");
    append_decimal(&mut out, first as u64);
    append_str(&mut out, "] and edits[");
    append_decimal(&mut out, second as u64);
    append_str(&mut out, "] overlap in ");
    append_str(&mut out, path);
    append_str(&mut out, ". Merge them into one edit or target disjoint regions.");
    string_from_chars(out.as_slice())
}

pub open spec fn empty_edits_error() -> Seq<char> {
    "edits must contain at least one replacement."@
}

// ── Applying edits ──────────────────────────────────────────────────────────

/// The edit texts with their line endings normalized to LF.
pub open spec fn lf_pairs(pairs: Seq<(Seq<char>, Seq<char>)>) -> Seq<(Seq<char>, Seq<char>)> {
    pairs.map_values(|p: (Seq<char>, Seq<char>)| (to_lf(p.0), to_lf(p.1)))
}

/// The first edit, at or after `i`, whose old text is empty.
pub open spec fn first_empty_old(pairs: Seq<(Seq<char>, Seq<char>)>, i: int) -> Option<int>
    decreases pairs.len() - i,
{
    if i < 0 || i >= pairs.len() {
        None
    } else if pairs[i].0.len() == 0 {
        Some(i)
    } else {
        first_empty_old(pairs, i + 1)
    }
}

/// Whether some edit is found in the content only in fuzzy normal form.
pub open spec fn uses_fuzzy(content: Seq<char>, ne: Seq<(Seq<char>, Seq<char>)>) -> bool {
    exists|i: int| 0 <= i < ne.len() && #[trigger] fuzzy_find(content, ne[i].0).3
}

/// The text the replacements apply to: the fuzzy normal form of the
/// content when some edit needed it, else the content.
pub open spec fn replacement_base(content: Seq<char>, ne: Seq<(Seq<char>, Seq<char>)>) -> Seq<
    char,
> {
    if uses_fuzzy(content, ne) {
        fuzzy_normal(content)
    } else {
        content
    }
}

/// The error of the first edit, at or after `i`, that is not found in the
/// base or whose fuzzy normal form occurs more than once in the base's.
pub open spec fn match_failure(
    base: Seq<char>,
    ne: Seq<(Seq<char>, Seq<char>)>,
    path: Seq<char>,
    i: int,
) -> Option<Seq<char>>
    decreases ne.len() - i,
{
    if i < 0 || i >= ne.len() {
        None
    } else if !fuzzy_find(base, ne[i].0).0 {
        Some(not_found_error(path, i as nat, ne.len()))
    } else if count_matches(fuzzy_normal(base), fuzzy_normal(ne[i].0)) > 1 {
        Some(
            duplicate_error(
                path,
                i as nat,
                ne.len(),
                count_matches(fuzzy_normal(base), fuzzy_normal(ne[i].0)),
            ),
        )
    } else {
        match_failure(base, ne, path, i + 1)
    }
}

/// Each edit's region in the base: `(index, length, edit number)`.
pub open spec fn regions(base: Seq<char>, ne: Seq<(Seq<char>, Seq<char>)>) -> Seq<(int, int, int)> {
    Seq::new(ne.len(), |i: int| (fuzzy_find(base, ne[i].0).1, fuzzy_find(base, ne[i].0).2, i))
}

/// A region put into a list ordered by index: ascending, after the regions
/// with an index no larger; descending, after those with one no smaller.
pub open spec fn insert_region(s: Seq<(int, int, int)>, r: (int, int, int), desc: bool) -> Seq<
    (int, int, int),
>
    decreases s.len(),
{
    if s.len() == 0 {
        seq![r]
    } else if (if desc {
        s[0].0 < r.0
    } else {
        s[0].0 > r.0
    }) {
        seq![r] + s
    } else {
        seq![s[0]] + insert_region(s.skip(1), r, desc)
    }
}

/// The regions in a stable sort by index.
pub open spec fn sort_regions(rs: Seq<(int, int, int)>, desc: bool) -> Seq<(int, int, int)>
    decreases rs.len(),
{
    if rs.len() == 0 {
        seq![]
    } else {
        insert_region(sort_regions(rs.drop_last(), desc), rs.last(), desc)
    }
}

/// The first position `k`, at or after the given one, of the ascending
/// list whose region starts before the one before it ends.
pub open spec fn first_overlap(asc: Seq<(int, int, int)>, k: int) -> Option<int>
    decreases asc.len() - k,
{
    if k < 1 || k >= asc.len() {
        None
    } else if asc[k - 1].0 + asc[k - 1].1 > asc[k].0 {
        Some(k)
    } else {
        first_overlap(asc, k + 1)
    }
}

/// The replacements from position `j` of the list applied one after the
/// other, each to the text the ones before it left.
pub open spec fn apply_regions(
    cur: Seq<char>,
    d: Seq<(int, int, int)>,
    ne: Seq<(Seq<char>, Seq<char>)>,
    j: int,
) -> Seq<char>
    decreases d.len() - j,
{
    if j < 0 || j >= d.len() {
        cur
    } else {
        let r = d[j];
        let next = if 0 <= r.0 && 0 <= r.1 && r.0 + r.1 <= cur.len() && 0 <= r.2 < ne.len() {
            cur.take(r.0) + ne[r.2].1 + cur.skip(r.0 + r.1)
        } else {
            cur
        };
        apply_regions(next, d, ne, j + 1)
    }
}

/// What applying the edits to LF content gives: the content before and
/// after, or the error, checked in this order: no edits, an empty old
/// text, an edit not found or not unique, overlapping regions, no change.
pub open spec fn edits_outcome(
    content: Seq<char>,
    pairs: Seq<(Seq<char>, Seq<char>)>,
    path: Seq<char>,
) -> Result<(Seq<char>, Seq<char>), Seq<char>> {
    let total = pairs.len();
    if total == 0 {
        Err(empty_edits_error())
    } else {
        match first_empty_old(pairs, 0) {
            Some(i) => Err(empty_old_text_error(path, i as nat, total)),
            None => {
                let ne = lf_pairs(pairs);
                let base = replacement_base(content, ne);
                match match_failure(base, ne, path, 0) {
                    Some(e) => Err(e),
                    None => {
                        let rs = regions(base, ne);
                        match first_overlap(sort_regions(rs, false), 1) {
                            Some(k) => Err(overlap_error((k - 1) as nat, k as nat, path)),
                            None => {
                                let new_content = apply_regions(
                                    base,
                                    sort_regions(rs, true),
                                    ne,
                                    0,
                                );
                                if new_content == content {
                                    Err(no_change_error(path, total))
                                } else {
                                    Ok((content, new_content))
                                }
                            },
                        }
                    },
                }
            },
        }
    }
}

/// The regions of an executable list.
spec fn rv(v: Seq<(usize, usize, usize)>) -> Seq<(int, int, int)> {
    v.map_values(|r: (usize, usize, usize)| (r.0 as int, r.1 as int, r.2 as int))
}

/// One executable region.
spec fn rt(r: (usize, usize, usize)) -> (int, int, int) {
    (r.0 as int, r.1 as int, r.2 as int)
}

fn insert_region_exec(s: &Vec<(usize, usize, usize)>, r: (usize, usize, usize), desc: bool) -> (v: Vec<
    (usize, usize, usize),
>)
    ensures
        rv(v@) == insert_region(rv(s@), rt(r), desc),
{
    let ghost x = rv(s@);
    let ghost rr = rt(r);
    let mut v: Vec<(usize, usize, usize)> = Vec::new();
    let mut placed = false;
    let mut j: usize = 0;
    assert(x.skip(0) =~= x);
    assert(rv(v@) =~= Seq::<(int, int, int)>::empty());
    while j < s.len()
        invariant
            0 <= j <= s@.len() == x.len(),
            x == rv(s@),
            rr == rt(r),
            placed ==> rv(v@) + x.skip(j as int) == insert_region(x, rr, desc),
            !placed ==> rv(v@) + insert_region(x.skip(j as int), rr, desc) == insert_region(
                x,
                rr,
                desc,
            ),
        decreases s@.len() - j,
    {
        let e = s[j];
        let ghost v0 = rv(v@);
        assert(x[j as int] == rt(e));
        assert(x.skip(j as int) =~= seq![x[j as int]] + x.skip(j + 1));
        assert(x.skip(j as int).skip(1) =~= x.skip(j + 1));
        let before = if desc {
            e.0 < r.0
        } else {
            e.0 > r.0
        };
        if !placed && before {
            v.push(r);
            v.push(e);
            placed = true;
            assert(rv(v@) =~= v0 + seq![rr] + seq![rt(e)]);
        } else {
            v.push(e);
            assert(rv(v@) =~= v0 + seq![rt(e)]);
        }
        j = j + 1;
    }
    if !placed {
        let ghost v0 = rv(v@);
        v.push(r);
        assert(rv(v@) =~= v0 + seq![rr]);
        assert(x.skip(j as int) =~= Seq::<(int, int, int)>::empty());
    } else {
        assert(x.skip(j as int) =~= Seq::<(int, int, int)>::empty());
    }
    v
}

fn sort_regions_exec(rs: &Vec<(usize, usize, usize)>, desc: bool) -> (v: Vec<(usize, usize, usize)>)
    ensures
        rv(v@) == sort_regions(rv(rs@), desc),
{
    let ghost x = rv(rs@);
    let mut sorted: Vec<(usize, usize, usize)> = Vec::new();
    let mut i: usize = 0;
    assert(x.take(0) =~= Seq::<(int, int, int)>::empty());
    assert(rv(sorted@) =~= Seq::<(int, int, int)>::empty());
    while i < rs.len()
        invariant
            0 <= i <= rs@.len() == x.len(),
            x == rv(rs@),
            rv(sorted@) == sort_regions(x.take(i as int), desc),
        decreases rs@.len() - i,
    {
        let next = insert_region_exec(&sorted, rs[i], desc);
        assert(x.take(i + 1).drop_last() =~= x.take(i as int));
        assert(x.take(i + 1).last() == rt(rs@[i as int]));
        sorted = next;
        i = i + 1;
    }
    assert(x.take(x.len() as int) =~= x);
    sorted
}

/// The content before and after the edits.
pub struct AppliedEdits {
    pub base_content: String,
    pub new_content: String,
}

/// Apply edits to LF content: each edit's old text is found exactly, or
/// else in fuzzy normal form (and then every replacement applies to the
/// content's fuzzy normal form), must occur once, and no two regions may
/// overlap; the replacements are applied from the last region to the first.
pub fn apply_edits_to_normalized_content(content: &str, edits: &[Edit], path: &str) -> (r: Result<
    AppliedEdits,
    String,
>)
    ensures
        match edits_outcome(content@, edit_pairs(edits@), path@) {
            Ok(v) => r matches Ok(a) && a.base_content@ == v.0 && a.new_content@ == v.1,
            Err(e) => r matches Err(m) && m@ == e,
        },
{
    let ghost pairs = edit_pairs(edits@);
    let total = edits.len();
    if total == 0 {
        let mut out: Vec<char> = Vec::new();
        append_str(&mut out, "edits must contain at least one replacement.");
        return Err(string_from_chars(out.as_slice()));
    }
    let mut i: usize = 0;
    while i < total
        invariant
            0 <= i <= total == edits@.len() == pairs.len(),
            pairs == edit_pairs(edits@),
            first_empty_old(pairs, 0) == first_empty_old(pairs, i as int),
        decreases total - i,
    {
        let o = chars_of(edits[i].old_text.as_str());
        assert(pairs[i as int].0 == edits@[i as int].old_text@);
        if o.len() == 0 {
            return Err(get_empty_old_text_error(path, i, total));
        }
        i = i + 1;
    }
    assert(first_empty_old(pairs, 0) is None);
    let ghost ne = lf_pairs(pairs);
    let mut olds: Vec<Vec<char>> = Vec::new();
    let mut news: Vec<Vec<char>> = Vec::new();
    let mut k: usize = 0;
    while k < total
        invariant
            0 <= k <= total == edits@.len() == pairs.len() == ne.len(),
            pairs == edit_pairs(edits@),
            ne == lf_pairs(pairs),
            olds@.len() == k,
            news@.len() == k,
            forall|j: int| 0 <= j < k ==> (#[trigger] olds@[j])@ == ne[j].0,
            forall|j: int| 0 <= j < k ==> (#[trigger] news@[j])@ == ne[j].1,
        decreases total - k,
    {
        let o = normalize_to_lf_chars(chars_of(edits[k].old_text.as_str()).as_slice());
        let w = normalize_to_lf_chars(chars_of(edits[k].new_text.as_str()).as_slice());
        olds.push(o);
        news.push(w);
        k = k + 1;
    }
    let content_chars = chars_of(content);
    let mut fuzzy = false;
    let mut k: usize = 0;
    while k < total
        invariant
            0 <= k <= total == ne.len() == olds@.len(),
            first_empty_old(pairs, 0) is None,
            pairs == edit_pairs(edits@),
            ne == lf_pairs(pairs),
            total == pairs.len(),
            content_chars@ == content@,
            forall|j: int| 0 <= j < total ==> (#[trigger] olds@[j])@ == ne[j].0,
            fuzzy <==> exists|j: int| 0 <= j < k && #[trigger] fuzzy_find(content@, ne[j].0).3,
        decreases total - k,
    {
        let m = fuzzy_find_exec(content_chars.as_slice(), olds[k].as_slice());
        if m.3 {
            fuzzy = true;
        }
        k = k + 1;
    }
    let base = if fuzzy {
        fuzzy_normal_chars(content_chars.as_slice())
    } else {
        let mut b: Vec<char> = Vec::new();
        append(&mut b, content_chars.as_slice());
        b
    };
    assert(base@ == replacement_base(content@, ne));
    proof {
        lemma_fuzzy_normal_len(content@);
        lemma_fuzzy_normal_len(base@);
    }
    let fb = fuzzy_normal_chars(base.as_slice());
    let mut rs: Vec<(usize, usize, usize)> = Vec::new();
    let mut k: usize = 0;
    while k < total
        invariant
            0 <= k <= total == ne.len() == olds@.len() == news@.len(),
            first_empty_old(pairs, 0) is None,
            pairs == edit_pairs(edits@),
            ne == lf_pairs(pairs),
            total == pairs.len(),
            forall|j: int| 0 <= j < total ==> (#[trigger] olds@[j])@ == ne[j].0,
            base@ == replacement_base(content@, ne),
            fb@ == fuzzy_normal(base@),
            fb@.len() < usize::MAX,
            match_failure(base@, ne, path@, 0) == match_failure(base@, ne, path@, k as int),
            rv(rs@) == regions(base@, ne).take(k as int),
        decreases total - k,
    {
        let m = fuzzy_find_exec(base.as_slice(), olds[k].as_slice());
        if !m.0 {
            return Err(get_not_found_error(path, k, total));
        }
        let fo = fuzzy_normal_chars(olds[k].as_slice());
        let occ = count_matches_exec(fb.as_slice(), fo.as_slice());
        if occ > 1 {
            return Err(get_duplicate_error(path, k, total, occ));
        }
        let ghost r0 = rv(rs@);
        rs.push((m.1, m.2, k));
        assert(rv(rs@) =~= r0.push(regions(base@, ne)[k as int]));
        assert(regions(base@, ne).take(k + 1) =~= regions(base@, ne).take(k as int).push(
            regions(base@, ne)[k as int],
        ));
        k = k + 1;
    }
    assert(regions(base@, ne).take(total as int) =~= regions(base@, ne));
    assert(match_failure(base@, ne, path@, 0) is None);
    let asc = sort_regions_exec(&rs, false);
    let mut k: usize = 1;
    while k < asc.len()
        invariant
            1 <= k <= asc@.len() || asc@.len() == 0,
            rv(asc@) == sort_regions(regions(base@, ne), false),
            rv(rs@) == regions(base@, ne),
            match_failure(base@, ne, path@, 0) is None,
            base@ == replacement_base(content@, ne),
            first_empty_old(pairs, 0) is None,
            pairs == edit_pairs(edits@),
            ne == lf_pairs(pairs),
            total == pairs.len(),
            first_overlap(rv(asc@), 1) == first_overlap(rv(asc@), k as int),
        decreases asc@.len() - k,
    {
        let p = asc[k - 1];
        let c = asc[k];
        assert(rv(asc@)[k - 1] == rt(p) && rv(asc@)[k as int] == rt(c));
        let overlaps = if c.0 < p.0 {
            true
        } else {
            p.1 > c.0 - p.0
        };
        if overlaps {
            return Err(get_overlap_error(k - 1, k, path));
        }
        k = k + 1;
    }
    let desc = sort_regions_exec(&rs, true);
    let mut cur: Vec<char> = Vec::new();
    append(&mut cur, base.as_slice());
    let mut j: usize = 0;
    while j < desc.len()
        invariant
            0 <= j <= desc@.len(),
            first_empty_old(pairs, 0) is None,
            pairs == edit_pairs(edits@),
            ne == lf_pairs(pairs),
            total == pairs.len(),
            news@.len() == ne.len(),
            forall|q: int| 0 <= q < news@.len() ==> (#[trigger] news@[q])@ == ne[q].1,
            apply_regions(base@, rv(desc@), ne, 0) == apply_regions(cur@, rv(desc@), ne, j as int),
        decreases desc@.len() - j,
    {
        let r = desc[j];
        assert(rv(desc@)[j as int] == rt(r));
        if r.0 <= cur.len() && r.1 <= cur.len() - r.0 && r.2 < news.len() {
            let mut next = sub_chars(cur.as_slice(), 0, r.0);
            append(&mut next, news[r.2].as_slice());
            let tail = sub_chars(cur.as_slice(), r.0 + r.1, cur.len());
            append(&mut next, tail.as_slice());
            assert(cur@.skip(r.0 + r.1) =~= cur@.subrange(r.0 + r.1, cur@.len() as int));
            assert(cur@.take(r.0 as int) =~= cur@.subrange(0, r.0 as int));
            cur = next;
        }
        j = j + 1;
    }
    if chars_eq(cur.as_slice(), content_chars.as_slice()) {
        return Err(get_no_change_error(path, total));
    }
    Ok(
        AppliedEdits {
            base_content: string_from_chars(content_chars.as_slice()),
            new_content: string_from_chars(cur.as_slice()),
        },
    )
}

/// A file edited: the content to write back, and the LF content before
/// and after the edits.
pub struct EditedFile {
    pub content: String,
    pub base_content: String,
    pub new_content: String,
}

/// What editing a file gives: its byte-order mark, then the edited LF
/// body written back in the body's line-ending style; with the LF body
/// before and after the edits.
pub open spec fn file_outcome(
    raw: Seq<char>,
    pairs: Seq<(Seq<char>, Seq<char>)>,
    path: Seq<char>,
) -> Result<(Seq<char>, Seq<char>, Seq<char>), Seq<char>> {
    let parts = bom_split(raw);
    match edits_outcome(to_lf(parts.1), pairs, path) {
        Ok(v) => Ok(
            (parts.0 + restored(v.1, line_ending(parts.1) == seq!['\r', '\n']), v.0, v.1),
        ),
        Err(e) => Err(e),
    }
}

/// Edit a file's content as the edit tool does.
pub fn edit_file_content(raw: &str, edits: &[Edit], path: &str) -> (r: Result<EditedFile, String>)
    ensures
        match file_outcome(raw@, edit_pairs(edits@), path@) {
            Ok(v) => r matches Ok(f) && f.content@ == v.0 && f.base_content@ == v.1
                && f.new_content@ == v.2,
            Err(e) => r matches Err(m) && m@ == e,
        },
{
    let (bom, body) = strip_bom(raw);
    let ending = detect_line_ending(body.as_str());
    let normalized = normalize_to_lf(body.as_str());
    match apply_edits_to_normalized_content(normalized.as_str(), edits, path) {
        Ok(applied) => {
            let back = restore_line_endings(applied.new_content.as_str(), ending);
            let mut out = chars_of(bom.as_str());
            append_str(&mut out, back.as_str());
            Ok(
                EditedFile {
                    content: string_from_chars(out.as_slice()),
                    base_content: applied.base_content,
                    new_content: applied.new_content,
                },
            )
        },
        Err(e) => Err(e),
    }
}

/// The report of a successful edit.
pub open spec fn edit_report(count: nat, path: Seq<char>) -> Seq<char> {
    "Successfully replaced "@ + decimal(count) + " block(s) in "@ + path + "."@
}

pub fn edit_summary(count: usize, path: &str) -> (r: String)
    ensures
        r@ == edit_report(count as nat, path@),
{
    let mut out: Vec<char> = Vec::new();
    append_str(&mut out, "Successfully replaced ");
    append_decimal(&mut out, count as u64);
    append_str(&mut out, " block(s) in ");
    append_str(&mut out, path);
    append_str(&mut out, ".");
    string_from_chars(out.as_slice())
}

/// The parameters hold at least one edit.
pub open spec fn holds_edits(parsed: Option<EditParams>) -> bool {
    match parsed {
        Some(p) => p.edits.len() > 0,
        None => false,
    }
}

/// The edit arguments: the parameters as read, when they hold at least one
/// edit; else the legacy single `oldText`/`newText` pair (with the path,
/// empty when absent); else an error.
pub fn prepare_edit_arguments(
    parsed: Option<EditParams>,
    path: Option<String>,
    old_text: Option<String>,
    new_text: Option<String>,
) -> (r: Result<EditParams, String>)
    ensures
        holds_edits(parsed) ==> r == Ok::<EditParams, String>(parsed->0),
        !holds_edits(parsed) && old_text is Some && new_text is Some ==> (r matches Ok(q)
            && q.path@ == (match path {
            Some(s) => s@,
            None => Seq::<char>::empty(),
        }) && q.edits@.len() == 1 && q.edits@[0].old_text == old_text->0 && q.edits@[0].new_text
            == new_text->0),
        !holds_edits(parsed) && !(old_text is Some && new_text is Some) ==> (r matches Err(m)
            && m@
            == "Invalid edit parameters: must have 'edits' array or legacy 'oldText'/'newText' fields."@),
{
    if let Some(p) = parsed {
        if p.edits.len() > 0 {
            return Ok(p);
        }
    }
    match (old_text, new_text) {
        (Some(o), Some(n)) => {
            let p = match path {
                Some(s) => s,
                None => {
                    let none: Vec<char> = Vec::new();
                    assert(none@ =~= Seq::<char>::empty());
                    string_from_chars(none.as_slice())
                },
            };
            let mut edits: Vec<Edit> = Vec::new();
            edits.push(Edit { old_text: o, new_text: n });
            Ok(EditParams { path: p, edits })
        },
        _ => {
            let mut out: Vec<char> = Vec::new();
            append_str(
                &mut out,
                "Invalid edit parameters: must have 'edits' array or legacy 'oldText'/'newText' fields.",
            );
            Err(string_from_chars(out.as_slice()))
        },
    }
}

// ── Line-ending laws ────────────────────────────────────────────────────────

pub open spec fn has_no(s: Seq<char>, c: char) -> bool {
    forall|i: int| 0 <= i < s.len() ==> s[i] != c
}

proof fn lemma_replace_absent(s: Seq<char>, c: char, r: Seq<char>)
    requires
        has_no(s, c),
    ensures
        replace_all(s, seq![c], r) == s,
    decreases s.len(),
{
    if s.len() >= 1 {
        assert(s.take(1) != seq![c]) by {
            assert(s.take(1)[0] == s[0]);
        }
        lemma_replace_absent(s.skip(1), c, r);
        assert(seq![s[0]] + s.skip(1) =~= s);
    }
}

proof fn lemma_replace_removes(s: Seq<char>, c: char, d: char)
    requires
        c != d,
    ensures
        has_no(replace_all(s, seq![c], seq![d]), c),
    decreases s.len(),
{
    if s.len() >= 1 {
        lemma_replace_removes(s.skip(1), c, d);
        let rest = replace_all(s.skip(1), seq![c], seq![d]);
        if s.take(1) == seq![c] {
            assert forall|i: int| 0 <= i < (seq![d] + rest).len() implies (seq![d] + rest)[i] != c by {
                if i > 0 {
                    assert((seq![d] + rest)[i] == rest[i - 1]);
                }
            }
        } else {
            assert(s[0] != c) by {
                if s[0] == c {
                    assert(s.take(1) =~= seq![c]);
                }
            }
            assert forall|i: int| 0 <= i < (seq![s[0]] + rest).len() implies (seq![s[0]]
                + rest)[i] != c by {
                if i > 0 {
                    assert((seq![s[0]] + rest)[i] == rest[i - 1]);
                }
            }
        }
    }
}

/// LF normalization leaves no carriage return in the text.
pub proof fn lemma_lf_text_has_no_cr(text: Seq<char>)
    ensures
        has_no(to_lf(text), '\r'),
{
    lemma_replace_removes(replace_all(text, seq!['\r', '\n'], seq!['\n']), '\r', '\n');
}

proof fn lemma_crlf_roundtrip(t: Seq<char>)
    requires
        has_no(t, '\r'),
    ensures
        replace_all(replace_all(t, seq!['\n'], seq!['\r', '\n']), seq!['\r', '\n'], seq!['\n']) == t,
    decreases t.len(),
{
    let nl = seq!['\n'];
    let crlf = seq!['\r', '\n'];
    if t.len() >= 1 {
        let tail = t.skip(1);
        assert(has_no(tail, '\r')) by {
            assert forall|i: int| 0 <= i < tail.len() implies tail[i] != '\r' by {
                assert(tail[i] == t[i + 1]);
            }
        }
        lemma_crlf_roundtrip(tail);
        let ut = replace_all(tail, nl, crlf);
        if t[0] == '\n' {
            assert(t.take(1) =~= nl);
            let u = crlf + ut;
            assert(replace_all(t, nl, crlf) == u);
            assert(u.take(2) =~= crlf);
            assert(u.skip(2) =~= ut);
            assert(replace_all(u, crlf, nl) == nl + replace_all(ut, crlf, nl));
            assert(nl + tail =~= t);
        } else {
            assert(t.take(1) != nl) by {
                assert(t.take(1)[0] == t[0]);
            }
            let u = seq![t[0]] + ut;
            assert(replace_all(t, nl, crlf) == u);
            if u.len() >= 2 {
                assert(u.take(2) != crlf) by {
                    assert(u.take(2)[0] == t[0]);
                    assert(t[0] != '\r');
                }
                assert(u.skip(1) =~= ut);
                assert(replace_all(u, crlf, nl) == seq![t[0]] + replace_all(ut, crlf, nl));
                assert(seq![t[0]] + tail =~= t);
            } else {
                assert(ut.len() == 0);
                assert(replace_all(ut, crlf, nl) == ut);
                assert(tail.len() == 0) by {
                    if tail.len() > 0 {
                        lemma_replace_len_nonzero(tail, nl, crlf);
                    }
                }
                assert(u =~= t);
            }
        }
    }
}

proof fn lemma_replace_len_nonzero(s: Seq<char>, p: Seq<char>, r: Seq<char>)
    requires
        s.len() > 0,
        p.len() > 0,
        r.len() > 0,
    ensures
        replace_all(s, p, r).len() > 0,
{
    if s.len() >= p.len() && s.take(p.len() as int) == p {
    } else if s.len() >= p.len() {
    }
}

/// Writing LF text back with CRLF line endings and normalizing it again
/// gives the LF text back: the edit tool's CRLF files keep their content.
pub proof fn lemma_crlf_restore_then_normalize(text: Seq<char>)
    requires
        has_no(text, '\r'),
    ensures
        to_lf(restored(text, true)) == text,
        to_lf(restored(text, false)) == text,
{
    lemma_crlf_roundtrip(text);
    lemma_replace_absent_pair(text);
    lemma_replace_absent(text, '\r', seq!['\n']);
}

proof fn lemma_replace_absent_pair(text: Seq<char>)
    requires
        has_no(text, '\r'),
    ensures
        replace_all(text, seq!['\r', '\n'], seq!['\n']) == text,
    decreases text.len(),
{
    if text.len() >= 2 {
        assert(text.take(2) != seq!['\r', '\n']) by {
            assert(text.take(2)[0] == text[0]);
        }
        let tail = text.skip(1);
        assert(has_no(tail, '\r')) by {
            assert forall|i: int| 0 <= i < tail.len() implies tail[i] != '\r' by {
                assert(tail[i] == text[i + 1]);
            }
        }
        lemma_replace_absent_pair(tail);
        assert(seq![text[0]] + tail =~= text);
    }
}

/// How many times `c` occurs in `s`.
pub open spec fn count_char(s: Seq<char>, c: char) -> nat
    decreases s.len(),
{
    if s.len() == 0 {
        0
    } else {
        (if s[0] == c {
            1nat
        } else {
            0nat
        }) + count_char(s.skip(1), c)
    }
}

/// How many CRLF pairs occur in `s`.
pub open spec fn count_crlf(s: Seq<char>) -> nat
    decreases s.len(),
{
    if s.len() < 2 {
        0
    } else if s.take(2) == seq!['\r', '\n'] {
        1 + count_crlf(s.skip(2))
    } else {
        count_crlf(s.skip(1))
    }
}

proof fn lemma_count_after_crlf_pass(s: Seq<char>)
    ensures
        count_char(replace_all(s, seq!['\r', '\n'], seq!['\n']), '\n') == count_char(s, '\n'),
        count_char(replace_all(s, seq!['\r', '\n'], seq!['\n']), '\r') + count_crlf(s) == count_char(
            s,
            '\r',
        ),
    decreases s.len(),
{
    let crlf = seq!['\r', '\n'];
    let lf = seq!['\n'];
    if s.len() >= 2 {
        if s.take(2) == crlf {
            assert(s[0] == '\r' && s[1] == '\n') by {
                assert(s.take(2)[0] == s[0]);
                assert(s.take(2)[1] == s[1]);
            }
            lemma_count_after_crlf_pass(s.skip(2));
            let rest = replace_all(s.skip(2), crlf, lf);
            assert((lf + rest)[0] == '\n');
            assert((lf + rest).skip(1) =~= rest);
            assert(s.skip(1).skip(1) =~= s.skip(2));
            assert(s.skip(1)[0] == s[1]);
            assert(count_char(s.skip(1), '\n') == 1 + count_char(s.skip(2), '\n'));
            assert(count_char(s.skip(1), '\r') == count_char(s.skip(2), '\r'));
        } else {
            lemma_count_after_crlf_pass(s.skip(1));
            let rest = replace_all(s.skip(1), crlf, lf);
            assert((seq![s[0]] + rest)[0] == s[0]);
            assert((seq![s[0]] + rest).skip(1) =~= rest);
        }
    }
}

proof fn lemma_count_after_cr_pass(s: Seq<char>)
    ensures
        count_char(replace_all(s, seq!['\r'], seq!['\n']), '\n') == count_char(s, '\n')
            + count_char(s, '\r'),
    decreases s.len(),
{
    let cr = seq!['\r'];
    let lf = seq!['\n'];
    if s.len() >= 1 {
        lemma_count_after_cr_pass(s.skip(1));
        if s.take(1) == cr {
            assert(s[0] == '\r') by {
                assert(s.take(1)[0] == s[0]);
            }
            let rest = replace_all(s.skip(1), cr, lf);
            assert((lf + rest)[0] == '\n');
            assert((lf + rest).skip(1) =~= rest);
        } else {
            assert(s[0] != '\r') by {
                if s[0] == '\r' {
                    assert(s.take(1) =~= cr);
                }
            }
            let rest = replace_all(s.skip(1), cr, lf);
            assert((seq![s[0]] + rest)[0] == s[0]);
            assert((seq![s[0]] + rest).skip(1) =~= rest);
        }
    }
}

/// LF normalization is idempotent, leaves text without carriage returns
/// unchanged, and yields one line feed for each line feed and each carriage
/// return of the text, less one for each CRLF pair.
pub proof fn lemma_lf_normalization(text: Seq<char>)
    ensures
        to_lf(to_lf(text)) == to_lf(text),
        has_no(text, '\r') ==> to_lf(text) == text,
        count_char(to_lf(text), '\n') + count_crlf(text) == count_char(text, '\r') + count_char(
            text,
            '\n',
        ),
{
    let t = to_lf(text);
    lemma_lf_text_has_no_cr(text);
    lemma_replace_absent_pair(t);
    lemma_replace_absent(t, '\r', seq!['\n']);
    if has_no(text, '\r') {
        lemma_replace_absent_pair(text);
        lemma_replace_absent(text, '\r', seq!['\n']);
    }
    lemma_count_after_crlf_pass(text);
    lemma_count_after_cr_pass(replace_all(text, seq!['\r', '\n'], seq!['\n']));
}

// ── Laws of the fuzzy normal form ───────────────────────────────────────────

/// Every character of `s` is one that fuzzy matching keeps as it is.
pub open spec fn fuzzy_fixed(s: Seq<char>) -> bool {
    forall|i: int| 0 <= i < s.len() ==> fuzzy_char(#[trigger] s[i]) == s[i]
}

/// No line of `s` ends in whitespace.
pub open spec fn no_trailing_ws(s: Seq<char>) -> bool {
    forall|i: int|
        0 <= i < split_char(s, '\n').len() ==> (#[trigger] split_char(s, '\n')[i]).len() == 0
            || !is_ws(split_char(s, '\n')[i].last())
}

proof fn lemma_fuzzy_char_fixed(c: char)
    ensures
        fuzzy_char(fuzzy_char(c)) == fuzzy_char(c),
        fuzzy_char(c) == '\n' <==> c == '\n',
{
    assert(('\'' as u32) == 0x27);
    assert(('"' as u32) == 0x22);
    assert(('-' as u32) == 0x2D);
    assert((' ' as u32) == 0x20);
    assert(('\n' as u32) == 0x0A);
}

proof fn lemma_index_of_char(s: Seq<char>, c: char)
    ensures
        index_of(s, c) matches Some(k) ==> 0 <= k < s.len() && s[k] == c && forall|j: int|
            0 <= j < k ==> s[j] != c,
        index_of(s, c) is None ==> has_no(s, c),
{
    lemma_find_from(s, seq![c], 0);
    match index_of(s, c) {
        Some(k) => {
            assert(s.subrange(k, k + 1)[0] == s[k]);
            assert forall|j: int| 0 <= j < k implies s[j] != c by {
                if s[j] == c {
                    assert(s.subrange(j, j + 1) =~= seq![c]);
                    assert(matches_at(s, seq![c], j));
                }
            }
        },
        None => {
            assert forall|j: int| 0 <= j < s.len() implies s[j] != c by {
                if s[j] == c {
                    assert(s.subrange(j, j + 1) =~= seq![c]);
                    assert(matches_at(s, seq![c], j));
                }
            }
        },
    }
}

proof fn lemma_split_pieces(s: Seq<char>, c: char)
    requires
        fuzzy_fixed(s),
    ensures
        forall|i: int|
            0 <= i < split_char(s, c).len() ==> has_no(#[trigger] split_char(s, c)[i], c)
                && fuzzy_fixed(split_char(s, c)[i]),
    decreases s.len(),
{
    lemma_index_of_char(s, c);
    match index_of(s, c) {
        Some(k) => {
            let rest = s.skip(k + 1);
            assert(fuzzy_fixed(rest)) by {
                assert forall|i: int| 0 <= i < rest.len() implies fuzzy_char(#[trigger] rest[i])
                    == rest[i] by {
                    assert(rest[i] == s[i + k + 1]);
                }
            }
            lemma_split_pieces(rest, c);
            let sp = split_char(s, c);
            assert(sp == seq![s.take(k)] + split_char(rest, c));
            assert forall|i: int| 0 <= i < sp.len() implies has_no(#[trigger] sp[i], c)
                && fuzzy_fixed(sp[i]) by {
                if i > 0 {
                    assert(sp[i] == split_char(rest, c)[i - 1]);
                } else {
                    assert(sp[0] == s.take(k));
                    assert forall|j: int| 0 <= j < sp[0].len() implies fuzzy_char(
                        #[trigger] sp[0][j],
                    ) == sp[0][j] by {
                        assert(sp[0][j] == s[j]);
                    }
                }
            }
        },
        None => {},
    }
}

proof fn lemma_split_map_len(s: Seq<char>)
    ensures
        split_char(s.map_values(|c: char| fuzzy_char(c)), '\n').len() == split_char(s, '\n').len(),
    decreases s.len(),
{
    let m = s.map_values(|c: char| fuzzy_char(c));
    lemma_index_of_char(s, '\n');
    lemma_index_of_char(m, '\n');
    assert forall|j: int| 0 <= j < s.len() implies (m[j] == '\n' <==> s[j] == '\n') by {
        lemma_fuzzy_char_fixed(s[j]);
    }
    match index_of(s, '\n') {
        Some(k) => {
            match index_of(m, '\n') {
                Some(k2) => {
                    assert(k2 == k) by {
                        if k2 < k {
                            assert(s[k2] != '\n');
                        } else if k < k2 {
                            assert(m[k] != '\n');
                        }
                    }
                },
                None => {
                    assert(m[k] != '\n');
                },
            }
            assert(m.skip(k + 1) =~= s.skip(k + 1).map_values(|c: char| fuzzy_char(c)));
            lemma_split_map_len(s.skip(k + 1));
        },
        None => {
            match index_of(m, '\n') {
                Some(k2) => {
                    assert(s[k2] != '\n');
                },
                None => {},
            }
        },
    }
}

proof fn lemma_split_join(ps: Seq<Seq<char>>, c: char)
    requires
        ps.len() >= 1,
        forall|i: int| 0 <= i < ps.len() ==> has_no(#[trigger] ps[i], c),
    ensures
        split_char(join(ps, seq![c]), c) == ps,
    decreases ps.len(),
{
    if ps.len() == 1 {
        assert(has_no(ps[0], c));
        lemma_index_of_char(ps[0], c);
        assert(seq![ps[0]] =~= ps);
    } else {
        let p0 = ps[0];
        let rest = ps.skip(1);
        assert(seq![p0] + rest =~= ps);
        lemma_join_concat(seq![p0], rest, seq![c]);
        let jr = join(rest, seq![c]);
        let s = join(ps, seq![c]);
        assert(s == p0 + seq![c] + jr);
        let k = p0.len() as int;
        assert(has_no(p0, c));
        lemma_index_of_char(s, c);
        assert(s[k] == c);
        match index_of(s, c) {
            Some(k2) => {
                assert(k2 == k) by {
                    if k2 < k {
                        assert(s[k2] == p0[k2]);
                    }
                }
            },
            None => {},
        }
        assert(s.take(k) =~= p0);
        assert(s.skip(k + 1) =~= jr);
        assert forall|i: int| 0 <= i < rest.len() implies has_no(#[trigger] rest[i], c) by {
            assert(rest[i] == ps[i + 1]);
        }
        lemma_split_join(rest, c);
    }
}

proof fn lemma_join_fixed(ps: Seq<Seq<char>>, sep: Seq<char>)
    requires
        forall|i: int| 0 <= i < ps.len() ==> fuzzy_fixed(#[trigger] ps[i]),
        fuzzy_fixed(sep),
    ensures
        fuzzy_fixed(join(ps, sep)),
    decreases ps.len(),
{
    if ps.len() == 1 {
        assert(fuzzy_fixed(ps[0]));
    } else if ps.len() > 1 {
        let a = ps.drop_last();
        assert forall|i: int| 0 <= i < a.len() implies fuzzy_fixed(#[trigger] a[i]) by {
            assert(a[i] == ps[i]);
        }
        lemma_join_fixed(a, sep);
        let ja = join(a, sep);
        let l = ps.last();
        assert(fuzzy_fixed(l));
        let j = ja + sep + l;
        assert forall|i: int| 0 <= i < j.len() implies fuzzy_char(#[trigger] j[i]) == j[i] by {
            if i < ja.len() {
                assert(j[i] == ja[i]);
            } else if i < ja.len() + sep.len() {
                assert(j[i] == sep[i - ja.len()]);
            } else {
                assert(j[i] == l[i - ja.len() - sep.len()]);
            }
        }
    }
}

proof fn lemma_trim_end_shape(x: Seq<char>)
    ensures
        trim_end(x).len() <= x.len(),
        forall|i: int| 0 <= i < trim_end(x).len() ==> #[trigger] trim_end(x)[i] == x[i],
        trim_end(x).len() > 0 ==> !is_ws(trim_end(x).last()),
        trim_end(trim_end(x)) == trim_end(x),
    decreases x.len(),
{
    if x.len() > 0 && is_ws(x.last()) {
        lemma_trim_end_shape(x.drop_last());
    }
}

/// The fuzzy normal form is a fixed point of fuzzy normalization, has as
/// many lines as the text, no line of it ends in whitespace, and it holds
/// no character that fuzzy matching would map (no smart quote, dash or
/// special space).
pub proof fn lemma_fuzzy_normal_form(text: Seq<char>)
    ensures
        fuzzy_normal(fuzzy_normal(text)) == fuzzy_normal(text),
        split_char(fuzzy_normal(text), '\n').len() == split_char(text, '\n').len(),
        no_trailing_ws(fuzzy_normal(text)),
        fuzzy_fixed(fuzzy_normal(text)),
{
    let m = text.map_values(|c: char| fuzzy_char(c));
    assert(fuzzy_fixed(m)) by {
        assert forall|i: int| 0 <= i < m.len() implies fuzzy_char(#[trigger] m[i]) == m[i] by {
            lemma_fuzzy_char_fixed(text[i]);
        }
    }
    let sp = split_char(m, '\n');
    lemma_split_char_nonempty(m, '\n');
    lemma_split_pieces(m, '\n');
    let ls = sp.map_values(|l: Seq<char>| trim_end(l));
    assert forall|i: int| 0 <= i < ls.len() implies has_no(#[trigger] ls[i], '\n') && fuzzy_fixed(
        ls[i],
    ) && trim_end(ls[i]) == ls[i] && (ls[i].len() == 0 || !is_ws(ls[i].last())) by {
        lemma_trim_end_shape(sp[i]);
        assert(has_no(sp[i], '\n') && fuzzy_fixed(sp[i]));
        assert forall|j: int| 0 <= j < ls[i].len() implies ls[i][j] != '\n' && fuzzy_char(
            ls[i][j],
        ) == ls[i][j] by {
            assert(ls[i][j] == sp[i][j]);
        }
    }
    let f = join(ls, seq!['\n']);
    assert(f == fuzzy_normal(text));
    assert(fuzzy_fixed(seq!['\n'])) by {
        lemma_fuzzy_char_fixed('\n');
    }
    lemma_join_fixed(ls, seq!['\n']);
    lemma_split_join(ls, '\n');
    assert(f.map_values(|c: char| fuzzy_char(c)) =~= f);
    assert(ls.map_values(|l: Seq<char>| trim_end(l)) =~= ls);
    lemma_split_map_len(text);
}

// ── Law of clean application ────────────────────────────────────────────────

/// Every replacement of the list from position `j`, applied in turn, lies
/// within the text it is applied to.
pub open spec fn applies_cleanly(
    cur: Seq<char>,
    d: Seq<(int, int, int)>,
    ne: Seq<(Seq<char>, Seq<char>)>,
    j: int,
) -> bool
    decreases d.len() - j,
{
    if j < 0 || j >= d.len() {
        true
    } else {
        let r = d[j];
        &&& 0 <= r.0
        &&& 0 <= r.1
        &&& r.0 + r.1 <= cur.len()
        &&& 0 <= r.2 < ne.len()
        &&& applies_cleanly(cur.take(r.0) + ne[r.2].1 + cur.skip(r.0 + r.1), d, ne, j + 1)
    }
}

spec fn all_regions(s: Seq<(int, int, int)>, p: spec_fn((int, int, int)) -> bool) -> bool {
    forall|k: int| 0 <= k < s.len() ==> #[trigger] p(s[k])
}

spec fn no_dup(s: Seq<(int, int, int)>) -> bool {
    forall|a: int, b: int| 0 <= a < b < s.len() ==> s[a] != s[b]
}

proof fn lemma_insert_all(
    s: Seq<(int, int, int)>,
    r: (int, int, int),
    desc: bool,
    p: spec_fn((int, int, int)) -> bool,
)
    requires
        all_regions(s, p),
        p(r),
    ensures
        all_regions(insert_region(s, r, desc), p),
        insert_region(s, r, desc).len() == s.len() + 1,
        insert_region(s, r, desc).contains(r),
        forall|k: int| 0 <= k < s.len() ==> insert_region(s, r, desc).contains(#[trigger] s[k]),
    decreases s.len(),
{
    let t = insert_region(s, r, desc);
    if s.len() == 0 {
        assert(t[0] == r);
    } else if (if desc {
        s[0].0 < r.0
    } else {
        s[0].0 > r.0
    }) {
        assert(t[0] == r);
        assert forall|k: int| 0 <= k < t.len() implies #[trigger] p(t[k]) by {
            if k > 0 {
                assert(t[k] == s[k - 1]);
            }
        }
        assert forall|k: int| 0 <= k < s.len() implies t.contains(#[trigger] s[k]) by {
            assert(t[k + 1] == s[k]);
        }
    } else {
        let u = insert_region(s.skip(1), r, desc);
        assert(all_regions(s.skip(1), p)) by {
            assert forall|k: int| 0 <= k < s.skip(1).len() implies #[trigger] p(s.skip(1)[k]) by {
                assert(s.skip(1)[k] == s[k + 1]);
            }
        }
        lemma_insert_all(s.skip(1), r, desc, p);
        assert(t == seq![s[0]] + u);
        assert forall|k: int| 0 <= k < t.len() implies #[trigger] p(t[k]) by {
            if k > 0 {
                assert(t[k] == u[k - 1]);
            }
        }
        let ku = choose|k: int| 0 <= k < u.len() && u[k] == r;
        assert(t[ku + 1] == r);
        assert forall|k: int| 0 <= k < s.len() implies t.contains(#[trigger] s[k]) by {
            if k == 0 {
                assert(t[0] == s[0]);
            } else {
                assert(s.skip(1)[k - 1] == s[k]);
                let m = choose|m: int| 0 <= m < u.len() && u[m] == s.skip(1)[k - 1];
                assert(t[m + 1] == s[k]);
            }
        }
    }
}

proof fn lemma_sort_all(rs: Seq<(int, int, int)>, desc: bool, p: spec_fn((int, int, int)) -> bool)
    requires
        all_regions(rs, p),
    ensures
        all_regions(sort_regions(rs, desc), p),
        sort_regions(rs, desc).len() == rs.len(),
        forall|k: int| 0 <= k < rs.len() ==> sort_regions(rs, desc).contains(#[trigger] rs[k]),
    decreases rs.len(),
{
    if rs.len() > 0 {
        let a = rs.drop_last();
        assert(all_regions(a, p)) by {
            assert forall|k: int| 0 <= k < a.len() implies #[trigger] p(a[k]) by {
                assert(a[k] == rs[k]);
            }
        }
        lemma_sort_all(a, desc, p);
        assert(p(rs.last()));
        lemma_insert_all(sort_regions(a, desc), rs.last(), desc, p);
        let sa = sort_regions(a, desc);
        assert forall|k: int| 0 <= k < rs.len() implies sort_regions(rs, desc).contains(
            #[trigger] rs[k],
        ) by {
            if k < rs.len() - 1 {
                assert(a[k] == rs[k]);
                assert(sa.contains(a[k]));
                let m = choose|m: int| 0 <= m < sa.len() && sa[m] == a[k];
                assert(sa.contains(sa[m]));
            }
        }
    }
}

proof fn lemma_insert_no_dup(s: Seq<(int, int, int)>, r: (int, int, int), desc: bool)
    requires
        no_dup(s),
        !s.contains(r),
    ensures
        no_dup(insert_region(s, r, desc)),
    decreases s.len(),
{
    let t = insert_region(s, r, desc);
    if s.len() == 0 {
    } else if (if desc {
        s[0].0 < r.0
    } else {
        s[0].0 > r.0
    }) {
        assert forall|a: int, b: int| 0 <= a < b < t.len() implies t[a] != t[b] by {
            if a == 0 {
                assert(t[b] == s[b - 1]);
            } else {
                assert(t[a] == s[a - 1] && t[b] == s[b - 1]);
            }
        }
    } else {
        let rest = s.skip(1);
        assert(no_dup(rest)) by {
            assert forall|a: int, b: int| 0 <= a < b < rest.len() implies rest[a] != rest[b] by {
                assert(rest[a] == s[a + 1] && rest[b] == s[b + 1]);
            }
        }
        assert(!rest.contains(r)) by {
            if rest.contains(r) {
                let m = choose|m: int| 0 <= m < rest.len() && rest[m] == r;
                assert(s[m + 1] == r);
            }
        }
        lemma_insert_no_dup(rest, r, desc);
        let u = insert_region(rest, r, desc);
        let s0 = s[0];
        let p = |x: (int, int, int)| x != s0;
        assert(all_regions(rest, p)) by {
            assert forall|k: int| 0 <= k < rest.len() implies #[trigger] p(rest[k]) by {
                assert(rest[k] == s[k + 1]);
            }
        }
        assert(p(r)) by {
            if r == s0 {
                assert(s.contains(r));
            }
        }
        lemma_insert_all(rest, r, desc, p);
        assert(t == seq![s0] + u);
        assert forall|a: int, b: int| 0 <= a < b < t.len() implies t[a] != t[b] by {
            if a == 0 {
                assert(t[b] == u[b - 1]);
                assert(p(u[b - 1]));
            } else {
                assert(t[a] == u[a - 1] && t[b] == u[b - 1]);
            }
        }
    }
}

proof fn lemma_sort_no_dup(rs: Seq<(int, int, int)>, desc: bool)
    requires
        no_dup(rs),
    ensures
        no_dup(sort_regions(rs, desc)),
    decreases rs.len(),
{
    if rs.len() > 0 {
        let a = rs.drop_last();
        let l = rs.last();
        assert(no_dup(a)) by {
            assert forall|x: int, y: int| 0 <= x < y < a.len() implies a[x] != a[y] by {
                assert(a[x] == rs[x] && a[y] == rs[y]);
            }
        }
        lemma_sort_no_dup(a, desc);
        let p = |x: (int, int, int)| x != l;
        assert(all_regions(a, p)) by {
            assert forall|k: int| 0 <= k < a.len() implies #[trigger] p(a[k]) by {
                assert(a[k] == rs[k]);
            }
        }
        lemma_sort_all(a, desc, p);
        let sa = sort_regions(a, desc);
        assert(!sa.contains(l)) by {
            if sa.contains(l) {
                let m = choose|m: int| 0 <= m < sa.len() && sa[m] == l;
                assert(p(sa[m]));
            }
        }
        lemma_insert_no_dup(sa, l, desc);
    }
}

spec fn desc_sorted(s: Seq<(int, int, int)>) -> bool {
    forall|a: int, b: int| 0 <= a < b < s.len() ==> s[a].0 >= s[b].0
}

proof fn lemma_insert_desc_sorted(s: Seq<(int, int, int)>, r: (int, int, int))
    requires
        desc_sorted(s),
    ensures
        desc_sorted(insert_region(s, r, true)),
    decreases s.len(),
{
    let t = insert_region(s, r, true);
    if s.len() == 0 {
    } else if s[0].0 < r.0 {
        assert forall|a: int, b: int| 0 <= a < b < t.len() implies t[a].0 >= t[b].0 by {
            if a == 0 {
                assert(t[b] == s[b - 1]);
                assert(s[0].0 >= s[b - 1].0 || b - 1 == 0);
            } else {
                assert(t[a] == s[a - 1] && t[b] == s[b - 1]);
            }
        }
    } else {
        let rest = s.skip(1);
        assert(desc_sorted(rest)) by {
            assert forall|a: int, b: int| 0 <= a < b < rest.len() implies rest[a].0 >= rest[b].0 by {
                assert(rest[a] == s[a + 1] && rest[b] == s[b + 1]);
            }
        }
        lemma_insert_desc_sorted(rest, r);
        let u = insert_region(rest, r, true);
        let s0 = s[0];
        let p = |x: (int, int, int)| x.0 <= s0.0;
        assert(all_regions(rest, p)) by {
            assert forall|k: int| 0 <= k < rest.len() implies #[trigger] p(rest[k]) by {
                assert(rest[k] == s[k + 1]);
            }
        }
        lemma_insert_all(rest, r, true, p);
        assert(t == seq![s0] + u);
        assert forall|a: int, b: int| 0 <= a < b < t.len() implies t[a].0 >= t[b].0 by {
            if a == 0 {
                assert(t[b] == u[b - 1]);
                assert(p(u[b - 1]));
            } else {
                assert(t[a] == u[a - 1] && t[b] == u[b - 1]);
            }
        }
    }
}

proof fn lemma_sort_desc_sorted(rs: Seq<(int, int, int)>)
    ensures
        desc_sorted(sort_regions(rs, true)),
    decreases rs.len(),
{
    if rs.len() > 0 {
        lemma_sort_desc_sorted(rs.drop_last());
        lemma_insert_desc_sorted(sort_regions(rs.drop_last(), true), rs.last());
    }
}

proof fn lemma_no_overlap_steps(asc: Seq<(int, int, int)>, k: int)
    requires
        1 <= k,
        first_overlap(asc, k) is None,
    ensures
        forall|j: int| k <= j < asc.len() ==> asc[j - 1].0 + asc[j - 1].1 <= (#[trigger] asc[j]).0,
    decreases asc.len() - k,
{
    if k < asc.len() {
        lemma_no_overlap_steps(asc, k + 1);
    }
}

proof fn lemma_no_overlap_chain(asc: Seq<(int, int, int)>, p: int, q: int)
    requires
        0 <= p < q < asc.len(),
        forall|j: int| 1 <= j < asc.len() ==> asc[j - 1].0 + asc[j - 1].1 <= (#[trigger] asc[j]).0,
        forall|j: int| 0 <= j < asc.len() ==> #[trigger] asc[j].1 >= 0,
    ensures
        asc[p].0 + asc[p].1 <= asc[q].0,
    decreases q - p,
{
    assert(asc[q - 1].0 + asc[q - 1].1 <= asc[q].0);
    if q > p + 1 {
        lemma_no_overlap_chain(asc, p, q - 1);
        assert(asc[q - 1].1 >= 0);
        assert(asc[q - 1].0 + asc[q - 1].1 <= asc[q].0);
    }
}

proof fn lemma_fold_clean(cur: Seq<char>, d: Seq<(int, int, int)>, ne: Seq<(Seq<char>, Seq<char>)>, j: int)
    requires
        0 <= j <= d.len(),
        forall|k: int|
            j <= k < d.len() ==> 0 <= (#[trigger] d[k]).0 && 0 <= d[k].1 && 0 <= d[k].2 < ne.len(),
        forall|k: int| j < k < d.len() ==> #[trigger] d[k].0 + d[k].1 <= d[k - 1].0,
        j < d.len() ==> d[j].0 + d[j].1 <= cur.len(),
    ensures
        applies_cleanly(cur, d, ne, j),
    decreases d.len() - j,
{
    if j < d.len() {
        let r = d[j];
        let next = cur.take(r.0) + ne[r.2].1 + cur.skip(r.0 + r.1);
        assert(next.len() >= r.0);
        if j + 1 < d.len() {
            assert(d[j + 1].0 + d[j + 1].1 <= d[j].0);
        }
        lemma_fold_clean(next, d, ne, j + 1);
    }
}

proof fn lemma_no_empty_old(pairs: Seq<(Seq<char>, Seq<char>)>, i: int)
    requires
        0 <= i,
        first_empty_old(pairs, i) is None,
    ensures
        forall|j: int| i <= j < pairs.len() ==> (#[trigger] pairs[j]).0.len() > 0,
    decreases pairs.len() - i,
{
    if i < pairs.len() {
        lemma_no_empty_old(pairs, i + 1);
    }
}

proof fn lemma_all_matched(base: Seq<char>, ne: Seq<(Seq<char>, Seq<char>)>, path: Seq<char>, i: int)
    requires
        0 <= i,
        match_failure(base, ne, path, i) is None,
    ensures
        forall|j: int|
            i <= j < ne.len() ==> #[trigger] fuzzy_find(base, ne[j].0).0 && count_matches(
                fuzzy_normal(base),
                fuzzy_normal(ne[j].0),
            ) <= 1,
    decreases ne.len() - i,
{
    if i < ne.len() {
        lemma_all_matched(base, ne, path, i + 1);
    }
}

proof fn lemma_region_bounds(content: Seq<char>, ne: Seq<(Seq<char>, Seq<char>)>, i: int)
    requires
        0 <= i < ne.len(),
        ne[i].0.len() > 0,
        fuzzy_find(replacement_base(content, ne), ne[i].0).0,
        count_matches(
            fuzzy_normal(replacement_base(content, ne)),
            fuzzy_normal(ne[i].0),
        ) <= 1,
    ensures
        ({
            let base = replacement_base(content, ne);
            let r = regions(base, ne)[i];
            &&& 0 <= r.0
            &&& 0 <= r.1
            &&& r.0 + r.1 <= base.len()
            &&& r.2 == i
            &&& (r.1 == 0 ==> base.len() == 0)
        }),
{
    let base = replacement_base(content, ne);
    let old = ne[i].0;
    lemma_find_from(base, old, 0);
    lemma_find_from(fuzzy_normal(base), fuzzy_normal(old), 0);
    lemma_fuzzy_normal_len(base);
    if find(base, old) is None {
        if uses_fuzzy(content, ne) {
            lemma_fuzzy_normal_form(content);
        } else {
            assert(!fuzzy_find(content, ne[i].0).3);
        }
    }
}

/// In every successful edit, each replacement, applied in turn from the
/// last region to the first, lies within the text it is applied to: the
/// checks leave no edit that falls outside the text or writes over what
/// another edit put in.
pub proof fn lemma_edits_apply_cleanly(
    content: Seq<char>,
    pairs: Seq<(Seq<char>, Seq<char>)>,
    path: Seq<char>,
)
    requires
        edits_outcome(content, pairs, path) is Ok,
    ensures
        applies_cleanly(
            replacement_base(content, lf_pairs(pairs)),
            sort_regions(regions(replacement_base(content, lf_pairs(pairs)), lf_pairs(pairs)), true),
            lf_pairs(pairs),
            0,
        ),
{
    let ne = lf_pairs(pairs);
    let base = replacement_base(content, ne);
    let rs = regions(base, ne);
    let n = ne.len() as int;
    lemma_no_empty_old(pairs, 0);
    lemma_all_matched(base, ne, path, 0);
    assert forall|i: int| 0 <= i < n implies (#[trigger] ne[i]).0.len() > 0 by {
        assert(pairs[i].0.len() > 0);
        lemma_replace_len_nonzero(pairs[i].0, seq!['\r', '\n'], seq!['\n']);
        lemma_replace_len_nonzero(
            replace_all(pairs[i].0, seq!['\r', '\n'], seq!['\n']),
            seq!['\r'],
            seq!['\n'],
        );
    }
    let ok = |x: (int, int, int)|
        0 <= x.2 < n && rs[x.2] == x && 0 <= x.0 && 0 <= x.1 && x.0 + x.1 <= base.len() && (x.1
            == 0 ==> base.len() == 0);
    assert(all_regions(rs, ok)) by {
        assert forall|k: int| 0 <= k < rs.len() implies #[trigger] ok(rs[k]) by {
            assert(fuzzy_find(base, ne[k].0).0);
            lemma_region_bounds(content, ne, k);
        }
    }
    assert(no_dup(rs)) by {
        assert forall|a: int, b: int| 0 <= a < b < rs.len() implies rs[a] != rs[b] by {
            assert(rs[a].2 == a && rs[b].2 == b);
        }
    }
    let asc = sort_regions(rs, false);
    let d = sort_regions(rs, true);
    lemma_sort_all(rs, false, ok);
    lemma_sort_all(rs, true, ok);
    lemma_sort_no_dup(rs, true);
    lemma_sort_desc_sorted(rs);
    lemma_no_overlap_steps(asc, 1);
    assert forall|j: int| 0 <= j < asc.len() implies #[trigger] asc[j].1 >= 0 by {
        assert(ok(asc[j]));
    }
    assert forall|k: int|
        0 <= k < d.len() implies 0 <= (#[trigger] d[k]).0 && 0 <= d[k].1 && 0 <= d[k].2
        < ne.len() by {
        assert(ok(d[k]));
    }
    assert forall|k: int| 0 < k < d.len() implies #[trigger] d[k].0 + d[k].1 <= d[k - 1].0 by {
        let x = d[k - 1];
        let y = d[k];
        assert(ok(x) && ok(y));
        assert(x != y);
        assert(x.0 >= y.0);
        assert(asc.contains(rs[x.2]) && asc.contains(rs[y.2]));
        let p = choose|p: int| 0 <= p < asc.len() && asc[p] == x;
        let q = choose|q: int| 0 <= q < asc.len() && asc[q] == y;
        if p < q {
            lemma_no_overlap_chain(asc, p, q);
        } else {
            lemma_no_overlap_chain(asc, q, p);
        }
    }
    if d.len() > 0 {
        assert(ok(d[0]));
    }
    lemma_fold_clean(base, d, ne, 0);
}

} // verus!
