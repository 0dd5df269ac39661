//! Skill discovery: the decisions made while walking skill directories.
//!
//! Reading directories and files is left to the caller. This module holds
//! what is decided on the way: ignore rules taken from `.gitignore`-style
//! files and the glob matching behind them, which directory entries are
//! visited, where a configured path's skills count as coming from, and how
//! skills found in several places are merged (duplicates by real path are
//! dropped; a second skill with a taken name is reported as a collision).

use vstd::prelude::*;
use crate::skills::{diag_view, DiagnosticLevel, LoadSkillsResult, ResourceDiagnostic, Skill};
use crate::text::{
    append, append_str, chars_eq, chars_eq_str, chars_of, ends_with, ends_with_exec, find,
    find_exec, lines, lines_exec, replace_all, replace_all_exec, seq_contains_char,
    starts_with, starts_with_exec, string_from_chars, sub_chars, trim, trim_chars,
};

verus! {

// ── Regular expressions ─────────────────────────────────────────────────────

/// The characters `regex::escape` escapes.
pub open spec fn is_regex_meta(c: char) -> bool {
    c == '\\' || c == '.' || c == '+' || c == '*' || c == '?' || c == '(' || c == ')' || c == '|'
        || c == '[' || c == ']' || c == '{' || c == '}' || c == '^' || c == '$' || c == '#' || c
        == '&' || c == '-' || c == '~'
}

/// `s` with a backslash before every meta character.
pub open spec fn regex_escaped(s: Seq<char>) -> Seq<char>
    decreases s.len(),
{
    if s.len() == 0 {
        Seq::empty()
    } else {
        regex_escaped(s.drop_last()) + if is_regex_meta(s.last()) {
            seq!['\\', s.last()]
        } else {
            seq![s.last()]
        }
    }
}

/// `regex::escape`: every meta character gets a backslash in front of it,
/// all other characters are kept.
#[verifier::external_body]
fn regex_escape(text: &str) -> (r: String)
    ensures
        r@ == regex_escaped(text@),
{
    regex::escape(text)
}

/// Whether `text` has a match of the regular expression `pattern`
/// (`regex::Regex::new(pattern)` followed by `is_match(text)`); `None` when
/// the pattern does not compile.
pub uninterp spec fn regex_search(pattern: Seq<char>, text: Seq<char>) -> Option<bool>;

/// `regex::Regex::new(pattern)`, then `Regex::is_match(text)` on the
/// compiled expression; `None` when compiling fails. The result is named,
/// not stated.
#[verifier::external_body]
fn regex_matches(pattern: &str, text: &str) -> (r: Option<bool>)
    ensures
        r == regex_search(pattern@, text@),
{
    match regex::Regex::new(pattern) {
        Ok(re) => Some(re.is_match(text)),
        Err(_) => None,
    }
}

// ── Glob matching ───────────────────────────────────────────────────────────

/// `s` without trailing `c` characters.
pub open spec fn trim_end_char(s: Seq<char>, c: char) -> Seq<char>
    decreases s.len(),
{
    if s.len() > 0 && s.last() == c {
        trim_end_char(s.drop_last(), c)
    } else {
        s
    }
}

/// `s` without leading `c` characters.
pub open spec fn trim_start_char(s: Seq<char>, c: char) -> Seq<char>
    decreases s.len(),
{
    if s.len() > 0 && s[0] == c {
        trim_start_char(s.drop_first(), c)
    } else {
        s
    }
}

/// `s` without leading repetitions of the non-empty `p`.
pub open spec fn trim_start_seq(s: Seq<char>, p: Seq<char>) -> Seq<char>
    decreases s.len(),
{
    if p.len() > 0 && starts_with(s, p) {
        trim_start_seq(s.skip(p.len() as int), p)
    } else {
        s
    }
}

/// The two sides of the only `**` in `pattern`, if it has exactly one
/// (splitting at `**` gives two pieces).
pub open spec fn double_star_sides(pattern: Seq<char>) -> Option<(Seq<char>, Seq<char>)> {
    match find(pattern, "**"@) {
        Some(k) => if find(pattern.skip(k + 2), "**"@) is None {
            Some((pattern.take(k), pattern.skip(k + 2)))
        } else {
            None
        },
        None => None,
    }
}

/// The regular expression for a `*` pattern: anchored, literal except that
/// `*` matches any run of characters other than `/`.
pub open spec fn glob_regex(pattern: Seq<char>) -> Seq<char> {
    "^"@ + replace_all(regex_escaped(pattern), "\\*"@, "[^/]*"@) + "$"@
}

/// Whether `path` matches an ignore pattern. A pattern with a single `**`
/// matches by its sides: with nothing before it, any path ending in what
/// follows it; otherwise a path starting with what is before and ending
/// with what is after, or the pattern without its leading `**/`. Other
/// patterns with `*` go through a regular expression; the rest must be
/// equal to the path.
pub open spec fn glob_matches(path: Seq<char>, pattern: Seq<char>) -> bool {
    match double_star_sides(pattern) {
        Some((before, after)) => {
            let prefix = trim_end_char(before, '/');
            let suffix = trim_start_char(after, '/');
            if prefix.len() == 0 {
                ends_with(path, suffix) || path == suffix
            } else {
                (starts_with(path, prefix) && ends_with(path, suffix)) || path == trim_start_seq(
                    pattern,
                    "**/"@,
                )
            }
        },
        None => if seq_contains_char(pattern, '*') {
            regex_search(glob_regex(pattern), path) == Some(true)
        } else {
            path == pattern
        },
    }
}

fn trim_end_char_exec(s: &[char], c: char) -> (v: Vec<char>)
    ensures
        v@ == trim_end_char(s@, c),
{
    let mut k: usize = s.len();
    assert(s@.take(k as int) =~= s@);
    while k > 0 && s[k - 1] == c
        invariant
            k <= s@.len(),
            trim_end_char(s@, c) == trim_end_char(s@.take(k as int), c),
        decreases k,
    {
        assert(s@.take(k as int).drop_last() =~= s@.take(k - 1));
        k = k - 1;
    }
    sub_chars(s, 0, k)
}

fn trim_start_char_exec(s: &[char], c: char) -> (v: Vec<char>)
    ensures
        v@ == trim_start_char(s@, c),
{
    let mut k: usize = 0;
    assert(s@.skip(0) =~= s@);
    while k < s.len() && s[k] == c
        invariant
            k <= s@.len(),
            trim_start_char(s@, c) == trim_start_char(s@.skip(k as int), c),
        decreases s@.len() - k,
    {
        assert(s@.skip(k as int).drop_first() =~= s@.skip(k + 1));
        k = k + 1;
    }
    sub_chars(s, k, s.len())
}

fn trim_start_seq_exec(s: &[char], p: &[char]) -> (v: Vec<char>)
    requires
        p@.len() > 0,
    ensures
        v@ == trim_start_seq(s@, p@),
{
    let mut k: usize = 0;
    assert(s@.skip(0) =~= s@);
    loop
        invariant
            k <= s@.len(),
            p@.len() > 0,
            trim_start_seq(s@, p@) == trim_start_seq(s@.skip(k as int), p@),
        decreases s@.len() - k,
    {
        let rest = sub_chars(s, k, s.len());
        if !starts_with_exec(rest.as_slice(), p) {
            return rest;
        }
        assert(rest@.skip(p@.len() as int) =~= s@.skip(k + p@.len()));
        k = k + p.len();
    }
}

fn contains_char_exec(s: &[char], c: char) -> (r: bool)
    ensures
        r == seq_contains_char(s@, c),
{
    let mut i: usize = 0;
    while i < s.len()
        invariant
            0 <= i <= s@.len(),
            forall|j: int| 0 <= j < i ==> s@[j] != c,
        decreases s@.len() - i,
    {
        if s[i] == c {
            return true;
        }
        i = i + 1;
    }
    false
}

/// Whether `path` matches the ignore pattern `pattern`.
pub fn glob_match(path: &str, pattern: &str) -> (r: bool)
    ensures
        r == glob_matches(path@, pattern@),
{
    let pv = chars_of(pattern);
    let path_v = chars_of(path);
    let star2 = chars_of("**");
    proof {
        reveal_strlit("**");
    }
    match find_exec(pv.as_slice(), star2.as_slice()) {
        Some(k) => {
            proof {
                crate::text::lemma_find_from(pv@, star2@, 0);
            }
            let after = sub_chars(pv.as_slice(), k + 2, pv.len());
            assert(after@ =~= pattern@.skip(k + 2));
            if find_exec(after.as_slice(), star2.as_slice()).is_none() {
                let before = sub_chars(pv.as_slice(), 0, k);
                assert(before@ =~= pattern@.take(k as int));
                let prefix = trim_end_char_exec(before.as_slice(), '/');
                let suffix = trim_start_char_exec(after.as_slice(), '/');
                if prefix.len() == 0 {
                    return ends_with_exec(path_v.as_slice(), suffix.as_slice()) || chars_eq(
                        path_v.as_slice(),
                        suffix.as_slice(),
                    );
                }
                let lead = chars_of("**/");
                proof {
                    reveal_strlit("**/");
                }
                let trimmed = trim_start_seq_exec(pv.as_slice(), lead.as_slice());
                return (starts_with_exec(path_v.as_slice(), prefix.as_slice()) && ends_with_exec(
                    path_v.as_slice(),
                    suffix.as_slice(),
                )) || chars_eq(path_v.as_slice(), trimmed.as_slice());
            }
        },
        None => {},
    }
    if contains_char_exec(pv.as_slice(), '*') {
        let escaped = regex_escape(pattern);
        let ev = chars_of(escaped.as_str());
        let star = chars_of("\\*");
        let any = chars_of("[^/]*");
        proof {
            reveal_strlit("\\*");
        }
        let replaced = replace_all_exec(ev.as_slice(), star.as_slice(), any.as_slice());
        let mut re: Vec<char> = Vec::new();
        append_str(&mut re, "^");
        append(&mut re, replaced.as_slice());
        append_str(&mut re, "$");
        let re_text = string_from_chars(re.as_slice());
        assert(re_text@ =~= glob_regex(pattern@));
        match regex_matches(re_text.as_str(), path) {
            Some(b) => b,
            None => false,
        }
    } else {
        chars_eq(path_v.as_slice(), pv.as_slice())
    }
}

} // verus!

verus! {

// ── Ignore rules ────────────────────────────────────────────────────────────

/// A rule starting with `!` re-includes what it matches.
pub open spec fn is_negated(rule: Seq<char>) -> bool {
    rule.len() > 0 && rule[0] == '!'
}

/// The glob part of a rule.
pub open spec fn rule_glob(rule: Seq<char>) -> Seq<char> {
    if is_negated(rule) {
        rule.drop_first()
    } else {
        rule
    }
}

/// Index of the first rule, from `i` on, whose glob matches `path`.
pub open spec fn first_matching_rule(rules: Seq<Seq<char>>, path: Seq<char>, i: int) -> Option<int>
    decreases rules.len() - i,
{
    if i < 0 || i >= rules.len() {
        None
    } else if glob_matches(path, rule_glob(rules[i])) {
        Some(i)
    } else {
        first_matching_rule(rules, path, i + 1)
    }
}

/// The first rule that matches decides: a plain rule ignores the path, a
/// negated one keeps it. Without a matching rule the path is kept.
pub open spec fn ignored_by(rules: Seq<Seq<char>>, path: Seq<char>) -> bool {
    match first_matching_rule(rules, path, 0) {
        Some(i) => !is_negated(rules[i]),
        None => false,
    }
}

/// What one line of an ignore file contributes: nothing for blank lines and
/// comments; otherwise the pattern, without a leading `/`, placed under
/// `prefix` and keeping its `!`.
pub open spec fn ignore_line_rule(line: Seq<char>, prefix: Seq<char>) -> Option<Seq<char>> {
    let t = trim(line);
    if t.len() == 0 || t[0] == '#' {
        None
    } else {
        let negated = t[0] == '!';
        let p = if negated {
            t.drop_first()
        } else {
            t
        };
        let p = if p.len() > 0 && p[0] == '/' {
            p.drop_first()
        } else {
            p
        };
        Some(
            if negated {
                "!"@ + prefix + p
            } else {
                prefix + p
            },
        )
    }
}

pub open spec fn ignore_rules_of(ls: Seq<Seq<char>>, prefix: Seq<char>) -> Seq<Seq<char>>
    decreases ls.len(),
{
    if ls.len() == 0 {
        Seq::empty()
    } else {
        ignore_rules_of(ls.drop_last(), prefix) + match ignore_line_rule(ls.last(), prefix) {
            Some(r) => seq![r],
            None => Seq::empty(),
        }
    }
}

/// Rules are placed under the ignore file's directory, relative to the
/// root being walked (`dir/`, or nothing at the root).
pub open spec fn ignore_prefix(relative_dir: Seq<char>) -> Seq<char> {
    if relative_dir.len() == 0 {
        Seq::empty()
    } else {
        relative_dir + "/"@
    }
}

/// Ignore rules gathered from `.gitignore`, `.ignore` and `.fdignore`
/// files while walking a skill directory.
#[derive(Debug, Clone)]
pub struct IgnoreMatcher {
    patterns: Vec<String>,
}

impl IgnoreMatcher {
    /// The rules, in the order they were added.
    pub closed spec fn rules(&self) -> Seq<Seq<char>> {
        self.patterns@.map_values(|p: String| p@)
    }

    pub fn new() -> (m: Self)
        ensures
            m.rules().len() == 0,
    {
        let m = IgnoreMatcher { patterns: Vec::new() };
        assert(m.rules() =~= Seq::<Seq<char>>::empty());
        m
    }

    /// Add the rules of an ignore file with text `content`, found in the
    /// directory `relative_dir` (relative to the walked root, `/`-separated,
    /// empty at the root).
    pub fn add_ignore_content(&mut self, content: &str, relative_dir: &str)
        ensures
            final(self).rules() == old(self).rules() + ignore_rules_of(
                lines(content@),
                ignore_prefix(relative_dir@),
            ),
    {
        let mut prefix: Vec<char> = chars_of(relative_dir);
        if prefix.len() > 0 {
            prefix.push('/');
            proof {
                reveal_strlit("/");
            }
            assert(prefix@ =~= ignore_prefix(relative_dir@));
        }
        let c = chars_of(content);
        let ls = lines_exec(c.as_slice());
        let ghost lv = lines(content@);
        let ghost start = self.rules();
        let mut i: usize = 0;
        while i < ls.len()
            invariant
                0 <= i <= ls@.len(),
                ls@.len() == lv.len(),
                lv == lines(content@),
                forall|j: int| 0 <= j < ls@.len() ==> (#[trigger] ls@[j])@ == lv[j],
                prefix@ == ignore_prefix(relative_dir@),
                self.rules() == start + ignore_rules_of(lv.take(i as int), prefix@),
            decreases ls@.len() - i,
        {
            let t = trim_chars(ls[i].as_slice());
            assert(lv.take(i + 1).drop_last() =~= lv.take(i as int));
            assert(lv.take(i + 1).last() == lv[i as int]);
            if t.len() == 0 || t[0] == '#' {
                i = i + 1;
                continue;
            }
            let negated = t[0] == '!';
            let p = if negated {
                sub_chars(t.as_slice(), 1, t.len())
            } else {
                sub_chars(t.as_slice(), 0, t.len())
            };
            let p = if p.len() > 0 && p[0] == '/' {
                sub_chars(p.as_slice(), 1, p.len())
            } else {
                p
            };
            let mut rule: Vec<char> = Vec::new();
            if negated {
                rule.push('!');
            }
            append(&mut rule, prefix.as_slice());
            append(&mut rule, p.as_slice());
            proof {
                reveal_strlit("!");
                assert(t@ == trim(lv[i as int]));
                if negated {
                    assert(t@.drop_first() =~= t@.subrange(1, t@.len() as int));
                } else {
                    assert(t@ =~= t@.subrange(0, t@.len() as int));
                }
                assert(ignore_line_rule(lv[i as int], prefix@) == Some(rule@));
            }
            let ghost before = self.rules();
            self.patterns.push(string_from_chars(rule.as_slice()));
            assert(self.rules() =~= before.push(rule@));
            i = i + 1;
        }
        assert(lv.take(ls@.len() as int) =~= lv);
    }

    /// Whether `path` (relative to the walked root, `/`-separated, with a
    /// trailing `/` for directories) is ignored.
    pub fn is_ignored(&self, path: &str) -> (r: bool)
        ensures
            r == ignored_by(self.rules(), path@),
    {
        let ghost rules = self.rules();
        let mut i: usize = 0;
        while i < self.patterns.len()
            invariant
                0 <= i <= self.patterns@.len(),
                rules == self.rules(),
                first_matching_rule(rules, path@, 0) == first_matching_rule(rules, path@, i as int),
            decreases self.patterns@.len() - i,
        {
            let rule = &self.patterns[i];
            let rc = chars_of(rule.as_str());
            let negated = rc.len() > 0 && rc[0] == '!';
            let glob = if negated {
                sub_chars(rc.as_slice(), 1, rc.len())
            } else {
                sub_chars(rc.as_slice(), 0, rc.len())
            };
            assert(rules[i as int] == rule@);
            assert(glob@ =~= rule_glob(rules[i as int]));
            let gs = string_from_chars(glob.as_slice());
            if glob_match(path, gs.as_str()) {
                return !negated;
            }
            i = i + 1;
        }
        false
    }
}

// ── Directory entries ───────────────────────────────────────────────────────

/// What to do with one directory entry.
#[derive(Debug, Clone, Copy, PartialEq, Eq, Structural)]
pub enum EntryAction {
    Skip,
    Descend,
    LoadFile,
}

/// How an entry is treated: hidden entries and `node_modules` are skipped,
/// and so are ignored ones (directories are matched with a trailing `/`);
/// directories are walked; markdown files are loaded where root files are
/// included (`include_root_files`); everything else is skipped.
pub open spec fn entry_action(
    name: Seq<char>,
    relative_path: Seq<char>,
    is_dir: bool,
    is_file: bool,
    include_root_files: bool,
    rules: Seq<Seq<char>>,
) -> EntryAction {
    let ignore_path = if is_dir {
        relative_path + "/"@
    } else {
        relative_path
    };
    if name.len() > 0 && name[0] == '.' {
        EntryAction::Skip
    } else if name == "node_modules"@ {
        EntryAction::Skip
    } else if ignored_by(rules, ignore_path) {
        EntryAction::Skip
    } else if is_dir {
        EntryAction::Descend
    } else if !include_root_files {
        EntryAction::Skip
    } else if is_file && ends_with(name, ".md"@) {
        EntryAction::LoadFile
    } else {
        EntryAction::Skip
    }
}

/// Decide what to do with the directory entry `name` at `relative_path`.
pub fn classify_entry(
    name: &str,
    relative_path: &str,
    is_dir: bool,
    is_file: bool,
    include_root_files: bool,
    matcher: &IgnoreMatcher,
) -> (a: EntryAction)
    ensures
        a == entry_action(name@, relative_path@, is_dir, is_file, include_root_files, matcher.rules()),
{
    let n = chars_of(name);
    if n.len() > 0 && n[0] == '.' {
        return EntryAction::Skip;
    }
    if chars_eq_str(n.as_slice(), "node_modules") {
        return EntryAction::Skip;
    }
    let mut ip = chars_of(relative_path);
    if is_dir {
        ip.push('/');
        proof {
            reveal_strlit("/");
        }
    }
    let ips = string_from_chars(ip.as_slice());
    assert(ips@ =~= if is_dir {
        relative_path@ + "/"@
    } else {
        relative_path@
    });
    if matcher.is_ignored(ips.as_str()) {
        return EntryAction::Skip;
    }
    if is_dir {
        return EntryAction::Descend;
    }
    if !include_root_files {
        return EntryAction::Skip;
    }
    let md = chars_of(".md");
    if is_file && ends_with_exec(n.as_slice(), md.as_slice()) {
        EntryAction::LoadFile
    } else {
        EntryAction::Skip
    }
}

} // verus!

verus! {

// ── Where a configured path's skills come from ──────────────────────────────

/// Options for loading skills from all configured locations.
#[derive(Debug, Clone, Default)]
pub struct LoadSkillsOptions {
    pub cwd: String,
    pub agent_dir: String,
    pub skill_paths: Vec<String>,
    pub include_defaults: bool,
}

/// `target` is `root` or lies below it (both already canonical).
pub open spec fn under_root(target: Seq<char>, root: Seq<char>) -> bool {
    target == root || starts_with(target, root + "/"@)
}

pub fn is_under_root(target: &str, root: &str) -> (r: bool)
    ensures
        r == under_root(target@, root@),
{
    let t = chars_of(target);
    let mut r = chars_of(root);
    if chars_eq(t.as_slice(), r.as_slice()) {
        return true;
    }
    r.push('/');
    proof {
        reveal_strlit("/");
    }
    assert(r@ =~= root@ + "/"@);
    starts_with_exec(t.as_slice(), r.as_slice())
}

/// The source label of skills under a configured path: without the default
/// locations, a path inside the user's or the project's skill directory
/// keeps that label; anything else is `path`.
pub open spec fn path_source(include_defaults: bool, under_user: bool, under_project: bool) -> Seq<char> {
    if !include_defaults && under_user {
        "user"@
    } else if !include_defaults && under_project {
        "project"@
    } else {
        "path"@
    }
}

pub fn skill_path_source(include_defaults: bool, under_user: bool, under_project: bool) -> (s: &'static str)
    ensures
        s@ == path_source(include_defaults, under_user, under_project),
{
    if !include_defaults && under_user {
        "user"
    } else if !include_defaults && under_project {
        "project"
    } else {
        "path"
    }
}

/// What a configured skill path is read as.
#[derive(Debug, Clone, Copy, PartialEq, Eq, Structural)]
pub enum SkillPathKind {
    /// Nothing exists there: a warning.
    Missing,
    /// A directory: walked for skills.
    Directory,
    /// A markdown file: loaded as one skill.
    MarkdownFile,
    /// Anything else: a warning.
    NotMarkdown,
}

/// A missing path warns; a directory is walked; a file with the `md`
/// extension is a skill; anything else warns.
pub open spec fn skill_path_kind_of(exists: bool, is_dir: bool, is_file: bool, extension: Option<Seq<char>>) -> SkillPathKind {
    if !exists {
        SkillPathKind::Missing
    } else if is_dir {
        SkillPathKind::Directory
    } else if is_file && extension == Some("md"@) {
        SkillPathKind::MarkdownFile
    } else {
        SkillPathKind::NotMarkdown
    }
}

pub fn skill_path_kind(exists: bool, is_dir: bool, is_file: bool, extension: Option<&str>) -> (k: SkillPathKind)
    ensures
        k == skill_path_kind_of(
            exists,
            is_dir,
            is_file,
            match extension {
                Some(e) => Some(e@),
                None => None,
            },
        ),
{
    if !exists {
        SkillPathKind::Missing
    } else if is_dir {
        SkillPathKind::Directory
    } else {
        let md = match extension {
            Some(e) => chars_eq_str(chars_of(e).as_slice(), "md"),
            None => false,
        };
        if is_file && md {
            SkillPathKind::MarkdownFile
        } else {
            SkillPathKind::NotMarkdown
        }
    }
}

/// The warning a configured skill path gets, if any.
pub open spec fn skill_path_warning_of(kind: SkillPathKind) -> Option<Seq<char>> {
    match kind {
        SkillPathKind::Missing => Some("skill path does not exist"@),
        SkillPathKind::NotMarkdown => Some("skill path is not a markdown file"@),
        _ => None,
    }
}

pub fn skill_path_warning(kind: SkillPathKind, path: &str) -> (d: Option<ResourceDiagnostic>)
    ensures
        match skill_path_warning_of(kind) {
            Some(m) => d matches Some(x) && diag_view(x) == (DiagnosticLevel::Warning, m, path@),
            None => d is None,
        },
{
    match kind {
        SkillPathKind::Missing => Some(ResourceDiagnostic::warning("skill path does not exist", path)),
        SkillPathKind::NotMarkdown => Some(ResourceDiagnostic::warning("skill path is not a markdown file", path)),
        _ => None,
    }
}

/// A directory holding a `SKILL.md` is one skill: the position of the
/// first entry of that name, if any.
pub open spec fn skill_file_index_of(names: Seq<Seq<char>>, i: int) -> Option<int>
    decreases names.len() - i,
{
    if i < 0 || i >= names.len() {
        None
    } else if names[i] == "SKILL.md"@ {
        Some(i)
    } else {
        skill_file_index_of(names, i + 1)
    }
}

pub fn skill_file_index(names: &[String]) -> (r: Option<usize>)
    ensures
        match skill_file_index_of(names@.map_values(|n: String| n@), 0) {
            Some(k) => r == Some(k as usize),
            None => r is None,
        },
{
    let ghost ns = names@.map_values(|n: String| n@);
    let mut i: usize = 0;
    while i < names.len()
        invariant
            0 <= i <= names@.len() == ns.len(),
            ns == names@.map_values(|n: String| n@),
            skill_file_index_of(ns, 0) == skill_file_index_of(ns, i as int),
        decreases names@.len() - i,
    {
        assert(ns[i as int] == names@[i as int]@);
        if chars_eq_str(chars_of(names[i].as_str()).as_slice(), "SKILL.md") {
            return Some(i);
        }
        i = i + 1;
    }
    None
}

// ── Merging ─────────────────────────────────────────────────────────────────

pub open spec fn collision_message(name: Seq<char>) -> Seq<char> {
    "name \""@ + name + "\" collision"@
}

/// Index of a kept skill named `name`.
pub open spec fn name_taken(skills: Seq<Skill>, name: Seq<char>) -> bool {
    exists|i: int| 0 <= i < skills.len() && skills[i].name@ == name
}

/// Skills gathered from several places. A skill whose real path was seen
/// already is dropped silently; a skill whose name is taken is dropped with
/// a collision diagnostic; the first one of each name is kept.
pub struct SkillCollector {
    skills: Vec<Skill>,
    real_paths: Vec<String>,
    diagnostics: Vec<ResourceDiagnostic>,
    collisions: Vec<ResourceDiagnostic>,
}

impl SkillCollector {
    pub closed spec fn kept(&self) -> Seq<Skill> {
        self.skills@
    }

    pub closed spec fn seen_paths(&self) -> Seq<Seq<char>> {
        self.real_paths@.map_values(|p: String| p@)
    }

    pub closed spec fn reported(&self) -> Seq<ResourceDiagnostic> {
        self.diagnostics@
    }

    pub closed spec fn collided(&self) -> Seq<ResourceDiagnostic> {
        self.collisions@
    }

    /// Kept skills have distinct names, one real path each.
    pub open spec fn wf(&self) -> bool {
        &&& self.kept().len() == self.seen_paths().len()
        &&& forall|i: int, j: int|
            0 <= i < self.kept().len() && 0 <= j < self.kept().len() && i != j
                ==> self.kept()[i].name@ != self.kept()[j].name@
    }

    pub fn new() -> (c: Self)
        ensures
            c.wf(),
            c.kept().len() == 0,
            c.seen_paths().len() == 0,
            c.reported().len() == 0,
            c.collided().len() == 0,
    {
        let c = SkillCollector {
            skills: Vec::new(),
            real_paths: Vec::new(),
            diagnostics: Vec::new(),
            collisions: Vec::new(),
        };
        assert(c.seen_paths() =~= Seq::<Seq<char>>::empty());
        c
    }

    /// Record diagnostics raised while loading.
    pub fn add_diagnostics(&mut self, diagnostics: Vec<ResourceDiagnostic>)
        requires
            old(self).wf(),
        ensures
            final(self).wf(),
            final(self).reported() == old(self).reported() + diagnostics@,
            final(self).kept() == old(self).kept(),
            final(self).seen_paths() == old(self).seen_paths(),
            final(self).collided() == old(self).collided(),
    {
        let mut d = diagnostics;
        self.diagnostics.append(&mut d);
    }

    fn path_seen(&self, real_path: &str) -> (r: bool)
        ensures
            r == self.seen_paths().contains(real_path@),
    {
        let rp = chars_of(real_path);
        let mut i: usize = 0;
        while i < self.real_paths.len()
            invariant
                0 <= i <= self.real_paths@.len(),
                rp@ == real_path@,
                forall|j: int| 0 <= j < i ==> self.seen_paths()[j] != real_path@,
            decreases self.real_paths@.len() - i,
        {
            let c = chars_of(self.real_paths[i].as_str());
            if chars_eq(c.as_slice(), rp.as_slice()) {
                assert(self.seen_paths()[i as int] == real_path@);
                return true;
            }
            i = i + 1;
        }
        false
    }

    fn name_kept(&self, name: &str) -> (r: bool)
        ensures
            r == name_taken(self.kept(), name@),
    {
        let nc = chars_of(name);
        let mut i: usize = 0;
        while i < self.skills.len()
            invariant
                0 <= i <= self.skills@.len(),
                nc@ == name@,
                forall|j: int| 0 <= j < i ==> self.skills@[j].name@ != name@,
            decreases self.skills@.len() - i,
        {
            let c = chars_of(self.skills[i].name.as_str());
            if chars_eq(c.as_slice(), nc.as_slice()) {
                return true;
            }
            i = i + 1;
        }
        false
    }

    /// Offer one loaded skill, with the canonical form of its file path.
    pub fn add_skill(&mut self, skill: Skill, real_path: &str)
        requires
            old(self).wf(),
        ensures
            final(self).wf(),
            final(self).reported() == old(self).reported(),
            old(self).seen_paths().contains(real_path@) ==> final(self).kept() == old(self).kept()
                && final(self).seen_paths() == old(self).seen_paths() && final(self).collided()
                == old(self).collided(),
            !old(self).seen_paths().contains(real_path@) && name_taken(old(self).kept(), skill.name@)
                ==> final(self).kept() == old(self).kept() && final(self).seen_paths() == old(
                self,
            ).seen_paths() && final(self).collided().len() == old(self).collided().len() + 1
                && final(self).collided().drop_last() == old(self).collided() && diag_view(
                final(self).collided().last(),
            ) == (DiagnosticLevel::Collision, collision_message(skill.name@), skill.file_path@),
            !old(self).seen_paths().contains(real_path@) && !name_taken(old(self).kept(), skill.name@)
                ==> final(self).kept() == old(self).kept().push(skill) && final(self).seen_paths()
                == old(self).seen_paths().push(real_path@) && final(self).collided() == old(
                self,
            ).collided(),
    {
        if self.path_seen(real_path) {
            return;
        }
        if self.name_kept(skill.name.as_str()) {
            let mut m: Vec<char> = Vec::new();
            append_str(&mut m, "name \"");
            append_str(&mut m, skill.name.as_str());
            append_str(&mut m, "\" collision");
            let ms = string_from_chars(m.as_slice());
            assert(ms@ =~= collision_message(skill.name@));
            let d = ResourceDiagnostic::collision(ms.as_str(), skill.file_path.as_str());
            let ghost before = self.collisions@;
            self.collisions.push(d);
            assert(self.collisions@.drop_last() =~= before);
            return;
        }
        let ghost old_kept = self.skills@;
        self.skills.push(skill);
        let ghost before = self.real_paths@;
        self.real_paths.push(crate::text::to_string(real_path));
        proof {
            assert(self.seen_paths() =~= old(self).seen_paths().push(real_path@));
            assert forall|i: int, j: int|
                0 <= i < self.kept().len() && 0 <= j < self.kept().len() && i != j implies self.kept()[i].name@
                != self.kept()[j].name@ by {
                if i == old_kept.len() && j < old_kept.len() {
                    assert(self.kept()[j] == old_kept[j]);
                }
                if j == old_kept.len() && i < old_kept.len() {
                    assert(self.kept()[i] == old_kept[i]);
                }
            }
        }
    }

    /// The merged result: kept skills in the order they were first offered;
    /// loading diagnostics, then collisions.
    pub fn finish(self) -> (r: LoadSkillsResult)
        ensures
            r.skills@ == self.kept(),
            r.diagnostics@ == self.reported() + self.collided(),
    {
        let SkillCollector { skills, real_paths, diagnostics, collisions } = self;
        let mut diagnostics = diagnostics;
        let mut collisions = collisions;
        diagnostics.append(&mut collisions);
        LoadSkillsResult { skills, diagnostics }
    }
}

} // verus!
