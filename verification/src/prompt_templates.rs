//! Prompt templates: Markdown files used as `/name` commands, with
//! bash-style argument parsing and `$1`/`$@`/`${...}` substitution.

use vstd::prelude::*;
use vstd::string::StringSliceAdditionalSpecFns;
use vstd::utf8::{decode_utf8, encode_utf8, is_char_boundary};

use crate::frontmatter::{lookup, parse_frontmatter, split_frontmatter};

use crate::text::{
    append, append_str, chars_eq, chars_eq_str, chars_of, char_is_alphanumeric, copy_chars, find,
    find_exec, index_of, matches_at, index_of_exec, is_ascii_digit, is_ascii_ws, join, join_exec,
    parse_usize, parse_usize_exec, split_char, split_char_exec, starts_with, starts_with_exec,
    str_byte_len, string_from_chars, sub_chars, to_string, trim, trim_chars, unicode_alphanumeric, utf8_len,
    utf8_len_exceeds, lines, lines_exec,
};

verus! {

// ── Command argument parsing (bash-style quoting) ───────────────────────────

/// Parser state: finished arguments, the argument being built, and the open
/// quote character, if any.
pub type ArgsState = (Seq<Seq<char>>, Seq<char>, Option<char>);

pub open spec fn args_step(st: ArgsState, c: char) -> ArgsState {
    match st.2 {
        Some(q) => if c == q {
            (st.0, st.1, None)
        } else {
            (st.0, st.1.push(c), Some(q))
        },
        None => if c == '"' || c == '\'' {
            (st.0, st.1, Some(c))
        } else if is_ascii_ws(c) {
            if st.1.len() > 0 {
                (st.0.push(st.1), seq![], None)
            } else {
                st
            }
        } else {
            (st.0, st.1.push(c), None)
        },
    }
}

pub open spec fn args_run(s: Seq<char>) -> ArgsState
    decreases s.len(),
{
    if s.len() == 0 {
        (seq![], seq![], None)
    } else {
        args_step(args_run(s.drop_last()), s.last())
    }
}

/// Arguments of a command line: whitespace separates arguments outside
/// quotes; `"` and `'` quote, and the quote characters themselves are dropped.
pub open spec fn command_args(s: Seq<char>) -> Seq<Seq<char>> {
    let st = args_run(s);
    if st.1.len() > 0 {
        st.0.push(st.1)
    } else {
        st.0
    }
}

proof fn lemma_quoted_prefix(s: Seq<char>, q: char, b: Seq<char>, k: int)
    requires
        q == '"' || q == '\'',
        args_run(s).2 is None,
        0 <= k <= b.len(),
        forall|i: int| 0 <= i < b.len() ==> b[i] != q,
    ensures
        args_run(s + seq![q] + b.take(k)) == (args_run(s).0, args_run(s).1 + b.take(k), Some(q)),
    decreases k,
{
    if k == 0 {
        assert(s + seq![q] + b.take(0) =~= s.push(q));
        assert(s.push(q).drop_last() =~= s);
        assert(args_run(s).1 + b.take(0) =~= args_run(s).1);
    } else {
        lemma_quoted_prefix(s, q, b, k - 1);
        let t = s + seq![q] + b.take(k);
        assert(t.drop_last() =~= s + seq![q] + b.take(k - 1));
        assert(t.last() == b[k - 1]);
        assert((args_run(s).1 + b.take(k - 1)).push(b[k - 1]) =~= args_run(s).1 + b.take(k));
    }
}

/// A quoted stretch is taken as it stands: after any text that leaves no
/// quote open, a quote, then text without that quote character (spaces
/// and the other quote character included), then the closing quote, add
/// that text to the argument being built and leave no quote open.
pub proof fn lemma_quoted_text_is_literal(s: Seq<char>, q: char, b: Seq<char>)
    requires
        q == '"' || q == '\'',
        args_run(s).2 is None,
        forall|i: int| 0 <= i < b.len() ==> b[i] != q,
    ensures
        args_run(s + seq![q] + b + seq![q]) == (args_run(s).0, args_run(s).1 + b, None::<char>),
{
    lemma_quoted_prefix(s, q, b, b.len() as int);
    assert(b.take(b.len() as int) =~= b);
    let t = s + seq![q] + b + seq![q];
    assert(t.drop_last() =~= s + seq![q] + b);
    assert(t.last() == q);
}

/// A whole argument line that is one non-empty quoted text, holding no
/// quote character of its own kind, is that text as a single argument.
pub proof fn lemma_single_quoted_argument(q: char, b: Seq<char>)
    requires
        q == '"' || q == '\'',
        b.len() > 0,
        forall|i: int| 0 <= i < b.len() ==> b[i] != q,
    ensures
        command_args(seq![q] + b + seq![q]) == seq![b],
{
    let e = Seq::<char>::empty();
    assert(args_run(e) == (Seq::<Seq<char>>::empty(), e, None::<char>));
    lemma_quoted_text_is_literal(e, q, b);
    assert(e + seq![q] + b + seq![q] =~= seq![q] + b + seq![q]);
    assert(e + b =~= b);
    assert(Seq::<Seq<char>>::empty().push(b) =~= seq![b]);
}

/// A word with no whitespace and no quote character.
pub open spec fn plain_word(w: Seq<char>) -> bool {
    w.len() > 0 && forall|i: int|
        0 <= i < w.len() ==> !is_ascii_ws(#[trigger] w[i]) && w[i] != '"' && w[i] != '\''
}

proof fn lemma_plain_append(s: Seq<char>, w: Seq<char>, k: int)
    requires
        args_run(s).2 is None,
        0 <= k <= w.len(),
        forall|i: int| 0 <= i < w.len() ==> !is_ascii_ws(#[trigger] w[i]) && w[i] != '"' && w[i] != '\'',
    ensures
        args_run(s + w.take(k)) == (args_run(s).0, args_run(s).1 + w.take(k), None::<char>),
    decreases k,
{
    if k == 0 {
        assert(s + w.take(0) =~= s);
        assert(args_run(s).1 + w.take(0) =~= args_run(s).1);
    } else {
        lemma_plain_append(s, w, k - 1);
        let t = s + w.take(k);
        assert(t.drop_last() =~= s + w.take(k - 1));
        assert(t.last() == w[k - 1]);
        assert(!is_ascii_ws(w[k - 1]) && w[k - 1] != '"' && w[k - 1] != '\'');
        assert((args_run(s).1 + w.take(k - 1)).push(w[k - 1]) =~= args_run(s).1 + w.take(k));
    }
}

/// Plain words joined by single spaces are parsed back into exactly those
/// words, in order.
pub proof fn lemma_plain_words_round_trip(ws: Seq<Seq<char>>)
    requires
        forall|i: int| 0 <= i < ws.len() ==> plain_word(#[trigger] ws[i]),
    ensures
        command_args(join(ws, seq![' '])) == ws,
{
    if ws.len() > 0 {
        lemma_words_run(ws, ws.len() as int);
        assert(ws.take(ws.len() as int) =~= ws);
        assert(ws.take(ws.len() - 1).push(ws[ws.len() - 1]) =~= ws);
    }
}

proof fn lemma_words_run(ws: Seq<Seq<char>>, n: int)
    requires
        1 <= n <= ws.len(),
        forall|i: int| 0 <= i < ws.len() ==> plain_word(#[trigger] ws[i]),
    ensures
        args_run(join(ws.take(n), seq![' '])) == (ws.take(n - 1), ws[n - 1], None::<char>),
    decreases n,
{
    let e = Seq::<char>::empty();
    let w = ws[n - 1];
    assert(plain_word(w));
    assert(w.take(w.len() as int) =~= w);
    if n == 1 {
        assert(args_run(e) == (Seq::<Seq<char>>::empty(), e, None::<char>));
        lemma_plain_append(e, w, w.len() as int);
        assert(ws.take(1) =~= seq![w]);
        assert(e + w =~= w);
        assert(e + w.take(w.len() as int) =~= w);
        assert(ws.take(0) =~= Seq::<Seq<char>>::empty());
    } else {
        lemma_words_run(ws, n - 1);
        let j = join(ws.take(n - 1), seq![' ']);
        assert(ws.take(n).drop_last() =~= ws.take(n - 1));
        assert(ws.take(n).last() == w);
        assert(join(ws.take(n), seq![' ']) == j + seq![' '] + w);
        let js = j + seq![' '];
        assert(js.drop_last() =~= j);
        assert(js.last() == ' ');
        assert(is_ascii_ws(' '));
        let prev = ws[n - 2];
        assert(plain_word(prev));
        assert(args_run(js) == (ws.take(n - 2).push(prev), e, None::<char>));
        assert(ws.take(n - 2).push(prev) =~= ws.take(n - 1));
        lemma_plain_append(js, w, w.len() as int);
        assert(js + w.take(w.len() as int) =~= js + w);
        assert(e + w =~= w);
    }
}

pub open spec fn strings_view(v: Seq<String>) -> Seq<Seq<char>> {
    v.map_values(|s: String| s@)
}

fn to_strings(v: &Vec<Vec<char>>) -> (r: Vec<String>)
    ensures
        strings_view(r@) == v@.map_values(|p: Vec<char>| p@),
{
    let mut r: Vec<String> = Vec::new();
    let mut i: usize = 0;
    while i < v.len()
        invariant
            0 <= i <= v@.len(),
            r@.len() == i,
            forall|k: int| 0 <= k < i ==> (#[trigger] r@[k])@ == v@[k]@,
        decreases v@.len() - i,
    {
        r.push(string_from_chars(v[i].as_slice()));
        i = i + 1;
    }
    assert(strings_view(r@) =~= v@.map_values(|p: Vec<char>| p@));
    r
}

/// Parse command arguments respecting quoted strings (bash-style).
pub fn parse_command_args(args_string: &str) -> (r: Vec<String>)
    ensures
        strings_view(r@) == command_args(args_string@),
{
    let s = chars_of(args_string);
    let mut args: Vec<Vec<char>> = Vec::new();
    let mut current: Vec<char> = Vec::new();
    let mut in_quote: Option<char> = None;
    let mut i: usize = 0;
    while i < s.len()
        invariant
            0 <= i <= s@.len(),
            s@ == args_string@,
            (args@.map_values(|p: Vec<char>| p@), current@, in_quote) == args_run(
                s@.take(i as int),
            ),
        decreases s@.len() - i,
    {
        let c = s[i];
        let ghost before = (args@.map_values(|p: Vec<char>| p@), current@, in_quote);
        proof {
            assert(s@.take(i + 1).drop_last() =~= s@.take(i as int));
        }
        match in_quote {
            Some(q) => {
                if c == q {
                    in_quote = None;
                } else {
                    current.push(c);
                }
            },
            None => {
                if c == '"' || c == '\'' {
                    in_quote = Some(c);
                } else if c == ' ' || c == '\t' || c == '\n' || c == '\x0C' || c == '\r' {
                    if current.len() > 0 {
                        args.push(current);
                        current = Vec::new();
                    }
                } else {
                    current.push(c);
                }
            },
        }
        i = i + 1;
        proof {
            assert((args@.map_values(|p: Vec<char>| p@), current@, in_quote) =~~= args_step(
                before,
                c,
            ));
        }
    }
    assert(s@.take(i as int) =~= s@);
    if current.len() > 0 {
        args.push(current);
    }
    let r = to_strings(&args);
    proof {
        assert(strings_view(r@) =~~= command_args(args_string@));
    }
    r
}

} // verus!

verus! {

// ── Argument substitution ───────────────────────────────────────────────────

/// All arguments joined with single spaces.
pub open spec fn all_args(args: Seq<Seq<char>>) -> Seq<char> {
    join(args, seq![' '])
}

/// Argument `n` (1-based), if there is one.
pub open spec fn arg_at(args: Seq<Seq<char>>, n: nat) -> Option<Seq<char>> {
    if 1 <= n && n <= args.len() {
        Some(args[n - 1])
    } else {
        None
    }
}

/// `args` from 0-based position `from` on, at most `count` of them.
pub open spec fn arg_slice(args: Seq<Seq<char>>, from: nat, count: Option<nat>) -> Seq<Seq<char>> {
    let rest = if from >= args.len() {
        seq![]
    } else {
        args.skip(from as int)
    };
    match count {
        Some(l) => if l >= rest.len() {
            rest
        } else {
            rest.take(l as int)
        },
        None => rest,
    }
}

/// What a recognized `${...}` body expands to; `None` when the body is not
/// one of the supported forms.
pub open spec fn brace_value(inner: Seq<char>, args: Seq<Seq<char>>) -> Option<Seq<char>> {
    let all = all_args(args);
    match find(inner, seq![':', '-']) {
        Some(cd) => {
            let target = inner.take(cd);
            let dflt = inner.skip(cd + 2);
            Some(
                if target == seq!['@'] || target == "ARGUMENTS"@ {
                    if all.len() == 0 {
                        dflt
                    } else {
                        all
                    }
                } else {
                    match parse_usize(target) {
                        Some(n) => match arg_at(args, n) {
                            Some(a) => if a.len() > 0 {
                                a
                            } else {
                                dflt
                            },
                            None => dflt,
                        },
                        None => dflt,
                    }
                },
            )
        },
        None => if starts_with(inner, seq!['@', ':']) {
            let parts = split_char(inner.skip(2), ':');
            let start: nat = match parse_usize(parts[0]) {
                Some(n) => n,
                None => 1,
            };
            let from: nat = if start > 0 {
                (start - 1) as nat
            } else {
                0
            };
            Some(
                if parts.len() > 1 {
                    match parse_usize(parts[1]) {
                        Some(l) => join(arg_slice(args, from, Some(l)), seq![' ']),
                        None => all,
                    }
                } else {
                    join(arg_slice(args, from, None), seq![' '])
                },
            )
        } else {
            None
        },
    }
}

/// End of the run of ASCII digits starting at `i`.
pub open spec fn digits_end(c: Seq<char>, i: int) -> int
    decreases c.len() - i,
{
    if 0 <= i < c.len() && is_ascii_digit(c[i]) {
        digits_end(c, i + 1)
    } else {
        i
    }
}

/// `$ARGUMENTS` at `start` (just after the `$`), not followed by a letter or
/// digit.
pub open spec fn arguments_word_at(c: Seq<char>, start: int) -> bool {
    &&& 0 <= start && start + 9 <= c.len()
    &&& starts_with(c.skip(start), "ARGUMENTS"@)
    &&& (start + 9 >= c.len() || !unicode_alphanumeric(c[start + 9]))
}

/// Closing brace of a `${` that starts at `i`: the body's length.
pub open spec fn brace_close(c: Seq<char>, i: int) -> Option<int> {
    index_of(c.skip(i + 2), '}')
}

/// Output produced from position `i` of the template on.
pub open spec fn subst_from(c: Seq<char>, args: Seq<Seq<char>>, i: int) -> Seq<char>
    decreases c.len() - i,
{
    if i < 0 || i >= c.len() {
        seq![]
    } else if c[i] == '$' && i + 1 < c.len() {
        if c[i + 1] == '{' {
            match brace_close(c, i) {
                Some(k) => {
                    let next = i + 2 + k + 1;
                    if k < 0 || next > c.len() {
                        seq![]
                    } else {
                        let inner = c.subrange(i + 2, i + 2 + k);
                        match brace_value(inner, args) {
                            Some(v) => v + subst_from(c, args, next),
                            None => c.subrange(i, next) + subst_from(c, args, next),
                        }
                    }
                },
                None => seq!['$', '{'] + subst_from(c, args, i + 2),
            }
        } else {
            let start = i + 1;
            if c[start] == '@' {
                all_args(args) + subst_from(c, args, start + 1)
            } else if arguments_word_at(c, start) {
                all_args(args) + subst_from(c, args, start + 9)
            } else {
                let end = digits_end(c, start);
                if end > start && end <= c.len() && parse_usize(c.subrange(start, end)) is Some {
                    let n = parse_usize(c.subrange(start, end))->0;
                    let v = match arg_at(args, n) {
                        Some(a) => a,
                        None => seq![],
                    };
                    v + subst_from(c, args, end)
                } else {
                    seq!['$'] + subst_from(c, args, start)
                }
            }
        }
    } else {
        seq![c[i]] + subst_from(c, args, i + 1)
    }
}

/// The substituted template.
pub open spec fn substitution(content: Seq<char>, args: Seq<Seq<char>>) -> Seq<char> {
    subst_from(content, args, 0)
}

} // verus!

verus! {

fn vecs_view_eq(v: &Vec<Vec<char>>) -> (r: Vec<Vec<char>>)
    ensures
        r@.map_values(|p: Vec<char>| p@) == v@.map_values(|p: Vec<char>| p@),
{
    let mut r: Vec<Vec<char>> = Vec::new();
    let mut i: usize = 0;
    while i < v.len()
        invariant
            0 <= i <= v@.len(),
            r@.len() == i,
            forall|k: int| 0 <= k < i ==> (#[trigger] r@[k])@ == v@[k]@,
        decreases v@.len() - i,
    {
        r.push(copy_chars(v[i].as_slice()));
        i = i + 1;
    }
    assert(r@.map_values(|p: Vec<char>| p@) =~= v@.map_values(|p: Vec<char>| p@));
    r
}

fn args_chars(args: &[String]) -> (r: Vec<Vec<char>>)
    ensures
        r@.map_values(|p: Vec<char>| p@) == args@.map_values(|s: String| s@),
{
    let mut r: Vec<Vec<char>> = Vec::new();
    let mut i: usize = 0;
    while i < args.len()
        invariant
            0 <= i <= args@.len(),
            r@.len() == i,
            forall|k: int| 0 <= k < i ==> (#[trigger] r@[k])@ == args@[k]@,
        decreases args@.len() - i,
    {
        r.push(chars_of(args[i].as_str()));
        i = i + 1;
    }
    assert(r@.map_values(|p: Vec<char>| p@) =~= args@.map_values(|s: String| s@));
    r
}

fn arg_slice_exec(args: &Vec<Vec<char>>, from: usize, count: Option<usize>) -> (r: Vec<Vec<char>>)
    ensures
        r@.map_values(|p: Vec<char>| p@) == arg_slice(
            args@.map_values(|p: Vec<char>| p@),
            from as nat,
            match count {
                Some(l) => Some(l as nat),
                None => None,
            },
        ),
{
    let ghost av = args@.map_values(|p: Vec<char>| p@);
    let n = args.len();
    let mut r: Vec<Vec<char>> = Vec::new();
    if from >= n {
        assert(r@.map_values(|p: Vec<char>| p@) =~= Seq::<Seq<char>>::empty());
        return r;
    }
    let end = match count {
        Some(l) => if l >= n - from {
            n
        } else {
            from + l
        },
        None => n,
    };
    let mut i = from;
    while i < end
        invariant
            from <= i <= end <= n == args@.len(),
            r@.len() == i - from,
            forall|k: int| 0 <= k < i - from ==> (#[trigger] r@[k])@ == args@[from + k]@,
        decreases end - i,
    {
        r.push(copy_chars(args[i].as_slice()));
        i = i + 1;
    }
    assert(r@.map_values(|p: Vec<char>| p@) =~= arg_slice(
        av,
        from as nat,
        match count {
            Some(l) => Some(l as nat),
            None => None,
        },
    ));
    r
}

fn brace_value_exec(inner: &[char], args: &Vec<Vec<char>>, all: &[char]) -> (r: Option<Vec<char>>)
    requires
        all@ == all_args(args@.map_values(|p: Vec<char>| p@)),
    ensures
        r matches Some(v) ==> brace_value(inner@, args@.map_values(|p: Vec<char>| p@)) == Some(
            v@,
        ),
        r is None ==> brace_value(inner@, args@.map_values(|p: Vec<char>| p@)) is None,
{
    let ghost av = args@.map_values(|p: Vec<char>| p@);
    let cd_pat = vec![':', '-'];
    assert(cd_pat@ =~= seq![':', '-']);
    match find_exec(inner, cd_pat.as_slice()) {
        Some(cd) => {
            proof {
                crate::text::lemma_find_from(inner@, seq![':', '-'], 0);
            }
            let ilen = inner.len();
            assert(matches_at(inner@, seq![':', '-'], cd as int));
            assert(cd + 2 <= ilen);
            let target = sub_chars(inner, 0, cd);
            let dflt = sub_chars(inner, cd + 2, ilen);
            assert(target@ =~= inner@.take(cd as int));
            assert(dflt@ =~= inner@.skip(cd + 2));
            let at = vec!['@'];
            assert(at@ =~= seq!['@']);
            if chars_eq(target.as_slice(), at.as_slice()) || chars_eq_str(
                target.as_slice(),
                "ARGUMENTS",
            ) {
                if all.len() == 0 {
                    Some(dflt)
                } else {
                    Some(copy_chars(all))
                }
            } else {
                match parse_usize_exec(target.as_slice()) {
                    Some(n) => {
                        if n >= 1 && n <= args.len() && args[n - 1].len() > 0 {
                            assert(av[n - 1] == args@[n - 1]@);
                            Some(copy_chars(args[n - 1].as_slice()))
                        } else {
                            proof {
                                if n >= 1 && n <= args.len() {
                                    assert(av[n - 1] == args@[n - 1]@);
                                }
                            }
                            Some(dflt)
                        }
                    },
                    None => Some(dflt),
                }
            }
        },
        None => {
            let at_colon = vec!['@', ':'];
            assert(at_colon@ =~= seq!['@', ':']);
            if starts_with_exec(inner, at_colon.as_slice()) {
                let stripped = sub_chars(inner, 2, inner.len());
                assert(stripped@ =~= inner@.skip(2));
                let parts = split_char_exec(stripped.as_slice(), ':');
                proof {
                    crate::text::lemma_split_char_nonempty(stripped@, ':');
                }
                let start: usize = match parse_usize_exec(parts[0].as_slice()) {
                    Some(n) => n,
                    None => 1,
                };
                let from: usize = if start > 0 {
                    start - 1
                } else {
                    0
                };
                let sep = vec![' '];
                assert(sep@ =~= seq![' ']);
                if parts.len() > 1 {
                    match parse_usize_exec(parts[1].as_slice()) {
                        Some(l) => {
                            let sl = arg_slice_exec(args, from, Some(l));
                            Some(join_exec(sl.as_slice(), sep.as_slice()))
                        },
                        None => Some(copy_chars(all)),
                    }
                } else {
                    let sl = arg_slice_exec(args, from, None);
                    Some(join_exec(sl.as_slice(), sep.as_slice()))
                }
            } else {
                None
            }
        },
    }
}

proof fn lemma_digits_run(c: Seq<char>, i: int, e: int)
    requires
        0 <= i <= e,
        e == digits_end(c, i),
    ensures
        forall|j: int| i <= j < e ==> is_ascii_digit(#[trigger] c[j]),
    decreases c.len() - i,
{
    if 0 <= i < c.len() && is_ascii_digit(c[i]) {
        lemma_digits_end_ge(c, i + 1);
        lemma_digits_run(c, i + 1, e);
    }
}

proof fn lemma_digits_end_ge(c: Seq<char>, i: int)
    ensures
        digits_end(c, i) >= i,
    decreases c.len() - i,
{
    if 0 <= i < c.len() && is_ascii_digit(c[i]) {
        lemma_digits_end_ge(c, i + 1);
    }
}

fn digits_end_exec(c: &[char], i: usize) -> (e: usize)
    requires
        i <= c@.len(),
    ensures
        e == digits_end(c@, i as int),
        i <= e <= c@.len(),
{
    let mut e = i;
    while e < c.len() && '0' <= c[e] && c[e] <= '9'
        invariant
            i <= e <= c@.len(),
            digits_end(c@, i as int) == digits_end(c@, e as int),
        decreases c@.len() - e,
    {
        e = e + 1;
    }
    e
}

fn arguments_word_exec(c: &[char], start: usize) -> (r: bool)
    requires
        start <= c@.len(),
    ensures
        r == arguments_word_at(c@, start as int),
{
    let word = chars_of("ARGUMENTS");
    proof {
        reveal_strlit("ARGUMENTS");
    }
    assert(word@.len() == 9);
    if c.len() < 9 || start > c.len() - 9 {
        return false;
    }
    let rest = sub_chars(c, start, c.len());
    assert(rest@ =~= c@.skip(start as int));
    if !starts_with_exec(rest.as_slice(), word.as_slice()) {
        return false;
    }
    if start + 9 >= c.len() {
        return true;
    }
    !char_is_alphanumeric(c[start + 9])
}

/// One step of substitution at position `i`: appends what the template
/// produces there and returns the position after it.
#[verifier::rlimit(50)]
fn subst_step(
    c: &Vec<char>,
    argv: &Vec<Vec<char>>,
    all: &Vec<char>,
    i: usize,
    out: &mut Vec<char>,
) -> (next: usize)
    requires
        i < c@.len(),
        all@ == all_args(argv@.map_values(|p: Vec<char>| p@)),
    ensures
        i < next <= c@.len(),
        final(out)@ + subst_from(c@, argv@.map_values(|p: Vec<char>| p@), next as int) == old(out)@
            + subst_from(c@, argv@.map_values(|p: Vec<char>| p@), i as int),
{
    let ghost av = argv@.map_values(|p: Vec<char>| p@);
    let len = c.len();
    if c[i] == '$' && i + 1 < len {
        if c[i + 1] == '{' {
            brace_step(c, argv, all, i, out)
        } else {
            dollar_step(c, argv, all, i, out)
        }
    } else {
        out.push(c[i]);
        assert(out@ + subst_from(c@, av, i + 1) =~= old(out)@ + subst_from(c@, av, i as int));
        i + 1
    }
}

fn brace_step(
    c: &Vec<char>,
    argv: &Vec<Vec<char>>,
    all: &Vec<char>,
    i: usize,
    out: &mut Vec<char>,
) -> (next: usize)
    requires
        i + 1 < c@.len(),
        c@[i as int] == '$',
        c@[i + 1] == '{',
        all@ == all_args(argv@.map_values(|p: Vec<char>| p@)),
    ensures
        i < next <= c@.len(),
        final(out)@ + subst_from(c@, argv@.map_values(|p: Vec<char>| p@), next as int) == old(out)@
            + subst_from(c@, argv@.map_values(|p: Vec<char>| p@), i as int),
{
    let ghost av = argv@.map_values(|p: Vec<char>| p@);
    let len = c.len();
    let rest = sub_chars(c.as_slice(), i + 2, len);
    assert(rest@ =~= c@.skip(i + 2));
    match index_of_exec(rest.as_slice(), '}') {
        Some(k) => {
            let inner = sub_chars(c.as_slice(), i + 2, i + 2 + k);
            let next = i + 2 + k + 1;
            match brace_value_exec(inner.as_slice(), argv, all.as_slice()) {
                Some(v) => {
                    append(out, v.as_slice());
                },
                None => {
                    let lit = sub_chars(c.as_slice(), i, next);
                    append(out, lit.as_slice());
                },
            }
            assert(out@ + subst_from(c@, av, next as int) =~= old(out)@ + subst_from(
                c@,
                av,
                i as int,
            ));
            next
        },
        None => {
            out.push('$');
            out.push('{');
            assert(out@ + subst_from(c@, av, i + 2) =~= old(out)@ + subst_from(c@, av, i as int));
            i + 2
        },
    }
}

fn dollar_step(
    c: &Vec<char>,
    argv: &Vec<Vec<char>>,
    all: &Vec<char>,
    i: usize,
    out: &mut Vec<char>,
) -> (next: usize)
    requires
        i + 1 < c@.len(),
        c@[i as int] == '$',
        c@[i + 1] != '{',
        all@ == all_args(argv@.map_values(|p: Vec<char>| p@)),
    ensures
        i < next <= c@.len(),
        final(out)@ + subst_from(c@, argv@.map_values(|p: Vec<char>| p@), next as int) == old(
            out,
        )@ + subst_from(c@, argv@.map_values(|p: Vec<char>| p@), i as int),
{
    let ghost av = argv@.map_values(|p: Vec<char>| p@);
    let len = c.len();
    assert(i + 1 < len);
    let start = i + 1;
    if c[start] == '@' {
        append(out, all.as_slice());
        assert(out@ + subst_from(c@, av, start + 1) =~= old(out)@ + subst_from(
            c@,
            av,
            i as int,
        ));
        start + 1
    } else if arguments_word_exec(c.as_slice(), start) {
        proof {
            reveal_strlit("ARGUMENTS");
            assert forall|j: int| i < j < start + 9 implies c@[j] != '$' by {
                assert(c@.skip(start as int).subrange(0, 9)[j - start] == c@[j]);
            }
        }
        append(out, all.as_slice());
        assert(out@ + subst_from(c@, av, start + 9) =~= old(out)@ + subst_from(
            c@,
            av,
            i as int,
        ));
        start + 9
    } else {
        let end = digits_end_exec(c.as_slice(), start);
        let num = sub_chars(c.as_slice(), start, end);
        let parsed = if end > start {
            parse_usize_exec(num.as_slice())
        } else {
            None
        };
        match parsed {
            Some(n) => {
                proof {
                    lemma_digits_run(c@, start as int, end as int);
                }
                if n >= 1 && n <= argv.len() {
                    assert(av[n - 1] == argv@[n - 1]@);
                    append(out, argv[n - 1].as_slice());
                }
                assert(out@ + subst_from(c@, av, end as int) =~= old(out)@ + subst_from(
                    c@,
                    av,
                    i as int,
                ));
                end
            },
            None => {
                proof {
                }
                out.push('$');
                assert(out@ + subst_from(c@, av, start as int) =~= old(out)@ + subst_from(
                    c@,
                    av,
                    i as int,
                ));
                start
            },
        }
    }
}

/// Substitute argument placeholders in template content.
///
/// Supports `$1`, `$2`, ... (positional), `$@` and `$ARGUMENTS` (all
/// arguments), `${N:-default}`, `${@:-default}` and `${ARGUMENTS:-default}`
/// (with a default when missing or empty), `${@:N}` (arguments from the Nth
/// on) and `${@:N:L}` (L arguments from the Nth). Anything else is kept
/// literally.
pub fn substitute_args(content: &str, args: &[String]) -> (r: String)
    ensures
        r@ == substitution(content@, args@.map_values(|s: String| s@)),
{
    let c = chars_of(content);
    let argv = args_chars(args);
    let ghost av = args@.map_values(|s: String| s@);
    assert(argv@.map_values(|p: Vec<char>| p@) == av);
    let sep = vec![' '];
    assert(sep@ =~= seq![' ']);
    let all = join_exec(argv.as_slice(), sep.as_slice());
    let len = c.len();
    let mut out: Vec<char> = Vec::new();
    let mut i: usize = 0;
    assert(out@ + subst_from(c@, av, 0) =~= subst_from(c@, av, 0));
    while i < len
        invariant
            0 <= i <= len == c@.len(),
            c@ == content@,
            argv@.map_values(|p: Vec<char>| p@) == av,
            all@ == all_args(av),
            out@ + subst_from(c@, av, i as int) == subst_from(c@, av, 0),
            av == args@.map_values(|s: String| s@),
        decreases len - i,
    {
        i = subst_step(&c, &argv, &all, i, &mut out);
    }
    assert(out@ =~= subst_from(c@, av, 0));
    string_from_chars(out.as_slice())
}

} // verus!

verus! {

// ── Templates ───────────────────────────────────────────────────────────────

/// Where a resource lives.
#[derive(Clone, Copy, Debug, PartialEq, Eq, Structural)]
pub enum ResourceScope {
    User,
    Project,
    Path,
}

impl ResourceScope {
    pub fn as_str(&self) -> (r: &'static str)
        ensures
            r@ == match *self {
                ResourceScope::User => "user"@,
                ResourceScope::Project => "project"@,
                ResourceScope::Path => "path"@,
            },
    {
        match self {
            ResourceScope::User => "user",
            ResourceScope::Project => "project",
            ResourceScope::Path => "path",
        }
    }
}

/// A prompt template loaded from a Markdown file.
pub struct PromptTemplate {
    pub name: String,
    pub description: String,
    pub argument_hint: Option<String>,
    pub content: String,
    pub source: String,
    pub scope: ResourceScope,
    pub file_path: String,
}

/// Options for loading templates.
pub struct LoadPromptTemplatesOptions {
    pub cwd: String,
    pub agent_dir: String,
    pub prompt_paths: Vec<String>,
    pub include_defaults: bool,
}

/// Index of the first template named `name`.
pub open spec fn template_index(ts: Seq<PromptTemplate>, name: Seq<char>, i: int) -> Option<int>
    decreases ts.len() - i,
{
    if i < 0 || i >= ts.len() {
        None
    } else if ts[i].name@ == name {
        Some(i)
    } else {
        template_index(ts, name, i + 1)
    }
}

/// Name and argument text of a `/name args` command (split at the first
/// space).
pub open spec fn slash_parts(text: Seq<char>) -> (Seq<char>, Seq<char>) {
    match index_of(text, ' ') {
        Some(p) => (text.subrange(1, p), text.skip(p + 1)),
        None => (text.skip(1), seq![]),
    }
}

/// The template a command text selects, if it selects one.
pub open spec fn selected_template(text: Seq<char>, ts: Seq<PromptTemplate>) -> Option<int> {
    if !starts_with(text, seq!['/']) || starts_with(slash_parts(text).0, "skill:"@) {
        None
    } else {
        template_index(ts, slash_parts(text).0, 0)
    }
}

/// The expansion of `text`: the selected template with its arguments
/// substituted, or `text` unchanged.
pub open spec fn expansion(text: Seq<char>, ts: Seq<PromptTemplate>) -> Seq<char> {
    match selected_template(text, ts) {
        Some(i) => substitution(ts[i].content@, command_args(slash_parts(text).1)),
        None => text,
    }
}

/// Expand a prompt template if the text is `/name` or `/name args` for a
/// known template; otherwise (and for `/skill:` commands) return the text.
pub fn expand_prompt_template(text: &str, templates: &[PromptTemplate]) -> (r: String)
    ensures
        r@ == expansion(text@, templates@),
{
    let t = chars_of(text);
    let slash = vec!['/'];
    assert(slash@ =~= seq!['/']);
    if !starts_with_exec(t.as_slice(), slash.as_slice()) {
        return string_from_chars(t.as_slice());
    }
    let (name, args_text) = match index_of_exec(t.as_slice(), ' ') {
        Some(p) => (sub_chars(t.as_slice(), 1, p), sub_chars(t.as_slice(), p + 1, t.len())),
        None => (sub_chars(t.as_slice(), 1, t.len()), Vec::new()),
    };
    proof {
        if let Some(p) = index_of(t@, ' ') {
            assert(t@[0] == '/');
            assert(p != 0);
        }
        assert(name@ =~= slash_parts(t@).0);
        assert(args_text@ =~= slash_parts(t@).1);
    }
    let skill = chars_of("skill:");
    if starts_with_exec(name.as_slice(), skill.as_slice()) {
        return string_from_chars(t.as_slice());
    }
    let mut i: usize = 0;
    assert(selected_template(text@, templates@) == template_index(templates@, name@, 0));
    while i < templates.len()
        invariant
            0 <= i <= templates@.len(),
            name@ == slash_parts(text@).0,
            args_text@ == slash_parts(text@).1,
            template_index(templates@, name@, 0) == template_index(templates@, name@, i as int),
            selected_template(text@, templates@) == template_index(templates@, name@, 0),
            t@ == text@,
        decreases templates@.len() - i,
    {
        let tn = chars_of(templates[i].name.as_str());
        if chars_eq(tn.as_slice(), name.as_slice()) {
            let args = parse_command_args(string_from_chars(args_text.as_slice()).as_str());
            assert(strings_view(args@) =~= args@.map_values(|s: String| s@));
            return substitute_args(templates[i].content.as_str(), args.as_slice());
        }
        i = i + 1;
    }
    string_from_chars(t.as_slice())
}

/// Whether the text is `/name` or `/name args` for a known template.
pub fn selects_template(text: &str, templates: &[PromptTemplate]) -> (r: bool)
    ensures
        r == selected_template(text@, templates@) is Some,
{
    let t = chars_of(text);
    let slash = vec!['/'];
    assert(slash@ =~= seq!['/']);
    if !starts_with_exec(t.as_slice(), slash.as_slice()) {
        return false;
    }
    let name = match index_of_exec(t.as_slice(), ' ') {
        Some(p) => sub_chars(t.as_slice(), 1, p),
        None => sub_chars(t.as_slice(), 1, t.len()),
    };
    proof {
        if let Some(p) = index_of(t@, ' ') {
            assert(t@[0] == '/');
            assert(p != 0);
        }
        assert(name@ =~= slash_parts(t@).0);
    }
    let skill = chars_of("skill:");
    if starts_with_exec(name.as_slice(), skill.as_slice()) {
        return false;
    }
    let mut i: usize = 0;
    while i < templates.len()
        invariant
            0 <= i <= templates@.len(),
            name@ == slash_parts(text@).0,
            template_index(templates@, name@, 0) == template_index(templates@, name@, i as int),
            selected_template(text@, templates@) == template_index(templates@, name@, 0),
        decreases templates@.len() - i,
    {
        let tn = chars_of(templates[i].name.as_str());
        if chars_eq(tn.as_slice(), name.as_slice()) {
            return true;
        }
        i = i + 1;
    }
    false
}

/// Description of a template: the `description` entry, else the first
/// non-blank body line, trimmed and cut to 60 characters (with `...` when
/// the trimmed line is longer than 60 bytes).
pub open spec fn first_nonblank(ls: Seq<Seq<char>>, i: int) -> Option<Seq<char>>
    decreases ls.len() - i,
{
    if i < 0 || i >= ls.len() {
        None
    } else if trim(ls[i]).len() > 0 {
        Some(ls[i])
    } else {
        first_nonblank(ls, i + 1)
    }
}

pub open spec fn line_description(l: Seq<char>) -> Seq<char> {
    let t = trim(l);
    let cut = if t.len() > 60 {
        t.take(60)
    } else {
        t
    };
    if utf8_len(t) > 60 {
        cut + "..."@
    } else {
        cut
    }
}

pub open spec fn template_description(raw: Seq<char>) -> Seq<char> {
    let (entries, body) = split_frontmatter(raw);
    match lookup(entries, "description"@) {
        Some(d) => d,
        None => match first_nonblank(lines(body), 0) {
            Some(l) => line_description(l),
            None => seq![],
        },
    }
}

fn first_nonblank_exec(ls: &Vec<Vec<char>>, Ghost(lv): Ghost<Seq<Seq<char>>>) -> (r: Option<usize>)
    requires
        ls@.len() == lv.len(),
        forall|k: int| 0 <= k < ls@.len() ==> (#[trigger] ls@[k])@ == lv[k],
    ensures
        r matches Some(k) ==> k < lv.len() && first_nonblank(lv, 0) == Some(lv[k as int]),
        r is None ==> first_nonblank(lv, 0) is None,
{
    let mut i: usize = 0;
    while i < ls.len()
        invariant
            0 <= i <= ls@.len() == lv.len(),
            forall|k: int| 0 <= k < ls@.len() ==> (#[trigger] ls@[k])@ == lv[k],
            first_nonblank(lv, 0) == first_nonblank(lv, i as int),
        decreases ls@.len() - i,
    {
        let tl = trim_chars(ls[i].as_slice());
        if tl.len() > 0 {
            return Some(i);
        }
        i = i + 1;
    }
    None
}

fn line_description_exec(l: &[char]) -> (d: Vec<char>)
    ensures
        d@ == line_description(l@),
{
    let tl = trim_chars(l);
    let mut d = if tl.len() > 60 {
        sub_chars(tl.as_slice(), 0, 60)
    } else {
        copy_chars(tl.as_slice())
    };
    assert(tl.len() > 60 ==> d@ =~= tl@.take(60));
    if utf8_len_exceeds(tl.as_slice(), 60) {
        append_str(&mut d, "...");
    }
    d
}

/// `target` is `root` or lies below it (both already canonical); a root
/// that ends in `/` is its own prefix.
pub open spec fn under_dir(target: Seq<char>, root: Seq<char>) -> bool {
    target == root || starts_with(
        target,
        if root.len() > 0 && root.last() == '/' {
            root
        } else {
            root + "/"@
        },
    )
}

pub fn is_under_dir(target: &str, root: &str) -> (r: bool)
    ensures
        r == under_dir(target@, root@),
{
    let t = chars_of(target);
    let mut r = chars_of(root);
    if chars_eq(t.as_slice(), r.as_slice()) {
        return true;
    }
    if !(r.len() > 0 && r[r.len() - 1] == '/') {
        r.push('/');
        proof {
            reveal_strlit("/");
        }
        assert(r@ =~= root@ + "/"@);
    }
    starts_with_exec(t.as_slice(), r.as_slice())
}

/// The scope of templates found under a configured path: inside the
/// user's or the project's prompt directory they keep that scope.
pub open spec fn path_scope(under_user: bool, under_project: bool) -> ResourceScope {
    if under_user {
        ResourceScope::User
    } else if under_project {
        ResourceScope::Project
    } else {
        ResourceScope::Path
    }
}

pub fn template_path_scope(under_user: bool, under_project: bool) -> (s: ResourceScope)
    ensures
        s == path_scope(under_user, under_project),
{
    if under_user {
        ResourceScope::User
    } else if under_project {
        ResourceScope::Project
    } else {
        ResourceScope::Path
    }
}

/// Build a template from the Markdown text of its file.
pub fn template_from_markdown(
    name: &str,
    raw: &str,
    source: &str,
    scope: ResourceScope,
    file_path: &str,
) -> (t: PromptTemplate)
    ensures
        t.name@ == name@,
        t.description@ == template_description(raw@),
        t.content@ == split_frontmatter(raw@).1,
        match t.argument_hint {
            Some(h) => lookup(split_frontmatter(raw@).0, "argument-hint"@) == Some(h@),
            None => lookup(split_frontmatter(raw@).0, "argument-hint"@) is None,
        },
        t.source@ == source@,
        t.scope == scope,
        t.file_path@ == file_path@,
{
    let (fm, body) = parse_frontmatter(raw);
    let description = match fm.get("description") {
        Some(d) => string_from_chars(chars_of(d.as_str()).as_slice()),
        None => {
            let bc = chars_of(body.as_str());
            let ls = lines_exec(bc.as_slice());
            match first_nonblank_exec(&ls, Ghost(lines(bc@))) {
                Some(k) => {
                    let d = line_description_exec(ls[k].as_slice());
                    string_from_chars(d.as_slice())
                },
                None => String::new(),
            }
        },
    };
    let argument_hint = match fm.get("argument-hint") {
        Some(h) => Some(string_from_chars(chars_of(h.as_str()).as_slice())),
        None => None,
    };
    PromptTemplate {
        name: to_string(name),
        description,
        argument_hint,
        content: body,
        source: to_string(source),
        scope,
        file_path: to_string(file_path),
    }
}

} // verus!
