//! `---`-delimited frontmatter of Markdown resources: `key: value` lines
//! before the body.

use vstd::prelude::*;

use crate::text::{
    chars_eq, chars_of, find, find_exec, index_of, index_of_exec, is_ws, lemma_find_from, lines,
    lines_exec, matches_at, starts_with, starts_with_exec, string_from_chars, sub_chars, trim,
    trim_chars, trim_end, trim_start, trim_start_chars,
};

verus! {

/// Frontmatter entries in file order. A key given twice keeps its last value.
pub struct Frontmatter {
    pairs: Vec<(String, String)>,
}

pub open spec fn pair_view(p: (String, String)) -> (Seq<char>, Seq<char>) {
    (p.0@, p.1@)
}

/// Value of the last entry with `key`.
pub open spec fn lookup(pairs: Seq<(Seq<char>, Seq<char>)>, key: Seq<char>) -> Option<Seq<char>>
    decreases pairs.len(),
{
    if pairs.len() == 0 {
        None
    } else if pairs.last().0 == key {
        Some(pairs.last().1)
    } else {
        lookup(pairs.drop_last(), key)
    }
}

impl Frontmatter {
    /// Entries in file order.
    pub closed spec fn entries(&self) -> Seq<(Seq<char>, Seq<char>)> {
        self.pairs@.map_values(|p: (String, String)| pair_view(p))
    }

    /// Value of `key` (the last one given).
    pub fn get(&self, key: &str) -> (r: Option<&String>)
        ensures
            r matches Some(v) ==> lookup(self.entries(), key@) == Some(v@),
            r is None ==> lookup(self.entries(), key@) is None,
    {
        let k = chars_of(key);
        let mut i = self.pairs.len();
        assert(self.entries().take(i as int) =~= self.entries());
        while i > 0
            invariant
                i <= self.pairs@.len() == self.entries().len(),
                k@ == key@,
                lookup(self.entries(), key@) == lookup(self.entries().take(i as int), key@),
            decreases i,
        {
            let pk = chars_of(self.pairs[i - 1].0.as_str());
            assert(self.entries().take(i as int).drop_last() =~= self.entries().take(i - 1));
            assert(self.entries().take(i as int).last() == pair_view(self.pairs@[i - 1]));
            let ghost tk = self.entries().take(i as int);
            assert(pk@ == tk.last().0);
            if chars_eq(pk.as_slice(), k.as_slice()) {
                assert(lookup(tk, key@) == Some(tk.last().1));
                return Some(&self.pairs[i - 1].1);
            }
            assert(lookup(tk, key@) == lookup(tk.drop_last(), key@));
            i = i - 1;
        }
        None
    }

    /// No entries.
    pub fn is_empty(&self) -> (r: bool)
        ensures
            r == (self.entries().len() == 0),
    {
        self.pairs.len() == 0
    }

    /// Number of entries.
    pub fn len(&self) -> (r: usize)
        ensures
            r == self.entries().len(),
    {
        self.pairs.len()
    }
}

/// The entry a frontmatter line gives, if any: the trimmed text before the
/// first `:` as key (when not empty) and the trimmed rest as value.
pub open spec fn line_entry(line: Seq<char>) -> Option<(Seq<char>, Seq<char>)> {
    let l = trim(line);
    match index_of(l, ':') {
        Some(cp) => {
            let key = trim(l.take(cp));
            if key.len() > 0 {
                Some((key, trim(l.skip(cp + 1))))
            } else {
                None
            }
        },
        None => None,
    }
}

// ── The value of a frontmatter line ─────────────────────────────────────────

proof fn lemma_ts_suffix(s: Seq<char>)
    ensures
        trim_start(s).len() <= s.len(),
        trim_start(s) == s.skip(s.len() - trim_start(s).len()),
        forall|i: int| 0 <= i < s.len() - trim_start(s).len() ==> is_ws(#[trigger] s[i]),
        trim_start(s).len() > 0 ==> !is_ws(trim_start(s)[0]),
    decreases s.len(),
{
    if s.len() > 0 && is_ws(s[0]) {
        let d = s.drop_first();
        lemma_ts_suffix(d);
        assert(d.skip(d.len() - trim_start(d).len()) =~= s.skip(s.len() - trim_start(d).len()));
        assert forall|i: int| 0 <= i < s.len() - trim_start(s).len() implies is_ws(#[trigger] s[i]) by {
            if i > 0 {
                assert(s[i] == d[i - 1]);
            }
        }
    } else {
        assert(s.skip(0) =~= s);
    }
}

proof fn lemma_te_prefix(s: Seq<char>)
    ensures
        trim_end(s).len() <= s.len(),
        trim_end(s) == s.take(trim_end(s).len() as int),
        forall|i: int| trim_end(s).len() <= i < s.len() ==> is_ws(#[trigger] s[i]),
        trim_end(s).len() > 0 ==> !is_ws(trim_end(s).last()),
    decreases s.len(),
{
    if s.len() > 0 && is_ws(s.last()) {
        let d = s.drop_last();
        lemma_te_prefix(d);
        assert(d.take(trim_end(d).len() as int) =~= s.take(trim_end(d).len() as int));
        assert forall|i: int| trim_end(s).len() <= i < s.len() implies is_ws(#[trigger] s[i]) by {
            if i < s.len() - 1 {
                assert(s[i] == d[i]);
            }
        }
    } else {
        assert(s.take(s.len() as int) =~= s);
    }
}

proof fn lemma_all_ws_trims_away(r: Seq<char>)
    requires
        forall|i: int| 0 <= i < r.len() ==> is_ws(#[trigger] r[i]),
    ensures
        trim_start(r).len() == 0,
        trim_end(r).len() == 0,
    decreases r.len(),
{
    if r.len() > 0 {
        assert(is_ws(r[0]) && is_ws(r.last()));
        assert forall|i: int| 0 <= i < r.drop_first().len() implies is_ws(#[trigger] r.drop_first()[i]) by {
            assert(r.drop_first()[i] == r[i + 1]);
        }
        assert forall|i: int| 0 <= i < r.drop_last().len() implies is_ws(#[trigger] r.drop_last()[i]) by {
            assert(r.drop_last()[i] == r[i]);
        }
        lemma_all_ws_trims_away(r.drop_first());
        lemma_all_ws_trims_away(r.drop_last());
    }
}

proof fn lemma_ts_concat(p: Seq<char>, y: Seq<char>)
    requires
        trim_start(p).len() > 0,
    ensures
        trim_start(p + y) == trim_start(p) + y,
    decreases p.len(),
{
    if p.len() > 0 && is_ws(p[0]) {
        assert((p + y).drop_first() =~= p.drop_first() + y);
        assert((p + y)[0] == p[0]);
        lemma_ts_concat(p.drop_first(), y);
    } else {
        assert(p.len() > 0);
        assert((p + y)[0] == p[0]);
    }
}

proof fn lemma_te_concat(p: Seq<char>, y: Seq<char>)
    requires
        p.len() > 0,
        !is_ws(p.last()),
    ensures
        trim_end(p + y) == p + trim_end(y),
    decreases y.len(),
{
    if y.len() == 0 {
        assert(p + y =~= p);
        assert(p + trim_end(y) =~= p);
    } else {
        assert((p + y).last() == y.last());
        if is_ws(y.last()) {
            assert((p + y).drop_last() =~= p + y.drop_last());
            lemma_te_concat(p, y.drop_last());
        }
    }
}

proof fn lemma_trim_of_trim_end(v: Seq<char>)
    ensures
        trim(trim_end(v)) == trim(v),
{
    let t = trim_end(v);
    lemma_te_prefix(v);
    let r = v.skip(t.len() as int);
    assert(v =~= t + r);
    assert forall|i: int| 0 <= i < r.len() implies is_ws(#[trigger] r[i]) by {
        assert(r[i] == v[i + t.len()]);
    }
    lemma_all_ws_trims_away(r);
    lemma_ts_suffix(t);
    let u = trim_start(t);
    if u.len() > 0 {
        lemma_ts_concat(t, r);
        assert(u.last() == t.last());
        lemma_te_concat(u, r);
        assert(u + trim_end(r) =~= u);
        assert(trim_end(u) == u);
    } else {
        assert(t.len() == 0) by {
            if t.len() > 0 {
                assert(is_ws(t[t.len() - 1]));
                assert(t.last() == t[t.len() - 1]);
            }
        }
        assert(r =~= v);
        lemma_all_ws_trims_away(v);
        assert(trim_start(v).len() == 0);
        assert(trim_end(trim_start(v)).len() == 0);
        assert(trim(t) =~= trim(v));
    }
}

/// A frontmatter line `key: value` gives the trimmed key and all of the
/// trimmed value, whatever the value holds: a colon in the value (as in
/// `description: Review code: style` or a URL) does not end it.
pub proof fn lemma_line_entry_value_keeps_colons(k: Seq<char>, v: Seq<char>)
    requires
        forall|i: int| 0 <= i < k.len() ==> k[i] != ':',
        trim(k).len() > 0,
    ensures
        line_entry(k + seq![':'] + v) == Some((trim(k), trim(v))),
{
    assert(!is_ws(':')) by {
        assert((':' as u32) == 0x3A);
    }
    let ts = trim_start(k);
    assert(ts.len() > 0) by {
        if ts.len() == 0 {
            assert(trim_end(ts).len() == 0);
        }
    }
    lemma_ts_suffix(k);
    assert(ts =~= trim_start(ts)) by {
        lemma_ts_suffix(ts);
    }
    lemma_ts_concat(k, seq![':'] + v);
    assert(k + seq![':'] + v =~= k + (seq![':'] + v));
    let pp = ts + seq![':'];
    assert(ts + (seq![':'] + v) =~= pp + v);
    assert(pp.last() == ':');
    lemma_te_concat(pp, v);
    let l = pp + trim_end(v);
    assert(trim(k + seq![':'] + v) == l);
    let cp = ts.len() as int;
    assert forall|j: int| 0 <= j < cp implies ts[j] != ':' by {
        assert(ts[j] == k[j + (k.len() - ts.len())]);
    }
    lemma_find_from(l, seq![':'], 0);
    assert(l[cp] == ':');
    assert(l.subrange(cp, cp + 1) =~= seq![':']);
    assert(matches_at(l, seq![':'], cp));
    match index_of(l, ':') {
        Some(j) => {
            if j < cp {
                assert(l.subrange(j, j + 1)[0] == l[j]);
                assert(l[j] == ts[j]);
            }
            assert(j == cp);
        },
        None => {},
    }
    assert(l.take(cp) =~= ts);
    assert(l.skip(cp + 1) =~= trim_end(v));
    lemma_trim_of_trim_end(v);
}

/// A line without a colon, or whose text before its first colon is only
/// whitespace, gives no entry.
pub proof fn lemma_line_entry_needs_key(k: Seq<char>, v: Seq<char>)
    requires
        forall|i: int| 0 <= i < k.len() ==> k[i] != ':',
    ensures
        line_entry(k).is_none(),
        trim(k).len() == 0 ==> line_entry(k + seq![':'] + v).is_none(),
{
    let t = trim(k);
    lemma_ts_suffix(k);
    let ts = trim_start(k);
    lemma_te_prefix(ts);
    assert forall|j: int| 0 <= j < t.len() implies t[j] != ':' by {
        assert(t[j] == ts[j]);
        assert(ts[j] == k[j + (k.len() - ts.len())]);
    }
    lemma_find_from(t, seq![':'], 0);
    match index_of(t, ':') {
        Some(j) => {
            assert(t.subrange(j, j + 1)[0] == t[j]);
        },
        None => {},
    }
    if trim(k).len() == 0 {
        let x = k + seq![':'] + v;
        let l = trim(x);
        match index_of(l, ':') {
            Some(cp) => {
                lemma_find_from(l, seq![':'], 0);
                assert(l.subrange(cp, cp + 1)[0] == l[cp]);
                lemma_ts_suffix(x);
                let tx = trim_start(x);
                lemma_te_prefix(tx);
                let off = x.len() - tx.len();
                assert(l[cp] == tx[cp]);
                assert(tx[cp] == x[cp + off]);
                let c = cp + off;
                // the colon found is the one after k: everything in k is whitespace
                assert forall|i: int| 0 <= i < k.len() implies is_ws(#[trigger] k[i]) by {
                    crate::text::lemma_trim_empty(k);
                }
                if c < k.len() {
                    assert(x[c] == k[c]);
                }
                assert(c >= k.len());
                assert(x[k.len() as int] == ':');
                assert(off <= k.len()) by {
                    if off > k.len() {
                        assert(is_ws(x[k.len() as int]));
                    }
                }
                let m = k.len() - off;
                assert(tx[m] == x[m + off]);
                assert(m < l.len()) by {
                    if m >= l.len() {
                        assert(is_ws(tx[m]));
                    }
                }
                assert(l[m] == tx[m]);
                assert(cp <= m) by {
                    if cp > m {
                        assert(l.subrange(m, m + 1) =~= seq![':']);
                        assert(matches_at(l, seq![':'], m));
                    }
                }
                assert forall|j: int| 0 <= j < cp implies is_ws(#[trigger] l.take(cp)[j]) by {
                    assert(l.take(cp)[j] == tx[j]);
                    assert(tx[j] == x[j + off]);
                    assert(j + off < k.len());
                    assert(x[j + off] == k[j + off]);
                }
                crate::text::lemma_trim_empty(l.take(cp));
            },
            None => {},
        }
    }
}

pub open spec fn entries_of_lines(ls: Seq<Seq<char>>) -> Seq<(Seq<char>, Seq<char>)>
    decreases ls.len(),
{
    if ls.len() == 0 {
        seq![]
    } else {
        let prev = entries_of_lines(ls.drop_last());
        match line_entry(ls.last()) {
            Some(e) => prev.push(e),
            None => prev,
        }
    }
}

/// Frontmatter entries and body of `raw`. Without an opening `---` line or
/// a closing `\n---`, there are no entries and the body is all of `raw`.
pub open spec fn split_frontmatter(raw: Seq<char>) -> (Seq<(Seq<char>, Seq<char>)>, Seq<char>) {
    let trimmed = trim_start(raw);
    let lf_open = seq!['-', '-', '-', '\n'];
    let crlf_open = seq!['-', '-', '-', '\r', '\n'];
    if !starts_with(trimmed, lf_open) && !starts_with(trimmed, crlf_open) {
        (seq![], raw)
    } else {
        let after = if starts_with(trimmed, crlf_open) {
            trimmed.skip(5)
        } else {
            trimmed.skip(4)
        };
        let close = match find(after, seq!['\n', '-', '-', '-']) {
            Some(p) => Some(p),
            None => find(after, seq!['\r', '\n', '-', '-', '-']),
        };
        match close {
            Some(pos) => {
                let fm_end = if starts_with(after.skip(pos), seq!['\r', '\n', '-', '-', '-']) {
                    pos + 5
                } else {
                    pos + 4
                };
                (entries_of_lines(lines(after.take(pos))), after.skip(fm_end))
            },
            None => (seq![], raw),
        }
    }
}

fn line_entry_exec(line: &[char]) -> (r: Option<(String, String)>)
    ensures
        r matches Some(e) ==> line_entry(line@) == Some(pair_view(e)),
        r is None ==> line_entry(line@) is None,
{
    let l = trim_chars(line);
    match index_of_exec(l.as_slice(), ':') {
        Some(cp) => {
            let head = sub_chars(l.as_slice(), 0, cp);
            assert(head@ =~= l@.take(cp as int));
            let key = trim_chars(head.as_slice());
            if key.len() > 0 {
                let rest = sub_chars(l.as_slice(), cp + 1, l.len());
                assert(rest@ =~= l@.skip(cp + 1));
                let value = trim_chars(rest.as_slice());
                Some((string_from_chars(key.as_slice()), string_from_chars(value.as_slice())))
            } else {
                None
            }
        },
        None => None,
    }
}

/// Parse frontmatter: `(entries, body)`.
pub fn parse_frontmatter(raw: &str) -> (r: (Frontmatter, String))
    ensures
        (r.0.entries(), r.1@) == split_frontmatter(raw@),
{
    let rc = chars_of(raw);
    let trimmed = trim_start_chars(rc.as_slice());
    let lf_open = vec!['-', '-', '-', '\n'];
    let crlf_open = vec!['-', '-', '-', '\r', '\n'];
    let close_lf = vec!['\n', '-', '-', '-'];
    let close_crlf = vec!['\r', '\n', '-', '-', '-'];
    assert(lf_open@ =~= seq!['-', '-', '-', '\n']);
    assert(crlf_open@ =~= seq!['-', '-', '-', '\r', '\n']);
    assert(close_lf@ =~= seq!['\n', '-', '-', '-']);
    assert(close_crlf@ =~= seq!['\r', '\n', '-', '-', '-']);
    let empty = Frontmatter { pairs: Vec::new() };
    assert(empty.entries() =~= Seq::<(Seq<char>, Seq<char>)>::empty());
    let is_crlf = starts_with_exec(trimmed.as_slice(), crlf_open.as_slice());
    if !starts_with_exec(trimmed.as_slice(), lf_open.as_slice()) && !is_crlf {
        return (empty, string_from_chars(rc.as_slice()));
    }
    let after = if is_crlf {
        sub_chars(trimmed.as_slice(), 5, trimmed.len())
    } else {
        sub_chars(trimmed.as_slice(), 4, trimmed.len())
    };
    let close = match find_exec(after.as_slice(), close_lf.as_slice()) {
        Some(p) => Some(p),
        None => find_exec(after.as_slice(), close_crlf.as_slice()),
    };
    match close {
        Some(pos) => {
            proof {
                crate::text::lemma_find_from(after@, seq!['\n', '-', '-', '-'], 0);
                crate::text::lemma_find_from(after@, seq!['\r', '\n', '-', '-', '-'], 0);
            }
            let tail = sub_chars(after.as_slice(), pos, after.len());
            assert(tail@ =~= after@.skip(pos as int));
            let fm_end = if starts_with_exec(tail.as_slice(), close_crlf.as_slice()) {
                pos + 5
            } else {
                pos + 4
            };
            let fm_text = sub_chars(after.as_slice(), 0, pos);
            let body = sub_chars(after.as_slice(), fm_end, after.len());
            assert(fm_text@ =~= after@.take(pos as int));
            assert(body@ =~= after@.skip(fm_end as int));
            let ls = lines_exec(fm_text.as_slice());
            let ghost lv = lines(fm_text@);
            let mut pairs: Vec<(String, String)> = Vec::new();
            let mut i: usize = 0;
            while i < ls.len()
                invariant
                    0 <= i <= ls@.len() == lv.len(),
                    forall|k: int| 0 <= k < ls@.len() ==> (#[trigger] ls@[k])@ == lv[k],
                    pairs@.map_values(|p: (String, String)| pair_view(p)) == entries_of_lines(
                        lv.take(i as int),
                    ),
                decreases ls@.len() - i,
            {
                proof {
                    assert(lv.take(i + 1).drop_last() =~= lv.take(i as int));
                }
                match line_entry_exec(ls[i].as_slice()) {
                    Some(e) => {
                        pairs.push(e);
                    },
                    None => {},
                }
                i = i + 1;
                assert(pairs@.map_values(|p: (String, String)| pair_view(p)) =~= entries_of_lines(
                    lv.take(i as int),
                ));
            }
            assert(lv.take(i as int) =~= lv);
            (Frontmatter { pairs }, string_from_chars(body.as_slice()))
        },
        None => (empty, string_from_chars(rc.as_slice())),
    }
}

} // verus!
