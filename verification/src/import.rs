//! Reading the `url:` and `token:` of a simple YAML config, line by line.

use vstd::prelude::*;
use crate::text::{chars_of, string_of, slice_vec, trim, trim_ws, trim_start_ws, has_prefix, starts_with, is_ws, is_whitespace};

verus! {

/// The position of the first newline of `s`, or its length when it has none.
pub open spec fn first_nl(s: Seq<char>) -> int
    decreases s.len(),
{
    if s.len() == 0 {
        0
    } else if s[0] == '\n' {
        0
    } else {
        1 + first_nl(s.drop_first())
    }
}

/// `v` without leading and trailing quote characters (`"` and `'`).
pub open spec fn trim_quotes(v: Seq<char>) -> Seq<char>
    decreases v.len(),
{
    if v.len() > 0 && (v[0] == '"' || v[0] == '\'') {
        trim_quotes(v.drop_first())
    } else if v.len() > 0 && (v.last() == '"' || v.last() == '\'') {
        trim_quotes(v.drop_last())
    } else {
        v
    }
}

/// The value a line gives `key`: the trimmed line must start with `key`,
/// then (after spaces) a `:`; the rest, trimmed and stripped of quotes, is the
/// value when non-empty.
pub open spec fn line_value(line: Seq<char>, key: Seq<char>) -> Option<Seq<char>> {
    let l = trim_ws(line);
    if has_prefix(l, key) {
        let rest = trim_start_ws(l.subrange(key.len() as int, l.len() as int));
        if rest.len() > 0 && rest[0] == ':' {
            let v = trim_quotes(trim_ws(rest.subrange(1, rest.len() as int)));
            if v.len() > 0 {
                Some(v)
            } else {
                None
            }
        } else {
            None
        }
    } else {
        None
    }
}

/// The value of the first line of `s` that gives `key` one.
pub open spec fn spec_scan(s: Seq<char>, key: Seq<char>) -> Option<Seq<char>>
    decreases s.len(),
{
    let f = first_nl(s);
    if 0 <= f <= s.len() {
        match line_value(s.subrange(0, f), key) {
            Some(v) => Some(v),
            None => if f < s.len() {
                spec_scan(s.subrange(f + 1, s.len() as int), key)
            } else {
                None
            },
        }
    } else {
        None
    }
}

proof fn lemma_first_nl(s: Seq<char>)
    ensures
        0 <= first_nl(s) <= s.len(),
        forall|k: int| 0 <= k < first_nl(s) ==> s[k] != '\n',
        first_nl(s) < s.len() ==> s[first_nl(s)] == '\n',
    decreases s.len(),
{
    if s.len() > 0 && s[0] != '\n' {
        lemma_first_nl(s.drop_first());
        assert forall|k: int| 0 <= k < first_nl(s) implies s[k] != '\n' by {
            if k > 0 {
                assert(s[k] == s.drop_first()[k - 1]);
            }
        }
    }
}

proof fn lemma_first_nl_at(s: Seq<char>, j: int)
    requires
        0 <= j <= s.len(),
        forall|k: int| 0 <= k < j ==> s[k] != '\n',
        j == s.len() || s[j] == '\n',
    ensures
        first_nl(s) == j,
    decreases s.len(),
{
    if j > 0 {
        lemma_first_nl_at(s.drop_first(), j - 1);
    }
}

fn trim_quote_chars(v: &Vec<char>) -> (r: Vec<char>)
    ensures
        r@ == trim_quotes(v@),
{
    let mut i: usize = 0;
    let mut k: usize = v.len();
    assert(v@.subrange(0, v@.len() as int) =~= v@);
    while i < k && (v[i] == '"' || v[i] == '\'')
        invariant
            i <= k == v@.len(),
            trim_quotes(v@) == trim_quotes(v@.subrange(i as int, k as int)),
        decreases k - i,
    {
        proof {
            let w = v@.subrange(i as int, k as int);
            assert(w.drop_first() =~= v@.subrange(i + 1, k as int));
        }
        i = i + 1;
    }
    while k > i && (v[k - 1] == '"' || v[k - 1] == '\'')
        invariant
            i <= k <= v@.len(),
            trim_quotes(v@) == trim_quotes(v@.subrange(i as int, k as int)),
            k > i ==> !(v@[i as int] == '"' || v@[i as int] == '\''),
        decreases k - i,
    {
        proof {
            let w = v@.subrange(i as int, k as int);
            assert(w[0] == v@[i as int]);
            assert(w.drop_last() =~= v@.subrange(i as int, k - 1));
        }
        k = k - 1;
    }
    proof {
        let w = v@.subrange(i as int, k as int);
        if w.len() > 0 {
            assert(w[0] == v@[i as int]);
            assert(w.last() == v@[k - 1]);
        }
    }
    slice_vec(v, i, k)
}

fn line_value_of(line: &Vec<char>, key: &Vec<char>) -> (r: Option<Vec<char>>)
    ensures
        match r {
            Some(v) => line_value(line@, key@) == Some(v@),
            None => line_value(line@, key@) is None,
        },
{
    let l = trim(line);
    if !starts_with(&l, key) {
        return None;
    }
    let after = slice_vec(&l, key.len(), l.len());
    let mut i: usize = 0;
    assert(after@.subrange(0, after@.len() as int) =~= after@);
    while i < after.len() && is_whitespace(after[i])
        invariant
            i <= after@.len(),
            trim_start_ws(after@) == trim_start_ws(after@.subrange(i as int, after@.len() as int)),
        decreases after.len() - i,
    {
        proof {
            let w = after@.subrange(i as int, after@.len() as int);
            assert(w.drop_first() =~= after@.subrange(i + 1, after@.len() as int));
        }
        i = i + 1;
    }
    let rest = slice_vec(&after, i, after.len());
    proof {
        if rest@.len() > 0 {
            assert(!is_ws(rest@[0]));
        }
        assert(trim_start_ws(rest@) == rest@);
    }
    if rest.len() == 0 || rest[0] != ':' {
        return None;
    }
    let v = trim_quote_chars(&trim(&slice_vec(&rest, 1, rest.len())));
    if v.len() > 0 {
        Some(v)
    } else {
        None
    }
}

/// Extract a top-level scalar `key: value` from simple YAML: the value of the
/// first line that gives one, trimmed and stripped of quotes.
pub fn scan_yaml_scalar(text: &str, key: &str) -> (r: Option<String>)
    ensures
        match r {
            Some(v) => spec_scan(text@, key@) == Some(v@),
            None => spec_scan(text@, key@) is None,
        },
{
    let s = chars_of(text);
    let k = chars_of(key);
    let n = s.len();
    let mut pos: usize = 0;
    assert(s@.subrange(0, n as int) =~= s@);
    loop
        invariant
            n == s@.len(),
            s@ == text@,
            pos <= n,
            k@ == key@,
            spec_scan(s@, k@) == spec_scan(s@.subrange(pos as int, n as int), k@),
        decreases n - pos,
    {
        let mut j: usize = pos;
        while j < n && s[j] != '\n'
            invariant
                pos <= j <= n,
                n == s@.len(),
                forall|q: int| pos <= q < j ==> s@[q] != '\n',
            decreases n - j,
        {
            j = j + 1;
        }
        let ghost rest = s@.subrange(pos as int, n as int);
        proof {
            lemma_first_nl_at(rest, j - pos);
            assert(rest.subrange(0, j - pos) =~= s@.subrange(pos as int, j as int));
            if j < n {
                assert(rest.subrange(j - pos + 1, rest.len() as int) =~= s@.subrange(j + 1, n as int));
            }
        }
        let line = slice_vec(&s, pos, j);
        match line_value_of(&line, &k) {
            Some(v) => {
                return Some(string_of(&v));
            },
            None => {},
        }
        if j == n {
            return None;
        }
        pos = j + 1;
    }
}

} // verus!
