//! The literal grammar of environment values: quoted strings, and the
//! array `[..]`, map `{..}` and tuple `(..)` forms whose elements and
//! entries are separated by commas.
use vstd::prelude::*;
use crate::text::{
    find_char_exec, run_end_exec, skip_ws_exec, string_of, trim_end_exec,
    lemma_trim_end, trim_end,
    find_char, is_ws, lemma_find_char, lemma_run_end, lemma_skip_ws, run_end, skip_ws,
    trim,
};

verus! {

/// The text that an environment value stands for: where the value, without
/// its surrounding whitespace, is enclosed in double quotes, what lies
/// between them; otherwise the value without its surrounding whitespace.
pub open spec fn normalize(c: Seq<char>) -> Seq<char> {
    match bracketed(c, '"', '"') {
        Some(inner) => inner,
        None => trim(c),
    }
}

/// What lies between `open` and `close` where the value, without its
/// surrounding whitespace, starts with `open` and ends with `close`.
pub open spec fn bracketed(c: Seq<char>, open: char, close: char) -> Option<Seq<char>> {
    let t = trim(c);
    if t.len() >= 2 && t[0] == open && t[t.len() - 1] == close {
        Some(t.subrange(1, t.len() - 1))
    } else {
        None
    }
}

/// The end of the token that starts at `q`: a double-quoted string up to
/// its closing quote where there is one, and otherwise the run of
/// characters up to the next comma or whitespace.
pub open spec fn token_end(c: Seq<char>, q: int) -> int {
    let k = find_char(c, '"', q + 1);
    if c[q] == '"' && k < c.len() {
        k + 1
    } else {
        run_end(c, q)
    }
}

/// Where a comma directly at `w` is consumed too.
pub open spec fn after_comma(c: Seq<char>, w: int) -> int {
    if 0 <= w < c.len() && c[w] == ',' {
        w + 1
    } else {
        w
    }
}

/// An element found by a search that starts at `s`: the token's start and
/// end, and where the next search starts (after the whitespace and the
/// comma that follow the token).
pub open spec fn elem_at(c: Seq<char>, s: int) -> Option<(int, int, int)> {
    let q = skip_ws(c, s);
    if q < c.len() && c[q] != ',' {
        let e = token_end(c, q);
        Some((q, e, after_comma(c, skip_ws(c, e))))
    } else {
        None
    }
}

pub proof fn lemma_token_end(c: Seq<char>, q: int)
    requires
        0 <= q < c.len(),
        c[q] != ',',
        !is_ws(c[q]),
    ensures
        q < token_end(c, q) <= c.len(),
{
    lemma_find_char(c, '"', q + 1);
    lemma_run_end(c, q);
}

pub proof fn lemma_elem_at(c: Seq<char>, s: int)
    requires
        0 <= s <= c.len(),
    ensures
        elem_at(c, s) matches Some((q, e, m)) ==> s <= q < e <= m <= c.len(),
{
    lemma_skip_ws(c, s);
    let q = skip_ws(c, s);
    if q < c.len() && c[q] != ',' {
        lemma_token_end(c, q);
        lemma_skip_ws(c, token_end(c, q));
    }
}

/// The elements of an array or tuple body `c`, searched for from `s` on.
pub open spec fn elems_from(c: Seq<char>, s: int) -> Seq<Seq<char>>
    decreases c.len() - s,
{
    if s < 0 || s >= c.len() {
        Seq::empty()
    } else {
        match elem_at(c, s) {
            Some((q, e, m)) => {
                proof {
                    lemma_elem_at(c, s);
                }
                seq![c.subrange(q, e)] + elems_from(c, m)
            },
            None => elems_from(c, s + 1),
        }
    }
}

/// The elements of an array or tuple body, in order.
pub open spec fn elems(c: Seq<char>) -> Seq<Seq<char>> {
    elems_from(c, 0)
}

/// The value of a map entry searched for from `v0`, as its start and end.
pub open spec fn value_at(c: Seq<char>, v0: int) -> Option<(int, int)> {
    let w = skip_ws(c, v0);
    if w < c.len() && c[w] != ',' {
        Some((w, token_end(c, w)))
    } else {
        None
    }
}

/// A map entry found by a search that starts at `s`: the key's start and
/// end, the value's start and end, and where the next search starts.
/// A key is either a non-empty double-quoted string followed by a colon,
/// or the text up to the next colon; the value is a token as in arrays.
pub open spec fn entry_at(c: Seq<char>, s: int) -> Option<(int, int, int, int, int)> {
    let q = skip_ws(c, s);
    let b = find_char(c, '"', q + 1);
    let y = skip_ws(c, b + 1);
    let e = find_char(c, ':', q);
    if q < c.len() && c[q] == '"' && b < c.len() && b > q + 1 && y < c.len() && c[y] == ':'
        && value_at(c, y + 1) is Some {
        let (vs, ve) = value_at(c, y + 1)->0;
        Some((q, b + 1, vs, ve, after_comma(c, ve)))
    } else if e < c.len() && value_at(c, e + 1) is Some && (q < e || (q == e && q > s)) {
        let (vs, ve) = value_at(c, e + 1)->0;
        let ks = if q < e {
            q
        } else {
            q - 1
        };
        Some((ks, e, vs, ve, after_comma(c, ve)))
    } else {
        None
    }
}

pub proof fn lemma_value_at(c: Seq<char>, v0: int)
    requires
        0 <= v0 <= c.len(),
    ensures
        value_at(c, v0) matches Some((vs, ve)) ==> v0 <= vs < ve <= c.len(),
{
    lemma_skip_ws(c, v0);
    let w = skip_ws(c, v0);
    if w < c.len() && c[w] != ',' {
        lemma_token_end(c, w);
    }
}

pub proof fn lemma_entry_at(c: Seq<char>, s: int)
    requires
        0 <= s <= c.len(),
    ensures
        entry_at(c, s) matches Some((ks, ke, vs, ve, m)) ==> s <= ks < ke < vs < ve <= m
            <= c.len(),
{
    lemma_skip_ws(c, s);
    let q = skip_ws(c, s);
    if q < c.len() {
        lemma_find_char(c, '"', q + 1);
    }
    lemma_find_char(c, ':', q);
    let b = find_char(c, '"', q + 1);
    let e = find_char(c, ':', q);
    if b < c.len() {
        lemma_skip_ws(c, b + 1);
        let y = skip_ws(c, b + 1);
        if y < c.len() {
            lemma_value_at(c, y + 1);
        }
    }
    if e < c.len() {
        lemma_value_at(c, e + 1);
    }
}

/// The entries of a map body `c`, searched for from `s` on, each as its
/// key text and value text.
pub open spec fn entries_from(c: Seq<char>, s: int) -> Seq<(Seq<char>, Seq<char>)>
    decreases c.len() - s,
{
    if s < 0 || s >= c.len() {
        Seq::empty()
    } else {
        match entry_at(c, s) {
            Some((ks, ke, vs, ve, m)) => {
                proof {
                    lemma_entry_at(c, s);
                }
                seq![(c.subrange(ks, ke), c.subrange(vs, ve))] + entries_from(c, m)
            },
            None => entries_from(c, s + 1),
        }
    }
}

/// The entries of a map body, in order.
pub open spec fn entries(c: Seq<char>) -> Seq<(Seq<char>, Seq<char>)> {
    entries_from(c, 0)
}


/// The part `c[a..b]` of `c` that `normalize` keeps.
pub fn normalize_range(c: &Vec<char>) -> (r: (usize, usize))
    ensures
        r.0 <= r.1 <= c.len(),
        c@.subrange(r.0 as int, r.1 as int) == normalize(c@),
{
    if let Some(range) = bracketed_range(c, '"', '"') {
        return range;
    }
    let a = skip_ws_exec(c, 0);
    let b = trim_end_exec(c, a, c.len());
    assert(trim(c@) =~= c@.subrange(a as int, b as int));
    (a, b)
}

/// The normalized text of `c`.
pub fn normalize_exec(c: &Vec<char>) -> (r: String)
    ensures
        r@ == normalize(c@),
{
    let (a, b) = normalize_range(c);
    string_of(c, a, b)
}

/// The body `c[a..b]` between `open` and `close`, where `c` is bracketed so.
pub fn bracketed_range(c: &Vec<char>, open: char, close: char) -> (r: Option<(usize, usize)>)
    ensures
        match r {
            Some((a, b)) => a <= b <= c.len() && bracketed(c@, open, close) == Some(
                c@.subrange(a as int, b as int),
            ),
            None => bracketed(c@, open, close) is None,
        },
{
    let a = skip_ws_exec(c, 0);
    let b = trim_end_exec(c, a, c.len());
    let ghost t = trim(c@);
    assert(t =~= c@.subrange(a as int, b as int));
    if b - a >= 2 && c[a] == open && c[b - 1] == close {
        assert(t.subrange(1, t.len() - 1) =~= c@.subrange(a + 1, b - 1));
        Some((a + 1, b - 1))
    } else {
        None
    }
}

pub fn token_end_exec(c: &Vec<char>, q: usize) -> (r: usize)
    requires
        q < c.len(),
        c@[q as int] != ',',
        !is_ws(c@[q as int]),
    ensures
        r == token_end(c@, q as int),
        q < r <= c.len(),
{
    proof {
        lemma_token_end(c@, q as int);
    }
    let k = find_char_exec(c, '"', q + 1);
    if c[q] == '"' && k < c.len() {
        k + 1
    } else {
        run_end_exec(c, q)
    }
}

pub fn after_comma_exec(c: &Vec<char>, w: usize) -> (r: usize)
    requires
        w <= c.len(),
    ensures
        r == after_comma(c@, w as int),
        w <= r <= c.len(),
{
    if w < c.len() && c[w] == ',' {
        w + 1
    } else {
        w
    }
}

pub fn elem_at_exec(c: &Vec<char>, s: usize) -> (r: Option<(usize, usize, usize)>)
    requires
        s <= c.len(),
    ensures
        match r {
            Some((q, e, m)) => elem_at(c@, s as int) == Some((q as int, e as int, m as int)),
            None => elem_at(c@, s as int) is None,
        },
{
    let q = skip_ws_exec(c, s);
    proof {
        lemma_skip_ws(c@, s as int);
    }
    if q < c.len() && c[q] != ',' {
        let e = token_end_exec(c, q);
        let w = skip_ws_exec(c, e);
        Some((q, e, after_comma_exec(c, w)))
    } else {
        None
    }
}

/// The texts of the ranges `r` of `c`.
pub open spec fn range_texts(c: Seq<char>, r: Seq<(usize, usize)>) -> Seq<Seq<char>> {
    r.map_values(|p: (usize, usize)| c.subrange(p.0 as int, p.1 as int))
}

/// The ranges of the elements of the array or tuple body `c`.
pub fn elem_ranges(c: &Vec<char>) -> (r: Vec<(usize, usize)>)
    ensures
        range_texts(c@, r@) == elems(c@),
        forall|i: int| 0 <= i < r.len() ==> (#[trigger] r@[i]).0 <= r@[i].1 && r@[i].1 <= c.len(),
{
    let mut r: Vec<(usize, usize)> = Vec::new();
    let mut p: usize = 0;
    while p < c.len()
        invariant
            p <= c.len(),
            range_texts(c@, r@) + elems_from(c@, p as int) == elems(c@),
            forall|i: int| 0 <= i < r.len() ==> (#[trigger] r@[i]).0 <= r@[i].1 && r@[i].1 <= c.len(),
        decreases c.len() - p,
    {
        proof {
            lemma_elem_at(c@, p as int);
        }
        match elem_at_exec(c, p) {
            Some((q, e, m)) => {
                let ghost old_r = r@;
                r.push((q, e));
                assert(range_texts(c@, r@) =~= range_texts(c@, old_r) + seq![
                    c@.subrange(q as int, e as int),
                ]);
                assert(range_texts(c@, r@) + elems_from(c@, m as int) =~= range_texts(c@, old_r)
                    + elems_from(c@, p as int));
                p = m;
            },
            None => {
                p = p + 1;
            },
        }
    }
    assert(range_texts(c@, r@) + elems_from(c@, p as int) =~= range_texts(c@, r@));
    r
}

pub fn value_at_exec(c: &Vec<char>, v0: usize) -> (r: Option<(usize, usize)>)
    requires
        v0 <= c.len(),
    ensures
        match r {
            Some((vs, ve)) => value_at(c@, v0 as int) == Some((vs as int, ve as int)),
            None => value_at(c@, v0 as int) is None,
        },
{
    let w = skip_ws_exec(c, v0);
    proof {
        lemma_skip_ws(c@, v0 as int);
    }
    if w < c.len() && c[w] != ',' {
        Some((w, token_end_exec(c, w)))
    } else {
        None
    }
}

pub fn entry_at_exec(c: &Vec<char>, s: usize) -> (r: Option<(usize, usize, usize, usize, usize)>)
    requires
        s <= c.len(),
    ensures
        match r {
            Some((ks, ke, vs, ve, m)) => entry_at(c@, s as int) == Some(
                (ks as int, ke as int, vs as int, ve as int, m as int),
            ),
            None => entry_at(c@, s as int) is None,
        },
{
    proof {
        lemma_entry_at(c@, s as int);
        lemma_skip_ws(c@, s as int);
    }
    let q = skip_ws_exec(c, s);
    if q < c.len() && c[q] == '"' {
        let b = find_char_exec(c, '"', q + 1);
        if b < c.len() && b > q + 1 {
            let y = skip_ws_exec(c, b + 1);
            if y < c.len() && c[y] == ':' {
                if let Some((vs, ve)) = value_at_exec(c, y + 1) {
                    proof {
                        lemma_value_at(c@, y + 1);
                    }
                    return Some((q, b + 1, vs, ve, after_comma_exec(c, ve)));
                }
            }
        }
    }
    let e = find_char_exec(c, ':', q);
    if e < c.len() && (q < e || (q == e && q > s)) {
        if let Some((vs, ve)) = value_at_exec(c, e + 1) {
            proof {
                lemma_value_at(c@, e + 1);
            }
            let ks = if q < e {
                q
            } else {
                q - 1
            };
            return Some((ks, e, vs, ve, after_comma_exec(c, ve)));
        }
    }
    None
}

/// The texts of the entry ranges `r` of `c`.
pub open spec fn entry_texts(c: Seq<char>, r: Seq<(usize, usize, usize, usize)>) -> Seq<
    (Seq<char>, Seq<char>),
> {
    r.map_values(
        |p: (usize, usize, usize, usize)|
            (c.subrange(p.0 as int, p.1 as int), c.subrange(p.2 as int, p.3 as int)),
    )
}

/// The ranges of the keys and values of the entries of the map body `c`.
pub fn entry_ranges(c: &Vec<char>) -> (r: Vec<(usize, usize, usize, usize)>)
    ensures
        entry_texts(c@, r@) == entries(c@),
        forall|i: int|
            0 <= i < r.len() ==> (#[trigger] r@[i]).0 <= r@[i].1 && r@[i].1 <= c.len() && r@[i].2 <= r@[i].3
                <= c.len(),
{
    let mut r: Vec<(usize, usize, usize, usize)> = Vec::new();
    let mut p: usize = 0;
    while p < c.len()
        invariant
            p <= c.len(),
            entry_texts(c@, r@) + entries_from(c@, p as int) == entries(c@),
            forall|i: int|
                0 <= i < r.len() ==> (#[trigger] r@[i]).0 <= r@[i].1 && r@[i].1 <= c.len() && r@[i].2
                    <= r@[i].3 <= c.len(),
        decreases c.len() - p,
    {
        proof {
            lemma_entry_at(c@, p as int);
        }
        match entry_at_exec(c, p) {
            Some((ks, ke, vs, ve, m)) => {
                let ghost old_r = r@;
                r.push((ks, ke, vs, ve));
                assert(entry_texts(c@, r@) =~= entry_texts(c@, old_r) + seq![
                    (c@.subrange(ks as int, ke as int), c@.subrange(vs as int, ve as int)),
                ]);
                assert(entry_texts(c@, r@) + entries_from(c@, m as int) =~= entry_texts(
                    c@,
                    old_r,
                ) + entries_from(c@, p as int));
                p = m;
            },
            None => {
                p = p + 1;
            },
        }
    }
    assert(entry_texts(c@, r@) + entries_from(c@, p as int) =~= entry_texts(c@, r@));
    r
}

/// `s` in double quotes.
pub open spec fn quoted(s: Seq<char>) -> Seq<char> {
    seq!['"'] + s + seq!['"']
}

/// Holds where every character of `s` is whitespace.
pub open spec fn all_ws(s: Seq<char>) -> bool {
    forall|i: int| 0 <= i < s.len() ==> is_ws(#[trigger] s[i])
}

proof fn lemma_skip_ws_to(c: Seq<char>, i: int, k: int)
    requires
        0 <= i <= k <= c.len(),
        forall|j: int| i <= j < k ==> is_ws(#[trigger] c[j]),
        k == c.len() || !is_ws(c[k]),
    ensures
        skip_ws(c, i) == k,
    decreases k - i,
{
    if i < k {
        lemma_skip_ws_to(c, i + 1, k);
    }
}

proof fn lemma_trim_end_to(c: Seq<char>, lo: int, k: int, j: int)
    requires
        0 <= lo < k <= j <= c.len(),
        forall|m: int| k <= m < j ==> is_ws(#[trigger] c[m]),
        !is_ws(c[k - 1]),
    ensures
        trim_end(c, lo, j) == k,
    decreases j - k,
{
    if k < j {
        lemma_trim_end_to(c, lo, k, j - 1);
    }
}

proof fn lemma_trim_around(pre: Seq<char>, t: Seq<char>, post: Seq<char>)
    requires
        all_ws(pre),
        all_ws(post),
        t.len() > 0,
        !is_ws(t[0]),
        !is_ws(t[t.len() - 1]),
    ensures
        trim(pre + t + post) == t,
{
    let c = pre + t + post;
    let i = pre.len() as int;
    let k = (pre.len() + t.len()) as int;
    assert(c[i] == t[0]);
    lemma_skip_ws_to(c, 0, i);
    assert(c[k - 1] == t[t.len() - 1]);
    assert forall|m: int| k <= m < c.len() implies is_ws(#[trigger] c[m]) by {
        assert(c[m] == post[m - k]);
    }
    lemma_trim_end_to(c, i, k, c.len() as int);
    assert(c.subrange(i, k) =~= t);
}

/// A quoted text, with whitespace around it, stands for the text between
/// the quotes, whatever that text holds.
pub proof fn law_quoted_text(pre: Seq<char>, t: Seq<char>, post: Seq<char>)
    requires
        all_ws(pre),
        all_ws(post),
    ensures
        normalize(pre + quoted(t) + post) == t,
{
    let q = quoted(t);
    assert(q[0] == '"' && q[q.len() - 1] == '"');
    assert(!is_ws('"'));
    lemma_trim_around(pre, q, post);
    assert(q.subrange(1, q.len() - 1) =~= t);
}

/// A text that does not start with a double quote and has no whitespace
/// at either end stands for itself, with or without whitespace around it.
pub proof fn law_plain_text(pre: Seq<char>, t: Seq<char>, post: Seq<char>)
    requires
        all_ws(pre),
        all_ws(post),
        t.len() > 0,
        t[0] != '"',
        !is_ws(t[0]),
        !is_ws(t[t.len() - 1]),
    ensures
        normalize(pre + t + post) == t,
{
    lemma_trim_around(pre, t, post);
}

/// A text that starts with a double quote but does not end with one,
/// without its surrounding whitespace, is only trimmed: nothing of it is
/// dropped.
pub proof fn law_unclosed_quote_is_kept(pre: Seq<char>, t: Seq<char>, post: Seq<char>)
    requires
        all_ws(pre),
        all_ws(post),
        t.len() > 0,
        t[0] == '"',
        t[t.len() - 1] != '"',
        !is_ws(t[t.len() - 1]),
    ensures
        normalize(pre + t + post) == t,
{
    assert(!is_ws('"'));
    lemma_trim_around(pre, t, post);
}

/// Whitespace around a value changes nothing of what it stands for.
pub proof fn law_whitespace_padding(pre: Seq<char>, t: Seq<char>, post: Seq<char>)
    requires
        all_ws(pre),
        all_ws(post),
    ensures
        normalize(pre + t + post) == normalize(t),
{
    let c = pre + t + post;
    let a = skip_ws(t, 0);
    lemma_skip_ws(t, 0);
    let b = trim_end(t, a, t.len() as int);
    lemma_trim_end(t, a, t.len() as int);
    if a < b {
        let mid = t.subrange(a, b);
        let l = pre + t.subrange(0, a);
        let r = t.subrange(b, t.len() as int) + post;
        assert forall|k: int| 0 <= k < l.len() implies is_ws(#[trigger] l[k]) by {
            if k >= pre.len() {
                assert(l[k] == t[k - pre.len()]);
            }
        }
        assert forall|k: int| 0 <= k < r.len() implies is_ws(#[trigger] r[k]) by {
            if k < t.len() - b {
                assert(r[k] == t[b + k]);
            } else {
                assert(r[k] == post[k - (t.len() - b)]);
            }
        }
        assert(c =~= l + mid + r);
        assert(mid[0] == t[a]);
        assert(mid[mid.len() - 1] == t[b - 1]);
        lemma_trim_around(l, mid, r);
        assert(trim(t) == mid);
    } else {
        assert(a == t.len()) by {
            if a < t.len() {
                assert(!is_ws(t[a]));
                assert(is_ws(t[a]));
            }
        }
        assert forall|k: int| 0 <= k < c.len() implies is_ws(#[trigger] c[k]) by {
            if k < pre.len() {
                assert(c[k] == pre[k]);
            } else if k < pre.len() + t.len() {
                assert(c[k] == t[k - pre.len()]);
            } else {
                assert(c[k] == post[k - pre.len() - t.len()]);
            }
        }
        lemma_skip_ws_to(c, 0, c.len() as int);
        assert(trim(c) =~= Seq::<char>::empty());
        assert(trim(t) =~= Seq::<char>::empty());
    }
    assert(trim(c) == trim(t));
}

/// A value written plainly and the same value written as a quoted string
/// stand for the same text.
pub proof fn law_plain_and_quoted_agree(t: Seq<char>)
    requires
        t.len() > 0,
        t[0] != '"',
        !is_ws(t[0]),
        !is_ws(t[t.len() - 1]),
    ensures
        normalize(t) == normalize(quoted(t)),
        normalize(t) == t,
{
    let e = Seq::<char>::empty();
    law_plain_text(e, t, e);
    law_quoted_text(e, t, e);
    assert(e + t + e =~= t);
    assert(e + quoted(t) + e =~= quoted(t));
}

/// A bare array element: one or more characters, none of them a comma,
/// whitespace or a double quote.
pub open spec fn is_plain_token(t: Seq<char>) -> bool {
    &&& t.len() > 0
    &&& forall|i: int| 0 <= i < t.len() ==> #[trigger] t[i] != ',' && t[i] != '"' && !is_ws(t[i])
}

/// A quoted array element: a double-quoted string with no double quote
/// inside.
pub open spec fn is_quoted_token(t: Seq<char>) -> bool {
    &&& t.len() >= 2
    &&& t[0] == '"'
    &&& t[t.len() - 1] == '"'
    &&& forall|i: int| 0 < i < t.len() - 1 ==> #[trigger] t[i] != '"'
}

pub open spec fn is_token(t: Seq<char>) -> bool {
    is_plain_token(t) || is_quoted_token(t)
}

/// The separator that `join` writes between elements.
pub open spec fn comma_sep() -> Seq<char> {
    seq![',', ' ']
}

/// A separator of array elements: a comma followed by whitespace.
pub open spec fn is_comma_sep(sep: Seq<char>) -> bool {
    sep.len() >= 1 && sep[0] == ',' && all_ws(sep.drop_first())
}

/// `items` written one after the other with `sep` between them.
pub open spec fn join_with(items: Seq<Seq<char>>, sep: Seq<char>) -> Seq<char>
    decreases items.len(),
{
    if items.len() == 0 {
        Seq::empty()
    } else if items.len() == 1 {
        items[0]
    } else {
        items[0] + sep + join_with(items.drop_first(), sep)
    }
}

/// `items` written one after the other with `, ` between them.
pub open spec fn join(items: Seq<Seq<char>>) -> Seq<char> {
    join_with(items, comma_sep())
}

/// `items` written as an array.
pub open spec fn array_text(items: Seq<Seq<char>>) -> Seq<char> {
    array_text_with(items, comma_sep())
}

/// `items` written as an array, with `sep` between them.
pub open spec fn array_text_with(items: Seq<Seq<char>>, sep: Seq<char>) -> Seq<char> {
    seq!['['] + join_with(items, sep) + seq![']']
}

proof fn lemma_find_char_at(c: Seq<char>, ch: char, i: int, k: int)
    requires
        0 <= i <= k < c.len(),
        c[k] == ch,
        forall|m: int| i <= m < k ==> #[trigger] c[m] != ch,
    ensures
        find_char(c, ch, i) == k,
    decreases k - i,
{
    if i < k {
        lemma_find_char_at(c, ch, i + 1, k);
    }
}

proof fn lemma_run_end_to(c: Seq<char>, i: int, k: int)
    requires
        0 <= i <= k <= c.len(),
        forall|m: int| i <= m < k ==> #[trigger] c[m] != ',' && !is_ws(c[m]),
        k == c.len() || c[k] == ',' || is_ws(c[k]),
    ensures
        run_end(c, i) == k,
    decreases k - i,
{
    if i < k {
        lemma_run_end_to(c, i + 1, k);
    }
}

proof fn lemma_elems_ws(c: Seq<char>, p: int)
    requires
        0 <= p <= c.len(),
        forall|j: int| p <= j < c.len() ==> is_ws(#[trigger] c[j]),
    ensures
        elems_from(c, p) == Seq::<Seq<char>>::empty(),
    decreases c.len() - p,
{
    if p < c.len() {
        lemma_skip_ws_to(c, p, c.len() as int);
        lemma_elems_ws(c, p + 1);
    }
}

proof fn lemma_join_first(items: Seq<Seq<char>>, sep: Seq<char>)
    requires
        items.len() > 1,
    ensures
        join_with(items, sep) == items[0] + sep + join_with(items.drop_first(), sep),
{
}

/// The elements found in whitespace followed by the elements `items`,
/// written with `join_with` and a comma separator, are `items`.
proof fn lemma_elems_join(c: Seq<char>, p: int, w: int, items: Seq<Seq<char>>, sep: Seq<char>)
    requires
        0 <= p <= w <= c.len(),
        forall|j: int| p <= j < w ==> is_ws(#[trigger] c[j]),
        c.subrange(w, c.len() as int) == join_with(items, sep),
        is_comma_sep(sep),
        forall|i: int| 0 <= i < items.len() ==> is_token(#[trigger] items[i]),
    ensures
        elems_from(c, p) == items,
    decreases items.len(),
{
    let sub = c.subrange(w, c.len() as int);
    if items.len() == 0 {
        assert(join_with(items, sep) =~= Seq::<char>::empty());
        assert(sub.len() == 0);
        lemma_elems_ws(c, p);
        assert(items =~= Seq::<Seq<char>>::empty());
    } else {
        let t = items[0];
        assert(is_token(t));
        let e = (w + t.len()) as int;
        let n = sep.len() as int;
        let rest = items.drop_first();
        if items.len() > 1 {
            lemma_join_first(items, sep);
            assert(sub == t + sep + join_with(rest, sep));
        } else {
            assert(sub == t);
        }
        assert forall|j: int| 0 <= j < t.len() implies c[w + j] == t[j] by {
            assert(sub[j] == t[j]);
            assert(sub[j] == c[w + j]);
        }
        if items.len() > 1 {
            assert(sub[t.len() as int] == c[e]);
            assert(c[e] == ',');
            assert forall|j: int| e + 1 <= j < e + n implies is_ws(#[trigger] c[j]) by {
                assert(sub[j - w] == c[j]);
                assert(sub[j - w] == sep[j - e]);
                assert(sep.drop_first()[j - e - 1] == sep[j - e]);
            }
            assert(c.subrange(e + n, c.len() as int) =~= join_with(rest, sep)) by {
                assert(c.subrange(e + n, c.len() as int) =~= sub.subrange(
                    (t.len() + n) as int,
                    sub.len() as int,
                ));
            }
        } else {
            assert(e == c.len());
        }
        lemma_token_at(c, w, t);
        lemma_skip_ws_to(c, p, w);
        if items.len() > 1 {
            lemma_skip_ws_to(c, e, e);
            assert(elem_at(c, p) == Some((w, e, e + 1)));
            lemma_elems_join(c, e + 1, e + n, rest, sep);
            assert(elems_from(c, p) == seq![t] + rest);
        } else {
            lemma_skip_ws_to(c, e, e);
            assert(elem_at(c, p) == Some((w, e, e)));
            assert(elems_from(c, e) == Seq::<Seq<char>>::empty());
            assert(elems_from(c, p) == seq![t]);
        }
        assert(items =~= seq![t] + rest);
    }
}

/// An array written from elements, with a comma and any whitespace between
/// them, gives those elements back, in order.
pub proof fn law_array_round_trip_with(items: Seq<Seq<char>>, sep: Seq<char>)
    requires
        forall|i: int| 0 <= i < items.len() ==> is_token(#[trigger] items[i]),
        is_comma_sep(sep),
    ensures
        bracketed(array_text_with(items, sep), '[', ']') == Some(join_with(items, sep)),
        elems(join_with(items, sep)) == items,
{
    let body = join_with(items, sep);
    let c = array_text_with(items, sep);
    lemma_skip_ws_to(c, 0, 0);
    lemma_trim_end_to(c, 0, c.len() as int, c.len() as int);
    assert(trim(c) =~= c);
    assert(c.subrange(1, c.len() - 1) =~= body);
    lemma_skip_ws_to(body, 0, 0);
    assert(body.subrange(0, body.len() as int) =~= body);
    lemma_elems_join(body, 0, 0, items, sep);
}

/// An array written from elements gives those elements back, in order.
pub proof fn law_array_round_trip(items: Seq<Seq<char>>)
    requires
        forall|i: int| 0 <= i < items.len() ==> is_token(#[trigger] items[i]),
    ensures
        bracketed(array_text(items), '[', ']') == Some(join(items)),
        elems(join(items)) == items,
{
    assert(comma_sep().drop_first() =~= seq![' ']);
    assert(is_ws(' '));
    assert(is_comma_sep(comma_sep()));
    law_array_round_trip_with(items, comma_sep());
}

/// A map key that `join_entries` can write: one or more characters, none
/// of them a colon or a double quote, with no whitespace at either end.
pub open spec fn is_plain_key(k: Seq<char>) -> bool {
    &&& k.len() > 0
    &&& !is_ws(k[0])
    &&& !is_ws(k[k.len() - 1])
    &&& forall|i: int| 0 <= i < k.len() ==> #[trigger] k[i] != ':' && k[i] != '"'
}

/// The separator that `join_entries` writes between a key and its value.
pub open spec fn colon_sep() -> Seq<char> {
    seq![':', ' ']
}

/// The entries `pairs` written as `key: value`, with `, ` between them.
pub open spec fn join_entries(pairs: Seq<(Seq<char>, Seq<char>)>) -> Seq<char>
    decreases pairs.len(),
{
    if pairs.len() == 0 {
        Seq::empty()
    } else if pairs.len() == 1 {
        pairs[0].0 + colon_sep() + pairs[0].1
    } else {
        pairs[0].0 + colon_sep() + pairs[0].1 + comma_sep() + join_entries(pairs.drop_first())
    }
}

/// The entries `pairs` written as a map.
pub open spec fn map_text(pairs: Seq<(Seq<char>, Seq<char>)>) -> Seq<char> {
    seq!['{'] + join_entries(pairs) + seq!['}']
}

proof fn lemma_entries_ws(c: Seq<char>, p: int)
    requires
        0 <= p <= c.len(),
        forall|j: int| p <= j < c.len() ==> is_ws(#[trigger] c[j]),
    ensures
        entries_from(c, p) == Seq::<(Seq<char>, Seq<char>)>::empty(),
    decreases c.len() - p,
{
    if p < c.len() {
        lemma_skip_ws_to(c, p, c.len() as int);
        lemma_entries_ws(c, p + 1);
    }
}

/// The end of a token written at `w` in `c`.
proof fn lemma_token_at(c: Seq<char>, w: int, t: Seq<char>)
    requires
        0 <= w,
        w + t.len() <= c.len(),
        is_token(t),
        forall|j: int| 0 <= j < t.len() ==> c[w + j] == #[trigger] t[j],
        w + t.len() == c.len() || c[w + t.len()] == ',',
    ensures
        token_end(c, w) == w + t.len(),
        c.subrange(w, w + t.len()) == t,
        c[w] != ',',
        !is_ws(c[w]),
{
    let e = w + t.len();
    assert(c[w] == t[0]);
    if is_quoted_token(t) {
        assert forall|m: int| w + 1 <= m < e - 1 implies #[trigger] c[m] != '"' by {
            assert(c[m] == t[m - w]);
        }
        assert(c[e - 1] == t[t.len() - 1]);
        lemma_find_char_at(c, '"', w + 1, e - 1);
    } else {
        assert forall|m: int| w <= m < e implies #[trigger] c[m] != ',' && !is_ws(c[m]) by {
            assert(c[m] == t[m - w]);
        }
        lemma_run_end_to(c, w, e);
    }
    assert(c.subrange(w, e) =~= t);
}

proof fn lemma_join_entries_first(pairs: Seq<(Seq<char>, Seq<char>)>)
    requires
        pairs.len() > 1,
    ensures
        join_entries(pairs) == pairs[0].0 + colon_sep() + pairs[0].1 + comma_sep() + join_entries(
            pairs.drop_first(),
        ),
{
}

/// The entries found in whitespace followed by the entries `pairs`, written
/// with `join_entries`, are `pairs`.
proof fn lemma_entries_join(
    c: Seq<char>,
    p: int,
    w: int,
    pairs: Seq<(Seq<char>, Seq<char>)>,
)
    requires
        0 <= p <= w <= c.len(),
        forall|j: int| p <= j < w ==> is_ws(#[trigger] c[j]),
        c.subrange(w, c.len() as int) == join_entries(pairs),
        forall|i: int|
            0 <= i < pairs.len() ==> is_plain_key(#[trigger] pairs[i].0) && is_token(pairs[i].1),
    ensures
        entries_from(c, p) == pairs,
    decreases pairs.len(),
{
    let sub = c.subrange(w, c.len() as int);
    if pairs.len() == 0 {
        assert(join_entries(pairs) =~= Seq::<char>::empty());
        assert(sub.len() == 0);
        lemma_entries_ws(c, p);
        assert(pairs =~= Seq::<(Seq<char>, Seq<char>)>::empty());
    } else {
        let k = pairs[0].0;
        let v = pairs[0].1;
        assert(is_plain_key(k) && is_token(v));
        let e = (w + k.len()) as int;
        let vs = e + 2;
        let ve = (vs + v.len()) as int;
        let rest = pairs.drop_first();
        let head = k + colon_sep() + v;
        if pairs.len() > 1 {
            lemma_join_entries_first(pairs);
            assert(sub == head + comma_sep() + join_entries(rest));
        } else {
            assert(sub == head);
        }
        assert forall|j: int| 0 <= j < head.len() implies c[w + j] == head[j] by {
            assert(sub[j] == head[j]);
            assert(sub[j] == c[w + j]);
        }
        assert forall|j: int| 0 <= j < k.len() implies c[w + j] == #[trigger] k[j] by {
            assert(head[j] == k[j]);
        }
        assert(c[e] == head[k.len() as int]);
        assert(c[e] == ':');
        assert(c[e + 1] == head[(k.len() + 1) as int]);
        assert(c[e + 1] == ' ');
        assert forall|j: int| 0 <= j < v.len() implies c[vs + j] == #[trigger] v[j] by {
            assert(head[k.len() + 2 + j] == v[j]);
            assert(c[vs + j] == head[k.len() + 2 + j]);
        }
        if pairs.len() > 1 {
            assert(sub[head.len() as int] == c[ve]);
            assert(c[ve] == ',');
            assert(sub[(head.len() + 1) as int] == c[ve + 1]);
            assert(c[ve + 1] == ' ');
            assert(c.subrange(ve + 2, c.len() as int) =~= join_entries(rest)) by {
                assert(c.subrange(ve + 2, c.len() as int) =~= sub.subrange(
                    (head.len() + 2) as int,
                    sub.len() as int,
                ));
            }
        } else {
            assert(ve == c.len());
        }
        lemma_token_at(c, vs, v);
        assert(c[w] == k[0]);
        lemma_skip_ws_to(c, p, w);
        assert forall|m: int| w <= m < e implies #[trigger] c[m] != ':' by {
            assert(c[m] == k[m - w]);
        }
        lemma_find_char_at(c, ':', w, e);
        assert(c[w] != '"');
        lemma_skip_ws_to(c, e + 1, vs);
        assert(value_at(c, e + 1) == Some((vs, ve)));
        assert(c.subrange(w, e) =~= k);
        if pairs.len() > 1 {
            assert(entry_at(c, p) == Some((w, e, vs, ve, ve + 1)));
            lemma_entries_join(c, ve + 1, ve + 2, rest);
            assert(entries_from(c, p) == seq![(k, v)] + rest);
        } else {
            assert(entry_at(c, p) == Some((w, e, vs, ve, ve)));
            assert(entries_from(c, ve) == Seq::<(Seq<char>, Seq<char>)>::empty());
            assert(entries_from(c, p) == seq![(k, v)]);
        }
        assert(pairs =~= seq![(k, v)] + rest);
    }
}

/// A map written from entries gives those entries back, in order.
pub proof fn law_map_round_trip(pairs: Seq<(Seq<char>, Seq<char>)>)
    requires
        forall|i: int|
            0 <= i < pairs.len() ==> is_plain_key(#[trigger] pairs[i].0) && is_token(pairs[i].1),
    ensures
        bracketed(map_text(pairs), '{', '}') == Some(join_entries(pairs)),
        entries(join_entries(pairs)) == pairs,
{
    let body = join_entries(pairs);
    let c = map_text(pairs);
    lemma_skip_ws_to(c, 0, 0);
    lemma_trim_end_to(c, 0, c.len() as int, c.len() as int);
    assert(trim(c) =~= c);
    assert(c.subrange(1, c.len() - 1) =~= body);
    assert(body.subrange(0, body.len() as int) =~= body);
    lemma_entries_join(body, 0, 0, pairs);
}

} // verus!
