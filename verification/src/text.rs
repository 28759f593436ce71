//! Characters, whitespace and the small scanning steps that the literal
//! grammar of environment values is built from.
use vstd::prelude::*;

verus! {

/// Unicode `White_Space`: the characters that `str::trim` removes and that
/// `\s` stands for in the literal grammar.
pub open spec fn is_ws(c: char) -> bool {
    ||| ('\u{9}' <= c && c <= '\u{d}')
    ||| c == ' '
    ||| c == '\u{85}'
    ||| c == '\u{a0}'
    ||| c == '\u{1680}'
    ||| ('\u{2000}' <= c && c <= '\u{200a}')
    ||| c == '\u{2028}'
    ||| c == '\u{2029}'
    ||| c == '\u{202f}'
    ||| c == '\u{205f}'
    ||| c == '\u{3000}'
}

pub fn is_ws_exec(c: char) -> (r: bool)
    ensures
        r == is_ws(c),
{
    ('\u{9}' <= c && c <= '\u{d}') || c == ' ' || c == '\u{85}' || c == '\u{a0}' || c == '\u{1680}'
        || ('\u{2000}' <= c && c <= '\u{200a}') || c == '\u{2028}' || c == '\u{2029}' || c
        == '\u{202f}' || c == '\u{205f}' || c == '\u{3000}'
}

/// The first position at or after `i` that does not hold whitespace
/// (the length of `c` where there is none).
pub open spec fn skip_ws(c: Seq<char>, i: int) -> int
    decreases c.len() - i,
{
    if 0 <= i < c.len() && is_ws(c[i]) {
        skip_ws(c, i + 1)
    } else {
        i
    }
}

/// The end of `c[lo..j]` once the whitespace at its end is dropped.
pub open spec fn trim_end(c: Seq<char>, lo: int, j: int) -> int
    decreases j - lo,
{
    if lo < j && is_ws(c[j - 1]) {
        trim_end(c, lo, j - 1)
    } else {
        j
    }
}

/// `c` without its leading and trailing whitespace, as `str::trim` gives it.
pub open spec fn trim(c: Seq<char>) -> Seq<char> {
    let a = skip_ws(c, 0);
    c.subrange(a, trim_end(c, a, c.len() as int))
}

/// The first position at or after `i` that holds `ch` (the length of `c`
/// where there is none).
pub open spec fn find_char(c: Seq<char>, ch: char, i: int) -> int
    decreases c.len() - i,
{
    if i < 0 || i >= c.len() {
        c.len() as int
    } else if c[i] == ch {
        i
    } else {
        find_char(c, ch, i + 1)
    }
}

/// The end of the run of characters from `i` that are neither a comma nor
/// whitespace.
pub open spec fn run_end(c: Seq<char>, i: int) -> int
    decreases c.len() - i,
{
    if 0 <= i < c.len() && c[i] != ',' && !is_ws(c[i]) {
        run_end(c, i + 1)
    } else {
        i
    }
}

pub proof fn lemma_skip_ws(c: Seq<char>, i: int)
    requires
        0 <= i <= c.len(),
    ensures
        i <= skip_ws(c, i) <= c.len(),
        forall|k: int| i <= k < skip_ws(c, i) ==> is_ws(#[trigger] c[k]),
        skip_ws(c, i) < c.len() ==> !is_ws(c[skip_ws(c, i)]),
    decreases c.len() - i,
{
    if i < c.len() && is_ws(c[i]) {
        lemma_skip_ws(c, i + 1);
    }
}

pub proof fn lemma_trim_end(c: Seq<char>, lo: int, j: int)
    requires
        0 <= lo <= j <= c.len(),
    ensures
        lo <= trim_end(c, lo, j) <= j,
        forall|k: int| trim_end(c, lo, j) <= k < j ==> is_ws(#[trigger] c[k]),
        trim_end(c, lo, j) > lo ==> !is_ws(c[trim_end(c, lo, j) - 1]),
    decreases j - lo,
{
    if lo < j && is_ws(c[j - 1]) {
        lemma_trim_end(c, lo, j - 1);
    }
}

pub proof fn lemma_find_char(c: Seq<char>, ch: char, i: int)
    requires
        0 <= i <= c.len(),
    ensures
        i <= find_char(c, ch, i) <= c.len(),
        forall|k: int| i <= k < find_char(c, ch, i) ==> #[trigger] c[k] != ch,
        find_char(c, ch, i) < c.len() ==> c[find_char(c, ch, i)] == ch,
    decreases c.len() - i,
{
    if i < c.len() && c[i] != ch {
        lemma_find_char(c, ch, i + 1);
    }
}

pub proof fn lemma_run_end(c: Seq<char>, i: int)
    requires
        0 <= i <= c.len(),
    ensures
        i <= run_end(c, i) <= c.len(),
        forall|k: int| i <= k < run_end(c, i) ==> #[trigger] c[k] != ',' && !is_ws(c[k]),
        run_end(c, i) < c.len() ==> (c[run_end(c, i)] == ',' || is_ws(c[run_end(c, i)])),
    decreases c.len() - i,
{
    if i < c.len() && c[i] != ',' && !is_ws(c[i]) {
        lemma_run_end(c, i + 1);
    }
}

pub fn skip_ws_exec(c: &Vec<char>, i: usize) -> (r: usize)
    requires
        i <= c.len(),
    ensures
        r == skip_ws(c@, i as int),
        i <= r <= c.len(),
{
    let mut j = i;
    while j < c.len() && is_ws_exec(c[j])
        invariant
            i <= j <= c.len(),
            skip_ws(c@, j as int) == skip_ws(c@, i as int),
        decreases c.len() - j,
    {
        j += 1;
    }
    j
}

pub fn trim_end_exec(c: &Vec<char>, lo: usize, j: usize) -> (r: usize)
    requires
        lo <= j <= c.len(),
    ensures
        r == trim_end(c@, lo as int, j as int),
        lo <= r <= j,
{
    let mut k = j;
    while lo < k && is_ws_exec(c[k - 1])
        invariant
            lo <= k <= j <= c.len(),
            trim_end(c@, lo as int, k as int) == trim_end(c@, lo as int, j as int),
        decreases k,
    {
        k -= 1;
    }
    k
}

pub fn find_char_exec(c: &Vec<char>, ch: char, i: usize) -> (r: usize)
    requires
        i <= c.len(),
    ensures
        r == find_char(c@, ch, i as int),
        i <= r <= c.len(),
{
    let mut k = i;
    while k < c.len() && c[k] != ch
        invariant
            i <= k <= c.len(),
            find_char(c@, ch, k as int) == find_char(c@, ch, i as int),
        decreases c.len() - k,
    {
        k += 1;
    }
    k
}

pub fn run_end_exec(c: &Vec<char>, i: usize) -> (r: usize)
    requires
        i <= c.len(),
    ensures
        r == run_end(c@, i as int),
        i <= r <= c.len(),
{
    let mut k = i;
    while k < c.len() && c[k] != ',' && !is_ws_exec(c[k])
        invariant
            i <= k <= c.len(),
            run_end(c@, k as int) == run_end(c@, i as int),
        decreases c.len() - k,
    {
        k += 1;
    }
    k
}

/// Appends `c` to `s` (`String::push`).
#[verifier::external_body]
pub(crate) fn push_char(s: &mut String, c: char)
    ensures
        final(s)@ == old(s)@.push(c),
{
    s.push(c);
}

/// The characters of `s`, in order.
pub fn chars_of(s: &str) -> (r: Vec<char>)
    ensures
        r@ == s@,
{
    let mut r: Vec<char> = Vec::new();
    for c in it: s.chars()
        invariant
            it.seq() == s@,
            r.len() == it.index(),
            r@ == it.seq().take(it.index() as int),
    {
        r.push(c);
    }
    assert(r@ =~= s@);
    r
}

/// The text of `c[a..b]`.
pub fn string_of(c: &Vec<char>, a: usize, b: usize) -> (r: String)
    requires
        a <= b <= c.len(),
    ensures
        r@ == c@.subrange(a as int, b as int),
{
    let mut r = String::new();
    let mut k = a;
    while k < b
        invariant
            a <= k <= b <= c.len(),
            r@ == c@.subrange(a as int, k as int),
        decreases b - k,
    {
        push_char(&mut r, c[k]);
        assert(c@.subrange(a as int, k + 1) =~= c@.subrange(a as int, k as int).push(c@[k as int]));
        k += 1;
    }
    r
}

/// Whether `a` and `b` hold the same characters.
pub(crate) fn same_chars(a: &Vec<char>, b: &Vec<char>) -> (r: bool)
    ensures
        r == (a@ == b@),
{
    if a.len() != b.len() {
        return false;
    }
    let mut i: usize = 0;
    while i < a.len()
        invariant
            i <= a.len() == b.len(),
            forall|k: int| 0 <= k < i ==> a@[k] == b@[k],
        decreases a.len() - i,
    {
        if a[i] != b[i] {
            return false;
        }
        i = i + 1;
    }
    assert(a@ =~= b@);
    true
}

/// Whether `a` and `b` are the same text.
pub(crate) fn text_eq(a: &str, b: &str) -> (r: bool)
    ensures
        r == (a@ == b@),
{
    let x = chars_of(a);
    let y = chars_of(b);
    same_chars(&x, &y)
}

} // verus!
