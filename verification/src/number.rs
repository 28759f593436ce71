//! Reading booleans and integers from text, as `str::parse` does for the
//! primitive types.
use vstd::prelude::*;

verus! {

pub open spec fn is_digit(ch: char) -> bool {
    '0' <= ch && ch <= '9'
}

pub open spec fn all_digits(d: Seq<char>) -> bool {
    forall|i: int| 0 <= i < d.len() ==> is_digit(#[trigger] d[i])
}

/// The value of a run of decimal digits.
pub open spec fn digits_value(d: Seq<char>) -> int
    decreases d.len(),
{
    if d.len() == 0 {
        0
    } else {
        digits_value(d.drop_last()) * 10 + (d.last() as int - '0' as int)
    }
}

/// The integer written by `s`: an optional `+` (or, where `signed`, `-`)
/// followed by one or more ASCII digits and nothing else.
pub open spec fn int_text(s: Seq<char>, signed: bool) -> Option<int> {
    if s.len() > 0 && (s[0] == '+' || (signed && s[0] == '-')) {
        let d = s.drop_first();
        if d.len() > 0 && all_digits(d) {
            Some(
                if s[0] == '-' {
                    -digits_value(d)
                } else {
                    digits_value(d)
                },
            )
        } else {
            None
        }
    } else if s.len() > 0 && all_digits(s) {
        Some(digits_value(s))
    } else {
        None
    }
}

/// What `str::parse` gives for an integer type whose values are `lo..=hi`
/// (signed where `lo` is negative): the integer written by `s` where it is
/// in range, and `None` otherwise.
pub open spec fn parse_int(s: Seq<char>, lo: int, hi: int) -> Option<int> {
    match int_text(s, lo < 0) {
        Some(v) => if lo <= v <= hi {
            Some(v)
        } else {
            None
        },
        None => None,
    }
}

/// What `str::parse::<bool>` gives: exactly `true` or `false`.
pub open spec fn parse_bool(s: Seq<char>) -> Option<bool> {
    if s == seq!['t', 'r', 'u', 'e'] {
        Some(true)
    } else if s == seq!['f', 'a', 'l', 's', 'e'] {
        Some(false)
    } else {
        None
    }
}

pub proof fn lemma_digits_value_nonneg(d: Seq<char>)
    requires
        all_digits(d),
    ensures
        digits_value(d) >= 0,
    decreases d.len(),
{
    if d.len() > 0 {
        assert(is_digit(d[d.len() - 1]));
        lemma_digits_value_nonneg(d.drop_last());
    }
}

/// A run of digits is worth at least any of its prefixes.
pub proof fn lemma_digits_value_prefix(d: Seq<char>, k: int)
    requires
        all_digits(d),
        0 <= k <= d.len(),
    ensures
        digits_value(d.take(k)) <= digits_value(d),
    decreases d.len(),
{
    if k < d.len() {
        assert(is_digit(d[d.len() - 1]));
        lemma_digits_value_prefix(d.drop_last(), k);
        assert(d.drop_last().take(k) =~= d.take(k));
        lemma_digits_value_nonneg(d.drop_last());
    } else {
        assert(d.take(k) =~= d);
    }
}

/// The digits `c[start..]` read as a number no greater than `limit`, or
/// `None` where they are not all digits, are none, or exceed `limit`.
fn digits_exec(c: &Vec<char>, start: usize, limit: u128) -> (r: Option<u128>)
    requires
        start <= c.len(),
    ensures
        ({
            let d = c@.subrange(start as int, c.len() as int);
            match r {
                Some(m) => d.len() > 0 && all_digits(d) && m == digits_value(d) && m <= limit,
                None => !(d.len() > 0 && all_digits(d) && digits_value(d) <= limit),
            }
        }),
{
    let ghost d = c@.subrange(start as int, c.len() as int);
    if start >= c.len() {
        return None;
    }
    let mut m: u128 = 0;
    let mut i = start;
    while i < c.len()
        invariant
            start <= i <= c.len(),
            d == c@.subrange(start as int, c.len() as int),
            all_digits(c@.subrange(start as int, i as int)),
            m == digits_value(c@.subrange(start as int, i as int)),
            m <= limit,
        decreases c.len() - i,
    {
        let ch = c[i];
        if !('0' <= ch && ch <= '9') {
            assert(d[i - start] == ch);
            return None;
        }
        let dv = (ch as u32 - '0' as u32) as u128;
        let ghost next = c@.subrange(start as int, i + 1);
        assert(next.drop_last() =~= c@.subrange(start as int, i as int));
        assert(digits_value(next) == m * 10 + dv);
        assert(all_digits(next));
        if dv > limit || m > (limit - dv) / 10 {
            assert(m * 10 + dv > limit) by (nonlinear_arith)
                requires
                    dv > limit || m > (limit - dv) / 10,
                    dv <= 9,
            ;
            proof {
                if all_digits(d) {
                    assert(d.take(i + 1 - start) =~= next);
                    lemma_digits_value_prefix(d, i + 1 - start);
                }
            }
            return None;
        }
        assert(m * 10 + dv <= limit) by (nonlinear_arith)
            requires
                dv <= limit,
                m <= (limit - dv) / 10,
        ;
        m = m * 10 + dv;
        i = i + 1;
    }
    assert(c@.subrange(start as int, i as int) =~= d);
    Some(m)
}

/// Reads an integer as `parse_int(c, lo, hi)` with `lo == -neg_limit` and
/// `hi == pos_limit`, giving its sign and magnitude.
pub fn parse_int_exec(c: &Vec<char>, neg_limit: u128, pos_limit: u128) -> (r: Option<(bool, u128)>)
    ensures
        match r {
            Some((neg, m)) => parse_int(c@, -neg_limit, pos_limit as int) == Some(
                if neg {
                    -m
                } else {
                    m as int
                },
            ) && (neg ==> m <= neg_limit) && (!neg ==> m <= pos_limit),
            None => parse_int(c@, -neg_limit, pos_limit as int) is None,
        },
{
    let signed = neg_limit > 0;
    if c.len() > 0 && (c[0] == '+' || (signed && c[0] == '-')) {
        let neg = c[0] == '-';
        let limit = if neg {
            neg_limit
        } else {
            pos_limit
        };
        let r = digits_exec(c, 1, limit);
        assert(c@.subrange(1, c.len() as int) =~= c@.drop_first());
        match r {
            Some(m) => Some((neg, m)),
            None => None,
        }
    } else {
        let r = digits_exec(c, 0, pos_limit);
        assert(c@.subrange(0, c.len() as int) =~= c@);
        proof {
            if c.len() > 0 && all_digits(c@) {
                lemma_digits_value_nonneg(c@);
            }
        }
        match r {
            Some(m) => Some((false, m)),
            None => None,
        }
    }
}

pub fn parse_bool_exec(c: &Vec<char>) -> (r: Option<bool>)
    ensures
        r == parse_bool(c@),
{
    if c.len() == 4 && c[0] == 't' && c[1] == 'r' && c[2] == 'u' && c[3] == 'e' {
        assert(c@ =~= seq!['t', 'r', 'u', 'e']);
        Some(true)
    } else if c.len() == 5 && c[0] == 'f' && c[1] == 'a' && c[2] == 'l' && c[3] == 's' && c[4]
        == 'e' {
        assert(c@ =~= seq!['f', 'a', 'l', 's', 'e']);
        Some(false)
    } else {
        None
    }
}

/// The decimal digits of `n`.
pub open spec fn decimal(n: nat) -> Seq<char>
    decreases n,
{
    if n < 10 {
        seq![digit_char(n)]
    } else {
        decimal(n / 10) + seq![digit_char(n % 10)]
    }
}

/// The decimal digit for `d` (below ten).
pub open spec fn digit_char(d: nat) -> char {
    if d == 0 {
        '0'
    } else if d == 1 {
        '1'
    } else if d == 2 {
        '2'
    } else if d == 3 {
        '3'
    } else if d == 4 {
        '4'
    } else if d == 5 {
        '5'
    } else if d == 6 {
        '6'
    } else if d == 7 {
        '7'
    } else if d == 8 {
        '8'
    } else {
        '9'
    }
}

/// The decimal text of `n`, with a `-` before it where `n` is negative.
pub open spec fn int_decimal(n: int) -> Seq<char> {
    if n >= 0 {
        decimal(n as nat)
    } else {
        seq!['-'] + decimal((-n) as nat)
    }
}

proof fn lemma_decimal(n: nat)
    ensures
        decimal(n).len() > 0,
        all_digits(decimal(n)),
        digits_value(decimal(n)) == n,
    decreases n,
{
    let d = (n % 10) as nat;
    assert(digit_char(d) as int - '0' as int == d && is_digit(digit_char(d))) by {
        assert(d < 10);
    }
    if n >= 10 {
        lemma_decimal(n / 10);
        let s = decimal(n);
        assert(s.drop_last() =~= decimal(n / 10));
        assert(s.last() == digit_char(d));
        assert(digits_value(s) == digits_value(s.drop_last()) * 10 + (s.last() as int - '0' as int));
        assert(digits_value(s) == (n / 10) as int * 10 + d);
        assert(n == (n / 10) * 10 + d) by (nonlinear_arith)
            requires
                d == n % 10,
        ;
        assert(all_digits(s)) by {
            assert forall|i: int| 0 <= i < s.len() implies is_digit(#[trigger] s[i]) by {
                if i < s.len() - 1 {
                    assert(s[i] == decimal(n / 10)[i]);
                }
            }
        }
    } else {
        let s = decimal(n);
        assert(s.drop_last() =~= Seq::<char>::empty());
        assert(d == n);
        assert(digits_value(s) == digits_value(s.drop_last()) * 10 + (s.last() as int - '0' as int));
    }
}

/// The decimal text of an integer within the range of an integer type
/// reads back as that integer.
pub proof fn law_integer_round_trip(n: int, lo: int, hi: int)
    requires
        lo <= n <= hi,
        lo <= 0,
    ensures
        parse_int(int_decimal(n), lo, hi) == Some(n),
{
    if n >= 0 {
        lemma_decimal(n as nat);
        let s = decimal(n as nat);
        assert(is_digit(s[0]));
    } else {
        lemma_decimal((-n) as nat);
        let s = int_decimal(n);
        assert(s.drop_first() =~= decimal((-n) as nat));
    }
}

} // verus!
