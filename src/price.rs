//! Prices as fixed-point hundredths: reading them from decimal text and
//! writing them back with two decimals.
use vstd::prelude::*;

use crate::text::{decimal, digit_char, push_char, write_decimal};

verus! {

/// The largest price the library holds, in hundredths.
pub const PRICE_LIMIT: u64 = 1_000_000_000_000_000;

/// The largest whole part of a price.
pub const WHOLE_LIMIT: u64 = 10_000_000_000_000;

pub open spec fn is_digit(c: char) -> bool {
    '0' <= c && c <= '9'
}

pub open spec fn digit_value(c: char) -> nat {
    (c as int - 48) as nat
}

pub open spec fn all_digits(s: Seq<char>) -> bool {
    forall|i: int| 0 <= i < s.len() ==> is_digit(#[trigger] s[i])
}

/// The number that a run of decimal digits denotes.
pub open spec fn digits_value(s: Seq<char>) -> nat
    decreases s.len(),
{
    if s.len() == 0 {
        0
    } else {
        digits_value(s.drop_last()) * 10 + digit_value(s.last())
    }
}

/// The hundredths that the digits after the point carry: the first two
/// digits, the rest cut off.
pub open spec fn cents_of(f: Seq<char>) -> nat {
    if f.len() == 0 {
        0
    } else if f.len() == 1 {
        digit_value(f[0]) * 10
    } else {
        digit_value(f[0]) * 10 + digit_value(f[1])
    }
}

/// `s` has its decimal point at `k`, with digits on both sides of it.
pub open spec fn point_at(s: Seq<char>, k: int) -> bool {
    0 < k < s.len() - 1 && s[k] == '.' && all_digits(s.take(k)) && all_digits(s.skip(k + 1))
}

/// The value in hundredths of a plain decimal number (`12`, `12.5`,
/// `12.345`), digits past the second decimal cut off; `None` for any other
/// text (a sign, an exponent, a bare point).
pub open spec fn decimal_hundredths(s: Seq<char>) -> Option<nat> {
    if s.len() > 0 && all_digits(s) {
        Some(digits_value(s) * 100)
    } else if exists|k: int| point_at(s, k) {
        let k = choose|k: int| point_at(s, k);
        Some(digits_value(s.take(k)) * 100 + cents_of(s.skip(k + 1)))
    } else {
        None
    }
}

/// The price that the text denotes, when it is a plain decimal number of at
/// most `PRICE_LIMIT` hundredths.
pub open spec fn price_of(s: Seq<char>) -> Option<u64> {
    match decimal_hundredths(s) {
        Some(v) => if v <= PRICE_LIMIT {
            Some(v as u64)
        } else {
            None
        },
        None => None,
    }
}

/// A price written with two decimals, as `1234.50`.
pub open spec fn price_text(p: nat) -> Seq<char> {
    decimal(p / 100).push('.').push(digit_char((p / 10) % 10)).push(digit_char(p % 10))
}

proof fn lemma_digits_value_prefix(s: Seq<char>, j: int)
    requires
        0 <= j <= s.len(),
    ensures
        digits_value(s.take(j)) <= digits_value(s),
    decreases s.len(),
{
    if j < s.len() {
        lemma_digits_value_prefix(s.drop_last(), j);
        assert(s.drop_last().take(j) =~= s.take(j));
    } else {
        assert(s.take(j) =~= s);
    }
}

proof fn lemma_point_unique(s: Seq<char>, j: int, k: int)
    requires
        0 <= j < s.len(),
        all_digits(s.take(j)),
        !is_digit(s[j]),
        point_at(s, k),
    ensures
        k == j,
{
    if k < j {
        assert(s.take(j)[k] == s[k]);
    } else if k > j {
        assert(s.take(k)[j] == s[j]);
    }
}

/// The first position at or after `from` that does not hold a digit.
fn digit_run_end(s: &str, from: usize) -> (j: usize)
    requires
        from <= s@.len(),
    ensures
        from <= j <= s@.len(),
        all_digits(s@.subrange(from as int, j as int)),
        j < s@.len() ==> !is_digit(s@[j as int]),
{
    let n = s.unicode_len();
    let mut j = from;
    while j < n
        invariant
            from <= j <= n,
            n == s@.len(),
            all_digits(s@.subrange(from as int, j as int)),
        decreases n - j,
    {
        let c = s.get_char(j);
        if !('0' <= c && c <= '9') {
            return j;
        }
        assert(s@.subrange(from as int, j + 1) =~= s@.subrange(from as int, j as int).push(c));
        j = j + 1;
    }
    j
}

/// The number that the digits of `s` from `from` to `to` denote, when it is
/// at most `cap`.
fn digits_at_most(s: &str, from: usize, to: usize, cap: u64) -> (r: Option<u64>)
    requires
        from <= to <= s@.len(),
        cap <= WHOLE_LIMIT,
        all_digits(s@.subrange(from as int, to as int)),
    ensures
        r == (if digits_value(s@.subrange(from as int, to as int)) <= cap {
            Some(digits_value(s@.subrange(from as int, to as int)) as u64)
        } else {
            None
        }),
{
    let ghost run = s@.subrange(from as int, to as int);
    let mut i = from;
    let mut v: u64 = 0;
    while i < to
        invariant
            from <= i <= to <= s@.len(),
            cap <= WHOLE_LIMIT,
            run == s@.subrange(from as int, to as int),
            all_digits(run),
            v == digits_value(s@.subrange(from as int, i as int)),
            v <= cap,
        decreases to - i,
    {
        let c = s.get_char(i);
        assert(run[i - from] == c);
        let d: u64 = (c as u32 - 48) as u64;
        let ghost pre = s@.subrange(from as int, i + 1);
        assert(pre.drop_last() =~= s@.subrange(from as int, i as int));
        assert(v * 10 + d <= 10 * WHOLE_LIMIT + 9) by (nonlinear_arith)
            requires
                v <= WHOLE_LIMIT,
                d <= 9,
        {
        }
        let next = v * 10 + d;
        if next > cap {
            proof {
                assert(pre =~= run.take(i + 1 - from));
                lemma_digits_value_prefix(run, i + 1 - from);
            }
            return None;
        }
        v = next;
        i = i + 1;
    }
    Some(v)
}

/// The value of a decimal digit character.
fn digit_of(c: char) -> (d: u64)
    requires
        is_digit(c),
    ensures
        d == digit_value(c),
        d <= 9,
{
    (c as u32 - 48) as u64
}

/// Reads a price, in hundredths, from a plain decimal number such as
/// `2043.17`; digits past the second decimal are cut off. Any other text,
/// or a price above `PRICE_LIMIT`, gives `None`.
pub fn parse_price(text: &str) -> (r: Option<u64>)
    ensures
        r == price_of(text@),
{
    let ghost s = text@;
    let n = text.unicode_len();
    let j = digit_run_end(text, 0);
    assert(s.subrange(0, j as int) =~= s.take(j as int));
    if j == n {
        assert(s.take(j as int) =~= s);
        if n == 0 {
            assert(!point_at(s, 0));
            return None;
        }
        let whole = digits_at_most(text, 0, n, WHOLE_LIMIT);
        match whole {
            Some(w) => {
                return Some(w * 100);
            },
            None => {
                return None;
            },
        }
    }
    proof {
        assert(!all_digits(s)) by {
            assert(!is_digit(s[j as int]));
        }
        assert forall|k: int| point_at(s, k) implies k == j by {
            lemma_point_unique(s, j as int, k);
        }
    }
    if j == 0 || text.get_char(j) != '.' || j + 1 >= n {
        return None;
    }
    let f = digit_run_end(text, j + 1);
    if f != n {
        assert(!all_digits(s.skip(j + 1))) by {
            assert(s.skip(j + 1)[f - j - 1] == s[f as int]);
        }
        return None;
    }
    assert(s.subrange(j + 1, n as int) =~= s.skip(j + 1));
    assert(point_at(s, j as int));
    let ghost frac = s.skip(j + 1);
    let mut cents: u64 = digit_of(text.get_char(j + 1)) * 10;
    assert(frac[0] == s[j + 1]);
    if j + 2 < n {
        assert(frac[1] == s[j + 2]);
        cents = cents + digit_of(text.get_char(j + 2));
    }
    assert(cents == cents_of(frac));
    match digits_at_most(text, 0, j, WHOLE_LIMIT) {
        Some(w) => {
            let v = w * 100 + cents;
            if v > PRICE_LIMIT {
                None
            } else {
                Some(v)
            }
        },
        None => None,
    }
}

/// Appends a price written with two decimals.
pub fn write_price(out: &mut String, p: u64)
    ensures
        final(out)@ == old(out)@ + price_text(p as nat),
{
    write_decimal(out, p / 100);
    push_char(out, '.');
    push_char(out, (48u8 + ((p / 10) % 10) as u8) as char);
    push_char(out, (48u8 + (p % 10) as u8) as char);
    assert(out@ =~= old(out)@ + price_text(p as nat));
}

/// A price written with two decimals.
pub fn price_string(p: u64) -> (r: String)
    ensures
        r@ == price_text(p as nat),
{
    let mut s = String::new();
    write_price(&mut s, p);
    assert(s@ =~= price_text(p as nat));
    s
}

} // verus!
