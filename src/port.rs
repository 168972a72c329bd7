//! Reading port text as a decimal `i32`, and the lenient recovery rule for
//! port text that carries one stray trailing character.
use vstd::prelude::*;
use vstd::string::*;

verus! {

pub open spec fn is_digit(c: char) -> bool {
    '0' <= c && c <= '9'
}

pub open spec fn all_digits(t: Seq<char>) -> bool {
    forall|i: int| 0 <= i < t.len() ==> is_digit(#[trigger] t[i])
}

/// The value of a string of decimal digits.
pub open spec fn digits_value(t: Seq<char>) -> int
    decreases t.len(),
{
    if t.len() == 0 {
        0
    } else {
        10 * digits_value(t.drop_last()) + (t.last() as int - '0' as int)
    }
}

/// The text without its sign, where it has one.
pub open spec fn unsigned_part(t: Seq<char>) -> Seq<char> {
    if t.len() > 0 && (t[0] == '+' || t[0] == '-') {
        t.skip(1)
    } else {
        t
    }
}

/// The value of `t` read as a decimal `i32`: an optional `+` or `-`, then one
/// or more digits, with the value in range.
pub open spec fn i32_value(t: Seq<char>) -> Option<int> {
    let d = unsigned_part(t);
    let v = if t.len() > 0 && t[0] == '-' {
        -digits_value(d)
    } else {
        digits_value(d)
    };
    if d.len() > 0 && all_digits(d) && i32::MIN <= v <= i32::MAX {
        Some(v)
    } else {
        None
    }
}

/// Port text names `443`: read as an integer it is `443`, or, where it cannot
/// be read at all, it is `443` once one trailing character is dropped.
pub open spec fn port_text_is_https(t: Seq<char>) -> bool {
    match i32_value(t) {
        Some(v) => v == 443,
        None => t.len() > 0 && i32_value(t.drop_last()) == Some(443int),
    }
}

proof fn lemma_digits_value_nonneg(t: Seq<char>)
    requires
        all_digits(t),
    ensures
        digits_value(t) >= 0,
    decreases t.len(),
{
    if t.len() > 0 {
        assert(all_digits(t.drop_last()));
        lemma_digits_value_nonneg(t.drop_last());
        assert(is_digit(t[t.len() - 1]));
    }
}

/// A string of digits is worth at least any of its prefixes.
proof fn lemma_digits_value_prefix(t: Seq<char>, k: int)
    requires
        all_digits(t),
        0 <= k <= t.len(),
    ensures
        digits_value(t.take(k)) <= digits_value(t),
    decreases t.len(),
{
    if k < t.len() {
        assert(all_digits(t.drop_last()));
        lemma_digits_value_prefix(t.drop_last(), k);
        assert(t.drop_last().take(k) == t.take(k));
        lemma_digits_value_nonneg(t.drop_last());
        assert(is_digit(t[t.len() - 1]));
    } else {
        assert(t.take(k) == t);
    }
}

/// Reads `t` as a decimal `i32`, as `str::parse::<i32>` does.
pub fn parse_i32(t: &str) -> (r: Option<i32>)
    ensures
        match r {
            Some(v) => i32_value(t@) == Some(v as int),
            None => i32_value(t@) is None,
        },
{
    let n = t.unicode_len();
    if n == 0 {
        return None;
    }
    let first = t.get_char(0);
    let negative = first == '-';
    let start: usize = if first == '+' || first == '-' { 1 } else { 0 };
    if start == n {
        return None;
    }
    let ghost d = unsigned_part(t@);
    assert(d == t@.skip(start as int));
    // the magnitude of the smallest i32
    let bound: i64 = 2147483648;
    let mut acc: i64 = 0;
    let mut i: usize = start;
    while i < n
        invariant
            start <= i <= n,
            n == t@.len(),
            start < n,
            d == t@.skip(start as int),
            d == unsigned_part(t@),
            all_digits(d.take(i - start)),
            acc == digits_value(d.take(i - start)),
            bound == 2147483648,
            0 <= acc <= bound,
        decreases n - i,
    {
        let c = t.get_char(i);
        if !('0' <= c && c <= '9') {
            assert(d[i - start] == c);
            assert(!is_digit(d[i - start]));
            return None;
        }
        let ghost prev = d.take(i - start);
        let ghost next = d.take(i - start + 1);
        assert(next.drop_last() == prev);
        assert(next.last() == c);
        let digit: i64 = (c as u32 - '0' as u32) as i64;
        assert(0 <= digit <= 9);
        assert(acc * 10 <= 10 * bound) by (nonlinear_arith)
            requires
                bound == 2147483648,
            0 <= acc <= bound,
        ;
        let value: i64 = acc * 10 + digit;
        assert(value == digits_value(next));
        assert(all_digits(next)) by {
            assert forall|j: int| 0 <= j < next.len() implies is_digit(#[trigger] next[j]) by {
                if j < next.len() - 1 {
                    assert(next[j] == prev[j]);
                }
            }
        }
        if value > bound {
            proof {
                if all_digits(d) {
                    lemma_digits_value_prefix(d, i - start + 1);
                }
            }
            return None;
        }
        acc = value;
        i = i + 1;
    }
    assert(d.take(i - start) == d);
    if negative {
        Some((0 - acc) as i32)
    } else if acc <= 2147483647 {
        Some(acc as i32)
    } else {
        None
    }
}

} // verus!
