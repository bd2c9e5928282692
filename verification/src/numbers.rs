//! Decimal numbers in text: the timeout fields that the zone dialogs read, and
//! the item counts that the zone details show.
use vstd::prelude::*;
use crate::text::{chars_of, push_char};

verus! {

/// Whether `c` is an ASCII decimal digit.
pub open spec fn is_digit(c: char) -> bool {
    '0' <= c <= '9'
}

/// Whether every character of `d` is an ASCII decimal digit.
pub open spec fn all_digits(d: Seq<char>) -> bool {
    forall|i: int| 0 <= i < d.len() ==> is_digit(#[trigger] d[i])
}

/// The value of a decimal digit.
pub open spec fn digit_value(c: char) -> int {
    c as int - '0' as int
}

/// The value of a run of decimal digits, most significant first.
pub open spec fn digits_value(d: Seq<char>) -> int
    decreases d.len(),
{
    if d.len() == 0 {
        0
    } else {
        digits_value(d.drop_last()) * 10 + digit_value(d.last())
    }
}

/// What `str::parse::<i32>` accepts and gives: an optional `+` or `-`, then
/// one or more ASCII digits, whose value must lie in the range of `i32`.
pub open spec fn parse_i32(s: Seq<char>) -> Option<i32> {
    let neg = s.len() > 0 && s[0] == '-';
    let signed = s.len() > 0 && (s[0] == '-' || s[0] == '+');
    let d = if signed { s.drop_first() } else { s };
    if d.len() == 0 || !all_digits(d) {
        None
    } else {
        let v = if neg { -digits_value(d) } else { digits_value(d) };
        if i32::MIN <= v <= i32::MAX {
            Some(v as i32)
        } else {
            None
        }
    }
}

/// The timeout that a dialog's timeout field gives: its number, or 0 where the
/// text is not one.
pub open spec fn timeout_of(s: Seq<char>) -> i32 {
    match parse_i32(s) {
        Some(v) => v,
        None => 0,
    }
}

/// The character of a digit value below ten.
pub open spec fn digit_char(n: nat) -> char {
    ((n + '0' as nat) as u32) as char
}

/// `n` written in decimal, without leading zeros.
pub open spec fn decimal(n: nat) -> Seq<char>
    decreases n,
{
    if n < 10 {
        seq![digit_char(n)]
    } else {
        decimal(n / 10).push(digit_char(n % 10))
    }
}

proof fn lemma_digits_value_nonneg(d: Seq<char>)
    requires
        forall|i: int| 0 <= i < d.len() ==> is_digit(#[trigger] d[i]),
    ensures
        digits_value(d) >= 0,
    decreases d.len(),
{
    if d.len() > 0 {
        let p = d.drop_last();
        assert forall|i: int| 0 <= i < p.len() implies is_digit(#[trigger] p[i]) by {
            assert(p[i] == d[i]);
        }
        lemma_digits_value_nonneg(p);
        assert(is_digit(d[d.len() - 1]));
    }
}

/// Parses decimal text as `str::parse::<i32>` does.
pub fn parse_i32_text(text: &str) -> (r: Option<i32>)
    ensures
        r == parse_i32(text@),
{
    let cs = chars_of(text);
    let n = cs.len();
    if n == 0 {
        return None;
    }
    let neg = cs[0] == '-';
    let signed = cs[0] == '-' || cs[0] == '+';
    let start: usize = if signed { 1 } else { 0 };
    let ghost d = if signed { cs@.drop_first() } else { cs@ };
    assert(d == cs@.subrange(start as int, n as int));
    if start == n {
        assert(d.len() == 0);
        assert(signed ==> cs@.drop_first().len() == 0);
        return None;
    }
    // Values above this bound are out of range whatever their sign.
    let cap: i64 = 2147483648;
    let mut acc: i64 = 0;
    let mut big = false;
    let mut i = start;
    assert(cs@.subrange(start as int, start as int) == Seq::<char>::empty());
    while i < n
        invariant
            start <= i <= n == cs@.len(),
            text@ == cs@,
            n > 0,
            neg == (cs@[0] == '-'),
            signed == (cs@[0] == '-' || cs@[0] == '+'),
            d == (if signed { cs@.drop_first() } else { cs@ }),
            d == cs@.subrange(start as int, n as int),
            cap == 2147483648,
            forall|k: int| start <= k < i ==> is_digit(#[trigger] cs@[k]),
            !big ==> acc == digits_value(cs@.subrange(start as int, i as int)),
            !big ==> 0 <= acc <= cap,
            big ==> digits_value(cs@.subrange(start as int, i as int)) > cap,
        decreases n - i,
    {
        let c = cs[i];
        if !('0' <= c && c <= '9') {
            assert(!is_digit(d[i - start]));
            assert(!all_digits(d));
            return None;
        }
        let ghost prev = cs@.subrange(start as int, i as int);
        assert(cs@.subrange(start as int, i + 1) == prev.push(c));
        assert(cs@.subrange(start as int, i + 1).drop_last() == prev);
        proof {
            assert forall|k: int| 0 <= k < prev.len() implies is_digit(#[trigger] prev[k]) by {
                assert(prev[k] == cs@[start + k]);
            }
            lemma_digits_value_nonneg(prev);
        }
        let dv: i64 = (c as u32 - '0' as u32) as i64;
        if !big {
            acc = acc * 10 + dv;
            if acc > cap {
                big = true;
            }
        }
        i = i + 1;
    }
    assert(cs@.subrange(start as int, n as int) == d);
    assert forall|k: int| 0 <= k < d.len() implies is_digit(#[trigger] d[k]) by {
        assert(d[k] == cs@[start + k]);
    }
    if big {
        return None;
    }
    if neg {
        Some((0 - acc) as i32)
    } else if acc > 2147483647 {
        None
    } else {
        Some(acc as i32)
    }
}

/// The timeout that a dialog's timeout field gives, as
/// `text.parse::<i32>().unwrap_or(0)` computes it.
pub fn parse_timeout(text: &str) -> (t: i32)
    ensures
        t == timeout_of(text@),
{
    match parse_i32_text(text) {
        Some(v) => v,
        None => 0,
    }
}

/// Writes a count in decimal.
pub fn decimal_text(n: usize) -> (r: String)
    ensures
        r@ == decimal(n as nat),
{
    let mut rev: Vec<char> = Vec::new();
    let mut m = n;
    while m >= 10
        invariant
            decimal(n as nat) == decimal(m as nat) + rev@.reverse(),
        decreases m,
    {
        let d = m % 10;
        let c = ((d as u32) + ('0' as u32)) as u8 as char;
        proof {
            assert(c == digit_char(d as nat));
            assert(decimal(m as nat) == decimal((m / 10) as nat).push(digit_char((m % 10) as nat)));
            assert(rev@.push(c).reverse() == seq![c] + rev@.reverse());
            assert(decimal((m / 10) as nat).push(c) + rev@.reverse() == decimal((m / 10) as nat) + (seq![c] + rev@.reverse()));
        }
        rev.push(c);
        m = m / 10;
    }
    let mut r = String::new();
    let c0 = ((m as u32) + ('0' as u32)) as u8 as char;
    assert(c0 == digit_char(m as nat));
    push_char(&mut r, c0);
    let len = rev.len();
    let mut j = len;
    while j > 0
        invariant
            j <= len == rev@.len(),
            decimal(n as nat) == seq![c0] + rev@.reverse(),
            r@ == seq![c0] + rev@.reverse().take((len - j) as int),
        decreases j,
    {
        proof {
            assert(rev@.reverse()[len - j] == rev@[j - 1]);
            assert(rev@.reverse().take((len - j + 1) as int) == rev@.reverse().take((len - j) as int).push(rev@[j - 1]));
        }
        push_char(&mut r, rev[j - 1]);
        j = j - 1;
    }
    assert(rev@.reverse().take(len as int) == rev@.reverse());
    r
}

} // verus!
