//! Decimal numbers written as text, read as Rust's integer parsing reads
//! them.
use vstd::prelude::*;

verus! {

/// The value of a decimal digit character.
pub open spec fn digit_value(c: char) -> int {
    c as int - '0' as int
}

/// `c` is a decimal digit.
pub open spec fn is_digit(c: char) -> bool {
    '0' <= c <= '9'
}

/// The number that a string of decimal digits writes.
pub open spec fn digits_value(s: Seq<char>) -> int
    decreases s.len(),
{
    if s.len() == 0 {
        0
    } else {
        digits_value(s.drop_last()) * 10 + digit_value(s.last())
    }
}

/// The digits of a number as Rust's integer parsing reads them: an
/// optional leading `+`, then at least one digit.
pub open spec fn number_digits(s: Seq<char>) -> Option<Seq<char>> {
    let d = unsigned_part(s);
    if d.len() > 0 && all_digits(d) {
        Some(d)
    } else {
        None
    }
}

/// `s` without a leading `+`.
pub open spec fn unsigned_part(s: Seq<char>) -> Seq<char> {
    if s.len() > 0 && s[0] == '+' {
        s.drop_first()
    } else {
        s
    }
}

/// Every character of `d` is a decimal digit.
pub open spec fn all_digits(d: Seq<char>) -> bool {
    forall|i: int| 0 <= i < d.len() ==> is_digit(#[trigger] d[i])
}

/// The number that the digit string `d` writes, where it is a non-empty
/// string of digits writing a number no larger than `max`.
pub open spec fn digits_in(d: Seq<char>, max: int) -> Option<int> {
    if d.len() > 0 && all_digits(d) && digits_value(d) <= max {
        Some(digits_value(d))
    } else {
        None
    }
}

/// The number that `s` writes, where it writes one no larger than `max`.
pub open spec fn number_in(s: Seq<char>, max: int) -> Option<int> {
    match number_digits(s) {
        Some(d) => if digits_value(d) <= max { Some(digits_value(d)) } else { None },
        None => None,
    }
}

/// The signed number that `s` writes, as Rust reads an `i64`: a leading
/// `-` or `+`, then digits, within the range of `i64`.
pub open spec fn signed_in(s: Seq<char>) -> Option<int> {
    if s.len() > 0 && s[0] == '-' {
        match digits_in(s.drop_first(), i64::MAX + 1) {
            Some(v) => Some(-v),
            None => None,
        }
    } else {
        number_in(s, i64::MAX as int)
    }
}

/// A digit string is worth at least any of its prefixes.
proof fn lemma_prefix_value(s: Seq<char>, k: int)
    requires
        0 <= k <= s.len(),
        forall|i: int| 0 <= i < s.len() ==> is_digit(#[trigger] s[i]),
    ensures
        0 <= digits_value(s.subrange(0, k)) <= digits_value(s),
    decreases s.len(),
{
    if s.len() == 0 {
        assert(s.subrange(0, k).len() == 0);
    } else if k == s.len() {
        assert(s.subrange(0, k) =~= s);
        lemma_prefix_value(s.drop_last(), k - 1);
    } else {
        assert forall|i: int| 0 <= i < s.drop_last().len() implies is_digit(#[trigger] s.drop_last()[i]) by {
            assert(s.drop_last()[i] == s[i]);
        }
        lemma_prefix_value(s.drop_last(), k);
        assert(s.drop_last().subrange(0, k) =~= s.subrange(0, k));
        assert(is_digit(s.last()));
    }
}

/// Reads the digits of `text` from position `start` on as a number no
/// larger than `max`.
fn parse_digits(text: &str, start: usize, max: u64) -> (r: Option<u64>)
    requires
        start <= text@.len(),
    ensures
        match r {
            Some(n) => digits_in(text@.skip(start as int), max as int) == Some(n as int),
            None => digits_in(text@.skip(start as int), max as int) is None,
        },
{
    let ghost s = text@;
    let len = text.unicode_len();
    let ghost d = s.skip(start as int);
    proof {
        assert(d =~= s.subrange(start as int, s.len() as int));
    }
    if start >= len {
        return None;
    }
    let mut i: usize = start;
    let mut value: u64 = 0;
    proof {
        assert(s.subrange(start as int, start as int).len() == 0);
    }
    while i < len
        invariant
            s == text@,
            len == s.len(),
            start <= i <= len,
            d == s.subrange(start as int, len as int),
            forall|j: int| start <= j < i ==> is_digit(#[trigger] s[j]),
            value == digits_value(s.subrange(start as int, i as int)),
            value <= max,
        decreases len - i,
    {
        let c = text.get_char(i);
        if !('0' <= c && c <= '9') {
            proof {
                assert(d[i - start] == c);
                assert(!is_digit(d[i - start]));
            }
            return None;
        }
        let dv = (c as u32 - '0' as u32) as u64;
        proof {
            let pre = s.subrange(start as int, i as int);
            let next = s.subrange(start as int, i + 1);
            assert(next.drop_last() =~= pre);
            assert(next.last() == c);
            assert(digits_value(next) == value * 10 + dv);
        }
        if dv > max || value > (max - dv) / 10 {
            proof {
                assert(value * 10 + dv > max) by (nonlinear_arith)
                    requires
                        dv > max || value > (max - dv) / 10,
                        dv <= max ==> (max - dv) / 10 * 10 <= max - dv,
                        value >= 0,
                {}
                if all_digits(d) {
                    lemma_prefix_value(d, i + 1 - start);
                    assert(d.subrange(0, i + 1 - start) =~= s.subrange(start as int, i + 1));
                }
            }
            return None;
        }
        proof {
            assert(value * 10 + dv <= max) by (nonlinear_arith)
                requires
                    value <= (max - dv) / 10,
                    dv <= max,
                    (max - dv) / 10 * 10 <= max - dv,
            {}
        }
        value = value * 10 + dv;
        i = i + 1;
    }
    proof {
        assert(s.subrange(start as int, len as int) == d);
        assert forall|j: int| 0 <= j < d.len() implies is_digit(#[trigger] d[j]) by {
            assert(d[j] == s[start + j]);
        }
    }
    Some(value)
}

/// Reads a decimal number no larger than `max`, as Rust's integer parsing
/// reads one; `None` where `text` writes no such number.
pub fn parse_number(text: &str, max: u64) -> (r: Option<u64>)
    ensures
        match r {
            Some(n) => number_in(text@, max as int) == Some(n as int),
            None => number_in(text@, max as int) is None,
        },
{
    let len = text.unicode_len();
    let start: usize = if len > 0 && text.get_char(0) == '+' { 1 } else { 0 };
    proof {
        if start == 1 {
            assert(text@.skip(1) =~= text@.drop_first());
        } else {
            assert(text@.skip(0) =~= text@);
        }
    }
    parse_digits(text, start, max)
}

/// Reads a signed number as Rust reads an `i64`; `None` where `text`
/// writes none in range.
pub fn parse_signed(text: &str) -> (r: Option<i64>)
    ensures
        match r {
            Some(n) => signed_in(text@) == Some(n as int),
            None => signed_in(text@) is None,
        },
{
    let len = text.unicode_len();
    if len > 0 && text.get_char(0) == '-' {
        proof {
            assert(text@.skip(1) =~= text@.drop_first());
        }
        match parse_digits(text, 1, 9223372036854775808u64) {
            Some(v) => {
                if v == 9223372036854775808u64 {
                    Some(i64::MIN)
                } else {
                    Some(-(v as i64))
                }
            },
            None => None,
        }
    } else {
        match parse_number(text, i64::MAX as u64) {
            Some(v) => Some(v as i64),
            None => None,
        }
    }
}

} // verus!
