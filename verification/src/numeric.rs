//! Decimal rendering and parsing of integers, used for issue messages, for
//! string coercion of numbers, and for numeric coercion of strings.

use vstd::prelude::*;
use vstd::string::StrSliceExecFns;
use vstd::string::StringExecFns;

verus! {

/// The character for one decimal digit.
pub open spec fn digit_char(d: int) -> char {
    if d == 0 {
        '0'
    } else if d == 1 {
        '1'
    } else if d == 2 {
        '2'
    } else if d == 3 {
        '3'
    } else if d == 4 {
        '4'
    } else if d == 5 {
        '5'
    } else if d == 6 {
        '6'
    } else if d == 7 {
        '7'
    } else if d == 8 {
        '8'
    } else {
        '9'
    }
}

/// The decimal digits of a natural number, most significant first.
pub open spec fn dec_digits(n: nat) -> Seq<char>
    decreases n,
{
    if n < 10 {
        seq![digit_char(n as int)]
    } else {
        dec_digits(n / 10).push(digit_char((n % 10) as int))
    }
}

/// An integer in decimal, with a leading minus sign when negative.
pub open spec fn dec_str(n: int) -> Seq<char> {
    if n >= 0 {
        dec_digits(n as nat)
    } else {
        seq!['-'] + dec_digits((-n) as nat)
    }
}

/// Relies on std's `String::push`: appends exactly the given character.
#[verifier::external_body]
pub fn push_char(s: &mut String, c: char)
    ensures
        final(s)@ == old(s)@.push(c),
{
    s.push(c);
}

/// The character for one digit value.
fn digit_to_char(d: u64) -> (c: char)
    requires
        d < 10,
    ensures
        c == digit_char(d as int),
{
    if d == 0 {
        '0'
    } else if d == 1 {
        '1'
    } else if d == 2 {
        '2'
    } else if d == 3 {
        '3'
    } else if d == 4 {
        '4'
    } else if d == 5 {
        '5'
    } else if d == 6 {
        '6'
    } else if d == 7 {
        '7'
    } else if d == 8 {
        '8'
    } else {
        '9'
    }
}

/// Renders an unsigned number in decimal.
pub fn u64_to_string(m: u64) -> (s: String)
    ensures
        s@ == dec_digits(m as nat),
    decreases m,
{
    if m < 10 {
        let mut s = String::new();
        push_char(&mut s, digit_to_char(m));
        proof {
            assert(s@ =~= seq![digit_char(m as int)]);
        }
        s
    } else {
        let mut s = u64_to_string(m / 10);
        push_char(&mut s, digit_to_char(m % 10));
        s
    }
}

/// Renders a signed number in decimal.
pub fn i64_to_string(n: i64) -> (s: String)
    ensures
        s@ == dec_str(n as int),
{
    if n >= 0 {
        u64_to_string(n as u64)
    } else {
        let m: u64 = ((-(n + 1)) as u64) + 1;
        proof {
            assert(m as int == -(n as int));
        }
        let digits = u64_to_string(m);
        let r = String::from_str("-").concat(digits.as_str());
        proof {
            reveal_strlit("-");
            assert("-"@ =~= seq!['-']);
        }
        r
    }
}

/// The characters of a string, in order.
pub fn chars_of(s: &str) -> (v: Vec<char>)
    ensures
        v@ == s@,
{
    let n = s.unicode_len();
    let mut v: Vec<char> = Vec::new();
    let mut i: usize = 0;
    while i < n
        invariant
            0 <= i <= n,
            n == s@.len(),
            v@.len() == i,
            forall|k: int| 0 <= k < i ==> v@[k] == s@[k],
        decreases n - i,
    {
        let c = s.get_char(i);
        v.push(c);
        i = i + 1;
    }
    proof {
        assert(v@ =~= s@);
    }
    v
}

/// Whether a character is a decimal digit.
pub open spec fn is_digit(c: char) -> bool {
    '0' <= c && c <= '9'
}

/// The value of one digit character.
pub open spec fn digit_val(c: char) -> int {
    c as int - 48
}

/// Whether every character of a string is a decimal digit.
pub open spec fn all_digits(s: Seq<char>) -> bool {
    forall|i: int| 0 <= i < s.len() ==> is_digit(#[trigger] s[i])
}

/// The value of a digit string, most significant digit first.
pub open spec fn digits_val(s: Seq<char>) -> int
    decreases s.len(),
{
    if s.len() == 0 {
        0
    } else {
        digits_val(s.drop_last()) * 10 + digit_val(s.last())
    }
}

/// The integer a string denotes: an optional sign followed by at least one
/// decimal digit. Anything else denotes nothing.
pub open spec fn parse_int_model(s: Seq<char>) -> Option<int> {
    if s.len() > 0 && (s[0] == '-' || s[0] == '+') {
        let digits = s.drop_first();
        if digits.len() > 0 && all_digits(digits) {
            if s[0] == '-' {
                Some(-digits_val(digits))
            } else {
                Some(digits_val(digits))
            }
        } else {
            None
        }
    } else {
        if s.len() > 0 && all_digits(s) {
            Some(digits_val(s))
        } else {
            None
        }
    }
}

/// Numeric coercion of a string: its integer value, when it has one and the
/// value fits a 64-bit signed number.
pub open spec fn coerce_num_model(s: Seq<char>) -> Option<int> {
    match parse_int_model(s) {
        Some(n) => if i64::MIN <= n <= i64::MAX {
            Some(n)
        } else {
            None
        },
        None => None,
    }
}

/// A digit string has a non-negative value.
pub proof fn lemma_digits_val_nonneg(s: Seq<char>)
    requires
        all_digits(s),
    ensures
        digits_val(s) >= 0,
    decreases s.len(),
{
    if s.len() > 0 {
        assert(all_digits(s.drop_last())) by {
            assert(forall|i: int|
                0 <= i < s.len() - 1 ==> s.drop_last()[i] == #[trigger] s[i]);
        }
        lemma_digits_val_nonneg(s.drop_last());
        assert(is_digit(s.last()));
    }
}

/// Extending a digit string at the end never lowers its value.
pub proof fn lemma_digits_val_prefix_le(s: Seq<char>, j: int)
    requires
        all_digits(s),
        0 <= j <= s.len(),
    ensures
        digits_val(s.take(j)) <= digits_val(s),
    decreases s.len() - j,
{
    if j == s.len() {
        assert(s.take(j) =~= s);
    } else {
        let t = s.take(j + 1);
        assert(all_digits(t)) by {
            assert(forall|i: int| 0 <= i < j + 1 ==> t[i] == #[trigger] s[i]);
        }
        assert(t.drop_last() =~= s.take(j));
        assert(t.last() == s[j]);
        lemma_digits_val_nonneg(t.drop_last());
        assert(digits_val(t) == digits_val(s.take(j)) * 10 + digit_val(s[j]));
        assert(digit_val(s[j]) >= 0);
        assert(digits_val(s.take(j)) <= digits_val(t));
        lemma_digits_val_prefix_le(s, j + 1);
    }
}

/// Parses a string as a 64-bit signed integer, exactly when the numeric
/// coercion of the string is defined.
pub fn parse_i64(s: &str) -> (r: Option<i64>)
    ensures
        match r {
            Some(n) => coerce_num_model(s@) == Some(n as int),
            None => coerce_num_model(s@) is None,
        },
{
    let chars = chars_of(s);
    let n = chars.len();
    let mut start: usize = 0;
    let mut neg: bool = false;
    if n > 0 && (chars[0] == '-' || chars[0] == '+') {
        start = 1;
        neg = chars[0] == '-';
    }
    if n == start {
        return None;
    }
    let ghost digits: Seq<char> = s@.subrange(start as int, n as int);
    proof {
        if start == 1 {
            assert(digits =~= s@.drop_first());
        } else {
            assert(digits =~= s@);
        }
    }
    let mut acc: u64 = 0;
    let mut i: usize = start;
    while i < n
        invariant
            start <= i <= n,
            n == chars@.len(),
            chars@ == s@,
            start == 0 || start == 1,
            (start == 1) <==> (n > 0 && (s@[0] == '-' || s@[0] == '+')),
            neg <==> (start == 1 && s@[0] == '-'),
            digits == s@.subrange(start as int, n as int),
            n - start > 0,
            all_digits(digits.take(i - start)),
            acc as int == digits_val(digits.take(i - start)),
        decreases n - i,
    {
        let c = chars[i];
        if !('0' <= c && c <= '9') {
            proof {
                assert(digits[i - start] == c);
                assert(!is_digit(digits[i - start]));
                assert(!all_digits(digits));
            }
            return None;
        }
        let d: u64 = (c as u32 - 48) as u64;
        let next = match acc.checked_mul(10) {
            Some(a) => a.checked_add(d),
            None => None,
        };
        match next {
            Some(b) => {
                proof {
                    let t = digits.take(i + 1 - start);
                    assert(t.drop_last() =~= digits.take(i - start));
                    assert(t.last() == digits[i - start]);
                    assert(digits[i - start] == c);
                }
                acc = b;
            },
            None => {
                // The value read so far already exceeds the unsigned 64-bit
                // range, so whatever follows, the string cannot denote a
                // number in the signed 64-bit range.
                proof {
                    let t = digits.take(i + 1 - start);
                    assert(t.drop_last() =~= digits.take(i - start));
                    assert(t.last() == digits[i - start]);
                    assert(digits[i - start] == c);
                    assert(all_digits(t)) by {
                        assert(forall|k: int| 0 <= k < t.len() - 1 ==> t[k] == #[trigger] t.drop_last()[k]);
                    }
                    assert(digits_val(t) > u64::MAX as int);
                    if all_digits(digits) {
                        lemma_digits_val_prefix_le(digits, i + 1 - start);
                        assert(digits.take(digits.len() as int) =~= digits);
                        assert(digits_val(digits) > u64::MAX as int);
                        if start == 1 {
                            assert(digits =~= s@.drop_first());
                        } else {
                            assert(digits =~= s@);
                        }
                        assert(digits_val(digits) > i64::MAX as int);
                        assert(-digits_val(digits) < i64::MIN as int);
                    }
                }
                return None;
            },
        }
        i = i + 1;
    }
    proof {
        assert(digits.take(n - start) =~= digits);
        lemma_digits_val_nonneg(digits);
    }
    if neg {
        if acc <= 9223372036854775807u64 {
            Some(0i64 - (acc as i64))
        } else if acc == 9223372036854775808u64 {
            Some(i64::MIN)
        } else {
            None
        }
    } else {
        if acc <= 9223372036854775807u64 {
            Some(acc as i64)
        } else {
            None
        }
    }
}

} // verus!
