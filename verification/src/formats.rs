//! String formats: the fixed grammars a string schema can demand, and the
//! engine-backed check for caller-supplied patterns.

use vstd::prelude::*;
use crate::numeric::all_digits;
use crate::numeric::is_digit;

verus! {

/// Whether a character is a hexadecimal digit, either case.
pub open spec fn is_hex_char(c: char) -> bool {
    ('0' <= c && c <= '9') || ('a' <= c && c <= 'f') || ('A' <= c && c <= 'F')
}

/// The canonical 8-4-4-4-12 hyphenated hexadecimal shape, case-insensitive,
/// with the fourth group led by one of `8`, `9`, `a`, `b`.
pub open spec fn is_uuid_model(s: Seq<char>) -> bool {
    &&& s.len() == 36
    &&& s[8] == '-'
    &&& s[13] == '-'
    &&& s[18] == '-'
    &&& s[23] == '-'
    &&& forall|k: int|
        0 <= k < 36 && k != 8 && k != 13 && k != 18 && k != 23 ==> is_hex_char(#[trigger] s[k])
    &&& (s[19] == '8' || s[19] == '9' || s[19] == 'a' || s[19] == 'b' || s[19] == 'A' || s[19]
        == 'B')
}

/// Whether a character counts as whitespace for the email shape.
pub open spec fn is_space(c: char) -> bool {
    c == ' ' || c == '\t' || c == '\n' || c == '\r' || c == '\u{b}' || c == '\u{c}'
}

/// A split of `s` as `local@rest.tail`: the one `@` at `i` with something
/// before it, a `.` at `j` with something between `@` and `.` and something
/// after it, and no whitespace anywhere.
pub open spec fn email_split_at(s: Seq<char>, i: int, j: int) -> bool {
    &&& 1 <= i
    &&& i + 2 <= j
    &&& j + 2 <= s.len()
    &&& s[i] == '@'
    &&& s[j] == '.'
    &&& forall|k: int| 0 <= k < s.len() && k != i ==> s[k] != '@'
    &&& forall|k: int| 0 <= k < s.len() ==> !is_space(#[trigger] s[k])
}

/// The permissive `local@domain.tld` email shape.
pub open spec fn is_email_model(s: Seq<char>) -> bool {
    exists|i: int, j: int| email_split_at(s, i, j)
}

/// An optional leading `+`, then 7 to 15 decimal digits.
pub open spec fn is_phone_model(s: Seq<char>) -> bool {
    let d = if s.len() > 0 && s[0] == '+' {
        s.drop_first()
    } else {
        s
    };
    7 <= d.len() <= 15 && all_digits(d)
}

/// A lowercase letter.
pub open spec fn is_alpha(c: char) -> bool {
    'a' <= c && c <= 'z'
}

/// A lowercase alphanumeric hostname-label character.
pub open spec fn label_char(c: char) -> bool {
    ('a' <= c && c <= 'z') || ('0' <= c && c <= '9')
}

/// A label separator.
pub open spec fn sep_char(c: char) -> bool {
    c == '-' || c == '.'
}

/// Alphanumeric labels joined by single `-` or `.` separators: nonempty,
/// starting and ending with a label character, every character a label
/// character or a separator, and no two adjacent separators.
pub open spec fn chain_ok(t: Seq<char>) -> bool {
    &&& t.len() >= 1
    &&& label_char(t[0])
    &&& label_char(t[t.len() - 1])
    &&& forall|k: int| 0 <= k < t.len() ==> label_char(#[trigger] t[k]) || sep_char(t[k])
    &&& forall|k: int| 0 <= k < t.len() - 1 ==> !(sep_char(#[trigger] t[k]) && sep_char(t[k + 1]))
}

/// A split of `s` as `chain.tld`: a label chain, the final dot at `j`, and a
/// 2 to 6 letter lowercase top-level domain after it.
pub open spec fn domain_split_at(s: Seq<char>, j: int) -> bool {
    &&& 1 <= j
    &&& j + 3 <= s.len()
    &&& s.len() <= j + 7
    &&& s[j] == '.'
    &&& chain_ok(s.take(j))
    &&& forall|k: int| j < k < s.len() ==> is_alpha(#[trigger] s[k])
}

/// The bare hostname shape.
pub open spec fn is_bare_domain_model(s: Seq<char>) -> bool {
    exists|j: int| domain_split_at(s, j)
}

/// A `http://` prefix.
pub open spec fn http_prefix(s: Seq<char>) -> bool {
    s.len() >= 7 && s[0] == 'h' && s[1] == 't' && s[2] == 't' && s[3] == 'p' && s[4] == ':' && s[5]
        == '/' && s[6] == '/'
}

/// A `https://` prefix.
pub open spec fn https_prefix(s: Seq<char>) -> bool {
    s.len() >= 8 && s[0] == 'h' && s[1] == 't' && s[2] == 't' && s[3] == 'p' && s[4] == 's' && s[5]
        == ':' && s[6] == '/' && s[7] == '/'
}

/// The hostname shape, with a mandatory protocol prefix when asked for.
pub open spec fn is_domain_model(s: Seq<char>, require_protocol: bool) -> bool {
    if require_protocol {
        (http_prefix(s) && is_bare_domain_model(s.skip(7))) || (https_prefix(s)
            && is_bare_domain_model(s.skip(8)))
    } else {
        is_bare_domain_model(s)
    }
}

/// What the pattern engine decides for a pattern and a text, a function of
/// the two strings alone.
pub uninterp spec fn regex_accepts(pattern: Seq<char>, text: Seq<char>) -> bool;

/// Relies on regex's `Regex::new` and `Regex::is_match`: compiling fails
/// exactly on an invalid pattern, and matching is a pure function of the
/// pattern and the haystack. An invalid pattern matches nothing, the
/// engine's fail-closed rule.
#[verifier::external_body]
pub fn regex_is_match(pattern: &str, text: &str) -> (r: bool)
    ensures
        r == regex_accepts(pattern@, text@),
{
    match regex::Regex::new(pattern) {
        Ok(re) => re.is_match(text),
        Err(_) => false,
    }
}

/// Hexadecimal digit test.
fn is_hex(c: char) -> (r: bool)
    ensures
        r == is_hex_char(c),
{
    ('0' <= c && c <= '9') || ('a' <= c && c <= 'f') || ('A' <= c && c <= 'F')
}

/// Whitespace test for the email shape.
fn is_space_exec(c: char) -> (r: bool)
    ensures
        r == is_space(c),
{
    c == ' ' || c == '\t' || c == '\n' || c == '\r' || c == '\u{b}' || c == '\u{c}'
}

/// Checks the hyphenated hexadecimal identifier shape.
pub fn check_uuid(chars: &Vec<char>) -> (r: bool)
    ensures
        r == is_uuid_model(chars@),
{
    let n = chars.len();
    if n != 36 {
        return false;
    }
    if !(chars[8] == '-' && chars[13] == '-' && chars[18] == '-' && chars[23] == '-') {
        return false;
    }
    let v = chars[19];
    if !(v == '8' || v == '9' || v == 'a' || v == 'b' || v == 'A' || v == 'B') {
        return false;
    }
    let mut i: usize = 0;
    while i < 36
        invariant
            0 <= i <= 36,
            chars@.len() == 36,
            forall|k: int|
                0 <= k < i && k != 8 && k != 13 && k != 18 && k != 23 ==> is_hex_char(
                    #[trigger] chars@[k],
                ),
        decreases 36 - i,
    {
        if !(i == 8 || i == 13 || i == 18 || i == 23) {
            if !is_hex(chars[i]) {
                return false;
            }
        }
        i = i + 1;
    }
    true
}

/// Checks the email shape.
pub fn check_email(chars: &Vec<char>) -> (r: bool)
    ensures
        r == is_email_model(chars@),
{
    let n = chars.len();
    if n < 5 {
        proof {
            if is_email_model(chars@) {
                let (i, j) = choose|i: int, j: int| email_split_at(chars@, i, j);
                assert(j + 2 <= n);
            }
        }
        return false;
    }
    // One pass: the position of the single '@', and any whitespace.
    let mut at_pos: usize = 0;
    let mut seen_at: bool = false;
    let mut k: usize = 0;
    while k < n
        invariant
            0 <= k <= n,
            n == chars@.len(),
            seen_at ==> at_pos < k && chars@[at_pos as int] == '@',
            forall|m: int| 0 <= m < k && m != at_pos ==> chars@[m] != '@',
            !seen_at ==> forall|m: int| 0 <= m < k ==> chars@[m] != '@',
            forall|m: int| 0 <= m < k ==> !is_space(#[trigger] chars@[m]),
        decreases n - k,
    {
        let c = chars[k];
        if is_space_exec(c) {
            proof {
                if is_email_model(chars@) {
                    let (i, j) = choose|i: int, j: int| email_split_at(chars@, i, j);
                    assert(!is_space(chars@[k as int]));
                }
            }
            return false;
        }
        if c == '@' {
            if seen_at {
                proof {
                    if is_email_model(chars@) {
                        let (i, j) = choose|i: int, j: int| email_split_at(chars@, i, j);
                        assert(chars@[at_pos as int] == '@' && chars@[k as int] == '@');
                        assert(at_pos == i && k == i);
                    }
                }
                return false;
            }
            at_pos = k;
            seen_at = true;
        }
        k = k + 1;
    }
    if !seen_at {
        proof {
            if is_email_model(chars@) {
                let (i, j) = choose|i: int, j: int| email_split_at(chars@, i, j);
                assert(chars@[i] == '@');
            }
        }
        return false;
    }
    if at_pos == 0 || at_pos >= n - 2 {
        proof {
            if is_email_model(chars@) {
                let (i, j) = choose|i: int, j: int| email_split_at(chars@, i, j);
                assert(i == at_pos);
                assert(1 <= i && i + 2 <= j && j + 2 <= n);
            }
        }
        return false;
    }
    // A '.' strictly between '@' and the last character.
    let mut j: usize = at_pos + 2;
    while j < n - 1
        invariant
            at_pos + 2 <= j <= n,
            n == chars@.len(),
            chars@[at_pos as int] == '@',
            1 <= at_pos,
            at_pos + 2 < n,
            forall|m: int| 0 <= m < n && m != at_pos ==> chars@[m] != '@',
            forall|m: int| 0 <= m < n ==> !is_space(#[trigger] chars@[m]),
            forall|m: int| at_pos + 2 <= m < j ==> chars@[m] != '.',
        decreases n - j,
    {
        if chars[j] == '.' {
            proof {
                assert(email_split_at(chars@, at_pos as int, j as int));
            }
            return true;
        }
        j = j + 1;
    }
    proof {
        if is_email_model(chars@) {
            let (i, j2) = choose|i: int, j2: int| email_split_at(chars@, i, j2);
            assert(i == at_pos);
            assert(chars@[j2] == '.');
        }
    }
    false
}

/// Checks the phone shape.
pub fn check_phone(chars: &Vec<char>) -> (r: bool)
    ensures
        r == is_phone_model(chars@),
{
    let n = chars.len();
    let start: usize = if n > 0 && chars[0] == '+' {
        1
    } else {
        0
    };
    let ghost d: Seq<char> = if start == 1 {
        chars@.drop_first()
    } else {
        chars@
    };
    if n - start < 7 || n - start > 15 {
        return false;
    }
    let mut i: usize = start;
    while i < n
        invariant
            start <= i <= n,
            n == chars@.len(),
            start == 0 || start == 1,
            (start == 1) ==> (n > 0 && chars@[0] == '+'),
            (start == 0) ==> (n == 0 || chars@[0] != '+'),
            d == if start == 1 {
                chars@.drop_first()
            } else {
                chars@
            },
            forall|m: int| 0 <= m < i - start ==> is_digit(#[trigger] d[m]),
        decreases n - i,
    {
        let c = chars[i];
        if !('0' <= c && c <= '9') {
            proof {
                assert(d[i - start] == chars@[i as int]);
            }
            return false;
        }
        proof {
            assert(d[i - start] == chars@[i as int]);
        }
        i = i + 1;
    }
    true
}

/// Label-character test.
fn is_label_char(c: char) -> (r: bool)
    ensures
        r == label_char(c),
{
    ('a' <= c && c <= 'z') || ('0' <= c && c <= '9')
}

/// Separator test.
fn is_sep_char(c: char) -> (r: bool)
    ensures
        r == sep_char(c),
{
    c == '-' || c == '.'
}

/// Any hostname split must sit at the last dot of the string.
proof fn lemma_domain_witness_is_last_dot(s: Seq<char>, j: int)
    requires
        0 <= j < s.len(),
        s[j] == '.',
        forall|m: int| j < m < s.len() ==> s[m] != '.',
    ensures
        is_bare_domain_model(s) ==> domain_split_at(s, j),
{
    if is_bare_domain_model(s) {
        let j2 = choose|j2: int| domain_split_at(s, j2);
        if j2 < j {
            assert(is_alpha(s[j]));
            assert(false);
        }
        if j2 > j {
            assert(s[j2] != '.');
            assert(false);
        }
        assert(j2 == j);
    }
}

/// Checks the bare hostname shape.
pub fn check_bare_domain(chars: &Vec<char>) -> (r: bool)
    ensures
        r == is_bare_domain_model(chars@),
{
    let n = chars.len();
    // The final dot; any witness split must sit at the last dot.
    let mut last_dot: usize = 0;
    let mut seen_dot: bool = false;
    let mut k: usize = 0;
    while k < n
        invariant
            0 <= k <= n,
            n == chars@.len(),
            seen_dot ==> last_dot < k && chars@[last_dot as int] == '.',
            seen_dot ==> forall|m: int| last_dot < m < k ==> chars@[m] != '.',
            !seen_dot ==> forall|m: int| 0 <= m < k ==> chars@[m] != '.',
        decreases n - k,
    {
        if chars[k] == '.' {
            last_dot = k;
            seen_dot = true;
        }
        k = k + 1;
    }
    if !seen_dot {
        proof {
            if is_bare_domain_model(chars@) {
                let j = choose|j: int| domain_split_at(chars@, j);
                assert(chars@[j] == '.');
            }
        }
        return false;
    }
    let j = last_dot;
    proof {
        lemma_domain_witness_is_last_dot(chars@, j as int);
    }
    if j < 1 {
        return false;
    }
    let tlen = n - j - 1;
    if tlen < 2 || tlen > 6 {
        return false;
    }
    let mut k2: usize = j + 1;
    while k2 < n
        invariant
            j + 1 <= k2 <= n,
            n == chars@.len(),
            is_bare_domain_model(chars@) ==> domain_split_at(chars@, j as int),
            forall|m: int| j < m < k2 ==> is_alpha(#[trigger] chars@[m]),
        decreases n - k2,
    {
        let c = chars[k2];
        if !('a' <= c && c <= 'z') {
            proof {
                assert(!is_alpha(chars@[k2 as int]));
            }
            return false;
        }
        k2 = k2 + 1;
    }
    // The chain before the dot.
    let first = chars[0];
    if !is_label_char(first) {
        return false;
    }
    let lastc = chars[j - 1];
    if !is_label_char(lastc) {
        return false;
    }
    let ghost t: Seq<char> = chars@.take(j as int);
    let mut k3: usize = 0;
    while k3 < j
        invariant
            0 <= k3 <= j,
            1 <= j < n,
            n == chars@.len(),
            t == chars@.take(j as int),
            is_bare_domain_model(chars@) ==> domain_split_at(chars@, j as int),
            forall|m: int| 0 <= m < k3 ==> label_char(#[trigger] t[m]) || sep_char(t[m]),
            forall|m: int|
                0 <= m < k3 && m + 1 < j ==> !(sep_char(#[trigger] t[m]) && sep_char(t[m + 1])),
        decreases j - k3,
    {
        let c = chars[k3];
        proof {
            assert(t[k3 as int] == chars@[k3 as int]);
        }
        if !is_label_char(c) && !is_sep_char(c) {
            proof {
                assert(!chain_ok(t));
            }
            return false;
        }
        if k3 + 1 < j {
            proof {
                assert(t[k3 + 1] == chars@[k3 + 1]);
            }
            if is_sep_char(c) && is_sep_char(chars[k3 + 1]) {
                proof {
                    assert(!chain_ok(t));
                }
                return false;
            }
        }
        k3 = k3 + 1;
    }
    proof {
        assert(t[0] == chars@[0]);
        assert(t[j - 1] == chars@[j - 1]);
        assert(chain_ok(t));
        assert(forall|m: int| j < m < n ==> is_alpha(#[trigger] chars@[m]));
        assert(domain_split_at(chars@, j as int));
    }
    true
}

/// Checks the hostname shape, with its optional protocol requirement.
pub fn check_domain(chars: &Vec<char>, require_protocol: bool) -> (r: bool)
    ensures
        r == is_domain_model(chars@, require_protocol),
{
    if !require_protocol {
        return check_bare_domain(chars);
    }
    let n = chars.len();
    let has_https = n >= 8 && chars[0] == 'h' && chars[1] == 't' && chars[2] == 't' && chars[3]
        == 'p' && chars[4] == 's' && chars[5] == ':' && chars[6] == '/' && chars[7] == '/';
    if has_https {
        let rest = tail_chars(chars, 8);
        return check_bare_domain(&rest);
    }
    let has_http = n >= 7 && chars[0] == 'h' && chars[1] == 't' && chars[2] == 't' && chars[3]
        == 'p' && chars[4] == ':' && chars[5] == '/' && chars[6] == '/';
    if has_http {
        let rest = tail_chars(chars, 7);
        return check_bare_domain(&rest);
    }
    false
}

/// The characters from position `start` on.
fn tail_chars(chars: &Vec<char>, start: usize) -> (r: Vec<char>)
    requires
        start <= chars@.len(),
    ensures
        r@ == chars@.skip(start as int),
{
    let mut out: Vec<char> = Vec::new();
    let mut i: usize = start;
    while i < chars.len()
        invariant
            start <= i <= chars@.len(),
            out@.len() == i - start,
            forall|m: int| 0 <= m < i - start ==> out@[m] == chars@[m + start],
        decreases chars@.len() - i,
    {
        out.push(chars[i]);
        i = i + 1;
    }
    proof {
        assert(out@ =~= chars@.skip(start as int));
    }
    out
}

} // verus!
