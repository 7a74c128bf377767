//! Character and string helpers shared by the agent modules.

use vstd::prelude::*;
use vstd::string::*;

verus! {

/// `String::push` appends one character at the end of the string.
pub assume_specification[ String::push ](s: &mut String, ch: char)
    ensures
        final(s)@ == old(s)@.push(ch),
;

/// The lower-case hexadecimal digit for a value below sixteen.
pub open spec fn hex_char(v: int) -> char {
    if v < 10 {
        (48 + v) as char
    } else {
        (87 + v) as char
    }
}

/// Lower-case hexadecimal rendering of a byte sequence, two digits per byte,
/// high nibble first.
pub open spec fn hex_lower(bytes: Seq<u8>) -> Seq<char> {
    Seq::new(
        2 * bytes.len(),
        |i: int|
            if i % 2 == 0 {
                hex_char((bytes[i / 2] / 16) as int)
            } else {
                hex_char((bytes[i / 2] % 16) as int)
            },
    )
}

/// An ASCII hexadecimal digit, in either case.
pub open spec fn is_hex_digit(c: char) -> bool {
    ('0' <= c && c <= '9') || ('a' <= c && c <= 'f') || ('A' <= c && c <= 'F')
}

fn hex_digit(v: u8) -> (c: char)
    requires
        v < 16,
    ensures
        c == hex_char(v as int),
{
    if v < 10 {
        (48 + v) as char
    } else {
        (87 + v) as char
    }
}

/// Renders bytes as lower-case hexadecimal text.
pub fn encode_hex_lower(bytes: &[u8]) -> (s: String)
    requires
        bytes@.len() <= usize::MAX / 2,
    ensures
        s@ == hex_lower(bytes@),
{
    let mut s = String::new();
    let mut i: usize = 0;
    while i < bytes.len()
        invariant
            i <= bytes@.len(),
            bytes@.len() <= usize::MAX / 2,
            s@.len() == 2 * i,
            forall|j: int| 0 <= j < 2 * i ==> s@[j] == #[trigger] hex_lower(bytes@)[j],
        decreases bytes@.len() - i,
    {
        let b = bytes[i];
        s.push(hex_digit(b / 16));
        s.push(hex_digit(b % 16));
        i = i + 1;
    }
    assert(s@ =~= hex_lower(bytes@));
    s
}

} // verus!

verus! {

/// Unicode `White_Space`, the property behind `char::is_whitespace` and
/// `str::trim`.
pub open spec fn is_white_space(c: char) -> bool {
    let v = c as u32;
    (9 <= v && v <= 13) || v == 32 || v == 0x85 || v == 0xa0 || v == 0x1680 || (0x2000 <= v
        && v <= 0x200a) || v == 0x2028 || v == 0x2029 || v == 0x202f || v == 0x205f || v
        == 0x3000
}

/// Whether `c` is Unicode white space.
pub fn char_is_white_space(c: char) -> (b: bool)
    ensures
        b == is_white_space(c),
{
    let v = c as u32;
    (9 <= v && v <= 13) || v == 32 || v == 0x85 || v == 0xa0 || v == 0x1680 || (0x2000 <= v
        && v <= 0x200a) || v == 0x2028 || v == 0x2029 || v == 0x202f || v == 0x205f || v
        == 0x3000
}

/// Every character of `s` is white space (so `s.trim()` is empty).
pub open spec fn is_blank(s: Seq<char>) -> bool {
    forall|i: int| 0 <= i < s.len() ==> is_white_space(#[trigger] s[i])
}

/// Whether `s` holds the character `c`.
pub fn str_contains_char(s: &str, c: char) -> (b: bool)
    ensures
        b == s@.contains(c),
{
    let n = s.unicode_len();
    let mut i: usize = 0;
    while i < n
        invariant
            n == s@.len(),
            i <= n,
            forall|j: int| 0 <= j < i ==> s@[j] != c,
        decreases n - i,
    {
        if s.get_char(i) == c {
            assert(s@[i as int] == c);
            return true;
        }
        i = i + 1;
    }
    false
}

/// Whether `s` holds only white space (true for the empty string).
pub fn str_is_blank(s: &str) -> (b: bool)
    ensures
        b == is_blank(s@),
{
    let n = s.unicode_len();
    let mut i: usize = 0;
    while i < n
        invariant
            n == s@.len(),
            i <= n,
            forall|j: int| 0 <= j < i ==> is_white_space(#[trigger] s@[j]),
        decreases n - i,
    {
        if !char_is_white_space(s.get_char(i)) {
            return false;
        }
        i = i + 1;
    }
    true
}

} // verus!

verus! {

/// The decimal digit for a value below ten.
pub open spec fn decimal_char(d: int) -> char {
    (48 + d) as char
}

/// The decimal notation of `v`, without sign or leading zeros.
pub open spec fn decimal(v: nat) -> Seq<char>
    decreases v,
{
    if v < 10 {
        seq![decimal_char(v as int)]
    } else {
        decimal(v / 10).push(decimal_char((v % 10) as int))
    }
}

/// Appends the decimal notation of `v`.
pub fn push_decimal(s: &mut String, v: u64)
    ensures
        final(s)@ == old(s)@ + decimal(v as nat),
    decreases v,
{
    if v < 10 {
        s.push((48 + v as u8) as char);
        assert(old(s)@.push(decimal_char(v as int)) =~= old(s)@ + seq![decimal_char(v as int)]);
    } else {
        push_decimal(s, v / 10);
        s.push((48 + (v % 10) as u8) as char);
        proof {
            let rest = decimal((v / 10) as nat);
            assert(old(s)@ + rest.push(decimal_char((v % 10) as int)) =~= (old(s)@ + rest).push(
                decimal_char((v % 10) as int),
            ));
        }
    }
}

/// The decimal notation of `v` (what `v.to_string()` gives).
pub fn decimal_string(v: u64) -> (s: String)
    ensures
        s@ == decimal(v as nat),
{
    let mut s = String::new();
    push_decimal(&mut s, v);
    assert(Seq::<char>::empty() + decimal(v as nat) =~= decimal(v as nat));
    s
}

/// The decimal notation of a signed integer, `-` before a negative one.
pub open spec fn signed_decimal(v: int) -> Seq<char> {
    if v < 0 {
        seq!['-'] + decimal((-v) as nat)
    } else {
        decimal(v as nat)
    }
}

/// The decimal notation of `v` (what `v.to_string()` gives).
pub fn signed_decimal_string(v: i64) -> (s: String)
    ensures
        s@ == signed_decimal(v as int),
{
    let mut s = String::new();
    if v < 0 {
        s.push('-');
        let magnitude: u64 = if v == i64::MIN {
            9223372036854775808u64
        } else {
            (-v) as u64
        };
        push_decimal(&mut s, magnitude);
    } else {
        push_decimal(&mut s, v as u64);
        assert(Seq::<char>::empty() + decimal(v as nat) =~= decimal(v as nat));
    }
    s
}

/// Appends `t` to `s`.
pub fn push_str(s: &mut String, t: &str)
    ensures
        final(s)@ == old(s)@ + t@,
{
    s.append(t);
}

} // verus!

verus! {

/// `s` without its trailing `/` characters (what `trim_end_matches('/')`
/// leaves).
pub open spec fn trim_end_slashes(s: Seq<char>) -> Seq<char>
    decreases s.len(),
{
    if s.len() > 0 && s.last() == '/' {
        trim_end_slashes(s.drop_last())
    } else {
        s
    }
}

/// Trimming the trailing slashes twice is trimming them once.
pub proof fn lemma_trim_end_slashes_idempotent(s: Seq<char>)
    ensures
        trim_end_slashes(trim_end_slashes(s)) == trim_end_slashes(s),
    decreases s.len(),
{
    if s.len() > 0 && s.last() == '/' {
        lemma_trim_end_slashes_idempotent(s.drop_last());
    }
}

/// `s` without its trailing `/` characters.
pub fn trimmed_end_slashes(s: &str) -> (t: String)
    ensures
        t@ == trim_end_slashes(s@),
{
    let n = s.unicode_len();
    let mut k: usize = n;
    assert(s@.subrange(0, n as int) =~= s@);
    while k > 0 && s.get_char(k - 1) == '/'
        invariant
            n == s@.len(),
            k <= n,
            trim_end_slashes(s@) == trim_end_slashes(s@.subrange(0, k as int)),
        decreases k,
    {
        proof {
            let p = s@.subrange(0, k as int);
            assert(p.drop_last() =~= s@.subrange(0, k - 1));
        }
        k = k - 1;
    }
    proof {
        let p = s@.subrange(0, k as int);
        assert(!(p.len() > 0 && p.last() == '/'));
    }
    s.substring_char(0, k).to_owned()
}

/// Whether two strings hold the same characters.
pub fn str_equal(a: &str, b: &str) -> (equal: bool)
    ensures
        equal == (a@ == b@),
{
    let n = a.unicode_len();
    if n != b.unicode_len() {
        return false;
    }
    let mut i: usize = 0;
    while i < n
        invariant
            n == a@.len(),
            n == b@.len(),
            i <= n,
            forall|j: int| 0 <= j < i ==> a@[j] == b@[j],
        decreases n - i,
    {
        if a.get_char(i) != b.get_char(i) {
            return false;
        }
        i = i + 1;
    }
    assert(a@ =~= b@);
    true
}

/// The value of a string of decimal digits.
pub open spec fn digits_value(d: Seq<char>) -> nat
    decreases d.len(),
{
    if d.len() == 0 {
        0
    } else {
        digits_value(d.drop_last()) * 10 + ((d.last() as u32) - 48) as nat
    }
}

pub open spec fn all_digits(d: Seq<char>) -> bool {
    forall|i: int| 0 <= i < d.len() ==> '0' <= #[trigger] d[i] && d[i] <= '9'
}

/// What `str::parse` gives for an unsigned integer type whose largest value
/// is `max`: one optional `+`, then at least one ASCII digit and nothing else,
/// and a value that fits.
pub open spec fn parse_unsigned(t: Seq<char>, max: nat) -> Option<nat> {
    let d = if t.len() > 0 && t[0] == '+' {
        t.drop_first()
    } else {
        t
    };
    if d.len() == 0 || !all_digits(d) || digits_value(d) > max {
        None
    } else {
        Some(digits_value(d))
    }
}

/// Parses `t[from..to)` as an unsigned integer no larger than `max`.
pub fn parse_unsigned_in(t: &str, from: usize, to: usize, max: u64) -> (value: Option<u64>)
    requires
        from <= to <= t@.len(),
    ensures
        match parse_unsigned(t@.subrange(from as int, to as int), max as nat) {
            Some(v) => value == Some(v as u64),
            None => value is None,
        },
{
    let ghost seg = t@.subrange(from as int, to as int);
    let mut start = from;
    if from < to && t.get_char(from) == '+' {
        start = from + 1;
    }
    let ghost d = t@.subrange(start as int, to as int);
    proof {
        if seg.len() > 0 && seg[0] == '+' {
            assert(d =~= seg.drop_first());
        } else {
            assert(d =~= seg);
        }
        assert(parse_unsigned(seg, max as nat) == (if d.len() == 0 || !all_digits(d) || digits_value(
            d,
        ) > max {
            None
        } else {
            Some(digits_value(d))
        }));
    }
    if start == to {
        return None;
    }
    let mut acc: u64 = 0;
    let mut i: usize = start;
    while i < to
        invariant
            start <= i <= to <= t@.len(),
            d == t@.subrange(start as int, to as int),
            parse_unsigned(t@.subrange(from as int, to as int), max as nat) == (if d.len() == 0
                || !all_digits(d) || digits_value(d) > max {
                None
            } else {
                Some(digits_value(d))
            }),
            all_digits(t@.subrange(start as int, i as int)),
            acc as nat == digits_value(t@.subrange(start as int, i as int)),
            acc <= max,
        decreases to - i,
    {
        let c = t.get_char(i);
        let ghost prefix = t@.subrange(start as int, i as int);
        let ghost next = t@.subrange(start as int, i + 1);
        proof {
            assert(next.drop_last() =~= prefix);
            assert(next.last() == c);
        }
        if !('0' <= c && c <= '9') {
            proof {
                assert(d[i - start] == c);
                assert(!all_digits(d));
            }
            return None;
        }
        let digit = (c as u32 - 48) as u64;
        if digit > max || acc > (max - digit) / 10 {
            proof {
                assert(digits_value(next) == acc * 10 + digit);
                assert(acc * 10 + digit > max) by (nonlinear_arith)
                    requires
                        digit > max || acc > (max - digit) / 10,
                ;
                if all_digits(d) {
                    lemma_digits_value_prefix_monotone(d, (i + 1 - start) as int);
                    assert(d.subrange(0, (i + 1 - start) as int) =~= next);
                }
            }
            return None;
        }
        proof {
            assert(acc * 10 + digit <= max) by (nonlinear_arith)
                requires
                    acc <= (max - digit) / 10,
                    digit <= max,
            ;
            assert forall|j: int| 0 <= j < next.len() implies '0' <= #[trigger] next[j]
                && next[j] <= '9' by {
                if j < prefix.len() {
                    assert(next[j] == prefix[j]);
                }
            }
        }
        acc = acc * 10 + digit;
        i = i + 1;
    }
    assert(t@.subrange(start as int, to as int) =~= d);
    Some(acc)
}

/// A longer prefix of a digit string has a value at least as large.
pub proof fn lemma_digits_value_prefix_monotone(d: Seq<char>, k: int)
    requires
        0 <= k <= d.len(),
        all_digits(d),
    ensures
        digits_value(d.subrange(0, k)) <= digits_value(d),
    decreases d.len() - k,
{
    if k < d.len() {
        let p = d.subrange(0, k + 1);
        assert(p.drop_last() =~= d.subrange(0, k));
        assert('0' <= d[k] && d[k] <= '9');
        let x = digits_value(d.subrange(0, k));
        assert(digits_value(p) == x * 10 + ((p.last() as u32) - 48) as nat);
        assert(x <= x * 10) by (nonlinear_arith);
        assert(digits_value(d.subrange(0, k)) <= digits_value(p));
        lemma_digits_value_prefix_monotone(d, k + 1);
    } else {
        assert(d.subrange(0, k) =~= d);
    }
}

} // verus!
