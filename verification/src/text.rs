//! Character-level helpers shared by the parsers and renderers.

use vstd::prelude::*;
use vstd::string::StrSliceExecFns;
use vstd::string::StringExecFns;

verus! {

/// Appends one character to a string.
#[verifier::external_body]
pub(crate) fn push_char(s: &mut String, c: char)
    ensures
        final(s)@ == old(s)@.push(c),
{
    s.push(c);
}

/// Appends a string slice to a string.
pub(crate) fn push_str(s: &mut String, t: &str)
    ensures
        final(s)@ == old(s)@ + t@,
{
    s.append(t);
}

/// The characters of a string slice, in order.
pub fn chars_of(s: &str) -> (v: Vec<char>)
    ensures
        v@ == s@,
{
    let n = s.unicode_len();
    let mut v: Vec<char> = Vec::new();
    let mut i: usize = 0;
    while i < n
        invariant
            n == s@.len(),
            i <= n,
            v@ == s@.subrange(0, i as int),
        decreases n - i,
    {
        v.push(s.get_char(i));
        i = i + 1;
    }
    assert(v@ =~= s@);
    v
}

/// A string holding exactly the characters `v[from..to]`.
pub fn string_of(v: &Vec<char>, from: usize, to: usize) -> (s: String)
    requires
        from <= to <= v@.len(),
    ensures
        s@ == v@.subrange(from as int, to as int),
{
    let mut s = String::new();
    let mut i: usize = from;
    while i < to
        invariant
            from <= i <= to,
            to <= v@.len(),
            s@ == v@.subrange(from as int, i as int),
        decreases to - i,
    {
        push_char(&mut s, v[i]);
        i = i + 1;
        assert(s@ =~= v@.subrange(from as int, i as int));
    }
    s
}

/// ASCII upper-casing of one character; other characters are unchanged.
pub open spec fn upper_char(c: char) -> char {
    if 'a' <= c && c <= 'z' {
        ((c as int) - 32) as char
    } else {
        c
    }
}

/// ASCII lower-casing of one character; other characters are unchanged.
pub open spec fn lower_char(c: char) -> char {
    if 'A' <= c && c <= 'Z' {
        ((c as int) + 32) as char
    } else {
        c
    }
}

/// ASCII upper-casing of a character sequence.
pub open spec fn upper_seq(s: Seq<char>) -> Seq<char> {
    s.map_values(|c: char| upper_char(c))
}

/// ASCII lower-casing of a character sequence.
pub open spec fn lower_seq(s: Seq<char>) -> Seq<char> {
    s.map_values(|c: char| lower_char(c))
}

pub fn to_upper(c: char) -> (r: char)
    ensures
        r == upper_char(c),
{
    if 'a' <= c && c <= 'z' {
        let u: u8 = (c as u32 - 32) as u8;
        u as char
    } else {
        c
    }
}

pub fn to_lower(c: char) -> (r: char)
    ensures
        r == lower_char(c),
{
    if 'A' <= c && c <= 'Z' {
        let u: u8 = (c as u32 + 32) as u8;
        u as char
    } else {
        c
    }
}

/// ASCII upper-cased copy of a character vector.
pub fn upper_vec(v: &Vec<char>) -> (r: Vec<char>)
    ensures
        r@ == upper_seq(v@),
{
    let mut r: Vec<char> = Vec::new();
    let mut i: usize = 0;
    while i < v.len()
        invariant
            i <= v@.len(),
            r@ == upper_seq(v@.subrange(0, i as int)),
        decreases v@.len() - i,
    {
        r.push(to_upper(v[i]));
        i = i + 1;
        assert(r@ =~= upper_seq(v@.subrange(0, i as int)));
    }
    assert(v@.subrange(0, v@.len() as int) =~= v@);
    r
}

/// ASCII lower-cased copy of a character vector.
pub fn lower_vec(v: &Vec<char>) -> (r: Vec<char>)
    ensures
        r@ == lower_seq(v@),
{
    let mut r: Vec<char> = Vec::new();
    let mut i: usize = 0;
    while i < v.len()
        invariant
            i <= v@.len(),
            r@ == lower_seq(v@.subrange(0, i as int)),
        decreases v@.len() - i,
    {
        r.push(to_lower(v[i]));
        i = i + 1;
        assert(r@ =~= lower_seq(v@.subrange(0, i as int)));
    }
    assert(v@.subrange(0, v@.len() as int) =~= v@);
    r
}

/// Whether `a[from..to]` equals `b`.
pub fn slice_eq(a: &Vec<char>, from: usize, to: usize, b: &str) -> (r: bool)
    requires
        from <= to <= a@.len(),
    ensures
        r == (a@.subrange(from as int, to as int) == b@),
{
    let n = b.unicode_len();
    if to - from != n {
        proof {
            if a@.subrange(from as int, to as int) == b@ {
                assert(a@.subrange(from as int, to as int).len() == b@.len());
            }
        }
        return false;
    }
    let mut i: usize = 0;
    while i < n
        invariant
            n == b@.len(),
            to - from == n,
            from <= to <= a@.len(),
            i <= n,
            forall|j: int| 0 <= j < i ==> a@[from + j] == b@[j],
        decreases n - i,
    {
        if a[from + i] != b.get_char(i) {
            proof {
                assert(a@.subrange(from as int, to as int)[i as int] != b@[i as int]);
            }
            return false;
        }
        i = i + 1;
    }
    assert(a@.subrange(from as int, to as int) =~= b@);
    true
}

/// Unicode `White_Space` characters, as recognised by `char::is_whitespace`.
pub open spec fn is_ws(c: char) -> bool {
    ||| ('\u{9}' <= c && c <= '\u{d}')
    ||| c == ' '
    ||| c == '\u{85}'
    ||| c == '\u{a0}'
    ||| c == '\u{1680}'
    ||| ('\u{2000}' <= c && c <= '\u{200a}')
    ||| c == '\u{2028}'
    ||| c == '\u{2029}'
    ||| c == '\u{202f}'
    ||| c == '\u{205f}'
    ||| c == '\u{3000}'
}

pub fn is_whitespace(c: char) -> (r: bool)
    ensures
        r == is_ws(c),
{
    ('\u{9}' <= c && c <= '\u{d}') || c == ' ' || c == '\u{85}' || c == '\u{a0}'
        || c == '\u{1680}' || ('\u{2000}' <= c && c <= '\u{200a}') || c == '\u{2028}'
        || c == '\u{2029}' || c == '\u{202f}' || c == '\u{205f}' || c == '\u{3000}'
}

/// Index of the first non-whitespace character at or after `from` (or `to`).
pub open spec fn trim_start_at(s: Seq<char>, from: int, to: int) -> int
    decreases to - from,
{
    if from >= to {
        to
    } else if is_ws(s[from]) {
        trim_start_at(s, from + 1, to)
    } else {
        from
    }
}

/// One past the last non-whitespace character before `to` (or `from`).
pub open spec fn trim_end_at(s: Seq<char>, from: int, to: int) -> int
    decreases to - from,
{
    if to <= from {
        from
    } else if is_ws(s[to - 1]) {
        trim_end_at(s, from, to - 1)
    } else {
        to
    }
}

pub(crate) proof fn lemma_trim_start_bounds(s: Seq<char>, from: int, to: int)
    requires
        from <= to,
    ensures
        from <= trim_start_at(s, from, to) <= to,
    decreases to - from,
{
    if from < to && is_ws(s[from]) {
        lemma_trim_start_bounds(s, from + 1, to);
    }
}

pub(crate) proof fn lemma_trim_end_bounds(s: Seq<char>, from: int, to: int)
    requires
        from <= to,
    ensures
        from <= trim_end_at(s, from, to) <= to,
    decreases to - from,
{
    if from < to && is_ws(s[to - 1]) {
        lemma_trim_end_bounds(s, from, to - 1);
    }
}

/// Skips leading whitespace in `v[from..to]`.
pub fn skip_ws_start(v: &Vec<char>, from: usize, to: usize) -> (r: usize)
    requires
        from <= to <= v@.len(),
    ensures
        r == trim_start_at(v@, from as int, to as int),
        from <= r <= to,
{
    proof {
        lemma_trim_start_bounds(v@, from as int, to as int);
    }
    let mut i = from;
    while i < to && is_whitespace(v[i])
        invariant
            from <= i <= to,
            to <= v@.len(),
            trim_start_at(v@, i as int, to as int) == trim_start_at(v@, from as int, to as int),
        decreases to - i,
    {
        i = i + 1;
    }
    i
}

/// Drops trailing whitespace in `v[from..to]`.
pub fn skip_ws_end(v: &Vec<char>, from: usize, to: usize) -> (r: usize)
    requires
        from <= to <= v@.len(),
    ensures
        r == trim_end_at(v@, from as int, to as int),
        from <= r <= to,
{
    proof {
        lemma_trim_end_bounds(v@, from as int, to as int);
    }
    let mut j = to;
    while j > from && is_whitespace(v[j - 1])
        invariant
            from <= j <= to,
            to <= v@.len(),
            trim_end_at(v@, from as int, j as int) == trim_end_at(v@, from as int, to as int),
        decreases j - from,
    {
        j = j - 1;
    }
    j
}

/// `str::trim` on a character sequence.
pub open spec fn trim_seq(s: Seq<char>) -> Seq<char> {
    let a = trim_start_at(s, 0, s.len() as int);
    let b = trim_end_at(s, a, s.len() as int);
    s.subrange(a, b)
}

/// Decimal digit character for `0 <= d < 10`.
pub open spec fn digit_char(d: int) -> char {
    ((d + 48) as u32) as char
}

/// The decimal representation of a natural number (no sign, no padding).
pub open spec fn decimal(n: nat) -> Seq<char>
    decreases n,
{
    if n < 10 {
        seq![digit_char(n as int)]
    } else {
        decimal(n / 10).push(digit_char((n % 10) as int))
    }
}

/// The decimal representation of an integer, with a leading `-` when negative.
pub open spec fn signed_decimal(n: int) -> Seq<char> {
    if n < 0 {
        seq!['-'] + decimal((-n) as nat)
    } else {
        decimal(n as nat)
    }
}

fn digit(d: u128) -> (c: char)
    requires
        d < 10,
    ensures
        c == digit_char(d as int),
{
    let code: u8 = (d as u8) + 48;
    code as char
}

/// Appends the decimal representation of `n`.
pub fn push_decimal(s: &mut String, n: u128)
    ensures
        final(s)@ == old(s)@ + decimal(n as nat),
    decreases n,
{
    if n >= 10 {
        push_decimal(s, n / 10);
    }
    push_char(s, digit(n % 10));
    proof {
        if n >= 10 {
            assert(decimal(n as nat) == decimal((n / 10) as nat).push(digit_char((n % 10) as int)));
        }
    }
    assert(final(s)@ =~= old(s)@ + decimal(n as nat));
}

/// Appends the decimal representation of a signed integer.
pub fn push_signed(s: &mut String, n: i128)
    requires
        n > i128::MIN,
    ensures
        final(s)@ == old(s)@ + signed_decimal(n as int),
{
    if n < 0 {
        push_char(s, '-');
        push_decimal(s, (-n) as u128);
    } else {
        push_decimal(s, n as u128);
    }
    assert(final(s)@ =~= old(s)@ + signed_decimal(n as int));
}

/// The decimal representation of `n` as a new string.
pub fn decimal_string(n: u128) -> (s: String)
    ensures
        s@ == decimal(n as nat),
{
    let mut s = String::new();
    push_decimal(&mut s, n);
    assert(s@ =~= decimal(n as nat));
    s
}

pub open spec fn is_digit(c: char) -> bool {
    '0' <= c && c <= '9'
}

/// Value of a run of decimal digits.
pub open spec fn digits_value(s: Seq<char>) -> nat
    decreases s.len(),
{
    if s.len() == 0 {
        0
    } else {
        (digits_value(s.drop_last()) * 10 + ((s.last() as int) - 48)) as nat
    }
}

/// The digit part of an unsigned number: everything after an optional `+`.
pub open spec fn unsigned_digits(s: Seq<char>) -> Seq<char> {
    if s.len() > 0 && s[0] == '+' {
        s.skip(1)
    } else {
        s
    }
}

/// Every character is a decimal digit.
pub open spec fn all_digits(s: Seq<char>) -> bool {
    forall|i: int| 0 <= i < s.len() ==> is_digit(#[trigger] s[i])
}

/// What `u32::from_str` accepts: an optional `+`, then one or more decimal
/// digits, whose value fits in a `u32`.
pub open spec fn parse_u32_spec(s: Seq<char>) -> Option<u32> {
    let digits = unsigned_digits(s);
    if digits.len() > 0 && all_digits(digits) && digits_value(digits) <= u32::MAX {
        Some(digits_value(digits) as u32)
    } else {
        None
    }
}

proof fn lemma_digits_value_monotone(s: Seq<char>, i: int, j: int)
    requires
        0 <= i <= j <= s.len(),
        forall|k: int| 0 <= k < s.len() ==> is_digit(s[k]),
    ensures
        digits_value(s.take(i)) <= digits_value(s.take(j)),
    decreases j - i,
{
    if i < j {
        lemma_digits_value_monotone(s, i, j - 1);
        assert(s.take(j).drop_last() =~= s.take(j - 1));
    }
}

/// Parses `v[from..to]` the way `u32::from_str` does.
#[verifier::loop_isolation(false)]
pub fn parse_u32(v: &Vec<char>, from: usize, to: usize) -> (r: Option<u32>)
    requires
        from <= to <= v@.len(),
    ensures
        r == parse_u32_spec(v@.subrange(from as int, to as int)),
{
    let ghost s = v@.subrange(from as int, to as int);
    let start: usize = if from < to && v[from] == '+' {
        from + 1
    } else {
        from
    };
    let ghost digits = v@.subrange(start as int, to as int);
    assert(digits =~= unsigned_digits(s));
    if start == to {
        return None;
    }
    let mut i: usize = start;
    while i < to
        invariant
            start <= i <= to,
            to <= v@.len(),
            digits == v@.subrange(start as int, to as int),
            forall|k: int| start <= k < i ==> is_digit(v@[k]),
        decreases to - i,
    {
        if !('0' <= v[i] && v[i] <= '9') {
            assert(digits[i - start] == v@[i as int]);
            assert(!is_digit(digits[i - start]));
            assert(!all_digits(digits));
            assert(s == v@.subrange(from as int, to as int));
            return None;
        }
        i = i + 1;
    }
    assert(forall|k: int| 0 <= k < digits.len() ==> is_digit(digits[k]));
    let mut acc: u64 = 0;
    let mut i: usize = start;
    while i < to
        invariant
            start <= i <= to,
            to <= v@.len(),
            digits == v@.subrange(start as int, to as int),
            forall|k: int| 0 <= k < digits.len() ==> is_digit(digits[k]),
            acc == digits_value(digits.take(i - start)),
            acc <= u32::MAX,
        decreases to - i,
    {
        assert(digits[i - start] == v@[i as int]);
        assert(is_digit(v@[i as int]));
        let d: u64 = ((v[i] as u32) - 48) as u64;
        assert(digits.take(i - start + 1).drop_last() =~= digits.take(i - start));
        assert(digits.take(i - start + 1).last() == v@[i as int]);
        let next: u64 = acc * 10 + d;
        assert(next == digits_value(digits.take(i - start + 1)));
        if next > 0xffff_ffff {
            proof {
                lemma_digits_value_monotone(digits, i - start + 1, digits.len() as int);
                assert(digits.take(digits.len() as int) =~= digits);
            }
            assert(s == v@.subrange(from as int, to as int));
            return None;
        }
        acc = next;
        i = i + 1;
    }
    assert(digits.take(digits.len() as int) =~= digits);
    Some(acc as u32)
}


/// `k` zero characters.
pub open spec fn zeros(k: nat) -> Seq<char> {
    Seq::new(k, |i: int| '0')
}

/// `n` in decimal, left-padded with zeros to at least `w` characters.
pub open spec fn padded(n: nat, w: nat) -> Seq<char> {
    if decimal(n).len() < w {
        zeros((w - decimal(n).len()) as nat) + decimal(n)
    } else {
        decimal(n)
    }
}

/// Number of decimal digits of `n`.
pub fn decimal_len(n: u128) -> (k: usize)
    ensures
        k == decimal(n as nat).len(),
        1 <= k <= 39,
    decreases n,
{
    if n < 10 {
        1
    } else {
        let k = decimal_len(n / 10);
        assert(decimal(n as nat) == decimal((n / 10) as nat).push(digit_char((n % 10) as int)));
        proof {
            lemma_decimal_len_bound(n as nat);
        }
        k + 1
    }
}

/// `10^k`.
pub open spec fn pow10(k: nat) -> nat
    decreases k,
{
    if k == 0 {
        1
    } else {
        10 * pow10((k - 1) as nat)
    }
}

/// Every `u128` has at most 39 decimal digits.
pub proof fn lemma_decimal_len_bound(n: nat)
    requires
        n < 1_000_000_000_000_000_000_000_000_000_000_000_000_000,
    ensures
        decimal(n).len() <= 39,
{
    assert(pow10(39) == 1_000_000_000_000_000_000_000_000_000_000_000_000_000) by {
        reveal_with_fuel(pow10, 40);
    }
    lemma_decimal_len_small(n, 39);
}

/// Numbers below `10^k` have at most `k` digits.
pub(crate) proof fn lemma_decimal_len_small(n: nat, k: nat)
    requires
        k >= 1,
        n < pow10(k),
    ensures
        decimal(n).len() <= k,
    decreases k,
{
    if n >= 10 {
        if k == 1 {
            assert(pow10(1) == 10) by {
                reveal_with_fuel(pow10, 2);
            }
        } else {
            assert(n / 10 < pow10((k - 1) as nat)) by (nonlinear_arith)
                requires
                    n < 10 * pow10((k - 1) as nat),
            ;
            lemma_decimal_len_small(n / 10, (k - 1) as nat);
        }
    }
}

/// Appends `n` in decimal, zero-padded to at least `w` characters.
pub fn push_padded(s: &mut String, n: u128, w: usize)
    ensures
        final(s)@ == old(s)@ + padded(n as nat, w as nat),
{
    let k = decimal_len(n);
    let ghost start = s@;
    if k < w {
        let mut i: usize = k;
        while i < w
            invariant
                k <= i <= w,
                s@ == start + zeros((i - k) as nat),
            decreases w - i,
        {
            push_char(s, '0');
            i = i + 1;
            assert(s@ =~= start + zeros((i - k) as nat));
        }
    }
    push_decimal(s, n);
    assert(s@ =~= start + padded(n as nat, w as nat));
}

/// Views of a list of strings.
pub open spec fn views(v: Seq<String>) -> Seq<Seq<char>> {
    v.map_values(|s: String| s@)
}

/// Parses `v[from..to]` as one or more decimal digits whose value is at
/// most `cap`.
pub fn parse_digits_capped(v: &Vec<char>, from: usize, to: usize, cap: u64) -> (r: Option<u64>)
    requires
        from <= to <= v@.len(),
    ensures
        ({
            let d = v@.subrange(from as int, to as int);
            if d.len() > 0 && all_digits(d) && digits_value(d) <= cap {
                r == Some(digits_value(d) as u64)
            } else {
                r is None
            }
        }),
{
    let ghost digits = v@.subrange(from as int, to as int);
    if from == to {
        return None;
    }
    let mut i: usize = from;
    while i < to
        invariant
            from <= i <= to,
            to <= v@.len(),
            digits == v@.subrange(from as int, to as int),
            forall|k: int| from <= k < i ==> is_digit(v@[k]),
        decreases to - i,
    {
        if !('0' <= v[i] && v[i] <= '9') {
            assert(digits[i - from] == v@[i as int]);
            assert(!is_digit(digits[i - from]));
            return None;
        }
        i = i + 1;
    }
    assert(forall|k: int| 0 <= k < digits.len() ==> is_digit(digits[k]));
    let mut acc: u64 = 0;
    let mut i: usize = from;
    while i < to
        invariant
            from <= i <= to,
            to <= v@.len(),
            digits == v@.subrange(from as int, to as int),
            forall|k: int| 0 <= k < digits.len() ==> is_digit(digits[k]),
            acc == digits_value(digits.take(i - from)),
            acc <= cap,
        decreases to - i,
    {
        assert(digits[i - from] == v@[i as int]);
        assert(is_digit(v@[i as int]));
        let d: u128 = ((v[i] as u32) - 48) as u128;
        assert(digits.take(i - from + 1).drop_last() =~= digits.take(i - from));
        assert(digits.take(i - from + 1).last() == v@[i as int]);
        let next: u128 = (acc as u128) * 10 + d;
        assert(next == digits_value(digits.take(i - from + 1)));
        if next > cap as u128 {
            proof {
                lemma_digits_value_monotone(digits, i - from + 1, digits.len() as int);
                assert(digits.take(digits.len() as int) =~= digits);
            }
            return None;
        }
        acc = next as u64;
        i = i + 1;
    }
    assert(digits.take(digits.len() as int) =~= digits);
    Some(acc)
}

/// What `i64::from_str` accepts: an optional sign, then one or more
/// decimal digits, whose value fits in an `i64`.
pub open spec fn parse_i64_spec(s: Seq<char>) -> Option<i64> {
    if s.len() > 0 && s[0] == '-' {
        let d = s.skip(1);
        if d.len() > 0 && all_digits(d) && digits_value(d) <= 0x8000_0000_0000_0000 {
            Some((-(digits_value(d) as int)) as i64)
        } else {
            None
        }
    } else {
        let d = unsigned_digits(s);
        if d.len() > 0 && all_digits(d) && digits_value(d) <= i64::MAX {
            Some(digits_value(d) as i64)
        } else {
            None
        }
    }
}

/// Parses `v[from..to]` the way `i64::from_str` does.
pub fn parse_i64(v: &Vec<char>, from: usize, to: usize) -> (r: Option<i64>)
    requires
        from <= to <= v@.len(),
    ensures
        r == parse_i64_spec(v@.subrange(from as int, to as int)),
{
    let ghost s = v@.subrange(from as int, to as int);
    if from < to && v[from] == '-' {
        assert(s.skip(1) =~= v@.subrange(from + 1, to as int));
        match parse_digits_capped(v, from + 1, to, 0x8000_0000_0000_0000) {
            Some(m) => {
                if m == 0x8000_0000_0000_0000 {
                    Some(i64::MIN)
                } else {
                    Some(-(m as i64))
                }
            },
            None => None,
        }
    } else {
        let start: usize = if from < to && v[from] == '+' {
            from + 1
        } else {
            from
        };
        assert(unsigned_digits(s) =~= v@.subrange(start as int, to as int));
        match parse_digits_capped(v, start, to, 0x7fff_ffff_ffff_ffff) {
            Some(m) => Some(m as i64),
            None => None,
        }
    }
}

} // verus!
