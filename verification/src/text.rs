//! Character-level helpers over `str`, specified over the string's view.
use vstd::prelude::*;
use vstd::string::*;

verus! {

/// Compares two strings character by character.
pub fn str_eq(a: &str, b: &str) -> (r: bool)
    ensures
        r == (a@ == b@),
{
    let n = a.unicode_len();
    let m = b.unicode_len();
    if n != m {
        return false;
    }
    let mut i: usize = 0;
    while i < n
        invariant
            n == a@.len(),
            m == b@.len(),
            n == m,
            i <= n,
            forall|j: int| 0 <= j < i ==> a@[j] == b@[j],
        decreases n - i,
    {
        if a.get_char(i) != b.get_char(i) {
            return false;
        }
        i = i + 1;
    }
    assert(a@ =~= b@);
    true
}


/// `needle` occurs in `hay` starting at position `i`.
pub open spec fn occurs_at(hay: Seq<char>, needle: Seq<char>, i: int) -> bool {
    0 <= i && i + needle.len() <= hay.len() && hay.subrange(i, i + needle.len()) == needle
}

/// `needle` occurs somewhere in `hay`.
pub open spec fn seq_contains(hay: Seq<char>, needle: Seq<char>) -> bool {
    exists|i: int| occurs_at(hay, needle, i)
}

/// Whether `needle` occurs in `hay` as a run of consecutive characters.
pub fn str_contains(hay: &str, needle: &str) -> (r: bool)
    ensures
        r == seq_contains(hay@, needle@),
{
    let n = hay.unicode_len();
    let m = needle.unicode_len();
    if m > n {
        assert(!exists|i: int| occurs_at(hay@, needle@, i));
        return false;
    }
    let mut i: usize = 0;
    while i <= n - m
        invariant
            n == hay@.len(),
            m == needle@.len(),
            m <= n,
            i <= n - m + 1,
            forall|j: int| 0 <= j < i ==> !occurs_at(hay@, needle@, j),
        decreases n - m + 1 - i,
    {
        let mut k: usize = 0;
        while k < m && hay.get_char(i + k) == needle.get_char(k)
            invariant
                n == hay@.len(),
                m == needle@.len(),
                i + m <= n,
                k <= m,
                forall|q: int| 0 <= q < k ==> hay@[i + q] == needle@[q],
            decreases m - k,
        {
            k = k + 1;
        }
        if k == m {
            assert(hay@.subrange(i as int, i + m) =~= needle@);
            assert(occurs_at(hay@, needle@, i as int));
            return true;
        }
        assert(hay@.subrange(i as int, i + m)[k as int] != needle@[k as int]);
        i = i + 1;
    }
    assert forall|j: int| occurs_at(hay@, needle@, j) implies false by {
        assert(j < i);
    }
    false
}

/// `s` with every leading repetition of `pat` removed.
pub open spec fn strip_leading(s: Seq<char>, pat: Seq<char>) -> Seq<char>
    decreases s.len(),
{
    if pat.len() > 0 && pat.len() <= s.len() && s.subrange(0, pat.len() as int) == pat {
        strip_leading(s.subrange(pat.len() as int, s.len() as int), pat)
    } else {
        s
    }
}

/// `s` without one leading `pat`, when it starts with one.
pub open spec fn strip_once(s: Seq<char>, pat: Seq<char>) -> Seq<char> {
    if pat.len() <= s.len() && s.subrange(0, pat.len() as int) == pat {
        s.subrange(pat.len() as int, s.len() as int)
    } else {
        s
    }
}

/// Removes one leading `pat` from `s`, when it starts with one.
pub fn strip_prefix_once<'a>(s: &'a str, pat: &str) -> (r: &'a str)
    ensures
        r@ == strip_once(s@, pat@),
{
    let n = s.unicode_len();
    let m = pat.unicode_len();
    if m <= n && str_eq(s.substring_char(0, m), pat) {
        s.substring_char(m, n)
    } else {
        s
    }
}

/// Removes every leading repetition of `pat` from `s`.
pub fn trim_start_matches<'a>(s: &'a str, pat: &str) -> (r: &'a str)
    ensures
        r@ == strip_leading(s@, pat@),
{
    let n = s.unicode_len();
    let m = pat.unicode_len();
    let mut start: usize = 0;
    if m == 0 {
        return s;
    }
    assert(s@.subrange(0, n as int) =~= s@);
    while m <= n - start && str_eq(s.substring_char(start, start + m), pat)
        invariant
            n == s@.len(),
            m == pat@.len(),
            m > 0,
            start <= n,
            strip_leading(s@.subrange(start as int, n as int), pat@) == strip_leading(s@, pat@),
        decreases n - start,
    {
        proof {
            let rest = s@.subrange(start as int, n as int);
            assert(rest.subrange(0, m as int) =~= s@.subrange(start as int, start + m));
            assert(rest.subrange(m as int, rest.len() as int) =~= s@.subrange(start + m, n as int));
        }
        start = start + m;
    }
    proof {
        let rest = s@.subrange(start as int, n as int);
        if start + m <= n {
            assert(rest.subrange(0, m as int) =~= s@.subrange(start as int, start + m));
        }
    }
    s.substring_char(start, n)
}


/// The characters with the Unicode `White_Space` property, which
/// `char::is_whitespace` tests and `str::trim` removes.
pub open spec fn is_white_space(c: char) -> bool {
    ||| '\u{9}' <= c <= '\u{d}'
    ||| c == ' '
    ||| c == '\u{85}'
    ||| c == '\u{a0}'
    ||| c == '\u{1680}'
    ||| '\u{2000}' <= c <= '\u{200a}'
    ||| c == '\u{2028}'
    ||| c == '\u{2029}'
    ||| c == '\u{202f}'
    ||| c == '\u{205f}'
    ||| c == '\u{3000}'
}

pub fn white_space(c: char) -> (r: bool)
    ensures
        r == is_white_space(c),
{
    ('\u{9}' <= c && c <= '\u{d}') || c == ' ' || c == '\u{85}' || c == '\u{a0}' || c == '\u{1680}' || (
    '\u{2000}' <= c && c <= '\u{200a}') || c == '\u{2028}' || c == '\u{2029}' || c == '\u{202f}' || c
        == '\u{205f}' || c == '\u{3000}'
}

/// `s` without its leading and trailing white space: the part from the
/// first to the last other character, empty when there is none.
#[verifier::opaque]
pub open spec fn trimmed(s: Seq<char>) -> Seq<char> {
    if exists|i: int| 0 <= i < s.len() && !is_white_space(s[i]) {
        let a = choose|a: int|
            0 <= a < s.len() && !is_white_space(s[a]) && forall|j: int| 0 <= j < a ==> is_white_space(s[j]);
        let b = choose|b: int|
            0 <= b < s.len() && !is_white_space(s[b]) && forall|j: int| b < j < s.len() ==> is_white_space(
                s[j],
            );
        s.subrange(a, b + 1)
    } else {
        Seq::empty()
    }
}

/// Removes leading and trailing white space.
pub fn trim(s: &str) -> (r: &str)
    ensures
        r@ == trimmed(s@),
{
    reveal(trimmed);
    let n = s.unicode_len();
    let mut a: usize = 0;
    while a < n && white_space(s.get_char(a))
        invariant
            n == s@.len(),
            a <= n,
            forall|j: int| 0 <= j < a ==> is_white_space(s@[j]),
        decreases n - a,
    {
        a = a + 1;
    }
    if a == n {
        assert(!exists|i: int| 0 <= i < s@.len() && !is_white_space(s@[i]));
        return s.substring_char(0, 0);
    }
    let mut b: usize = n - 1;
    while white_space(s.get_char(b))
        invariant
            n == s@.len(),
            a < n,
            !is_white_space(s@[a as int]),
            a <= b < n,
            forall|j: int| b < j < n ==> is_white_space(s@[j]),
        decreases b,
    {
        b = b - 1;
    }
    proof {
        assert(exists|i: int| 0 <= i < s@.len() && !is_white_space(s@[i]));
        let ca = choose|ca: int|
            0 <= ca < s@.len() && !is_white_space(s@[ca]) && forall|j: int| 0 <= j < ca ==> is_white_space(
                s@[j],
            );
        let cb = choose|cb: int|
            0 <= cb < s@.len() && !is_white_space(s@[cb]) && forall|j: int| cb < j < s@.len()
                ==> is_white_space(s@[j]);
        assert(0 <= a < s@.len() && !is_white_space(s@[a as int]) && forall|j: int|
            0 <= j < a ==> is_white_space(s@[j]));
        assert(0 <= b < s@.len() && !is_white_space(s@[b as int]) && forall|j: int|
            b < j < s@.len() ==> is_white_space(s@[j]));
        assert(ca == a) by {
            if ca < a {
            } else if ca > a {
            }
        }
        assert(cb == b) by {
            if cb < b {
            } else if cb > b {
            }
        }
    }
    s.substring_char(a, b + 1)
}

/// The value of a run of decimal digits.
pub open spec fn digits_value(s: Seq<char>) -> int
    decreases s.len(),
{
    if s.len() == 0 {
        0
    } else {
        digits_value(s.drop_last()) * 10 + (s.last() as int - '0' as int)
    }
}

pub open spec fn all_digits(s: Seq<char>) -> bool {
    forall|i: int| 0 <= i < s.len() ==> '0' <= #[trigger] s[i] <= '9'
}

/// What parsing `s` as a `u64` gives: an optional `+`, then at least one
/// decimal digit, and a value that fits.
pub open spec fn u64_parsed(s: Seq<char>) -> Option<u64> {
    let d = if s.len() > 0 && s[0] == '+' {
        s.subrange(1, s.len() as int)
    } else {
        s
    };
    if d.len() > 0 && all_digits(d) && digits_value(d) <= u64::MAX {
        Some(digits_value(d) as u64)
    } else {
        None
    }
}

proof fn lemma_digits_value_nonneg(s: Seq<char>)
    requires
        all_digits(s),
    ensures
        digits_value(s) >= 0,
    decreases s.len(),
{
    if s.len() > 0 {
        assert(all_digits(s.drop_last()));
        lemma_digits_value_nonneg(s.drop_last());
    }
}

proof fn lemma_digits_value_monotone(s: Seq<char>, k: int)
    requires
        all_digits(s),
        0 <= k <= s.len(),
    ensures
        digits_value(s.subrange(0, k)) <= digits_value(s),
    decreases s.len() - k,
{
    if k < s.len() {
        lemma_digits_value_monotone(s, k + 1);
        assert(s.subrange(0, k + 1).drop_last() =~= s.subrange(0, k));
        assert(all_digits(s.subrange(0, k)));
        lemma_digits_value_nonneg(s.subrange(0, k));
    } else {
        assert(s.subrange(0, k) =~= s);
    }
}

/// Parses `s` as a `u64`, as `str::parse::<u64>` does.
pub fn parse_u64(s: &str) -> (r: Option<u64>)
    ensures
        r == u64_parsed(s@),
{
    let n = s.unicode_len();
    let mut i: usize = 0;
    if n > 0 && s.get_char(0) == '+' {
        i = 1;
    }
    let ghost d = if s@.len() > 0 && s@[0] == '+' {
        s@.subrange(1, s@.len() as int)
    } else {
        s@
    };
    let start = i;
    assert(d =~= s@.subrange(start as int, n as int));
    if start == n {
        return None;
    }
    let mut value: u64 = 0;
    while i < n
        invariant
            n == s@.len(),
            start <= i <= n,
            start < n,
            d == s@.subrange(start as int, n as int),
            d == if s@.len() > 0 && s@[0] == '+' {
                s@.subrange(1, s@.len() as int)
            } else {
                s@
            },
            all_digits(d.subrange(0, i - start)),
            value == digits_value(d.subrange(0, i - start)),
        decreases n - i,
    {
        let c = s.get_char(i);
        assert(d.subrange(0, i + 1 - start).drop_last() =~= d.subrange(0, i - start));
        if !('0' <= c && c <= '9') {
            assert(!all_digits(d)) by {
                assert(d[i - start] == c);
            }
            return None;
        }
        let digit: u64 = (c as u32 - '0' as u32) as u64;
        assert(all_digits(d.subrange(0, i + 1 - start)));
        if value > (u64::MAX - digit) / 10 {
            proof {
                assert(value * 10 + digit > u64::MAX) by (nonlinear_arith)
                    requires
                        value > (u64::MAX - digit) / 10,
                        digit <= 9,
                ;
                assert(digits_value(d.subrange(0, i + 1 - start)) == value * 10 + digit);
                if all_digits(d) {
                    lemma_digits_value_monotone(d, i + 1 - start);
                }
            }
            return None;
        }
        assert(value * 10 + digit <= u64::MAX) by (nonlinear_arith)
            requires
                value <= (u64::MAX - digit) / 10,
                digit <= 9,
        ;
        value = value * 10 + digit;
        i = i + 1;
    }
    assert(d.subrange(0, n - start) =~= d);
    Some(value)
}


/// The character of decimal digit `d`.
pub open spec fn digit_char(d: nat) -> char {
    ('0' as int + d) as char
}

/// The decimal text of `v`, without leading zeros.
pub open spec fn decimal_text(v: nat) -> Seq<char>
    decreases v,
{
    if v < 10 {
        seq![digit_char(v)]
    } else {
        decimal_text(v / 10).push(digit_char(v % 10))
    }
}

fn digit_str(d: u128) -> (r: &'static str)
    requires
        d < 10,
    ensures
        r@ == seq![digit_char(d as nat)],
{
    proof {
        reveal_strlit("0");
        reveal_strlit("1");
        reveal_strlit("2");
        reveal_strlit("3");
        reveal_strlit("4");
        reveal_strlit("5");
        reveal_strlit("6");
        reveal_strlit("7");
        reveal_strlit("8");
        reveal_strlit("9");
    }
    match d {
        0 => "0",
        1 => "1",
        2 => "2",
        3 => "3",
        4 => "4",
        5 => "5",
        6 => "6",
        7 => "7",
        8 => "8",
        _ => "9",
    }
}

/// Appends the decimal text of `v`.
pub fn push_decimal(v: u128, out: &mut String)
    ensures
        final(out)@ == old(out)@ + decimal_text(v as nat),
    decreases v,
{
    if v >= 10 {
        push_decimal(v / 10, out);
    }
    out.append(digit_str(v % 10));
    proof {
        if v < 10 {
            assert(v % 10 == v);
        }
    }
}

/// The decimal text of `v`.
pub fn decimal(v: u128) -> (r: String)
    ensures
        r@ == decimal_text(v as nat),
{
    let mut out = String::new();
    push_decimal(v, &mut out);
    assert(out@ =~= decimal_text(v as nat));
    out
}

/// `n` zero characters.
pub open spec fn zeros(n: nat) -> Seq<char> {
    Seq::new(n, |i: int| '0')
}

/// `s` padded on the left with zeros to width `w`.
pub open spec fn zero_padded(s: Seq<char>, w: nat) -> Seq<char> {
    if s.len() >= w {
        s
    } else {
        zeros((w - s.len()) as nat) + s
    }
}

/// Appends the decimal text of `v`, padded on the left with zeros to width `w`.
pub fn push_decimal_padded(v: u128, w: usize, out: &mut String)
    ensures
        final(out)@ == old(out)@ + zero_padded(decimal_text(v as nat), w as nat),
{
    let digits = decimal(v);
    let n = digits.as_str().unicode_len();
    let ghost start = out@;
    if n < w {
        let mut k: usize = 0;
        while k < w - n
            invariant
                n < w,
                k <= w - n,
                out@ == start + zeros(k as nat),
            decreases w - n - k,
        {
            out.append("0");
            proof {
                reveal_strlit("0");
                assert(zeros((k + 1) as nat) =~= zeros(k as nat).push('0'));
            }
            k = k + 1;
        }
    }
    out.append(digits.as_str());
    proof {
        if n < w {
            assert(out@ =~= start + zero_padded(decimal_text(v as nat), w as nat));
        } else {
            assert(out@ =~= start + zero_padded(decimal_text(v as nat), w as nat));
        }
    }
}

/// The lowercase hexadecimal digit of `d`.
pub open spec fn hex_char(d: nat) -> char {
    if d < 10 {
        ('0' as int + d) as char
    } else {
        ('a' as int + d - 10) as char
    }
}

/// The lowercase hexadecimal text of bytes, two digits per byte.
pub open spec fn hex_text(s: Seq<u8>) -> Seq<char>
    decreases s.len(),
{
    if s.len() == 0 {
        Seq::empty()
    } else {
        hex_text(s.drop_last()) + seq![hex_char(s.last() as nat / 16), hex_char(s.last() as nat % 16)]
    }
}

fn hex_digit_str(d: u8) -> (r: &'static str)
    requires
        d < 16,
    ensures
        r@ == seq![hex_char(d as nat)],
{
    proof {
        reveal_strlit("0");
        reveal_strlit("1");
        reveal_strlit("2");
        reveal_strlit("3");
        reveal_strlit("4");
        reveal_strlit("5");
        reveal_strlit("6");
        reveal_strlit("7");
        reveal_strlit("8");
        reveal_strlit("9");
        reveal_strlit("a");
        reveal_strlit("b");
        reveal_strlit("c");
        reveal_strlit("d");
        reveal_strlit("e");
        reveal_strlit("f");
    }
    match d {
        0 => "0",
        1 => "1",
        2 => "2",
        3 => "3",
        4 => "4",
        5 => "5",
        6 => "6",
        7 => "7",
        8 => "8",
        9 => "9",
        10 => "a",
        11 => "b",
        12 => "c",
        13 => "d",
        14 => "e",
        _ => "f",
    }
}

/// Appends the lowercase hexadecimal text of `bytes`.
pub fn push_hex(bytes: &[u8], out: &mut String)
    ensures
        final(out)@ == old(out)@ + hex_text(bytes@),
{
    let ghost start = out@;
    let mut i: usize = 0;
    while i < bytes.len()
        invariant
            i <= bytes@.len(),
            out@ == start + hex_text(bytes@.subrange(0, i as int)),
        decreases bytes@.len() - i,
    {
        let b = bytes[i];
        out.append(hex_digit_str(b / 16));
        out.append(hex_digit_str(b % 16));
        proof {
            assert(bytes@.subrange(0, i + 1 as int).drop_last() =~= bytes@.subrange(0, i as int));
            assert(out@ =~= start + hex_text(bytes@.subrange(0, i + 1 as int)));
        }
        i = i + 1;
    }
    assert(bytes@.subrange(0, bytes@.len() as int) =~= bytes@);
}

} // verus!
