//! Parsers of the `alloy` crate that the library calls, and what each
//! reads, stated as its source shows it.
use std::str::FromStr;

use alloy::primitives::{Address, U256};
use vstd::prelude::*;

verus! {

/// The value of an ASCII digit or letter: `0`-`9` are 0 to 9, and `a`-`z`
/// (in either case) are 10 to 35.
pub open spec fn digit_value(c: char) -> Option<nat> {
    let v = c as int;
    if 48 <= v <= 57 {
        Some((v - 48) as nat)
    } else if 97 <= v <= 122 {
        Some((v - 87) as nat)
    } else if 65 <= v <= 90 {
        Some((v - 55) as nat)
    } else {
        None
    }
}

/// `c` is a hexadecimal digit, in either case.
pub open spec fn is_hex_digit(c: char) -> bool {
    digit_value(c) matches Some(d) && d < 16
}

/// The text after a leading `0x` or `0X`, or the whole text.
pub open spec fn after_hex_prefix(s: Seq<char>) -> Seq<char> {
    if s.len() >= 2 && s[0] == '0' && (s[1] == 'x' || s[1] == 'X') {
        s.skip(2)
    } else {
        s
    }
}

/// What `Address::from_str` of `alloy::primitives` reads from a text: after
/// an optional `0x` or `0X`, exactly 40 hexadecimal digits in either case,
/// two to a byte, the first of each pair the high half; else `None`.
pub open spec fn address_from_str(s: Seq<char>) -> Option<Seq<u8>> {
    let d = after_hex_prefix(s);
    if d.len() == 40 && forall|i: int| 0 <= i < 40 ==> #[trigger] is_hex_digit(d[i]) {
        Some(
            Seq::new(
                20,
                |i: int|
                    (digit_value(d[2 * i]).unwrap() * 16 + digit_value(d[2 * i + 1]).unwrap()) as u8,
            ),
        )
    } else {
        None
    }
}

/// The number a text writes in base `radix` (2 to 36), skipping `_`; `None`
/// when another character is not a digit below the radix.
pub open spec fn radix_value(s: Seq<char>, radix: nat) -> Option<nat>
    decreases s.len(),
{
    if s.len() == 0 {
        Some(0)
    } else {
        match radix_value(s.drop_last(), radix) {
            None => None,
            Some(v) => if s.last() == '_' {
                Some(v)
            } else {
                match digit_value(s.last()) {
                    Some(d) => if d < radix {
                        Some(v * radix + d)
                    } else {
                        None
                    },
                    None => None,
                }
            },
        }
    }
}

/// `2^64`.
pub open spec fn limb_base() -> nat {
    0x1_0000_0000_0000_0000
}

/// The four little-endian 64-bit limbs of a number below `2^256`.
pub open spec fn limbs_of(v: nat) -> Seq<u64> {
    let b = limb_base();
    seq![
        (v % b) as u64,
        (v / b % b) as u64,
        (v / (b * b) % b) as u64,
        (v / (b * b * b) % b) as u64,
    ]
}

/// `2^256`.
pub open spec fn u256_modulus() -> nat {
    limb_base() * limb_base() * limb_base() * limb_base()
}

/// The number that four little-endian 64-bit limbs hold.
pub open spec fn u256_value(l: Seq<u64>) -> nat {
    l[0] as nat + l[1] as nat * limb_base() + l[2] as nat * (limb_base() * limb_base()) + l[3] as nat * (
    limb_base() * limb_base() * limb_base())
}

/// Four limbs hold a number below `2^256`.
pub proof fn lemma_u256_value_bound(l: Seq<u64>)
    ensures
        u256_value(l) < u256_modulus(),
{
    let b = limb_base();
    assert(u256_value(l) < u256_modulus()) by (nonlinear_arith)
        requires
            b == 0x1_0000_0000_0000_0000nat,
            l[0] < b,
            l[1] < b,
            l[2] < b,
            l[3] < b,
            u256_value(l) == l[0] as nat + l[1] as nat * b + l[2] as nat * (b * b) + l[3] as nat * (b * b * b),
            u256_modulus() == b * b * b * b,
    ;
}

/// The four limbs that hold `v`, for `v` below `2^256`.
pub open spec fn amount_of(v: nat) -> [u64; 4] {
    choose|a: [u64; 4]| u256_value(a@) == v
}

proof fn lemma_limbs_of_value(l: Seq<u64>)
    requires
        l.len() == 4,
    ensures
        limbs_of(u256_value(l)) == l,
{
    let b = limb_base();
    let v = u256_value(l);
    let q1 = l[1] as nat + l[2] as nat * b + l[3] as nat * (b * b);
    let q2 = l[2] as nat + l[3] as nat * b;
    assert(v == q1 * b + l[0]) by (nonlinear_arith)
        requires
            v == l[0] as nat + l[1] as nat * b + l[2] as nat * (b * b) + l[3] as nat * (b * b * b),
            q1 == l[1] as nat + l[2] as nat * b + l[3] as nat * (b * b),
    ;
    vstd::arithmetic::div_mod::lemma_fundamental_div_mod_converse(v as int, b as int, q1 as int, l[0] as int);
    assert(q1 == q2 * b + l[1]) by (nonlinear_arith)
        requires
            q1 == l[1] as nat + l[2] as nat * b + l[3] as nat * (b * b),
            q2 == l[2] as nat + l[3] as nat * b,
    ;
    vstd::arithmetic::div_mod::lemma_fundamental_div_mod_converse(q1 as int, b as int, q2 as int, l[1] as int);
    vstd::arithmetic::div_mod::lemma_fundamental_div_mod_converse(q2 as int, b as int, l[3] as int, l[2] as int);
    vstd::arithmetic::div_mod::lemma_small_mod(l[3] as nat, b);
    vstd::arithmetic::div_mod::lemma_div_denominator(v as int, b as int, b as int);
    vstd::arithmetic::div_mod::lemma_div_denominator(v as int, (b * b) as int, b as int);
    vstd::arithmetic::div_mod::lemma_div_denominator(q1 as int, b as int, b as int);
    assert(v / (b * b) == q2);
    assert(v / (b * b * b) == l[3]);
    assert(limbs_of(v) =~= l);
}

/// A 256-bit amount is the only one that holds its number.
pub proof fn lemma_amount_of(a: [u64; 4])
    ensures
        amount_of(u256_value(a@)) == a,
{
    let v = u256_value(a@);
    assert(u256_value(a@) == v);
    let c = amount_of(v);
    assert(u256_value(c@) == v);
    lemma_limbs_of_value(a@);
    lemma_limbs_of_value(c@);
    assert(c@ =~= a@);
    vstd::array::axiom_array_ext_equal(c, a);
}

/// Every number below `2^256` is held by some four limbs.
pub proof fn lemma_amount_of_value(v: nat)
    requires
        v < u256_modulus(),
    ensures
        u256_value(amount_of(v)@) == v,
{
    let l = limbs_of(v);
    let a: [u64; 4] = [l[0], l[1], l[2], l[3]];
    assert(a@ =~= l);
    lemma_value_of_limbs(v);
    assert(u256_value(a@) == v);
}

proof fn lemma_value_of_limbs(v: nat)
    requires
        v < u256_modulus(),
    ensures
        u256_value(limbs_of(v)) == v,
{
    let b = limb_base();
    let l = limbs_of(v);
    vstd::arithmetic::div_mod::lemma_fundamental_div_mod(v as int, b as int);
    vstd::arithmetic::div_mod::lemma_fundamental_div_mod((v / b) as int, b as int);
    vstd::arithmetic::div_mod::lemma_fundamental_div_mod((v / b / b) as int, b as int);
    vstd::arithmetic::div_mod::lemma_div_denominator(v as int, b as int, b as int);
    vstd::arithmetic::div_mod::lemma_div_denominator(v as int, (b * b) as int, b as int);
    let q3 = v / (b * b * b);
    assert(q3 < b) by (nonlinear_arith)
        requires
            v < b * b * b * b,
            q3 == v / (b * b * b),
            b > 0,
    ;
    vstd::arithmetic::div_mod::lemma_small_mod(q3, b);
    assert(u256_value(l) == v) by (nonlinear_arith)
        requires
            b == 0x1_0000_0000_0000_0000nat,
            v == b * (v / b) + v % b,
            v / b == b * (v / b / b) + (v / b) % b,
            v / b / b == b * (v / b / b / b) + (v / b / b) % b,
            v / (b * b) == v / b / b,
            v / (b * b * b) == v / b / b / b,
            q3 == v / (b * b * b),
            q3 % b == q3,
            l[0] == v % b,
            l[1] == v / b % b,
            l[2] == v / (b * b) % b,
            l[3] == v / (b * b * b) % b,
            u256_value(l) == l[0] as nat + l[1] as nat * b + l[2] as nat * (b * b) + l[3] as nat * (b * b * b),
    ;
}

/// Four limbs hold zero exactly when every limb is zero.
pub proof fn lemma_u256_zero(l: Seq<u64>)
    ensures
        u256_value(l) == 0 <==> (l[0] == 0 && l[1] == 0 && l[2] == 0 && l[3] == 0),
{
    let b = limb_base();
    assert(u256_value(l) == 0 <==> (l[0] == 0 && l[1] == 0 && l[2] == 0 && l[3] == 0)) by (nonlinear_arith)
        requires
            b == 0x1_0000_0000_0000_0000nat,
            u256_value(l) == l[0] as nat + l[1] as nat * b + l[2] as nat * (b * b) + l[3] as nat * (b * b * b),
    ;
}

/// What `U256::from_str_radix` of `alloy::primitives` (the `ruint` crate)
/// reads from a text in a base from 2 to 36: the number the digits write,
/// `_` skipped, as four little-endian limbs, or `None` when a character is
/// not a digit of the base or the number is `2^256` or more.
pub open spec fn u256_from_str_radix(s: Seq<char>, radix: u64) -> Option<Seq<u64>> {
    match radix_value(s, radix as nat) {
        Some(v) => if v < limb_base() * limb_base() * limb_base() * limb_base() {
            Some(limbs_of(v))
        } else {
            None
        },
        None => None,
    }
}

/// What `U256::from_str` of `alloy::primitives` reads from a text: after a
/// leading `0x`, `0o` or `0b` (either case) the rest in base 16, 8 or 2,
/// else the whole text in base 10, as [`u256_from_str_radix`] reads it.
pub open spec fn u256_from_str(s: Seq<char>) -> Option<Seq<u64>> {
    if s.len() >= 2 && s[0] == '0' && (s[1] == 'x' || s[1] == 'X') {
        u256_from_str_radix(s.skip(2), 16)
    } else if s.len() >= 2 && s[0] == '0' && (s[1] == 'o' || s[1] == 'O') {
        u256_from_str_radix(s.skip(2), 8)
    } else if s.len() >= 2 && s[0] == '0' && (s[1] == 'b' || s[1] == 'B') {
        u256_from_str_radix(s.skip(2), 2)
    } else {
        u256_from_str_radix(s, 10)
    }
}

/// Calls `Address::from_str` (alloy). Claimed: the bytes it reads are those
/// that [`address_from_str`] states, and it refuses exactly the texts that
/// it refuses.
#[verifier::external_body]
pub(crate) fn parse_address(s: &str) -> (r: Option<[u8; 20]>)
    ensures
        r matches Some(b) ==> address_from_str(s@) == Some(b@),
        r is None ==> address_from_str(s@) is None,
{
    match Address::from_str(s) {
        Ok(a) => Some(a.into_array()),
        Err(_) => None,
    }
}

/// Calls `U256::from_str` (alloy). Claimed: its limbs are those that
/// [`u256_from_str`] states, and it refuses exactly the texts that it refuses.
#[verifier::external_body]
pub(crate) fn parse_u256(s: &str) -> (r: Option<[u64; 4]>)
    ensures
        r matches Some(l) ==> u256_from_str(s@) == Some(l@),
        r is None ==> u256_from_str(s@) is None,
{
    match U256::from_str(s) {
        Ok(v) => Some(v.into_limbs()),
        Err(_) => None,
    }
}

/// Calls `U256::from_str_radix` (alloy). Claimed, for a base from 2 to 36
/// (other bases read another alphabet, and nothing is claimed of them): its
/// limbs are those that [`u256_from_str_radix`] states, and it refuses
/// exactly the texts that it refuses.
#[verifier::external_body]
pub(crate) fn parse_u256_radix(s: &str, radix: u64) -> (r: Option<[u64; 4]>)
    ensures
        2 <= radix <= 36 ==> match r {
            Some(l) => u256_from_str_radix(s@, radix) == Some(l@),
            None => u256_from_str_radix(s@, radix) is None,
        },
{
    match U256::from_str_radix(s, radix) {
        Ok(v) => Some(v.into_limbs()),
        Err(_) => None,
    }
}

/// Calls `+` on `U256` (alloy; `ruint` adds modulo `2^256`). Claimed: the
/// sum of the two numbers modulo `2^256`.
#[verifier::external_body]
pub(crate) fn u256_add(a: [u64; 4], b: [u64; 4]) -> (r: [u64; 4])
    ensures
        u256_value(r@) == (u256_value(a@) + u256_value(b@)) % u256_modulus(),
{
    (U256::from_limbs(a) + U256::from_limbs(b)).into_limbs()
}

/// Calls `-` on `U256` (alloy; `ruint` subtracts modulo `2^256`). Claimed:
/// the difference modulo `2^256`.
#[verifier::external_body]
pub(crate) fn u256_sub(a: [u64; 4], b: [u64; 4]) -> (r: [u64; 4])
    ensures
        u256_value(r@) == ((u256_value(a@) - u256_value(b@)) % (u256_modulus() as int)) as nat,
{
    (U256::from_limbs(a) - U256::from_limbs(b)).into_limbs()
}

/// Calls `U256::saturating_sub` (alloy). Claimed: the difference, or zero
/// when the second number is the larger.
#[verifier::external_body]
pub(crate) fn u256_saturating_sub(a: [u64; 4], b: [u64; 4]) -> (r: [u64; 4])
    ensures
        u256_value(r@) == if u256_value(a@) >= u256_value(b@) {
            (u256_value(a@) - u256_value(b@)) as nat
        } else {
            0
        },
{
    U256::from_limbs(a).saturating_sub(U256::from_limbs(b)).into_limbs()
}

/// Calls `>=` on `U256` (alloy). Claimed: whether the first number is at
/// least the second.
#[verifier::external_body]
pub(crate) fn u256_ge(a: [u64; 4], b: [u64; 4]) -> (r: bool)
    ensures
        r == (u256_value(a@) >= u256_value(b@)),
{
    U256::from_limbs(a) >= U256::from_limbs(b)
}

/// Calls `*` on `U256` (alloy; `ruint` multiplies modulo `2^256`). Claimed:
/// the product modulo `2^256`.
#[verifier::external_body]
pub(crate) fn u256_mul(a: [u64; 4], b: [u64; 4]) -> (r: [u64; 4])
    ensures
        u256_value(r@) == (u256_value(a@) * u256_value(b@)) % u256_modulus(),
{
    (U256::from_limbs(a) * U256::from_limbs(b)).into_limbs()
}

/// Calls `/` on `U256` (alloy), which panics on a zero divisor. Claimed:
/// the quotient, rounded down.
#[verifier::external_body]
pub(crate) fn u256_div(a: [u64; 4], b: [u64; 4]) -> (r: [u64; 4])
    requires
        u256_value(b@) != 0,
    ensures
        u256_value(r@) == u256_value(a@) / u256_value(b@),
{
    (U256::from_limbs(a) / U256::from_limbs(b)).into_limbs()
}

/// Calls `%` on `U256` (alloy), which panics on a zero divisor. Claimed:
/// the remainder.
#[verifier::external_body]
pub(crate) fn u256_rem(a: [u64; 4], b: [u64; 4]) -> (r: [u64; 4])
    requires
        u256_value(b@) != 0,
    ensures
        u256_value(r@) == u256_value(a@) % u256_value(b@),
{
    (U256::from_limbs(a) % U256::from_limbs(b)).into_limbs()
}

/// Calls `to_string` on `U256` (alloy; its `Display` writes the number in
/// decimal, with no leading zeros). Claimed: the decimal text.
#[verifier::external_body]
pub(crate) fn u256_text(a: [u64; 4]) -> (r: String)
    ensures
        r@ == crate::text::decimal_text(u256_value(a@)),
{
    U256::from_limbs(a).to_string()
}

} // verus!
