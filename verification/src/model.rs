//! Identifiers shared by every part of the engine: chains, protocols,
//! venues, user addresses, instants and carried floating-point values.
use vstd::prelude::*;

use crate::text::{hex_text, push_hex};

verus! {

/// A chain the engine places capital on.
#[derive(Clone, Copy, Debug, PartialEq, Eq, Structural, Hash)]
pub enum ChainId {
    Arc,
    ArbitrumSepolia,
}

/// A protocol on a chain; `Idle` is the smart account's own balance.
#[derive(Clone, Copy, Debug, PartialEq, Eq, Structural, Hash)]
pub enum ProtocolId {
    Idle,
    AaveV3,
}

/// A place where capital can sit: a protocol on a chain.
#[derive(Clone, Copy, Debug, PartialEq, Eq, Structural, Hash)]
pub struct VenueRef {
    pub chain: ChainId,
    pub protocol: ProtocolId,
}

/// A 20-byte account address, held as three big-endian words
/// (bytes 0..8, 8..16 and 16..20).
#[derive(Clone, Copy, Debug, PartialEq, Eq, Structural, Hash)]
pub struct UserAddress {
    pub hi: u64,
    pub mid: u64,
    pub lo: u32,
}

/// The `n` lowest bytes of `v`, most significant first.
pub open spec fn be_bytes(v: nat, n: nat) -> Seq<u8>
    decreases n,
{
    if n == 0 {
        Seq::empty()
    } else {
        be_bytes(v / 256, (n - 1) as nat).push((v % 256) as u8)
    }
}

/// The value of bytes read most significant first.
pub open spec fn be_value(s: Seq<u8>) -> nat
    decreases s.len(),
{
    if s.len() == 0 {
        0
    } else {
        be_value(s.drop_last()) * 256 + s.last() as nat
    }
}

/// `256` to the power `n`.
pub open spec fn byte_power(n: nat) -> nat
    decreases n,
{
    if n == 0 {
        1
    } else {
        byte_power((n - 1) as nat) * 256
    }
}

proof fn lemma_be_bytes_len(v: nat, n: nat)
    ensures
        be_bytes(v, n).len() == n,
    decreases n,
{
    if n > 0 {
        lemma_be_bytes_len(v / 256, (n - 1) as nat);
    }
}

proof fn lemma_be_value_bound(s: Seq<u8>)
    ensures
        be_value(s) < byte_power(s.len()),
    decreases s.len(),
{
    if s.len() > 0 {
        lemma_be_value_bound(s.drop_last());
        let a = be_value(s.drop_last());
        let p = byte_power(s.drop_last().len());
        let b = s.last() as nat;
        assert(a * 256 + b < p * 256) by (nonlinear_arith)
            requires
                a < p,
                b < 256,
        ;
    }
}

proof fn lemma_be_round_trip(s: Seq<u8>)
    ensures
        be_bytes(be_value(s), s.len()) == s,
    decreases s.len(),
{
    if s.len() > 0 {
        let a = be_value(s.drop_last());
        let b = s.last() as nat;
        let v = a * 256 + b;
        assert(v / 256 == a && v % 256 == b) by (nonlinear_arith)
            requires
                v == a * 256 + b,
                b < 256,
        ;
        lemma_be_round_trip(s.drop_last());
        assert(s.drop_last().push(s.last()) =~= s);
    }
}

proof fn lemma_be_value_of_bytes(v: nat, n: nat)
    ensures
        be_value(be_bytes(v, n)) == v % byte_power(n),
    decreases n,
{
    if n == 0 {
        assert(be_bytes(v, 0) =~= Seq::<u8>::empty());
    } else {
        let q = v / 256;
        let r = v % 256;
        let pn = byte_power((n - 1) as nat);
        lemma_be_value_of_bytes(q, (n - 1) as nat);
        lemma_byte_power_positive((n - 1) as nat);
        let bs = be_bytes(v, n);
        assert(bs.drop_last() =~= be_bytes(q, (n - 1) as nat));
        let a = q / pn;
        let b = q % pn;
        assert(v == 256 * q + r && 0 <= r < 256) by (nonlinear_arith)
            requires
                q == v / 256,
                r == v % 256,
        ;
        assert(q == pn * a + b && 0 <= b < pn) by (nonlinear_arith)
            requires
                a == q / pn,
                b == q % pn,
                pn > 0,
        ;
        assert(v == (pn * 256) * a + (256 * b + r)) by (nonlinear_arith)
            requires
                v == 256 * q + r,
                q == pn * a + b,
        ;
        assert(0 <= 256 * b + r < pn * 256) by (nonlinear_arith)
            requires
                0 <= b < pn,
                0 <= r < 256,
        ;
        assert(v % (pn * 256) == 256 * b + r) by (nonlinear_arith)
            requires
                v == (pn * 256) * a + (256 * b + r),
                0 <= 256 * b + r < pn * 256,
                a >= 0,
        ;
        assert(b * 256 + r == 256 * b + r) by (nonlinear_arith);
    }
}

proof fn lemma_byte_power_positive(n: nat)
    ensures
        byte_power(n) > 0,
    decreases n,
{
    if n > 0 {
        lemma_byte_power_positive((n - 1) as nat);
    }
}

/// An address is its 20 bytes: two addresses with the same bytes are the
/// same address.
pub proof fn law_address_is_its_bytes(a: UserAddress, b: UserAddress)
    requires
        a@ == b@,
    ensures
        a == b,
{
    reveal_with_fuel(byte_power, 9);
    lemma_be_bytes_len(a.hi as nat, 8);
    lemma_be_bytes_len(a.mid as nat, 8);
    lemma_be_bytes_len(a.lo as nat, 4);
    lemma_be_bytes_len(b.hi as nat, 8);
    lemma_be_bytes_len(b.mid as nat, 8);
    lemma_be_bytes_len(b.lo as nat, 4);
    assert(a@.subrange(0, 8) =~= be_bytes(a.hi as nat, 8));
    assert(b@.subrange(0, 8) =~= be_bytes(b.hi as nat, 8));
    assert(a@.subrange(8, 16) =~= be_bytes(a.mid as nat, 8));
    assert(b@.subrange(8, 16) =~= be_bytes(b.mid as nat, 8));
    assert(a@.subrange(16, 20) =~= be_bytes(a.lo as nat, 4));
    assert(b@.subrange(16, 20) =~= be_bytes(b.lo as nat, 4));
    lemma_be_value_of_bytes(a.hi as nat, 8);
    lemma_be_value_of_bytes(b.hi as nat, 8);
    lemma_be_value_of_bytes(a.mid as nat, 8);
    lemma_be_value_of_bytes(b.mid as nat, 8);
    lemma_be_value_of_bytes(a.lo as nat, 4);
    lemma_be_value_of_bytes(b.lo as nat, 4);
    assert(byte_power(1) == 0x100);
    assert(byte_power(2) == 0x1_0000);
    assert(byte_power(3) == 0x100_0000);
    assert(byte_power(4) == 0x1_0000_0000);
    assert(byte_power(5) == 0x100_0000_0000);
    assert(byte_power(6) == 0x1_0000_0000_0000);
    assert(byte_power(7) == 0x100_0000_0000_0000);
    assert(byte_power(8) == 0x1_0000_0000_0000_0000);
    lemma_mod_below(a.hi as nat, byte_power(8));
    lemma_mod_below(b.hi as nat, byte_power(8));
    lemma_mod_below(a.mid as nat, byte_power(8));
    lemma_mod_below(b.mid as nat, byte_power(8));
    lemma_mod_below(a.lo as nat, byte_power(4));
    lemma_mod_below(b.lo as nat, byte_power(4));
}

proof fn lemma_mod_below(x: nat, m: nat)
    requires
        x < m,
    ensures
        x % m == x,
{
    assert(x % m == x) by (nonlinear_arith)
        requires
            x < m,
    ;
}

impl View for UserAddress {
    type V = Seq<u8>;

    /// The address's 20 bytes.
    open spec fn view(&self) -> Seq<u8> {
        be_bytes(self.hi as nat, 8) + be_bytes(self.mid as nat, 8) + be_bytes(self.lo as nat, 4)
    }
}

/// The value of bytes `from..to` of `b`, most significant first.
fn word_of(b: &[u8; 20], from: usize, to: usize) -> (w: u64)
    requires
        from <= to <= 20,
        to - from <= 8,
    ensures
        w as nat == be_value(b@.subrange(from as int, to as int)),
{
    let mut w: u64 = 0;
    let mut i: usize = from;
    while i < to
        invariant
            from <= i <= to <= 20,
            to - from <= 8,
            w as nat == be_value(b@.subrange(from as int, i as int)),
        decreases to - i,
    {
        proof {
            lemma_be_value_bound(b@.subrange(from as int, i as int));
            lemma_byte_power_le(b@.subrange(from as int, i as int).len(), 7);
            assert(b@.subrange(from as int, i + 1 as int).drop_last() =~= b@.subrange(from as int, i as int));
        }
        let byte = b[i];
        assert(w * 256 + byte < 0x1_0000_0000_0000_0000) by (nonlinear_arith)
            requires
                w < 0x100_0000_0000_0000,
                byte < 256,
        ;
        w = w * 256 + byte as u64;
        i = i + 1;
    }
    w
}

proof fn lemma_byte_power_le(n: nat, m: nat)
    requires
        n <= m,
    ensures
        byte_power(n) <= byte_power(m),
        m == 7 ==> byte_power(m) == 0x100_0000_0000_0000,
    decreases m,
{
    if m > n {
        lemma_byte_power_le(n, (m - 1) as nat);
    }
    if m == 7 {
        reveal_with_fuel(byte_power, 8);
    }
}

/// Appends the `n` lowest bytes of `v`, most significant first.
fn push_be_bytes(v: u64, n: usize, out: &mut Vec<u8>)
    ensures
        final(out)@ == old(out)@ + be_bytes(v as nat, n as nat),
    decreases n,
{
    if n > 0 {
        push_be_bytes(v / 256, n - 1, out);
        out.push((v % 256) as u8);
    }
}

impl UserAddress {
    /// The address with the given 20 bytes.
    pub fn from_bytes(b: [u8; 20]) -> (r: UserAddress)
        ensures
            r@ == b@,
    {
        let hi = word_of(&b, 0, 8);
        let mid = word_of(&b, 8, 16);
        let lo64 = word_of(&b, 16, 20);
        proof {
            lemma_be_value_bound(b@.subrange(16, 20));
            reveal_with_fuel(byte_power, 5);
            lemma_be_round_trip(b@.subrange(0, 8));
            lemma_be_round_trip(b@.subrange(8, 16));
            lemma_be_round_trip(b@.subrange(16, 20));
        }
        let r = UserAddress { hi, mid, lo: lo64 as u32 };
        assert(r@ =~= b@) by {
            assert(b@ =~= b@.subrange(0, 8) + b@.subrange(8, 16) + b@.subrange(16, 20));
        }
        r
    }

    /// The address as `0x` and its 20 bytes in lowercase hexadecimal.
    pub fn text(&self) -> (r: String)
        ensures
            r@ == "0x"@ + hex_text(self@),
    {
        let bytes = self.to_bytes();
        let mut out = String::from_str("0x");
        push_hex(bytes.as_slice(), &mut out);
        out
    }

    /// The address's 20 bytes.
    pub fn to_bytes(&self) -> (r: [u8; 20])
        ensures
            r@ == self@,
    {
        let mut v: Vec<u8> = Vec::new();
        push_be_bytes(self.hi, 8, &mut v);
        push_be_bytes(self.mid, 8, &mut v);
        push_be_bytes(self.lo as u64, 4, &mut v);
        assert(v@ =~= self@);
        proof {
            lemma_be_bytes_len(self.hi as nat, 8);
            lemma_be_bytes_len(self.mid as nat, 8);
            lemma_be_bytes_len(self.lo as nat, 4);
        }
        let mut out: [u8; 20] = [0u8; 20];
        let mut i: usize = 0;
        while i < 20
            invariant
                0 <= i <= 20,
                v@ == self@,
                v@.len() == 20,
                forall|j: int| 0 <= j < i ==> out@[j] == v@[j],
            decreases 20 - i,
        {
            out[i] = v[i];
            i = i + 1;
        }
        assert(out@ =~= self@);
        out
    }
}

/// An instant, as signed nanoseconds since the Unix epoch.
pub type UnixNanos = i128;

/// Largest magnitude of an instant that the engine handles; every instant
/// that the calendar library represents lies well inside it.
pub const MAX_INSTANT: i128 = 0x10_0000_0000_0000_0000_0000_0000;

/// An instant inside the range the engine handles.
pub open spec fn instant_ok(t: UnixNanos) -> bool {
    -MAX_INSTANT <= t <= MAX_INSTANT
}

/// Nanoseconds in one second.
pub const NANOS_PER_SECOND: i128 = 1_000_000_000;

/// Nanoseconds in one millisecond.
pub const NANOS_PER_MILLI: i128 = 1_000_000;

/// Nanoseconds in one minute.
pub const NANOS_PER_MINUTE: i128 = 60_000_000_000;

/// A binary64 floating-point value that the engine stores and hands back
/// but never computes with, held as its IEEE-754 bit pattern.
#[derive(Clone, Copy, Debug, PartialEq, Eq, Structural, Hash)]
pub struct Real64 {
    pub bits: u64,
}

/// A raw USDC amount, in units of 10^-6 USDC: a 256-bit number held as four
/// little-endian 64-bit limbs.
pub type Amount = [u64; 4];

/// The number an amount holds.
pub open spec fn amount_value(a: Amount) -> nat {
    crate::outside::u256_value(a@)
}

/// Whether an amount is above zero.
pub fn is_positive(a: Amount) -> (r: bool)
    ensures
        r == (amount_value(a) > 0),
{
    proof {
        crate::outside::lemma_u256_zero(a@);
    }
    !(a[0] == 0 && a[1] == 0 && a[2] == 0 && a[3] == 0)
}

/// The 256-bit amount that holds `v`.
pub fn amount_u64(v: u64) -> (r: Amount)
    ensures
        crate::outside::u256_value(r@) == v,
{
    let r = [v, 0, 0, 0];
    assert(r@ =~= seq![v, 0u64, 0u64, 0u64]);
    let ghost l = r@;
    assert(crate::outside::u256_value(l) == v) by (nonlinear_arith)
        requires
            l[0] == v,
            l[1] == 0,
            l[2] == 0,
            l[3] == 0,
            crate::outside::u256_value(l) == l[0] as nat + l[1] as nat * crate::outside::limb_base()
                + l[2] as nat * (crate::outside::limb_base() * crate::outside::limb_base()) + l[3] as nat * (
            crate::outside::limb_base() * crate::outside::limb_base() * crate::outside::limb_base()),
    ;
    r
}

} // verus!
