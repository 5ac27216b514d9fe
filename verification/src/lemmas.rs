//! Arithmetic behind the format: powers of 256, byte counts, and the
//! little-endian bytes of a number.

use vstd::prelude::*;
use vstd::arithmetic::div_mod::lemma_mod_breakdown;
use vstd::arithmetic::div_mod::lemma_small_mod;
use crate::format::byte_len;
use crate::format::le_bytes;
use crate::format::le_value;
use crate::format::pow256;

verus! {

/// The powers of 256 up to the sixteenth, written out.
pub proof fn lemma_pow256_values()
    ensures
        pow256(0) == 0x1,
        pow256(1) == 0x100,
        pow256(2) == 0x1_0000,
        pow256(3) == 0x100_0000,
        pow256(4) == 0x1_0000_0000,
        pow256(5) == 0x100_0000_0000,
        pow256(6) == 0x1_0000_0000_0000,
        pow256(7) == 0x100_0000_0000_0000,
        pow256(8) == 0x1_0000_0000_0000_0000,
        pow256(9) == 0x100_0000_0000_0000_0000,
        pow256(10) == 0x1_0000_0000_0000_0000_0000,
        pow256(11) == 0x100_0000_0000_0000_0000_0000,
        pow256(12) == 0x1_0000_0000_0000_0000_0000_0000,
        pow256(13) == 0x100_0000_0000_0000_0000_0000_0000,
        pow256(14) == 0x1_0000_0000_0000_0000_0000_0000_0000,
        pow256(15) == 0x100_0000_0000_0000_0000_0000_0000_0000,
        pow256(16) == 0x1_0000_0000_0000_0000_0000_0000_0000_0000,
{
    reveal_with_fuel(pow256, 17);
}

/// Every power of 256 is positive, and each is 256 times the one before.
pub proof fn lemma_pow256_step(n: nat)
    ensures
        pow256(n) > 0,
        pow256(n + 1) == 256 * pow256(n),
    decreases n,
{
    if n > 0 {
        lemma_pow256_step((n - 1) as nat);
    }
}

/// A value that lies between two neighbouring powers of 256 takes as many
/// bytes as the upper one says.
pub proof fn lemma_byte_len_range(v: nat, k: nat)
    requires
        k >= 1,
        v < pow256(k),
        k > 1 ==> pow256((k - 1) as nat) <= v,
    ensures
        byte_len(v) == k,
    decreases k,
{
    lemma_pow256_step((k - 1) as nat);
    if k == 1 {
        assert(pow256(1) == 256) by {
            lemma_pow256_values();
        }
    } else {
        lemma_pow256_step((k - 2) as nat);
        assert(v >= 256);
        if k > 2 {
            lemma_pow256_step((k - 3) as nat);
        }
        lemma_byte_len_range(v / 256, (k - 1) as nat);
    }
}

/// A value lies between the two powers of 256 that its byte count names.
pub proof fn lemma_byte_len_bounds(v: nat)
    ensures
        byte_len(v) >= 1,
        v < pow256(byte_len(v)),
        byte_len(v) > 1 ==> pow256((byte_len(v) - 1) as nat) <= v,
    decreases v,
{
    lemma_pow256_values();
    if v >= 256 {
        lemma_byte_len_bounds(v / 256);
        lemma_pow256_step(byte_len(v / 256));
        lemma_pow256_step((byte_len(v / 256) - 1) as nat);
    }
}

/// Powers of 256 multiply as their exponents add.
pub proof fn lemma_pow256_sum(a: nat, b: nat)
    ensures
        pow256(a + b) == pow256(a) * pow256(b),
    decreases b,
{
    if b > 0 {
        let c = (b - 1) as nat;
        lemma_pow256_sum(a, c);
        let p = pow256(a);
        let q = pow256(c);
        assert(a + b - 1 == a + c);
        assert(pow256(a + b) == 256 * pow256(a + c));
        assert(pow256(b) == 256 * q);
        assert(256 * (p * q) == p * (256 * q)) by (nonlinear_arith);
    } else {
        assert(pow256(0) == 1);
        assert(pow256(a) * 1 == pow256(a));
    }
}

/// The first `n` bytes of a sequence spell a number below 256 to the `n`.
pub proof fn lemma_le_value_bound(s: Seq<u8>, n: nat)
    requires
        n <= s.len(),
    ensures
        le_value(s, n) < pow256(n),
    decreases n,
{
    if n > 0 {
        let m = (n - 1) as nat;
        lemma_le_value_bound(s, m);
        lemma_pow256_step(m);
        let p = pow256(m);
        let c = s[n - 1] as nat;
        assert(c * p <= 255 * p) by (nonlinear_arith)
            requires
                c <= 255,
                p > 0,
        ;
    } else {
        assert(pow256(0) == 1);
    }
}

/// What the first `n` bytes spell depends on those bytes alone.
pub proof fn lemma_le_value_prefix(s: Seq<u8>, t: Seq<u8>, n: nat)
    requires
        n <= s.len(),
        n <= t.len(),
        forall|i: int| 0 <= i < n ==> s[i] == t[i],
    ensures
        le_value(s, n) == le_value(t, n),
    decreases n,
{
    if n > 0 {
        lemma_le_value_prefix(s, t, (n - 1) as nat);
    }
}

/// Of the number that `n` bytes spell, the remainder modulo 256 to the `k`
/// is the number that the first `k` of them spell.
pub proof fn lemma_le_value_mod(s: Seq<u8>, n: nat, k: nat)
    requires
        k <= n <= s.len(),
    ensures
        le_value(s, n) % pow256(k) == le_value(s, k),
    decreases n,
{
    lemma_pow256_step(k);
    if n == k {
        lemma_le_value_bound(s, k);
        lemma_small_mod(le_value(s, k), pow256(k));
    } else {
        let m = (n - 1) as nat;
        lemma_le_value_mod(s, m, k);
        let rest = (m - k) as nat;
        lemma_pow256_sum(k, rest);
        let c = s[n - 1] as nat;
        let p = pow256(k);
        let q = pow256(rest);
        assert(c * (p * q) == p * (c * q)) by (nonlinear_arith);
        vstd::arithmetic::div_mod::lemma_mod_multiples_vanish(
            (c * q) as int,
            le_value(s, m) as int,
            p as int,
        );
    }
}

/// The first `k` little-endian bytes of `v` spell `v` modulo 256 to the
/// `k`.
pub proof fn lemma_le_bytes_value(v: nat, n: nat, k: nat)
    requires
        k <= n,
    ensures
        le_value(le_bytes(v, n), k) == v % pow256(k),
    decreases k,
{
    if k == 0 {
        assert(pow256(0) == 1);
    } else {
        let m = (k - 1) as nat;
        lemma_le_bytes_value(v, n, m);
        lemma_pow256_step(m);
        let p = pow256(m);
        lemma_mod_breakdown(v as int, p as int, 256);
        assert(p * 256 == pow256(k));
        let digit = (v / p) % 256;
        assert(le_bytes(v, n)[k - 1] == digit as u8);
        assert(digit * p == p * digit) by (nonlinear_arith);
    }
}

/// The little-endian bytes of the number that `n` bytes spell are those
/// bytes.
pub proof fn lemma_le_value_bytes(s: Seq<u8>, n: nat)
    requires
        s.len() == n,
    ensures
        le_bytes(le_value(s, n), n) == s,
{
    let v = le_value(s, n);
    assert forall|i: int| 0 <= i < n implies le_bytes(v, n)[i] == s[i] by {
        let k = i as nat;
        let p = pow256(k);
        lemma_pow256_step(k);
        lemma_le_value_mod(s, n, k);
        lemma_le_value_mod(s, n, k + 1);
        lemma_mod_breakdown(v as int, p as int, 256);
        assert(p * 256 == pow256(k + 1));
        let digit = (v / p) % 256;
        let byte = s[i] as nat;
        assert(le_value(s, k + 1) == le_value(s, k) + byte * p);
        assert(p * digit == byte * p);
        assert(digit == byte) by (nonlinear_arith)
            requires
                p * digit == byte * p,
                p > 0,
        ;
    }
    assert(le_bytes(v, n) =~= s);
}

/// The low `n` bytes of a number are those of its remainder modulo 256 to
/// the `n`.
pub proof fn lemma_le_bytes_of_remainder(v: nat, n: nat)
    ensures
        le_bytes(v % pow256(n), n) == le_bytes(v, n),
{
    lemma_le_bytes_value(v, n, n);
    lemma_le_value_bytes(le_bytes(v, n), n);
}

/// Two runs of bytes, one after the other, spell the number of the first
/// plus that of the second, moved up by the length of the first.
pub proof fn lemma_le_value_concat(low: Seq<u8>, high: Seq<u8>, b: nat)
    requires
        b <= high.len(),
    ensures
        le_value(low + high, low.len() + b) == le_value(low, low.len()) + pow256(low.len())
            * le_value(high, b),
    decreases b,
{
    let a = low.len();
    let whole = low + high;
    if b == 0 {
        lemma_le_value_prefix(whole, low, a);
        assert(pow256(a) * 0 == 0);
    } else {
        let c = (b - 1) as nat;
        lemma_le_value_concat(low, high, c);
        lemma_pow256_sum(a, c);
        let digit = high[b - 1] as nat;
        assert(whole[a + b - 1] == high[b - 1]);
        assert(a + b - 1 == a + c);
        let p = pow256(a);
        let q = pow256(c);
        let rest = le_value(high, c);
        assert(p * (rest + digit * q) == p * rest + digit * (p * q)) by (nonlinear_arith);
    }
}

/// The low `a + b` bytes of a number are the low `a` bytes of its remainder
/// modulo 256 to the `a`, followed by the low `b` bytes of its quotient.
pub proof fn lemma_le_bytes_concat(v: nat, a: nat, b: nat)
    ensures
        pow256(a) > 0,
        le_bytes(v, a + b) == le_bytes(v % pow256(a), a) + le_bytes(v / pow256(a), b),
{
    lemma_pow256_step(a);
    lemma_pow256_step(b);
    let p = pow256(a);
    let q = pow256(b);
    let low = le_bytes(v % p, a);
    let high = le_bytes(v / p, b);
    lemma_le_value_concat(low, high, b);
    lemma_le_bytes_value(v % p, a, a);
    lemma_le_bytes_value(v / p, b, b);
    vstd::arithmetic::div_mod::lemma_mod_twice(v as int, p as int);
    lemma_mod_breakdown(v as int, p as int, q as int);
    lemma_pow256_sum(a, b);
    assert(le_value(low + high, a + b) == v % pow256(a + b));
    lemma_le_value_bytes(low + high, a + b);
    lemma_le_bytes_of_remainder(v, a + b);
}

/// The powers of 256 grow with the exponent.
pub proof fn lemma_pow256_monotonic(a: nat, b: nat)
    requires
        a <= b,
    ensures
        pow256(a) <= pow256(b),
    decreases b,
{
    if a < b {
        lemma_pow256_monotonic(a, (b - 1) as nat);
        lemma_pow256_step((b - 1) as nat);
    }
}

/// The byte count never shrinks as the value grows.
pub proof fn lemma_byte_len_monotonic(a: nat, b: nat)
    requires
        a <= b,
    ensures
        byte_len(a) <= byte_len(b),
    decreases b,
{
    if a >= 256 {
        lemma_byte_len_monotonic(a / 256, b / 256);
    }
}

} // verus!
