//! The fingerprint of a device: a short identifier that depends on the base
//! address and the hardware address of the device alone.
//!
//! It is the FNV-1a hash of 64 bits over the characters of the base address
//! followed by those of the hardware address, each character folded in by
//! its code point, written as 16 lower-case hexadecimal digits. For ASCII
//! text this is FNV-1a over the bytes.

use crate::text::{chars_of, string_of};
use vstd::arithmetic::div_mod::{lemma_fundamental_div_mod, lemma_mod_multiples_vanish, lemma_small_mod};
use vstd::prelude::*;

verus! {

/// The value that the hash starts from.
pub const FNV_OFFSET: u64 = 0xcbf2_9ce4_8422_2325;

/// The number that the hash is multiplied by at each step.
pub const FNV_PRIME: u64 = 0x0000_0100_0000_01b3;

/// The digits of hexadecimal.
pub const HEX_DIGITS: &'static str = "0123456789abcdef";

/// `x` times the prime, modulo 2^64.
pub open spec fn times_prime(x: u64) -> u64 {
    ((x as nat * FNV_PRIME as nat) % 0x1_0000_0000_0000_0000) as u64
}

/// The hash after one more character.
pub open spec fn fold_char(h: u64, c: char) -> u64 {
    times_prime(h ^ (c as u64))
}

/// The hash after the characters of `s` from `k` on.
pub open spec fn fold_from(h: u64, s: Seq<char>, k: int) -> u64
    decreases s.len() - k,
{
    if k < 0 || k >= s.len() {
        h
    } else {
        fold_from(fold_char(h, s[k]), s, k + 1)
    }
}

/// The hash of a base address followed by a hardware address.
pub open spec fn hash_of(base_address: Seq<char>, mac_address: Seq<char>) -> u64 {
    fold_from(fold_from(FNV_OFFSET, base_address, 0), mac_address, 0)
}

/// The digit `i` of `h`, counted from the most significant.
pub open spec fn nibble(h: u64, i: int) -> u64 {
    (h >> ((60 - 4 * i) as u64)) & 0xf
}

/// `h` as 16 hexadecimal digits, the most significant first.
pub open spec fn hex_of(h: u64) -> Seq<char> {
    Seq::new(16, |i: int| HEX_DIGITS@[nibble(h, i) as int])
}

/// The fingerprint of the device with the given base address and hardware
/// address.
pub open spec fn fingerprint_of(base_address: Seq<char>, mac_address: Seq<char>) -> Seq<char> {
    hex_of(hash_of(base_address, mac_address))
}

/// Folds the characters of `s` into the hash `h`.
pub fn fold_text(h: u64, s: &Vec<char>) -> (r: u64)
    ensures
        r == fold_from(h, s@, 0),
{
    let mut acc: u64 = h;
    let mut k: usize = 0;
    while k < s.len()
        invariant
            k <= s.len(),
            fold_from(acc, s@, k as int) == fold_from(h, s@, 0),
        decreases s.len() - k,
    {
        acc = (acc ^ (s[k] as u64)).wrapping_mul(FNV_PRIME);
        k += 1;
    }
    acc
}

/// Writes `h` as 16 hexadecimal digits.
pub fn to_hex(h: u64) -> (r: String)
    ensures
        r@ == hex_of(h),
{
    let digits = chars_of(HEX_DIGITS);
    proof {
        reveal_strlit("0123456789abcdef");
    }
    let mut out: Vec<char> = Vec::new();
    let mut i: usize = 0;
    while i < 16
        invariant
            i <= 16,
            digits@ == HEX_DIGITS@,
            digits@.len() == 16,
            out.len() == i,
            forall|k: int| 0 <= k < i ==> out@[k] == HEX_DIGITS@[nibble(h, k) as int],
        decreases 16 - i,
    {
        let shift: u64 = 60 - 4 * (i as u64);
        let n: u64 = (h >> shift) & 0xf;
        assert(n < 16) by (bit_vector)
            requires
                n == (h >> shift) & 0xf,
        ;
        out.push(digits[n as usize]);
        i += 1;
    }
    assert(out@ =~= hex_of(h));
    string_of(&out)
}

/// The fingerprint of the device with the given base address and hardware
/// address: the same for the same pair, whenever it is computed.
pub fn fingerprint(base_address: &str, mac_address: &str) -> (r: String)
    ensures
        r@ == fingerprint_of(base_address@, mac_address@),
        r@.len() == 16,
{
    let h = fold_text(FNV_OFFSET, &chars_of(base_address));
    let h = fold_text(h, &chars_of(mac_address));
    to_hex(h)
}

/// The algebra behind undoing a multiplication modulo `m`.
proof fn lemma_inverse_algebra(x: int, p: int, i: int, k: int, m: int, q: int, r: int)
    requires
        x * p == q * m + r,
        p * i == k * m + 1,
    ensures
        r * i == m * (x * k - q * i) + x,
{
    assert(r * i == (x * p - q * m) * i);
    assert((x * p - q * m) * i == x * (p * i) - q * m * i) by (nonlinear_arith);
    assert(x * (p * i) == x * (k * m + 1));
    assert(x * (k * m + 1) - q * m * i == m * (x * k - q * i) + x) by (nonlinear_arith);
}

/// Multiplying by the prime loses nothing: two numbers with the same
/// product modulo 2^64 are the same number.
pub proof fn lemma_times_prime_injective(x: u64, y: u64)
    requires
        times_prime(x) == times_prime(y),
    ensures
        x == y,
{
    lemma_times_prime_undone(x);
    lemma_times_prime_undone(y);
}

/// The prime has an inverse modulo 2^64, which gives a number back from
/// its product.
proof fn lemma_times_prime_undone(x: u64)
    ensures
        (times_prime(x) as int * 0xce96_5057_aff6_957b) % 0x1_0000_0000_0000_0000 == x as int,
{
    let m: int = 0x1_0000_0000_0000_0000;
    let p: int = 0x0000_0100_0000_01b3;
    let i: int = 0xce96_5057_aff6_957b;
    let k: int = (p * i) / m;
    let a: int = x as int * p;
    let q: int = a / m;
    let r: int = a % m;
    assert(p * i == 0x0000_0100_0000_01b3 * 0xce96_5057_aff6_957b);
    lemma_fundamental_div_mod(p * i, m);
    assert((p * i) % m == 1);
    assert(p * i == k * m + 1) by {
        assert(m * k == k * m) by (nonlinear_arith);
    }
    lemma_fundamental_div_mod(a, m);
    assert(a == q * m + r) by {
        assert(m * q == q * m) by (nonlinear_arith);
    }
    lemma_inverse_algebra(x as int, p, i, k, m, q, r);
    lemma_mod_multiples_vanish(x as int * k - q * i, x as int, m);
    lemma_small_mod(x as nat, m as nat);
    assert(times_prime(x) as int == r);
}

/// One step of the hash keeps two different hashes apart.
pub proof fn lemma_fold_char_keeps_apart(h1: u64, h2: u64, c: char)
    requires
        h1 != h2,
    ensures
        fold_char(h1, c) != fold_char(h2, c),
{
    let n = c as u64;
    if fold_char(h1, c) == fold_char(h2, c) {
        lemma_times_prime_injective(h1 ^ n, h2 ^ n);
        assert(h1 == h2) by (bit_vector)
            requires
                h1 ^ n == h2 ^ n,
        ;
    }
}

/// One step of the hash tells two different characters apart.
pub proof fn lemma_fold_char_tells_apart(h: u64, c1: char, c2: char)
    requires
        c1 != c2,
    ensures
        fold_char(h, c1) != fold_char(h, c2),
{
    let n1 = c1 as u64;
    let n2 = c2 as u64;
    assert(n1 != n2);
    if fold_char(h, c1) == fold_char(h, c2) {
        lemma_times_prime_injective(h ^ n1, h ^ n2);
        assert(n1 == n2) by (bit_vector)
            requires
                h ^ n1 == h ^ n2,
        ;
    }
}

/// The same characters keep two different hashes apart.
pub proof fn lemma_fold_keeps_apart(h1: u64, h2: u64, s: Seq<char>, k: int)
    requires
        h1 != h2,
        0 <= k,
    ensures
        fold_from(h1, s, k) != fold_from(h2, s, k),
    decreases s.len() - k,
{
    if k < s.len() {
        lemma_fold_char_keeps_apart(h1, h2, s[k]);
        lemma_fold_keeps_apart(fold_char(h1, s[k]), fold_char(h2, s[k]), s, k + 1);
    }
}

/// Two texts of one length that differ at the place `at` and nowhere else.
pub open spec fn differ_at(a: Seq<char>, b: Seq<char>, at: int) -> bool {
    &&& a.len() == b.len()
    &&& 0 <= at < a.len()
    &&& a[at] != b[at]
    &&& forall|i: int| 0 <= i < a.len() && i != at ==> a[i] == b[i]
}

/// The hash tells apart two texts that differ at one place.
pub proof fn lemma_fold_tells_apart(h: u64, a: Seq<char>, b: Seq<char>, at: int, k: int)
    requires
        differ_at(a, b, at),
        0 <= k <= at,
    ensures
        fold_from(h, a, k) != fold_from(h, b, k),
    decreases a.len() - k,
{
    if k < at {
        lemma_fold_tells_apart(fold_char(h, a[k]), a, b, at, k + 1);
    } else {
        lemma_fold_char_tells_apart(h, a[at], b[at]);
        lemma_fold_same_tail(fold_char(h, a[at]), fold_char(h, b[at]), a, b, at + 1);
    }
}

/// Over tails that agree, two different hashes stay apart.
proof fn lemma_fold_same_tail(h1: u64, h2: u64, a: Seq<char>, b: Seq<char>, k: int)
    requires
        h1 != h2,
        a.len() == b.len(),
        0 <= k,
        forall|i: int| k <= i < a.len() ==> a[i] == b[i],
    ensures
        fold_from(h1, a, k) != fold_from(h2, b, k),
    decreases a.len() - k,
{
    if k < a.len() {
        lemma_fold_char_keeps_apart(h1, h2, a[k]);
        lemma_fold_same_tail(fold_char(h1, a[k]), fold_char(h2, b[k]), a, b, k + 1);
    }
}

/// Two different numbers differ in one of their 16 digits.
proof fn lemma_nibbles_determine(h1: u64, h2: u64)
    requires
        forall|i: int| 0 <= i < 16 ==> nibble(h1, i) == nibble(h2, i),
    ensures
        h1 == h2,
{
    assert(nibble(h1, 0) == nibble(h2, 0));
    assert(nibble(h1, 1) == nibble(h2, 1));
    assert(nibble(h1, 2) == nibble(h2, 2));
    assert(nibble(h1, 3) == nibble(h2, 3));
    assert(nibble(h1, 4) == nibble(h2, 4));
    assert(nibble(h1, 5) == nibble(h2, 5));
    assert(nibble(h1, 6) == nibble(h2, 6));
    assert(nibble(h1, 7) == nibble(h2, 7));
    assert(nibble(h1, 8) == nibble(h2, 8));
    assert(nibble(h1, 9) == nibble(h2, 9));
    assert(nibble(h1, 10) == nibble(h2, 10));
    assert(nibble(h1, 11) == nibble(h2, 11));
    assert(nibble(h1, 12) == nibble(h2, 12));
    assert(nibble(h1, 13) == nibble(h2, 13));
    assert(nibble(h1, 14) == nibble(h2, 14));
    assert(nibble(h1, 15) == nibble(h2, 15));
    assert(h1 == h2) by (bit_vector)
        requires
            (h1 >> 60u64) & 0xf == (h2 >> 60u64) & 0xf,
            (h1 >> 56u64) & 0xf == (h2 >> 56u64) & 0xf,
            (h1 >> 52u64) & 0xf == (h2 >> 52u64) & 0xf,
            (h1 >> 48u64) & 0xf == (h2 >> 48u64) & 0xf,
            (h1 >> 44u64) & 0xf == (h2 >> 44u64) & 0xf,
            (h1 >> 40u64) & 0xf == (h2 >> 40u64) & 0xf,
            (h1 >> 36u64) & 0xf == (h2 >> 36u64) & 0xf,
            (h1 >> 32u64) & 0xf == (h2 >> 32u64) & 0xf,
            (h1 >> 28u64) & 0xf == (h2 >> 28u64) & 0xf,
            (h1 >> 24u64) & 0xf == (h2 >> 24u64) & 0xf,
            (h1 >> 20u64) & 0xf == (h2 >> 20u64) & 0xf,
            (h1 >> 16u64) & 0xf == (h2 >> 16u64) & 0xf,
            (h1 >> 12u64) & 0xf == (h2 >> 12u64) & 0xf,
            (h1 >> 8u64) & 0xf == (h2 >> 8u64) & 0xf,
            (h1 >> 4u64) & 0xf == (h2 >> 4u64) & 0xf,
            (h1 >> 0u64) & 0xf == (h2 >> 0u64) & 0xf,
    ;
}

/// Writing in hexadecimal loses nothing: two numbers with the same digits
/// are the same number.
pub proof fn lemma_hex_injective(h1: u64, h2: u64)
    requires
        hex_of(h1) == hex_of(h2),
    ensures
        h1 == h2,
{
    reveal_strlit("0123456789abcdef");
    assert forall|i: int| 0 <= i < 16 implies nibble(h1, i) == nibble(h2, i) by {
        let n1 = nibble(h1, i);
        let n2 = nibble(h2, i);
        let s = (60 - 4 * i) as u64;
        assert(n1 < 16) by (bit_vector)
            requires
                n1 == (h1 >> s) & 0xf,
        ;
        assert(n2 < 16) by (bit_vector)
            requires
                n2 == (h2 >> s) & 0xf,
        ;
        assert(hex_of(h1)[i] == HEX_DIGITS@[n1 as int]);
        assert(hex_of(h2)[i] == HEX_DIGITS@[n2 as int]);
    }
    lemma_nibbles_determine(h1, h2);
}

/// Two devices have the same fingerprint only where their hashes are the
/// same: the 16 digits lose nothing of the 64 bits.
pub proof fn lemma_fingerprints_differ_with_the_hashes(
    base1: Seq<char>,
    mac1: Seq<char>,
    base2: Seq<char>,
    mac2: Seq<char>,
)
    requires
        hash_of(base1, mac1) != hash_of(base2, mac2),
    ensures
        fingerprint_of(base1, mac1) != fingerprint_of(base2, mac2),
{
    if fingerprint_of(base1, mac1) == fingerprint_of(base2, mac2) {
        lemma_hex_injective(hash_of(base1, mac1), hash_of(base2, mac2));
    }
}

/// The fingerprint tells hardware addresses apart: for one base address,
/// two hardware addresses of one length that differ at one place have
/// different fingerprints.
pub proof fn lemma_fingerprint_tells_macs_apart(
    base_address: Seq<char>,
    mac1: Seq<char>,
    mac2: Seq<char>,
    at: int,
)
    requires
        differ_at(mac1, mac2, at),
    ensures
        fingerprint_of(base_address, mac1) != fingerprint_of(base_address, mac2),
{
    let h = fold_from(FNV_OFFSET, base_address, 0);
    lemma_fold_tells_apart(h, mac1, mac2, at, 0);
    if fingerprint_of(base_address, mac1) == fingerprint_of(base_address, mac2) {
        lemma_hex_injective(hash_of(base_address, mac1), hash_of(base_address, mac2));
    }
}

} // verus!
