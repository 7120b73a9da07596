//! Shannon-entropy scoring of candidate key material.
//!
//! Every key-creating path gates admission on the score computed here.  The
//! score is the Shannon entropy of the byte-value histogram of the sample,
//! reported in millibits per byte, and is computed exactly as specified by
//! `entropy_millibits_spec`: a fixed-point base-two logarithm with sixteen
//! fractional bits feeds a per-bucket sum that is then scaled to millibits.

use vstd::prelude::*;

verus! {

/// How often `byte` occurs in `s`.
pub open spec fn count_byte(s: Seq<u8>, byte: u8) -> nat
    decreases s.len(),
{
    if s.len() == 0 {
        0
    } else {
        count_byte(s.drop_last(), byte) + (if s.last() == byte {
            1nat
        } else {
            0nat
        })
    }
}

/// The integer part of the base-two logarithm (0 for inputs below 2).
pub open spec fn floor_log2_spec(x: int) -> int
    decreases x,
{
    if x < 2 {
        0
    } else {
        1 + floor_log2_spec(x / 2)
    }
}

/// Doubling normalization into the range [2^31, 2^32).
pub open spec fn norm31_spec(v: int) -> int
    decreases 0x1_0000_0000 - v when v < 0x1_0000_0000
{
    if v <= 0 {
        0
    } else if v < 0x8000_0000 {
        norm31_spec(2 * v)
    } else {
        v
    }
}

/// `n` squaring steps of the fractional-bit extraction, starting from the
/// normalized mantissa `v` and the already-extracted bits `f`.
pub open spec fn frac_steps(v: int, f: int, n: nat) -> int
    decreases n,
{
    if n == 0 {
        f
    } else {
        let w = (v * v) / 0x8000_0000;
        if w >= 0x1_0000_0000 {
            frac_steps(w / 2, 2 * f + 1, (n - 1) as nat)
        } else {
            frac_steps(w, 2 * f, (n - 1) as nat)
        }
    }
}

/// The base-two logarithm of `x` in Q16 fixed point: sixteen fractional
/// bits extracted by repeated squaring of the normalized mantissa.
pub open spec fn log2_fix_spec(x: int) -> int {
    floor_log2_spec(x) * 0x10000 + frac_steps(norm31_spec(x), 0, 16)
}

/// One histogram bucket's contribution to the entropy sum, in Q16:
/// `c * (log2 n - log2 c)` for a bucket of count `c` in a sample of `n`.
pub open spec fn entropy_term(c: int, n: int) -> int {
    if c <= 0 {
        0
    } else {
        let ln = log2_fix_spec(n);
        let lc = log2_fix_spec(c);
        if lc <= ln {
            c * (ln - lc)
        } else {
            0
        }
    }
}

/// The entropy sum over the byte values below `upto`.
pub open spec fn entropy_sum(s: Seq<u8>, n: int, upto: int) -> int
    decreases upto,
{
    if upto <= 0 {
        0
    } else {
        entropy_sum(s, n, upto - 1) + entropy_term(count_byte(s, (upto - 1) as u8) as int, n)
    }
}

/// The Shannon entropy of the byte-value histogram of `s`, in millibits
/// per byte, reported on the scheme's 0..8000 scale.  An empty sample
/// scores zero.  A byte histogram cannot exceed 8 bits/byte; the clamp
/// keeps the tiny upward rounding of the fixed-point logarithm from ever
/// leaving the scale.
pub open spec fn entropy_millibits_spec(s: Seq<u8>) -> int {
    if s.len() == 0 {
        0
    } else {
        let raw = (entropy_sum(s, s.len() as int, 256) * 1000) / (s.len() as int * 0x10000);
        if raw > 8000 {
            8000
        } else {
            raw
        }
    }
}

proof fn lemma_floor_log2_nonneg(x: int)
    ensures
        floor_log2_spec(x) >= 0,
    decreases x,
{
    if x >= 2 {
        lemma_floor_log2_nonneg(x / 2);
    }
}

proof fn lemma_floor_log2_below(x: int, k: nat)
    requires
        1 <= x,
        x < vstd::arithmetic::power2::pow2(k),
    ensures
        floor_log2_spec(x) < k,
    decreases x,
{
    vstd::arithmetic::power2::lemma_pow2_pos(k);
    vstd::arithmetic::power2::lemma2_to64();
    if x < 2 {
    } else {
        assert(k >= 2);
        assert(x / 2 < vstd::arithmetic::power2::pow2((k - 1) as nat)) by {
            vstd::arithmetic::power2::lemma_pow2_adds(1, (k - 1) as nat);
        }
        lemma_floor_log2_below(x / 2, (k - 1) as nat);
    }
}

/// The integer part of the base-two logarithm of `x`.
fn floor_log2(x: u64) -> (r: u32)
    requires
        x >= 1,
    ensures
        r as int == floor_log2_spec(x as int),
        r <= 63,
{
    let mut v: u64 = x;
    let mut r: u32 = 0;
    proof {
        lemma_floor_log2_nonneg(x as int);
        vstd::arithmetic::power2::lemma2_to64();
        lemma_floor_log2_below(x as int, 64);
    }
    while v >= 2
        invariant
            1 <= v,
            floor_log2_spec(x as int) == r + floor_log2_spec(v as int),
            floor_log2_spec(x as int) <= 63,
            r <= floor_log2_spec(x as int),
        decreases v,
    {
        proof {
            lemma_floor_log2_nonneg(v as int / 2);
        }
        v = v / 2;
        r = r + 1;
    }
    r
}

/// The base-two logarithm of `x` in Q16 fixed point.
fn log2_fix(x: u64) -> (r: u64)
    requires
        1 <= x < 0x1_0000_0000,
    ensures
        r as int == log2_fix_spec(x as int),
        r < 0x20_0000,
{
    let ip = floor_log2(x);
    proof {
        vstd::arithmetic::power2::lemma2_to64();
        lemma_floor_log2_below(x as int, 32);
    }
    let mut v: u64 = x;
    while v < 0x8000_0000
        invariant
            1 <= v < 0x1_0000_0000,
            norm31_spec(x as int) == norm31_spec(v as int),
        decreases 0x1_0000_0000 - v,
    {
        v = v * 2;
    }
    assert(norm31_spec(v as int) == v as int);
    let ghost v0 = v as int;
    let mut f: u64 = 0;
    let mut k: u32 = 0;
    while k < 16
        invariant
            k <= 16,
            0x8000_0000 <= v < 0x1_0000_0000,
            f < vstd::arithmetic::power2::pow2(k as nat),
            frac_steps(v0, 0, 16) == frac_steps(v as int, f as int, (16 - k) as nat),
        decreases 16 - k,
    {
        proof {
            vstd::arithmetic::power2::lemma2_to64();
            assert(v * v < 0x1_0000_0000_0000_0000 && v * v >= 0x4000_0000_0000_0000) by (nonlinear_arith)
                requires 0x8000_0000 <= v < 0x1_0000_0000;
            vstd::arithmetic::power2::lemma_pow2_strictly_increases(k as nat, (k + 1) as nat);
            assert(vstd::arithmetic::power2::pow2((k + 1) as nat) == 2 * vstd::arithmetic::power2::pow2(k as nat)) by {
                vstd::arithmetic::power2::lemma_pow2_adds(1, k as nat);
            }
        }
        let w = (v * v) / 0x8000_0000;
        if w >= 0x1_0000_0000 {
            v = w / 2;
            f = 2 * f + 1;
        } else {
            v = w;
            f = 2 * f;
        }
        k = k + 1;
    }
    proof {
        vstd::arithmetic::power2::lemma2_to64();
    }
    (ip as u64) * 0x10000 + f
}

proof fn lemma_count_byte_push(s: Seq<u8>, x: u8, byte: u8)
    ensures
        count_byte(s.push(x), byte) == count_byte(s, byte) + (if x == byte {
            1int
        } else {
            0int
        }),
{
    assert(s.push(x).drop_last() =~= s);
    assert(s.push(x).last() == x);
}

/// The partial histogram total over the byte values below `upto`.
///
/// Used to bound the entropy accumulator by the sample length.
spec fn counts_total(s: Seq<u8>, upto: int) -> int
    decreases upto,
{
    if upto <= 0 {
        0
    } else {
        counts_total(s, upto - 1) + count_byte(s, (upto - 1) as u8)
    }
}

proof fn lemma_counts_total_push(s: Seq<u8>, x: u8, upto: int)
    requires
        upto <= 256,
    ensures
        counts_total(s.push(x), upto) == counts_total(s, upto) + (if (x as int) < upto {
            1int
        } else {
            0int
        }),
    decreases upto,
{
    if upto > 0 {
        lemma_counts_total_push(s, x, upto - 1);
        lemma_count_byte_push(s, x, (upto - 1) as u8);
    }
}

proof fn lemma_counts_total_empty(upto: int)
    ensures
        counts_total(Seq::<u8>::empty(), upto) == 0,
    decreases upto,
{
    if upto > 0 {
        lemma_counts_total_empty(upto - 1);
    }
}

/// The histogram buckets of a byte sample sum to its length.
proof fn lemma_counts_total_full(s: Seq<u8>)
    ensures
        counts_total(s, 256) == s.len(),
    decreases s.len(),
{
    if s.len() == 0 {
        assert(s =~= Seq::<u8>::empty());
        lemma_counts_total_empty(256);
    } else {
        lemma_counts_total_full(s.drop_last());
        assert(s.drop_last().push(s.last()) =~= s);
        lemma_counts_total_push(s.drop_last(), s.last(), 256);
    }
}

proof fn lemma_counts_total_mono(s: Seq<u8>, a: int, b: int)
    requires
        a <= b,
    ensures
        counts_total(s, a) <= counts_total(s, b),
    decreases b - a,
{
    if a < b {
        lemma_counts_total_mono(s, a, b - 1);
    }
}

/// Score a byte sample: the Shannon entropy of its byte-value histogram,
/// in millibits per byte.
pub fn entropy_millibits(data: &[u8]) -> (r: u32)
    requires
        data@.len() < 0x1_0000_0000,
    ensures
        r as int == entropy_millibits_spec(data@),
        r <= 8000,
{
    let n = data.len();
    if n == 0 {
        return 0;
    }

    // Byte-value histogram.
    let mut counts: Vec<u64> = Vec::new();
    while counts.len() < 256
        invariant
            counts@.len() <= 256,
            forall|b: int| 0 <= b < counts@.len() ==> counts@[b] == 0,
        decreases 256 - counts@.len(),
    {
        counts.push(0);
    }
    let mut i: usize = 0;
    while i < n
        invariant
            n == data@.len() < 0x1_0000_0000,
            i <= n,
            counts@.len() == 256,
            forall|b: int| 0 <= b < 256 ==> counts@[b] == count_byte(data@.take(i as int), b as u8),
            forall|b: int| 0 <= b < 256 ==> counts@[b] <= i,
        decreases n - i,
    {
        let byte = data[i];
        let c = counts[byte as usize];
        counts.set(byte as usize, c + 1);
        proof {
            assert(data@.take(i as int).push(data@[i as int]) =~= data@.take(i + 1));
            assert forall|b: int| 0 <= b < 256 implies counts@[b] == count_byte(
                data@.take(i + 1),
                b as u8,
            ) by {
                lemma_count_byte_push(data@.take(i as int), data@[i as int], b as u8);
            }
        }
        i = i + 1;
    }
    proof {
        assert(data@.take(n as int) =~= data@);
    }

    // Per-bucket sum of c * (log2 n - log2 c), in Q16 fixed point.
    let ln = log2_fix(n as u64);
    let mut sum: u64 = 0;
    let mut b: usize = 0;
    while b < 256
        invariant
            n == data@.len(),
            1 <= n < 0x1_0000_0000,
            counts@.len() == 256,
            forall|bb: int| 0 <= bb < 256 ==> counts@[bb] == count_byte(data@, bb as u8),
            forall|bb: int| 0 <= bb < 256 ==> counts@[bb] <= n,
            b <= 256,
            ln as int == log2_fix_spec(n as int),
            ln < 0x20_0000,
            sum as int == entropy_sum(data@, n as int, b as int),
            sum <= counts_total(data@, b as int) * 0x20_0000,
            counts_total(data@, b as int) >= 0,
        decreases 256 - b,
    {
        let c = counts[b];
        proof {
            lemma_counts_total_mono(data@, b + 1, 256);
            lemma_counts_total_full(data@);
            assert(counts_total(data@, b as int) + count_byte(data@, b as u8) == counts_total(
                data@,
                b + 1,
            ));
        }
        if c > 0 {
            let lc = log2_fix(c);
            if lc <= ln {
                let d = ln - lc;
                proof {
                    assert(c * d <= c * 0x20_0000 && c * d >= 0) by (nonlinear_arith)
                        requires 0 <= d < 0x20_0000, c >= 1;
                    assert(counts_total(data@, b as int) * 0x20_0000 + c * 0x20_0000
                        == counts_total(data@, b + 1) * 0x20_0000) by (nonlinear_arith)
                        requires counts_total(data@, b as int) + c == counts_total(data@, b + 1);
                    assert(counts_total(data@, b + 1) * 0x20_0000 <= n * 0x20_0000) by (nonlinear_arith)
                        requires counts_total(data@, b + 1) <= n as int, n >= 1;
                }
                sum = sum + c * d;
            } else {
                proof {
                    assert(counts_total(data@, b as int) * 0x20_0000 <= counts_total(data@, b + 1)
                        * 0x20_0000) by (nonlinear_arith)
                        requires counts_total(data@, b as int) + c == counts_total(data@, b + 1), c >= 0;
                }
            }
        } else {
            proof {
                assert(counts_total(data@, b as int) * 0x20_0000 <= counts_total(data@, b + 1)
                    * 0x20_0000) by (nonlinear_arith)
                    requires counts_total(data@, b as int) + c == counts_total(data@, b + 1), c >= 0;
            }
        }
        b = b + 1;
    }

    // Scale the Q16 sum to millibits per byte.
    proof {
        lemma_counts_total_full(data@);
        assert(sum * 1000 <= (n as int * 0x20_0000) * 1000) by (nonlinear_arith)
            requires sum as int <= n as int * 0x20_0000, sum >= 0;
        assert((n as int * 0x20_0000) * 1000 == 32000 * (n as int * 0x10000)) by (nonlinear_arith);
        assert(n as int * 0x10000 >= 1 && n as int * 0x10000 < 0x1_0000_0000_0000) by (nonlinear_arith)
            requires 1 <= (n as int), (n as int) < 0x1_0000_0000;
        vstd::arithmetic::div_mod::lemma_div_is_ordered(
            sum as int * 1000,
            32000 * (n as int * 0x10000),
            n as int * 0x10000,
        );
        vstd::arithmetic::div_mod::lemma_div_multiples_vanish(32000, n as int * 0x10000);
        assert(sum as int * 1000 >= 0) by (nonlinear_arith)
            requires sum >= 0;
        vstd::arithmetic::div_mod::lemma_div_pos_is_pos(sum as int * 1000, n as int * 0x10000);
    }
    let millibits = (sum * 1000) / ((n as u64) * 0x10000);
    if millibits > 8000 {
        8000
    } else {
        millibits as u32
    }
}

} // verus!
