//! Signal energy of a buffer of 16-bit little-endian PCM samples.
//!
//! Energy is the root mean square of the samples, reported in thousandths of
//! a sample step and rounded down, so that the whole computation stays in
//! integers.

use vstd::prelude::*;

verus! {

/// Energy values are scaled by this factor (thousandths).
pub const ENERGY_SCALE: u64 = 1000;

/// Number of whole samples in `bytes`; a trailing odd byte is ignored.
pub open spec fn sample_count(bytes: Seq<u8>) -> nat {
    (bytes.len() / 2) as nat
}

/// The `k`-th sample: two bytes, least significant first, two's complement.
pub open spec fn sample_at(bytes: Seq<u8>, k: int) -> int
    recommends
        0 <= k < sample_count(bytes),
{
    let raw = bytes[2 * k] as int + 256 * (bytes[2 * k + 1] as int);
    if raw >= 0x8000 {
        raw - 0x1_0000
    } else {
        raw
    }
}

/// Sum of the squares of the first `n` samples.
pub open spec fn sum_squares(bytes: Seq<u8>, n: nat) -> nat
    recommends
        n <= sample_count(bytes),
    decreases n,
{
    if n == 0 {
        0
    } else {
        let s = sample_at(bytes, n - 1);
        sum_squares(bytes, (n - 1) as nat) + (s * s) as nat
    }
}

/// `r` is the square root of `x`, rounded down.
pub open spec fn is_floor_sqrt(x: nat, r: nat) -> bool {
    r * r <= x < (r + 1) * (r + 1)
}

/// The square root of `x`, rounded down.
pub open spec fn floor_sqrt(x: nat) -> nat {
    choose|r: nat| is_floor_sqrt(x, r)
}

/// Mean of the squared samples, scaled by the square of `ENERGY_SCALE` and
/// rounded down; zero for a buffer without a whole sample.
pub open spec fn scaled_mean_square(bytes: Seq<u8>) -> nat {
    let n = sample_count(bytes);
    if n == 0 {
        0
    } else {
        sum_squares(bytes, n) * 1_000_000 / n
    }
}

/// Root mean square of the samples in thousandths, rounded down.
pub open spec fn rms_milli(bytes: Seq<u8>) -> nat {
    floor_sqrt(scaled_mean_square(bytes))
}

/// Every byte of the buffer is zero.
pub open spec fn all_zero(bytes: Seq<u8>) -> bool {
    forall|i: int| 0 <= i < bytes.len() ==> bytes[i] == 0
}

/// Zero is its own square root.
pub proof fn lemma_floor_sqrt_zero()
    ensures
        is_floor_sqrt(0, 0),
        floor_sqrt(0) == 0,
{
    assert(is_floor_sqrt(0, 0)) by (nonlinear_arith);
    lemma_floor_sqrt_unique(0, 0);
}

proof fn lemma_square_monotonic(a: nat, b: nat)
    requires
        a <= b,
    ensures
        a * a <= b * b,
{
    assert(a * a <= b * b) by (nonlinear_arith)
        requires
            a <= b,
    ;
}

/// A number has exactly one rounded-down square root.
pub proof fn lemma_floor_sqrt_unique(x: nat, r: nat)
    requires
        is_floor_sqrt(x, r),
    ensures
        floor_sqrt(x) == r,
{
    let c = floor_sqrt(x);
    assert(is_floor_sqrt(x, c));
    if c < r {
        lemma_square_monotonic(c + 1, r);
    } else if r < c {
        lemma_square_monotonic(r + 1, c);
    }
}

/// Each squared sample is at most 2^30.
pub proof fn lemma_sample_square_bound(bytes: Seq<u8>, k: int)
    ensures
        0 <= sample_at(bytes, k) * sample_at(bytes, k) <= 0x4000_0000,
{
    let s = sample_at(bytes, k);
    assert(-0x8000 <= s < 0x8000);
    assert(0 <= s * s <= 0x4000_0000) by (nonlinear_arith)
        requires
            -0x8000 <= s < 0x8000,
    ;
}

/// The sum of `n` squared samples is at most `n` times 2^30.
pub proof fn lemma_sum_squares_bound(bytes: Seq<u8>, n: nat)
    ensures
        sum_squares(bytes, n) <= n * 0x4000_0000,
    decreases n,
{
    if n > 0 {
        lemma_sum_squares_bound(bytes, (n - 1) as nat);
        lemma_sample_square_bound(bytes, n - 1);
    }
}

/// A buffer of zero bytes has no energy.
pub proof fn lemma_silence_has_no_energy(bytes: Seq<u8>)
    requires
        all_zero(bytes),
    ensures
        sum_squares(bytes, sample_count(bytes)) == 0,
        scaled_mean_square(bytes) == 0,
        rms_milli(bytes) == 0,
{
    lemma_zero_sum(bytes, sample_count(bytes));
    lemma_floor_sqrt_zero();
}

proof fn lemma_zero_sum(bytes: Seq<u8>, n: nat)
    requires
        all_zero(bytes),
        n <= sample_count(bytes),
    ensures
        sum_squares(bytes, n) == 0,
    decreases n,
{
    if n > 0 {
        lemma_zero_sum(bytes, (n - 1) as nat);
        assert(sample_at(bytes, n - 1) == 0);
    }
}

/// Square root of `x`, rounded down.
pub fn isqrt(x: u128) -> (r: u128)
    ensures
        r == floor_sqrt(x as nat),
        r < 0x1_0000_0000_0000_0000,
{
    let mut lo: u128 = 0;
    let mut hi: u128 = 0x1_0000_0000_0000_0000;
    assert(x < hi * hi) by (nonlinear_arith)
        requires
            hi == 0x1_0000_0000_0000_0000,
            x <= u128::MAX,
    ;
    while hi - lo > 1
        invariant
            lo < hi <= 0x1_0000_0000_0000_0000,
            lo * lo <= x < hi * hi,
        decreases hi - lo,
    {
        let mid: u128 = lo + (hi - lo) / 2;
        assert(mid * mid <= 0xFFFF_FFFF_FFFF_FFFF * 0xFFFF_FFFF_FFFF_FFFF) by (nonlinear_arith)
            requires
                mid <= 0xFFFF_FFFF_FFFF_FFFF,
        ;
        if mid * mid <= x {
            lo = mid;
        } else {
            hi = mid;
        }
    }
    proof {
        assert(hi == lo + 1);
        assert(is_floor_sqrt(x as nat, lo as nat));
        lemma_floor_sqrt_unique(x as nat, lo as nat);
    }
    lo
}

/// Sum of the squares of all whole samples in the buffer.
pub fn sum_of_squares(audio_samples: &[u8]) -> (total: u128)
    ensures
        total == sum_squares(audio_samples@, sample_count(audio_samples@)),
        total <= sample_count(audio_samples@) * 0x4000_0000,
{
    let n: usize = audio_samples.len() / 2;
    let mut total: u128 = 0;
    let mut k: usize = 0;
    while k < n
        invariant
            n == sample_count(audio_samples@),
            2 * n <= audio_samples.len(),
            k <= n,
            total == sum_squares(audio_samples@, k as nat),
            total <= k * 0x4000_0000,
        decreases n - k,
    {
        let lo: i32 = audio_samples[2 * k] as i32;
        let hi: i32 = audio_samples[2 * k + 1] as i32;
        let raw: i32 = lo + 256 * hi;
        let s: i32 = if raw >= 0x8000 {
            raw - 0x1_0000
        } else {
            raw
        };
        proof {
            assert(s == sample_at(audio_samples@, k as int));
            lemma_sample_square_bound(audio_samples@, k as int);
        }
        let sq: i32 = s * s;
        total = total + sq as u128;
        k = k + 1;
    }
    total
}

/// Root mean square of the samples, in thousandths and rounded down. An
/// empty buffer, or one holding a single byte, has energy zero.
pub fn calculate_audio_energy(audio_samples: &[u8]) -> (energy: u64)
    ensures
        energy == rms_milli(audio_samples@),
        all_zero(audio_samples@) ==> energy == 0,
{
    let n: usize = audio_samples.len() / 2;
    let total: u128 = sum_of_squares(audio_samples);
    proof {
        if all_zero(audio_samples@) {
            lemma_silence_has_no_energy(audio_samples@);
        }
    }
    if n == 0 {
        proof {
            lemma_floor_sqrt_zero();
        }
        return 0;
    }
    assert(total * 1_000_000 <= 0x4000_0000 * 0xFFFF_FFFF_FFFF_FFFF * 1_000_000) by (nonlinear_arith)
        requires
            total <= n * 0x4000_0000,
            n <= 0xFFFF_FFFF_FFFF_FFFF,
    ;
    let q: u128 = total * 1_000_000 / (n as u128);
    let r: u128 = isqrt(q);
    r as u64
}

} // verus!
