//! How large a filesystem image should be.
//!
//! The formatter never shrinks an image, so an estimate that is too large
//! becomes the size of the image; hence it is kept tight.

use vstd::arithmetic::div_mod::lemma_div_denominator;
use vstd::arithmetic::power2::{lemma2_to64_rest, lemma_pow2_unfold, pow2};
use vstd::prelude::*;

verus! {

/// The rule for the size of an image.
#[derive(Debug, Clone, Copy, PartialEq, Eq, Structural)]
pub enum SizePolicy {
    /// Exactly this many bytes.
    Fixed(u64),
    /// Derived from the uncompressed size of the source archive.
    FromTar { tar_bytes: u64 },
}

/// What is added to the estimate.
pub const HEADROOM_BYTES: u64 = 67_108_864;

/// The least size.
pub const MIN_BYTES: u64 = 134_217_728;

/// The slack ratio, six fifths, as the nearest number with a 53-bit
/// significand: this many times two to the minus 52.
pub const SLACK_SIGNIFICAND: u64 = 5_404_319_552_844_595;

/// Two to the power of 52.
pub const ONE: u64 = 0x10_0000_0000_0000;

/// Two to the power of 53: significands are smaller.
pub const LIMIT: u64 = 0x20_0000_0000_0000;

/// The least power of two of which fewer than [`LIMIT`] fit into `n`.
pub open spec fn unit(n: nat) -> nat
    decreases n,
{
    if n < LIMIT {
        1
    } else {
        2 * unit(n / 2)
    }
}

/// `n` rounded to 53 significant bits, to the nearest, and to the even one of
/// two that are equally near.
pub open spec fn rounded(n: nat) -> nat {
    let u = unit(n);
    if 2 * (n % u) > u || (2 * (n % u) == u && (n / u) % 2 == 1) {
        (n / u + 1) * u
    } else {
        (n / u) * u
    }
}

/// `n` times six fifths in double precision, rounded down to a whole number.
pub open spec fn with_slack(n: nat) -> nat {
    rounded(rounded(n) * SLACK_SIGNIFICAND as nat) / (ONE as nat)
}

/// The size that a number of archive bytes comes to.
pub open spec fn size_for(tar_bytes: u64) -> u64 {
    let slack = if with_slack(tar_bytes as nat) > u64::MAX {
        u64::MAX
    } else {
        with_slack(tar_bytes as nat) as u64
    };
    let est = slack.wrapping_add(HEADROOM_BYTES);
    if est > MIN_BYTES {
        est
    } else {
        MIN_BYTES
    }
}

impl SizePolicy {
    /// The size in bytes.
    pub open spec fn bytes(self) -> u64 {
        match self {
            SizePolicy::Fixed(n) => n,
            SizePolicy::FromTar { tar_bytes } => size_for(tar_bytes),
        }
    }

    /// The size in bytes: what was asked for, or the size of the archive with
    /// a fifth of slack and [`HEADROOM_BYTES`], and at least [`MIN_BYTES`].
    pub fn resolve(&self) -> (n: u64)
        ensures
            n == self.bytes(),
    {
        match *self {
            SizePolicy::Fixed(n) => n,
            SizePolicy::FromTar { tar_bytes } => {
                proof {
                    lemma_rounded(tar_bytes as nat);
                }
                let exact: u128 = round(tar_bytes as u128);
                assert(exact * SLACK_SIGNIFICAND < 0x80_0000_0000_0000_0000_0000_0000_0000)
                    by (nonlinear_arith)
                    requires
                        exact <= 0x2_0000_0000_0000_0000,
                        SLACK_SIGNIFICAND < 0x20_0000_0000_0000,
                ;
                let product: u128 = round(exact * SLACK_SIGNIFICAND as u128);
                let slack: u128 = product / ONE as u128;
                let capped: u64 = if slack > u64::MAX as u128 {
                    u64::MAX
                } else {
                    slack as u64
                };
                let est: u64 = capped.wrapping_add(HEADROOM_BYTES);
                if est > MIN_BYTES {
                    est
                } else {
                    MIN_BYTES
                }
            },
        }
    }
}

/// A unit fits at least half of [`LIMIT`] times, but for the least.
proof fn lemma_unit(n: nat)
    ensures
        unit(n) >= 1,
        n / unit(n) < LIMIT,
        unit(n) > 1 ==> n / unit(n) >= ONE,
    decreases n,
{
    if n >= LIMIT {
        lemma_unit(n / 2);
        lemma_div_denominator(n as int, 2, unit(n / 2) as int);
        if unit(n / 2) == 1 {
            assert(n / 2 >= ONE);
        }
    }
}

/// Rounding changes a number by at most one part in two to the power of 53.
pub proof fn lemma_rounded(n: nat)
    ensures
        rounded(n) * 0x20_0000_0000_0000 <= n * 0x20_0000_0000_0001,
        rounded(n) * 0x20_0000_0000_0000 >= n * 0x1f_ffff_ffff_ffff,
{
    lemma_unit(n);
    let u = unit(n);
    let q = n / u;
    let r = n % u;
    assert(n == q * u + r && r < u) by (nonlinear_arith)
        requires
            u >= 1,
            q == n / u,
            r == n % u,
    ;
    if u > 1 {
        let h: int = LIMIT as int;
        assert((q + 1) * u == q * u + u) by (nonlinear_arith);
        assert(n * 2 >= h * u) by (nonlinear_arith)
            requires
                n == q * u + r,
                r >= 0,
                u >= 1,
                q * 2 >= h,
        ;
        let m = rounded(n);
        assert(-u <= 2 * (m - n) <= u);
        assert(m * h - n * h <= n) by (nonlinear_arith)
            requires
                2 * (m - n) <= u,
                n * 2 >= h * u,
                h > 0,
        ;
        assert(n * h - m * h <= n) by (nonlinear_arith)
            requires
                2 * (n - m) <= u,
                n * 2 >= h * u,
                h > 0,
        ;
        assert(n * (h + 1) == n * h + n) by (nonlinear_arith);
        assert(n * (h - 1) == n * h - n) by (nonlinear_arith);
    } else {
        assert(u == 1);
        assert(r == 0);
        assert(rounded(n) == n) by (nonlinear_arith)
            requires
                rounded(n) == q * u,
                n == q * u + r,
                r == 0,
        ;
    }
}

/// Rounds to 53 significant bits.
fn round(n: u128) -> (m: u128)
    requires
        n < 0x80_0000_0000_0000_0000_0000_0000_0000,
    ensures
        m == rounded(n as nat),
{
    let mut u: u128 = 1;
    let mut q: u128 = n;
    assert(unit(q as nat) * u == unit(n as nat)) by (nonlinear_arith)
        requires
            u == 1,
            q == n,
    ;
    while q >= LIMIT as u128
        invariant
            n < 0x80_0000_0000_0000_0000_0000_0000_0000,
            u >= 1,
            q == n / u,
            unit(q as nat) * u == unit(n as nat),
            u * q <= n,
        decreases q,
    {
        proof {
            lemma_div_denominator(n as int, u as int, 2);
            assert(u * 2 <= n) by (nonlinear_arith)
                requires
                    u * q <= n,
                    q >= 2,
            ;
            assert(unit(q as nat) == 2 * unit((q / 2) as nat));
            assert(unit((q / 2) as nat) * (u * 2) == unit(q as nat) * u) by (nonlinear_arith)
                requires
                    unit(q as nat) == 2 * unit((q / 2) as nat),
            ;
            assert((u * 2) * (n as int / (u * 2)) <= n) by (nonlinear_arith)
                requires
                    u * 2 > 0,
            ;
        }
        u = u * 2;
        q = q / 2;
    }
    assert(u == unit(n as nat)) by (nonlinear_arith)
        requires
            unit(q as nat) * u == unit(n as nat),
            unit(q as nat) == 1,
    ;
    let r: u128 = n % u;
    proof {
        lemma_rounded(n as nat);
        assert((q + 1) * u == q * u + u) by (nonlinear_arith);
        assert(q * u == u * q) by (nonlinear_arith);
        lemma_unit(n as nat);
        if u > 1 {
            assert(u <= n) by (nonlinear_arith)
                requires
                    u * q <= n,
                    q >= 1,
            ;
        }
    }
    if 2 * r > u || (2 * r == u && q % 2 == 1) {
        (q + 1) * u
    } else {
        q * u
    }
}

/// The size that was asked for is taken as it is; any other is at least
/// [`MIN_BYTES`], and larger than the archive by [`HEADROOM_BYTES`] unless it
/// does not fit into a number of 64 bits.
pub proof fn lemma_size_leaves_room(tar_bytes: u64)
    ensures
        size_for(tar_bytes) >= MIN_BYTES,
        with_slack(tar_bytes as nat) + HEADROOM_BYTES <= u64::MAX ==> size_for(tar_bytes)
            >= tar_bytes + HEADROOM_BYTES,
{
    lemma_rounded(tar_bytes as nat);
    let t = rounded(tar_bytes as nat);
    lemma_rounded(t * SLACK_SIGNIFICAND as nat);
    assert(t * SLACK_SIGNIFICAND == t * 5_404_319_552_844_595);
    let p = rounded(t * SLACK_SIGNIFICAND as nat);
    assert(p / 0x10_0000_0000_0000 >= tar_bytes);
}

/// A unit divides every power of two of which more than [`LIMIT`] are needed.
proof fn lemma_unit_divides(n: nat, e: nat) -> (times: nat)
    requires
        n < LIMIT * pow2(e),
    ensures
        times * unit(n) == pow2(e),
    decreases n,
{
    if n < LIMIT {
        assert(pow2(e) * 1 == pow2(e));
        pow2(e)
    } else {
        if e == 0 {
            vstd::arithmetic::power2::lemma2_to64();
        }
        lemma_pow2_unfold(e);
        let half = pow2((e - 1) as nat);
        assert(LIMIT * (2 * half) == 2 * (LIMIT * half)) by (nonlinear_arith);
        let times = lemma_unit_divides(n / 2, (e - 1) as nat);
        assert(times * (2 * unit(n / 2)) == 2 * (times * unit(n / 2))) by (nonlinear_arith);
        times
    }
}

/// The size with slack is six fifths, rounded down, of anything up to two to
/// the power of 48: double precision goes that far.
proof fn lemma_slack_is_six_fifths(n: nat)
    requires
        n <= 0x1_0000_0000_0000,
    ensures
        with_slack(n) == n * 6 / 5,
{
    let one: int = 0x10_0000_0000_0000;
    let p: nat = n * SLACK_SIGNIFICAND as nat;
    assert(n * 5_404_319_552_844_595 * 5 == n * 6 * one - n) by (nonlinear_arith)
        requires
            one == 0x10_0000_0000_0000,
    ;
    assert(p * 5 == n * 6 * one - n);
    lemma_unit(n);
    assert(unit(n) == 1);
    assert(n % 1 == 0);
    assert(rounded(n) == n);
    lemma2_to64_rest();
    assert(pow2(48) == 0x1_0000_0000_0000);
    assert(p < LIMIT * pow2(48)) by (nonlinear_arith)
        requires
            p == n * 5_404_319_552_844_595,
            n <= 0x1_0000_0000_0000,
            pow2(48) == 0x1_0000_0000_0000,
            LIMIT == 0x20_0000_0000_0000,
    ;
    let times = lemma_unit_divides(p, 48);
    lemma_unit(p);
    let u = unit(p);
    let a = p / u;
    let b = p % u;
    assert(p == a * u + b && 0 <= b < u) by (nonlinear_arith)
        requires
            u >= 1,
            a == p / u,
            b == p % u,
    ;
    assert(u <= 0x1_0000_0000_0000) by (nonlinear_arith)
        requires
            times * u == 0x1_0000_0000_0000,
            u >= 1,
    ;
    let r = rounded(p);
    let m: nat = if 2 * b > u || (2 * b == u && a % 2 == 1) {
        a + 1
    } else {
        a
    };
    assert(r == m * u);
    assert((a + 1) * u == a * u + u) by (nonlinear_arith);
    assert(-u <= 2 * (r - p) <= u);
    let q = n * 6 / 5;
    let rest = n * 6 % 5;
    assert(n * 6 == q * 5 + rest);
    assert(n * 6 * one == q * one * 5 + rest * one) by (nonlinear_arith)
        requires
            n * 6 == q * 5 + rest,
    ;
    if rest > 0 {
        assert(one <= rest * one <= 4 * one) by (nonlinear_arith)
            requires
                1 <= rest <= 4,
                one > 0,
        ;
        assert(q * one <= r < q * one + one);
    } else {
        assert(rest * one == 0);
        // Just below a multiple of the unit, nearer to it than half of one.
        let k = n / 5;
        assert(n == k * 5);
        assert(p == q * one - k);
        assert(q == k * 6);
        assert(p < 0x20_0000_0000_0000 * u) by (nonlinear_arith)
            requires
                p == a * u + b,
                b < u,
                a + 1 <= 0x20_0000_0000_0000,
                u >= 1,
        ;
        assert(5 * k < 2 * u || k == 0) by (nonlinear_arith)
            requires
                p == k * 6 * one - k,
                p < 2 * one * u,
                one == 0x10_0000_0000_0000,
                k >= 0,
        ;
        let steps = q * (times * 16);
        assert(steps * u == q * one) by (nonlinear_arith)
            requires
                steps == q * (times * 16),
                times * u == 0x1_0000_0000_0000,
                one == 0x10_0000_0000_0000,
        ;
        assert(-u < r - q * one < u);
        assert(m == steps) by (nonlinear_arith)
            requires
                -u < m * u - steps * u < u,
                u >= 1,
        ;
    }
    assert(r / 0x10_0000_0000_0000 == q) by (nonlinear_arith)
        requires
            q * 0x10_0000_0000_0000 <= r < q * 0x10_0000_0000_0000 + 0x10_0000_0000_0000,
    ;
}

/// The size of an archive of up to two to the power of 48 bytes with a fifth of
/// slack and the headroom, and at least [`MIN_BYTES`].
pub proof fn lemma_size_in_whole_numbers(tar_bytes: u64)
    requires
        tar_bytes <= 0x1_0000_0000_0000,
    ensures
        size_for(tar_bytes) == (if tar_bytes * 6 / 5 + HEADROOM_BYTES > MIN_BYTES {
            tar_bytes * 6 / 5 + HEADROOM_BYTES
        } else {
            MIN_BYTES as int
        }),
{
    lemma_slack_is_six_fifths(tar_bytes as nat);
}

/// A larger archive, of up to two to the power of 48 bytes, never gets a
/// smaller image.
pub proof fn lemma_size_grows(a: u64, b: u64)
    requires
        a <= b <= 0x1_0000_0000_0000,
    ensures
        size_for(a) <= size_for(b),
{
    lemma_size_in_whole_numbers(a);
    lemma_size_in_whole_numbers(b);
}

/// A size that was asked for is taken as it is. Any other is that of the archive
/// with a fifth of slack and 64 MiB of headroom, and at least 128 MiB, for archives
/// of up to two to the power of 48 bytes; it is never less than the archive and
/// the headroom, where that fits.
pub proof fn lemma_sizes_in_numbers(n: u64)
    ensures
        SizePolicy::Fixed(n).bytes() == n,
        n <= 0x1_0000_0000_0000 ==> (SizePolicy::FromTar { tar_bytes: n }).bytes() == (if n * 6 / 5
            + 67_108_864 > 134_217_728 {
            n * 6 / 5 + 67_108_864
        } else {
            134_217_728
        }),
        (SizePolicy::FromTar { tar_bytes: n }).bytes() >= 134_217_728,
        with_slack(n as nat) + 67_108_864 <= u64::MAX ==> (SizePolicy::FromTar {
            tar_bytes: n,
        }).bytes() >= n + 67_108_864,
{
    lemma_size_leaves_room(n);
    if n <= 0x1_0000_0000_0000 {
        lemma_size_in_whole_numbers(n);
    }
}

/// The size with slack is six fifths of the archive for archives of any size, but
/// for one part in two to the power of 48 and one byte.
pub proof fn lemma_slack_is_close_to_six_fifths(n: nat)
    ensures
        with_slack(n) * 0x5_0000_0000_0000 <= n * 0x6_0000_0000_0001,
        (with_slack(n) + 1) * 0x5_0000_0000_0000 >= n * 0x5_ffff_ffff_ffff,
{
    lemma_rounded(n);
    let t = rounded(n);
    lemma_rounded(t * SLACK_SIGNIFICAND as nat);
    assert(t * SLACK_SIGNIFICAND == t * 5_404_319_552_844_595);
    let p = rounded(t * SLACK_SIGNIFICAND as nat);
    let w = with_slack(n);
    assert(w * 0x10_0000_0000_0000 <= p < (w + 1) * 0x10_0000_0000_0000);
}

/// So is the size of an image, with 64 MiB of headroom and at least 128 MiB, where
/// that fits into 64 bits.
pub proof fn lemma_sizes_of_large_archives(n: u64)
    requires
        n * 6 / 5 + n / 0x1_0000_0000_0000 + 67_108_865 <= u64::MAX,
    ensures
        ({
            let size = (SizePolicy::FromTar { tar_bytes: n }).bytes();
            &&& size >= 134_217_728
            &&& size > 134_217_728 ==> size - 67_108_864 <= n * 6 / 5 + n / 0x1_0000_0000_0000 + 1
            &&& size >= n * 6 / 5 - n / 0x1_0000_0000_0000 - 2 + 67_108_864
        }),
{
    lemma_slack_is_close_to_six_fifths(n as nat);
    let w = with_slack(n as nat);
    let q = n as int / 0x1_0000_0000_0000;
    assert(w * 0x5_0000_0000_0000 <= n * 0x6_0000_0000_0001);
    assert((w + 1) * 0x5_0000_0000_0000 >= n * 0x5_ffff_ffff_ffff);
    assert(q * 0x1_0000_0000_0000 <= n < q * 0x1_0000_0000_0000 + 0x1_0000_0000_0000);
    assert(w * 5 <= n * 6 + q + 1);
    assert((w + 1) * 5 >= n * 6 - q - 1);
}

} // verus!
