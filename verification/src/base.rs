//! Sample formats and the error type shared by the whole crate.

use vstd::prelude::*;

verus! {

/// Largest number of interleaved channels a buffer or filter may carry.
pub const MAX_CHANNELS: u32 = 32;

/// Largest order of a cascaded filter.
pub const MAX_FILTER_ORDER: u32 = 8;

/// Why an operation was refused. Nothing is changed when one is returned.
#[derive(Clone, Copy, Debug, PartialEq, Eq, Structural)]
pub enum Error {
    /// A parameter is zero, out of range, or names a format that the
    /// operation cannot work on.
    InvalidArgs,
    /// The request would change the format, channel count or order of a
    /// filter that is already set up.
    InvalidOperation,
    /// The requested capacity cannot be addressed or allocated.
    OutOfMemory,
    /// Two buffers, or a buffer and a filter, differ in sample format or
    /// channel count.
    FormatMismatch,
    /// An output buffer and an input buffer differ in their number of frames.
    FrameCountMismatch,
}

/// How one sample is stored. A buffer never mixes formats.
#[derive(Clone, Copy, Debug, PartialEq, Eq, Structural)]
pub enum Format {
    /// 8-bit signed integer.
    S8,
    /// 16-bit signed integer, low byte first.
    S16,
    /// 24-bit signed integer, tightly packed.
    S24,
    /// 32-bit signed integer.
    S32,
    /// 32-bit IEEE 754 number.
    F32,
}

impl Format {
    /// Width of one sample in bytes.
    pub open spec fn spec_size_in_bytes(self) -> nat {
        match self {
            Format::S8 => 1,
            Format::S16 => 2,
            Format::S24 => 3,
            Format::S32 => 4,
            Format::F32 => 4,
        }
    }

    /// Width of one sample in bytes.
    pub fn size_in_bytes(self) -> (n: usize)
        ensures
            n == self.spec_size_in_bytes(),
            1 <= n <= 4,
    {
        match self {
            Format::S8 => 1,
            Format::S16 => 2,
            Format::S24 => 3,
            Format::S32 => 4,
            Format::F32 => 4,
        }
    }
}

/// Whether `channels` is a channel count that buffers and filters accept.
pub open spec fn valid_channels(channels: u32) -> bool {
    1 <= channels <= MAX_CHANNELS
}

/// A product is no larger than the product of the bounds of its factors.
pub proof fn lemma_product_range(c: int, x: int, c_bound: int, x_bound: int)
    by (nonlinear_arith)
    requires
        -c_bound <= c <= c_bound,
        -x_bound <= x <= x_bound,
    ensures
        -(c_bound * x_bound) <= c * x <= c_bound * x_bound,
{
}

/// Counting one further around a cycle of `n` positions: the position
/// after `k` is the next one, or the first again after the last.
pub proof fn lemma_mod_successor(k: int, n: int)
    requires
        0 <= k,
        0 < n,
    ensures
        (k + 1) % n == if k % n + 1 == n {
            0
        } else {
            k % n + 1
        },
{
    let q: int = k / n;
    let r: int = k % n;
    vstd::arithmetic::div_mod::lemma_fundamental_div_mod(k, n);
    if r + 1 == n {
        assert(k + 1 == (q + 1) * n + 0) by (nonlinear_arith)
            requires
                k == n * q + r,
                r + 1 == n,
        ;
        vstd::arithmetic::div_mod::lemma_fundamental_div_mod_converse(k + 1, n, q + 1, 0);
    } else {
        assert(k + 1 == q * n + (r + 1)) by (nonlinear_arith)
            requires
                k == n * q + r,
        ;
        vstd::arithmetic::div_mod::lemma_fundamental_div_mod_converse(k + 1, n, q, r + 1);
    }
}

/// Two positions less than one round apart are different positions of the
/// cycle.
pub proof fn lemma_mod_distinct(j: int, m: int, n: int)
    requires
        0 <= j < m < j + n,
    ensures
        j % n != m % n,
{
    vstd::arithmetic::div_mod::lemma_fundamental_div_mod(j, n);
    vstd::arithmetic::div_mod::lemma_fundamental_div_mod(m, n);
    if j % n == m % n {
        let d = m / n - j / n;
        assert(m - j == n * d) by (nonlinear_arith)
            requires
                j == n * (j / n) + j % n,
                m == n * (m / n) + m % n,
                j % n == m % n,
                d == m / n - j / n,
        ;
        assert(false) by (nonlinear_arith)
            requires
                0 < n * d < n,
        ;
    }
}

/// One whole round further on is the same position of the cycle.
pub proof fn lemma_mod_round(k: int, n: int)
    requires
        0 <= k,
        0 < n,
    ensures
        (k + n) % n == k % n,
{
    vstd::arithmetic::div_mod::lemma_mod_add_multiples_vanish(k, n);
}

} // verus!
