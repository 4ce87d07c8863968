//! Sizing decisions of the cabinet simulator: which impulse-response file it
//! loads, how much of the response it keeps, whether the response must be
//! resampled, and the FFT size of its block convolution.
use vstd::prelude::*;
use vstd::arithmetic::power2::{
    lemma2_to64, lemma_pow2_strictly_increases, lemma_pow2_unfold, pow2,
};
use crate::text::{chars_of, trim, trim_bounds};

verus! {

/// The impulse response loaded when no profile is named.
pub open spec fn default_ir_file() -> Seq<char> {
    "info-support-halway.wav"@
}

/// Input samples gathered before one FFT convolution pass.
pub const CONV_BLOCK_SIZE: usize = 256;

/// Longest impulse response kept, to bound real-time cost.
pub const MAX_IR_SAMPLES: usize = 2048;

/// The impulse-response file to load: the default file when `ir_file_path` is
/// blank, else `ir_file_path` as given.
pub fn selected_ir_file(ir_file_path: &str) -> (r: String)
    ensures
        trim(ir_file_path@).len() == 0 ==> r@ == default_ir_file(),
        trim(ir_file_path@).len() > 0 ==> r@ == ir_file_path@,
{
    let v = chars_of(ir_file_path);
    let (start, end) = trim_bounds(&v);
    if start == end {
        String::from_str("info-support-halway.wav")
    } else {
        String::from_str(ir_file_path)
    }
}

/// The number of impulse-response samples kept from `len` loaded ones.
pub fn kept_ir_len(len: usize) -> (r: usize)
    ensures
        r == (if len > MAX_IR_SAMPLES { MAX_IR_SAMPLES } else { len }),
{
    if len > MAX_IR_SAMPLES {
        MAX_IR_SAMPLES
    } else {
        len
    }
}

/// Whether an impulse response of `len` samples at `source_rate` must be
/// resampled to `target_rate`: it has at least two samples, both rates are
/// known, and they differ.
pub fn ir_needs_resampling(len: usize, source_rate: u32, target_rate: u32) -> (r: bool)
    ensures
        r == (len >= 2 && source_rate != 0 && target_rate != 0 && source_rate != target_rate),
{
    !(len < 2 || source_rate == 0 || target_rate == 0 || source_rate == target_rate)
}

/// `p` is the smallest power of two that is at least `n`.
pub open spec fn is_next_power_of_two(n: int, p: int) -> bool {
    exists|k: nat|
        p == #[trigger] pow2(k) && p >= n && (k == 0 || pow2((k - 1) as nat) < n)
}

/// `usize::next_power_of_two` for values up to 2^30.
fn next_power_of_two(n: usize) -> (p: usize)
    requires
        n <= 0x4000_0000,
    ensures
        is_next_power_of_two(n as int, p as int),
{
    let mut p: usize = 1;
    let ghost mut k: nat = 0;
    proof {
        lemma2_to64();
    }
    while p < n
        invariant
            n <= 0x4000_0000,
            p == pow2(k),
            k == 0 || pow2((k - 1) as nat) < n,
            p <= 0x4000_0000,
            p >= 1,
        decreases 0x4000_0000 - p,
    {
        proof {
            lemma2_to64();
            lemma_pow2_unfold(k + 1);
            if k >= 30 {
                if k > 30 {
                    lemma_pow2_strictly_increases(30, k);
                }
                assert(false);
            }
            if k + 1 < 30 {
                lemma_pow2_strictly_increases(k + 1, 30);
            }
        }
        p = p * 2;
        proof {
            k = k + 1;
        }
    }
    p
}

/// The length of one block's linear convolution with `ir_len` samples.
pub open spec fn block_conv_len(ir_len: int) -> int {
    CONV_BLOCK_SIZE + (if ir_len > 0 { ir_len - 1 } else { 0 })
}

/// The FFT size chosen for an IR of `ir_len` samples holds one block's
/// linear convolution with the IR (`CONV_BLOCK_SIZE + ir_len - 1` samples,
/// or a block for an empty IR), is a power of two, and is the smallest such
/// power of two that is at least 2.
pub proof fn lemma_fft_size_holds_block_convolution(ir_len: int, p: int)
    requires
        ir_len >= 0,
        is_next_power_of_two(block_conv_len(ir_len), p),
    ensures
        ({
            let len = if ir_len >= 1 { CONV_BLOCK_SIZE + ir_len - 1 } else { CONV_BLOCK_SIZE as int };
            let r = if p > 2 { p } else { 2 };
            &&& r >= len
            &&& exists|k: nat| r == #[trigger] pow2(k)
            &&& r / 2 < (if len > 2 { len } else { 2 })
        }),
{
    let k = choose|k: nat| p == #[trigger] pow2(k) && p >= block_conv_len(ir_len) && (k == 0 || pow2((k - 1) as nat) < block_conv_len(ir_len));
    let len = if ir_len >= 1 { CONV_BLOCK_SIZE + ir_len - 1 } else { CONV_BLOCK_SIZE as int };
    assert(len == block_conv_len(ir_len));
    lemma2_to64();
    if k >= 1 {
        lemma_pow2_unfold(k);
        assert(p / 2 == pow2((k - 1) as nat));
    }
    if p <= 2 {
        assert(2 == pow2(1));
    }
}

/// The FFT size for convolving blocks with an impulse response of `ir_len`
/// samples: the next power of two that holds one block's linear convolution,
/// and at least 2.
pub fn ir_fft_size(ir_len: usize) -> (r: usize)
    requires
        ir_len <= MAX_IR_SAMPLES,
    ensures
        exists|p: int| #[trigger] is_next_power_of_two(block_conv_len(ir_len as int), p) && r == (if p > 2 { p } else { 2 }),
        ir_len >= 1 ==> r >= CONV_BLOCK_SIZE + ir_len - 1,
        r >= CONV_BLOCK_SIZE,
        exists|k: nat| r == #[trigger] pow2(k),
        r / 2 < (if ir_len >= 1 { CONV_BLOCK_SIZE + ir_len - 1 } else { CONV_BLOCK_SIZE as int }),
{
    let conv_len = CONV_BLOCK_SIZE + ir_len.saturating_sub(1);
    let p = next_power_of_two(conv_len);
    assert(conv_len == block_conv_len(ir_len as int));
    let r = if p > 2 {
        p
    } else {
        2
    };
    assert(is_next_power_of_two(block_conv_len(ir_len as int), p as int) && r == (if p > 2 { p } else { 2 }));
    proof {
        lemma_fft_size_holds_block_convolution(ir_len as int, p as int);
    }
    r
}

} // verus!
