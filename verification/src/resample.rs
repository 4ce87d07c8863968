//! Where resampling sits relative to the DSP chain, the resampler's
//! parameter checks, and its input chunking.
use vstd::prelude::*;
use crate::file_service::unit_result;

verus! {

/// When resampling happens relative to the DSP chain.
///
/// - `Bypass`: the rates are equal (or no resampler can be built), no
///   resampling at all.
/// - `PreDsp`: the input rate is higher; downsample before the DSP chain so it
///   runs at the lower rate.
/// - `PostDsp`: the input rate is lower; run the DSP chain at the input rate
///   and upsample after it.
#[derive(PartialEq, Eq, Structural, Clone, Copy, Debug)]
pub enum ResamplePolicy {
    Bypass,
    PreDsp,
    PostDsp,
}

/// The checks a resampler's parameters must pass, with their messages.
pub open spec fn resampler_params_check(input_rate: u32, output_rate: u32, chunk_size: usize) -> Result<
    (),
    Seq<char>,
> {
    if input_rate == 0 || output_rate == 0 {
        Err("Sample rates must be > 0"@)
    } else if chunk_size == 0 {
        Err("Chunk size must be > 0"@)
    } else {
        Ok(())
    }
}

/// A resampler's parameters are refused only for a zero rate or a zero chunk
/// size: any ratio between two non-zero rates is accepted.
pub proof fn lemma_params_accepted_iff_nonzero(input_rate: u32, output_rate: u32, chunk_size: usize)
    ensures
        resampler_params_check(input_rate, output_rate, chunk_size) is Ok <==> (input_rate > 0
            && output_rate > 0 && chunk_size > 0),
{
}

/// Checks the parameters of a resampler from `input_rate` to `output_rate`
/// that consumes chunks of `chunk_size` samples.
pub fn check_resampler_params(input_rate: u32, output_rate: u32, chunk_size: usize) -> (r: Result<
    (),
    String,
>)
    ensures
        unit_result(r) == resampler_params_check(input_rate, output_rate, chunk_size),
        r is Ok <==> (input_rate > 0 && output_rate > 0 && chunk_size > 0),
{
    if input_rate == 0 || output_rate == 0 {
        return Err(String::from_str("Sample rates must be > 0"));
    }
    if chunk_size == 0 {
        return Err(String::from_str("Chunk size must be > 0"));
    }
    Ok(())
}

impl ResamplePolicy {
    /// The policy for the given stream rates: bypass for equal rates,
    /// downsampling before the DSP chain for a higher input rate, upsampling
    /// after it for a lower one, and bypass when the resampler's parameters
    /// are refused.
    pub fn from_rates(input_rate: u32, output_rate: u32, chunk_size: usize) -> (r: Self)
        ensures
            r == (if input_rate == output_rate {
                ResamplePolicy::Bypass
            } else if resampler_params_check(input_rate, output_rate, chunk_size) is Err {
                ResamplePolicy::Bypass
            } else if input_rate > output_rate {
                ResamplePolicy::PreDsp
            } else {
                ResamplePolicy::PostDsp
            }),
            input_rate > output_rate && output_rate > 0 && chunk_size > 0 ==> r == ResamplePolicy::PreDsp,
            0 < input_rate && input_rate < output_rate && chunk_size > 0 ==> r == ResamplePolicy::PostDsp,
            input_rate == output_rate || input_rate == 0 || output_rate == 0 || chunk_size == 0
                ==> r == ResamplePolicy::Bypass,
    {
        if input_rate == output_rate {
            return ResamplePolicy::Bypass;
        }
        match check_resampler_params(input_rate, output_rate, chunk_size) {
            Err(_) => ResamplePolicy::Bypass,
            Ok(()) => if input_rate > output_rate {
                ResamplePolicy::PreDsp
            } else {
                ResamplePolicy::PostDsp
            },
        }
    }
}

/// Collects input samples into fixed-size chunks for a chunked resampler.
pub struct ChunkBuffer<T> {
    chunk_size: usize,
    pending: Vec<T>,
}

impl<T> ChunkBuffer<T> {
    /// The chunk size.
    pub closed spec fn size(&self) -> usize {
        self.chunk_size
    }

    /// The samples waiting for their chunk to fill.
    pub closed spec fn pending_spec(&self) -> Seq<T> {
        self.pending@
    }

    /// Fewer samples than a chunk are pending.
    pub open spec fn wf(&self) -> bool {
        self.pending_spec().len() < self.size()
    }

    /// An empty buffer for chunks of `chunk_size` samples.
    pub fn new(chunk_size: usize) -> (r: Self)
        requires
            chunk_size > 0,
        ensures
            r.wf(),
            r.size() == chunk_size,
            r.pending_spec() == Seq::<T>::empty(),
    {
        ChunkBuffer { chunk_size, pending: Vec::new() }
    }

    /// The number of pending samples.
    pub fn pending_len(&self) -> (r: usize)
        ensures
            r == self.pending_spec().len(),
    {
        self.pending.len()
    }

    /// Adds a sample; returns the chunk it completes, if any. No sample is
    /// lost or reordered: the returned chunk followed by what stays pending is
    /// what was pending followed by the new sample.
    pub fn push(&mut self, sample: T) -> (r: Option<Vec<T>>)
        requires
            old(self).wf(),
        ensures
            final(self).wf(),
            final(self).size() == old(self).size(),
            match r {
                None => final(self).pending_spec() == old(self).pending_spec().push(sample),
                Some(chunk) => {
                    &&& chunk@.len() == old(self).size()
                    &&& chunk@ + final(self).pending_spec() == old(self).pending_spec().push(sample)
                },
            },
            r is Some <==> old(self).pending_spec().len() + 1 == old(self).size(),
    {
        self.pending.push(sample);
        if self.pending.len() < self.chunk_size {
            return None;
        }
        let mut chunk: Vec<T> = Vec::new();
        std::mem::swap(&mut chunk, &mut self.pending);
        assert(chunk@ + self.pending@ =~= chunk@);
        Some(chunk)
    }

    /// Takes every pending sample, if there are any.
    pub fn flush(&mut self) -> (r: Option<Vec<T>>)
        ensures
            final(self).size() == old(self).size(),
            final(self).pending_spec() == Seq::<T>::empty(),
            match r {
                None => old(self).pending_spec().len() == 0,
                Some(rest) => rest@ == old(self).pending_spec() && rest@.len() > 0,
            },
    {
        if self.pending.len() == 0 {
            return None;
        }
        let mut rest: Vec<T> = Vec::new();
        std::mem::swap(&mut rest, &mut self.pending);
        Some(rest)
    }
}

/// After a flush, the next `size - 1` pushes release no chunk. `buffers[k]`
/// is the buffer before push `k` and `buffers[k + 1]` after it, and
/// `released[k]` tells whether that push returned a chunk; `flush` and `push`
/// ensure the conditions on them.
pub proof fn lemma_no_chunk_until_full_after_flush<T>(
    buffers: Seq<ChunkBuffer<T>>,
    released: Seq<bool>,
)
    requires
        buffers.len() == released.len() + 1,
        buffers[0].pending_spec().len() == 0,
        released.len() < buffers[0].size(),
        forall|k: int|
            0 <= k < released.len() ==> {
                &&& (#[trigger] buffers[k + 1]).size() == buffers[k].size()
                &&& (released[k] <==> buffers[k].pending_spec().len() + 1 == buffers[k].size())
                &&& !released[k] ==> buffers[k + 1].pending_spec().len() == buffers[k].pending_spec().len() + 1
            },
    ensures
        forall|k: int| 0 <= k < released.len() ==> !(#[trigger] released[k]),
{
    lemma_pending_counts_pushes(buffers, released, released.len() as int);
}

proof fn lemma_pending_counts_pushes<T>(buffers: Seq<ChunkBuffer<T>>, released: Seq<bool>, n: int)
    requires
        buffers.len() == released.len() + 1,
        buffers[0].pending_spec().len() == 0,
        released.len() < buffers[0].size(),
        0 <= n <= released.len(),
        forall|k: int|
            0 <= k < released.len() ==> {
                &&& (#[trigger] buffers[k + 1]).size() == buffers[k].size()
                &&& (released[k] <==> buffers[k].pending_spec().len() + 1 == buffers[k].size())
                &&& !released[k] ==> buffers[k + 1].pending_spec().len() == buffers[k].pending_spec().len() + 1
            },
    ensures
        buffers[n].size() == buffers[0].size(),
        buffers[n].pending_spec().len() == n,
        forall|k: int| 0 <= k < n ==> !(#[trigger] released[k]),
    decreases n,
{
    if n > 0 {
        lemma_pending_counts_pushes(buffers, released, n - 1);
        assert(buffers[(n - 1) + 1].size() == buffers[n - 1].size());
    }
}

} // verus!
