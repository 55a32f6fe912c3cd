//! Integer parts of the spectral voice-activity detector: which FFT bin a
//! frequency falls into, and which band a bin belongs to.

use vstd::prelude::*;

verus! {

/// The FFT bin of `freq` Hz for an FFT of `fft_size` points at `sample_rate` Hz,
/// computed in `u32` as `freq * (fft_size as u32) / sample_rate`.
pub open spec fn bin_of(freq: u32, fft_size: usize, sample_rate: u32) -> int {
    (freq * (fft_size as u32)) / (sample_rate as int)
}

/// The FFT bin that holds frequency `freq`.
pub fn freq_to_bin(freq: u32, fft_size: usize, sample_rate: u32) -> (r: usize)
    requires
        sample_rate > 0,
        freq * (fft_size as u32) <= u32::MAX,
    ensures
        r == bin_of(freq, fft_size, sample_rate),
        r * sample_rate <= freq * (fft_size as u32) < (r + 1) * sample_rate,
{
    proof {
        let x = freq * (fft_size as u32);
        assert((x / (sample_rate as int)) * sample_rate <= x < (x / (sample_rate as int) + 1)
            * sample_rate) by (nonlinear_arith)
            requires
                sample_rate > 0,
                x >= 0,
        ;
    }
    (freq * fft_size as u32 / sample_rate) as usize
}

/// A higher frequency never falls into a lower bin.
pub proof fn lemma_bin_monotone(f1: u32, f2: u32, fft_size: usize, sample_rate: u32)
    requires
        sample_rate > 0,
        f1 <= f2,
    ensures
        bin_of(f1, fft_size, sample_rate) <= bin_of(f2, fft_size, sample_rate),
{
    let n = fft_size as u32;
    assert(f1 * n <= f2 * n) by (nonlinear_arith)
        requires
            f1 <= f2,
    ;
    assert((f1 * n) / (sample_rate as int) <= (f2 * n) / (sample_rate as int)) by (nonlinear_arith)
        requires
            f1 * n <= f2 * n,
            sample_rate > 0,
    ;
}

/// The band a spectrum bin counts towards.
#[derive(Clone, Copy, PartialEq, Eq, Structural, Debug)]
pub enum BinBand {
    /// Below the low-frequency cut: counts as low-frequency energy.
    Low,
    /// Inside the speech band: counts as speech energy.
    Speech,
    /// Counted in neither sum.
    Ignored,
}

/// The band of bin `i`: below `low_bin` it is low-frequency; otherwise inside
/// `speech_start..=speech_end` it is speech; otherwise it is ignored.
pub open spec fn band_of(i: usize, low_bin: usize, speech_start: usize, speech_end: usize) -> BinBand {
    if i < low_bin {
        BinBand::Low
    } else if speech_start <= i && i <= speech_end {
        BinBand::Speech
    } else {
        BinBand::Ignored
    }
}

/// Every bin below the low cut counts as low-frequency energy; a bin at or
/// above it counts as speech exactly when it lies in `speech_start..=speech_end`,
/// and is ignored otherwise.
pub proof fn lemma_band_partition(i: usize, low_bin: usize, speech_start: usize, speech_end: usize)
    ensures
        i < low_bin ==> band_of(i, low_bin, speech_start, speech_end) == BinBand::Low,
        i >= low_bin ==> (band_of(i, low_bin, speech_start, speech_end) == BinBand::Speech
            <==> speech_start <= i <= speech_end),
        i >= low_bin ==> (band_of(i, low_bin, speech_start, speech_end) == BinBand::Ignored
            <==> !(speech_start <= i <= speech_end)),
{
}

/// The band that bin `i` is summed into.
pub fn bin_band(i: usize, low_bin: usize, speech_start: usize, speech_end: usize) -> (r: BinBand)
    ensures
        r == band_of(i, low_bin, speech_start, speech_end),
        i < low_bin ==> r == BinBand::Low,
        i >= low_bin ==> (r == BinBand::Speech <==> speech_start <= i <= speech_end),
        i >= low_bin ==> r != BinBand::Low,
{
    if i < low_bin {
        BinBand::Low
    } else if i >= speech_start && i <= speech_end {
        BinBand::Speech
    } else {
        BinBand::Ignored
    }
}

} // verus!
