use vstd::prelude::*;

verus! {

/// The number of interleaved samples that `latency_ms` milliseconds of audio
/// take: whole frames at `sample_rate`, times the channel count.
pub open spec fn spec_latency_samples(latency_ms: nat, sample_rate: nat, channels: nat) -> nat {
    (latency_ms * sample_rate / 1000) * channels
}

/// The number of samples to preload into the relay so that playback runs
/// `latency_ms` behind capture; `None` when that number does not fit a `usize`.
pub fn latency_samples(latency_ms: u32, sample_rate: u32, channels: u16) -> (r: Option<usize>)
    ensures
        r matches Some(n) ==> n as nat == spec_latency_samples(
            latency_ms as nat,
            sample_rate as nat,
            channels as nat,
        ),
        r is None <==> spec_latency_samples(latency_ms as nat, sample_rate as nat, channels as nat)
            > usize::MAX,
{
    assert(latency_ms as u64 * sample_rate as u64 <= u32::MAX as u64 * u32::MAX as u64)
        by (nonlinear_arith);
    let product: u64 = latency_ms as u64 * sample_rate as u64;
    let frames: u64 = product / 1000;
    assert(frames as nat == latency_ms as nat * sample_rate as nat / 1000);
    assert(frames as u128 * channels as u128 <= u64::MAX as u128 * u16::MAX as u128)
        by (nonlinear_arith);
    let total: u128 = frames as u128 * channels as u128;
    if total > usize::MAX as u128 {
        None
    } else {
        Some(total as usize)
    }
}

/// The capacity of the relay for a given preload: twice the preload, so that
/// capture may run ahead of playback by as much as the target latency.
/// `None` when that is zero or does not fit a `usize`.
pub fn relay_capacity(latency_samples: usize) -> (r: Option<usize>)
    ensures
        r matches Some(c) ==> c == 2 * latency_samples,
        r is None <==> latency_samples == 0 || 2 * latency_samples > usize::MAX,
{
    if latency_samples == 0 || latency_samples > usize::MAX / 2 {
        None
    } else {
        Some(latency_samples * 2)
    }
}

} // verus!
