//! The cap on rendered audio: at most sixty seconds of samples are written.

use vstd::prelude::*;

verus! {

/// The sample rate of rendered audio, in frames per second.
pub const SAMPLE_RATE: u32 = 44100;

/// The number of channels of rendered audio.
pub const CHANNELS: u16 = 2;

/// The longest rendering, in seconds.
pub const MAX_SECONDS: u64 = 60;

/// The number of samples in the longest rendering: one per frame and
/// channel, for sixty seconds.
pub open spec fn cap_of(sample_rate: u32, channels: u16) -> nat {
    (sample_rate as nat) * (channels as nat) * 60
}

/// The number of samples in the longest rendering.
pub fn sample_cap(sample_rate: u32, channels: u16) -> (cap: u64)
    ensures
        cap == cap_of(sample_rate, channels),
{
    let rate: u64 = sample_rate as u64;
    let wide: u64 = channels as u64;
    assert(rate * wide <= 0xffff_ffff * 0xffff) by (nonlinear_arith)
        requires
            rate <= 0xffff_ffff,
            wide <= 0xffff,
    ;
    let frames: u64 = rate * wide;
    frames * MAX_SECONDS
}

/// Counts the samples of one rendering against the cap.
pub struct SampleBudget {
    cap: u64,
    written: u64,
    truncated: bool,
}

/// The state of a budget, as contracts see it.
pub struct BudgetState {
    /// The most samples that may be written.
    pub cap: nat,
    /// The samples written so far.
    pub written: nat,
    /// Whether a sample was refused.
    pub truncated: bool,
}

impl View for SampleBudget {
    type V = BudgetState;

    closed spec fn view(&self) -> BudgetState {
        BudgetState { cap: self.cap as nat, written: self.written as nat, truncated: self.truncated }
    }
}

impl SampleBudget {
    /// Whether the budget is in a state that it can reach: never more
    /// written than the cap allows, and nothing refused below the cap.
    pub open spec fn wf(&self) -> bool {
        &&& self@.written <= self@.cap
        &&& self@.cap <= 0xffff_ffff * 0xffff * 60
        &&& self@.truncated ==> self@.written == self@.cap
    }

    /// A budget for a rendering at this rate and with this many channels.
    pub fn new(sample_rate: u32, channels: u16) -> (budget: Self)
        ensures
            budget.wf(),
            budget@ == (BudgetState {
                cap: cap_of(sample_rate, channels),
                written: 0,
                truncated: false,
            }),
    {
        assert(cap_of(sample_rate, channels) <= 0xffff_ffff * 0xffff * 60) by (nonlinear_arith)
            requires
                sample_rate <= 0xffff_ffff,
                channels <= 0xffff,
                cap_of(sample_rate, channels) == (sample_rate as nat) * (channels as nat) * 60,
        ;
        SampleBudget { cap: sample_cap(sample_rate, channels), written: 0, truncated: false }
    }

    /// Asks whether one more sample may be written. Below the cap it may,
    /// and is counted; at the cap it may not, and the rendering counts as
    /// truncated from then on.
    pub fn allow(&mut self) -> (allowed: bool)
        requires
            old(self).wf(),
        ensures
            final(self).wf(),
            allowed == (old(self)@.written < old(self)@.cap),
            final(self)@.cap == old(self)@.cap,
            allowed ==> final(self)@.written == old(self)@.written + 1 && final(self)@.truncated
                == old(self)@.truncated,
            !allowed ==> final(self)@.written == old(self)@.written && final(self)@.truncated,
    {
        if self.written < self.cap {
            self.written = self.written + 1;
            true
        } else {
            self.truncated = true;
            false
        }
    }

    /// The samples written so far.
    pub fn written(&self) -> (count: u64)
        ensures
            count == self@.written,
    {
        self.written
    }

    /// Whether a sample was refused, which calls for a warning.
    pub fn was_truncated(&self) -> (truncated: bool)
        ensures
            truncated == self@.truncated,
    {
        self.truncated
    }

    /// The size in bytes of what was written, with samples of this width.
    pub fn byte_len(&self, bytes_per_sample: u8) -> (bytes: u64)
        requires
            self.wf(),
        ensures
            bytes == self@.written * bytes_per_sample,
    {
        let width: u64 = bytes_per_sample as u64;
        assert(self.written * width <= 0xffff_ffff * 0xffff * 60 * 255) by (nonlinear_arith)
            requires
                self.written <= 0xffff_ffff * 0xffff * 60,
                width <= 255,
        ;
        self.written * width
    }
}

} // verus!
