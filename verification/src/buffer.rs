//! Sample containers: the per-quantum render block and the decoded source
//! buffer.
//!
//! Samples are `i64` fixed-point values; a container is a list of channels,
//! each holding the same number of frames.

use vstd::prelude::*;

verus! {

/// Saturating addition of two samples.
pub open spec fn add_sat_spec(a: int, b: int) -> int {
    if a + b > i64::MAX {
        i64::MAX as int
    } else if a + b < i64::MIN {
        i64::MIN as int
    } else {
        a + b
    }
}

/// Add two samples, clamping at the representable range.
pub fn add_sat(a: i64, b: i64) -> (r: i64)
    ensures
        r as int == add_sat_spec(a as int, b as int),
{
    let s: i128 = a as i128 + b as i128;
    if s > i64::MAX as i128 {
        i64::MAX
    } else if s < i64::MIN as i128 {
        i64::MIN
    } else {
        s as i64
    }
}

/// All channels hold exactly `frames` samples.
pub open spec fn channels_wf(channels: Seq<Seq<i64>>, frames: nat) -> bool {
    forall|c: int| 0 <= c < channels.len() ==> (#[trigger] channels[c]).len() == frames
}

/// One render quantum: a fixed number of channels times frames of samples,
/// filled and consumed by the graph executor.
pub struct AudioRenderQuantum {
    channels: Vec<Vec<i64>>,
}

impl View for AudioRenderQuantum {
    type V = Seq<Seq<i64>>;

    closed spec fn view(&self) -> Seq<Seq<i64>> {
        Seq::new(self.channels@.len(), |c: int| self.channels@[c]@)
    }
}

impl AudioRenderQuantum {
    /// Every channel holds exactly `frames` samples.
    pub open spec fn wf(&self, frames: nat) -> bool {
        channels_wf(self@, frames)
    }

    /// A silent block of `channel_count` channels of `frames` frames.
    pub fn silence(channel_count: usize, frames: usize) -> (r: AudioRenderQuantum)
        ensures
            r@.len() == channel_count,
            r.wf(frames as nat),
            forall|c: int, i: int|
                0 <= c < channel_count && 0 <= i < frames ==> r@[c][i] == 0i64,
    {
        let mut channels: Vec<Vec<i64>> = Vec::new();
        let mut c: usize = 0;
        while c < channel_count
            invariant
                0 <= c <= channel_count,
                channels@.len() == c,
                forall|j: int| 0 <= j < c ==> (#[trigger] channels@[j])@.len() == frames,
                forall|j: int, i: int|
                    0 <= j < c && 0 <= i < frames ==> channels@[j]@[i] == 0i64,
            decreases channel_count - c,
        {
            let mut data: Vec<i64> = Vec::new();
            let mut i: usize = 0;
            while i < frames
                invariant
                    0 <= i <= frames,
                    data@.len() == i,
                    forall|k: int| 0 <= k < i ==> data@[k] == 0i64,
                decreases frames - i,
            {
                data.push(0);
                i += 1;
            }
            channels.push(data);
            c += 1;
        }
        AudioRenderQuantum { channels }
    }

    /// Build a block from channel data.
    pub fn from_channels(channels: Vec<Vec<i64>>) -> (r: AudioRenderQuantum)
        ensures
            r@.len() == channels@.len(),
            forall|c: int| 0 <= c < channels@.len() ==> r@[c] == (#[trigger] channels@[c])@,
    {
        AudioRenderQuantum { channels }
    }

    /// Number of channels in the block.
    pub fn channel_count(&self) -> (r: usize)
        ensures
            r == self@.len(),
    {
        self.channels.len()
    }

    /// Number of frames per channel.
    pub fn frames(&self) -> (r: usize)
        requires
            self@.len() > 0,
        ensures
            r == self@[0].len(),
    {
        self.channels[0].len()
    }

    /// Read access to one channel's samples.
    pub fn channel_data(&self, c: usize) -> (r: &Vec<i64>)
        requires
            c < self@.len(),
        ensures
            r@ == self@[c as int],
    {
        &self.channels[c]
    }

    /// Replace one channel's samples.
    pub fn set_channel(&mut self, c: usize, data: Vec<i64>)
        requires
            c < old(self)@.len(),
        ensures
            final(self)@ == old(self)@.update(c as int, data@),
    {
        self.channels[c] = data;
        proof {
            assert(final(self)@ =~= old(self)@.update(c as int, data@));
        }
    }

    /// A copy of this block mixed to `target` channels, per
    /// [`mixed_sample`]'s policy.
    pub fn mix_to_channel_count(&self, target: usize, frames: usize) -> (r: AudioRenderQuantum)
        requires
            self.wf(frames as nat),
            self@.len() <= MAX_CHANNELS,
            1 <= target <= MAX_CHANNELS,
        ensures
            r@.len() == target,
            r.wf(frames as nat),
            forall|c: int, i: int|
                0 <= c < target && 0 <= i < frames ==> r@[c][i] as int == mixed_sample(
                    self@,
                    c,
                    i,
                    target as nat,
                ),
    {
        let n = self.channels.len();
        let mut out: Vec<Vec<i64>> = Vec::new();
        let mut c: usize = 0;
        while c < target
            invariant
                self.wf(frames as nat),
                n == self@.len(),
                n <= MAX_CHANNELS,
                1 <= target <= MAX_CHANNELS,
                0 <= c <= target,
                out@.len() == c,
                forall|c2: int|
                    0 <= c2 < c ==> (#[trigger] out@[c2])@.len() == frames,
                forall|c2: int, i: int|
                    0 <= c2 < c && 0 <= i < frames ==> out@[c2]@[i] as int == mixed_sample(
                        self@,
                        c2,
                        i,
                        target as nat,
                    ),
            decreases target - c,
        {
            let mut data: Vec<i64> = Vec::new();
            let mut i: usize = 0;
            while i < frames
                invariant
                    self.wf(frames as nat),
                    n == self@.len(),
                    n <= MAX_CHANNELS,
                    1 <= target <= MAX_CHANNELS,
                    0 <= c < target,
                    0 <= i <= frames,
                    data@.len() == i,
                    forall|k: int|
                        0 <= k < i ==> data@[k] as int == mixed_sample(
                            self@,
                            c as int,
                            k,
                            target as nat,
                        ),
                decreases frames - i,
            {
                let v: i64;
                if n == 0 {
                    v = 0;
                } else if target >= n {
                    proof {
                        assert(self@[(c % n) as int] == self.channels@[(c % n) as int]@);
                        assert(self@[(c % n) as int].len() == frames);
                    }
                    v = self.channels[c % n][i];
                    proof {
                        assert(c as int % n as int == (c % n) as int);
                    }
                } else if target == 1 {
                    let mut acc: i128 = 0;
                    let mut j: usize = 0;
                    while j < n
                        invariant
                            self.wf(frames as nat),
                            n == self@.len(),
                            n <= MAX_CHANNELS,
                            0 <= i < frames,
                            0 <= j <= n,
                            acc == chan_sum_to(self@, i as int, j as int),
                            -0x8000_0000_0000_0000 * j <= acc <= 0x7fff_ffff_ffff_ffff * j,
                        decreases n - j,
                    {
                        proof {
                            assert(self@[j as int] == self.channels@[j as int]@);
                            assert(self@[j as int].len() == frames);
                        }
                        acc = acc + self.channels[j][i] as i128;
                        j += 1;
                    }
                    let neg = acc < 0;
                    let mag: u128 = if neg {
                        (-acc) as u128
                    } else {
                        acc as u128
                    };
                    let q: u128 = mag / (n as u128);
                    proof {
                        vstd::arithmetic::div_mod::lemma_div_nonincreasing(mag as int, n as int);
                        assert(mag == crate::math::abs_int(acc as int));
                        assert(crate::math::abs_int(n as int) == n);
                        if neg {
                            assert(mag <= 0x8000_0000_0000_0000 * n);
                            vstd::arithmetic::div_mod::lemma_div_is_ordered(
                                mag as int,
                                0x8000_0000_0000_0000 * n,
                                n as int,
                            );
                            vstd::arithmetic::div_mod::lemma_div_by_multiple(
                                0x8000_0000_0000_0000,
                                n as int,
                            );
                        } else {
                            assert(mag <= 0x7fff_ffff_ffff_ffff * n);
                            vstd::arithmetic::div_mod::lemma_div_is_ordered(
                                mag as int,
                                0x7fff_ffff_ffff_ffff * n,
                                n as int,
                            );
                            vstd::arithmetic::div_mod::lemma_div_by_multiple(
                                0x7fff_ffff_ffff_ffff,
                                n as int,
                            );
                        }
                    }
                    v = if neg {
                        (-(q as i128)) as i64
                    } else {
                        q as i64
                    };
                    proof {
                        assert(v as int == crate::math::div_trunc(acc as int, n as int));
                    }
                } else {
                    proof {
                        assert(self@[c as int] == self.channels@[c as int]@);
                        assert(self@[c as int].len() == frames);
                    }
                    v = self.channels[c][i];
                }
                data.push(v);
                i += 1;
            }
            out.push(data);
            c += 1;
        }
        let r = AudioRenderQuantum { channels: out };
        proof {
            assert forall|c2: int| 0 <= c2 < r@.len() implies (#[trigger] r@[c2]).len()
                == frames by {
                assert(r@[c2] == out@[c2]@);
            }
        }
        r
    }

    /// Add `other` into this block sample by sample, saturating.
    pub fn add_block(&mut self, other: &AudioRenderQuantum)
        requires
            other@.len() == old(self)@.len(),
            forall|c: int|
                0 <= c < old(self)@.len() ==> other@[c].len() == (#[trigger] old(self)@[c]).len(),
        ensures
            final(self)@.len() == old(self)@.len(),
            forall|c: int|
                0 <= c < old(self)@.len() ==> (#[trigger] final(self)@[c]).len() == old(
                    self,
                )@[c].len(),
            forall|c: int, i: int|
                0 <= c < old(self)@.len() && 0 <= i < old(self)@[c].len() ==> final(self)@[c][i]
                    as int == add_sat_spec(old(self)@[c][i] as int, other@[c][i] as int),
    {
        let mut c: usize = 0;
        while c < self.channels.len()
            invariant
                self.channels@.len() == old(self)@.len(),
                other@.len() == old(self)@.len(),
                0 <= c <= old(self)@.len(),
                forall|j: int|
                    0 <= j < old(self)@.len() ==> other@[j].len() == (#[trigger] old(
                        self,
                    )@[j]).len(),
                forall|j: int|
                    0 <= j < old(self)@.len() ==> (#[trigger] self.channels@[j])@.len() == old(
                        self,
                    )@[j].len(),
                forall|j: int, i: int|
                    0 <= j < c && 0 <= i < old(self)@[j].len() ==> self.channels@[j]@[i] as int
                        == add_sat_spec(old(self)@[j][i] as int, other@[j][i] as int),
                forall|j: int, i: int|
                    c <= j < old(self)@.len() && 0 <= i < old(self)@[j].len()
                        ==> self.channels@[j]@[i] == old(self)@[j][i],
            decreases old(self)@.len() - c,
        {
            let mut i: usize = 0;
            let frames = self.channels[c].len();
            while i < frames
                invariant
                    self.channels@.len() == old(self)@.len(),
                    other@.len() == old(self)@.len(),
                    0 <= c < old(self)@.len(),
                    frames == old(self)@[c as int].len(),
                    0 <= i <= frames,
                    forall|j: int|
                        0 <= j < old(self)@.len() ==> other@[j].len() == (#[trigger] old(
                            self,
                        )@[j]).len(),
                    forall|j: int|
                        0 <= j < old(self)@.len() ==> (#[trigger] self.channels@[j])@.len() == old(
                            self,
                        )@[j].len(),
                    forall|j: int, k: int|
                        0 <= j < c && 0 <= k < old(self)@[j].len() ==> self.channels@[j]@[k] as int
                            == add_sat_spec(old(self)@[j][k] as int, other@[j][k] as int),
                    forall|k: int|
                        0 <= k < i ==> self.channels@[c as int]@[k] as int == add_sat_spec(
                            old(self)@[c as int][k] as int,
                            other@[c as int][k] as int,
                        ),
                    forall|k: int|
                        i <= k < frames ==> self.channels@[c as int]@[k] == old(
                            self,
                        )@[c as int][k],
                    forall|j: int, k: int|
                        c < j < old(self)@.len() && 0 <= k < old(self)@[j].len()
                            ==> self.channels@[j]@[k] == old(self)@[j][k],
                decreases frames - i,
            {
                let v = add_sat(self.channels[c][i], other.channels[c][i]);
                self.channels[c][i] = v;
                i += 1;
            }
            c += 1;
        }
        proof {
            assert(forall|j: int|
                0 <= j < old(self)@.len() ==> (#[trigger] final(self)@[j]).len() == old(
                    self,
                )@[j].len());
        }
    }
}

/// Most channels a render block may hold.
pub const MAX_CHANNELS: usize = 32;

/// The sum of the first `j` channels' samples at frame `i`.
pub open spec fn chan_sum_to(channels: Seq<Seq<i64>>, i: int, j: int) -> int
    decreases j,
{
    if j <= 0 {
        0
    } else {
        chan_sum_to(channels, i, j - 1) + channels[j - 1][i]
    }
}

/// The sample of output channel `c` at frame `i` after mixing `channels`
/// to `target` channels: up-mix repeats the input channels in order;
/// down-mix to one channel averages them all (quotient truncated toward
/// zero); any other down-mix keeps the first `target` channels.
pub open spec fn mixed_sample(channels: Seq<Seq<i64>>, c: int, i: int, target: nat) -> int {
    let n = channels.len() as int;
    if n == 0 {
        0
    } else if target >= n {
        channels[c % n][i] as int
    } else if target == 1 {
        crate::math::div_trunc(chan_sum_to(channels, i, n), n)
    } else {
        channels[c][i] as int
    }
}

/// A decoded, immutable source buffer: channels of samples at a given rate.
pub struct AudioBuffer {
    channels: Vec<Vec<i64>>,
    sample_rate: u32,
}

impl View for AudioBuffer {
    type V = Seq<Seq<i64>>;

    closed spec fn view(&self) -> Seq<Seq<i64>> {
        Seq::new(self.channels@.len(), |c: int| self.channels@[c]@)
    }
}

impl AudioBuffer {
    /// Every channel holds exactly `frames` samples.
    pub open spec fn wf(&self, frames: nat) -> bool {
        channels_wf(self@, frames)
    }

    /// The sample rate the buffer was decoded at.
    pub closed spec fn rate_spec(&self) -> u32 {
        self.sample_rate
    }

    /// Build a buffer from decoded channel data.
    pub fn from_channels(channels: Vec<Vec<i64>>, sample_rate: u32) -> (r: AudioBuffer)
        ensures
            r@.len() == channels@.len(),
            forall|c: int| 0 <= c < channels@.len() ==> r@[c] == (#[trigger] channels@[c])@,
            r.rate_spec() == sample_rate,
    {
        AudioBuffer { channels, sample_rate }
    }

    /// Number of channels.
    pub fn channel_count(&self) -> (r: usize)
        ensures
            r == self@.len(),
    {
        self.channels.len()
    }

    /// Number of frames per channel.
    pub fn frames(&self) -> (r: usize)
        requires
            self@.len() > 0,
        ensures
            r == self@[0].len(),
    {
        self.channels[0].len()
    }

    /// The sample rate the buffer was decoded at.
    pub fn sample_rate(&self) -> (r: u32)
        ensures
            r == self.rate_spec(),
    {
        self.sample_rate
    }

    /// The sample of channel `c` at frame `i`.
    pub fn sample(&self, c: usize, i: usize) -> (r: i64)
        requires
            c < self@.len(),
            i < self@[c as int].len(),
        ensures
            r == self@[c as int][i as int],
    {
        self.channels[c][i]
    }
}

} // verus!
