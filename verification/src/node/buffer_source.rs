//! Sample-accurate scheduling for a node that streams from a fixed buffer.
//!
//! Times are absolute frame indices; read positions and playback rates are
//! `i64` fixed-point values with [`POS_ONE`] units per frame, so that offset,
//! loop and rate arithmetic is exact.  Sub-frame positions read the nearest
//! frame.  The state machine runs unscheduled → scheduled → playing →
//! ended, and stages exactly one lifecycle event when playback ends.

use crate::buffer::AudioBuffer;
use crate::buffer::AudioRenderQuantum;
use crate::buffer::channels_wf;
use crate::events::EventEmitter;
use crate::events::EventType;
use vstd::prelude::*;

verus! {

/// Fixed-point scale: one frame of read position.
pub const POS_ONE: i64 = 65536;

/// Half a frame, the rounding offset for nearest-frame reads.
pub const POS_HALF: i64 = 32768;

/// Most frames a source buffer may hold.
pub const MAX_BUFFER_FRAMES: usize = 0x4000_0000;

/// Largest playback-rate magnitude, in fixed-point frames per frame.
pub const MAX_RATE_MAG: i64 = 0x4000_0000_0000;

/// Largest position magnitude the scheduler ever stores.
pub const MAX_POS_MAG: i64 = 0x2000_0000_0000_0000;

/// Where a source is in its lifecycle.
#[derive(Debug, Copy, Clone, PartialEq, Eq, Structural)]
pub enum PlaybackState {
    /// Not started yet.
    Unscheduled,
    /// Start is scheduled but its time has not been reached.
    Scheduled,
    /// Actively producing samples.
    Playing,
    /// Finished, by stop time, duration, or running off the buffer.
    Ended,
}

/// `v` clamped into `[lo, hi]`.
pub open spec fn clamp_spec(v: int, lo: int, hi: int) -> int {
    if v < lo {
        lo
    } else if v > hi {
        hi
    } else {
        v
    }
}

/// The frame index a fixed-point position reads: the nearest frame, or `-1`
/// for negative positions (always out of range).
pub open spec fn read_index(pos: int) -> int {
    if pos < 0 {
        -1
    } else {
        (pos + POS_HALF) / (POS_ONE as int)
    }
}

/// The frame a looping source reads at `pos`: the nearest frame, clamped to
/// the nearest existing one, since looped playback never runs off the buffer
/// (a position within half a frame below the loop end must read the last
/// frame of the region, not silence).
pub open spec fn loop_read_index(pos: int, frames: nat) -> int
    recommends
        frames > 0,
{
    let idx = read_index(pos);
    if idx < 0 {
        0
    } else if idx >= frames {
        frames - 1
    } else {
        idx
    }
}

/// `d` reduced modulo `len` into `[0, len)`.
pub open spec fn wrap_offset(d: int, len: int) -> int
    recommends
        len > 0,
{
    if d >= 0 {
        d % len
    } else {
        if (-d) % len == 0 {
            0
        } else {
            len - ((-d) % len)
        }
    }
}

/// The render-side buffer source: the decoded buffer plus the scheduling
/// state that drives sample-accurate playback.
pub struct AudioBufferSourceRenderer {
    /// The decoded source data, immutable once handed over.
    pub buffer: AudioBuffer,
    /// Lifecycle state.
    pub state: PlaybackState,
    /// Absolute frame at which playback starts.
    pub start_frame: u64,
    /// Absolute frame at which playback stops (`u64::MAX`: never).
    pub stop_frame: u64,
    /// Most frames of output to produce (`u64::MAX`: unlimited).
    pub duration_frames: u64,
    /// Whether the read position wraps in the loop region.
    pub loop_enabled: bool,
    /// Loop region start, fixed-point.
    pub loop_start: i64,
    /// Loop region end (exclusive), fixed-point.
    pub loop_end: i64,
    /// Playback rate, fixed-point frames per output frame; negative reads
    /// backward.
    pub rate: i64,
    /// Current read position, fixed-point.
    pub position: i64,
    /// The staged lifecycle event, if any.
    pub staged_event: Option<EventType>,
}

impl AudioBufferSourceRenderer {
    /// Frames per channel of the source buffer.
    pub open spec fn buf_frames(&self) -> nat {
        if self.buffer@.len() == 0 {
            0
        } else {
            self.buffer@[0].len()
        }
    }

    /// Internal well-formedness.
    pub open spec fn wf(&self) -> bool {
        &&& channels_wf(self.buffer@, self.buf_frames())
        &&& self.buf_frames() <= MAX_BUFFER_FRAMES as nat
        &&& -(MAX_POS_MAG as int) <= self.position <= MAX_POS_MAG as int
        &&& -(MAX_RATE_MAG as int) <= self.rate <= MAX_RATE_MAG as int
        &&& self.loop_enabled ==> 0 <= self.loop_start < self.loop_end
            <= self.buf_frames() * POS_ONE
    }

    /// Whether frame `t` lies inside the scheduled window.
    pub open spec fn window_active(&self, t: u64) -> bool {
        &&& self.start_frame <= t
        &&& t < self.stop_frame
        &&& t - self.start_frame < self.duration_frames
    }

    /// Build a source over `buffer`, unscheduled, at rate one.
    pub fn new(buffer: AudioBuffer) -> (r: AudioBufferSourceRenderer)
        requires
            channels_wf(
                buffer@,
                if buffer@.len() == 0 {
                    0
                } else {
                    buffer@[0].len()
                },
            ),
            buffer@.len() == 0 || buffer@[0].len() <= MAX_BUFFER_FRAMES,
        ensures
            r.wf(),
            r.buffer@ == buffer@,
            r.state == PlaybackState::Unscheduled,
            r.staged_event is None,
            r.rate == POS_ONE,
            r.loop_enabled == false,
    {
        AudioBufferSourceRenderer {
            buffer,
            state: PlaybackState::Unscheduled,
            start_frame: 0,
            stop_frame: u64::MAX,
            duration_frames: u64::MAX,
            loop_enabled: false,
            loop_start: 0,
            loop_end: 0,
            rate: POS_ONE,
            position: 0,
            staged_event: None,
        }
    }

    /// Schedule playback: start at frame `when`, reading from the fixed-point
    /// `offset`, for at most `duration` frames of output.
    pub fn start(&mut self, when: u64, offset: i64, duration: u64)
        requires
            old(self).wf(),
            old(self).state == PlaybackState::Unscheduled,
            0 <= offset <= old(self).buf_frames() * POS_ONE,
        ensures
            final(self).wf(),
            *final(self) == (AudioBufferSourceRenderer {
                state: PlaybackState::Scheduled,
                start_frame: when,
                duration_frames: duration,
                position: offset,
                ..*old(self)
            }),
    {
        self.state = PlaybackState::Scheduled;
        self.start_frame = when;
        self.duration_frames = duration;
        self.position = offset;
    }

    /// Schedule the stop of playback at frame `when`.
    pub fn stop(&mut self, when: u64)
        requires
            old(self).wf(),
            old(self).state == PlaybackState::Scheduled || old(self).state
                == PlaybackState::Playing,
        ensures
            final(self).wf(),
            *final(self) == (AudioBufferSourceRenderer { stop_frame: when, ..*old(self) }),
    {
        self.stop_frame = when;
    }

    /// Enable or disable looping between the fixed-point positions `start`
    /// and `end`.  Bounds that are unset or invalid (`start >= end`, or
    /// outside the buffer) fall back to the whole buffer; a buffer with no
    /// frames cannot loop.
    pub fn set_loop(&mut self, enabled: bool, start: i64, end: i64)
        requires
            old(self).wf(),
        ensures
            final(self).wf(),
            ({
                let full_end = old(self).buf_frames() * POS_ONE;
                let valid = 0 <= start && start < end && end <= full_end;
                if !enabled {
                    *final(self) == (AudioBufferSourceRenderer {
                        loop_enabled: false,
                        ..*old(self)
                    })
                } else if old(self).buf_frames() == 0 {
                    *final(self) == (AudioBufferSourceRenderer {
                        loop_enabled: false,
                        ..*old(self)
                    })
                } else if valid {
                    *final(self) == (AudioBufferSourceRenderer {
                        loop_enabled: true,
                        loop_start: start,
                        loop_end: end,
                        ..*old(self)
                    })
                } else {
                    *final(self) == (AudioBufferSourceRenderer {
                        loop_enabled: true,
                        loop_start: 0,
                        loop_end: full_end as i64,
                        ..*old(self)
                    })
                }
            }),
    {
        if !enabled {
            self.loop_enabled = false;
            return;
        }
        let frames = self.buffer.channel_count();
        let nframes: usize = if frames == 0 {
            0
        } else {
            self.buffer.frames()
        };
        if nframes == 0 {
            self.loop_enabled = false;
            return;
        }
        let full_end: i64 = (nframes as i64) * POS_ONE;
        proof {
            assert(nframes as int * POS_ONE <= 0x4000_0000 * 65536) by (nonlinear_arith)
                requires
                    0 <= nframes as int <= 0x4000_0000,
            ;
        }
        if 0 <= start && start < end && end <= full_end {
            self.loop_enabled = true;
            self.loop_start = start;
            self.loop_end = end;
        } else {
            self.loop_enabled = true;
            self.loop_start = 0;
            self.loop_end = full_end;
        }
    }

    /// Set the playback rate, clamped to the representable magnitude.
    pub fn set_playback_rate(&mut self, rate: i64)
        requires
            old(self).wf(),
        ensures
            final(self).wf(),
            *final(self) == (AudioBufferSourceRenderer {
                rate: clamp_spec(
                    rate as int,
                    -(MAX_RATE_MAG as int),
                    MAX_RATE_MAG as int,
                ) as i64,
                ..*old(self)
            }),
    {
        let r = if rate < -MAX_RATE_MAG {
            -MAX_RATE_MAG
        } else if rate > MAX_RATE_MAG {
            MAX_RATE_MAG
        } else {
            rate
        };
        self.rate = r;
    }
}

impl AudioBufferSourceRenderer {
    /// `Some(Ended)` staged on top of whatever was staged before: at most one
    /// event per activation.
    pub open spec fn stage_ended(e: Option<EventType>) -> Option<EventType> {
        if e is Some {
            e
        } else {
            Some(EventType::Ended)
        }
    }

    /// The scheduler state promoted from scheduled to playing once the start
    /// frame is reached.
    pub open spec fn promoted(s: AudioBufferSourceRenderer, t: u64) -> AudioBufferSourceRenderer {
        if s.state is Scheduled && t >= s.start_frame {
            AudioBufferSourceRenderer { state: PlaybackState::Playing, ..s }
        } else {
            s
        }
    }

    /// The scheduler state after rendering frame `t`.
    pub open spec fn step_state(s: AudioBufferSourceRenderer, t: u64) -> AudioBufferSourceRenderer {
        let e = Self::promoted(s, t);
        if !(e.state is Playing) {
            e
        } else if !e.window_active(t) {
            AudioBufferSourceRenderer {
                state: PlaybackState::Ended,
                staged_event: Self::stage_ended(e.staged_event),
                ..e
            }
        } else {
            let idx = read_index(e.position as int);
            if !e.loop_enabled && !(0 <= idx < e.buf_frames()) {
                AudioBufferSourceRenderer {
                    state: PlaybackState::Ended,
                    staged_event: Self::stage_ended(e.staged_event),
                    ..e
                }
            } else {
                let p1 = clamp_spec(
                    e.position + e.rate,
                    -(MAX_POS_MAG as int),
                    MAX_POS_MAG as int,
                );
                let p2 = if e.loop_enabled && ((e.rate >= 0 && p1 >= e.loop_end) || (e.rate < 0
                    && p1 < e.loop_start)) {
                    e.loop_start + wrap_offset(p1 - e.loop_start, e.loop_end - e.loop_start)
                } else {
                    p1
                };
                AudioBufferSourceRenderer { position: p2 as i64, ..e }
            }
        }
    }

    /// The sample that channel `ch` outputs at frame `t`: the nearest source
    /// frame while playback is active and the position is inside the buffer,
    /// silence otherwise.
    pub open spec fn step_sample(s: AudioBufferSourceRenderer, t: u64, ch: int) -> i64 {
        let e = Self::promoted(s, t);
        if e.state is Playing && e.window_active(t) {
            if e.loop_enabled {
                if e.buf_frames() > 0 && 0 <= ch < e.buffer@.len() {
                    e.buffer@[ch][loop_read_index(e.position as int, e.buf_frames())]
                } else {
                    0i64
                }
            } else {
                let idx = read_index(e.position as int);
                if 0 <= idx < e.buf_frames() && 0 <= ch < e.buffer@.len() {
                    e.buffer@[ch][idx]
                } else {
                    0i64
                }
            }
        } else {
            0i64
        }
    }

    /// The scheduler state after rendering `k` frames starting at frame `t0`.
    pub open spec fn state_after(
        s: AudioBufferSourceRenderer,
        t0: u64,
        k: nat,
    ) -> AudioBufferSourceRenderer
        decreases k,
    {
        if k == 0 {
            s
        } else {
            Self::step_state(Self::state_after(s, t0, (k - 1) as nat), (t0 + k - 1) as u64)
        }
    }

    /// Render one frame at absolute frame `t`: one sample per buffer channel,
    /// advancing the scheduling state.
    pub fn render_frame(&mut self, t: u64) -> (out: Vec<i64>)
        requires
            old(self).wf(),
        ensures
            final(self).wf(),
            *final(self) == Self::step_state(*old(self), t),
            out@.len() == old(self).buffer@.len(),
            forall|ch: int|
                0 <= ch < out@.len() ==> out@[ch] == Self::step_sample(*old(self), t, ch),
    {
        let ghost s0 = *self;
        if matches!(self.state, PlaybackState::Scheduled) && t >= self.start_frame {
            self.state = PlaybackState::Playing;
        }
        proof {
            assert(*self == Self::promoted(s0, t));
        }
        let ghost e = *self;
        let channel_count = self.buffer.channel_count();
        if !matches!(self.state, PlaybackState::Playing) {
            return zero_column(channel_count);
        }
        let active = self.start_frame <= t && t < self.stop_frame && t - self.start_frame
            < self.duration_frames;
        if !active {
            self.state = PlaybackState::Ended;
            if self.staged_event.is_none() {
                self.staged_event = Some(EventType::Ended);
            }
            proof {
                assert(*self == Self::step_state(s0, t));
            }
            return zero_column(channel_count);
        }
        let nframes: usize = if channel_count == 0 {
            0
        } else {
            self.buffer.frames()
        };
        let in_buf: bool;
        let idx: usize;
        if self.position < 0 {
            in_buf = false;
            idx = 0;
            proof {
                assert(read_index(self.position as int) == -1);
            }
        } else {
            let iu: u64 = ((self.position as u64) + (POS_HALF as u64)) / (POS_ONE as u64);
            in_buf = iu < nframes as u64;
            idx = if in_buf {
                iu as usize
            } else {
                0
            };
            proof {
                assert(iu == read_index(self.position as int));
            }
        }
        proof {
            assert(in_buf == (0 <= read_index(e.position as int) < e.buf_frames()));
        }
        let read_ok: bool;
        let ridx: usize;
        if self.loop_enabled {
            if nframes == 0 {
                read_ok = false;
                ridx = 0;
            } else {
                read_ok = true;
                ridx = if self.position < 0 {
                    0
                } else if in_buf {
                    idx
                } else {
                    nframes - 1
                };
                proof {
                    assert(ridx == loop_read_index(e.position as int, e.buf_frames()));
                }
            }
        } else {
            read_ok = in_buf;
            ridx = idx;
        }
        let mut out: Vec<i64>;
        if read_ok {
            out = Vec::new();
            let mut ch: usize = 0;
            while ch < channel_count
                invariant
                    channel_count == self.buffer@.len(),
                    channels_wf(self.buffer@, self.buf_frames()),
                    ridx < self.buf_frames(),
                    0 <= ch <= channel_count,
                    out@.len() == ch,
                    forall|j: int|
                        0 <= j < ch ==> out@[j] == self.buffer@[j][ridx as int],
                decreases channel_count - ch,
            {
                let v = self.buffer.sample(ch, ridx);
                out.push(v);
                ch += 1;
            }
        } else {
            out = zero_column(channel_count);
        }
        if !self.loop_enabled && !in_buf {
            self.state = PlaybackState::Ended;
            if self.staged_event.is_none() {
                self.staged_event = Some(EventType::Ended);
            }
            proof {
                assert(*self == Self::step_state(s0, t));
            }
            return out;
        }
        let sum: i64 = self.position + self.rate;
        let p1: i64 = if sum < -MAX_POS_MAG {
            -MAX_POS_MAG
        } else if sum > MAX_POS_MAG {
            MAX_POS_MAG
        } else {
            sum
        };
        if self.loop_enabled && ((self.rate >= 0 && p1 >= self.loop_end) || (self.rate < 0 && p1
            < self.loop_start)) {
            let wrapped = wrap_into_region(p1, self.loop_start, self.loop_end);
            self.position = wrapped;
        } else {
            self.position = p1;
        }
        proof {
            assert(*self == Self::step_state(s0, t));
        }
        out
    }

    /// Render `frames` frames starting at absolute frame `t0` into one block,
    /// one output channel per buffer channel.
    pub fn process_quantum(&mut self, t0: u64, frames: usize) -> (out: AudioRenderQuantum)
        requires
            old(self).wf(),
            t0 + frames <= u64::MAX,
        ensures
            final(self).wf(),
            *final(self) == Self::state_after(*old(self), t0, frames as nat),
            out@.len() == old(self).buffer@.len(),
            forall|ch: int|
                0 <= ch < out@.len() ==> (#[trigger] out@[ch]).len() == frames,
            forall|ch: int, k: int|
                0 <= ch < out@.len() && 0 <= k < frames ==> out@[ch][k] == Self::step_sample(
                    Self::state_after(*old(self), t0, k as nat),
                    (t0 + k) as u64,
                    ch,
                ),
    {
        let channel_count = self.buffer.channel_count();
        let mut channels: Vec<Vec<i64>> = Vec::new();
        let mut ch: usize = 0;
        while ch < channel_count
            invariant
                0 <= ch <= channel_count,
                channels@.len() == ch,
                forall|j: int| 0 <= j < ch ==> (#[trigger] channels@[j])@.len() == 0,
            decreases channel_count - ch,
        {
            channels.push(Vec::new());
            ch += 1;
        }
        let mut k: usize = 0;
        while k < frames
            invariant
                self.wf(),
                t0 + frames <= u64::MAX,
                0 <= k <= frames,
                channel_count == old(self).buffer@.len(),
                self.buffer@ == old(self).buffer@,
                *self == Self::state_after(*old(self), t0, k as nat),
                channels@.len() == channel_count,
                forall|j: int|
                    0 <= j < channel_count ==> (#[trigger] channels@[j])@.len() == k,
                forall|j: int, m: int|
                    0 <= j < channel_count && 0 <= m < k ==> channels@[j]@[m] == Self::step_sample(
                        Self::state_after(*old(self), t0, m as nat),
                        (t0 + m) as u64,
                        j,
                    ),
            decreases frames - k,
        {
            let ghost pre = *self;
            let col = self.render_frame(t0 + k as u64);
            proof {
                assert(*self == Self::state_after(*old(self), t0, (k + 1) as nat));
            }
            let mut j: usize = 0;
            while j < channel_count
                invariant
                    0 <= j <= channel_count,
                    col@.len() == channel_count,
                    channels@.len() == channel_count,
                    0 <= k < frames,
                    forall|c2: int|
                        0 <= c2 < j ==> (#[trigger] channels@[c2])@.len() == k + 1,
                    forall|c2: int|
                        j <= c2 < channel_count ==> (#[trigger] channels@[c2])@.len() == k,
                    forall|c2: int|
                        0 <= c2 < j ==> (#[trigger] channels@[c2])@[k as int] == col@[c2],
                    forall|c2: int, m: int|
                        0 <= c2 < channel_count && 0 <= m < k ==> channels@[c2]@[m] == Self::step_sample(
                            Self::state_after(*old(self), t0, m as nat),
                            (t0 + m) as u64,
                            c2,
                        ),
                decreases channel_count - j,
            {
                let v = col[j];
                channels[j].push(v);
                j += 1;
            }
            k += 1;
        }
        let out = AudioRenderQuantum::from_channels(channels);
        proof {
            assert forall|ch2: int| 0 <= ch2 < out@.len() implies (#[trigger] out@[ch2]).len()
                == frames by {
                assert(out@[ch2] == channels@[ch2]@);
            }
            assert forall|ch2: int, k2: int|
                0 <= ch2 < out@.len() && 0 <= k2 < frames implies out@[ch2][k2]
                == Self::step_sample(
                Self::state_after(*old(self), t0, k2 as nat),
                (t0 + k2) as u64,
                ch2,
            ) by {
                assert(out@[ch2] == channels@[ch2]@);
            }
        }
        out
    }

}

/// Whether the output shape lets the source render: one block whose channel
/// count matches the buffer's and is not zero, with the frame counter not
/// about to wrap.
pub open spec fn source_shapes_ok(
    s: &AudioBufferSourceRenderer,
    outputs: Seq<Seq<Seq<i64>>>,
    t: u64,
) -> bool {
    &&& outputs.len() >= 1
    &&& outputs[0].len() == s.buffer@.len()
    &&& outputs[0].len() != 0
    &&& t + outputs[0][0].len() <= u64::MAX
}

impl crate::node::AudioProcessor for AudioBufferSourceRenderer {
    open spec fn valid(&self) -> bool {
        self.wf()
    }

    /// The source's state advances by one quantum of the first output block's
    /// frame count; a block of the wrong shape leaves everything as it was.
    open spec fn next_state_rel(
        &self,
        post: &Self,
        inputs: Seq<Seq<Seq<i64>>>,
        outputs: Seq<Seq<Seq<i64>>>,
        timestamp: u64,
        sample_rate: u32,
    ) -> bool {
        if !source_shapes_ok(self, outputs, timestamp) {
            *post == *self
        } else {
            *post == Self::state_after(*self, timestamp, outputs[0][0].len())
        }
    }

    /// The first output block carries the scheduled samples, frame by frame
    /// per [`AudioBufferSourceRenderer::step_sample`]; inputs are ignored and
    /// every other block keeps its contents.
    open spec fn rendered(
        &self,
        inputs: Seq<Seq<Seq<i64>>>,
        outputs: Seq<Seq<Seq<i64>>>,
        timestamp: u64,
        sample_rate: u32,
    ) -> Seq<Seq<Seq<i64>>> {
        if !source_shapes_ok(self, outputs, timestamp) {
            outputs
        } else {
            let frames = outputs[0][0].len();
            outputs.update(
                0,
                Seq::new(
                    outputs[0].len(),
                    |c: int|
                        Seq::new(
                            frames,
                            |k: int|
                                Self::step_sample(
                                    Self::state_after(*self, timestamp, k as nat),
                                    (timestamp + k) as u64,
                                    c,
                                ),
                        ),
                ),
            )
        }
    }

    /// A source whose playback ended has nothing more to produce; any other
    /// state still has scheduled activity.
    open spec fn tail_spec(&self) -> bool {
        !(self.state is Ended)
    }

    /// A source ignores its inputs and renders its scheduled samples into the
    /// first output block.  A block whose shape does not match the buffer, or
    /// a frame counter about to wrap, leaves the output untouched: the render
    /// thread never panics here.
    fn process(
        &mut self,
        inputs: &Vec<AudioRenderQuantum>,
        outputs: &mut Vec<AudioRenderQuantum>,
        timestamp: u64,
        sample_rate: u32,
    ) {
        let ghost ov = crate::node::blocks_view(old(outputs)@);
        if outputs.len() < 1 {
            return;
        }
        let channels = outputs[0].channel_count();
        proof {
            assert(ov[0] == old(outputs)@[0]@);
        }
        if channels == 0 || channels != self.buffer.channel_count() {
            return;
        }
        let frames = outputs[0].frames();
        proof {
            assert(ov[0][0] == old(outputs)@[0]@[0]);
        }
        if timestamp > u64::MAX - frames as u64 {
            return;
        }
        let ghost pre = *self;
        let block = self.process_quantum(timestamp, frames);
        let mut c: usize = 0;
        while c < channels
            invariant
                source_shapes_ok(&pre, ov, timestamp),
                *self == Self::state_after(pre, timestamp, frames as nat),
                channels == block@.len(),
                channels == ov[0].len(),
                frames == ov[0][0].len(),
                forall|ch: int|
                    0 <= ch < channels ==> (#[trigger] block@[ch]).len() == frames,
                forall|ch: int, k: int|
                    0 <= ch < channels && 0 <= k < frames ==> block@[ch][k] == Self::step_sample(
                        Self::state_after(pre, timestamp, k as nat),
                        (timestamp + k) as u64,
                        ch,
                    ),
                ov == crate::node::blocks_view(old(outputs)@),
                outputs@.len() == old(outputs)@.len(),
                0 <= c <= channels,
                outputs@[0]@.len() == channels,
                forall|i: int| 1 <= i < outputs@.len() ==> outputs@[i] == old(outputs)@[i],
                forall|j: int| 0 <= j < c ==> outputs@[0]@[j] == block@[j],
                forall|j: int| c <= j < channels ==> outputs@[0]@[j] == ov[0][j],
            decreases channels - c,
        {
            let data = copy_channel(block.channel_data(c));
            let out0 = &mut outputs[0];
            out0.set_channel(c, data);
            c += 1;
        }
        proof {
            let rv = pre.rendered(
                crate::node::blocks_view(inputs@),
                ov,
                timestamp,
                sample_rate,
            );
            assert forall|i: int|
                0 <= i < outputs@.len() implies crate::node::blocks_view(outputs@)[i] =~~= rv[i] by {
                assert(crate::node::blocks_view(outputs@)[i] == outputs@[i]@);
                if i == 0 {
                    assert forall|j: int| 0 <= j < channels implies outputs@[0]@[j] =~= rv[0][j] by {
                        assert(outputs@[0]@[j] == block@[j]);
                    }
                } else {
                    assert(outputs@[i]@ == old(outputs)@[i]@);
                    assert(rv[i] == ov[i]);
                    assert(ov[i] == old(outputs)@[i]@);
                }
            }
            assert(crate::node::blocks_view(outputs@) =~= pre.rendered(
                crate::node::blocks_view(inputs@),
                ov,
                timestamp,
                sample_rate,
            ));
        }
    }

    fn tail_time(&self) -> (r: bool) {
        !matches!(self.state, PlaybackState::Ended)
    }
}

/// A fresh copy of one channel's samples.
fn copy_channel(v: &Vec<i64>) -> (r: Vec<i64>)
    ensures
        r@ == v@,
{
    let mut r: Vec<i64> = Vec::new();
    let mut i: usize = 0;
    while i < v.len()
        invariant
            0 <= i <= v@.len(),
            r@ == v@.take(i as int),
        decreases v@.len() - i,
    {
        r.push(v[i]);
        i += 1;
    }
    proof {
        assert(v@.take(v@.len() as int) == v@);
    }
    r
}

/// A column of `n` zero samples.
fn zero_column(n: usize) -> (r: Vec<i64>)
    ensures
        r@.len() == n,
        forall|j: int| 0 <= j < n ==> r@[j] == 0i64,
{
    let mut r: Vec<i64> = Vec::new();
    let mut i: usize = 0;
    while i < n
        invariant
            0 <= i <= n,
            r@.len() == i,
            forall|j: int| 0 <= j < i ==> r@[j] == 0i64,
        decreases n - i,
    {
        r.push(0);
        i += 1;
    }
    r
}

/// Ended playback is terminal: rendering further frames changes nothing —
/// in particular it stages no second lifecycle event — and produces silence.
pub proof fn lemma_ended_is_terminal_and_silent(s: AudioBufferSourceRenderer, t: u64, ch: int)
    requires
        s.state is Ended,
    ensures
        AudioBufferSourceRenderer::step_state(s, t) == s,
        AudioBufferSourceRenderer::step_sample(s, t, ch) == 0i64,
{
}

/// Once the read position lies inside the loop region, it never leaves the
/// region across a rendered frame, whatever the sign of the playback rate.
pub proof fn lemma_loop_region_confines(s: AudioBufferSourceRenderer, t: u64)
    requires
        s.wf(),
        s.loop_enabled,
        s.loop_start <= s.position < s.loop_end,
    ensures
        ({
            let s2 = AudioBufferSourceRenderer::step_state(s, t);
            &&& s2.loop_start == s.loop_start
            &&& s2.loop_end == s.loop_end
            &&& s.loop_start <= s2.position < s.loop_end
        }),
{
    let e = AudioBufferSourceRenderer::promoted(s, t);
    assert(e.position == s.position && e.loop_start == s.loop_start && e.loop_end == s.loop_end
        && e.rate == s.rate && e.loop_enabled);
    assert(e.buf_frames() as int * POS_ONE <= 0x4000_0000 * 65536) by (nonlinear_arith)
        requires
            0 <= e.buf_frames() as int <= 0x4000_0000,
    ;
    if e.state is Playing && e.window_active(t) {
        let p1 = clamp_spec(e.position + e.rate, -(MAX_POS_MAG as int), MAX_POS_MAG as int);
        assert(p1 == e.position + e.rate);
        if (e.rate >= 0 && p1 >= e.loop_end) || (e.rate < 0 && p1 < e.loop_start) {
            lemma_wrap_offset_range(p1 - e.loop_start, e.loop_end - e.loop_start);
        }
    }
}

/// While playback is active, not looping, and the read is inside the buffer,
/// the position advances by exactly the playback rate each frame.  Starting a
/// forward pass at rate one from the buffer head thus reads frame `n` at step
/// `n`, and a backward pass at rate minus one from the last frame reads frame
/// `len - 1 - n` at step `n`: the read direction is reversed frame for frame.
pub proof fn lemma_position_advances_by_rate(s: AudioBufferSourceRenderer, t: u64)
    requires
        s.wf(),
        !s.loop_enabled,
        s.state is Playing,
        s.window_active(t),
        0 <= read_index(s.position as int) < s.buf_frames(),
    ensures
        AudioBufferSourceRenderer::step_state(s, t).position == s.position + s.rate,
{
    let e = AudioBufferSourceRenderer::promoted(s, t);
    assert(e == s);
    assert(e.buf_frames() as int * POS_ONE <= 0x4000_0000 * 65536) by (nonlinear_arith)
        requires
            0 <= e.buf_frames() as int <= 0x4000_0000,
    ;
    let p = s.position as int;
    let q = (p + POS_HALF) / (POS_ONE as int);
    vstd::arithmetic::div_mod::lemma_fundamental_div_mod(p + POS_HALF, POS_ONE as int);
    vstd::arithmetic::div_mod::lemma_mod_division_less_than_divisor(p + POS_HALF, POS_ONE as int);
    assert(p + POS_HALF == (POS_ONE as int) * q + (p + POS_HALF) % (POS_ONE as int));
    assert(q * (POS_ONE as int) <= (e.buf_frames() as int - 1) * (POS_ONE as int))
        by (nonlinear_arith)
        requires
            q <= e.buf_frames() as int - 1,
            POS_ONE as int > 0,
    ;
    assert(p < e.buf_frames() as int * POS_ONE) by (nonlinear_arith)
        requires
            p + POS_HALF <= (e.buf_frames() as int - 1) * (POS_ONE as int) + POS_ONE - 1,
            POS_ONE as int == 65536,
            POS_HALF as int == 32768,
            e.buf_frames() as int >= 1,
    ;
    assert(clamp_spec(e.position + e.rate, -(MAX_POS_MAG as int), MAX_POS_MAG as int)
        == e.position + e.rate);
}

/// Output is confined to the scheduled window: at a frame outside it a
/// source renders silence on every channel, whatever its state.
pub proof fn lemma_silent_outside_window(s: AudioBufferSourceRenderer, t: u64, ch: int)
    requires
        !s.window_active(t),
    ensures
        AudioBufferSourceRenderer::step_sample(s, t, ch) == 0i64,
{
    let e = AudioBufferSourceRenderer::promoted(s, t);
    assert(e.start_frame == s.start_frame && e.stop_frame == s.stop_frame && e.duration_frames
        == s.duration_frames);
}

/// A rendered frame stages a lifecycle event only on the transition into the
/// ended state, and never clears or replaces one already staged: with the
/// take-once collection, each activation delivers at most one event.
pub proof fn lemma_staged_event_monotone(s: AudioBufferSourceRenderer, t: u64)
    ensures
        s.staged_event is Some ==> AudioBufferSourceRenderer::step_state(s, t).staged_event
            == s.staged_event,
        AudioBufferSourceRenderer::step_state(s, t).staged_event is Some ==> s.staged_event
            is Some || AudioBufferSourceRenderer::step_state(s, t).state is Ended,
{
}

/// A whole unit-rate pass, frame by frame: a playing, non-looping source at
/// rate `d * POS_ONE` (`d` one or minus one) whose position starts at whole
/// frame `m` keeps walking whole frames, and the sample rendered at step `j`
/// is exactly buffer frame `m + j*d`, as long as the walk stays inside the
/// buffer and the scheduled window.
pub proof fn lemma_unit_rate_run(s: AudioBufferSourceRenderer, t0: u64, m: int, d: int, k: nat)
    requires
        s.wf(),
        !s.loop_enabled,
        s.state is Playing,
        s.buf_frames() >= 1,
        d == 1 || d == -1,
        s.rate == d * (POS_ONE as int),
        s.position == m * (POS_ONE as int),
        0 <= m < s.buf_frames(),
        forall|j: int| 0 <= j < k ==> 0 <= m + #[trigger] (j * d) < s.buf_frames(),
        forall|j: int| 0 <= j < k ==> s.window_active(#[trigger] ((t0 + j) as u64)),
        t0 + k <= u64::MAX,
    ensures
        AudioBufferSourceRenderer::state_after(s, t0, k) == (AudioBufferSourceRenderer {
            position: (s.position + k * s.rate) as i64,
            ..s
        }),
        forall|j: int, ch: int|
            0 <= j < k && 0 <= ch < s.buffer@.len()
                ==> #[trigger] AudioBufferSourceRenderer::step_sample(
                AudioBufferSourceRenderer::state_after(s, t0, j as nat),
                (t0 + j) as u64,
                ch,
            ) == s.buffer@[ch][m + j * d],
    decreases k,
{
    assert(s.buf_frames() as int * POS_ONE <= 0x4000_0000 * 65536) by (nonlinear_arith)
        requires
            0 <= s.buf_frames() as int <= 0x4000_0000,
    ;
    if k == 0 {
        assert(AudioBufferSourceRenderer::state_after(s, t0, 0) == (AudioBufferSourceRenderer {
            position: (s.position + 0 * s.rate) as i64,
            ..s
        }));
    } else {
        let km1 = (k - 1) as nat;
        let kk = k - 1;
        assert(forall|j: int| 0 <= j < km1 ==> 0 <= m + #[trigger] (j * d) < s.buf_frames());
        lemma_unit_rate_run(s, t0, m, d, km1);
        let prev = AudioBufferSourceRenderer::state_after(s, t0, km1);
        let mp = m + kk * d;
        assert(0 <= mp < s.buf_frames()) by {
            assert(0 <= m + #[trigger] (kk * d) < s.buf_frames());
        }
        let posv = s.position + km1 * s.rate;
        assert(posv == mp * (POS_ONE as int)) by (nonlinear_arith)
            requires
                posv == m * (POS_ONE as int) + kk * (d * (POS_ONE as int)),
                mp == m + kk * d,
                km1 == kk,
        ;
        assert(0 <= mp * (POS_ONE as int) && mp * (POS_ONE as int) + POS_HALF < s.buf_frames()
            as int * POS_ONE) by (nonlinear_arith)
            requires
                0 <= mp <= s.buf_frames() - 1,
                POS_ONE == 65536,
                POS_HALF == 32768,
        ;
        assert(prev.position == posv);
        assert(read_index(prev.position as int) == mp) by {
            vstd::arithmetic::div_mod::lemma_div_multiples_vanish_fancy(
                mp,
                POS_HALF as int,
                POS_ONE as int,
            );
            assert(mp * (POS_ONE as int) + POS_HALF == (POS_ONE as int) * mp + POS_HALF);
        }
        let t = (t0 + k - 1) as u64;
        assert(prev.window_active(t)) by {
            assert(s.window_active((t0 + (k - 1)) as u64));
        }
        let e = AudioBufferSourceRenderer::promoted(prev, t);
        assert(e == prev);
        assert(clamp_spec(
            prev.position + prev.rate,
            -(MAX_POS_MAG as int),
            MAX_POS_MAG as int,
        ) == prev.position + prev.rate);
        assert(AudioBufferSourceRenderer::state_after(s, t0, k)
            == AudioBufferSourceRenderer::step_state(prev, t));
        assert(prev.position + prev.rate == s.position + k * s.rate) by (nonlinear_arith)
            requires
                prev.position == s.position + kk * s.rate,
                prev.rate == s.rate,
                kk == k - 1,
        ;
        assert(-(POS_ONE as int) <= (mp + d) * (POS_ONE as int) <= s.buf_frames() as int
            * POS_ONE) by (nonlinear_arith)
            requires
                -1 <= mp + d <= s.buf_frames() as int,
                POS_ONE == 65536,
                0 <= s.buf_frames(),
        ;
        assert(prev.position + prev.rate == (mp + d) * (POS_ONE as int)) by (nonlinear_arith)
            requires
                prev.position == mp * (POS_ONE as int),
                prev.rate == d * (POS_ONE as int),
        ;
        assert forall|j: int, ch: int|
            0 <= j < k && 0 <= ch < s.buffer@.len()
                implies #[trigger] AudioBufferSourceRenderer::step_sample(
            AudioBufferSourceRenderer::state_after(s, t0, j as nat),
            (t0 + j) as u64,
            ch,
        ) == s.buffer@[ch][m + j * d] by {
            if j < k - 1 {
            } else {
                assert(AudioBufferSourceRenderer::state_after(s, t0, j as nat) == prev);
                assert(AudioBufferSourceRenderer::step_sample(prev, t, ch) == prev.buffer@[ch][mp]);
            }
        }
    }
}

/// A negative playback rate reverses the read direction frame for frame: over
/// the same buffer, a forward pass at rate one from the buffer head and a
/// backward pass at rate minus one from the last frame render mirrored
/// samples — the backward pass's sample at step `j` equals the forward pass's
/// sample at step `len - 1 - j`, both being buffer frame `len - 1 - j`.
pub proof fn lemma_reverse_run_mirrors_forward(
    fwd: AudioBufferSourceRenderer,
    bwd: AudioBufferSourceRenderer,
    t0: u64,
    j: int,
)
    requires
        fwd.wf(),
        bwd.wf(),
        bwd.buffer@ == fwd.buffer@,
        !fwd.loop_enabled,
        !bwd.loop_enabled,
        fwd.state is Playing,
        bwd.state is Playing,
        fwd.buf_frames() >= 1,
        fwd.rate == POS_ONE,
        bwd.rate == -POS_ONE,
        fwd.position == 0,
        bwd.position == (fwd.buf_frames() - 1) * (POS_ONE as int),
        forall|i: int| 0 <= i < fwd.buf_frames() ==> fwd.window_active(#[trigger] ((t0 + i) as u64)),
        forall|i: int| 0 <= i < fwd.buf_frames() ==> bwd.window_active(#[trigger] ((t0 + i) as u64)),
        t0 + fwd.buf_frames() <= u64::MAX,
        0 <= j < fwd.buf_frames(),
    ensures
        forall|ch: int|
            0 <= ch < fwd.buffer@.len() ==> #[trigger] AudioBufferSourceRenderer::step_sample(
                AudioBufferSourceRenderer::state_after(bwd, t0, j as nat),
                (t0 + j) as u64,
                ch,
            ) == AudioBufferSourceRenderer::step_sample(
                AudioBufferSourceRenderer::state_after(fwd, t0, (fwd.buf_frames() - 1 - j) as nat),
                (t0 + fwd.buf_frames() - 1 - j) as u64,
                ch,
            ),
{
    let len = fwd.buf_frames() as int;
    assert(forall|i: int| 0 <= i < len ==> 0 <= 0 + #[trigger] (i * 1) < len);
    assert forall|i: int| 0 <= i < len implies 0 <= (len - 1) + #[trigger] (i * (-1)) < len by {
        assert(i * (-1) == -i) by (nonlinear_arith);
    }
    lemma_unit_rate_run(fwd, t0, 0, 1, fwd.buf_frames());
    lemma_unit_rate_run(bwd, t0, len - 1, -1, fwd.buf_frames());
    assert forall|ch: int|
        0 <= ch < fwd.buffer@.len() implies #[trigger] AudioBufferSourceRenderer::step_sample(
        AudioBufferSourceRenderer::state_after(bwd, t0, j as nat),
        (t0 + j) as u64,
        ch,
    ) == AudioBufferSourceRenderer::step_sample(
        AudioBufferSourceRenderer::state_after(fwd, t0, (fwd.buf_frames() - 1 - j) as nat),
        (t0 + fwd.buf_frames() - 1 - j) as u64,
        ch,
    ) by {
        assert(AudioBufferSourceRenderer::step_sample(
            AudioBufferSourceRenderer::state_after(bwd, t0, j as nat),
            (t0 + j) as u64,
            ch,
        ) == bwd.buffer@[ch][(len - 1) + j * (-1)]);
        assert(AudioBufferSourceRenderer::step_sample(
            AudioBufferSourceRenderer::state_after(fwd, t0, (len - 1 - j) as nat),
            (t0 + (len - 1 - j)) as u64,
            ch,
        ) == fwd.buffer@[ch][0 + (len - 1 - j) * 1]);
        assert((len - 1) + j * (-1) == len - 1 - j);
        assert(0 + (len - 1 - j) * 1 == len - 1 - j);
    }
}

/// The frame read at each step of a unit-rate pass: forward from the buffer
/// head, step `n` reads frame `n`; backward at rate minus one from the last
/// frame, step `n` reads frame `len - 1 - n`.
pub proof fn lemma_reverse_pass_reads_mirrored_frames(len: int, n: int)
    requires
        0 <= n < len,
        len <= MAX_BUFFER_FRAMES as int,
    ensures
        read_index(n * (POS_ONE as int)) == n,
        read_index((len - 1 - n) * (POS_ONE as int)) == len - 1 - n,
{
    vstd::arithmetic::div_mod::lemma_div_multiples_vanish_fancy(
        n,
        POS_HALF as int,
        POS_ONE as int,
    );
    vstd::arithmetic::div_mod::lemma_div_multiples_vanish_fancy(
        len - 1 - n,
        POS_HALF as int,
        POS_ONE as int,
    );
    assert(n * (POS_ONE as int) + POS_HALF == (POS_ONE as int) * n + POS_HALF);
    assert((len - 1 - n) * (POS_ONE as int) + POS_HALF == (POS_ONE as int) * (len - 1 - n)
        + POS_HALF);
    assert(n * (POS_ONE as int) >= 0) by (nonlinear_arith)
        requires
            n >= 0,
    ;
    assert((len - 1 - n) * (POS_ONE as int) >= 0) by (nonlinear_arith)
        requires
            len - 1 - n >= 0,
    ;
}

/// `0 <= wrap_offset(d, len) < len` for every `d` and positive `len`.
pub proof fn lemma_wrap_offset_range(d: int, len: int)
    requires
        len > 0,
    ensures
        0 <= wrap_offset(d, len) < len,
{
    if d >= 0 {
        vstd::arithmetic::div_mod::lemma_mod_division_less_than_divisor(d, len);
    } else {
        vstd::arithmetic::div_mod::lemma_mod_division_less_than_divisor(-d, len);
    }
}

/// Wrap `p` into the loop region `[ls, le)` by the distance from `ls` modulo
/// the region length.
fn wrap_into_region(p: i64, ls: i64, le: i64) -> (r: i64)
    requires
        0 <= ls < le,
        le <= MAX_BUFFER_FRAMES as i64 * POS_ONE,
        -(MAX_POS_MAG as int) <= p <= MAX_POS_MAG as int,
    ensures
        r as int == ls + wrap_offset(p - ls, le - ls),
        ls <= r < le,
{
    proof {
        lemma_wrap_offset_range(p - ls, le - ls);
        assert(MAX_BUFFER_FRAMES as int * POS_ONE == 0x4000_0000_0000);
    }
    let len: i64 = le - ls;
    let d: i64 = p - ls;
    if d >= 0 {
        let m: u64 = (d as u64) % (len as u64);
        ls + m as i64
    } else {
        let m: u64 = ((-(d as i128)) as u64) % (len as u64);
        if m == 0 {
            ls
        } else {
            ls + (len - m as i64)
        }
    }
}

impl EventEmitter for AudioBufferSourceRenderer {
    open spec fn staged(&self) -> Option<EventType> {
        self.staged_event
    }

    fn stagging_event(&self) -> (e: Option<EventType>) {
        self.staged_event
    }

    fn set_stagging_event(&mut self, e: Option<EventType>) {
        self.staged_event = e;
    }
}

} // verus!
