//! A remote stream's audio on its way to the callback.

use vstd::prelude::*;

use crate::jam_bus;
use crate::jam_bus::JamChannelMode;
use crate::jam_bus::CAPACITY_FRAMES;
use crate::ring;

verus! {

/// What a side of the mix adds at one frame.
#[derive(Clone, Copy, Debug, PartialEq, Eq, Structural)]
pub enum MixSource {
    /// The sample with this bit pattern.
    Sample { bits: u32 },
    /// Half the sum of the samples with these bit patterns.
    HalfSum { left: u32, right: u32 },
}

/// One remote stream's ring, written as packets arrive and drained by the
/// callback.
#[derive(Debug)]
pub struct JamInputSlot {
    left: Vec<u32>,
    right: Vec<u32>,
    write_frames: u64,
    read_frames: u64,
    active: bool,
    sample_rate: u32,
    channels: u32,
    capture_base: i64,
    capture_known: bool,
    peak: u32,
    underruns: u64,
    overruns: u64,
    priming: bool,
}

/// The state of an input slot.
pub struct JamInputModel {
    pub left: Seq<u32>,
    pub right: Seq<u32>,
    /// Frames written since the slot was claimed.
    pub write: nat,
    /// Frames that the callback is done with.
    pub read: nat,
    /// Whether a stream is bound to the slot.
    pub active: bool,
    pub sample_rate: u32,
    pub channels: u32,
    /// Capture position of frame zero, once a packet has told it.
    pub capture_base: Option<int>,
    pub peak: u32,
    pub underruns: u64,
    pub overruns: u64,
    /// Whether the slot is filling its cushion.
    pub priming: bool,
}

/// The backlog that a slot aims to hold, in frames: thirty milliseconds, at
/// least two callback blocks, and at most a quarter of the ring.
pub open spec fn cushion(sample_rate: u32, block_frames: nat) -> nat {
    let rate: nat = if sample_rate == 0 {
        1
    } else {
        sample_rate as nat
    };
    let by_time = rate * 30 / 1000;
    let at_least = if by_time >= block_frames * 2 {
        by_time
    } else {
        block_frames * 2
    };
    if at_least > CAPACITY_FRAMES / 4 {
        (CAPACITY_FRAMES / 4) as nat
    } else {
        at_least
    }
}

/// The backlog that a slot aims to hold, in frames.
pub fn target_frames(sample_rate: u32, block_frames: usize) -> (r: u64)
    ensures
        r == cushion(sample_rate, block_frames as nat),
{
    let rate: u64 = if sample_rate == 0 {
        1
    } else {
        sample_rate as u64
    };
    let by_time: u64 = rate * 30 / 1000;
    if block_frames as u64 >= 4096 {
        return 4096;
    }
    let two_blocks: u64 = block_frames as u64 * 2;
    let at_least: u64 = if by_time >= two_blocks {
        by_time
    } else {
        two_blocks
    };
    if at_least > 4096 {
        4096
    } else {
        at_least
    }
}

/// The cushion holds two callback blocks, for blocks of up to an eighth of the
/// ring, and never more than a quarter of the ring.
pub proof fn law_cushion_holds_two_blocks(sample_rate: u32, block_frames: nat)
    ensures
        block_frames * 8 <= CAPACITY_FRAMES ==> cushion(sample_rate, block_frames) >= block_frames
            * 2,
        cushion(sample_rate, block_frames) * 4 <= CAPACITY_FRAMES,
{
}

impl JamInputModel {
    /// Frames written and not yet read.
    pub open spec fn backlog(self) -> nat {
        if self.write >= self.read {
            (self.write - self.read) as nat
        } else {
            0
        }
    }

    /// The slot after `frames` frames arrived.
    pub open spec fn after_write(
        self,
        left: Seq<u32>,
        right: Seq<u32>,
        channels: u32,
        capture_position: int,
        sample_rate: u32,
    ) -> JamInputModel {
        let frames = left.len();
        JamInputModel {
            left: ring::ring_write(self.left, self.write, left),
            right: ring::ring_write(self.right, self.write, right),
            write: self.write + frames,
            sample_rate,
            channels,
            capture_base: Some(
                if self.capture_base matches Some(base) && jam_bus::position_after(
                    base,
                    self.write as int,
                ) == capture_position {
                    self.capture_base->0
                } else {
                    capture_position - self.write
                },
            ),
            peak: ring::stereo_peak(self.peak, left, right),
            overruns: if self.backlog() + frames > CAPACITY_FRAMES {
                jam_bus::bumped(self.overruns)
            } else {
                self.overruns
            },
            ..self
        }
    }

    /// The slot with its read position brought back within the ring's reach.
    pub open spec fn unlapped(self) -> JamInputModel {
        if self.backlog() > CAPACITY_FRAMES {
            JamInputModel {
                read: (self.write - CAPACITY_FRAMES) as nat,
                overruns: jam_bus::bumped(self.overruns),
                ..self
            }
        } else {
            self
        }
    }

    /// Whether a block of `want` frames is handed out.
    pub open spec fn plays(self, want: nat) -> bool {
        let s = self.unlapped();
        &&& self.active
        &&& want > 0
        &&& s.priming ==> s.backlog() >= cushion(self.sample_rate, want)
        &&& s.backlog() >= want
    }

    /// The frame that a block of `want` frames starts with: the next one, or
    /// the cushion's first where the backlog outgrew cushion and block.
    pub open spec fn block_start(self, want: nat) -> nat {
        let s = self.unlapped();
        let target = cushion(self.sample_rate, want);
        if s.backlog() > target + want {
            (s.write - (if target >= want {
                target
            } else {
                want
            })) as nat
        } else {
            s.read
        }
    }

    /// The slot after the callback asked for `want` frames.
    pub open spec fn after_mix(self, want: nat) -> JamInputModel {
        let s = self.unlapped();
        let target = cushion(self.sample_rate, want);
        if !self.active || want == 0 {
            self
        } else if s.priming && s.backlog() < target {
            s
        } else if s.backlog() < want {
            JamInputModel { underruns: jam_bus::bumped(s.underruns), priming: true, ..s }
        } else {
            JamInputModel {
                read: self.block_start(want) + want,
                overruns: if s.backlog() > target + want {
                    jam_bus::bumped(s.overruns)
                } else {
                    s.overruns
                },
                priming: false,
                ..s
            }
        }
    }

    /// A freshly claimed slot.
    pub open spec fn claimed(self) -> JamInputModel {
        JamInputModel {
            write: 0,
            read: 0,
            active: true,
            sample_rate: 0,
            channels: 0,
            capture_base: None,
            peak: 0,
            underruns: 0,
            overruns: 0,
            priming: true,
            ..self
        }
    }

    /// The frame at count `k`, as left and right bit patterns.
    pub open spec fn frame(self, k: nat) -> (u32, u32) {
        (ring::ring_at(self.left, k), ring::ring_at(self.right, k))
    }
}

impl View for JamInputSlot {
    type V = JamInputModel;

    closed spec fn view(&self) -> JamInputModel {
        JamInputModel {
            left: self.left@,
            right: self.right@,
            write: self.write_frames as nat,
            read: self.read_frames as nat,
            active: self.active,
            sample_rate: self.sample_rate,
            channels: self.channels,
            capture_base: if self.capture_known {
                Some(self.capture_base as int)
            } else {
                None
            },
            peak: self.peak,
            underruns: self.underruns,
            overruns: self.overruns,
            priming: self.priming,
        }
    }
}

impl Default for JamInputSlot {
    fn default() -> (r: Self)
        ensures
            r.well_formed(),
            !r@.active,
            r@.write == 0,
            r@.read == 0,
            r@.sample_rate == 0,
            r@.channels == 0,
            r@.capture_base is None,
            r@.peak == 0,
            r@.underruns == 0,
            r@.overruns == 0,
            r@.priming,
    {
        JamInputSlot {
            left: vec![0u32; CAPACITY_FRAMES],
            right: vec![0u32; CAPACITY_FRAMES],
            write_frames: 0,
            read_frames: 0,
            active: false,
            sample_rate: 0,
            channels: 0,
            capture_base: 0,
            capture_known: false,
            peak: 0,
            underruns: 0,
            overruns: 0,
            priming: true,
        }
    }
}

impl JamInputSlot {
    /// Both rings have the slot's capacity, nothing was read that was not
    /// written, and the count of frames is a position.
    pub open spec fn well_formed(self) -> bool {
        &&& self@.left.len() == CAPACITY_FRAMES
        &&& self@.right.len() == CAPACITY_FRAMES
        &&& self@.read <= self@.write <= i64::MAX
        &&& self@.capture_base matches Some(base) ==> i64::MIN <= base <= i64::MAX
    }

    pub fn is_active(&self) -> (r: bool)
        ensures
            r == self@.active,
    {
        self.active
    }

    pub fn sample_rate(&self) -> (r: u32)
        ensures
            r == self@.sample_rate,
    {
        self.sample_rate
    }

    pub fn channels(&self) -> (r: u32)
        ensures
            r == self@.channels,
    {
        self.channels
    }

    /// Frames written and not yet read.
    pub fn available(&self) -> (r: u64)
        ensures
            r == self@.backlog(),
    {
        self.write_frames.saturating_sub(self.read_frames)
    }

    pub fn underruns(&self) -> (r: u64)
        ensures
            r == self@.underruns,
    {
        self.underruns
    }

    pub fn overruns(&self) -> (r: u64)
        ensures
            r == self@.overruns,
    {
        self.overruns
    }

    /// Read and reset the held peak.
    pub fn take_peak(&mut self) -> (r: u32)
        ensures
            r == old(self)@.peak,
            final(self)@ == (JamInputModel { peak: 0, ..old(self)@ }),
            old(self).well_formed() ==> final(self).well_formed(),
    {
        let peak: u32 = self.peak;
        self.peak = 0;
        peak
    }

    /// The capture position of the next frame that the callback reads, once a
    /// packet has told it. It comes from the publisher's timestamps, never from
    /// the time of arrival.
    pub fn next_capture_position(&self) -> (r: Option<i64>)
        requires
            self.well_formed(),
        ensures
            r is Some <==> self@.capture_base is Some,
            r matches Some(p) ==> p == jam_bus::position_after(
                self@.capture_base->0,
                self@.read as int,
            ),
    {
        if !self.capture_known {
            return None;
        }
        Some(jam_bus::advance_position(self.capture_base, self.read_frames))
    }

    /// Append one block of interleaved samples, the first of which was captured
    /// at `capture_position`. The capture clock is based anew wherever the
    /// block does not continue the last one. A ring that is a whole ring ahead
    /// of its reader is overwritten and the overrun counted.
    pub fn write_interleaved(
        &mut self,
        interleaved: &[u32],
        channels: usize,
        capture_position: u64,
        sample_rate: u32,
    )
        requires
            old(self).well_formed(),
            capture_position <= i64::MAX,
            channels <= u32::MAX,
            channels > 0 ==> old(self)@.write + interleaved@.len() as int / channels as int
                <= i64::MAX,
        ensures
            final(self).well_formed(),
            channels == 0 || interleaved@.len() < channels ==> final(self)@ == old(self)@,
            channels > 0 && interleaved@.len() >= channels ==> {
                let frames = (interleaved@.len() as int / channels as int) as nat;
                final(self)@ == old(self)@.after_write(
                    ring::left_of(interleaved@, channels as nat, frames),
                    ring::right_of(interleaved@, channels as nat, frames),
                    channels as u32,
                    capture_position as int,
                    sample_rate,
                )
            },
    {
        if channels == 0 || interleaved.len() < channels {
            return;
        }
        let frames: usize = interleaved.len() / channels;
        proof {
            let len = interleaved@.len() as int;
            let c = channels as int;
            assert(len / c >= 1 && len / c <= len) by (nonlinear_arith)
                requires
                    len >= c,
                    c > 0,
            ;
        }
        let ghost before = self@;
        let ghost left = ring::left_of(interleaved@, channels as nat, frames as nat);
        let ghost right = ring::right_of(interleaved@, channels as nat, frames as nat);
        let write: u64 = self.write_frames;
        let expected: i64 = jam_bus::advance_position(self.capture_base, write);
        if !self.capture_known || expected != capture_position as i64 {
            self.capture_base = capture_position as i64 - write as i64;
            self.capture_known = true;
        }
        if write.saturating_sub(self.read_frames) + frames as u64 > CAPACITY_FRAMES as u64 {
            self.overruns = jam_bus::bump(self.overruns);
        }
        let mut frame: usize = 0;
        let mut peak: u32 = self.peak;
        let ghost base = *self;
        proof {
            assert(left.take(0) =~= Seq::empty());
            assert(right.take(0) =~= Seq::empty());
        }
        while frame < frames
            invariant
                frame <= frames,
                channels > 0,
                frames == interleaved@.len() as int / channels as int,
                write + frames <= i64::MAX,
                write == before.write,
                before.left.len() == CAPACITY_FRAMES,
                before.right.len() == CAPACITY_FRAMES,
                left == ring::left_of(interleaved@, channels as nat, frames as nat),
                right == ring::right_of(interleaved@, channels as nat, frames as nat),
                *self == (JamInputSlot { left: self.left, right: self.right, ..base }),
                self.left@.len() == CAPACITY_FRAMES,
                self.right@.len() == CAPACITY_FRAMES,
                self.left@ == ring::ring_write(
                    before.left,
                    before.write,
                    left.take(frame as int),
                ),
                self.right@ == ring::ring_write(
                    before.right,
                    before.write,
                    right.take(frame as int),
                ),
                peak == ring::stereo_peak(
                    before.peak,
                    left.take(frame as int),
                    right.take(frame as int),
                ),
            decreases frames - frame,
        {
            let sides: (u32, u32) = ring::frame_sides(interleaved, channels, frame);
            let index: usize = ((write + frame as u64) % CAPACITY_FRAMES as u64) as usize;
            proof {
                assert(left.take(frame + 1).drop_last() =~= left.take(frame as int));
                assert(right.take(frame + 1).drop_last() =~= right.take(frame as int));
                assert(right.take(frame + 1).take(frame as int) =~= right.take(frame as int));
            }
            self.left[index] = sides.0;
            self.right[index] = sides.1;
            peak = ring::hold_peak(ring::hold_peak(peak, sides.0), sides.1);
            frame = frame + 1;
        }
        self.peak = peak;
        self.sample_rate = sample_rate;
        self.channels = channels as u32;
        self.write_frames = write + frames as u64;
        proof {
            assert(left.take(frames as int) =~= left);
            assert(right.take(frames as int) =~= right);
        }
    }

    /// Hand a block of frames to the callback: what each side adds at each
    /// frame. Returns how many frames came, `frames` or none, bounded by the
    /// buffers.
    ///
    /// A block is whole or it is silence. The slot holds a cushion before it
    /// plays; when the cushion is spent it goes back to filling it. A backlog
    /// that outgrew the cushion is skipped.
    pub fn mix_into(
        &mut self,
        mode: JamChannelMode,
        out_l: &mut [MixSource],
        out_r: &mut [MixSource],
        frames: usize,
    ) -> (n: usize)
        requires
            old(self).well_formed(),
        ensures
            final(self).well_formed(),
            final(out_l)@.len() == old(out_l)@.len(),
            final(out_r)@.len() == old(out_r)@.len(),
            ({
                let want = wanted(frames, old(out_l)@.len(), old(out_r)@.len());
                &&& final(self)@ == old(self)@.after_mix(want)
                &&& n == if old(self)@.plays(want) {
                    want
                } else {
                    0
                }
                &&& forall|i: int|
                    #![trigger final(out_l)@[i]]
                    #![trigger final(out_r)@[i]]
                    0 <= i < n ==> {
                        let k = (old(self)@.block_start(want) + i) as nat;
                        let (l, r) = old(self)@.frame(k);
                        (final(out_l)@[i], final(out_r)@[i]) == mode.routed(l, r)
                    }
                &&& forall|i: int|
                    #![trigger final(out_l)@[i]]
                    n <= i < old(out_l)@.len() ==> final(out_l)@[i] == old(out_l)@[i]
                &&& forall|i: int|
                    #![trigger final(out_r)@[i]]
                    n <= i < old(out_r)@.len() ==> final(out_r)@[i] == old(out_r)@[i]
            }),
    {
        let mut want: usize = frames;
        if out_l.len() < want {
            want = out_l.len();
        }
        if out_r.len() < want {
            want = out_r.len();
        }
        if !self.active || want == 0 {
            return 0;
        }
        let write: u64 = self.write_frames;
        let mut read: u64 = self.read_frames;
        if write.saturating_sub(read) > CAPACITY_FRAMES as u64 {
            read = write - CAPACITY_FRAMES as u64;
            self.overruns = jam_bus::bump(self.overruns);
        }
        let target: u64 = target_frames(self.sample_rate, want);
        let available: u64 = write - read;
        if self.priming {
            if available < target {
                self.read_frames = read;
                return 0;
            }
            self.priming = false;
        }
        if available < want as u64 {
            self.underruns = jam_bus::bump(self.underruns);
            self.priming = true;
            self.read_frames = read;
            return 0;
        }
        if available - want as u64 > target {
            read = write - (if target >= want as u64 {
                target
            } else {
                want as u64
            });
            self.overruns = jam_bus::bump(self.overruns);
        }
        let ghost first_l = out_l@;
        let ghost first_r = out_r@;
        let mut offset: usize = 0;
        while offset < want
            invariant
                offset <= want,
                want <= out_l@.len(),
                want <= out_r@.len(),
                read + want <= i64::MAX,
                self.left@.len() == CAPACITY_FRAMES,
                self.right@.len() == CAPACITY_FRAMES,
                out_l@.len() == first_l.len(),
                out_r@.len() == first_r.len(),
                forall|i: int|
                    #![trigger out_l@[i]]
                    #![trigger out_r@[i]]
                    0 <= i < offset ==> (out_l@[i], out_r@[i]) == mode.routed(
                        ring::ring_at(self.left@, (read + i) as nat),
                        ring::ring_at(self.right@, (read + i) as nat),
                    ),
                forall|i: int|
                    #![trigger out_l@[i]]
                    offset <= i < first_l.len() ==> out_l@[i] == first_l[i],
                forall|i: int|
                    #![trigger out_r@[i]]
                    offset <= i < first_r.len() ==> out_r@[i] == first_r[i],
            decreases want - offset,
        {
            let index: usize = ((read + offset as u64) % CAPACITY_FRAMES as u64) as usize;
            let sides: (MixSource, MixSource) = mode.apply(self.left[index], self.right[index]);
            out_l[offset] = sides.0;
            out_r[offset] = sides.1;
            offset = offset + 1;
        }
        self.read_frames = read + want as u64;
        want
    }

    /// Whether the slot is filling its cushion rather than playing.
    pub fn is_priming(&self) -> (r: bool)
        ensures
            r == self@.priming,
    {
        self.priming
    }

    /// Take the cushion as full.
    pub fn assume_primed(&mut self)
        ensures
            final(self)@ == (JamInputModel { priming: false, ..old(self)@ }),
            old(self).well_formed() ==> final(self).well_formed(),
    {
        self.priming = false;
    }

    /// Bind a fresh stream to the slot.
    pub fn claim(&mut self)
        requires
            old(self).well_formed(),
        ensures
            final(self)@ == old(self)@.claimed(),
            final(self).well_formed(),
    {
        self.write_frames = 0;
        self.read_frames = 0;
        self.priming = true;
        self.capture_base = 0;
        self.capture_known = false;
        self.peak = 0;
        self.underruns = 0;
        self.overruns = 0;
        self.sample_rate = 0;
        self.channels = 0;
        self.active = true;
    }

    /// Unbind the slot's stream.
    pub fn release(&mut self)
        ensures
            final(self)@ == (JamInputModel { active: false, ..old(self)@ }),
            old(self).well_formed() ==> final(self).well_formed(),
    {
        self.active = false;
    }
}

/// How many frames a block can take, given its buffers.
pub open spec fn wanted(frames: usize, len_l: nat, len_r: nat) -> nat {
    let a = if len_l < frames {
        len_l
    } else {
        frames as nat
    };
    if len_r < a {
        len_r
    } else {
        a
    }
}

// ── Laws ────────────────────────────────────────────────────────────────────

/// Every frame of a block that is handed out was written and is still in the
/// ring.
pub proof fn law_played_frames_were_written(s: JamInputModel, want: nat, i: int)
    requires
        s.read <= s.write,
        s.plays(want),
        0 <= i < want,
    ensures
        s.block_start(want) + i < s.write,
        s.write - (s.block_start(want) + i) <= CAPACITY_FRAMES,
        s.read <= s.block_start(want),
{
}

/// After a block, playing or not, the reader is within the ring's reach, and a
/// slot that played holds no more than its cushion and one block.
pub proof fn law_backlog_comes_back_to_the_cushion(s: JamInputModel, want: nat)
    requires
        s.read <= s.write,
        s.active,
        want > 0,
    ensures
        s.after_mix(want).read <= s.after_mix(want).write,
        s.after_mix(want).backlog() <= CAPACITY_FRAMES,
        s.plays(want) ==> s.after_mix(want).backlog() <= cushion(s.sample_rate, want),
{
}

/// A block that cannot be whole is silence: nothing is read, the lateness is
/// counted once, and the slot fills its cushion before it plays again.
pub proof fn law_torn_block_is_silence(s: JamInputModel, want: nat)
    requires
        s.read <= s.write,
        s.active,
        !s.priming,
        s.backlog() < want <= CAPACITY_FRAMES,
    ensures
        !s.plays(want),
        s.after_mix(want) == (JamInputModel {
            underruns: jam_bus::bumped(s.underruns),
            priming: true,
            ..s
        }),
        cushion(s.sample_rate, want) > s.backlog() ==> !s.after_mix(want).plays(want),
{
}

/// A slot that fills its cushion takes nothing out of the ring and counts
/// nothing against the stream.
pub proof fn law_priming_is_not_lateness(s: JamInputModel, want: nat)
    requires
        s.active,
        s.priming,
        s.read <= s.write,
        s.backlog() < cushion(s.sample_rate, want),
        want > 0,
    ensures
        s.after_mix(want) == s,
{
}

/// A slot that nobody bound gives nothing and counts nothing.
pub proof fn law_inactive_slot_is_silent(s: JamInputModel, want: nat)
    requires
        !s.active,
    ensures
        !s.plays(want),
        s.after_mix(want) == s,
{
}

/// The capture position of a block's first frame is the publisher's: right
/// after a block arrives at an empty ring, the next position is that block's.
pub proof fn law_capture_follows_the_publisher(
    s: JamInputModel,
    left: Seq<u32>,
    right: Seq<u32>,
    channels: u32,
    position: int,
    sample_rate: u32,
)
    requires
        s.read == s.write,
        0 <= position <= i64::MAX,
    ensures
        ({
            let after = s.after_write(left, right, channels, position, sample_rate);
            &&& after.capture_base is Some
            &&& jam_bus::position_after(after.capture_base->0, after.read as int) == position
        }),
{
}

/// What was written is in the ring: each frame of a written block stands at its
/// count, unless the block itself pushed it out.
pub proof fn law_written_block_is_read_back(
    s: JamInputModel,
    left: Seq<u32>,
    right: Seq<u32>,
    channels: u32,
    position: int,
    sample_rate: u32,
    i: int,
)
    requires
        s.left.len() == CAPACITY_FRAMES,
        s.right.len() == CAPACITY_FRAMES,
        left.len() == right.len(),
        0 <= i < left.len(),
        left.len() - i <= CAPACITY_FRAMES,
    ensures
        s.after_write(left, right, channels, position, sample_rate).frame(
            (s.write + i) as nat,
        ) == (left[i], right[i]),
{
    ring::law_ring_reads_back(s.left, s.write, left, i);
    ring::law_ring_reads_back(s.right, s.write, right, i);
}

/// Frames that have not been played survive what arrives after them, as long as
/// they are still within the ring's reach.
pub proof fn law_unplayed_frames_survive_a_write(
    s: JamInputModel,
    left: Seq<u32>,
    right: Seq<u32>,
    channels: u32,
    position: int,
    sample_rate: u32,
    k: nat,
)
    requires
        s.left.len() == CAPACITY_FRAMES,
        s.right.len() == CAPACITY_FRAMES,
        left.len() == right.len(),
        k < s.write,
        s.write + left.len() - k <= CAPACITY_FRAMES,
    ensures
        s.after_write(left, right, channels, position, sample_rate).frame(k) == s.frame(k),
{
    ring::law_ring_keeps_what_it_does_not_overwrite(s.left, s.write, left, k);
    ring::law_ring_keeps_what_it_does_not_overwrite(s.right, s.write, right, k);
}

/// A slot that keeps up plays its frames without a gap: the next block starts
/// where the last one ended, unless the backlog outgrew the cushion in between.
pub proof fn law_blocks_follow_one_another(s: JamInputModel, want: nat, next: nat)
    requires
        s.read <= s.write,
        s.plays(want),
        s.after_mix(want).plays(next),
        s.after_mix(want).backlog() <= cushion(s.sample_rate, next) + next,
    ensures
        s.after_mix(want).block_start(next) == s.block_start(want) + want,
{
}

// ── Runs of calls ───────────────────────────────────────────────────────────

/// A call on a claimed slot.
pub enum InputStep {
    Write {
        left: Seq<u32>,
        right: Seq<u32>,
        channels: u32,
        capture_position: int,
        sample_rate: u32,
    },
    Mix { want: nat },
    TakePeak,
}

impl JamInputModel {
    /// Whether the slot holds its cushion when asked for `want` frames.
    pub open spec fn cushion_full(self, want: nat) -> bool {
        self.unlapped().backlog() >= cushion(self.sample_rate, want)
    }

    /// Whether the slot holds a whole block of `want` frames.
    pub open spec fn holds_block(self, want: nat) -> bool {
        self.unlapped().backlog() >= want
    }

    /// The slot after one call.
    pub open spec fn after_step(self, step: InputStep) -> JamInputModel {
        match step {
            InputStep::Write { left, right, channels, capture_position, sample_rate } =>
                self.after_write(left, right, channels, capture_position, sample_rate),
            InputStep::Mix { want } => self.after_mix(want),
            InputStep::TakePeak => JamInputModel { peak: 0, ..self },
        }
    }

    /// The slot after calls one after another.
    pub open spec fn after_steps(self, steps: Seq<InputStep>) -> JamInputModel
        decreases steps.len(),
    {
        if steps.len() == 0 {
            self
        } else {
            self.after_steps(steps.drop_last()).after_step(steps.last())
        }
    }

    /// Whether no block of a run finds the cushion full.
    pub open spec fn never_full(self, steps: Seq<InputStep>) -> bool {
        forall|k: int|
            0 <= k < steps.len() ==> (#[trigger] steps[k] matches InputStep::Mix { want } ==> want
                > 0 && !self.after_steps(steps.take(k)).cushion_full(want))
    }

    /// Whether every block of a run finds its frames.
    pub open spec fn never_short(self, steps: Seq<InputStep>) -> bool {
        forall|k: int|
            0 <= k < steps.len() ==> (#[trigger] steps[k] matches InputStep::Mix { want }
                ==> self.after_steps(steps.take(k)).holds_block(want))
    }
}

/// A run without its last call is a run of the same kind.
proof fn lemma_shorter_runs(s: JamInputModel, steps: Seq<InputStep>)
    requires
        steps.len() > 0,
    ensures
        s.never_full(steps) ==> s.never_full(steps.drop_last()),
        s.never_short(steps) ==> s.never_short(steps.drop_last()),
        steps.take(steps.len() - 1) == steps.drop_last(),
{
    let before = steps.drop_last();
    assert(steps.take(steps.len() - 1) =~= before);
    assert forall|k: int| 0 <= k < before.len() implies before[k] == steps[k] && before.take(k)
        == steps.take(k) by {
        assert(before.take(k) =~= steps.take(k));
    }
    if s.never_full(steps) {
        assert forall|k: int| 0 <= k < before.len() implies (#[trigger] before[k] matches InputStep::Mix {
            want,
        } ==> want > 0 && !s.after_steps(before.take(k)).cushion_full(want)) by {
            assert(before[k] == steps[k] && before.take(k) == steps.take(k));
        }
    }
    if s.never_short(steps) {
        assert forall|k: int| 0 <= k < before.len() implies (#[trigger] before[k] matches InputStep::Mix {
            want,
        } ==> s.after_steps(before.take(k)).holds_block(want)) by {
            assert(before[k] == steps[k] && before.take(k) == steps.take(k));
        }
    }
}

/// A slot that primes goes on priming until a block finds its cushion full:
/// until then nothing is handed out and nothing counts as late, however much
/// arrives.
pub proof fn law_slot_primes_until_its_cushion_is_full(s: JamInputModel, steps: Seq<InputStep>)
    requires
        s.active,
        s.priming,
        s.never_full(steps),
    ensures
        s.after_steps(steps).priming,
        s.after_steps(steps).active,
        s.after_steps(steps).underruns == s.underruns,
        forall|k: int|
            0 <= k < steps.len() ==> (#[trigger] steps[k] matches InputStep::Mix { want }
                ==> !s.after_steps(steps.take(k)).plays(want)),
    decreases steps.len(),
{
    if steps.len() > 0 {
        let before = steps.drop_last();
        lemma_shorter_runs(s, steps);
        law_slot_primes_until_its_cushion_is_full(s, before);
        let last = steps.len() - 1;
        assert(steps[last] == steps.last());
        assert forall|k: int| 0 <= k < steps.len() implies (#[trigger] steps[k] matches InputStep::Mix {
            want,
        } ==> !s.after_steps(steps.take(k)).plays(want)) by {
            if k < last {
                assert(before[k] == steps[k]);
                assert(before.take(k) =~= steps.take(k));
            }
        }
    }
}

/// A slot that plays goes on playing as long as every block finds its frames,
/// and counts no lateness.
pub proof fn law_slot_plays_until_it_runs_short(s: JamInputModel, steps: Seq<InputStep>)
    requires
        s.active,
        !s.priming,
        s.never_short(steps),
    ensures
        !s.after_steps(steps).priming,
        s.after_steps(steps).active,
        s.after_steps(steps).underruns == s.underruns,
        forall|k: int|
            0 <= k < steps.len() ==> (#[trigger] steps[k] matches InputStep::Mix { want } ==> want
                > 0 ==> s.after_steps(steps.take(k)).plays(want)),
    decreases steps.len(),
{
    if steps.len() > 0 {
        let before = steps.drop_last();
        lemma_shorter_runs(s, steps);
        law_slot_plays_until_it_runs_short(s, before);
        let last = steps.len() - 1;
        assert(steps[last] == steps.last());
        assert forall|k: int| 0 <= k < steps.len() implies (#[trigger] steps[k] matches InputStep::Mix {
            want,
        } ==> want > 0 ==> s.after_steps(steps.take(k)).plays(want)) by {
            if k < last {
                assert(before[k] == steps[k]);
                assert(before.take(k) =~= steps.take(k));
            }
        }
    }
}

/// A slot stops priming with the block that it hands out, and starts again with
/// the block that it cannot fill; nothing else changes it.
pub proof fn law_priming_turns_with_the_blocks(s: JamInputModel, step: InputStep)
    requires
        s.active,
    ensures
        s.priming && !s.after_step(step).priming <==> s.priming && (step matches InputStep::Mix {
            want,
        } && s.plays(want)),
        !s.priming && s.after_step(step).priming <==> !s.priming && (step matches InputStep::Mix {
            want,
        } && want > 0 && !s.holds_block(want)),
{
}

} // verus!
