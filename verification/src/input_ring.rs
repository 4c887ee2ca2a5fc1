//! Rings between the capture callback and its readers.
//!
//! Both rings are written by one side and read by the other, addressed by a
//! running count: the writer appends, the reader asks for any count that is
//! still within the ring's reach.

use vstd::prelude::*;

use crate::ring;

verus! {

/// Frames that the input ring holds.
pub const INPUT_CAPACITY_FRAMES: usize = 16384;

/// Preview bins that are retained for one take.
pub const PREVIEW_CAPACITY: usize = 65536;

/// How many armed tracks get a live waveform preview at once. Tracks armed
/// beyond that still record.
pub const MAX_RECORDING_PREVIEW_TRACKS: usize = 32;

// ── Live input ──────────────────────────────────────────────────────────────

/// Stereo ring from the live-input stream to the output callback.
#[derive(Debug)]
pub struct InputRing {
    left: Vec<u32>,
    right: Vec<u32>,
    write_frames: u64,
    active: bool,
    channels: u32,
    sample_rate: u32,
}

/// The state of an input ring.
#[verifier::ext_equal]
pub struct InputRingModel {
    pub left: Seq<u32>,
    pub right: Seq<u32>,
    /// Frames written so far, as a 64-bit count that goes round.
    pub head: u64,
    pub active: bool,
    pub channels: u32,
    pub sample_rate: u32,
}

impl InputRingModel {
    /// The ring after one more frame.
    pub open spec fn after_frame(self, l: u32, r: u32) -> InputRingModel {
        InputRingModel {
            left: ring::ring_write(self.left, self.head as nat, seq![l]),
            right: ring::ring_write(self.right, self.head as nat, seq![r]),
            head: ((self.head + 1) % 0x1_0000_0000_0000_0000) as u64,
            ..self
        }
    }

    /// The frame that count `frame` is found at.
    pub open spec fn frame(self, frame: u64) -> (u32, u32) {
        (ring::ring_at(self.left, frame as nat), ring::ring_at(self.right, frame as nat))
    }
}

/// A ring that nothing has fed yet.
pub open spec fn empty_input_ring() -> InputRingModel {
    InputRingModel {
        left: ring::silence(INPUT_CAPACITY_FRAMES as nat),
        right: ring::silence(INPUT_CAPACITY_FRAMES as nat),
        head: 0,
        active: false,
        channels: 0,
        sample_rate: 0,
    }
}

impl View for InputRing {
    type V = InputRingModel;

    closed spec fn view(&self) -> InputRingModel {
        InputRingModel {
            left: self.left@,
            right: self.right@,
            head: self.write_frames,
            active: self.active,
            channels: self.channels,
            sample_rate: self.sample_rate,
        }
    }
}

impl Default for InputRing {
    fn default() -> (r: Self)
        ensures
            r.well_formed(),
            r@ == empty_input_ring(),
    {
        let r = InputRing {
            left: vec![0u32; INPUT_CAPACITY_FRAMES],
            right: vec![0u32; INPUT_CAPACITY_FRAMES],
            write_frames: 0,
            active: false,
            channels: 0,
            sample_rate: 0,
        };
        proof {
            assert(r.left@ =~= ring::silence(INPUT_CAPACITY_FRAMES as nat));
            assert(r.right@ =~= ring::silence(INPUT_CAPACITY_FRAMES as nat));
        }
        r
    }
}

impl InputRing {
    /// Both sides hold as many frames as the ring has room for.
    pub open spec fn well_formed(self) -> bool {
        &&& self@.left.len() == INPUT_CAPACITY_FRAMES
        &&& self@.right.len() == INPUT_CAPACITY_FRAMES
    }

    /// Frames that the ring holds.
    pub fn capacity_frames(&self) -> (r: u64)
        ensures
            r == INPUT_CAPACITY_FRAMES,
    {
        16384
    }

    /// Append one stereo frame.
    pub fn write_stereo(&mut self, l: u32, r: u32)
        requires
            old(self).well_formed(),
        ensures
            final(self).well_formed(),
            final(self)@ == old(self)@.after_frame(l, r),
    {
        let index: usize = (self.write_frames % 16384) as usize;
        let ghost before = self@;
        self.left.set(index, l);
        self.right.set(index, r);
        self.write_frames = self.write_frames.wrapping_add(1);
        proof {
            let one = seq![l];
            let other = seq![r];
            assert(one.drop_last() =~= Seq::empty());
            assert(other.drop_last() =~= Seq::empty());
            assert(ring::ring_write(before.left, before.head as nat, one.drop_last())
                == before.left);
            assert(ring::ring_write(before.right, before.head as nat, other.drop_last())
                == before.right);
        }
    }

    /// Frames written so far.
    pub fn write_head(&self) -> (r: u64)
        ensures
            r == self@.head,
    {
        self.write_frames
    }

    /// The stereo frame at count `frame`. It is the one written there while
    /// the count is before the head and within the ring's reach.
    pub fn read_frame(&self, frame: u64) -> (r: (u32, u32))
        requires
            self.well_formed(),
        ensures
            r == self@.frame(frame),
    {
        let index: usize = (frame % 16384) as usize;
        (self.left[index], self.right[index])
    }

    /// Mark the ring as fed by a live-input stream, or not, and record the
    /// stream's format.
    pub fn set_active(&mut self, active: bool, channels: u32, sample_rate: u32)
        ensures
            final(self)@ == (InputRingModel { active, channels, sample_rate, ..old(self)@ }),
            old(self).well_formed() ==> final(self).well_formed(),
    {
        self.channels = channels;
        self.sample_rate = sample_rate;
        self.active = active;
    }

    pub fn is_active(&self) -> (r: bool)
        ensures
            r == self@.active,
    {
        self.active
    }

    pub fn channels(&self) -> (r: u32)
        ensures
            r == self@.channels,
    {
        self.channels
    }

    pub fn sample_rate(&self) -> (r: u32)
        ensures
            r == self@.sample_rate,
    {
        self.sample_rate
    }
}

/// The ring after some frames, one after the other.
pub open spec fn after_frames(m: InputRingModel, frames: Seq<(u32, u32)>) -> InputRingModel
    decreases frames.len(),
{
    if frames.len() == 0 {
        m
    } else {
        after_frames(m, frames.drop_last()).after_frame(frames.last().0, frames.last().1)
    }
}

proof fn lemma_after_frames_head(m: InputRingModel, frames: Seq<(u32, u32)>)
    requires
        m.left.len() == INPUT_CAPACITY_FRAMES,
        m.right.len() == INPUT_CAPACITY_FRAMES,
        m.head + frames.len() <= u64::MAX,
    ensures
        after_frames(m, frames).head == m.head + frames.len(),
        after_frames(m, frames).left.len() == INPUT_CAPACITY_FRAMES,
        after_frames(m, frames).right.len() == INPUT_CAPACITY_FRAMES,
    decreases frames.len(),
{
    if frames.len() > 0 {
        lemma_after_frames_head(m, frames.drop_last());
        let before = after_frames(m, frames.drop_last());
        ring::lemma_ring_write_len(before.left, before.head as nat, seq![frames.last().0]);
        ring::lemma_ring_write_len(before.right, before.head as nat, seq![frames.last().1]);
    }
}

/// A written frame is read back at its count until the ring has gone round.
pub proof fn law_input_frame_reads_back(m: InputRingModel, frames: Seq<(u32, u32)>, i: int)
    requires
        m.left.len() == INPUT_CAPACITY_FRAMES,
        m.right.len() == INPUT_CAPACITY_FRAMES,
        m.head + frames.len() <= u64::MAX,
        0 <= i < frames.len(),
        frames.len() - i <= INPUT_CAPACITY_FRAMES,
    ensures
        after_frames(m, frames).frame((m.head + i) as u64) == frames[i],
    decreases frames.len(),
{
    let shorter = frames.drop_last();
    let before = after_frames(m, shorter);
    lemma_after_frames_head(m, shorter);
    let l = seq![frames.last().0];
    let r = seq![frames.last().1];
    if i == frames.len() - 1 {
        ring::law_ring_reads_back(before.left, before.head as nat, l, 0);
        ring::law_ring_reads_back(before.right, before.head as nat, r, 0);
    } else {
        law_input_frame_reads_back(m, shorter, i);
        let k = (m.head + i) as nat;
        ring::law_ring_keeps_what_it_does_not_overwrite(before.left, before.head as nat, l, k);
        ring::law_ring_keeps_what_it_does_not_overwrite(before.right, before.head as nat, r, k);
    }
}

// ── Recording waveform preview ──────────────────────────────────────────────

/// One preview bin: least, largest and root-mean-square sample of a preview
/// window, as bit patterns.
#[derive(Clone, Copy, Debug, PartialEq, Eq, Structural)]
pub struct WaveformPeak {
    pub min: u32,
    pub max: u32,
    pub rms: u32,
}

impl Default for WaveformPeak {
    fn default() -> (r: Self)
        ensures
            r == (WaveformPeak { min: 0, max: 0, rms: 0 }),
    {
        WaveformPeak { min: 0, max: 0, rms: 0 }
    }
}

/// Ring of finished preview bins. The recording callback pushes, the control
/// thread drains.
#[derive(Debug)]
pub struct PreviewPeakRing {
    bins: Vec<WaveformPeak>,
    write_bins: u64,
}

/// The state of a preview ring.
#[verifier::ext_equal]
pub struct PreviewModel {
    pub bins: Seq<WaveformPeak>,
    /// Bins written since the last reset, as a 64-bit count that goes round.
    pub head: u64,
}

impl PreviewModel {
    /// Where count `i` is kept.
    pub open spec fn place(i: u64) -> int {
        i as int % PREVIEW_CAPACITY as int
    }

    /// The ring after one more bin.
    pub open spec fn after_push(self, peak: WaveformPeak) -> PreviewModel {
        PreviewModel {
            bins: self.bins.update(PreviewModel::place(self.head), peak),
            head: ((self.head + 1) % 0x1_0000_0000_0000_0000) as u64,
        }
    }
}

impl View for PreviewPeakRing {
    type V = PreviewModel;

    closed spec fn view(&self) -> PreviewModel {
        PreviewModel { bins: self.bins@, head: self.write_bins }
    }
}

impl Default for PreviewPeakRing {
    fn default() -> (r: Self)
        ensures
            r.well_formed(),
            r@.head == 0,
            r@.bins == Seq::new(
                PREVIEW_CAPACITY as nat,
                |i: int| WaveformPeak { min: 0, max: 0, rms: 0 },
            ),
    {
        let empty = WaveformPeak { min: 0, max: 0, rms: 0 };
        let mut bins: Vec<WaveformPeak> = Vec::with_capacity(PREVIEW_CAPACITY);
        let mut n: usize = 0;
        while n < PREVIEW_CAPACITY
            invariant
                n <= PREVIEW_CAPACITY,
                bins@.len() == n,
                forall|i: int| 0 <= i < n ==> bins@[i] == empty,
            decreases PREVIEW_CAPACITY - n,
        {
            bins.push(empty);
            n = n + 1;
        }
        let r = PreviewPeakRing { bins, write_bins: 0 };
        proof {
            assert(r.bins@ =~= Seq::new(PREVIEW_CAPACITY as nat, |i: int| empty));
        }
        r
    }
}

impl PreviewPeakRing {
    /// The ring holds as many bins as are retained.
    pub open spec fn well_formed(self) -> bool {
        self@.bins.len() == PREVIEW_CAPACITY
    }

    /// Append one finished bin.
    pub fn push(&mut self, peak: WaveformPeak)
        requires
            old(self).well_formed(),
        ensures
            final(self).well_formed(),
            final(self)@ == old(self)@.after_push(peak),
    {
        let index: usize = (self.write_bins % 65536) as usize;
        self.bins.set(index, peak);
        self.write_bins = self.write_bins.wrapping_add(1);
    }

    /// Bins written since the last reset.
    pub fn head(&self) -> (r: u64)
        ensures
            r == self@.head,
    {
        self.write_bins
    }

    /// The bin at count `i`.
    pub fn read(&self, i: u64) -> (r: WaveformPeak)
        requires
            self.well_formed(),
        ensures
            r == self@.bins[PreviewModel::place(i)],
    {
        self.bins[(i % 65536) as usize]
    }

    /// Start counting from zero again, before a take.
    pub fn reset(&mut self)
        ensures
            final(self)@ == (PreviewModel { head: 0, ..old(self)@ }),
            old(self).well_formed() ==> final(self).well_formed(),
    {
        self.write_bins = 0;
    }

    /// Bins that are retained; a drain never reaches further back.
    pub fn default_capacity() -> (r: u64)
        ensures
            r == PREVIEW_CAPACITY,
    {
        65536
    }
}

/// Where a drain that last stopped at `from` goes on: never before what the
/// ring still holds.
pub open spec fn drain_start(head: u64, from: u64) -> u64 {
    if head > PREVIEW_CAPACITY && from < head - PREVIEW_CAPACITY {
        (head - PREVIEW_CAPACITY) as u64
    } else {
        from
    }
}

/// A pushed bin is read back at its count, and the bins before it stay what
/// they were until the ring has gone round.
pub proof fn law_preview_bin_reads_back(m: PreviewModel, peak: WaveformPeak, i: u64)
    requires
        m.bins.len() == PREVIEW_CAPACITY,
        i <= m.head,
        m.head - i < PREVIEW_CAPACITY,
    ensures
        m.after_push(peak).bins[PreviewModel::place(i)] == if i == m.head {
            peak
        } else {
            m.bins[PreviewModel::place(i)]
        },
{
    if i < m.head {
        ring::lemma_distinct_mod(i as int, m.head as int, PREVIEW_CAPACITY as int);
    }
}

} // verus!
