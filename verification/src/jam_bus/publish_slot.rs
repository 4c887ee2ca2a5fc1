//! A local source's audio on its way to the network.

use vstd::prelude::*;

use crate::jam_bus;
use crate::jam_bus::CAPACITY_FRAMES;
use crate::jam_bus::MAX_MULTITRACK_CHANNELS;
use crate::jam_bus::MAX_MULTITRACK_PAIRS;
use crate::ring;

verus! {

/// One local source being published, written by the callback and drained by
/// the publisher. One ring for each channel that the slot can carry.
#[derive(Debug)]
pub struct JamPublishSlot {
    planes: Vec<Vec<u32>>,
    channels: usize,
    staged: Vec<bool>,
    write_frames: u64,
    read_frames: u64,
    active: bool,
    sample_rate: u32,
    capture_base: i64,
    capture_known: bool,
    overruns: u64,
    peak: u32,
}

/// The state of a publish slot.
pub struct JamPublishModel {
    /// The ring of each channel.
    pub planes: Seq<Seq<u32>>,
    /// Channels in use.
    pub channels: nat,
    /// Which pairs of the block being assembled were staged.
    pub staged: Seq<bool>,
    pub write: nat,
    pub read: nat,
    pub active: bool,
    pub sample_rate: u32,
    /// Session tick of frame zero, once the session's clock has locked.
    pub capture_base: Option<int>,
    pub overruns: u64,
    pub peak: u32,
}

impl JamPublishModel {
    /// The channels that a reader gets.
    pub open spec fn width(self) -> nat {
        if self.channels < 1 {
            1
        } else if self.channels > self.planes.len() {
            self.planes.len()
        } else {
            self.channels
        }
    }

    /// Frames written and not yet read.
    pub open spec fn backlog(self) -> nat {
        if self.write >= self.read {
            (self.write - self.read) as nat
        } else {
            0
        }
    }

    /// The slot with `frames` more frames published.
    pub open spec fn advanced(self, frames: nat, sample_rate: u32) -> JamPublishModel {
        JamPublishModel {
            write: self.write + frames,
            sample_rate,
            overruns: if self.backlog() + frames > CAPACITY_FRAMES {
                jam_bus::bumped(self.overruns)
            } else {
                self.overruns
            },
            ..self
        }
    }

    /// The slot with a pair of channels written from the current frame on.
    pub open spec fn with_pair(
        self,
        first: int,
        left: Seq<u32>,
        right: Seq<u32>,
    ) -> JamPublishModel {
        JamPublishModel {
            planes: self.planes.update(
                first,
                ring::ring_write(self.planes[first], self.write, left),
            ).update(
                first + 1,
                ring::ring_write(self.planes[first + 1], self.write, right),
            ),
            peak: ring::stereo_peak(self.peak, left, right),
            ..self
        }
    }

    /// The slot with `frames` frames of silence in every channel of the claim
    /// past the first pair.
    pub open spec fn rest_silenced(self, frames: nat) -> JamPublishModel {
        JamPublishModel {
            planes: Seq::new(
                self.planes.len(),
                |c: int|
                    if 2 <= c < self.live_channels() {
                        ring::ring_write(self.planes[c], self.write, ring::silence(frames))
                    } else {
                        self.planes[c]
                    },
            ),
            ..self
        }
    }

    /// The slot after a stereo block: without a claim, without frames or
    /// without two channels nothing happens. The claim keeps its layout: the
    /// block fills the first pair, and any other is silent for as long.
    pub open spec fn after_stereo(
        self,
        left: Seq<u32>,
        right: Seq<u32>,
        sample_rate: u32,
    ) -> JamPublishModel {
        if !self.active || left.len() == 0 || self.planes.len() < 2 {
            self
        } else {
            self.with_pair(0, left, right).rest_silenced(left.len()).advanced(
                left.len(),
                sample_rate,
            )
        }
    }

    /// Whether a pair can be staged.
    pub open spec fn takes_pair(self, pair: int) -> bool {
        self.active && pair * 2 + 1 < self.channels && pair * 2 + 1 < self.planes.len()
    }

    /// The slot after a pair was staged.
    pub open spec fn after_stage(
        self,
        pair: int,
        left: Seq<u32>,
        right: Seq<u32>,
    ) -> JamPublishModel {
        if !self.takes_pair(pair) || left.len() == 0 {
            self
        } else {
            JamPublishModel {
                staged: self.staged.update(pair, true),
                ..self.with_pair(pair * 2, left, right)
            }
        }
    }

    /// The channels in use that there are rings for.
    pub open spec fn live_channels(self) -> nat {
        if self.channels < self.planes.len() {
            self.channels
        } else {
            self.planes.len()
        }
    }

    /// The ring of channel `c` when the block is closed: silence in a pair that
    /// nobody staged.
    pub open spec fn closed_plane(self, c: int, frames: nat) -> Seq<u32> {
        if c / 2 < self.live_channels() / 2 && !self.staged[c / 2] {
            ring::ring_write(self.planes[c], self.write, ring::silence(frames))
        } else {
            self.planes[c]
        }
    }

    /// The slot after the staged block was closed and published.
    pub open spec fn after_commit(self, frames: nat, sample_rate: u32) -> JamPublishModel {
        if !self.active || frames == 0 {
            self
        } else {
            JamPublishModel {
                planes: Seq::new(self.planes.len(), |c: int| self.closed_plane(c, frames)),
                staged: Seq::new(self.staged.len(), |p: int| false),
                ..self
            }.advanced(frames, sample_rate)
        }
    }

    /// The frame that the next read starts with: one still in the ring.
    pub open spec fn read_start(self) -> nat {
        if self.backlog() > CAPACITY_FRAMES {
            (self.write - CAPACITY_FRAMES) as nat
        } else {
            self.read
        }
    }

    /// How many frames the next read gives.
    pub open spec fn ready(self, max_frames: nat) -> nat {
        let held = if self.write >= self.read_start() {
            (self.write - self.read_start()) as nat
        } else {
            0
        };
        if held < max_frames {
            held
        } else {
            max_frames
        }
    }

    /// The session tick of the frame that the next read starts with, once the
    /// clock has locked.
    pub open spec fn tick(self) -> Option<int> {
        match self.capture_base {
            Some(base) => Some(jam_bus::position_after(base, self.read_start() as int)),
            None => None,
        }
    }

    /// The slot after a read of up to `max_frames` frames.
    pub open spec fn after_read(self, max_frames: nat) -> JamPublishModel {
        if !self.active || self.ready(max_frames) == 0 {
            self
        } else {
            JamPublishModel { read: self.read_start() + self.ready(max_frames), ..self }
        }
    }

    /// `n` frames from count `from` on, interleaved.
    pub open spec fn interleaved(self, from: nat, n: nat) -> Seq<u32>
        decreases n,
    {
        if n == 0 {
            Seq::empty()
        } else {
            self.interleaved(from, (n - 1) as nat) + self.frame((from + n - 1) as nat)
        }
    }

    /// The channels of the frame at count `k`.
    pub open spec fn frame(self, k: nat) -> Seq<u32> {
        Seq::new(self.width(), |c: int| ring::ring_at(self.planes[c], k))
    }

    /// The channels that a claim for `channels` channels gets: an even number,
    /// at least two, as far as there are rings.
    pub open spec fn claim_width(self, channels: nat) -> nat {
        let even = (channels / 2) * 2;
        let most = if self.planes.len() < 2 {
            2
        } else {
            self.planes.len()
        };
        let held = if even < 2 {
            2
        } else if even > most {
            most
        } else {
            even
        };
        if held < self.planes.len() {
            held
        } else {
            self.planes.len()
        }
    }

    /// A freshly claimed slot.
    pub open spec fn claimed(self, channels: nat) -> JamPublishModel {
        JamPublishModel {
            channels: self.claim_width(channels),
            staged: Seq::new(self.staged.len(), |p: int| false),
            write: 0,
            read: 0,
            active: true,
            capture_base: None,
            overruns: 0,
            peak: 0,
            ..self
        }
    }
}

impl View for JamPublishSlot {
    type V = JamPublishModel;

    closed spec fn view(&self) -> JamPublishModel {
        JamPublishModel {
            planes: self.planes@.map_values(|p: Vec<u32>| p@),
            channels: self.channels as nat,
            staged: self.staged@,
            write: self.write_frames as nat,
            read: self.read_frames as nat,
            active: self.active,
            sample_rate: self.sample_rate,
            capture_base: if self.capture_known {
                Some(self.capture_base as int)
            } else {
                None
            },
            overruns: self.overruns,
            peak: self.peak,
        }
    }
}

/// The widest layout that a slot made for `channels` channels carries.
pub open spec fn slot_width(channels: nat) -> nat {
    if channels < 1 {
        1
    } else if channels > MAX_MULTITRACK_CHANNELS {
        MAX_MULTITRACK_CHANNELS as nat
    } else {
        channels
    }
}

impl Default for JamPublishSlot {
    fn default() -> (r: Self)
        ensures
            r.well_formed(),
            r@.planes.len() == 2,
            r@.channels == 2,
            !r@.active,
            r@.write == 0,
            r@.read == 0,
            r@.sample_rate == 0,
            r@.capture_base is None,
            r@.overruns == 0,
            r@.peak == 0,
    {
        JamPublishSlot::with_capacity_channels(2)
    }
}

/// Write the first `n` samples into a ring from count `at` on.
fn write_plane(plane: &mut Vec<u32>, at: u64, samples: &[u32], n: usize)
    requires
        old(plane)@.len() == CAPACITY_FRAMES,
        n <= samples@.len(),
        at + n <= i64::MAX,
    ensures
        final(plane)@ == ring::ring_write(old(plane)@, at as nat, samples@.take(n as int)),
        final(plane)@.len() == CAPACITY_FRAMES,
{
    let ghost first = plane@;
    let mut f: usize = 0;
    proof {
        assert(samples@.take(0) =~= Seq::empty());
    }
    while f < n
        invariant
            f <= n,
            n <= samples@.len(),
            first.len() == CAPACITY_FRAMES,
            plane@.len() == CAPACITY_FRAMES,
            at + n <= i64::MAX,
            plane@ == ring::ring_write(first, at as nat, samples@.take(f as int)),
        decreases n - f,
    {
        let index: usize = ((at + f as u64) % CAPACITY_FRAMES as u64) as usize;
        proof {
            assert(samples@.take(f + 1).drop_last() =~= samples@.take(f as int));
        }
        plane[index] = samples[f];
        f = f + 1;
    }
}

/// Write one side of `n` interleaved frames into a ring from count `at` on.
fn write_side(
    plane: &mut Vec<u32>,
    at: u64,
    interleaved: &[u32],
    channels: usize,
    n: usize,
    take_right: bool,
)
    requires
        old(plane)@.len() == CAPACITY_FRAMES,
        channels > 0,
        n == interleaved@.len() as int / channels as int,
        at + n <= i64::MAX,
    ensures
        final(plane)@ == ring::ring_write(
            old(plane)@,
            at as nat,
            if take_right {
                ring::right_of(interleaved@, channels as nat, n as nat)
            } else {
                ring::left_of(interleaved@, channels as nat, n as nat)
            },
        ),
        final(plane)@.len() == CAPACITY_FRAMES,
{
    let ghost first = plane@;
    let ghost samples = if take_right {
        ring::right_of(interleaved@, channels as nat, n as nat)
    } else {
        ring::left_of(interleaved@, channels as nat, n as nat)
    };
    let mut f: usize = 0;
    proof {
        assert(samples.take(0) =~= Seq::empty());
    }
    while f < n
        invariant
            f <= n,
            channels > 0,
            n == interleaved@.len() as int / channels as int,
            samples == (if take_right {
                ring::right_of(interleaved@, channels as nat, n as nat)
            } else {
                ring::left_of(interleaved@, channels as nat, n as nat)
            }),
            first.len() == CAPACITY_FRAMES,
            plane@.len() == CAPACITY_FRAMES,
            at + n <= i64::MAX,
            plane@ == ring::ring_write(first, at as nat, samples.take(f as int)),
        decreases n - f,
    {
        let sides: (u32, u32) = ring::frame_sides(interleaved, channels, f);
        let index: usize = ((at + f as u64) % CAPACITY_FRAMES as u64) as usize;
        proof {
            assert(samples.take(f + 1).drop_last() =~= samples.take(f as int));
        }
        plane[index] = if take_right {
            sides.1
        } else {
            sides.0
        };
        f = f + 1;
    }
    proof {
        assert(samples.take(n as int) =~= samples);
    }
}

/// Write `n` samples of silence into a ring from count `at` on.
fn write_silence(plane: &mut Vec<u32>, at: u64, n: usize)
    requires
        old(plane)@.len() == CAPACITY_FRAMES,
        at + n <= i64::MAX,
    ensures
        final(plane)@ == ring::ring_write(old(plane)@, at as nat, ring::silence(n as nat)),
        final(plane)@.len() == CAPACITY_FRAMES,
{
    let ghost first = plane@;
    let mut f: usize = 0;
    while f < n
        invariant
            f <= n,
            first.len() == CAPACITY_FRAMES,
            plane@.len() == CAPACITY_FRAMES,
            at + n <= i64::MAX,
            plane@ == ring::ring_write(first, at as nat, ring::silence(f as nat)),
        decreases n - f,
    {
        let index: usize = ((at + f as u64) % CAPACITY_FRAMES as u64) as usize;
        proof {
            assert(ring::silence((f + 1) as nat).drop_last() =~= ring::silence(f as nat));
        }
        plane[index] = 0;
        f = f + 1;
    }
}

/// The larger of a held peak and the magnitudes of two runs of `n` samples.
fn hold_stereo_peak(peak: u32, left: &[u32], right: &[u32], n: usize) -> (r: u32)
    requires
        n <= left@.len(),
        n <= right@.len(),
    ensures
        r == ring::stereo_peak(peak, left@.take(n as int), right@.take(n as int)),
{
    let mut held: u32 = peak;
    let mut f: usize = 0;
    proof {
        assert(left@.take(0) =~= Seq::empty());
    }
    while f < n
        invariant
            f <= n,
            n <= left@.len(),
            n <= right@.len(),
            held == ring::stereo_peak(peak, left@.take(f as int), right@.take(f as int)),
        decreases n - f,
    {
        proof {
            assert(left@.take(f + 1).drop_last() =~= left@.take(f as int));
            assert(right@.take(f + 1).take(f as int) =~= right@.take(f as int));
        }
        held = ring::hold_peak(ring::hold_peak(held, left[f]), right[f]);
        f = f + 1;
    }
    held
}

/// The larger of a held peak and the magnitudes of both sides of `n`
/// interleaved frames.
fn hold_interleaved_peak(peak: u32, interleaved: &[u32], channels: usize, n: usize) -> (r: u32)
    requires
        channels > 0,
        n == interleaved@.len() as int / channels as int,
    ensures
        r == ring::stereo_peak(
            peak,
            ring::left_of(interleaved@, channels as nat, n as nat),
            ring::right_of(interleaved@, channels as nat, n as nat),
        ),
{
    let ghost left = ring::left_of(interleaved@, channels as nat, n as nat);
    let ghost right = ring::right_of(interleaved@, channels as nat, n as nat);
    let mut held: u32 = peak;
    let mut f: usize = 0;
    proof {
        assert(left.take(0) =~= Seq::empty());
    }
    while f < n
        invariant
            f <= n,
            channels > 0,
            n == interleaved@.len() as int / channels as int,
            left == ring::left_of(interleaved@, channels as nat, n as nat),
            right == ring::right_of(interleaved@, channels as nat, n as nat),
            held == ring::stereo_peak(peak, left.take(f as int), right.take(f as int)),
        decreases n - f,
    {
        let sides: (u32, u32) = ring::frame_sides(interleaved, channels, f);
        proof {
            assert(left.take(f + 1).drop_last() =~= left.take(f as int));
            assert(right.take(f + 1).take(f as int) =~= right.take(f as int));
        }
        held = ring::hold_peak(ring::hold_peak(held, sides.0), sides.1);
        f = f + 1;
    }
    proof {
        assert(left.take(n as int) =~= left);
        assert(right.take(n as int) =~= right);
    }
    held
}

/// How many frames a pair of buffers can give.
pub open spec fn pair_frames(frames: usize, left: nat, right: nat) -> nat {
    let a = if left < frames {
        left
    } else {
        frames as nat
    };
    if right < a {
        right
    } else {
        a
    }
}

/// Mark every pair unstaged, in place: the callback must not allocate.
fn forget_staged(staged: &mut Vec<bool>)
    ensures
        final(staged)@ == Seq::new(old(staged)@.len(), |p: int| false),
{
    let n: usize = staged.len();
    let mut p: usize = 0;
    while p < n
        invariant
            p <= n,
            n == staged@.len(),
            forall|k: int| 0 <= k < p ==> !#[trigger] staged@[k],
        decreases n - p,
    {
        staged[p] = false;
        p = p + 1;
    }
    proof {
        assert(staged@ =~= Seq::new(n as nat, |k: int| false));
    }
}

fn shorter(frames: usize, left: usize, right: usize) -> (r: usize)
    ensures
        r == pair_frames(frames, left as nat, right as nat),
{
    let a: usize = if left < frames {
        left
    } else {
        frames
    };
    if right < a {
        right
    } else {
        a
    }
}

impl JamPublishSlot {
    /// Every ring has the slot's capacity, the rings are few, nothing was read
    /// that was not written, and the count of frames is a position.
    pub open spec fn well_formed(self) -> bool {
        &&& 1 <= self@.planes.len() <= MAX_MULTITRACK_CHANNELS
        &&& forall|c: int|
            #![trigger self@.planes[c]]
            0 <= c < self@.planes.len() ==> self@.planes[c].len() == CAPACITY_FRAMES
        &&& self@.staged.len() == MAX_MULTITRACK_PAIRS
        &&& self@.channels <= MAX_MULTITRACK_CHANNELS
        &&& self@.read <= self@.write <= i64::MAX
        &&& self@.capture_base matches Some(base) ==> i64::MIN <= base <= i64::MAX
    }

    /// A slot that can carry up to `channels` channels, at least one and at
    /// most the multitrack width.
    pub fn with_capacity_channels(channels: usize) -> (r: Self)
        ensures
            r.well_formed(),
            r@.planes.len() == slot_width(channels as nat),
            r@.channels == if slot_width(channels as nat) < 2 {
                slot_width(channels as nat)
            } else {
                2
            },
            !r@.active,
            r@.write == 0,
            r@.read == 0,
            r@.sample_rate == 0,
            r@.capture_base is None,
            r@.overruns == 0,
            r@.peak == 0,
            forall|p: int| 0 <= p < r@.staged.len() ==> !#[trigger] r@.staged[p],
    {
        let width: usize = if channels < 1 {
            1
        } else if channels > MAX_MULTITRACK_CHANNELS {
            MAX_MULTITRACK_CHANNELS
        } else {
            channels
        };
        let mut planes: Vec<Vec<u32>> = Vec::new();
        let mut c: usize = 0;
        while c < width
            invariant
                c <= width,
                planes@.len() == c,
                forall|k: int|
                    #![trigger planes@[k]]
                    0 <= k < c ==> planes@[k]@.len() == CAPACITY_FRAMES,
            decreases width - c,
        {
            planes.push(vec![0u32; CAPACITY_FRAMES]);
            c = c + 1;
        }
        JamPublishSlot {
            planes,
            channels: if width < 2 {
                width
            } else {
                2
            },
            staged: vec![false; MAX_MULTITRACK_PAIRS],
            write_frames: 0,
            read_frames: 0,
            active: false,
            sample_rate: 0,
            capture_base: 0,
            capture_known: false,
            overruns: 0,
            peak: 0,
        }
    }

    pub fn is_active(&self) -> (r: bool)
        ensures
            r == self@.active,
    {
        self.active
    }

    pub fn sample_rate(&self) -> (r: u32)
        ensures
            r == self@.sample_rate,
    {
        self.sample_rate
    }

    /// Read and reset the held peak of what left the slot.
    pub fn take_peak(&mut self) -> (r: u32)
        ensures
            r == old(self)@.peak,
            final(self)@ == (JamPublishModel { peak: 0, ..old(self)@ }),
            old(self).well_formed() ==> final(self).well_formed(),
    {
        let peak: u32 = self.peak;
        self.peak = 0;
        peak
    }

    /// Channels that the slot is carrying, for as long as it is claimed.
    pub fn channels(&self) -> (r: usize)
        ensures
            r == self@.channels,
    {
        self.channels
    }

    /// The widest layout that the slot could ever carry.
    pub fn capacity_channels(&self) -> (r: usize)
        ensures
            r == self@.planes.len(),
    {
        self.planes.len()
    }

    pub fn overruns(&self) -> (r: u64)
        ensures
            r == self@.overruns,
    {
        self.overruns
    }

    /// Publish `frames` more frames, counting a reader that fell behind.
    fn advance(&mut self, frames: usize, sample_rate: u32)
        requires
            old(self).well_formed(),
            old(self)@.write + frames <= i64::MAX,
        ensures
            final(self).well_formed(),
            final(self)@ == old(self)@.advanced(frames as nat, sample_rate),
    {
        self.sample_rate = sample_rate;
        let write: u64 = self.write_frames;
        if write.saturating_sub(self.read_frames) + frames as u64 > CAPACITY_FRAMES as u64 {
            self.overruns = jam_bus::bump(self.overruns);
        }
        self.write_frames = write + frames as u64;
    }

    /// Write `n` frames of a pair of channels from the current frame on.
    fn write_pair(&mut self, first: usize, left: &[u32], right: &[u32], n: usize)
        requires
            old(self).well_formed(),
            first + 1 < old(self)@.planes.len(),
            n <= left@.len(),
            n <= right@.len(),
            old(self)@.write + n <= i64::MAX,
        ensures
            final(self).well_formed(),
            final(self)@ == old(self)@.with_pair(
                first as int,
                left@.take(n as int),
                right@.take(n as int),
            ),
    {
        let ghost before = self@;
        let write: u64 = self.write_frames;
        proof {
            assert(self.planes@[first as int]@ == self@.planes[first as int]);
            assert(self.planes@[first + 1]@ == self@.planes[first + 1]);
        }
        write_plane(&mut self.planes[first], write, left, n);
        write_plane(&mut self.planes[first + 1], write, right, n);
        self.peak = hold_stereo_peak(self.peak, left, right, n);
        proof {
            assert(self@.planes =~= before.with_pair(
                first as int,
                left@.take(n as int),
                right@.take(n as int),
            ).planes);
        }
    }

    /// Write `n` frames of silence to every channel of the claim past the first
    /// pair.
    fn silence_rest(&mut self, n: usize)
        requires
            old(self).well_formed(),
            old(self)@.write + n <= i64::MAX,
        ensures
            final(self).well_formed(),
            final(self)@ == old(self)@.rest_silenced(n as nat),
    {
        let ghost before = self@;
        let ghost held = *self;
        let live: usize = if self.channels < self.planes.len() {
            self.channels
        } else {
            self.planes.len()
        };
        let write: u64 = self.write_frames;
        proof {
            assert forall|k: int| #![trigger self.planes@[k]] 0 <= k < self.planes@.len() implies self.planes@[k]@
                == before.planes[k] && self.planes@[k]@.len() == CAPACITY_FRAMES by {
                assert(before.planes[k] == self.planes@[k]@);
            }
        }
        let mut c: usize = 2;
        while c < live
            invariant
                2 <= c,
                c <= live || live < 2,
                live == before.live_channels(),
                live <= before.planes.len() <= MAX_MULTITRACK_CHANNELS,
                before == held@,
                held.well_formed(),
                *self == (JamPublishSlot { planes: self.planes, ..held }),
                write == before.write,
                write + n <= i64::MAX,
                self.planes@.len() == before.planes.len(),
                forall|k: int|
                    #![trigger self.planes@[k]]
                    2 <= k < c && k < live ==> self.planes@[k]@ == ring::ring_write(
                        before.planes[k],
                        before.write,
                        ring::silence(n as nat),
                    ),
                forall|k: int|
                    #![trigger self.planes@[k]]
                    0 <= k < self.planes@.len() && (k < 2 || c <= k || live <= k)
                        ==> self.planes@[k]@ == before.planes[k],
                forall|k: int|
                    #![trigger self.planes@[k]]
                    0 <= k < self.planes@.len() ==> self.planes@[k]@.len() == CAPACITY_FRAMES,
            decreases live - c,
        {
            write_silence(&mut self.planes[c], write, n);
            c = c + 1;
        }
        proof {
            assert(self@.planes =~= before.rest_silenced(n as nat).planes);
        }
    }

    /// Append one interleaved block: its first two channels, or its only one on
    /// both sides. A slot that nobody claimed takes nothing, and a claim that is
    /// wider than a pair is silent past it.
    pub fn write_interleaved(&mut self, interleaved: &[u32], channels: usize, sample_rate: u32)
        requires
            old(self).well_formed(),
            channels > 0 ==> old(self)@.write + interleaved@.len() as int / channels as int
                <= i64::MAX,
        ensures
            final(self).well_formed(),
            channels == 0 ==> final(self)@ == old(self)@,
            channels > 0 ==> {
                let frames = (interleaved@.len() as int / channels as int) as nat;
                final(self)@ == old(self)@.after_stereo(
                    ring::left_of(interleaved@, channels as nat, frames),
                    ring::right_of(interleaved@, channels as nat, frames),
                    sample_rate,
                )
            },
    {
        if channels == 0 {
            return;
        }
        let frames: usize = interleaved.len() / channels;
        if !self.active || frames == 0 || self.planes.len() < 2 {
            return;
        }
        let ghost before = self@;
        let write: u64 = self.write_frames;
        proof {
            assert(self.planes@[0]@ == self@.planes[0]);
            assert(self.planes@[1]@ == self@.planes[1]);
        }
        write_side(&mut self.planes[0], write, interleaved, channels, frames, false);
        write_side(&mut self.planes[1], write, interleaved, channels, frames, true);
        self.peak = hold_interleaved_peak(self.peak, interleaved, channels, frames);
        proof {
            assert(self@.planes =~= before.with_pair(
                0,
                ring::left_of(interleaved@, channels as nat, frames as nat),
                ring::right_of(interleaved@, channels as nat, frames as nat),
            ).planes);
        }
        self.silence_rest(frames);
        self.advance(frames, sample_rate);
    }

    /// Append one block from separate left and right buffers, bounded by the
    /// shorter of them. A claim that is wider than a pair is silent past it.
    pub fn write_planar(&mut self, left: &[u32], right: &[u32], frames: usize, sample_rate: u32)
        requires
            old(self).well_formed(),
            old(self)@.write + pair_frames(frames, left@.len(), right@.len()) <= i64::MAX,
        ensures
            final(self).well_formed(),
            ({
                let n = pair_frames(frames, left@.len(), right@.len()) as int;
                final(self)@ == old(self)@.after_stereo(left@.take(n), right@.take(n), sample_rate)
            }),
    {
        let n: usize = shorter(frames, left.len(), right.len());
        if !self.active || n == 0 || self.planes.len() < 2 {
            return;
        }
        self.write_pair(0, left, right, n);
        self.silence_rest(n);
        self.advance(n, sample_rate);
    }

    /// Write one channel pair of the block being assembled, without publishing
    /// it. A pair that the claim does not carry is ignored.
    pub fn stage_pair(&mut self, pair: usize, left: &[u32], right: &[u32], frames: usize)
        requires
            old(self).well_formed(),
            old(self)@.write + pair_frames(frames, left@.len(), right@.len()) <= i64::MAX,
        ensures
            final(self).well_formed(),
            ({
                let n = pair_frames(frames, left@.len(), right@.len()) as int;
                final(self)@ == old(self)@.after_stage(pair as int, left@.take(n), right@.take(n))
            }),
    {
        if !self.active || pair >= MAX_MULTITRACK_PAIRS {
            return;
        }
        if pair * 2 + 1 >= self.channels || pair * 2 + 1 >= self.planes.len() {
            return;
        }
        let n: usize = shorter(frames, left.len(), right.len());
        if n == 0 {
            return;
        }
        self.write_pair(pair * 2, left, right, n);
        self.staged[pair] = true;
    }

    /// Close the staged block and publish it. Every pair that nobody staged is
    /// published as silence.
    pub fn commit(&mut self, frames: usize, sample_rate: u32)
        requires
            old(self).well_formed(),
            old(self)@.write + frames <= i64::MAX,
        ensures
            final(self).well_formed(),
            final(self)@ == old(self)@.after_commit(frames as nat, sample_rate),
    {
        if !self.active || frames == 0 {
            return;
        }
        let ghost before = self@;
        let live: usize = if self.channels < self.planes.len() {
            self.channels
        } else {
            self.planes.len()
        };
        let write: u64 = self.write_frames;
        proof {
            assert forall|k: int| #![trigger self.planes@[k]] 0 <= k < self.planes@.len() implies self.planes@[k]@
                == before.planes[k] && self.planes@[k]@.len() == CAPACITY_FRAMES by {
                assert(before.planes[k] == self.planes@[k]@);
            }
        }
        let mut c: usize = 0;
        let width: usize = self.planes.len();
        let ghost held = *self;
        while c < width
            invariant
                c <= width,
                width == before.planes.len(),
                width <= MAX_MULTITRACK_CHANNELS,
                live == before.live_channels(),
                live <= width,
                before == held@,
                held.well_formed(),
                *self == (JamPublishSlot { planes: self.planes, ..held }),
                write == before.write,
                write + frames <= i64::MAX,
                self.planes@.len() == width,
                forall|k: int|
                    #![trigger self.planes@[k]]
                    0 <= k < c ==> self.planes@[k]@ == before.closed_plane(k, frames as nat),
                forall|k: int|
                    #![trigger self.planes@[k]]
                    c <= k < width ==> self.planes@[k]@ == before.planes[k],
                forall|k: int|
                    #![trigger self.planes@[k]]
                    0 <= k < width ==> self.planes@[k]@.len() == CAPACITY_FRAMES,
            decreases width - c,
        {
            if c / 2 < live / 2 && !self.staged[c / 2] {
                write_silence(&mut self.planes[c], write, frames);
            }
            c = c + 1;
        }
        forget_staged(&mut self.staged);
        proof {
            let planes = Seq::new(
                before.planes.len(),
                |k: int| before.closed_plane(k, frames as nat),
            );
            assert(self@.planes =~= planes);
            assert(self@.staged =~= Seq::new(before.staged.len(), |p: int| false));
        }
        self.advance(frames, sample_rate);
    }

    /// Take up to `max_frames` interleaved frames: how many came, how many
    /// channels each carries, and the session tick of the first of them once
    /// the clock has locked. A slot that nobody claimed, or that has nothing
    /// ready, gives nothing.
    pub fn read_interleaved(&mut self, out: &mut Vec<u32>, max_frames: usize) -> (r: Option<
        (usize, usize, Option<i64>),
    >)
        requires
            old(self).well_formed(),
        ensures
            final(self).well_formed(),
            ({
                let before = old(self)@;
                let n = before.ready(max_frames as nat);
                if !before.active || n == 0 {
                    &&& r is None
                    &&& final(out)@ == old(out)@
                } else {
                    &&& r matches Some((frames, channels, tick)) && frames == n && channels
                        == before.width() && (tick is Some <==> before.tick() is Some) && (
                    tick matches Some(t) ==> before.tick() == Some(t as int))
                    &&& final(out)@ == before.interleaved(before.read_start(), n)
                }
            }),
            final(self)@ == old(self)@.after_read(max_frames as nat),
    {
        if !self.active {
            return None;
        }
        let width: usize = if self.channels < 1 {
            1
        } else if self.channels > self.planes.len() {
            self.planes.len()
        } else {
            self.channels
        };
        let write: u64 = self.write_frames;
        let mut read: u64 = self.read_frames;
        if write.saturating_sub(read) > CAPACITY_FRAMES as u64 {
            read = write - CAPACITY_FRAMES as u64;
        }
        let held: u64 = write - read;
        let ready: usize = if held < max_frames as u64 {
            held as usize
        } else {
            max_frames
        };
        if ready == 0 {
            return None;
        }
        out.clear();
        let ghost model = self@;
        let mut f: usize = 0;
        while f < ready
            invariant
                f <= ready,
                self.well_formed(),
                model == self@,
                width == model.width(),
                width <= self.planes@.len(),
                read + ready <= i64::MAX,
                out@ == model.interleaved(read as nat, f as nat),
            decreases ready - f,
        {
            let index: usize = ((read + f as u64) % CAPACITY_FRAMES as u64) as usize;
            let ghost done = out@;
            let ghost k = (read + f) as nat;
            let mut c: usize = 0;
            proof {
                assert(done + model.frame(k).take(0) =~= done);
            }
            while c < width
                invariant
                    c <= width,
                    self.well_formed(),
                    model == self@,
                    width == model.width(),
                    width <= self.planes@.len(),
                    k == read + f,
                    index == k % CAPACITY_FRAMES as nat,
                    out@ == done + model.frame(k).take(c as int),
                decreases width - c,
            {
                proof {
                    assert(self.planes@[c as int]@ == model.planes[c as int]);
                }
                let sample: u32 = self.planes[c][index];
                out.push(sample);
                proof {
                    assert(out@ =~= done + model.frame(k).take(c + 1));
                }
                c = c + 1;
            }
            proof {
                assert(model.frame(k).take(width as int) =~= model.frame(k));
            }
            f = f + 1;
        }
        let tick: Option<i64> = if self.capture_known {
            Some(jam_bus::advance_position(self.capture_base, read))
        } else {
            None
        };
        self.read_frames = read + ready as u64;
        Some((ready, width, tick))
    }

    /// Publish the session tick of frame zero.
    pub fn set_capture_base(&mut self, base: i64)
        ensures
            final(self)@ == (JamPublishModel { capture_base: Some(base as int), ..old(self)@ }),
            old(self).well_formed() ==> final(self).well_formed(),
    {
        self.capture_base = base;
        self.capture_known = true;
    }

    /// Frames written since the slot was claimed.
    pub fn write_head(&self) -> (r: u64)
        ensures
            r == self@.write,
    {
        self.write_frames
    }

    /// Claim the slot for `channels` channels, an even number of them.
    pub fn claim(&mut self, channels: usize)
        requires
            old(self).well_formed(),
        ensures
            final(self)@ == old(self)@.claimed(channels as nat),
            final(self).well_formed(),
    {
        let ghost before = self@;
        self.peak = 0;
        self.write_frames = 0;
        self.read_frames = 0;
        self.capture_base = 0;
        self.capture_known = false;
        self.overruns = 0;
        forget_staged(&mut self.staged);
        let even: usize = (channels / 2) * 2;
        let most: usize = if self.planes.len() < 2 {
            2
        } else {
            self.planes.len()
        };
        let held: usize = if even < 2 {
            2
        } else if even > most {
            most
        } else {
            even
        };
        self.channels = if held < self.planes.len() {
            held
        } else {
            self.planes.len()
        };
        self.active = true;
        proof {
            assert(self@.staged =~= Seq::new(before.staged.len(), |p: int| false));
        }
    }

    /// Give the slot up.
    pub fn release(&mut self)
        ensures
            final(self)@ == (JamPublishModel { active: false, ..old(self)@ }),
            old(self).well_formed() ==> final(self).well_formed(),
    {
        self.active = false;
    }
}

// ── Laws ────────────────────────────────────────────────────────────────────

/// A planar block and an interleaved block of the same frames leave the slot in
/// the same state.
pub proof fn law_planar_and_interleaved_writes_agree(
    s: JamPublishModel,
    left: Seq<u32>,
    right: Seq<u32>,
    interleaved: Seq<u32>,
    sample_rate: u32,
)
    requires
        left.len() == right.len(),
        interleaved.len() == left.len() * 2,
        forall|f: int|
            #![trigger left[f]]
            0 <= f < left.len() ==> interleaved[f * 2] == left[f] && interleaved[f * 2 + 1]
                == right[f],
    ensures
        s.after_stereo(left, right, sample_rate) == s.after_stereo(
            ring::left_of(interleaved, 2, left.len()),
            ring::right_of(interleaved, 2, left.len()),
            sample_rate,
        ),
{
    assert(ring::left_of(interleaved, 2, left.len()) =~= left);
    assert forall|f: int| 0 <= f < left.len() implies ring::right_of(
        interleaved,
        2,
        left.len(),
    )[f] == right[f] by {
        assert(left[f] == interleaved[f * 2]);
    }
    assert(ring::right_of(interleaved, 2, left.len()) =~= right);
}

/// A pair that nobody staged is published as silence, whatever the ring held
/// there before.
pub proof fn law_unstaged_pair_is_silent(
    s: JamPublishModel,
    frames: nat,
    sample_rate: u32,
    c: int,
    i: int,
)
    requires
        s.active,
        0 < frames <= CAPACITY_FRAMES,
        0 <= c < s.planes.len(),
        s.planes[c].len() == CAPACITY_FRAMES,
        c / 2 < s.live_channels() / 2,
        !s.staged[c / 2],
        0 <= i < frames,
    ensures
        ring::ring_at(s.after_commit(frames, sample_rate).planes[c], (s.write + i) as nat) == 0,
{
    ring::law_ring_reads_back(s.planes[c], s.write, ring::silence(frames), i);
}

/// A pair that was staged is published as it was staged: closing the block
/// leaves its rings alone.
pub proof fn law_staged_pair_is_published(
    s: JamPublishModel,
    pair: int,
    left: Seq<u32>,
    right: Seq<u32>,
    sample_rate: u32,
    i: int,
)
    requires
        s.takes_pair(pair),
        0 <= pair < s.staged.len(),
        left.len() == right.len(),
        0 < left.len() <= CAPACITY_FRAMES,
        0 <= i < left.len(),
        s.planes[pair * 2].len() == CAPACITY_FRAMES,
        s.planes[pair * 2 + 1].len() == CAPACITY_FRAMES,
    ensures
        ({
            let done = s.after_stage(pair, left, right).after_commit(left.len(), sample_rate);
            &&& ring::ring_at(done.planes[pair * 2], (s.write + i) as nat) == left[i]
            &&& ring::ring_at(done.planes[pair * 2 + 1], (s.write + i) as nat) == right[i]
            &&& done.write == s.write + left.len()
        }),
{
    let staged = s.after_stage(pair, left, right);
    assert(staged.staged[pair]);
    assert((pair * 2) / 2 == pair && (pair * 2 + 1) / 2 == pair);
    ring::law_ring_reads_back(s.planes[pair * 2], s.write, left, i);
    ring::law_ring_reads_back(s.planes[pair * 2 + 1], s.write, right, i);
}

/// Staging does not publish: only closing the block moves the head, once for
/// the whole block.
pub proof fn law_staging_does_not_publish(
    s: JamPublishModel,
    pair: int,
    left: Seq<u32>,
    right: Seq<u32>,
    frames: nat,
    sample_rate: u32,
)
    requires
        s.active,
    ensures
        s.after_stage(pair, left, right).write == s.write,
        s.after_stage(pair, left, right).after_commit(frames, sample_rate).write == s.write
            + frames,
{
}

/// Reading gives every frame at most once and in order: the next read starts
/// where the last one ended, or later where the writer pushed frames out.
pub proof fn law_reads_move_forward(s: JamPublishModel, max_frames: nat)
    requires
        s.read <= s.write,
    ensures
        s.read <= s.read_start(),
        s.read_start() + s.ready(max_frames) <= s.write,
        s.write - s.read_start() <= CAPACITY_FRAMES,
        (JamPublishModel { read: s.read_start() + s.ready(max_frames), ..s }).read_start()
            == s.read_start() + s.ready(max_frames),
{
}

/// Closing a block leaves the frames before it alone, as long as they are still
/// within the ring's reach.
pub proof fn law_commit_keeps_earlier_frames(
    s: JamPublishModel,
    frames: nat,
    sample_rate: u32,
    c: int,
    k: nat,
)
    requires
        0 <= c < s.planes.len(),
        s.planes[c].len() == CAPACITY_FRAMES,
        k < s.write,
        s.write + frames - k <= CAPACITY_FRAMES,
    ensures
        ring::ring_at(s.after_commit(frames, sample_rate).planes[c], k) == ring::ring_at(
            s.planes[c],
            k,
        ),
{
    ring::law_ring_keeps_what_it_does_not_overwrite(
        s.planes[c],
        s.write,
        ring::silence(frames),
        k,
    );
}

/// A read hands its frames out in order, the channels of each side by side.
pub proof fn law_read_interleaves_the_frames(
    s: JamPublishModel,
    from: nat,
    n: nat,
    k: int,
    c: int,
)
    requires
        0 <= k < n,
        0 <= c < s.width(),
    ensures
        s.interleaved(from, n).len() == n * s.width(),
        0 <= k * s.width() + c < n * s.width(),
        s.interleaved(from, n)[k * s.width() + c] == ring::ring_at(s.planes[c], (from + k) as nat),
    decreases n,
{
    let w = s.width();
    let head = s.interleaved(from, (n - 1) as nat);
    let last = s.frame((from + n - 1) as nat);
    lemma_interleaved_len(s, from, (n - 1) as nat);
    assert((n - 1) * w + w == n * w) by (nonlinear_arith);
    assert(s.interleaved(from, n) == head + last);
    assert(0 <= k * w) by (nonlinear_arith)
        requires
            0 <= k,
            0 <= w,
    ;
    if k < n - 1 {
        assert(k * w + c < (n - 1) * w) by (nonlinear_arith)
            requires
                0 <= k < n - 1,
                0 <= c < w,
        ;
        law_read_interleaves_the_frames(s, from, (n - 1) as nat, k, c);
    }
}

proof fn lemma_interleaved_len(s: JamPublishModel, from: nat, n: nat)
    ensures
        s.interleaved(from, n).len() == n * s.width(),
    decreases n,
{
    let w = s.width();
    if n > 0 {
        lemma_interleaved_len(s, from, (n - 1) as nat);
        assert((n - 1) * w + w == n * w) by (nonlinear_arith);
    } else {
        assert(0 * w == 0) by (nonlinear_arith);
    }
}

/// What is written is read back: a read that had caught up is handed a stereo
/// block from its first frame on, in the first pair, with silence in every other
/// pair of the claim.
pub proof fn law_written_block_is_handed_out(
    s: JamPublishModel,
    left: Seq<u32>,
    right: Seq<u32>,
    sample_rate: u32,
    max_frames: nat,
    i: int,
    c: int,
)
    requires
        s.active,
        s.read == s.write,
        2 <= s.channels <= s.planes.len(),
        forall|p: int|
            #![trigger s.planes[p]]
            0 <= p < s.planes.len() ==> s.planes[p].len() == CAPACITY_FRAMES,
        left.len() == right.len(),
        0 < left.len() <= CAPACITY_FRAMES,
        0 <= i < left.len(),
        0 <= c < s.channels,
    ensures
        ({
            let after = s.after_stereo(left, right, sample_rate);
            &&& after.read_start() == s.write
            &&& after.ready(max_frames) == if left.len() < max_frames {
                left.len()
            } else {
                max_frames
            }
            &&& after.width() == s.channels
            &&& ring::ring_at(after.planes[c], (s.write + i) as nat) == if c == 0 {
                left[i]
            } else if c == 1 {
                right[i]
            } else {
                0
            }
        }),
{
    ring::law_ring_reads_back(s.planes[0], s.write, left, i);
    ring::law_ring_reads_back(s.planes[1], s.write, right, i);
    ring::law_ring_reads_back(s.planes[c], s.write, ring::silence(left.len()), i);
}

/// A stereo block leaves the frames before it alone, as long as they are still
/// within the ring's reach: a read that is behind loses nothing.
pub proof fn law_unread_frames_survive_a_write(
    s: JamPublishModel,
    left: Seq<u32>,
    right: Seq<u32>,
    sample_rate: u32,
    c: int,
    k: nat,
)
    requires
        0 <= c < s.planes.len(),
        s.planes[c].len() == CAPACITY_FRAMES,
        left.len() == right.len(),
        k < s.write,
        s.write + left.len() - k <= CAPACITY_FRAMES,
    ensures
        ring::ring_at(s.after_stereo(left, right, sample_rate).planes[c], k) == ring::ring_at(
            s.planes[c],
            k,
        ),
{
    ring::law_ring_keeps_what_it_does_not_overwrite(s.planes[c], s.write, left, k);
    ring::law_ring_keeps_what_it_does_not_overwrite(s.planes[c], s.write, right, k);
    ring::law_ring_keeps_what_it_does_not_overwrite(
        s.planes[c],
        s.write,
        ring::silence(left.len()),
        k,
    );
}

// ── Runs of calls ───────────────────────────────────────────────────────────

/// A call on a claimed slot.
pub enum PublishStep {
    Stereo { left: Seq<u32>, right: Seq<u32>, sample_rate: u32 },
    Stage { pair: nat, left: Seq<u32>, right: Seq<u32> },
    Commit { frames: nat, sample_rate: u32 },
    Read { max_frames: nat },
    TakePeak,
    SetCaptureBase { base: int },
}

impl JamPublishModel {
    /// The slot after one call.
    pub open spec fn after_step(self, step: PublishStep) -> JamPublishModel {
        match step {
            PublishStep::Stereo { left, right, sample_rate } => self.after_stereo(
                left,
                right,
                sample_rate,
            ),
            PublishStep::Stage { pair, left, right } => self.after_stage(pair as int, left, right),
            PublishStep::Commit { frames, sample_rate } => self.after_commit(frames, sample_rate),
            PublishStep::Read { max_frames } => self.after_read(max_frames),
            PublishStep::TakePeak => JamPublishModel { peak: 0, ..self },
            PublishStep::SetCaptureBase { base } => JamPublishModel {
                capture_base: Some(base),
                ..self
            },
        }
    }

    /// The slot after calls one after another.
    pub open spec fn after_steps(self, steps: Seq<PublishStep>) -> JamPublishModel
        decreases steps.len(),
    {
        if steps.len() == 0 {
            self
        } else {
            self.after_steps(steps.drop_last()).after_step(steps.last())
        }
    }
}

/// Whether no call sets the capture base.
pub open spec fn keeps_base(steps: Seq<PublishStep>) -> bool {
    forall|i: int| 0 <= i < steps.len() ==> !((#[trigger] steps[i]) is SetCaptureBase)
}

/// The layout is fixed for the life of a claim: whatever is written, staged,
/// closed and read, the slot carries the channels that it was claimed for.
pub proof fn law_layout_is_fixed_for_a_claim(s: JamPublishModel, steps: Seq<PublishStep>)
    ensures
        s.after_steps(steps).channels == s.channels,
        s.after_steps(steps).planes.len() == s.planes.len(),
        s.after_steps(steps).width() == s.width(),
        s.after_steps(steps).active == s.active,
    decreases steps.len(),
{
    if steps.len() > 0 {
        law_layout_is_fixed_for_a_claim(s, steps.drop_last());
    }
}

/// Once the session tick of frame zero is set, every later read reports the tick
/// of its first frame by it, whatever was written and read in between.
pub proof fn law_ticks_follow_the_capture_base(
    s: JamPublishModel,
    base: int,
    steps: Seq<PublishStep>,
)
    requires
        keeps_base(steps),
    ensures
        ({
            let t = s.after_step(PublishStep::SetCaptureBase { base }).after_steps(steps);
            t.tick() == Some(jam_bus::position_after(base, t.read_start() as int))
        }),
{
    let set = s.after_step(PublishStep::SetCaptureBase { base });
    lemma_base_is_kept(set, steps);
}

/// A claimed slot reports no tick until one was set.
pub proof fn law_no_tick_before_the_clock_locks(
    s: JamPublishModel,
    channels: nat,
    steps: Seq<PublishStep>,
)
    requires
        keeps_base(steps),
    ensures
        s.claimed(channels).after_steps(steps).tick() is None,
{
    lemma_base_is_kept(s.claimed(channels), steps);
}

proof fn lemma_base_is_kept(s: JamPublishModel, steps: Seq<PublishStep>)
    requires
        keeps_base(steps),
    ensures
        s.after_steps(steps).capture_base == s.capture_base,
    decreases steps.len(),
{
    if steps.len() > 0 {
        let before = steps.drop_last();
        assert(keeps_base(before)) by {
            assert forall|i: int| 0 <= i < before.len() implies !((#[trigger] before[i]) is SetCaptureBase) by {
                assert(before[i] == steps[i]);
            }
        }
        assert(!(steps[steps.len() - 1] is SetCaptureBase));
        lemma_base_is_kept(s, before);
    }
}

/// Reads one after another report ticks as far apart as the frames that they
/// took, unless the writer pushed frames out in between.
pub proof fn law_ticks_advance_with_the_frames_read(s: JamPublishModel, max_frames: nat)
    requires
        s.active,
        s.read <= s.write,
        s.ready(max_frames) > 0,
        s.capture_base is Some,
    ensures
        s.after_read(max_frames).tick() == Some(
            jam_bus::position_after(
                s.capture_base->0,
                (s.read_start() + s.ready(max_frames)) as int,
            ),
        ),
{
}

} // verus!
