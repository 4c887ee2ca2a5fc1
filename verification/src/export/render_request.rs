//! What to render offline.

use vstd::prelude::*;

verus! {

/// What follows the last content, so that reverbs and releases are not cut.
#[derive(Clone, Copy, Debug, PartialEq, Eq, Structural)]
pub enum ExportTailMode {
    NoTail,
    /// So many frames.
    Fixed { frames: u64 },
    /// Until a block is quieter than the threshold, a linear level as a bit
    /// pattern, and at most so many frames.
    UntilSilence { max_frames: u64, threshold: u32 },
}

impl Default for ExportTailMode {
    fn default() -> (r: Self)
        ensures
            r == ExportTailMode::NoTail,
    {
        ExportTailMode::NoTail
    }
}

/// What is done to the level of the whole render.
#[derive(Clone, Copy, Debug, PartialEq, Eq, Structural)]
pub enum ExportNormalizeMode {
    Unchanged,
    /// Find the peak first, then render so that the peak is at this level in
    /// decibels, a bit pattern.
    PeakDb { db: u32 },
}

impl Default for ExportNormalizeMode {
    fn default() -> (r: Self)
        ensures
            r == ExportNormalizeMode::Unchanged,
    {
        ExportNormalizeMode::Unchanged
    }
}

/// The geometry of an offline render, in project samples. The end is
/// exclusive.
#[derive(Clone, Copy, Debug, PartialEq, Eq, Structural)]
pub struct OfflineRenderRequest {
    pub sample_rate: u32,
    pub channels: u16,
    pub start_sample: u64,
    pub end_sample: u64,
    /// Linear master gain, as a bit pattern.
    pub master_volume: u32,
    pub block_size: usize,
    pub tail: ExportTailMode,
    pub normalize: ExportNormalizeMode,
}

impl OfflineRenderRequest {
    /// Content frames, without the tail.
    pub open spec fn content(self) -> u64 {
        if self.end_sample >= self.start_sample {
            (self.end_sample - self.start_sample) as u64
        } else {
            0
        }
    }

    /// Tail frames at most.
    pub open spec fn tail_cap(self) -> u64 {
        match self.tail {
            ExportTailMode::NoTail => 0,
            ExportTailMode::Fixed { frames } => frames,
            ExportTailMode::UntilSilence { max_frames, .. } => max_frames,
        }
    }

    /// Why a request is not valid; `None` where it is.
    pub open spec fn refusal(self) -> Option<Seq<char>> {
        if self.sample_rate == 0 {
            Some("sample_rate must be non-zero"@)
        } else if self.channels == 0 {
            Some("channels must be non-zero"@)
        } else if self.end_sample <= self.start_sample {
            Some("range end must be greater than range start"@)
        } else if self.block_size == 0 {
            Some("block_size must be non-zero"@)
        } else {
            None
        }
    }

    /// Content frames, without the tail.
    pub fn content_frames(&self) -> (r: u64)
        ensures
            r == self.content(),
    {
        if self.end_sample >= self.start_sample {
            self.end_sample - self.start_sample
        } else {
            0
        }
    }

    /// Tail frames at most.
    pub fn max_tail_frames(&self) -> (r: u64)
        ensures
            r == self.tail_cap(),
    {
        match self.tail {
            ExportTailMode::NoTail => 0,
            ExportTailMode::Fixed { frames } => frames,
            ExportTailMode::UntilSilence { max_frames, .. } => max_frames,
        }
    }

    /// Whether the request can be rendered, or why not.
    pub fn validate(&self) -> (r: Result<(), String>)
        ensures
            r is Ok <==> self.refusal() is None,
            r matches Err(why) ==> self.refusal() == Some(why@),
    {
        if self.sample_rate == 0 {
            return Err("sample_rate must be non-zero".to_owned());
        }
        if self.channels == 0 {
            return Err("channels must be non-zero".to_owned());
        }
        if self.end_sample <= self.start_sample {
            return Err("range end must be greater than range start".to_owned());
        }
        if self.block_size == 0 {
            return Err("block_size must be non-zero".to_owned());
        }
        Ok(())
    }
}

/// A request that can be rendered has content, channels and a block to render
/// it in.
pub proof fn law_valid_request_has_content(request: OfflineRenderRequest)
    requires
        request.refusal() is None,
    ensures
        request.content() > 0,
        request.channels > 0,
        request.block_size > 0,
        request.sample_rate > 0,
{
}

// ── The whole arrangement ───────────────────────────────────────────────────

/// The latest of the first `n` ends, and zero where there is none.
pub open spec fn latest_end(ends: Seq<u64>, n: nat) -> u64
    decreases n,
{
    if n == 0 {
        0
    } else {
        let before = latest_end(ends, (n - 1) as nat);
        if ends[n - 1] > before {
            ends[n - 1]
        } else {
            before
        }
    }
}

fn find_latest(ends: &Vec<u64>) -> (r: u64)
    ensures
        r == latest_end(ends@, ends@.len()),
{
    let mut latest: u64 = 0;
    let mut i: usize = 0;
    while i < ends.len()
        invariant
            i <= ends@.len(),
            latest == latest_end(ends@, i as nat),
        decreases ends@.len() - i,
    {
        if ends[i] > latest {
            latest = ends[i];
        }
        i = i + 1;
    }
    latest
}

/// The range of the whole arrangement: from the start to the end of the clip
/// that ends last. `audio_ends` and `midi_ends` are where the clips end, in
/// samples of the timeline. An empty arrangement has an empty range.
pub fn arrangement_bounds_samples(audio_ends: &Vec<u64>, midi_ends: &Vec<u64>) -> (r: (u64, u64))
    ensures
        r.0 == 0,
        r.1 == if latest_end(midi_ends@, midi_ends@.len()) > latest_end(
            audio_ends@,
            audio_ends@.len(),
        ) {
            latest_end(midi_ends@, midi_ends@.len())
        } else {
            latest_end(audio_ends@, audio_ends@.len())
        },
{
    let audio: u64 = find_latest(audio_ends);
    let midi: u64 = find_latest(midi_ends);
    if midi > audio {
        (0, midi)
    } else {
        (0, audio)
    }
}

/// The range of the arrangement covers every clip, and ends where one of them
/// does.
pub proof fn law_arrangement_covers_every_clip(ends: Seq<u64>, n: nat)
    requires
        n <= ends.len(),
    ensures
        forall|i: int| 0 <= i < n ==> #[trigger] ends[i] <= latest_end(ends, n),
        latest_end(ends, n) > 0 ==> exists|i: int|
            0 <= i < n && #[trigger] ends[i] == latest_end(ends, n),
    decreases n,
{
    if n > 0 {
        law_arrangement_covers_every_clip(ends, (n - 1) as nat);
        if ends[n - 1] > latest_end(ends, (n - 1) as nat) {
            assert(ends[n - 1] == latest_end(ends, n));
        }
    }
}

/// A request is accepted exactly where it has a rate, channels, a block size and
/// a range that is not empty.
pub proof fn law_request_is_accepted_where_it_can_be_rendered(request: OfflineRenderRequest)
    ensures
        request.refusal() is None <==> request.sample_rate > 0 && request.channels > 0
            && request.block_size > 0 && request.start_sample < request.end_sample,
{
}

/// The content is what lies between the start and the end, and a range that ends
/// before it starts has none.
pub proof fn law_content_spans_the_range(request: OfflineRenderRequest)
    ensures
        request.start_sample <= request.end_sample ==> request.start_sample + request.content()
            == request.end_sample,
        request.end_sample <= request.start_sample ==> request.content() == 0,
{
}

/// A tail is as long as was asked for at most.
pub proof fn law_tail_is_bounded_as_asked(request: OfflineRenderRequest)
    ensures
        request.tail is NoTail ==> request.tail_cap() == 0,
        request.tail matches ExportTailMode::Fixed { frames } ==> request.tail_cap() == frames,
        request.tail matches ExportTailMode::UntilSilence { max_frames, .. } ==> request.tail_cap()
            == max_frames,
{
}

} // verus!
