//! Where a clip's samples come from and how far its fades have gone.

use vstd::prelude::*;

use crate::runtime::RuntimeClip;

verus! {

/// How far a fade has opened: `part` out of `whole`.
#[derive(Clone, Copy, Debug, PartialEq, Eq, Structural)]
pub struct FadeRatio {
    pub part: u64,
    pub whole: u64,
}

/// The fades that shape one sample of a clip; a missing one is fully open.
#[derive(Clone, Copy, Debug, PartialEq, Eq, Structural)]
pub struct ClipFade {
    pub fade_in: Option<FadeRatio>,
    pub fade_out: Option<FadeRatio>,
}

/// How far a fade-in of `fade_in` samples has opened at sample `rel`.
pub open spec fn fade_in_at(rel: u64, fade_in: u64) -> Option<FadeRatio> {
    if rel < fade_in {
        Some(FadeRatio { part: rel, whole: fade_in })
    } else {
        None
    }
}

/// How far a fade-out over the last `fade_out` samples is still open at `rel`.
pub open spec fn fade_out_at(rel: u64, duration: u64, fade_out: u64) -> Option<FadeRatio> {
    let start = if duration >= fade_out {
        duration - fade_out
    } else {
        0
    };
    if fade_out > 0 && rel >= start {
        let left = if start + fade_out > rel {
            start + fade_out - rel
        } else {
            0
        };
        Some(FadeRatio { part: left as u64, whole: fade_out })
    } else {
        None
    }
}

/// The fades that shape the sample `rel` of a clip. Each opens and closes as a
/// quarter of a sine over its ratio.
pub fn clip_fade_gain(rel: u64, duration: u64, fade_in: u64, fade_out: u64) -> (r: ClipFade)
    ensures
        r.fade_in == fade_in_at(rel, fade_in),
        r.fade_out == fade_out_at(rel, duration, fade_out),
{
    let opening: Option<FadeRatio> = if rel < fade_in {
        Some(FadeRatio { part: rel, whole: fade_in })
    } else {
        None
    };
    let mut closing: Option<FadeRatio> = None;
    if fade_out > 0 {
        let start: u64 = duration.saturating_sub(fade_out);
        if rel >= start {
            let into: u64 = rel - start;
            closing = Some(FadeRatio { part: fade_out.saturating_sub(into), whole: fade_out });
        }
    }
    ClipFade { fade_in: opening, fade_out: closing }
}

/// Fades never amplify, and each has some length.
pub proof fn law_fades_never_amplify(rel: u64, duration: u64, fade_in: u64, fade_out: u64)
    ensures
        fade_in_at(rel, fade_in) matches Some(f) ==> f.part < f.whole,
        fade_out_at(rel, duration, fade_out) matches Some(f) ==> f.part <= f.whole && f.whole > 0,
{
}

/// A fade-in starts closed, opens by one part for every sample, and is fully
/// open from its length on; a fade-out is closed by the same parts and ends
/// closed at the clip's end.
pub proof fn law_fades_open_and_close_evenly(
    rel: u64,
    duration: u64,
    fade_in: u64,
    fade_out: u64,
)
    requires
        rel < u64::MAX,
    ensures
        fade_in > 0 ==> fade_in_at(0, fade_in) == Some(FadeRatio { part: 0, whole: fade_in }),
        fade_in_at(rel, fade_in) matches Some(a) ==> (fade_in_at(
            (rel + 1) as u64,
            fade_in,
        ) matches Some(b) ==> b.part == a.part + 1),
        rel >= fade_in ==> fade_in_at(rel, fade_in) is None,
        fade_out_at(rel, duration, fade_out) matches Some(a) ==> (fade_out_at(
            (rel + 1) as u64,
            duration,
            fade_out,
        ) matches Some(b) && b.part == (if a.part > 0 {
            a.part - 1
        } else {
            0
        })),
        0 < fade_out <= duration ==> fade_out_at(duration, duration, fade_out) == Some(
            FadeRatio { part: 0, whole: fade_out },
        ),
{
}

/// The source sample, in output samples from the clip's offset, that output
/// sample `rel` reads.
pub open spec fn source_frame(rel: u64, duration: u64, reverse: bool) -> u64 {
    if !reverse {
        rel
    } else if duration >= 1 && duration - 1 >= rel {
        (duration - 1 - rel) as u64
    } else {
        0
    }
}

/// The source sample that output sample `rel` reads: a reversed clip reads the
/// same window from its end backwards.
pub fn clip_source_frame(rel: u64, duration_samples: u64, reverse: bool) -> (r: u64)
    ensures
        r == source_frame(rel, duration_samples, reverse),
{
    if reverse {
        duration_samples.saturating_sub(1).saturating_sub(rel)
    } else {
        rel
    }
}

/// A reversed clip reads exactly the samples that it reads forwards, in the
/// opposite order.
pub proof fn law_reverse_mirrors_the_clip(rel: u64, duration: u64)
    requires
        rel < duration,
    ensures
        source_frame(rel, duration, true) < duration,
        source_frame(source_frame(rel, duration, true), duration, true) == rel,
        source_frame(rel, duration, true) + source_frame(rel, duration, false) == duration - 1,
{
}

/// A run of the stretcher's input stream.
#[derive(Clone, Copy, Debug, PartialEq, Eq, Structural)]
pub struct InputSpan {
    pub start: u64,
    pub frames: u64,
}

/// The input that the stretcher takes for a block that begins at `start` of its
/// input stream and ends before `end`: at least one frame.
pub open spec fn input_span(start: u64, end: u64) -> InputSpan {
    InputSpan {
        start,
        frames: if end > start {
            (end - start) as u64
        } else {
            1
        },
    }
}

/// The input that the stretcher takes for a block. `start` and `end` are the
/// places in its input stream that the block's first frame and the frame behind
/// its last stand for.
pub fn signalsmith_input_span(start: u64, end: u64) -> (r: InputSpan)
    ensures
        r == input_span(start, end),
{
    InputSpan {
        start,
        frames: if end > start {
            end - start
        } else {
            1
        },
    }
}

/// What the stretcher takes for blocks one after another, `places` being where
/// each begins in its input stream and the last entry where the last one ends.
pub open spec fn frames_taken(places: Seq<u64>, n: nat) -> int
    decreases n,
{
    if n == 0 {
        0
    } else {
        frames_taken(places, (n - 1) as nat) + input_span(places[n - 1], places[n as int]).frames
    }
}

/// Blocks one after another take the input stream without a gap or an overlap,
/// and together no more than it holds, as long as each moves on in it.
pub proof fn law_stretch_input_is_read_once(places: Seq<u64>, n: nat)
    requires
        n < places.len(),
        forall|k: int| 0 <= k < n ==> #[trigger] places[k] < places[k + 1],
    ensures
        forall|k: int|
            #![trigger places[k]]
            0 <= k < n ==> input_span(places[k], places[k + 1]).start + input_span(
                places[k],
                places[k + 1],
            ).frames == places[k + 1],
        frames_taken(places, n) == places[n as int] - places[0],
    decreases n,
{
    if n > 0 {
        law_stretch_input_is_read_once(places, (n - 1) as nat);
        assert(places[n - 1] < places[n - 1 + 1]);
    }
}

/// The sample of the stretcher's input stream that input index `k` reads.
pub open spec fn stretch_frame(total_input: int, stream_index: int, reverse: bool) -> int {
    if !reverse {
        stream_index
    } else if total_input - 1 - stream_index > 0 {
        total_input - 1 - stream_index
    } else {
        0
    }
}

/// The sample of a clip's source that the stretcher reads at a place of its
/// input stream.
pub fn stretch_source_index(total_input: i64, stream_index: i64, reverse: bool) -> (r: i64)
    requires
        0 <= total_input,
        0 <= stream_index,
    ensures
        r == stretch_frame(total_input as int, stream_index as int, reverse),
{
    if !reverse {
        stream_index
    } else if total_input > stream_index && total_input - stream_index > 1 {
        total_input - 1 - stream_index
    } else {
        0
    }
}

impl RuntimeClip {
    /// Whether the clip's stretcher has to start its stream anew to render from
    /// `project_start` on.
    pub fn stretch_needs_reset(&self, project_start: u64) -> (r: bool)
        ensures
            r == (self.stretch_next_project_sample != Some(project_start)),
    {
        match self.stretch_next_project_sample {
            Some(next) => next != project_start,
            None => true,
        }
    }

    /// Take in how a stretched segment went: the stream goes on where it ended,
    /// or is lost where it failed. Returns whether the segment was rendered, so
    /// that the plain path renders it otherwise.
    pub fn render_signalsmith_clip_segment(
        &mut self,
        project_start: u64,
        frames: u64,
        processed: bool,
    ) -> (rendered: bool)
        requires
            project_start + frames <= u64::MAX,
        ensures
            rendered == (old(self).stretch_ready && processed),
            *final(self) == (RuntimeClip {
                stretch_next_project_sample: if !old(self).stretch_ready {
                    old(self).stretch_next_project_sample
                } else if processed {
                    Some((project_start + frames) as u64)
                } else {
                    None
                },
                ..*old(self)
            }),
    {
        if !self.stretch_ready {
            return false;
        }
        if !processed {
            self.stretch_next_project_sample = None;
            return false;
        }
        self.stretch_next_project_sample = Some(project_start + frames);
        true
    }
}

/// A forward clip reads its source sample by sample from the start, and a
/// stretched one its input stream; a reversed one reads the same samples from
/// the end. Neither reads before the start.
pub proof fn law_sources_are_read_in_their_direction(rel: u64, duration: u64, total: int, k: int)
    requires
        rel < duration,
        0 <= k < total,
    ensures
        source_frame(rel, duration, false) == rel,
        source_frame(rel, duration, true) == duration - 1 - rel,
        stretch_frame(total, k, false) == k,
        stretch_frame(total, k, true) == total - 1 - k,
        stretch_frame(total, stretch_frame(total, k, true), true) == k,
{
}

/// A fade opens in proportion to the samples that have gone by: at sample `rel`
/// of a fade-in of length `n` it is open by `rel` parts of `n`, and a fade-out
/// of length `n` by as many parts as samples are left to the clip's end.
pub proof fn law_fades_open_in_proportion(rel: u64, duration: u64, n: u64)
    requires
        0 < n <= duration,
        rel < duration,
    ensures
        rel < n ==> fade_in_at(rel, n) == Some(FadeRatio { part: rel, whole: n }),
        rel >= n ==> fade_in_at(rel, n) is None,
        rel < duration - n ==> fade_out_at(rel, duration, n) is None,
        rel >= duration - n ==> fade_out_at(rel, duration, n) == Some(
            FadeRatio { part: (duration - rel) as u64, whole: n },
        ),
        fade_in_at(rel, 0) is None,
        fade_out_at(rel, duration, 0) is None,
{
}

} // verus!
