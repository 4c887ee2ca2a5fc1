//! MIDI scheduling of one device callback.

use vstd::prelude::*;

use crate::transport;
use crate::transport::LoopBounds;
use crate::transport::LoopSegment;

verus! {

/// One call on the project's MIDI scheduler.
#[derive(Clone, Copy, Debug, PartialEq, Eq, Structural)]
pub enum MidiAction {
    /// Schedule the events of a run of timeline samples, placed from `offset`
    /// on in the callback.
    Schedule { sample: u64, frames: u64, offset: u32 },
    /// Start playback anew at a timeline sample, from `offset` on.
    Reset { sample: u64, offset: u32 },
}

/// An offset held at the largest one that an event can carry.
pub open spec fn event_offset(offset: int) -> u32 {
    if offset > u32::MAX {
        u32::MAX
    } else {
        offset as u32
    }
}

/// The calls for the first `n` segments of a callback: every wrap of the loop
/// starts playback anew before the next segment is scheduled.
pub open spec fn midi_actions(segments: Seq<LoopSegment>, n: nat) -> Seq<MidiAction>
    decreases n,
{
    if n == 0 {
        Seq::empty()
    } else {
        let s = segments[n - 1];
        let offset = event_offset(s.offset as int);
        let rest = midi_actions(segments, (n - 1) as nat);
        let entered = if n > 1 {
            rest.push(MidiAction::Reset { sample: s.sample, offset })
        } else {
            rest
        };
        entered.push(MidiAction::Schedule { sample: s.sample, frames: s.frames, offset })
    }
}

/// The loop's start when the callback ends exactly on the loop's end.
pub open spec fn end_reset(segments: Seq<LoopSegment>, bounds: Option<LoopBounds>) -> Option<u64> {
    match bounds {
        Some(b) => if segments.len() > 0 && segments.last().sample + segments.last().frames
            == b.end {
            Some(b.start)
        } else {
            None
        },
        None => None,
    }
}

fn held_offset(offset: u64) -> (r: u32)
    ensures
        r == event_offset(offset as int),
{
    if offset > 0xffff_ffff {
        0xffff_ffff
    } else {
        offset as u32
    }
}

/// Schedule one callback's MIDI, split where the loop wraps. The second value
/// is the loop's start when the callback ends exactly on a loop boundary and
/// playback is to start anew after rendering.
pub fn schedule_midi_render_block(
    base_sample: u64,
    frames: u64,
    loop_bounds: Option<LoopBounds>,
) -> (r: (Vec<MidiAction>, Option<u64>))
    requires
        transport::loop_valid(loop_bounds),
    ensures
        ({
            let segments = transport::block_segments(
                base_sample as int,
                frames as int,
                loop_bounds,
            );
            &&& r.0@ == midi_actions(segments, segments.len())
            &&& r.1 == end_reset(segments, loop_bounds)
        }),
{
    let segments: Vec<LoopSegment> = transport::loop_segments(base_sample, frames, loop_bounds);
    let mut actions: Vec<MidiAction> = Vec::new();
    let mut k: usize = 0;
    while k < segments.len()
        invariant
            k <= segments@.len(),
            actions@ == midi_actions(segments@, k as nat),
        decreases segments@.len() - k,
    {
        let segment: LoopSegment = segments[k];
        let offset: u32 = held_offset(segment.offset);
        if k > 0 {
            actions.push(MidiAction::Reset { sample: segment.sample, offset });
        }
        actions.push(
            MidiAction::Schedule { sample: segment.sample, frames: segment.frames, offset },
        );
        k = k + 1;
    }
    let mut reset: Option<u64> = None;
    if let Some(b) = loop_bounds {
        if segments.len() > 0 {
            let last: LoopSegment = segments[segments.len() - 1];
            if last.sample <= b.end && b.end - last.sample == last.frames {
                reset = Some(b.start);
            }
        }
    }
    (actions, reset)
}

/// Between two segments the loop has wrapped: every segment but the last ends
/// at the loop's end and the next one starts at the loop's start.
pub proof fn law_playback_restarts_exactly_at_wraps(
    base: int,
    frames: int,
    bounds: Option<LoopBounds>,
    k: int,
)
    requires
        transport::loop_valid(bounds),
        0 <= base,
        0 <= frames <= u64::MAX,
        0 <= k,
        k + 1 < transport::block_segments(base, frames, bounds).len(),
    ensures
        ({
            let segments = transport::block_segments(base, frames, bounds);
            bounds matches Some(b) && segments[k].sample + segments[k].frames == b.end
                && segments[k + 1].sample == b.start
        }),
{
    let start = transport::normalized(base, bounds);
    if let Some(b) = bounds {
        if base >= b.end {
            let r = (base - b.start) % (b.end - b.start);
            assert(0 <= r < b.end - b.start) by (nonlinear_arith)
                requires
                    b.start < b.end,
                    r == (base - b.start) % (b.end - b.start),
            ;
        }
    }
    lemma_segments_wrap(start, frames, 0, bounds, k);
}

proof fn lemma_segments_wrap(
    position: int,
    remaining: int,
    offset: int,
    bounds: Option<LoopBounds>,
    k: int,
)
    requires
        transport::loop_valid(bounds),
        0 <= position,
        bounds matches Some(b) ==> position < b.end,
        0 <= remaining <= u64::MAX,
        0 <= k,
        k + 1 < transport::segments_from(position, remaining, offset, bounds).len(),
    ensures
        ({
            let segments = transport::segments_from(position, remaining, offset, bounds);
            bounds matches Some(b) && segments[k].sample + segments[k].frames == b.end
                && segments[k + 1].sample == b.start
        }),
    decreases remaining,
{
    let n = transport::segment_len(position, remaining, bounds);
    let next = transport::normalized(position + n, bounds);
    let rest = transport::segments_from(next, remaining - n, offset + n, bounds);
    let all = transport::segments_from(position, remaining, offset, bounds);
    assert(remaining > 0);
    assert(all.drop_first() =~= rest);
    assert(remaining - n > 0);
    if let Some(b) = bounds {
        assert(position + n == b.end);
        assert((b.end - b.start) % (b.end - b.start) == 0) by (nonlinear_arith)
            requires
                b.start < b.end,
        ;
        assert(next == b.start);
        if k > 0 {
            lemma_segments_wrap(next, remaining - n, offset + n, bounds, k - 1);
            assert(all[k] == rest[k - 1]);
            assert(all[k + 1] == rest[k]);
        } else {
            assert(all[1] == rest[0]);
        }
    }
}

/// The place in a callback's MIDI actions of the one for segment `k`.
pub open spec fn action_of(k: int) -> int {
    2 * k
}

proof fn lemma_actions(segments: Seq<LoopSegment>, n: nat)
    requires
        n <= segments.len(),
        forall|k: int| 0 <= k < segments.len() ==> #[trigger] segments[k].offset <= u32::MAX,
    ensures
        ({
            let actions = midi_actions(segments, n);
            &&& actions.len() == if n == 0 {
                0
            } else {
                2 * n - 1
            }
            &&& forall|k: int|
                #![trigger segments[k]]
                0 <= k < n ==> actions[action_of(k)] == (MidiAction::Schedule {
                    sample: segments[k].sample,
                    frames: segments[k].frames,
                    offset: segments[k].offset as u32,
                })
            &&& forall|k: int|
                #![trigger segments[k]]
                1 <= k < n ==> actions[action_of(k) - 1] == (MidiAction::Reset {
                    sample: segments[k].sample,
                    offset: segments[k].offset as u32,
                })
        }),
    decreases n,
{
    if n > 0 {
        lemma_actions(segments, (n - 1) as nat);
    }
}

/// Whether an action schedules frame `f` of its callback.
pub open spec fn schedules_frame(action: MidiAction, f: int) -> bool {
    action matches MidiAction::Schedule { sample, frames, offset } && offset <= f < offset
        + frames
}

/// The notes of every frame of a block are scheduled exactly once, and from the
/// timeline sample that the frame plays.
pub proof fn law_every_frame_is_scheduled_once(
    base: int,
    frames: int,
    bounds: Option<LoopBounds>,
    f: int,
) -> (k: int)
    requires
        transport::loop_valid(bounds),
        0 <= base <= u64::MAX,
        0 <= f < frames <= u32::MAX,
        bounds is None ==> base + frames <= u64::MAX,
    ensures
        ({
            let segments = transport::block_segments(base, frames, bounds);
            let actions = midi_actions(segments, segments.len());
            &&& 0 <= k < actions.len()
            &&& actions[k] matches MidiAction::Schedule { sample, frames: n, offset } && offset
                <= f < offset + n && sample + (f - offset) == transport::timeline_at(
                base,
                f,
                bounds,
            )
            &&& forall|j: int|
                #![trigger actions[j]]
                0 <= j < actions.len() && schedules_frame(actions[j], f) ==> j == k
        }),
{
    let segments = transport::block_segments(base, frames, bounds);
    let actions = midi_actions(segments, segments.len());
    let s = transport::law_every_frame_has_its_place(base, frames, bounds, f);
    lemma_actions(segments, segments.len());
    let k = action_of(s);
    assert(actions[k] == (MidiAction::Schedule {
        sample: segments[s].sample,
        frames: segments[s].frames,
        offset: segments[s].offset as u32,
    }));
    assert forall|j: int|
        #![trigger actions[j]]
        0 <= j < actions.len() && schedules_frame(actions[j], f) implies j == k by {
        if j % 2 == 0 {
            let m = j / 2;
            assert(action_of(m) == j);
            assert(actions[j] == (MidiAction::Schedule {
                sample: segments[m].sample,
                frames: segments[m].frames,
                offset: segments[m].offset as u32,
            }));
            assert(transport::holds_frame(segments[m], f));
        } else {
            let m = (j + 1) / 2;
            assert(action_of(m) - 1 == j);
            assert(actions[j] == (MidiAction::Reset {
                sample: segments[m].sample,
                offset: segments[m].offset as u32,
            }));
        }
    }
    k
}

/// Where a loop wraps inside a block, playback starts anew at the loop's start
/// before the notes from there on are scheduled.
pub proof fn law_wraps_start_playback_anew(
    base: int,
    frames: int,
    bounds: LoopBounds,
    k: int,
)
    requires
        transport::loop_valid(Some(bounds)),
        0 <= base <= u64::MAX,
        0 <= frames <= u32::MAX,
        ({
            let segments = transport::block_segments(base, frames, Some(bounds));
            let actions = midi_actions(segments, segments.len());
            0 < k < actions.len() && actions[k] is Schedule
        }),
    ensures
        ({
            let segments = transport::block_segments(base, frames, Some(bounds));
            let actions = midi_actions(segments, segments.len());
            &&& actions[k] matches MidiAction::Schedule { sample, frames: n, offset } && sample
                == bounds.start && actions[k - 1] == (MidiAction::Reset {
                sample: bounds.start,
                offset,
            })
        }),
{
    let segments = transport::block_segments(base, frames, Some(bounds));
    let actions = midi_actions(segments, segments.len());
    if frames > 0 {
        let s = transport::law_every_frame_has_its_place(base, frames, Some(bounds), 0);
    }
    lemma_actions(segments, segments.len());
    if k % 2 == 0 {
        let m = k / 2;
        assert(action_of(m) == k);
        assert(segments[m] == segments[m]);
        law_playback_restarts_exactly_at_wraps(base, frames, Some(bounds), m - 1);
    } else {
        let m = (k + 1) / 2;
        assert(action_of(m) - 1 == k);
        assert(m < segments.len());
        assert(actions[action_of(m) - 1] == (MidiAction::Reset {
            sample: segments[m].sample,
            offset: segments[m].offset as u32,
        }));
    }
}

/// Playback starts anew after a block exactly when the block's last frame is the
/// loop's last sample, and then at the loop's start.
pub proof fn law_block_that_ends_on_the_loop_end_restarts(
    base: int,
    frames: int,
    bounds: Option<LoopBounds>,
)
    requires
        transport::loop_valid(bounds),
        0 <= base <= u64::MAX,
        0 <= frames <= u64::MAX,
        bounds is None ==> base + frames <= u64::MAX,
    ensures
        ({
            let segments = transport::block_segments(base, frames, bounds);
            &&& end_reset(segments, bounds) is Some <==> (bounds matches Some(b) && frames > 0
                && transport::timeline_at(base, frames - 1, bounds) + 1 == b.end)
            &&& end_reset(segments, bounds) matches Some(at) ==> bounds->0.start == at
        }),
{
    let segments = transport::block_segments(base, frames, bounds);
    if frames > 0 {
        let k = transport::law_every_frame_has_its_place(base, frames, bounds, frames - 1);
        assert(k == segments.len() - 1) by {
            if k < segments.len() - 1 {
                transport::lemma_segments_ascend(base, frames, bounds, k, segments.len() - 1);
            }
        }
    } else {
        assert(segments =~= Seq::empty());
    }
}

} // verus!
