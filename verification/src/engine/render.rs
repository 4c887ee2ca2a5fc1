//! Render planning: which signal goes where, and in what order.
//!
//! A block is rendered in two passes. Source tracks come first; each feeds its
//! sends and its main output into the receive buffers of routing tracks or into
//! the master sum. Routing tracks follow, once their inputs are complete, and
//! the master chain runs on the sum. The plan lists these steps in order; the
//! host carries each out on its sample buffers.

use vstd::prelude::*;

use crate::runtime;
use crate::runtime::RuntimeClip;
use crate::runtime::RuntimeProject;
use crate::runtime::RuntimeTrack;
use crate::runtime::StretchBackend;
use crate::text::str_eq;
use crate::transport;
use crate::transport::LoopBounds;
use crate::transport::LoopSegment;

verus! {

/// Frames of a clip that sound in a block.
#[derive(Clone, Copy, Debug, PartialEq, Eq, Structural)]
pub struct ClipPiece {
    pub clip: usize,
    pub track: usize,
    /// First frame of the block that the piece fills.
    pub frame: u64,
    /// First sample of the clip that the piece takes, counted from its start.
    pub rel: u64,
    pub frames: u64,
    /// Whether the clip's stretch processor renders the piece.
    pub stretched: bool,
}

/// One step of rendering a block.
#[derive(Clone, Copy, Debug, PartialEq, Eq, Structural)]
pub enum RenderStep {
    /// Silence the output.
    ClearOutput,
    /// Silence a track's block and receive buffers.
    ClearTrack { track: usize },
    /// Add a piece of a clip to its track's block.
    Clip { piece: ClipPiece },
    /// Take what a routing track received as its block.
    LoadReceive { track: usize },
    /// Run a track's chain of inserts on its block.
    Chain { track: usize },
    /// Add a track's block, scaled by a send's level, to the target's receive
    /// buffers.
    Send { source: usize, send: usize, target: usize },
    /// Apply a track's fader to its block.
    Fader { track: usize },
    /// Delay a track's block.
    Delay { track: usize, samples: u32 },
    /// Meter a track's block.
    Meter { track: usize },
    /// Add a track's block to a routing track's receive buffers.
    MainToBus { source: usize, target: usize },
    /// Add a track's block to the output.
    MainToMaster { source: usize },
    /// Take the output as the master's block.
    LoadMaster { track: usize },
    /// Write the master's block back to the output and meter it.
    StoreMaster { track: usize },
    /// Apply the master volume and the limiter to the output.
    Limit,
}

/// A block's frames and the steps that render it.
#[derive(Debug)]
pub struct BlockPlan {
    pub frames: u64,
    pub steps: Vec<RenderStep>,
}

// ── Names and levels ────────────────────────────────────────────────────────

/// Whether an output name means the master: empty, `master` or `none`.
pub open spec fn is_master_output_spec(output: Seq<char>) -> bool {
    output.len() == 0 || output == "master"@ || output == "none"@
}

/// Whether an output name means the master: empty, `master` or `none`.
pub fn is_master_output(output: &str) -> (r: bool)
    ensures
        r == is_master_output_spec(output@),
{
    output.is_empty() || str_eq(output, "master") || str_eq(output, "none")
}

/// Whether a bit pattern is a zero, of either sign.
pub open spec fn is_zero_bits(bits: u32) -> bool {
    bits == 0 || bits == 0x8000_0000
}

/// Whether a bit pattern is not a number.
pub open spec fn is_nan_bits(bits: u32) -> bool {
    0x7f80_0000 < bits < 0x8000_0000 || 0xff80_0000 < bits
}

/// Whether a bit pattern is a number at or below zero.
pub open spec fn is_nonpositive_bits(bits: u32) -> bool {
    bits == 0 || (bits >= 0x8000_0000 && !is_nan_bits(bits))
}

/// Whether two bit patterns compare equal as numbers.
pub open spec fn equal_as_numbers(a: u32, b: u32) -> bool {
    !is_nan_bits(a) && !is_nan_bits(b) && (a == b || (is_zero_bits(a) && is_zero_bits(b)))
}

fn zero_bits(bits: u32) -> (r: bool)
    ensures
        r == is_zero_bits(bits),
{
    bits == 0 || bits == 0x8000_0000
}

/// Whether a bit pattern is not a number.
pub(crate) fn nan_bits(bits: u32) -> (r: bool)
    ensures
        r == is_nan_bits(bits),
{
    (0x7f80_0000 < bits && bits < 0x8000_0000) || 0xff80_0000 < bits
}

/// Whether a bit pattern is a number at or below zero.
pub fn nonpositive_bits(bits: u32) -> (r: bool)
    ensures
        r == is_nonpositive_bits(bits),
{
    bits == 0 || (bits >= 0x8000_0000 && !nan_bits(bits))
}

/// Whether two bit patterns compare equal as numbers.
pub fn numbers_equal(a: u32, b: u32) -> (r: bool)
    ensures
        r == equal_as_numbers(a, b),
{
    !nan_bits(a) && !nan_bits(b) && (a == b || (zero_bits(a) && zero_bits(b)))
}

// ── Audibility ──────────────────────────────────────────────────────────────

/// The mute state of a track: what automation asks for, else the track's own.
pub open spec fn muted_now(track: RuntimeTrack) -> bool {
    match track.automation_muted {
        Some(muted) => muted,
        None => track.muted,
    }
}

/// The mute state of a track: what automation asks for, else the track's own.
pub fn effective_track_muted(track: &RuntimeTrack) -> (r: bool)
    ensures
        r == muted_now(*track),
{
    match track.automation_muted {
        Some(muted) => muted,
        None => track.muted,
    }
}

/// Whether strip `c` takes an output of an instrument on `parent`.
pub open spec fn is_output_child(parent: RuntimeTrack, c: int) -> bool {
    exists|x: int, y: int|
        #![trigger parent.inserts@[x].vsti_output_children@[y]]
        0 <= x < parent.inserts@.len() && 0 <= y
            < parent.inserts@[x].vsti_output_children@.len()
            && parent.inserts@[x].vsti_output_children@[y].track_index == c
}

/// Whether strip `c` takes an output of a soloed instrument track.
pub open spec fn has_soloed_parent(tracks: Seq<RuntimeTrack>, c: int) -> bool {
    exists|p: int|
        #![trigger tracks[p]]
        0 <= p < tracks.len() && tracks[p].solo && is_output_child(tracks[p], c)
}

/// Whether strip `c` takes an output of any instrument track.
pub open spec fn has_parent(tracks: Seq<RuntimeTrack>, c: int) -> bool {
    exists|p: int|
        #![trigger tracks[p]]
        0 <= p < tracks.len() && is_output_child(tracks[p], c)
}

/// Whether a soloed strip takes an output of an instrument on track `p`.
pub open spec fn has_soloed_child(tracks: Seq<RuntimeTrack>, p: int) -> bool {
    exists|c: int|
        #![trigger tracks[c]]
        0 <= c < tracks.len() && tracks[c].solo && is_output_child(tracks[p], c)
}

/// Whether track `i` is heard while something is soloed: it is soloed itself,
/// it is an output of a soloed instrument, or one of its own outputs is soloed.
pub open spec fn solo_admits(tracks: Seq<RuntimeTrack>, i: int) -> bool {
    tracks[i].solo || has_soloed_parent(tracks, i) || has_soloed_child(tracks, i)
}

/// Whether a source track is rendered.
pub open spec fn source_sounds(tracks: Seq<RuntimeTrack>, has_solo: bool, i: int) -> bool {
    !muted_now(tracks[i]) && (!has_solo || solo_admits(tracks, i))
}

/// Whether a routing track is rendered. Solo does not silence an ordinary
/// routing track, so that a soloed source still reaches its returns; it does
/// silence the separate outputs of an instrument.
pub open spec fn routing_sounds(tracks: Seq<RuntimeTrack>, has_solo: bool, i: int) -> bool {
    !muted_now(tracks[i]) && (!has_solo || !has_parent(tracks, i) || solo_admits(tracks, i))
}

/// Whether the master's chain runs.
pub open spec fn master_sounds(tracks: Seq<RuntimeTrack>, has_solo: bool, i: int) -> bool {
    !muted_now(tracks[i]) && (!has_solo || tracks[i].solo)
}

/// Whether strip `c` takes an output of an instrument on `parent`.
fn takes_output_of(parent: &RuntimeTrack, c: usize) -> (r: bool)
    ensures
        r == is_output_child(*parent, c as int),
{
    let mut x: usize = 0;
    while x < parent.inserts.len()
        invariant
            x <= parent.inserts@.len(),
            forall|a: int, y: int|
                #![trigger parent.inserts@[a].vsti_output_children@[y]]
                0 <= a < x && 0 <= y < parent.inserts@[a].vsti_output_children@.len()
                    ==> parent.inserts@[a].vsti_output_children@[y].track_index != c,
        decreases parent.inserts@.len() - x,
    {
        let children = &parent.inserts[x].vsti_output_children;
        let mut y: usize = 0;
        while y < children.len()
            invariant
                x < parent.inserts@.len(),
                children@ == parent.inserts@[x as int].vsti_output_children@,
                y <= children@.len(),
                forall|b: int|
                    #![trigger parent.inserts@[x as int].vsti_output_children@[b]]
                    0 <= b < y ==> parent.inserts@[x as int].vsti_output_children@[b].track_index
                        != c,
            decreases children@.len() - y,
        {
            if children[y].track_index == c {
                proof {
                    assert(parent.inserts@[x as int].vsti_output_children@[y as int].track_index
                        == c);
                }
                return true;
            }
            y = y + 1;
        }
        x = x + 1;
    }
    false
}

/// Whether strip `c` takes an output of an instrument track, and whether of a
/// soloed one.
fn parents_of(tracks: &Vec<RuntimeTrack>, c: usize) -> (r: (bool, bool))
    ensures
        r.0 == has_parent(tracks@, c as int),
        r.1 == has_soloed_parent(tracks@, c as int),
{
    let mut any: bool = false;
    let mut soloed: bool = false;
    let mut p: usize = 0;
    while p < tracks.len()
        invariant
            p <= tracks@.len(),
            any == exists|q: int|
                #![trigger tracks@[q]]
                0 <= q < p && is_output_child(tracks@[q], c as int),
            soloed == exists|q: int|
                #![trigger tracks@[q]]
                0 <= q < p && tracks@[q].solo && is_output_child(tracks@[q], c as int),
        decreases tracks@.len() - p,
    {
        if takes_output_of(&tracks[p], c) {
            proof {
                assert(is_output_child(tracks@[p as int], c as int));
            }
            any = true;
            if tracks[p].solo {
                soloed = true;
            }
        }
        p = p + 1;
    }
    (any, soloed)
}

/// Whether a soloed strip takes an output of an instrument on track `p`.
fn soloed_child_of(tracks: &Vec<RuntimeTrack>, p: usize) -> (r: bool)
    requires
        p < tracks@.len(),
    ensures
        r == has_soloed_child(tracks@, p as int),
{
    let mut c: usize = 0;
    while c < tracks.len()
        invariant
            c <= tracks@.len(),
            p < tracks@.len(),
            forall|d: int|
                #![trigger tracks@[d]]
                0 <= d < c ==> !(tracks@[d].solo && is_output_child(tracks@[p as int], d)),
        decreases tracks@.len() - c,
    {
        if tracks[c].solo && takes_output_of(&tracks[p], c) {
            proof {
                assert(tracks@[c as int].solo);
            }
            return true;
        }
        c = c + 1;
    }
    false
}

/// Whether a source track is rendered.
fn source_is_audible(tracks: &Vec<RuntimeTrack>, has_solo: bool, i: usize) -> (r: bool)
    requires
        i < tracks@.len(),
    ensures
        r == source_sounds(tracks@, has_solo, i as int),
{
    !effective_track_muted(&tracks[i]) && (!has_solo || tracks[i].solo || parents_of(tracks, i).1
        || soloed_child_of(tracks, i))
}

/// Whether a routing track is rendered.
fn routing_is_audible(tracks: &Vec<RuntimeTrack>, has_solo: bool, i: usize) -> (r: bool)
    requires
        i < tracks@.len(),
    ensures
        r == routing_sounds(tracks@, has_solo, i as int),
{
    if effective_track_muted(&tracks[i]) {
        return false;
    }
    if !has_solo {
        return true;
    }
    let parents: (bool, bool) = parents_of(tracks, i);
    !parents.0 || tracks[i].solo || parents.1 || soloed_child_of(tracks, i)
}

/// Soloing an instrument track keeps every one of its separate outputs audible.
pub proof fn law_soloed_instrument_keeps_its_outputs(
    tracks: Seq<RuntimeTrack>,
    parent: int,
    child: int,
)
    requires
        0 <= parent < tracks.len(),
        0 <= child < tracks.len(),
        tracks[parent].solo,
        is_output_child(tracks[parent], child),
        !muted_now(tracks[child]),
    ensures
        routing_sounds(tracks, true, child),
{
    assert(tracks[parent].solo);
}

/// Soloing one separate output of an instrument renders the instrument and that
/// output, and silences an output that is neither soloed nor of a soloed
/// instrument.
pub proof fn law_soloed_output_is_isolated(
    tracks: Seq<RuntimeTrack>,
    parent: int,
    soloed: int,
    other: int,
)
    requires
        0 <= parent < tracks.len(),
        0 <= soloed < tracks.len(),
        0 <= other < tracks.len(),
        is_output_child(tracks[parent], soloed),
        is_output_child(tracks[parent], other),
        tracks[soloed].solo,
        !tracks[other].solo,
        !has_soloed_parent(tracks, other),
        !has_soloed_child(tracks, other),
        !muted_now(tracks[parent]),
        !muted_now(tracks[soloed]),
    ensures
        source_sounds(tracks, true, parent),
        routing_sounds(tracks, true, soloed),
        !routing_sounds(tracks, true, other),
{
    assert(tracks[soloed].solo);
    assert(is_output_child(tracks[parent], other));
}

// ── Routing ─────────────────────────────────────────────────────────────────

/// Whether track `src` may feed track `t`: another track, of a routing type,
/// and a later one where `src` is itself of a routing type.
pub open spec fn may_feed(tracks: Seq<RuntimeTrack>, src: int, t: int) -> bool {
    &&& 0 <= t < tracks.len()
    &&& t != src
    &&& runtime::routing_type(tracks[t].track_type@)
    &&& runtime::routing_type(tracks[src].track_type@) ==> t > src
}

/// The target of send `s` of track `src` in one phase, if the send is accepted.
pub open spec fn send_target(
    tracks: Seq<RuntimeTrack>,
    src: int,
    s: int,
    pre_fader: bool,
) -> Option<usize> {
    let send = tracks[src].sends@[s];
    match send.return_track_index {
        Some(t) => if send.pre_fader == pre_fader && send.enabled && !is_zero_bits(send.level_bits)
            && may_feed(tracks, src, t as int) {
            Some(t)
        } else {
            None
        },
        None => None,
    }
}

/// The steps of the first `n` sends of track `src` in one phase.
pub open spec fn send_steps(
    tracks: Seq<RuntimeTrack>,
    src: int,
    pre_fader: bool,
    n: nat,
) -> Seq<RenderStep>
    decreases n,
{
    if n == 0 {
        Seq::empty()
    } else {
        let rest = send_steps(tracks, src, pre_fader, (n - 1) as nat);
        match send_target(tracks, src, n - 1, pre_fader) {
            Some(target) => rest.push(
                RenderStep::Send { source: src as usize, send: (n - 1) as usize, target },
            ),
            None => rest,
        }
    }
}

/// Where track `src`'s main output goes: to a routing track that it may feed,
/// else to the master sum.
pub open spec fn main_step(tracks: Seq<RuntimeTrack>, src: int) -> RenderStep {
    match tracks[src].output_track_index {
        Some(t) => if may_feed(tracks, src, t as int) {
            RenderStep::MainToBus { source: src as usize, target: t }
        } else {
            RenderStep::MainToMaster { source: src as usize }
        },
        None => RenderStep::MainToMaster { source: src as usize },
    }
}

/// Whether track `src` may feed track `t`.
fn accepts_feed(tracks: &Vec<RuntimeTrack>, src: usize, t: usize) -> (r: bool)
    requires
        src < tracks@.len(),
    ensures
        r == may_feed(tracks@, src as int, t as int),
{
    if t >= tracks.len() || t == src {
        return false;
    }
    if !runtime::is_routing_track_type(tracks[t].track_type.as_str()) {
        return false;
    }
    !runtime::is_routing_track_type(tracks[src].track_type.as_str()) || t > src
}

/// Add the steps of a track's accepted sends in one phase. Sends to tracks that
/// take no feed, to the track itself, or backwards between routing tracks are
/// dropped.
pub fn accumulate_sends(
    tracks: &Vec<RuntimeTrack>,
    src_index: usize,
    pre_fader: bool,
    steps: &mut Vec<RenderStep>,
)
    requires
        src_index < tracks@.len(),
    ensures
        final(steps)@ == old(steps)@ + send_steps(
            tracks@,
            src_index as int,
            pre_fader,
            tracks@[src_index as int].sends@.len(),
        ),
{
    let count: usize = tracks[src_index].sends.len();
    let mut s: usize = 0;
    proof {
        assert(steps@ + Seq::<RenderStep>::empty() =~= steps@);
    }
    while s < count
        invariant
            s <= count,
            src_index < tracks@.len(),
            count == tracks@[src_index as int].sends@.len(),
            steps@ == old(steps)@ + send_steps(tracks@, src_index as int, pre_fader, s as nat),
        decreases count - s,
    {
        let send = &tracks[src_index].sends[s];
        let ghost before = steps@;
        if send.pre_fader == pre_fader && send.enabled && !zero_bits(send.level_bits) {
            if let Some(target) = send.return_track_index {
                if accepts_feed(tracks, src_index, target) {
                    steps.push(RenderStep::Send { source: src_index, send: s, target });
                    proof {
                        let step = RenderStep::Send { source: src_index, send: s, target };
                        let rest = send_steps(tracks@, src_index as int, pre_fader, s as nat);
                        assert((old(steps)@ + rest).push(step) =~= old(steps)@ + rest.push(step));
                    }
                }
            }
        }
        s = s + 1;
    }
}

/// Where a track's post-fader signal goes: to the routing track that its output
/// names, else to the master sum.
pub fn route_main_output(tracks: &Vec<RuntimeTrack>, src_index: usize) -> (r: RenderStep)
    requires
        src_index < tracks@.len(),
    ensures
        r == main_step(tracks@, src_index as int),
{
    if let Some(target) = tracks[src_index].output_track_index {
        if accepts_feed(tracks, src_index, target) {
            return RenderStep::MainToBus { source: src_index, target };
        }
    }
    RenderStep::MainToMaster { source: src_index }
}

/// The delay that the latency graph gives track `i`.
pub open spec fn planned_delay(p: RuntimeProject, i: int) -> u32 {
    if i < p.latency_graph.track_pdc_delay@.len() {
        p.latency_graph.track_pdc_delay@[i]
    } else {
        0
    }
}

/// The steps that process one track: inserts, pre-fader sends, fader, delay,
/// meter, post-fader sends, main output.
pub open spec fn track_steps(p: RuntimeProject, i: int) -> Seq<RenderStep> {
    let tracks = p.tracks@;
    let track = i as usize;
    let n = tracks[i].sends@.len();
    seq![RenderStep::Chain { track }] + send_steps(tracks, i, true, n) + seq![
        RenderStep::Fader { track },
    ] + (if planned_delay(p, i) > 0 {
        seq![RenderStep::Delay { track, samples: planned_delay(p, i) }]
    } else {
        Seq::empty()
    }) + seq![RenderStep::Meter { track }] + send_steps(tracks, i, false, n) + seq![
        main_step(tracks, i),
    ]
}

/// Add the steps that process one track.
fn process_track_block(p: &RuntimeProject, i: usize, steps: &mut Vec<RenderStep>)
    requires
        i < p.tracks@.len(),
    ensures
        final(steps)@ == old(steps)@ + track_steps(*p, i as int),
{
    steps.push(RenderStep::Chain { track: i });
    accumulate_sends(&p.tracks, i, true, steps);
    steps.push(RenderStep::Fader { track: i });
    let delay: u32 = if i < p.latency_graph.track_pdc_delay.len() {
        p.latency_graph.track_pdc_delay[i]
    } else {
        0
    };
    if delay > 0 {
        steps.push(RenderStep::Delay { track: i, samples: delay });
    }
    steps.push(RenderStep::Meter { track: i });
    accumulate_sends(&p.tracks, i, false, steps);
    let main = route_main_output(&p.tracks, i);
    steps.push(main);
    proof {
        assert(steps@ =~= old(steps)@ + track_steps(*p, i as int));
    }
}

// ── Clips ───────────────────────────────────────────────────────────────────

/// Where a clip ends on the timeline.
pub open spec fn clip_end(clip: RuntimeClip) -> int {
    if clip.start_sample + clip.duration_samples > u64::MAX {
        u64::MAX as int
    } else {
        clip.start_sample + clip.duration_samples
    }
}

/// The timeline samples of a segment that lie in a clip, as a range.
pub open spec fn overlap(clip: RuntimeClip, segment: LoopSegment) -> (int, int) {
    let start = if clip.start_sample > segment.sample {
        clip.start_sample as int
    } else {
        segment.sample as int
    };
    let end = if clip_end(clip) < segment.sample + segment.frames {
        clip_end(clip)
    } else {
        segment.sample + segment.frames
    };
    (start, end)
}

/// Whether a clip's stretch processor renders it.
pub open spec fn is_stretched(clip: RuntimeClip) -> bool {
    clip.stretch_backend == StretchBackend::Signalsmith && clip.stretch_ready
}

/// The piece of clip `c` that sounds in a segment, if any.
pub open spec fn clip_piece(
    clip: RuntimeClip,
    c: int,
    track: usize,
    segment: LoopSegment,
) -> Option<ClipPiece> {
    let (start, end) = overlap(clip, segment);
    if start < end {
        Some(
            ClipPiece {
                clip: c as usize,
                track,
                frame: (segment.offset + (start - segment.sample)) as u64,
                rel: (start - clip.start_sample) as u64,
                frames: (end - start) as u64,
                stretched: is_stretched(clip),
            },
        )
    } else {
        None
    }
}

/// The steps of clip `c` over the first `n` segments.
pub open spec fn clip_segment_steps(
    clip: RuntimeClip,
    c: int,
    track: usize,
    segments: Seq<LoopSegment>,
    n: nat,
) -> Seq<RenderStep>
    decreases n,
{
    if n == 0 {
        Seq::empty()
    } else {
        let rest = clip_segment_steps(clip, c, track, segments, (n - 1) as nat);
        match clip_piece(clip, c, track, segments[n - 1]) {
            Some(piece) => rest.push(RenderStep::Clip { piece }),
            None => rest,
        }
    }
}

/// The track that a clip plays on, if the clip is heard.
pub open spec fn clip_track(p: RuntimeProject, c: int) -> Option<usize> {
    let clip = p.clips@[c];
    match clip.track_index {
        Some(t) => if !clip.muted && t < p.tracks@.len() && source_sounds(
            p.tracks@,
            p.has_solo,
            t as int,
        ) {
            Some(t)
        } else {
            None
        },
        None => None,
    }
}

/// The steps of the first `n` clips.
pub open spec fn clip_steps(
    p: RuntimeProject,
    segments: Seq<LoopSegment>,
    n: nat,
) -> Seq<RenderStep>
    decreases n,
{
    if n == 0 {
        Seq::empty()
    } else {
        let rest = clip_steps(p, segments, (n - 1) as nat);
        match clip_track(p, n - 1) {
            Some(track) => rest + clip_segment_steps(
                p.clips@[n - 1],
                n - 1,
                track,
                segments,
                segments.len(),
            ),
            None => rest,
        }
    }
}

/// The piece of a clip that sounds in a segment, if any.
fn piece_in_segment(clip: &RuntimeClip, c: usize, track: usize, segment: &LoopSegment) -> (r: Option<
    ClipPiece,
>)
    requires
        segment.offset + segment.frames <= u64::MAX,
    ensures
        r == clip_piece(*clip, c as int, track, *segment),
{
    let end: u64 = clip.start_sample.saturating_add(clip.duration_samples);
    let segment_end: u128 = segment.sample as u128 + segment.frames as u128;
    let start: u64 = if clip.start_sample > segment.sample {
        clip.start_sample
    } else {
        segment.sample
    };
    let stop: u128 = if (end as u128) < segment_end {
        end as u128
    } else {
        segment_end
    };
    if (start as u128) < stop {
        let frames: u64 = (stop - start as u128) as u64;
        Some(
            ClipPiece {
                clip: c,
                track,
                frame: segment.offset + (start - segment.sample),
                rel: start - clip.start_sample,
                frames,
                stretched: match clip.stretch_backend {
                    StretchBackend::Signalsmith => clip.stretch_ready,
                    StretchBackend::InternalRePitch => false,
                },
            },
        )
    } else {
        None
    }
}

proof fn lemma_segments_fit(
    position: int,
    remaining: int,
    offset: int,
    bounds: Option<LoopBounds>,
    k: int,
)
    requires
        transport::loop_valid(bounds),
        0 <= position,
        bounds matches Some(b) ==> position < b.end,
        0 <= remaining,
        0 <= offset,
        offset + remaining <= u64::MAX,
        0 <= k < transport::segments_from(position, remaining, offset, bounds).len(),
    ensures
        ({
            let s = transport::segments_from(position, remaining, offset, bounds)[k];
            s.offset + s.frames <= offset + remaining
        }),
    decreases remaining,
{
    let n = transport::segment_len(position, remaining, bounds);
    if remaining > 0 && k > 0 {
        let next = transport::normalized(position + n, bounds);
        if let Some(b) = bounds {
            assert(next == if position + n < b.end {
                position + n
            } else {
                b.start as int
            }) by {
                if position + n >= b.end {
                    assert((b.end - b.start) % (b.end - b.start) == 0) by (nonlinear_arith)
                        requires
                            b.start < b.end,
                    ;
                }
            }
        }
        lemma_segments_fit(next, remaining - n, offset + n, bounds, k - 1);
    }
}

/// Add the steps of every clip that is heard in the block.
fn plan_clips(
    p: &RuntimeProject,
    segments: &Vec<LoopSegment>,
    steps: &mut Vec<RenderStep>,
)
    requires
        forall|k: int|
            #![trigger segments@[k]]
            0 <= k < segments@.len() ==> segments@[k].offset + segments@[k].frames <= u64::MAX,
    ensures
        final(steps)@ == old(steps)@ + clip_steps(*p, segments@, p.clips@.len()),
{
    let mut c: usize = 0;
    proof {
        assert(steps@ + Seq::<RenderStep>::empty() =~= steps@);
    }
    while c < p.clips.len()
        invariant
            c <= p.clips@.len(),
            forall|k: int|
                #![trigger segments@[k]]
                0 <= k < segments@.len() ==> segments@[k].offset + segments@[k].frames <= u64::MAX,
            steps@ == old(steps)@ + clip_steps(*p, segments@, c as nat),
        decreases p.clips@.len() - c,
    {
        let clip = &p.clips[c];
        let mut track: Option<usize> = None;
        if !clip.muted {
            if let Some(t) = clip.track_index {
                if t < p.tracks.len() && source_is_audible(&p.tracks, p.has_solo, t) {
                    track = Some(t);
                }
            }
        }
        if let Some(t) = track {
            let ghost before = steps@;
            let mut k: usize = 0;
            proof {
                assert(before + Seq::<RenderStep>::empty() =~= before);
            }
            while k < segments.len()
                invariant
                    k <= segments@.len(),
                    forall|j: int|
                        #![trigger segments@[j]]
                        0 <= j < segments@.len() ==> segments@[j].offset + segments@[j].frames
                            <= u64::MAX,
                    steps@ == before + clip_segment_steps(
                        *clip,
                        c as int,
                        t,
                        segments@,
                        k as nat,
                    ),
                decreases segments@.len() - k,
            {
                let ghost rest = clip_segment_steps(*clip, c as int, t, segments@, k as nat);
                if let Some(piece) = piece_in_segment(clip, c, t, &segments[k]) {
                    steps.push(RenderStep::Clip { piece });
                    proof {
                        let step = RenderStep::Clip { piece };
                        assert((before + rest).push(step) =~= before + rest.push(step));
                    }
                }
                k = k + 1;
            }
            proof {
                let done = clip_steps(*p, segments@, c as nat);
                let more = clip_segment_steps(*clip, c as int, t, segments@, segments@.len());
                assert(old(steps)@ + done + more =~= old(steps)@ + (done + more));
            }
        }
        c = c + 1;
    }
}

// ── The block ───────────────────────────────────────────────────────────────

/// The steps that silence the first `n` tracks' buffers.
pub open spec fn clear_steps(n: nat) -> Seq<RenderStep> {
    Seq::new(n, |i: int| RenderStep::ClearTrack { track: i as usize })
}

/// The steps of the first `n` source tracks.
pub open spec fn source_pass(p: RuntimeProject, n: nat) -> Seq<RenderStep>
    decreases n,
{
    if n == 0 {
        Seq::empty()
    } else {
        let rest = source_pass(p, (n - 1) as nat);
        let i = p.audio_graph.pass1_source_indices@[n - 1] as int;
        if source_sounds(p.tracks@, p.has_solo, i) {
            rest + track_steps(p, i)
        } else {
            rest
        }
    }
}

/// The steps of the first `n` routing tracks.
pub open spec fn routing_pass(p: RuntimeProject, n: nat) -> Seq<RenderStep>
    decreases n,
{
    if n == 0 {
        Seq::empty()
    } else {
        let rest = routing_pass(p, (n - 1) as nat);
        let i = p.audio_graph.pass2_routing_indices@[n - 1] as int;
        if routing_sounds(p.tracks@, p.has_solo, i) {
            rest + (seq![RenderStep::LoadReceive { track: i as usize }] + track_steps(p, i))
        } else {
            rest
        }
    }
}

/// The steps of the master's chain.
pub open spec fn master_pass(p: RuntimeProject) -> Seq<RenderStep> {
    match p.audio_graph.master_index {
        Some(m) => if master_sounds(p.tracks@, p.has_solo, m as int) {
            seq![
                RenderStep::LoadMaster { track: m },
                RenderStep::Chain { track: m },
                RenderStep::StoreMaster { track: m },
            ]
        } else {
            Seq::empty()
        },
        None => Seq::empty(),
    }
}

/// The steps that render a block. Timeline clips sound only while the transport
/// runs.
pub open spec fn block_steps(
    p: RuntimeProject,
    base: int,
    frames: int,
    transport_active: bool,
    bounds: Option<LoopBounds>,
) -> Seq<RenderStep> {
    let segments = transport::block_segments(base, frames, bounds);
    seq![RenderStep::ClearOutput] + clear_steps(p.tracks@.len()) + (if transport_active {
        clip_steps(p, segments, p.clips@.len())
    } else {
        Seq::empty()
    }) + source_pass(p, p.audio_graph.pass1_source_indices@.len()) + routing_pass(
        p,
        p.audio_graph.pass2_routing_indices@.len(),
    ) + master_pass(p) + seq![RenderStep::Limit]
}

/// The block's frames: none without at least two channels.
pub open spec fn block_frames(output_len: int, channels: int) -> int {
    if channels < 2 {
        0
    } else {
        output_len / channels
    }
}

/// Plan one block of `output_len` interleaved samples. Chain latencies are
/// brought up to date first, so the delays of the plan are current. A block
/// without frames has no steps and changes nothing.
pub fn render_project_block_interleaved(
    runtime: &mut RuntimeProject,
    base_sample: u64,
    output_len: usize,
    channels: usize,
    transport_active: bool,
    loop_bounds: Option<LoopBounds>,
) -> (plan: BlockPlan)
    requires
        old(runtime).well_formed(),
        transport::loop_valid(loop_bounds),
        block_frames(output_len as int, channels as int) <= u32::MAX,
    ensures
        plan.frames == block_frames(output_len as int, channels as int),
        plan.frames == 0 ==> plan.steps@.len() == 0 && *final(runtime) == *old(runtime),
        plan.frames > 0 ==> {
            &&& refreshed(*old(runtime), *final(runtime), plan.frames as u32)
            &&& plan.steps@ == block_steps(
                *final(runtime),
                base_sample as int,
                plan.frames as int,
                transport_active,
                loop_bounds,
            )
        },
        final(runtime).well_formed(),
{
    let mut steps: Vec<RenderStep> = Vec::new();
    if channels < 2 {
        return BlockPlan { frames: 0, steps };
    }
    let frames: usize = output_len / channels;
    if frames == 0 {
        return BlockPlan { frames: 0, steps };
    }
    runtime.refresh_runtime_latency_graph(frames as u32);
    let p: &RuntimeProject = runtime;
    steps.push(RenderStep::ClearOutput);
    let n: usize = p.tracks.len();
    let mut i: usize = 0;
    while i < n
        invariant
            i <= n,
            steps@ == seq![RenderStep::ClearOutput] + clear_steps(i as nat),
        decreases n - i,
    {
        steps.push(RenderStep::ClearTrack { track: i });
        proof {
            assert(steps@ =~= seq![RenderStep::ClearOutput] + clear_steps((i + 1) as nat));
        }
        i = i + 1;
    }
    let ghost cleared = steps@;
    let ghost mut clips: Seq<RenderStep> = Seq::empty();
    if transport_active {
        let segments: Vec<LoopSegment> = transport::loop_segments(
            base_sample,
            frames as u64,
            loop_bounds,
        );
        proof {
            let start = transport::normalized(base_sample as int, loop_bounds);
            assert(0 <= start && (loop_bounds matches Some(b) ==> start < b.end)) by {
                if let Some(b) = loop_bounds {
                    if base_sample >= b.end {
                        let r = (base_sample - b.start) % (b.end - b.start);
                        assert(0 <= r < b.end - b.start) by (nonlinear_arith)
                            requires
                                b.start < b.end,
                                r == (base_sample - b.start) % (b.end - b.start),
                        ;
                    }
                }
            }
            assert forall|k: int| #![trigger segments@[k]] 0 <= k < segments@.len() implies segments@[k].offset
                + segments@[k].frames <= u64::MAX by {
                lemma_segments_fit(start, frames as int, 0, loop_bounds, k);
            }
        }
        plan_clips(p, &segments, &mut steps);
        proof {
            clips = clip_steps(*p, segments@, p.clips@.len());
        }
    }
    let ghost with_clips = steps@;
    proof {
        assert(with_clips =~= cleared + clips);
        assert(with_clips + Seq::<RenderStep>::empty() =~= with_clips);
    }
    let sources = &p.audio_graph.pass1_source_indices;
    let mut k: usize = 0;
    while k < sources.len()
        invariant
            k <= sources@.len(),
            p.well_formed(),
            sources@ == p.audio_graph.pass1_source_indices@,
            steps@ == with_clips + source_pass(*p, k as nat),
        decreases sources@.len() - k,
    {
        let track: usize = sources[k];
        let ghost done = source_pass(*p, k as nat);
        if source_is_audible(&p.tracks, p.has_solo, track) {
            process_track_block(p, track, &mut steps);
            proof {
                assert(with_clips + done + track_steps(*p, track as int) =~= with_clips + (done
                    + track_steps(*p, track as int)));
            }
        }
        k = k + 1;
    }
    let ghost with_sources = steps@;
    proof {
        assert(with_sources + Seq::<RenderStep>::empty() =~= with_sources);
    }
    let routing = &p.audio_graph.pass2_routing_indices;
    let mut k: usize = 0;
    while k < routing.len()
        invariant
            k <= routing@.len(),
            p.well_formed(),
            routing@ == p.audio_graph.pass2_routing_indices@,
            steps@ == with_sources + routing_pass(*p, k as nat),
        decreases routing@.len() - k,
    {
        let track: usize = routing[k];
        let ghost done = routing_pass(*p, k as nat);
        if routing_is_audible(&p.tracks, p.has_solo, track) {
            steps.push(RenderStep::LoadReceive { track });
            process_track_block(p, track, &mut steps);
            proof {
                assert(steps@ =~= with_sources + (done + (seq![RenderStep::LoadReceive { track }]
                    + track_steps(*p, track as int))));
            }
        }
        k = k + 1;
    }
    let ghost with_routing = steps@;
    if let Some(m) = p.audio_graph.master_index {
        if !effective_track_muted(&p.tracks[m]) && (!p.has_solo || p.tracks[m].solo) {
            steps.push(RenderStep::LoadMaster { track: m });
            steps.push(RenderStep::Chain { track: m });
            steps.push(RenderStep::StoreMaster { track: m });
        }
    }
    steps.push(RenderStep::Limit);
    proof {
        assert(steps@ =~= with_routing + master_pass(*p) + seq![RenderStep::Limit]);
        assert(steps@ =~= block_steps(
            *p,
            base_sample as int,
            frames as int,
            transport_active,
            loop_bounds,
        ));
    }
    BlockPlan { frames: frames as u64, steps }
}

/// `after` is `before` with its chain latencies and its latency graph brought
/// up to date for blocks of `frames` frames.
pub open spec fn refreshed(before: RuntimeProject, after: RuntimeProject, frames: u32) -> bool {
    if runtime::latencies_current(before.tracks@, before.latency_graph, frames) {
        after == before
    } else {
        &&& after == (RuntimeProject {
            tracks: after.tracks,
            latency_graph: after.latency_graph,
            ..before
        })
        &&& runtime::refreshed_tracks(before.tracks@, after.tracks@, frames)
        &&& crate::latency_graph::planned(
            after.tracks@,
            after.audio_graph,
            after.pdc_enabled,
            after.latency_graph,
        )
    }
}

// ── Laws of the plan ────────────────────────────────────────────────────────

/// The track that a step renders, if it renders one.
pub open spec fn step_track(step: RenderStep) -> Option<usize> {
    match step {
        RenderStep::Clip { piece } => Some(piece.track),
        RenderStep::LoadReceive { track } => Some(track),
        RenderStep::Chain { track } => Some(track),
        RenderStep::Send { source, send, target } => Some(source),
        RenderStep::Fader { track } => Some(track),
        RenderStep::Delay { track, samples } => Some(track),
        RenderStep::Meter { track } => Some(track),
        RenderStep::MainToBus { source, target } => Some(source),
        RenderStep::MainToMaster { source } => Some(source),
        RenderStep::LoadMaster { track } => Some(track),
        RenderStep::StoreMaster { track } => Some(track),
        RenderStep::ClearOutput => None,
        RenderStep::ClearTrack { track } => None,
        RenderStep::Limit => None,
    }
}

/// The routing track that a step feeds, if it feeds one.
pub open spec fn fed_track(step: RenderStep) -> Option<usize> {
    match step {
        RenderStep::Send { source, send, target } => Some(target),
        RenderStep::MainToBus { source, target } => Some(target),
        _ => None,
    }
}

/// Whether a track is rendered in some role.
pub open spec fn track_sounds(p: RuntimeProject, i: int) -> bool {
    ||| source_sounds(p.tracks@, p.has_solo, i)
    ||| routing_sounds(p.tracks@, p.has_solo, i)
    ||| master_sounds(p.tracks@, p.has_solo, i)
}

/// Every step of `steps` renders a track that sounds.
pub open spec fn only_audible(p: RuntimeProject, steps: Seq<RenderStep>) -> bool {
    forall|k: int|
        #![trigger steps[k]]
        0 <= k < steps.len() ==> (step_track(steps[k]) matches Some(i) ==> track_sounds(
            p,
            i as int,
        ))
}

/// No step of `steps` feeds a routing track that an earlier step took in.
pub open spec fn feeds_come_first(steps: Seq<RenderStep>) -> bool {
    forall|a: int, b: int|
        #![trigger steps[a], steps[b]]
        0 <= b < a < steps.len() ==> !(steps[b] matches RenderStep::LoadReceive { track }
            && fed_track(steps[a]) == Some(track))
}

/// No step of `steps` takes in a routing track's feeds.
spec fn takes_none_in(steps: Seq<RenderStep>) -> bool {
    forall|k: int|
        #![trigger steps[k]]
        0 <= k < steps.len() ==> !(steps[k] is LoadReceive)
}

/// Routing tracks are listed in the order of the tracks, each of a routing type.
pub open spec fn routing_order(p: RuntimeProject) -> bool {
    let order = p.audio_graph.pass2_routing_indices@;
    &&& forall|j: int, k: int|
        #![trigger order[j], order[k]]
        0 <= j < k < order.len() ==> order[j] < order[k]
    &&& forall|k: int|
        #![trigger order[k]]
        0 <= k < order.len() ==> runtime::routing_type(p.tracks@[order[k] as int].track_type@)
}

pub(crate) proof fn lemma_send_steps(tracks: Seq<RuntimeTrack>, src: int, pre_fader: bool, n: nat)
    ensures
        forall|k: int|
            #![trigger send_steps(tracks, src, pre_fader, n)[k]]
            0 <= k < send_steps(tracks, src, pre_fader, n).len() ==> (send_steps(
                tracks,
                src,
                pre_fader,
                n,
            )[k] matches RenderStep::Send { source, send, target } && source == src as usize
                && may_feed(tracks, src, target as int)),
    decreases n,
{
    if n > 0 {
        lemma_send_steps(tracks, src, pre_fader, (n - 1) as nat);
    }
}

pub(crate) proof fn lemma_track_steps(p: RuntimeProject, i: int)
    requires
        0 <= i < p.tracks@.len(),
        p.tracks@.len() <= usize::MAX,
    ensures
        forall|k: int|
            #![trigger track_steps(p, i)[k]]
            0 <= k < track_steps(p, i).len() ==> {
                let step = track_steps(p, i)[k];
                &&& step_track(step) == Some(i as usize)
                &&& !(step is LoadReceive)
                &&& fed_track(step) matches Some(t) ==> may_feed(p.tracks@, i, t as int)
            },
{
    let tracks = p.tracks@;
    let n = tracks[i].sends@.len();
    lemma_send_steps(tracks, i, true, n);
    lemma_send_steps(tracks, i, false, n);
    let pre = send_steps(tracks, i, true, n);
    let post = send_steps(tracks, i, false, n);
    let chain = seq![RenderStep::Chain { track: i as usize }];
    let fader = seq![RenderStep::Fader { track: i as usize }];
    let delay = if planned_delay(p, i) > 0 {
        seq![RenderStep::Delay { track: i as usize, samples: planned_delay(p, i) }]
    } else {
        Seq::empty()
    };
    let meter = seq![RenderStep::Meter { track: i as usize }];
    let all = track_steps(p, i);
    assert forall|k: int| #![trigger track_steps(p, i)[k]] 0 <= k < all.len() implies {
        let step = all[k];
        &&& step_track(step) == Some(i as usize)
        &&& !(step is LoadReceive)
        &&& fed_track(step) matches Some(t) ==> may_feed(p.tracks@, i, t as int)
    } by {
        let a = chain.len() as int;
        let b = a + pre.len();
        let c = b + fader.len();
        let d = c + delay.len();
        let e = d + meter.len();
        let f = e + post.len();
        if k < a {
            assert(all[k] == chain[k]);
        } else if k < b {
            assert(all[k] == pre[k - a]);
        } else if k < c {
            assert(all[k] == fader[k - b]);
        } else if k < d {
            assert(all[k] == delay[k - c]);
        } else if k < e {
            assert(all[k] == meter[k - d]);
        } else if k < f {
            assert(all[k] == post[k - e]);
        } else {
            assert(all[k] == main_step(tracks, i));
        }
    }
}

pub(crate) proof fn lemma_clip_segment_steps(
    clip: RuntimeClip,
    c: int,
    track: usize,
    segments: Seq<LoopSegment>,
    n: nat,
)
    ensures
        forall|k: int|
            #![trigger clip_segment_steps(clip, c, track, segments, n)[k]]
            0 <= k < clip_segment_steps(clip, c, track, segments, n).len() ==> (
            clip_segment_steps(clip, c, track, segments, n)[k] matches RenderStep::Clip { piece }
                && piece.track == track),
    decreases n,
{
    if n > 0 {
        lemma_clip_segment_steps(clip, c, track, segments, (n - 1) as nat);
    }
}

pub(crate) proof fn lemma_clip_steps(p: RuntimeProject, segments: Seq<LoopSegment>, n: nat)
    requires
        n <= p.clips@.len(),
    ensures
        only_audible(p, clip_steps(p, segments, n)),
        forall|k: int|
            #![trigger clip_steps(p, segments, n)[k]]
            0 <= k < clip_steps(p, segments, n).len() ==> clip_steps(p, segments, n)[k] is Clip,
    decreases n,
{
    if n > 0 {
        lemma_clip_steps(p, segments, (n - 1) as nat);
        if let Some(track) = clip_track(p, n - 1) {
            lemma_clip_segment_steps(p.clips@[n - 1], n - 1, track, segments, segments.len());
        }
    }
}

proof fn lemma_source_pass(p: RuntimeProject, n: nat)
    requires
        p.well_formed(),
        p.tracks@.len() <= usize::MAX,
        n <= p.audio_graph.pass1_source_indices@.len(),
    ensures
        only_audible(p, source_pass(p, n)),
        takes_none_in(source_pass(p, n)),
    decreases n,
{
    if n > 0 {
        lemma_source_pass(p, (n - 1) as nat);
        let i = p.audio_graph.pass1_source_indices@[n - 1] as int;
        lemma_track_steps(p, i);
    }
}

proof fn lemma_routing_pass(p: RuntimeProject, n: nat)
    requires
        p.well_formed(),
        p.tracks@.len() <= usize::MAX,
        n <= p.audio_graph.pass2_routing_indices@.len(),
    ensures
        only_audible(p, routing_pass(p, n)),
        routing_order(p) ==> feeds_come_first(routing_pass(p, n)) && loads_within(p, n),
    decreases n,
{
    if n > 0 {
        lemma_routing_pass(p, (n - 1) as nat);
        let order = p.audio_graph.pass2_routing_indices@;
        let i = order[n - 1] as int;
        lemma_track_steps(p, i);
        let rest = routing_pass(p, (n - 1) as nat);
        let own = seq![RenderStep::LoadReceive { track: i as usize }] + track_steps(p, i);
        if routing_sounds(p.tracks@, p.has_solo, i) {
            let all = routing_pass(p, n);
            assert(all == rest + own);
            assert forall|k: int| #![trigger all[k]] 0 <= k < all.len() implies (step_track(
                all[k],
            ) matches Some(t) ==> track_sounds(p, t as int)) by {
                if k < rest.len() {
                    assert(all[k] == rest[k]);
                } else if k > rest.len() {
                    assert(all[k] == track_steps(p, i)[k - rest.len() - 1]);
                }
            }
            if routing_order(p) {
                assert forall|k: int| #![trigger all[k]] 0 <= k < all.len() implies (
                all[k] matches RenderStep::LoadReceive { track } ==> exists|j: int|
                    0 <= j < n && #[trigger] order[j] == track) by {
                    if k < rest.len() {
                        assert(all[k] == rest[k]);
                    } else if k == rest.len() {
                        assert(order[n - 1] == i);
                    } else {
                        assert(all[k] == track_steps(p, i)[k - rest.len() - 1]);
                    }
                }
                assert(loads_within(p, n));
                assert forall|a: int, b: int|
                    #![trigger all[a], all[b]]
                    0 <= b < a < all.len() implies !(all[b] matches RenderStep::LoadReceive {
                    track,
                } && fed_track(all[a]) == Some(track)) by {
                    if a < rest.len() {
                        assert(all[a] == rest[a] && all[b] == rest[b]);
                    } else if a > rest.len() {
                        assert(all[a] == track_steps(p, i)[a - rest.len() - 1]);
                        if let RenderStep::LoadReceive { track } = all[b] {
                            let j = choose|j: int| 0 <= j < n && #[trigger] order[j] == track;
                            assert(order[j] <= order[n - 1]) by {
                                if j < n - 1 {
                                    assert(order[j] < order[n - 1]);
                                }
                            }
                        }
                    }
                }
            }
        } else if routing_order(p) {
            assert forall|k: int| #![trigger rest[k]] 0 <= k < rest.len() implies (
            rest[k] matches RenderStep::LoadReceive { track } ==> exists|j: int|
                0 <= j < n && #[trigger] order[j] == track) by {
                if let RenderStep::LoadReceive { track } = rest[k] {
                    let j = choose|j: int| 0 <= j < n - 1 && #[trigger] order[j] == track;
                    assert(order[j] == track);
                }
            }
        }
    }
}

/// What the first `n` routing tracks take in is their own feeds.
spec fn loads_within(p: RuntimeProject, n: nat) -> bool {
    let order = p.audio_graph.pass2_routing_indices@;
    let steps = routing_pass(p, n);
    forall|k: int|
        #![trigger steps[k]]
        0 <= k < steps.len() ==> (steps[k] matches RenderStep::LoadReceive { track } ==> exists|
            j: int,
        |
            0 <= j < n && #[trigger] order[j] == track)
}

proof fn lemma_audible_concat(p: RuntimeProject, a: Seq<RenderStep>, b: Seq<RenderStep>)
    requires
        only_audible(p, a),
        only_audible(p, b),
    ensures
        only_audible(p, a + b),
{
    let s = a + b;
    assert forall|k: int| #![trigger s[k]] 0 <= k < s.len() implies (step_track(
        s[k],
    ) matches Some(i) ==> track_sounds(p, i as int)) by {
        if k < a.len() {
            assert(s[k] == a[k]);
        } else {
            assert(s[k] == b[k - a.len()]);
        }
    }
}

/// A muted or solo-silenced track is never rendered: no step of a block takes
/// its clips, runs its chain or passes its signal on.
pub proof fn law_only_audible_tracks_are_rendered(
    p: RuntimeProject,
    base: int,
    frames: int,
    transport_active: bool,
    bounds: Option<LoopBounds>,
)
    requires
        p.well_formed(),
        p.tracks@.len() <= usize::MAX,
    ensures
        only_audible(p, block_steps(p, base, frames, transport_active, bounds)),
{
    let segments = transport::block_segments(base, frames, bounds);
    let start = seq![RenderStep::ClearOutput];
    let clear = clear_steps(p.tracks@.len());
    let clips = if transport_active {
        clip_steps(p, segments, p.clips@.len())
    } else {
        Seq::empty()
    };
    let sources = source_pass(p, p.audio_graph.pass1_source_indices@.len());
    let routing = routing_pass(p, p.audio_graph.pass2_routing_indices@.len());
    lemma_clip_steps(p, segments, p.clips@.len());
    lemma_source_pass(p, p.audio_graph.pass1_source_indices@.len());
    lemma_routing_pass(p, p.audio_graph.pass2_routing_indices@.len());
    lemma_audible_concat(p, start, clear);
    lemma_audible_concat(p, start + clear, clips);
    lemma_audible_concat(p, start + clear + clips, sources);
    lemma_audible_concat(p, start + clear + clips + sources, routing);
    lemma_audible_concat(p, start + clear + clips + sources + routing, master_pass(p));
    lemma_audible_concat(
        p,
        start + clear + clips + sources + routing + master_pass(p),
        seq![RenderStep::Limit],
    );
}

/// A routing track is processed only once everything that feeds it was added:
/// no step of a block feeds a routing track after its feeds were taken in.
pub proof fn law_feeds_precede_processing(
    p: RuntimeProject,
    base: int,
    frames: int,
    transport_active: bool,
    bounds: Option<LoopBounds>,
)
    requires
        p.well_formed(),
        p.tracks@.len() <= usize::MAX,
        routing_order(p),
    ensures
        feeds_come_first(block_steps(p, base, frames, transport_active, bounds)),
{
    let segments = transport::block_segments(base, frames, bounds);
    let clips = if transport_active {
        clip_steps(p, segments, p.clips@.len())
    } else {
        Seq::empty()
    };
    let sources = source_pass(p, p.audio_graph.pass1_source_indices@.len());
    let routing = routing_pass(p, p.audio_graph.pass2_routing_indices@.len());
    lemma_clip_steps(p, segments, p.clips@.len());
    lemma_source_pass(p, p.audio_graph.pass1_source_indices@.len());
    lemma_routing_pass(p, p.audio_graph.pass2_routing_indices@.len());
    let clear = seq![RenderStep::ClearOutput] + clear_steps(p.tracks@.len());
    let head = clear + clips + sources;
    let tail = master_pass(p) + seq![RenderStep::Limit];
    let all = block_steps(p, base, frames, transport_active, bounds);
    assert(all =~= head + routing + tail);
    assert forall|k: int| #![trigger head[k]] 0 <= k < head.len() implies !(
    head[k] is LoadReceive) by {
        if k < clear.len() {
            assert(head[k] == clear[k]);
        } else if k < clear.len() + clips.len() {
            assert(head[k] == clips[k - clear.len()]);
        } else {
            assert(head[k] == sources[k - clear.len() - clips.len()]);
        }
    }
    assert forall|a: int, b: int| #![trigger all[a], all[b]] 0 <= b < a < all.len() implies !(
    all[b] matches RenderStep::LoadReceive { track } && fed_track(all[a]) == Some(track)) by {
        if b < head.len() {
            assert(all[b] == head[b]);
        } else if a < head.len() + routing.len() {
            assert(all[a] == routing[a - head.len()]);
            assert(all[b] == routing[b - head.len()]);
        } else {
            assert(all[a] == tail[a - head.len() - routing.len()]);
        }
    }
}

/// While the transport is stopped no timeline clip sounds.
pub proof fn law_stopped_transport_plays_no_clip(
    p: RuntimeProject,
    base: int,
    frames: int,
    bounds: Option<LoopBounds>,
    k: int,
)
    requires
        p.well_formed(),
        p.tracks@.len() <= usize::MAX,
        0 <= k < block_steps(p, base, frames, false, bounds).len(),
    ensures
        !(block_steps(p, base, frames, false, bounds)[k] is Clip),
{
    let clear = seq![RenderStep::ClearOutput] + clear_steps(p.tracks@.len());
    let sources = source_pass(p, p.audio_graph.pass1_source_indices@.len());
    let routing = routing_pass(p, p.audio_graph.pass2_routing_indices@.len());
    let all = block_steps(p, base, frames, false, bounds);
    lemma_source_pass_no_clip(p, p.audio_graph.pass1_source_indices@.len());
    lemma_routing_pass_no_clip(p, p.audio_graph.pass2_routing_indices@.len());
    if k < clear.len() {
        assert(all[k] == clear[k]);
    } else if k < clear.len() + sources.len() {
        assert(all[k] == sources[k - clear.len()]);
    } else if k < clear.len() + sources.len() + routing.len() {
        assert(all[k] == routing[k - clear.len() - sources.len()]);
    }
}

pub(crate) proof fn lemma_track_steps_no_clip(p: RuntimeProject, i: int)
    ensures
        forall|k: int|
            #![trigger track_steps(p, i)[k]]
            0 <= k < track_steps(p, i).len() ==> !(track_steps(p, i)[k] is Clip),
{
    let tracks = p.tracks@;
    let n = tracks[i].sends@.len();
    lemma_send_steps(tracks, i, true, n);
    lemma_send_steps(tracks, i, false, n);
}

pub(crate) proof fn lemma_source_pass_no_clip(p: RuntimeProject, n: nat)
    ensures
        forall|k: int|
            #![trigger source_pass(p, n)[k]]
            0 <= k < source_pass(p, n).len() ==> !(source_pass(p, n)[k] is Clip),
    decreases n,
{
    if n > 0 {
        lemma_source_pass_no_clip(p, (n - 1) as nat);
        lemma_track_steps_no_clip(p, p.audio_graph.pass1_source_indices@[n - 1] as int);
    }
}

pub(crate) proof fn lemma_routing_pass_no_clip(p: RuntimeProject, n: nat)
    ensures
        forall|k: int|
            #![trigger routing_pass(p, n)[k]]
            0 <= k < routing_pass(p, n).len() ==> !(routing_pass(p, n)[k] is Clip),
    decreases n,
{
    if n > 0 {
        lemma_routing_pass_no_clip(p, (n - 1) as nat);
        lemma_track_steps_no_clip(p, p.audio_graph.pass2_routing_indices@[n - 1] as int);
    }
}

/// A frame of a segment takes material of a clip exactly when its timeline
/// sample lies in the clip, and takes it from its own place in the clip.
pub proof fn law_clip_sounds_exactly_in_its_range(
    clip: RuntimeClip,
    c: int,
    track: usize,
    segment: LoopSegment,
    j: int,
)
    requires
        0 <= j < segment.frames,
        segment.offset + segment.frames <= u64::MAX,
        segment.sample + segment.frames <= u64::MAX,
    ensures
        ({
            let sample = segment.sample + j;
            let sounds = clip.start_sample <= sample < clip_end(clip);
            match clip_piece(clip, c, track, segment) {
                Some(piece) => {
                    let place = segment.offset + j - piece.frame;
                    &&& sounds <==> 0 <= place < piece.frames
                    &&& sounds ==> piece.rel + place == sample - clip.start_sample
                },
                None => !sounds,
            }
        }),
{
}

} // verus!
