//! What a block plan promises, in terms of the tracks' own settings.

use vstd::prelude::*;

use crate::engine::render;
use crate::engine::render::RenderStep;
use crate::runtime::RuntimeClip;
use crate::runtime::RuntimeProject;
use crate::runtime::RuntimeTrack;
use crate::runtime::StretchBackend;
use crate::transport::LoopBounds;
use crate::transport::LoopSegment;

verus! {

// ── Settings ────────────────────────────────────────────────────────────────

/// Each track has one place in a block: among the sources, among the routing
/// tracks, or as the master.
pub open spec fn each_track_once(p: RuntimeProject) -> bool {
    let sources = p.audio_graph.pass1_source_indices@;
    let routing = p.audio_graph.pass2_routing_indices@;
    &&& forall|j: int, k: int|
        #![trigger sources[j], sources[k]]
        0 <= j < k < sources.len() ==> sources[j] != sources[k]
    &&& forall|j: int, k: int|
        #![trigger routing[j], routing[k]]
        0 <= j < k < routing.len() ==> routing[j] != routing[k]
    &&& forall|j: int, k: int|
        #![trigger sources[j], routing[k]]
        0 <= j < sources.len() && 0 <= k < routing.len() ==> sources[j] != routing[k]
    &&& p.audio_graph.master_index matches Some(m) ==> {
        &&& forall|j: int| #![trigger sources[j]] 0 <= j < sources.len() ==> sources[j] != m
        &&& forall|j: int| #![trigger routing[j]] 0 <= j < routing.len() ==> routing[j] != m
    }
}

/// A track that is switched off: its automation says so, or says nothing and
/// its own switch does.
pub open spec fn switched_off(track: RuntimeTrack) -> bool {
    track.automation_muted == Some(true) || (track.automation_muted is None && track.muted)
}

/// Some instrument that is soloed gives one of its outputs to track `i`.
pub open spec fn takes_from_soloed(tracks: Seq<RuntimeTrack>, i: int) -> bool {
    exists|q: int, x: int, y: int|
        #![trigger tracks[q].inserts@[x].vsti_output_children@[y]]
        0 <= q < tracks.len() && 0 <= x < tracks[q].inserts@.len() && 0 <= y
            < tracks[q].inserts@[x].vsti_output_children@.len() && tracks[q].solo
            && tracks[q].inserts@[x].vsti_output_children@[y].track_index == i
}

/// Some instrument gives one of its outputs to track `i`.
pub open spec fn takes_from_some(tracks: Seq<RuntimeTrack>, i: int) -> bool {
    exists|q: int, x: int, y: int|
        #![trigger tracks[q].inserts@[x].vsti_output_children@[y]]
        0 <= q < tracks.len() && 0 <= x < tracks[q].inserts@.len() && 0 <= y
            < tracks[q].inserts@[x].vsti_output_children@.len()
            && tracks[q].inserts@[x].vsti_output_children@[y].track_index == i
}

/// An instrument on track `i` gives one of its outputs to a soloed track.
pub open spec fn gives_to_soloed(tracks: Seq<RuntimeTrack>, i: int) -> bool {
    exists|x: int, y: int|
        #![trigger tracks[i].inserts@[x].vsti_output_children@[y]]
        0 <= x < tracks[i].inserts@.len() && 0 <= y
            < tracks[i].inserts@[x].vsti_output_children@.len()
            && tracks[i].inserts@[x].vsti_output_children@[y].track_index < tracks.len()
            && tracks[tracks[i].inserts@[x].vsti_output_children@[y].track_index as int].solo
}

/// Track `i` has a part in what is soloed: it is soloed itself, takes an output
/// of a soloed instrument, or gives one to a soloed track.
pub open spec fn part_of_solo(tracks: Seq<RuntimeTrack>, i: int) -> bool {
    tracks[i].solo || takes_from_soloed(tracks, i) || gives_to_soloed(tracks, i)
}

/// Track `i` stands among the sources.
pub open spec fn is_source(p: RuntimeProject, i: int) -> bool {
    exists|j: int|
        0 <= j < p.audio_graph.pass1_source_indices@.len()
            && #[trigger] p.audio_graph.pass1_source_indices@[j] == i
}

/// Track `i` stands among the routing tracks.
pub open spec fn is_routing(p: RuntimeProject, i: int) -> bool {
    exists|j: int|
        0 <= j < p.audio_graph.pass2_routing_indices@.len()
            && #[trigger] p.audio_graph.pass2_routing_indices@[j] == i
}

/// Source `i` is heard: it is not switched off, and has a part in what is
/// soloed, if anything is.
pub open spec fn source_heard(p: RuntimeProject, i: int) -> bool {
    &&& is_source(p, i)
    &&& !switched_off(p.tracks@[i])
    &&& !p.has_solo || part_of_solo(p.tracks@, i)
}

/// Routing track `i` is heard: it is not switched off, and a solo leaves it out
/// only where it is an output of an instrument without a part in the solo.
pub open spec fn routing_heard(p: RuntimeProject, i: int) -> bool {
    &&& is_routing(p, i)
    &&& !switched_off(p.tracks@[i])
    &&& !p.has_solo || !takes_from_some(p.tracks@, i) || part_of_solo(p.tracks@, i)
}

/// Track `i` belongs to `tracks` and is numbered by it.
pub open spec fn numbered(p: RuntimeProject, i: int) -> bool {
    0 <= i < p.tracks@.len() && p.tracks@.len() <= usize::MAX
}

/// No step of `steps` renders track `i`.
pub open spec fn leaves_out(steps: Seq<RenderStep>, i: int) -> bool {
    forall|k: int|
        #![trigger steps[k]]
        0 <= k < steps.len() ==> render::step_track(steps[k]) != Some(i as usize)
}

// ── From settings to audibility ─────────────────────────────────────────────

proof fn lemma_solo(tracks: Seq<RuntimeTrack>, i: int)
    requires
        0 <= i < tracks.len(),
    ensures
        render::solo_admits(tracks, i) == part_of_solo(tracks, i),
        render::has_parent(tracks, i) == takes_from_some(tracks, i),
        render::muted_now(tracks[i]) == switched_off(tracks[i]),
{
    if render::has_soloed_parent(tracks, i) {
        let q = choose|q: int|
            #![trigger tracks[q]]
            0 <= q < tracks.len() && tracks[q].solo && render::is_output_child(tracks[q], i);
        let (x, y) = choose|x: int, y: int|
            #![trigger tracks[q].inserts@[x].vsti_output_children@[y]]
            0 <= x < tracks[q].inserts@.len() && 0 <= y
                < tracks[q].inserts@[x].vsti_output_children@.len()
                && tracks[q].inserts@[x].vsti_output_children@[y].track_index == i;
        assert(tracks[q].inserts@[x].vsti_output_children@[y].track_index == i);
        assert(takes_from_soloed(tracks, i));
    }
    if takes_from_soloed(tracks, i) {
        let (q, x, y) = choose|q: int, x: int, y: int|
            #![trigger tracks[q].inserts@[x].vsti_output_children@[y]]
            0 <= q < tracks.len() && 0 <= x < tracks[q].inserts@.len() && 0 <= y
                < tracks[q].inserts@[x].vsti_output_children@.len() && tracks[q].solo
                && tracks[q].inserts@[x].vsti_output_children@[y].track_index == i;
        assert(render::is_output_child(tracks[q], i));
        assert(render::has_soloed_parent(tracks, i));
    }
    if render::has_parent(tracks, i) {
        let q = choose|q: int|
            #![trigger tracks[q]]
            0 <= q < tracks.len() && render::is_output_child(tracks[q], i);
        let (x, y) = choose|x: int, y: int|
            #![trigger tracks[q].inserts@[x].vsti_output_children@[y]]
            0 <= x < tracks[q].inserts@.len() && 0 <= y
                < tracks[q].inserts@[x].vsti_output_children@.len()
                && tracks[q].inserts@[x].vsti_output_children@[y].track_index == i;
        assert(tracks[q].inserts@[x].vsti_output_children@[y].track_index == i);
        assert(takes_from_some(tracks, i));
    }
    if takes_from_some(tracks, i) {
        let (q, x, y) = choose|q: int, x: int, y: int|
            #![trigger tracks[q].inserts@[x].vsti_output_children@[y]]
            0 <= q < tracks.len() && 0 <= x < tracks[q].inserts@.len() && 0 <= y
                < tracks[q].inserts@[x].vsti_output_children@.len()
                && tracks[q].inserts@[x].vsti_output_children@[y].track_index == i;
        assert(render::is_output_child(tracks[q], i));
        assert(render::has_parent(tracks, i));
    }
    if render::has_soloed_child(tracks, i) {
        let c = choose|c: int|
            #![trigger tracks[c]]
            0 <= c < tracks.len() && tracks[c].solo && render::is_output_child(tracks[i], c);
        let (x, y) = choose|x: int, y: int|
            #![trigger tracks[i].inserts@[x].vsti_output_children@[y]]
            0 <= x < tracks[i].inserts@.len() && 0 <= y
                < tracks[i].inserts@[x].vsti_output_children@.len()
                && tracks[i].inserts@[x].vsti_output_children@[y].track_index == c;
        assert(tracks[i].inserts@[x].vsti_output_children@[y].track_index == c);
        assert(gives_to_soloed(tracks, i));
    }
    if gives_to_soloed(tracks, i) {
        let (x, y) = choose|x: int, y: int|
            #![trigger tracks[i].inserts@[x].vsti_output_children@[y]]
            0 <= x < tracks[i].inserts@.len() && 0 <= y
                < tracks[i].inserts@[x].vsti_output_children@.len()
                && tracks[i].inserts@[x].vsti_output_children@[y].track_index < tracks.len()
                && tracks[tracks[i].inserts@[x].vsti_output_children@[y].track_index as int].solo;
        let c = tracks[i].inserts@[x].vsti_output_children@[y].track_index as int;
        assert(render::is_output_child(tracks[i], c));
        assert(tracks[c].solo);
        assert(render::has_soloed_child(tracks, i));
    }
}

// ── Parts of a block ────────────────────────────────────────────────────────

proof fn lemma_leaves_out_concat(a: Seq<RenderStep>, b: Seq<RenderStep>, i: int)
    requires
        leaves_out(a, i),
        leaves_out(b, i),
    ensures
        leaves_out(a + b, i),
{
    let s = a + b;
    assert forall|k: int| #![trigger s[k]] 0 <= k < s.len() implies render::step_track(s[k])
        != Some(i as usize) by {
        if k < a.len() {
            assert(s[k] == a[k]);
        } else {
            assert(s[k] == b[k - a.len()]);
        }
    }
}

proof fn lemma_other_track(p: RuntimeProject, t: int, i: int)
    requires
        numbered(p, i),
        numbered(p, t),
        t != i,
    ensures
        leaves_out(render::track_steps(p, t), i),
{
    render::lemma_track_steps(p, t);
}

/// The sources leave track `i` out where none of them is it, or where it is not
/// heard as a source.
proof fn lemma_sources_without(p: RuntimeProject, n: nat, i: int)
    requires
        p.well_formed(),
        numbered(p, i),
        n <= p.audio_graph.pass1_source_indices@.len(),
        (forall|j: int|
            0 <= j < n ==> #[trigger] p.audio_graph.pass1_source_indices@[j] != i)
            || !render::source_sounds(p.tracks@, p.has_solo, i),
    ensures
        leaves_out(render::source_pass(p, n), i),
    decreases n,
{
    if n > 0 {
        lemma_sources_without(p, (n - 1) as nat, i);
        let t = p.audio_graph.pass1_source_indices@[n - 1] as int;
        if render::source_sounds(p.tracks@, p.has_solo, t) {
            lemma_other_track(p, t, i);
            lemma_leaves_out_concat(
                render::source_pass(p, (n - 1) as nat),
                render::track_steps(p, t),
                i,
            );
        }
    }
}

proof fn lemma_routing_without(p: RuntimeProject, n: nat, i: int)
    requires
        p.well_formed(),
        numbered(p, i),
        n <= p.audio_graph.pass2_routing_indices@.len(),
        (forall|j: int|
            0 <= j < n ==> #[trigger] p.audio_graph.pass2_routing_indices@[j] != i)
            || !render::routing_sounds(p.tracks@, p.has_solo, i),
    ensures
        leaves_out(render::routing_pass(p, n), i),
    decreases n,
{
    if n > 0 {
        lemma_routing_without(p, (n - 1) as nat, i);
        let t = p.audio_graph.pass2_routing_indices@[n - 1] as int;
        if render::routing_sounds(p.tracks@, p.has_solo, t) {
            lemma_other_track(p, t, i);
            let load = seq![RenderStep::LoadReceive { track: t as usize }];
            lemma_leaves_out_concat(load, render::track_steps(p, t), i);
            lemma_leaves_out_concat(
                render::routing_pass(p, (n - 1) as nat),
                load + render::track_steps(p, t),
                i,
            );
        }
    }
}

proof fn lemma_clips_without(
    p: RuntimeProject,
    segments: Seq<LoopSegment>,
    n: nat,
    i: int,
)
    requires
        numbered(p, i),
        n <= p.clips@.len(),
        !render::source_sounds(p.tracks@, p.has_solo, i),
    ensures
        leaves_out(render::clip_steps(p, segments, n), i),
    decreases n,
{
    if n > 0 {
        lemma_clips_without(p, segments, (n - 1) as nat, i);
        if let Some(track) = render::clip_track(p, n - 1) {
            let more = render::clip_segment_steps(
                p.clips@[n - 1],
                n - 1,
                track,
                segments,
                segments.len(),
            );
            render::lemma_clip_segment_steps(
                p.clips@[n - 1],
                n - 1,
                track,
                segments,
                segments.len(),
            );
            assert(leaves_out(more, i));
            lemma_leaves_out_concat(
                render::clip_steps(p, segments, (n - 1) as nat),
                more,
                i,
            );
        }
    }
}

/// The clips of a block, as its plan has them.
spec fn block_clips(
    p: RuntimeProject,
    base: int,
    frames: int,
    transport_active: bool,
    bounds: Option<LoopBounds>,
) -> Seq<RenderStep> {
    if transport_active {
        render::clip_steps(
            p,
            crate::transport::block_segments(base, frames, bounds),
            p.clips@.len(),
        )
    } else {
        Seq::empty()
    }
}

spec fn block_head(p: RuntimeProject) -> Seq<RenderStep> {
    seq![RenderStep::ClearOutput] + render::clear_steps(p.tracks@.len())
}

spec fn block_sources(p: RuntimeProject) -> Seq<RenderStep> {
    render::source_pass(p, p.audio_graph.pass1_source_indices@.len())
}

spec fn block_routing(p: RuntimeProject) -> Seq<RenderStep> {
    render::routing_pass(p, p.audio_graph.pass2_routing_indices@.len())
}

spec fn block_end(p: RuntimeProject) -> Seq<RenderStep> {
    render::master_pass(p) + seq![RenderStep::Limit]
}

proof fn lemma_block_parts(
    p: RuntimeProject,
    base: int,
    frames: int,
    transport_active: bool,
    bounds: Option<LoopBounds>,
)
    ensures
        render::block_steps(p, base, frames, transport_active, bounds) == block_head(p)
            + block_clips(p, base, frames, transport_active, bounds) + block_sources(p)
            + block_routing(p) + block_end(p),
{
    assert(render::block_steps(p, base, frames, transport_active, bounds) =~= block_head(p)
        + block_clips(p, base, frames, transport_active, bounds) + block_sources(p)
        + block_routing(p) + block_end(p));
}

/// A track that is not heard in any place has no step.
proof fn lemma_unheard(
    p: RuntimeProject,
    base: int,
    frames: int,
    transport_active: bool,
    bounds: Option<LoopBounds>,
    i: int,
)
    requires
        p.well_formed(),
        numbered(p, i),
        !render::source_sounds(p.tracks@, p.has_solo, i),
        !is_routing(p, i) || !render::routing_sounds(p.tracks@, p.has_solo, i),
        p.audio_graph.master_index != Some(i as usize) || !render::master_sounds(
            p.tracks@,
            p.has_solo,
            i,
        ),
    ensures
        leaves_out(render::block_steps(p, base, frames, transport_active, bounds), i),
{
    let segments = crate::transport::block_segments(base, frames, bounds);
    lemma_block_parts(p, base, frames, transport_active, bounds);
    lemma_clips_without(p, segments, p.clips@.len(), i);
    lemma_sources_without(p, p.audio_graph.pass1_source_indices@.len(), i);
    lemma_routing_without(p, p.audio_graph.pass2_routing_indices@.len(), i);
    let clips = block_clips(p, base, frames, transport_active, bounds);
    lemma_leaves_out_concat(block_head(p), clips, i);
    lemma_leaves_out_concat(block_head(p) + clips, block_sources(p), i);
    lemma_leaves_out_concat(
        block_head(p) + clips + block_sources(p),
        block_routing(p),
        i,
    );
    lemma_leaves_out_concat(
        block_head(p) + clips + block_sources(p) + block_routing(p),
        block_end(p),
        i,
    );
}

// ── Mute and solo ───────────────────────────────────────────────────────────

/// A track that is switched off, by its automation or, where that says nothing,
/// by its own switch, has no step in a block: none of its clips is read, its
/// inserts do not run, and nothing of it is passed on.
pub proof fn law_switched_off_track_has_no_step(
    p: RuntimeProject,
    base: int,
    frames: int,
    transport_active: bool,
    bounds: Option<LoopBounds>,
    i: int,
)
    requires
        p.well_formed(),
        numbered(p, i),
        switched_off(p.tracks@[i]),
    ensures
        leaves_out(render::block_steps(p, base, frames, transport_active, bounds), i),
{
    lemma_solo(p.tracks@, i);
    lemma_unheard(p, base, frames, transport_active, bounds, i);
}

/// While anything is soloed, a source without a part in it has no step in a
/// block: it is not soloed, takes no output of a soloed instrument, and gives
/// none to a soloed track.
pub proof fn law_solo_leaves_out_other_sources(
    p: RuntimeProject,
    base: int,
    frames: int,
    transport_active: bool,
    bounds: Option<LoopBounds>,
    i: int,
)
    requires
        p.well_formed(),
        numbered(p, i),
        p.has_solo,
        !p.tracks@[i].solo,
        !takes_from_soloed(p.tracks@, i),
        !gives_to_soloed(p.tracks@, i),
        !is_routing(p, i),
    ensures
        leaves_out(render::block_steps(p, base, frames, transport_active, bounds), i),
{
    lemma_solo(p.tracks@, i);
    lemma_unheard(p, base, frames, transport_active, bounds, i);
}

/// While anything is soloed, the separate output of an instrument has no step
/// in a block unless it has a part in the solo.
pub proof fn law_solo_leaves_out_other_outputs(
    p: RuntimeProject,
    base: int,
    frames: int,
    transport_active: bool,
    bounds: Option<LoopBounds>,
    i: int,
)
    requires
        p.well_formed(),
        numbered(p, i),
        p.has_solo,
        takes_from_some(p.tracks@, i),
        !p.tracks@[i].solo,
        !takes_from_soloed(p.tracks@, i),
        !gives_to_soloed(p.tracks@, i),
    ensures
        leaves_out(render::block_steps(p, base, frames, transport_active, bounds), i),
{
    lemma_solo(p.tracks@, i);
    lemma_unheard(p, base, frames, transport_active, bounds, i);
}

// ── A heard track ───────────────────────────────────────────────────────────

/// Where the steps of one track stand in a block.
#[verifier::ext_equal]
pub struct TrackPlace {
    /// The steps before those of the track.
    pub before: Seq<RenderStep>,
    /// The steps after them.
    pub after: Seq<RenderStep>,
}

proof fn lemma_source_split(p: RuntimeProject, n: nat, j: int) -> (at: TrackPlace)
    requires
        p.well_formed(),
        p.tracks@.len() <= usize::MAX,
        each_track_once(p),
        0 <= j < n <= p.audio_graph.pass1_source_indices@.len(),
        render::source_sounds(
            p.tracks@,
            p.has_solo,
            p.audio_graph.pass1_source_indices@[j] as int,
        ),
    ensures
        ({
            let i = p.audio_graph.pass1_source_indices@[j] as int;
            &&& render::source_pass(p, n) == at.before + render::track_steps(p, i) + at.after
            &&& leaves_out(at.before, i)
            &&& leaves_out(at.after, i)
        }),
    decreases n,
{
    let order = p.audio_graph.pass1_source_indices@;
    let i = order[j] as int;
    if j == n - 1 {
        lemma_sources_without(p, (n - 1) as nat, i);
        let at = TrackPlace {
            before: render::source_pass(p, (n - 1) as nat),
            after: Seq::empty(),
        };
        assert(render::source_pass(p, n) =~= at.before + render::track_steps(p, i) + at.after);
        at
    } else {
        let rest = lemma_source_split(p, (n - 1) as nat, j);
        let t = order[n - 1] as int;
        let own = render::track_steps(p, i);
        if render::source_sounds(p.tracks@, p.has_solo, t) {
            let more = render::track_steps(p, t);
            assert(order[j] != order[n - 1]);
            lemma_other_track(p, t, i);
            lemma_leaves_out_concat(rest.after, more, i);
            let at = TrackPlace { before: rest.before, after: rest.after + more };
            assert(render::source_pass(p, n) =~= at.before + own + at.after);
            at
        } else {
            rest
        }
    }
}

proof fn lemma_routing_split(p: RuntimeProject, n: nat, j: int) -> (at: TrackPlace)
    requires
        p.well_formed(),
        p.tracks@.len() <= usize::MAX,
        each_track_once(p),
        0 <= j < n <= p.audio_graph.pass2_routing_indices@.len(),
        render::routing_sounds(
            p.tracks@,
            p.has_solo,
            p.audio_graph.pass2_routing_indices@[j] as int,
        ),
    ensures
        ({
            let i = p.audio_graph.pass2_routing_indices@[j] as int;
            &&& render::routing_pass(p, n) == at.before + (seq![
                RenderStep::LoadReceive { track: i as usize },
            ] + render::track_steps(p, i)) + at.after
            &&& leaves_out(at.before, i)
            &&& leaves_out(at.after, i)
        }),
    decreases n,
{
    let order = p.audio_graph.pass2_routing_indices@;
    let i = order[j] as int;
    let own = seq![RenderStep::LoadReceive { track: i as usize }] + render::track_steps(p, i);
    if j == n - 1 {
        lemma_routing_without(p, (n - 1) as nat, i);
        let at = TrackPlace {
            before: render::routing_pass(p, (n - 1) as nat),
            after: Seq::empty(),
        };
        assert(render::routing_pass(p, n) =~= at.before + own + at.after);
        at
    } else {
        let rest = lemma_routing_split(p, (n - 1) as nat, j);
        let t = order[n - 1] as int;
        if render::routing_sounds(p.tracks@, p.has_solo, t) {
            let load = seq![RenderStep::LoadReceive { track: t as usize }];
            let more = load + render::track_steps(p, t);
            assert(order[j] != order[n - 1]);
            lemma_other_track(p, t, i);
            lemma_leaves_out_concat(load, render::track_steps(p, t), i);
            lemma_leaves_out_concat(rest.after, more, i);
            let at = TrackPlace { before: rest.before, after: rest.after + more };
            assert(render::routing_pass(p, n) =~= at.before + own + at.after);
            at
        } else {
            rest
        }
    }
}

/// No step of `steps` but a clip renders track `i`.
spec fn only_clips_of(steps: Seq<RenderStep>, i: int) -> bool {
    forall|k: int|
        #![trigger steps[k]]
        0 <= k < steps.len() ==> (render::step_track(steps[k]) == Some(i as usize)
            ==> steps[k] is Clip)
}

proof fn lemma_only_clips_concat(a: Seq<RenderStep>, b: Seq<RenderStep>, i: int)
    requires
        only_clips_of(a, i),
        only_clips_of(b, i),
    ensures
        only_clips_of(a + b, i),
{
    let s = a + b;
    assert forall|k: int|
        #![trigger s[k]]
        0 <= k < s.len() && render::step_track(s[k]) == Some(i as usize) implies s[k] is Clip by {
        if k < a.len() {
            assert(s[k] == a[k]);
        } else {
            assert(s[k] == b[k - a.len()]);
        }
    }
}

/// A heard source or routing track's steps stand together in a block; before
/// them only its clips are read, and nothing of it comes after them.
proof fn lemma_heard_split(
    p: RuntimeProject,
    base: int,
    frames: int,
    transport_active: bool,
    bounds: Option<LoopBounds>,
    i: int,
) -> (at: TrackPlace)
    requires
        p.well_formed(),
        numbered(p, i),
        each_track_once(p),
        source_heard(p, i) || routing_heard(p, i),
    ensures
        ({
            let own = if source_heard(p, i) {
                render::track_steps(p, i)
            } else {
                seq![RenderStep::LoadReceive { track: i as usize }] + render::track_steps(p, i)
            };
            &&& render::block_steps(p, base, frames, transport_active, bounds) == at.before + own
                + at.after
            &&& only_clips_of(at.before, i)
            &&& leaves_out(at.after, i)
        }),
{
    let segments = crate::transport::block_segments(base, frames, bounds);
    let sources = p.audio_graph.pass1_source_indices@;
    let routing = p.audio_graph.pass2_routing_indices@;
    lemma_solo(p.tracks@, i);
    lemma_block_parts(p, base, frames, transport_active, bounds);
    let clips = block_clips(p, base, frames, transport_active, bounds);
    render::lemma_clip_steps(p, segments, p.clips@.len());
    assert(only_clips_of(block_head(p), i));
    assert(only_clips_of(clips, i));
    lemma_only_clips_concat(block_head(p), clips, i);
    assert(leaves_out(block_end(p), i)) by {
        if let Some(m) = p.audio_graph.master_index {
            assert(m != i) by {
                if source_heard(p, i) {
                    let j = choose|j: int| 0 <= j < sources.len() && #[trigger] sources[j] == i;
                    assert(sources[j] != m);
                } else {
                    let j = choose|j: int| 0 <= j < routing.len() && #[trigger] routing[j] == i;
                    assert(routing[j] != m);
                }
            }
        }
    }
    if source_heard(p, i) {
        let j = choose|j: int| 0 <= j < sources.len() && #[trigger] sources[j] == i;
        let part = lemma_source_split(p, sources.len(), j);
        let own = render::track_steps(p, i);
        assert forall|k: int| 0 <= k < routing.len() implies #[trigger] routing[k] != i by {
            assert(sources[j] != routing[k]);
        }
        lemma_routing_without(p, routing.len(), i);
        lemma_leaves_out_concat(part.after, block_routing(p), i);
        lemma_leaves_out_concat(part.after + block_routing(p), block_end(p), i);
        assert(only_clips_of(part.before, i));
        lemma_only_clips_concat(block_head(p) + clips, part.before, i);
        let at = TrackPlace {
            before: block_head(p) + clips + part.before,
            after: part.after + block_routing(p) + block_end(p),
        };
        assert(render::block_steps(p, base, frames, transport_active, bounds) =~= at.before + own
            + at.after);
        at
    } else {
        let j = choose|j: int| 0 <= j < routing.len() && #[trigger] routing[j] == i;
        let part = lemma_routing_split(p, routing.len(), j);
        let own = seq![RenderStep::LoadReceive { track: i as usize }] + render::track_steps(p, i);
        assert forall|k: int| 0 <= k < sources.len() implies #[trigger] sources[k] != i by {
            assert(sources[k] != routing[j]);
        }
        lemma_sources_without(p, sources.len(), i);
        lemma_leaves_out_concat(part.after, block_end(p), i);
        assert(only_clips_of(block_sources(p), i));
        assert(only_clips_of(part.before, i));
        lemma_only_clips_concat(block_head(p) + clips, block_sources(p), i);
        lemma_only_clips_concat(block_head(p) + clips + block_sources(p), part.before, i);
        let at = TrackPlace {
            before: block_head(p) + clips + block_sources(p) + part.before,
            after: part.after + block_end(p),
        };
        assert(render::block_steps(p, base, frames, transport_active, bounds) =~= at.before + own
            + at.after);
        at
    }
}

/// Where the main steps of a heard track stand in a block.
pub struct TrackSteps {
    pub chain: int,
    pub fader: int,
    pub meter: int,
    pub main: int,
}

/// Whether a step takes a track's signal on to a bus or to the master.
pub open spec fn is_main_of(step: RenderStep, i: int) -> bool {
    match step {
        RenderStep::MainToBus { source, target } => source == i,
        RenderStep::MainToMaster { source } => source == i,
        _ => false,
    }
}

/// Whether a step is a send of track `i`.
pub open spec fn is_send_of(step: RenderStep, i: int) -> bool {
    step matches RenderStep::Send { source, send, target } && source == i
}

/// The steps of one track, taken apart.
spec fn own_parts(p: RuntimeProject, i: int) -> TrackSteps {
    let n = p.tracks@[i].sends@.len();
    let fader = 1 + render::send_steps(p.tracks@, i, true, n).len();
    let meter = render::track_steps(p, i).len() - 2 - render::send_steps(
        p.tracks@,
        i,
        false,
        n,
    ).len();
    TrackSteps {
        chain: 0,
        fader: fader as int,
        meter,
        main: render::track_steps(p, i).len() - 1,
    }
}

proof fn lemma_own_steps(p: RuntimeProject, i: int)
    requires
        numbered(p, i),
    ensures
        ({
            let own = render::track_steps(p, i);
            let at = own_parts(p, i);
            let d = render::planned_delay(p, i);
            &&& 0 == at.chain < at.fader < at.meter < at.main == own.len() - 1
            &&& own[at.chain] == RenderStep::Chain { track: i as usize }
            &&& own[at.fader] == RenderStep::Fader { track: i as usize }
            &&& own[at.meter] == RenderStep::Meter { track: i as usize }
            &&& own[at.main] == render::main_step(p.tracks@, i)
            &&& d > 0 ==> at.meter == at.fader + 2 && own[at.fader + 1] == RenderStep::Delay {
                track: i as usize,
                samples: d,
            }
            &&& d == 0 ==> at.meter == at.fader + 1
            &&& own.subrange(1, at.fader) == render::send_steps(
                p.tracks@,
                i,
                true,
                p.tracks@[i].sends@.len(),
            )
            &&& own.subrange(at.meter + 1, at.main) == render::send_steps(
                p.tracks@,
                i,
                false,
                p.tracks@[i].sends@.len(),
            )
            &&& forall|k: int|
                #![trigger own[k]]
                (1 <= k < at.fader || at.meter < k < at.main) ==> is_send_of(own[k], i)
        }),
{
    let n = p.tracks@[i].sends@.len();
    let own = render::track_steps(p, i);
    let at = own_parts(p, i);
    let pre = render::send_steps(p.tracks@, i, true, n);
    let post = render::send_steps(p.tracks@, i, false, n);
    render::lemma_send_steps(p.tracks@, i, true, n);
    render::lemma_send_steps(p.tracks@, i, false, n);
    assert(own.subrange(1, at.fader) =~= pre);
    assert(own.subrange(at.meter + 1, at.main) =~= post);
    assert forall|k: int|
        #![trigger own[k]]
        (1 <= k < at.fader || at.meter < k < at.main) implies is_send_of(own[k], i) by {
        if k < at.fader {
            assert(own[k] == pre[k - 1]);
        } else {
            assert(own[k] == post[k - at.meter - 1]);
        }
    }
}

/// A heard track is processed once, and in this order: its clips are read, its
/// inserts run, its fader is applied, it is metered, and its signal is taken
/// on. Its sends are taken between its inserts and its main output.
#[verifier::rlimit(60)]
#[verifier::spinoff_prover]
pub proof fn law_heard_track_is_processed_once(
    p: RuntimeProject,
    base: int,
    frames: int,
    transport_active: bool,
    bounds: Option<LoopBounds>,
    i: int,
) -> (at: TrackSteps)
    requires
        p.well_formed(),
        numbered(p, i),
        each_track_once(p),
        source_heard(p, i) || routing_heard(p, i),
    ensures
        ({
            let steps = render::block_steps(p, base, frames, transport_active, bounds);
            let track = i as usize;
            &&& 0 <= at.chain < at.fader < at.meter < at.main < steps.len()
            &&& steps[at.chain] == RenderStep::Chain { track }
            &&& steps[at.fader] == RenderStep::Fader { track }
            &&& steps[at.meter] == RenderStep::Meter { track }
            &&& is_main_of(steps[at.main], i)
            &&& forall|k: int|
                #![trigger steps[k]]
                0 <= k < steps.len() ==> {
                    &&& steps[k] == (RenderStep::Chain { track }) ==> k == at.chain
                    &&& steps[k] == (RenderStep::Fader { track }) ==> k == at.fader
                    &&& steps[k] == (RenderStep::Meter { track }) ==> k == at.meter
                    &&& is_main_of(steps[k], i) ==> k == at.main
                    &&& is_send_of(steps[k], i) ==> at.chain < k < at.main
                    &&& (steps[k] matches RenderStep::Clip { piece } && piece.track == i) ==> k
                        < at.chain
                }
            &&& routing_heard(p, i) ==> at.chain > 0 && steps[at.chain - 1]
                == RenderStep::LoadReceive { track }
        }),
{
    let steps = render::block_steps(p, base, frames, transport_active, bounds);
    let place = lemma_heard_split(p, base, frames, transport_active, bounds, i);
    lemma_own_steps(p, i);
    render::lemma_track_steps(p, i);
    render::lemma_track_steps_no_clip(p, i);
    let tracks = render::track_steps(p, i);
    let first: int = if source_heard(p, i) {
        place.before.len() as int
    } else {
        place.before.len() as int + 1
    };
    let parts = own_parts(p, i);
    let at = TrackSteps {
        chain: first,
        fader: first + parts.fader,
        meter: first + parts.meter,
        main: first + parts.main,
    };
    assert(source_heard(p, i) ==> !routing_heard(p, i)) by {
        let sources = p.audio_graph.pass1_source_indices@;
        let routing = p.audio_graph.pass2_routing_indices@;
        if source_heard(p, i) && routing_heard(p, i) {
            let j = choose|j: int| 0 <= j < sources.len() && #[trigger] sources[j] == i;
            let k = choose|k: int| 0 <= k < routing.len() && #[trigger] routing[k] == i;
            assert(sources[j] != routing[k]);
        }
    }
    assert forall|k: int| 0 <= k < tracks.len() implies #[trigger] steps[first + k]
        == tracks[k] by {}
    assert(steps[at.chain] == tracks[parts.chain]);
    assert(steps[at.fader] == tracks[parts.fader]);
    assert(steps[at.meter] == tracks[parts.meter]);
    assert(steps[at.main] == tracks[parts.main]);
    assert forall|k: int| #![trigger steps[k]] 0 <= k < steps.len() implies {
        let track = i as usize;
        &&& steps[k] == (RenderStep::Chain { track }) ==> k == at.chain
        &&& steps[k] == (RenderStep::Fader { track }) ==> k == at.fader
        &&& steps[k] == (RenderStep::Meter { track }) ==> k == at.meter
        &&& is_main_of(steps[k], i) ==> k == at.main
        &&& is_send_of(steps[k], i) ==> at.chain < k < at.main
        &&& (steps[k] matches RenderStep::Clip { piece } && piece.track == i) ==> k < at.chain
    } by {
        if k < place.before.len() {
            assert(steps[k] == place.before[k]);
        } else if k < first {
            assert(steps[k] == RenderStep::LoadReceive { track: i as usize });
        } else if k < first + tracks.len() {
            assert(steps[k] == tracks[k - first]);
        } else {
            assert(steps[k] == place.after[k - first - tracks.len()]);
        }
    }
    at
}

/// Plug-in delay is compensated in every block: the signal of a heard track
/// whose delay is `d` is delayed by exactly `d` samples, once, after its inserts
/// and its fader and before it is metered and taken on; a track without a delay
/// is not delayed at all.
#[verifier::rlimit(60)]
#[verifier::spinoff_prover]
pub proof fn law_heard_track_is_delayed_by_its_compensation(
    p: RuntimeProject,
    base: int,
    frames: int,
    transport_active: bool,
    bounds: Option<LoopBounds>,
    i: int,
    d: u32,
    k: int,
) -> (at: TrackSteps)
    requires
        p.well_formed(),
        numbered(p, i),
        each_track_once(p),
        source_heard(p, i) || routing_heard(p, i),
        i < p.latency_graph.track_pdc_delay@.len(),
        d == p.latency_graph.track_pdc_delay@[i],
    ensures
        ({
            let steps = render::block_steps(p, base, frames, transport_active, bounds);
            let track = i as usize;
            &&& 0 <= at.chain < at.fader < at.meter < at.main < steps.len()
            &&& steps[at.chain] == RenderStep::Chain { track }
            &&& steps[at.fader] == RenderStep::Fader { track }
            &&& steps[at.meter] == RenderStep::Meter { track }
            &&& is_main_of(steps[at.main], i)
            &&& d > 0 ==> at.fader + 1 < at.meter && steps[at.fader + 1] == RenderStep::Delay {
                track,
                samples: d,
            }
            &&& 0 <= k < steps.len() && (steps[k] matches RenderStep::Delay { track: t, samples }
                && t == i) ==> d > 0 && k == at.fader + 1
        }),
{
    let steps = render::block_steps(p, base, frames, transport_active, bounds);
    let at = law_heard_track_is_processed_once(p, base, frames, transport_active, bounds, i);
    let place = lemma_heard_split(p, base, frames, transport_active, bounds, i);
    lemma_own_steps(p, i);
    let tracks = render::track_steps(p, i);
    let first: int = if source_heard(p, i) {
        place.before.len() as int
    } else {
        place.before.len() as int + 1
    };
    let parts = own_parts(p, i);
    assert forall|m: int| 0 <= m < tracks.len() implies #[trigger] steps[first + m]
        == tracks[m] by {}
    assert(steps[first + parts.chain] == tracks[parts.chain]);
    assert(steps[first + parts.fader] == tracks[parts.fader]);
    assert(steps[first + parts.meter] == tracks[parts.meter]);
    assert(at.chain == first && at.fader == first + parts.fader && at.meter == first
        + parts.meter);
    if d > 0 {
        assert(steps[first + (parts.fader + 1)] == tracks[parts.fader + 1]);
    }
    if 0 <= k < steps.len() {
        if let RenderStep::Delay { track: t, samples } = steps[k] {
            if t == i {
                if k < place.before.len() {
                    assert(steps[k] == place.before[k]);
                } else if k < first {
                    assert(steps[k] == RenderStep::LoadReceive { track: i as usize });
                } else if k < first + tracks.len() {
                    assert(steps[k] == tracks[k - first]);
                } else {
                    assert(steps[k] == place.after[k - first - tracks.len()]);
                }
            }
        }
    }
    at
}

// ── Where signals go ────────────────────────────────────────────────────────

/// A track that takes feeds: a bus, a return or a group.
pub open spec fn takes_feeds(track: RuntimeTrack) -> bool {
    track.track_type@ == "bus"@ || track.track_type@ == "return"@ || track.track_type@ == "group"@
}

/// Track `i` can feed track `t`: `t` is another track that takes feeds, and,
/// where `i` takes feeds too, one that comes later.
pub open spec fn can_feed(tracks: Seq<RuntimeTrack>, i: int, t: int) -> bool {
    &&& 0 <= t < tracks.len()
    &&& t != i
    &&& takes_feeds(tracks[t])
    &&& !takes_feeds(tracks[i]) || i < t
}

proof fn lemma_can_feed(tracks: Seq<RuntimeTrack>, i: int, t: int)
    ensures
        can_feed(tracks, i, t) == render::may_feed(tracks, i, t),
{
}

/// A heard track's main output goes to the track that it names, where it can
/// feed that one, and to the master sum otherwise.
pub proof fn law_main_output_goes_where_it_is_routed(
    p: RuntimeProject,
    base: int,
    frames: int,
    transport_active: bool,
    bounds: Option<LoopBounds>,
    i: int,
) -> (at: int)
    requires
        p.well_formed(),
        numbered(p, i),
        each_track_once(p),
        source_heard(p, i) || routing_heard(p, i),
    ensures
        ({
            let steps = render::block_steps(p, base, frames, transport_active, bounds);
            &&& 0 <= at < steps.len()
            &&& (p.tracks@[i].output_track_index matches Some(t) && can_feed(
                p.tracks@,
                i,
                t as int,
            )) ==> steps[at] == (RenderStep::MainToBus {
                source: i as usize,
                target: p.tracks@[i].output_track_index->0,
            })
            &&& !(p.tracks@[i].output_track_index matches Some(t) && can_feed(
                p.tracks@,
                i,
                t as int,
            )) ==> steps[at] == (RenderStep::MainToMaster { source: i as usize })
            &&& forall|k: int|
                #![trigger steps[k]]
                0 <= k < steps.len() && is_main_of(steps[k], i) ==> k == at
        }),
{
    let steps = render::block_steps(p, base, frames, transport_active, bounds);
    let at = law_heard_track_is_processed_once(p, base, frames, transport_active, bounds, i);
    let place = lemma_heard_split(p, base, frames, transport_active, bounds, i);
    lemma_own_steps(p, i);
    let tracks = render::track_steps(p, i);
    let first: int = if source_heard(p, i) {
        place.before.len() as int
    } else {
        place.before.len() as int + 1
    };
    let main = first + tracks.len() - 1;
    assert(steps[main] == tracks[tracks.len() - 1]);
    assert(steps[main] == render::main_step(p.tracks@, i));
    assert(is_main_of(steps[main], i));
    assert(main == at.main);
    if let Some(t) = p.tracks@[i].output_track_index {
        lemma_can_feed(p.tracks@, i, t as int);
    }
    main
}

/// Whether send `s` of track `i` goes to track `t`: it is switched on, its level
/// is not zero, and `i` can feed the track that it names.
pub open spec fn send_goes_to(tracks: Seq<RuntimeTrack>, i: int, s: int, t: usize) -> bool {
    let send = tracks[i].sends@[s];
    &&& send.enabled
    &&& send.level_bits != 0 && send.level_bits != 0x8000_0000
    &&& send.return_track_index == Some(t)
    &&& can_feed(tracks, i, t as int)
}

/// The first `n` sends of a track, of one phase, are listed in order, each that
/// goes somewhere once.
proof fn lemma_sends_listed(tracks: Seq<RuntimeTrack>, i: int, pre: bool, n: nat)
    requires
        0 <= i < tracks.len() <= usize::MAX,
        n <= tracks[i].sends@.len(),
        tracks[i].sends@.len() <= usize::MAX,
    ensures
        ({
            let list = render::send_steps(tracks, i, pre, n);
            &&& forall|k: int|
                #![trigger list[k]]
                0 <= k < list.len() ==> (list[k] matches RenderStep::Send { source, send, target }
                    && source == i && send < n && tracks[i].sends@[send as int].pre_fader == pre
                    && send_goes_to(tracks, i, send as int, target))
            &&& forall|s: int, t: usize|
                0 <= s < n && tracks[i].sends@[s].pre_fader == pre && #[trigger] send_goes_to(
                    tracks,
                    i,
                    s,
                    t,
                ) ==> exists|k: int|
                    0 <= k < list.len() && #[trigger] list[k] == (RenderStep::Send {
                        source: i as usize,
                        send: s as usize,
                        target: t,
                    })
            &&& forall|j: int, k: int|
                #![trigger list[j], list[k]]
                0 <= j < k < list.len() ==> list[j]->send < list[k]->send
        }),
    decreases n,
{
    if n > 0 {
        lemma_sends_listed(tracks, i, pre, (n - 1) as nat);
        let rest = render::send_steps(tracks, i, pre, (n - 1) as nat);
        let list = render::send_steps(tracks, i, pre, n);
        let send = tracks[i].sends@[n - 1];
        if let Some(t) = send.return_track_index {
            lemma_can_feed(tracks, i, t as int);
        }
        assert forall|s: int, t: usize|
            0 <= s < n && tracks[i].sends@[s].pre_fader == pre && #[trigger] send_goes_to(
                tracks,
                i,
                s,
                t,
            ) implies exists|k: int|
            0 <= k < list.len() && #[trigger] list[k] == (RenderStep::Send {
                source: i as usize,
                send: s as usize,
                target: t,
            }) by {
            if s < n - 1 {
                let k = choose|k: int|
                    0 <= k < rest.len() && #[trigger] rest[k] == (RenderStep::Send {
                        source: i as usize,
                        send: s as usize,
                        target: t,
                    });
                assert(list[k] == rest[k]);
            } else {
                lemma_can_feed(tracks, i, t as int);
                assert(list[list.len() - 1] == (RenderStep::Send {
                    source: i as usize,
                    send: s as usize,
                    target: t,
                }));
            }
        }
    }
}

/// The sends of a track that are taken, of one phase.
#[verifier::opaque]
spec fn sends_of(p: RuntimeProject, i: int, pre: bool) -> Seq<RenderStep> {
    render::send_steps(p.tracks@, i, pre, p.tracks@[i].sends@.len())
}

proof fn lemma_sends_of(p: RuntimeProject, i: int, pre: bool)
    requires
        numbered(p, i),
        p.tracks@[i].sends@.len() <= usize::MAX,
    ensures
        ({
            let list = sends_of(p, i, pre);
            &&& forall|k: int|
                #![trigger list[k]]
                0 <= k < list.len() ==> (list[k] matches RenderStep::Send { source, send, target }
                    && source == i && send < p.tracks@[i].sends@.len()
                    && p.tracks@[i].sends@[send as int].pre_fader == pre && send_goes_to(
                    p.tracks@,
                    i,
                    send as int,
                    target,
                ))
            &&& forall|s: int, t: usize|
                0 <= s < p.tracks@[i].sends@.len() && p.tracks@[i].sends@[s].pre_fader == pre
                    && #[trigger] send_goes_to(p.tracks@, i, s, t) ==> exists|k: int|
                    0 <= k < list.len() && #[trigger] list[k] == (RenderStep::Send {
                        source: i as usize,
                        send: s as usize,
                        target: t,
                    })
            &&& forall|j: int, k: int|
                #![trigger list[j], list[k]]
                0 <= j < list.len() && 0 <= k < list.len() && list[j] == list[k] ==> j == k
        }),
{
    reveal(sends_of);
    lemma_sends_listed(p.tracks@, i, pre, p.tracks@[i].sends@.len());
    let list = sends_of(p, i, pre);
    assert forall|j: int, k: int|
        #![trigger list[j], list[k]]
        0 <= j < list.len() && 0 <= k < list.len() && list[j] == list[k] implies j == k by {
        if j < k {
            assert(list[j]->send < list[k]->send);
        } else if k < j {
            assert(list[k]->send < list[j]->send);
        }
    }
}

/// The sends of a heard track stand right after its inserts and right after its
/// meter.
proof fn lemma_send_places(
    p: RuntimeProject,
    base: int,
    frames: int,
    transport_active: bool,
    bounds: Option<LoopBounds>,
    i: int,
) -> (at: TrackSteps)
    requires
        p.well_formed(),
        numbered(p, i),
        each_track_once(p),
        source_heard(p, i) || routing_heard(p, i),
    ensures
        ({
            let steps = render::block_steps(p, base, frames, transport_active, bounds);
            let pre = sends_of(p, i, true);
            let post = sends_of(p, i, false);
            &&& 0 <= at.chain < at.fader < at.meter < at.main < steps.len()
            &&& at.fader == at.chain + 1 + pre.len()
            &&& at.main == at.meter + 1 + post.len()
            &&& forall|k: int|
                #![trigger pre[k]]
                0 <= k < pre.len() ==> steps[at.chain + 1 + k] == pre[k]
            &&& forall|k: int|
                #![trigger post[k]]
                0 <= k < post.len() ==> steps[at.meter + 1 + k] == post[k]
            &&& forall|k: int|
                #![trigger steps[k]]
                0 <= k < steps.len() ==> {
                    &&& is_send_of(steps[k], i) ==> (at.chain < k < at.fader && steps[k] == pre[k
                        - at.chain - 1]) || (at.meter < k < at.main && steps[k] == post[k
                        - at.meter - 1])
                    &&& steps[k] == (RenderStep::Fader { track: i as usize }) ==> k == at.fader
                    &&& (steps[k] matches RenderStep::Delay { track: d, samples } && d == i) ==> k
                        < at.meter
                }
        }),
{
    let steps = render::block_steps(p, base, frames, transport_active, bounds);
    let place = lemma_heard_split(p, base, frames, transport_active, bounds, i);
    lemma_own_steps(p, i);
    reveal(sends_of);
    let own = render::track_steps(p, i);
    let parts = own_parts(p, i);
    let pre = sends_of(p, i, true);
    let post = sends_of(p, i, false);
    let first: int = if source_heard(p, i) {
        place.before.len() as int
    } else {
        place.before.len() as int + 1
    };
    let at = TrackSteps {
        chain: first,
        fader: first + parts.fader,
        meter: first + parts.meter,
        main: first + parts.main,
    };
    assert forall|k: int| 0 <= k < own.len() implies #[trigger] own[k] == steps[first + k] by {}
    assert forall|k: int| #![trigger pre[k]] 0 <= k < pre.len() implies steps[at.chain + 1 + k]
        == pre[k] by {
        assert(own.subrange(1, parts.fader)[k] == own[1 + k]);
    }
    assert forall|k: int| #![trigger post[k]] 0 <= k < post.len() implies steps[at.meter + 1 + k]
        == post[k] by {
        assert(own.subrange(parts.meter + 1, parts.main)[k] == own[parts.meter + 1 + k]);
    }
    assert forall|k: int| #![trigger steps[k]] 0 <= k < steps.len() implies {
        &&& is_send_of(steps[k], i) ==> (at.chain < k < at.fader && steps[k] == pre[k - at.chain
            - 1]) || (at.meter < k < at.main && steps[k] == post[k - at.meter - 1])
        &&& steps[k] == (RenderStep::Fader { track: i as usize }) ==> k == at.fader
        &&& (steps[k] matches RenderStep::Delay { track: d, samples } && d == i) ==> k < at.meter
    } by {
        if k < place.before.len() {
            assert(steps[k] == place.before[k]);
        } else if k < first {
            assert(steps[k] == RenderStep::LoadReceive { track: i as usize });
        } else if k < first + own.len() {
            assert(own[k - first] == steps[k]);
            if at.chain < k < at.fader {
                assert(pre[k - at.chain - 1] == steps[k]);
            } else if at.meter < k < at.main {
                assert(post[k - at.meter - 1] == steps[k]);
            }
        } else {
            assert(steps[k] == place.after[k - first - own.len()]);
        }
    }
    at
}

/// A heard track's send reaches the track that it names exactly when it is
/// switched on, has a level and names a track that can be fed: it is then taken
/// once, before the fader where it is a pre-fader send and after the fader and
/// the delay where it is not. No other send of the track is taken.
#[verifier::rlimit(60)]
#[verifier::spinoff_prover]
pub proof fn law_sends_are_taken_as_they_are_set(
    p: RuntimeProject,
    base: int,
    frames: int,
    transport_active: bool,
    bounds: Option<LoopBounds>,
    i: int,
    s: int,
    t: usize,
)
    requires
        p.well_formed(),
        numbered(p, i),
        each_track_once(p),
        source_heard(p, i) || routing_heard(p, i),
        0 <= s < p.tracks@[i].sends@.len() <= usize::MAX,
    ensures
        ({
            let steps = render::block_steps(p, base, frames, transport_active, bounds);
            let taken = RenderStep::Send { source: i as usize, send: s as usize, target: t };
            let track = i as usize;
            &&& (exists|k: int| 0 <= k < steps.len() && #[trigger] steps[k] == taken)
                <==> send_goes_to(p.tracks@, i, s, t)
            &&& forall|j: int, k: int|
                #![trigger steps[j], steps[k]]
                0 <= j < steps.len() && 0 <= k < steps.len() && steps[j] == taken && steps[k]
                    == taken ==> j == k
            &&& forall|j: int, k: int|
                #![trigger steps[j], steps[k]]
                0 <= j < steps.len() && 0 <= k < steps.len() && steps[j] == taken && steps[k] == (
                RenderStep::Fader { track }) ==> (p.tracks@[i].sends@[s].pre_fader <==> j < k)
            &&& forall|j: int, k: int|
                #![trigger steps[j], steps[k]]
                0 <= j < steps.len() && 0 <= k < steps.len() && steps[j] == taken
                    && !p.tracks@[i].sends@[s].pre_fader && (
                steps[k] matches RenderStep::Delay { track: d, samples } && d == i) ==> k < j
        }),
{
    let steps = render::block_steps(p, base, frames, transport_active, bounds);
    let taken = RenderStep::Send { source: i as usize, send: s as usize, target: t };
    let at = lemma_send_places(p, base, frames, transport_active, bounds, i);
    lemma_sends_of(p, i, true);
    lemma_sends_of(p, i, false);
    let pre = sends_of(p, i, true);
    let post = sends_of(p, i, false);
    if send_goes_to(p.tracks@, i, s, t) {
        if p.tracks@[i].sends@[s].pre_fader {
            let k = choose|k: int| 0 <= k < pre.len() && #[trigger] pre[k] == taken;
            assert(steps[at.chain + 1 + k] == taken);
        } else {
            let k = choose|k: int| 0 <= k < post.len() && #[trigger] post[k] == taken;
            assert(steps[at.meter + 1 + k] == taken);
        }
    }
    assert forall|k: int| #![trigger steps[k]] 0 <= k < steps.len() && steps[k] == taken implies {
        &&& send_goes_to(p.tracks@, i, s, t)
        &&& p.tracks@[i].sends@[s].pre_fader ==> at.chain < k < at.fader && pre[k - at.chain - 1]
            == taken
        &&& !p.tracks@[i].sends@[s].pre_fader ==> at.meter < k < at.main && post[k - at.meter - 1]
            == taken
    } by {
        assert(is_send_of(steps[k], i));
    }
    assert forall|j: int, k: int|
        #![trigger steps[j], steps[k]]
        0 <= j < steps.len() && 0 <= k < steps.len() && steps[j] == taken && steps[k]
            == taken implies j == k by {
        if p.tracks@[i].sends@[s].pre_fader {
            assert(pre[j - at.chain - 1] == pre[k - at.chain - 1]);
        } else {
            assert(post[j - at.meter - 1] == post[k - at.meter - 1]);
        }
    }
}

// ── Edges of a block ────────────────────────────────────────────────────────

/// A block starts from silence and ends with the limiter: the output and every
/// track's buffers are silenced before anything is added to them, each once,
/// and the limiter comes last and once.
pub proof fn law_block_starts_silent_and_ends_limited(
    p: RuntimeProject,
    base: int,
    frames: int,
    transport_active: bool,
    bounds: Option<LoopBounds>,
)
    requires
        p.well_formed(),
        p.tracks@.len() <= usize::MAX,
    ensures
        ({
            let steps = render::block_steps(p, base, frames, transport_active, bounds);
            let n = p.tracks@.len();
            &&& steps.len() >= n + 2
            &&& steps[0] == RenderStep::ClearOutput
            &&& forall|i: int|
                0 <= i < n ==> #[trigger] steps[i + 1] == (RenderStep::ClearTrack {
                    track: i as usize,
                })
            &&& steps[steps.len() - 1] == RenderStep::Limit
            &&& forall|k: int|
                #![trigger steps[k]]
                n < k < steps.len() - 1 ==> !(steps[k] is ClearOutput) && !(
                steps[k] is ClearTrack) && !(steps[k] is Limit)
        }),
{
    let steps = render::block_steps(p, base, frames, transport_active, bounds);
    let n = p.tracks@.len();
    let segments = crate::transport::block_segments(base, frames, bounds);
    lemma_block_parts(p, base, frames, transport_active, bounds);
    render::lemma_clip_steps(p, segments, p.clips@.len());
    lemma_sources_render(p, p.audio_graph.pass1_source_indices@.len());
    lemma_routing_renders(p, p.audio_graph.pass2_routing_indices@.len());
    let clips = block_clips(p, base, frames, transport_active, bounds);
    let a = block_head(p).len() as int;
    let b = a + clips.len();
    let c = b + block_sources(p).len();
    let d = c + block_routing(p).len();
    assert forall|i: int| 0 <= i < n implies #[trigger] steps[i + 1] == (RenderStep::ClearTrack {
        track: i as usize,
    }) by {
        assert(steps[i + 1] == block_head(p)[i + 1]);
    }
    assert forall|k: int| #![trigger steps[k]] n < k < steps.len() - 1 implies !(
    steps[k] is ClearOutput) && !(steps[k] is ClearTrack) && !(steps[k] is Limit) by {
        if k < b {
            assert(steps[k] == clips[k - a]);
        } else if k < c {
            assert(steps[k] == block_sources(p)[k - b]);
        } else if k < d {
            assert(steps[k] == block_routing(p)[k - c]);
        } else {
            assert(steps[k] == render::master_pass(p)[k - d]);
        }
    }
    assert(steps[0] == block_head(p)[0]);
    assert(steps[steps.len() - 1] == block_end(p)[block_end(p).len() - 1]);
}

/// Every step of `steps` renders some track, and none touches the master's
/// block.
spec fn renders_tracks(steps: Seq<RenderStep>) -> bool {
    forall|k: int|
        #![trigger steps[k]]
        0 <= k < steps.len() ==> render::step_track(steps[k]) is Some && !(
        steps[k] is LoadMaster) && !(steps[k] is StoreMaster)
}

proof fn lemma_own_renders(p: RuntimeProject, i: int)
    requires
        numbered(p, i),
    ensures
        renders_tracks(render::track_steps(p, i)),
{
    render::lemma_track_steps(p, i);
    lemma_own_steps(p, i);
    let own = render::track_steps(p, i);
    let at = own_parts(p, i);
    assert forall|k: int| #![trigger own[k]] 0 <= k < own.len() implies render::step_track(own[k])
        is Some && !(own[k] is LoadMaster) && !(own[k] is StoreMaster) by {
        if 1 <= k < at.fader || at.meter < k < at.main {
            assert(is_send_of(own[k], i));
        } else if k == at.fader + 1 && k < at.meter {
            assert(own[k] is Delay);
        }
    }
}

proof fn lemma_sources_render(p: RuntimeProject, n: nat)
    requires
        p.well_formed(),
        p.tracks@.len() <= usize::MAX,
        n <= p.audio_graph.pass1_source_indices@.len(),
    ensures
        renders_tracks(render::source_pass(p, n)),
    decreases n,
{
    if n > 0 {
        lemma_sources_render(p, (n - 1) as nat);
        lemma_own_renders(p, p.audio_graph.pass1_source_indices@[n - 1] as int);
    }
}

proof fn lemma_routing_renders(p: RuntimeProject, n: nat)
    requires
        p.well_formed(),
        p.tracks@.len() <= usize::MAX,
        n <= p.audio_graph.pass2_routing_indices@.len(),
    ensures
        renders_tracks(render::routing_pass(p, n)),
    decreases n,
{
    if n > 0 {
        lemma_routing_renders(p, (n - 1) as nat);
        let i = p.audio_graph.pass2_routing_indices@[n - 1] as int;
        lemma_own_renders(p, i);
        let own = seq![RenderStep::LoadReceive { track: i as usize }] + render::track_steps(p, i);
        assert forall|k: int| #![trigger own[k]] 0 <= k < own.len() implies render::step_track(
            own[k],
        ) is Some && !(own[k] is LoadMaster) && !(own[k] is StoreMaster) by {
            if k > 0 {
                assert(own[k] == render::track_steps(p, i)[k - 1]);
            }
        }
        assert(renders_tracks(own));
    }
}

/// The master's inserts run on the finished sum, right before the limiter,
/// exactly when the project has a master that is not switched off and that no
/// solo leaves out. The sum is complete by then: nothing is added to it
/// afterwards.
pub proof fn law_master_runs_on_the_finished_sum(
    p: RuntimeProject,
    base: int,
    frames: int,
    transport_active: bool,
    bounds: Option<LoopBounds>,
)
    requires
        p.well_formed(),
        p.tracks@.len() <= usize::MAX,
    ensures
        ({
            let steps = render::block_steps(p, base, frames, transport_active, bounds);
            let end = steps.len() - 1;
            &&& (p.audio_graph.master_index matches Some(m) && !switched_off(p.tracks@[m as int])
                && (!p.has_solo || p.tracks@[m as int].solo)) ==> {
                let track = p.audio_graph.master_index->0;
                &&& end >= 3
                &&& steps[end - 3] == RenderStep::LoadMaster { track }
                &&& steps[end - 2] == RenderStep::Chain { track }
                &&& steps[end - 1] == RenderStep::StoreMaster { track }
            }
            &&& !(p.audio_graph.master_index matches Some(m) && !switched_off(
                p.tracks@[m as int],
            ) && (!p.has_solo || p.tracks@[m as int].solo)) ==> forall|k: int|
                #![trigger steps[k]]
                0 <= k < steps.len() ==> !(steps[k] is LoadMaster) && !(steps[k] is StoreMaster)
            &&& forall|k: int|
                #![trigger steps[k]]
                0 <= k < end - 3 ==> !(steps[k] is LoadMaster) && !(steps[k] is StoreMaster)
        }),
{
    let steps = render::block_steps(p, base, frames, transport_active, bounds);
    let segments = crate::transport::block_segments(base, frames, bounds);
    lemma_block_parts(p, base, frames, transport_active, bounds);
    render::lemma_clip_steps(p, segments, p.clips@.len());
    lemma_sources_render(p, p.audio_graph.pass1_source_indices@.len());
    lemma_routing_renders(p, p.audio_graph.pass2_routing_indices@.len());
    if let Some(m) = p.audio_graph.master_index {
        lemma_solo(p.tracks@, m as int);
    }
    let clips = block_clips(p, base, frames, transport_active, bounds);
    let a = block_head(p).len() as int;
    let b = a + clips.len();
    let c = b + block_sources(p).len();
    let d = c + block_routing(p).len();
    let last = render::master_pass(p);
    assert forall|k: int| #![trigger steps[k]] 0 <= k < d implies !(steps[k] is LoadMaster) && !(
    steps[k] is StoreMaster) by {
        if k < a {
            assert(steps[k] == block_head(p)[k]);
        } else if k < b {
            assert(steps[k] == clips[k - a]);
        } else if k < c {
            assert(steps[k] == block_sources(p)[k - b]);
        } else {
            assert(steps[k] == block_routing(p)[k - c]);
        }
    }
    assert(steps.len() == d + last.len() + 1);
    assert forall|k: int| 0 <= k < last.len() implies #[trigger] steps[d + k] == last[k] by {
        assert(steps[d + k] == block_end(p)[k]);
    }
    if last.len() > 0 {
        assert(steps[d + 0] == last[0]);
        assert(steps[d + 1] == last[1]);
        assert(steps[d + 2] == last[2]);
    }
    assert(steps[steps.len() - 1] == block_end(p)[block_end(p).len() - 1]);
}

// ── Clips ───────────────────────────────────────────────────────────────────

/// A step reads clip `c`.
pub open spec fn reads_clip(step: RenderStep, c: int) -> bool {
    step matches RenderStep::Clip { piece } && piece.clip == c
}

/// A step reads clip `c` for frame `f` of the block.
pub open spec fn reads_clip_at(step: RenderStep, c: int, f: int) -> bool {
    step matches RenderStep::Clip { piece } && piece.clip == c && piece.frame <= f < piece.frame
        + piece.frames
}

/// The segments of a block stand one after the other and end with it.
spec fn in_order(segments: Seq<LoopSegment>) -> bool {
    &&& forall|j: int, k: int|
        #![trigger segments[j], segments[k]]
        0 <= j < k < segments.len() ==> segments[j].offset + segments[j].frames
            <= segments[k].offset
    &&& forall|k: int|
        #![trigger segments[k]]
        0 <= k < segments.len() ==> segments[k].offset + segments[k].frames <= u64::MAX
            && segments[k].sample + segments[k].frames <= u64::MAX
}

proof fn lemma_pieces(
    clip: RuntimeClip,
    c: int,
    track: usize,
    segments: Seq<LoopSegment>,
    n: nat,
)
    requires
        in_order(segments),
        n <= segments.len(),
        0 <= c <= usize::MAX,
    ensures
        ({
            let list = render::clip_segment_steps(clip, c, track, segments, n);
            &&& forall|k: int|
                #![trigger list[k]]
                0 <= k < list.len() ==> reads_clip(list[k], c) && exists|m: int|
                    0 <= m < n && render::clip_piece(
                        clip,
                        c,
                        track,
                        #[trigger] segments[m],
                    ) == Some(list[k]->piece)
            &&& forall|m: int|
                #![trigger segments[m]]
                0 <= m < n ==> (render::clip_piece(clip, c, track, segments[m]) matches Some(piece)
                    ==> list.contains(RenderStep::Clip { piece }))
            &&& forall|j: int, k: int|
                #![trigger list[j], list[k]]
                0 <= j < k < list.len() ==> list[j]->piece.frame + list[j]->piece.frames
                    <= list[k]->piece.frame
        }),
    decreases n,
{
    if n > 0 {
        lemma_pieces(clip, c, track, segments, (n - 1) as nat);
        let rest = render::clip_segment_steps(clip, c, track, segments, (n - 1) as nat);
        let list = render::clip_segment_steps(clip, c, track, segments, n);
        assert forall|k: int| #![trigger list[k]] 0 <= k < list.len() implies reads_clip(
            list[k],
            c,
        ) && exists|m: int|
            0 <= m < n && render::clip_piece(clip, c, track, #[trigger] segments[m]) == Some(
                list[k]->piece,
            ) by {
            if k < rest.len() {
                assert(list[k] == rest[k]);
                let m = choose|m: int|
                    0 <= m < n - 1 && render::clip_piece(
                        clip,
                        c,
                        track,
                        #[trigger] segments[m],
                    ) == Some(rest[k]->piece);
                assert(segments[m] == segments[m]);
            } else {
                assert(segments[n - 1] == segments[n - 1]);
            }
        }
        assert forall|m: int| #![trigger segments[m]] 0 <= m < n implies (render::clip_piece(
            clip,
            c,
            track,
            segments[m],
        ) matches Some(piece) ==> list.contains(RenderStep::Clip { piece })) by {
            if let Some(piece) = render::clip_piece(clip, c, track, segments[m]) {
                let step = RenderStep::Clip { piece };
                if m < n - 1 {
                    assert(rest.contains(step));
                    let k = choose|k: int| 0 <= k < rest.len() && rest[k] == step;
                    assert(list[k] == step);
                } else {
                    assert(list[list.len() - 1] == step);
                }
            }
        }
        assert forall|j: int, k: int|
            #![trigger list[j], list[k]]
            0 <= j < k < list.len() implies list[j]->piece.frame + list[j]->piece.frames
            <= list[k]->piece.frame by {
            assert(list[j] == rest[j]);
            if k < rest.len() {
                assert(list[k] == rest[k]);
            } else {
                let m = choose|m: int|
                    0 <= m < n - 1 && render::clip_piece(
                        clip,
                        c,
                        track,
                        #[trigger] segments[m],
                    ) == Some(rest[j]->piece);
                assert(segments[m].offset + segments[m].frames <= segments[n - 1].offset);
            }
        }
    }
}

/// What the clips of a block read of clip `c` is what its own track and segments
/// give.
proof fn lemma_clip_share(
    p: RuntimeProject,
    segments: Seq<LoopSegment>,
    n: nat,
    c: int,
)
    requires
        in_order(segments),
        n <= p.clips@.len() <= usize::MAX,
        0 <= c < p.clips@.len(),
    ensures
        ({
            let list = render::clip_steps(p, segments, n);
            let clip = p.clips@[c];
            &&& forall|k: int|
                #![trigger list[k]]
                0 <= k < list.len() ==> (list[k] matches RenderStep::Clip { piece } && piece.clip
                    < n)
            &&& forall|k: int|
                #![trigger list[k]]
                0 <= k < list.len() && reads_clip(list[k], c) ==> render::clip_track(p, c) == Some(
                    list[k]->piece.track,
                ) && exists|m: int|
                    0 <= m < segments.len() && render::clip_piece(
                        clip,
                        c,
                        list[k]->piece.track,
                        #[trigger] segments[m],
                    ) == Some(list[k]->piece)
            &&& c < n ==> (render::clip_track(p, c) matches Some(t) ==> forall|m: int|
                #![trigger segments[m]]
                0 <= m < segments.len() ==> (render::clip_piece(
                    clip,
                    c,
                    t,
                    segments[m],
                ) matches Some(piece) ==> list.contains(RenderStep::Clip { piece })))
            &&& forall|j: int, k: int|
                #![trigger list[j], list[k]]
                0 <= j < k < list.len() && reads_clip(list[j], c) && reads_clip(list[k], c)
                    ==> list[j]->piece.frame + list[j]->piece.frames <= list[k]->piece.frame
        }),
    decreases n,
{
    if n > 0 {
        lemma_clip_share(p, segments, (n - 1) as nat, c);
        let rest = render::clip_steps(p, segments, (n - 1) as nat);
        let list = render::clip_steps(p, segments, n);
        let clip = p.clips@[c];
        if let Some(t) = render::clip_track(p, n - 1) {
            let more = render::clip_segment_steps(
                p.clips@[n - 1],
                n - 1,
                t,
                segments,
                segments.len(),
            );
            lemma_pieces(p.clips@[n - 1], n - 1, t, segments, segments.len());
            render::lemma_clip_segment_steps(
                p.clips@[n - 1],
                n - 1,
                t,
                segments,
                segments.len(),
            );
            assert(list == rest + more);
            assert forall|k: int| #![trigger list[k]] 0 <= k < list.len() implies {
                &&& (list[k] matches RenderStep::Clip { piece } && piece.clip < n)
                &&& reads_clip(list[k], c) ==> render::clip_track(p, c) == Some(
                    list[k]->piece.track,
                ) && exists|m: int|
                    0 <= m < segments.len() && render::clip_piece(
                        clip,
                        c,
                        list[k]->piece.track,
                        #[trigger] segments[m],
                    ) == Some(list[k]->piece)
            } by {
                if k < rest.len() {
                    assert(list[k] == rest[k]);
                } else {
                    assert(list[k] == more[k - rest.len()]);
                    assert(reads_clip(more[k - rest.len()], n - 1));
                }
            }
            if c < n {
                if let Some(u) = render::clip_track(p, c) {
                    assert forall|m: int| #![trigger segments[m]] 0 <= m < segments.len() implies (
                    render::clip_piece(clip, c, u, segments[m]) matches Some(piece)
                        ==> list.contains(RenderStep::Clip { piece })) by {
                        if let Some(piece) = render::clip_piece(clip, c, u, segments[m]) {
                            let step = RenderStep::Clip { piece };
                            if c < n - 1 {
                                assert(rest.contains(step));
                                let k = choose|k: int| 0 <= k < rest.len() && rest[k] == step;
                                assert(list[k] == step);
                            } else {
                                assert(more.contains(step));
                                let k = choose|k: int| 0 <= k < more.len() && more[k] == step;
                                assert(list[rest.len() + k] == step);
                            }
                        }
                    }
                }
            }
            assert forall|j: int, k: int|
                #![trigger list[j], list[k]]
                0 <= j < k < list.len() && reads_clip(list[j], c) && reads_clip(
                    list[k],
                    c,
                ) implies list[j]->piece.frame + list[j]->piece.frames <= list[k]->piece.frame by {
                if k < rest.len() {
                    assert(list[j] == rest[j] && list[k] == rest[k]);
                } else {
                    assert(list[k] == more[k - rest.len()]);
                    assert(reads_clip(more[k - rest.len()], n - 1));
                    if j < rest.len() {
                        assert(list[j] == rest[j]);
                    } else {
                        assert(list[j] == more[j - rest.len()]);
                    }
                }
            }
        } else {
            assert(list == rest);
            assert forall|k: int| #![trigger list[k]] 0 <= k < list.len() implies (
            list[k] matches RenderStep::Clip { piece } && piece.clip < n) by {
                assert(rest[k] is Clip);
            }
        }
    }
}

/// Every clip step of a block is one of its clips'.
proof fn lemma_clip_places(
    p: RuntimeProject,
    base: int,
    frames: int,
    bounds: Option<LoopBounds>,
) -> (first: int)
    requires
        p.well_formed(),
        p.tracks@.len() <= usize::MAX,
    ensures
        ({
            let steps = render::block_steps(p, base, frames, true, bounds);
            let list = block_clips(p, base, frames, true, bounds);
            &&& 0 <= first
            &&& first + list.len() <= steps.len()
            &&& forall|k: int|
                #![trigger list[k]]
                0 <= k < list.len() ==> steps[first + k] == list[k]
            &&& forall|k: int|
                #![trigger steps[k]]
                0 <= k < steps.len() && steps[k] is Clip ==> first <= k < first + list.len()
                    && steps[k] == list[k - first]
        }),
{
    let steps = render::block_steps(p, base, frames, true, bounds);
    let list = block_clips(p, base, frames, true, bounds);
    let first = block_head(p).len() as int;
    lemma_block_parts(p, base, frames, true, bounds);
    render::lemma_source_pass_no_clip(p, p.audio_graph.pass1_source_indices@.len());
    render::lemma_routing_pass_no_clip(p, p.audio_graph.pass2_routing_indices@.len());
    let b = first + list.len();
    let c = b + block_sources(p).len();
    let d = c + block_routing(p).len();
    assert forall|k: int| #![trigger steps[k]] 0 <= k < steps.len() && steps[k] is Clip implies first
        <= k < first + list.len() && steps[k] == list[k - first] by {
        if k < first {
            assert(steps[k] == block_head(p)[k]);
        } else if k >= b {
            if k < c {
                assert(steps[k] == block_sources(p)[k - b]);
            } else if k < d {
                assert(steps[k] == block_routing(p)[k - c]);
            } else {
                assert(steps[k] == block_end(p)[k - d]);
            }
        }
    }
    first
}

proof fn lemma_block_in_order(base: int, frames: int, bounds: Option<LoopBounds>)
    requires
        crate::transport::loop_valid(bounds),
        0 <= base <= u64::MAX,
        0 <= frames <= u64::MAX,
        bounds is None ==> base + frames <= u64::MAX,
    ensures
        in_order(crate::transport::block_segments(base, frames, bounds)),
{
    let segments = crate::transport::block_segments(base, frames, bounds);
    assert forall|j: int, k: int|
        #![trigger segments[j], segments[k]]
        0 <= j < k < segments.len() implies segments[j].offset + segments[j].frames
        <= segments[k].offset by {
        crate::transport::lemma_segments_ascend(base, frames, bounds, j, k);
    }
    assert forall|k: int| #![trigger segments[k]] 0 <= k < segments.len() implies segments[k].offset
        + segments[k].frames <= u64::MAX && segments[k].sample + segments[k].frames
        <= u64::MAX by {
        crate::transport::lemma_segment_fits(base, frames, bounds, k);
    }
}

/// While the transport runs, a clip that is not muted, on a track that is heard,
/// sounds exactly where the timeline passes through it: frame `f` of the block
/// reads it if and only if the frame's timeline sample lies in the clip, then
/// once, and at its own place in the clip. A clip that is muted, has no track,
/// or stands on a track that is not heard is not read at all.
#[verifier::rlimit(60)]
#[verifier::spinoff_prover]
pub proof fn law_clip_sounds_where_the_timeline_passes_it(
    p: RuntimeProject,
    base: int,
    frames: int,
    bounds: Option<LoopBounds>,
    c: int,
    f: int,
)
    requires
        p.well_formed(),
        p.tracks@.len() <= usize::MAX,
        0 <= c < p.clips@.len() <= usize::MAX,
        bounds matches Some(b) ==> b.start < b.end,
        0 <= base <= u64::MAX,
        0 <= f < frames <= u64::MAX,
        bounds is None ==> base + frames <= u64::MAX,
        p.clips@[c].start_sample + p.clips@[c].duration_samples <= u64::MAX,
    ensures
        ({
            let steps = render::block_steps(p, base, frames, true, bounds);
            let clip = p.clips@[c];
            let at = crate::transport::timeline_at(base, f, bounds);
            let audible = !clip.muted && (clip.track_index matches Some(t) && t < p.tracks@.len()
                && !switched_off(p.tracks@[t as int]) && (!p.has_solo || part_of_solo(
                p.tracks@,
                t as int,
            )));
            let inside = clip.start_sample <= at < clip.start_sample + clip.duration_samples;
            &&& audible && inside ==> exists|k: int|
                0 <= k < steps.len() && (#[trigger] steps[k] matches RenderStep::Clip { piece }
                    && piece.clip == c && Some(piece.track) == clip.track_index && piece.frame
                    <= f < piece.frame + piece.frames && piece.rel + (f - piece.frame) == at
                    - clip.start_sample && piece.stretched == (clip.stretch_ready
                    && clip.stretch_backend == StretchBackend::Signalsmith))
            &&& forall|k: int|
                #![trigger steps[k]]
                0 <= k < steps.len() && reads_clip_at(steps[k], c, f) ==> audible && inside
            &&& forall|k: int|
                #![trigger steps[k]]
                0 <= k < steps.len() && reads_clip(steps[k], c) ==> audible
            &&& forall|j: int, k: int|
                #![trigger steps[j], steps[k]]
                0 <= j < steps.len() && 0 <= k < steps.len() && reads_clip_at(steps[j], c, f)
                    && reads_clip_at(steps[k], c, f) ==> j == k
        }),
{
    let steps = render::block_steps(p, base, frames, true, bounds);
    let segments = crate::transport::block_segments(base, frames, bounds);
    let list = block_clips(p, base, frames, true, bounds);
    let clip = p.clips@[c];
    let at = crate::transport::timeline_at(base, f, bounds);
    lemma_block_in_order(base, frames, bounds);
    lemma_clip_share(p, segments, p.clips@.len(), c);
    let first = lemma_clip_places(p, base, frames, bounds);
    if let Some(t) = clip.track_index {
        if t < p.tracks@.len() {
            lemma_solo(p.tracks@, t as int);
        }
    }
    let s = crate::transport::law_every_frame_has_its_place(base, frames, bounds, f);
    if let Some(t) = render::clip_track(p, c) {
        render::law_clip_sounds_exactly_in_its_range(clip, c, t, segments[s], f - segments[s].offset);
        if let Some(piece) = render::clip_piece(clip, c, t, segments[s]) {
            let step = RenderStep::Clip { piece };
            assert(list.contains(step));
            let k = choose|k: int| 0 <= k < list.len() && list[k] == step;
            assert(steps[first + k] == step);
        }
    }
    assert forall|k: int|
        #![trigger steps[k]]
        0 <= k < steps.len() && reads_clip_at(steps[k], c, f) implies clip.start_sample <= at
        < clip.start_sample + clip.duration_samples && render::clip_track(p, c) is Some by {
        assert(steps[k] == list[k - first]);
        let t = list[k - first]->piece.track;
        let m = choose|m: int|
            0 <= m < segments.len() && render::clip_piece(clip, c, t, #[trigger] segments[m])
                == Some(list[k - first]->piece);
        assert(crate::transport::holds_frame(segments[m], f));
        assert(m == s);
    }
    assert forall|j: int, k: int|
        #![trigger steps[j], steps[k]]
        0 <= j < steps.len() && 0 <= k < steps.len() && reads_clip_at(steps[j], c, f)
            && reads_clip_at(steps[k], c, f) implies j == k by {
        assert(steps[j] == list[j - first]);
        assert(steps[k] == list[k - first]);
        if j < k {
            assert(list[j - first]->piece.frame + list[j - first]->piece.frames <= list[k
                - first]->piece.frame);
        } else if k < j {
            assert(list[k - first]->piece.frame + list[k - first]->piece.frames <= list[j
                - first]->piece.frame);
        }
    }
    assert forall|k: int|
        #![trigger steps[k]]
        0 <= k < steps.len() && reads_clip(steps[k], c) implies render::clip_track(p, c)
        is Some by {
        assert(steps[k] == list[k - first]);
    }
}

/// A level is off where it is zero, of either sign, and two levels are equal
/// where they are one number; what is no number equals nothing.
pub proof fn law_levels_are_compared_as_numbers(a: u32, b: u32)
    ensures
        render::is_zero_bits(a) <==> a == 0 || a == 0x8000_0000,
        render::is_nan_bits(a) <==> 0x7f80_0000 < a < 0x8000_0000 || a > 0xff80_0000,
        render::is_nonpositive_bits(a) <==> a == 0 || 0x8000_0000 <= a <= 0xff80_0000,
        render::equal_as_numbers(0, 0x8000_0000),
        render::equal_as_numbers(a, b) == render::equal_as_numbers(b, a),
        a <= 0x7f80_0000 ==> render::equal_as_numbers(a, a),
        0x8000_0000 <= a <= 0xff80_0000 ==> render::equal_as_numbers(a, a),
        0 < a <= 0x7f80_0000 && a != b ==> !render::equal_as_numbers(a, b),
        0x7f80_0000 < a < 0x8000_0000 || a > 0xff80_0000 ==> !render::equal_as_numbers(a, b),
{
}

/// A track without an output, or with the master for one, goes to the master.
pub proof fn law_no_output_is_the_master(output: Seq<char>)
    ensures
        render::is_master_output_spec(output) <==> output.len() == 0 || output == "master"@
            || output == "none"@,
{
}

/// A block holds its whole frames, and an output with less than two channels
/// none.
pub proof fn law_block_holds_whole_frames(len: int, channels: int)
    requires
        0 <= len,
        0 <= channels,
    ensures
        channels < 2 ==> render::block_frames(len, channels) == 0,
        channels >= 2 ==> render::block_frames(len, channels) * channels <= len < (
        render::block_frames(len, channels) + 1) * channels,
{
    if channels >= 2 {
        let n = len / channels;
        assert(n * channels <= len < (n + 1) * channels) by (nonlinear_arith)
            requires
                n == len / channels,
                channels >= 2,
                len >= 0,
        ;
    }
}

/// Automation that mutes or unmutes a track goes before the track's own switch.
pub proof fn law_automation_goes_before_the_switch(t: RuntimeTrack)
    ensures
        t.automation_muted is Some ==> render::muted_now(t) == t.automation_muted->0,
        t.automation_muted is None ==> render::muted_now(t) == t.muted,
{
}

} // verus!
