//! The offline render loop: which blocks are rendered and which of their frames
//! are written.
//!
//! Every block is rendered at full size, whatever part of it is written:
//! bridged plug-ins exchange blocks of one size only. The frames before the
//! content fill the compensation delay lines and are not written.

use vstd::prelude::*;

use crate::engine::report;
use crate::engine::report_laws;
use crate::export::render_progress;
use crate::export::render_progress::ExportProgress;
use crate::export::render_progress::ExportStage;
use crate::export::render_request::ExportTailMode;
use crate::export::render_request::OfflineRenderRequest;
use crate::export::ExportError;
use crate::latency_graph::RuntimeLatencyGraph;
use crate::runtime::RuntimeProject;

verus! {

/// The sum of two frame counts, held at the largest one.
pub open spec fn held_sum(a: u64, b: u64) -> u64 {
    if a + b > u64::MAX {
        u64::MAX
    } else {
        (a + b) as u64
    }
}

fn add_held(a: u64, b: u64) -> (r: u64)
    ensures
        r == held_sum(a, b),
{
    if b > 0xffff_ffff_ffff_ffff - a {
        0xffff_ffff_ffff_ffff
    } else {
        a + b
    }
}

/// Frames that are rendered and not written before the content: the constant
/// latency from a clip to the master's output, when delays are compensated.
pub open spec fn warmup(graph: RuntimeLatencyGraph, pdc_enabled: bool) -> u64 {
    if !pdc_enabled {
        0
    } else if graph.max_path_latency_samples + graph.master_plugin_latency > u32::MAX {
        u32::MAX as u64
    } else {
        (graph.max_path_latency_samples + graph.master_plugin_latency) as u64
    }
}

/// Frames that are rendered and not written before the content.
pub fn export_warmup_frames(latency_graph: &RuntimeLatencyGraph, pdc_enabled: bool) -> (r: u64)
    ensures
        r == warmup(*latency_graph, pdc_enabled),
{
    if !pdc_enabled {
        return 0;
    }
    let sum: u64 = latency_graph.max_path_latency_samples as u64
        + latency_graph.master_plugin_latency as u64;
    if sum > 0xffff_ffff {
        0xffff_ffff
    } else {
        sum
    }
}

// ── The loop ────────────────────────────────────────────────────────────────

/// An offline render under way.
#[derive(Clone, Copy, Debug, PartialEq, Eq, Structural)]
pub struct OfflineRender {
    /// Frames in a block.
    pub block: usize,
    pub tail: ExportTailMode,
    /// Frames from which on the render is written.
    pub write_start: u64,
    /// Where the content ends.
    pub content_end: u64,
    /// Where the longest tail ends.
    pub produce_cap: u64,
    /// Content and tail, for progress.
    pub total: u64,
    /// Timeline sample of the next block.
    pub pos: u64,
    /// Frames rendered so far, unwritten ones counted.
    pub produced: u64,
    /// Frames written so far.
    pub written: u64,
    /// Blocks rendered so far, as a 32-bit count that goes round.
    pub blocks: u32,
}

/// What the host does next.
#[derive(Clone, Copy, Debug, PartialEq, Eq, Structural)]
pub enum RenderCommand {
    /// Stop: the user cancelled.
    Cancelled,
    /// Stop: everything is rendered.
    Finished,
    /// Render a full block from this timeline sample on.
    Render { sample: u64, frames: usize },
}

/// The frames of a rendered block that are written, counted in the block.
#[derive(Clone, Copy, Debug, PartialEq, Eq, Structural)]
pub struct EmitSlice {
    pub from: usize,
    pub to: usize,
}

/// What follows a rendered block.
#[derive(Clone, Copy, Debug, PartialEq, Eq, Structural)]
pub struct BlockDone {
    /// Whether the render ends with this block.
    pub stop: bool,
    pub progress: Option<ExportProgress>,
}

impl OfflineRender {
    /// The state that a render starts with.
    pub open spec fn started(request: OfflineRenderRequest, warmup: u64) -> OfflineRender {
        let content_end = held_sum(warmup, request.content());
        OfflineRender {
            block: request.block_size,
            tail: request.tail,
            write_start: warmup,
            content_end,
            produce_cap: held_sum(content_end, request.tail_cap()),
            total: held_sum(request.content(), request.tail_cap()),
            pos: request.start_sample,
            produced: 0,
            written: 0,
            blocks: 0,
        }
    }

    /// Where writing ends.
    pub open spec fn write_limit(self) -> u64 {
        if self.tail == ExportTailMode::NoTail {
            self.content_end
        } else {
            self.produce_cap
        }
    }

    /// How much of the first `produced` frames is written.
    pub open spec fn written_of(self, produced: u64) -> u64 {
        let end = if produced < self.write_limit() {
            produced
        } else {
            self.write_limit()
        };
        if end > self.write_start {
            (end - self.write_start) as u64
        } else {
            0
        }
    }

    /// The phases follow one another, and what is written is what was rendered
    /// of the written phases.
    pub open spec fn well_formed(self) -> bool {
        &&& self.block > 0
        &&& self.write_start <= self.content_end <= self.produce_cap
        &&& self.written == self.written_of(self.produced)
    }

    /// What the host does next.
    pub open spec fn next(self, cancelled: bool) -> RenderCommand {
        if cancelled {
            RenderCommand::Cancelled
        } else if self.produced >= self.write_limit() {
            RenderCommand::Finished
        } else {
            RenderCommand::Render { sample: self.pos, frames: self.block }
        }
    }

    /// The frames of a block that are written: those between the warm-up and
    /// the end of writing.
    pub open spec fn emitted(self, frames: usize) -> Option<EmitSlice> {
        let end = held_sum(self.produced, frames as u64);
        let from = if self.produced > self.write_start {
            self.produced
        } else {
            self.write_start
        };
        let to = if end < self.write_limit() {
            end
        } else {
            self.write_limit()
        };
        if to > from {
            Some(
                EmitSlice {
                    from: (from - self.produced) as usize,
                    to: (to - self.produced) as usize,
                },
            )
        } else {
            None
        }
    }

    /// Whether a quiet block ends the render: only in the tail, and only where
    /// the tail rings until it is silent.
    pub open spec fn ends_in_silence(self, frames: usize, quiet: bool) -> bool {
        quiet && self.tail is UntilSilence && self.produced >= self.content_end && self.emitted(
            frames,
        ) is Some
    }

    /// The state after a block of `frames` frames.
    pub open spec fn after_block(self, frames: usize, quiet: bool) -> OfflineRender {
        let produced = held_sum(self.produced, frames as u64);
        OfflineRender {
            produced,
            pos: held_sum(self.pos, frames as u64),
            written: self.written_of(produced),
            blocks: if self.ends_in_silence(frames, quiet) {
                self.blocks
            } else if self.blocks == u32::MAX {
                0
            } else {
                (self.blocks + 1) as u32
            },
            ..self
        }
    }

    /// The progress that is reported after a block, every sixteenth time.
    pub open spec fn reported(self) -> Option<ExportProgress> {
        let total: u64 = if self.total == 0 {
            1
        } else {
            self.total
        };
        if self.blocks % 16 == 0 {
            Some(
                render_progress::progress(
                    ExportStage::Rendering,
                    if self.written < total {
                        self.written
                    } else {
                        total
                    },
                    total,
                ),
            )
        } else {
            None
        }
    }

    /// Begin a render, or say why the request cannot be rendered.
    pub fn begin(request: &OfflineRenderRequest, warmup: u64) -> (r: Result<Self, ExportError>)
        ensures
            request.refusal() matches Some(why) ==> (r matches Err(ExportError::Settings(text))
                && text@ == why),
            request.refusal() is None ==> (r matches Ok(render) && render == OfflineRender::started(
                *request,
                warmup,
            ) && render.well_formed()),
    {
        match request.validate() {
            Ok(_) => {},
            Err(why) => {
                return Err(ExportError::Settings(why));
            },
        }
        let content: u64 = request.content_frames();
        let cap: u64 = request.max_tail_frames();
        let content_end: u64 = add_held(warmup, content);
        Ok(
            OfflineRender {
                block: request.block_size,
                tail: request.tail,
                write_start: warmup,
                content_end,
                produce_cap: add_held(content_end, cap),
                total: add_held(content, cap),
                pos: request.start_sample,
                produced: 0,
                written: 0,
                blocks: 0,
            },
        )
    }

    fn limit(&self) -> (r: u64)
        ensures
            r == self.write_limit(),
    {
        match self.tail {
            ExportTailMode::NoTail => self.content_end,
            _ => self.produce_cap,
        }
    }

    /// What the host does next.
    pub fn next_block(&self, cancelled: bool) -> (r: RenderCommand)
        requires
            self.well_formed(),
        ensures
            r == self.next(cancelled),
    {
        if cancelled {
            return RenderCommand::Cancelled;
        }
        if self.produced >= self.limit() {
            return RenderCommand::Finished;
        }
        RenderCommand::Render { sample: self.pos, frames: self.block }
    }

    /// The frames of a rendered block that are written.
    pub fn emit_slice(&self, frames: usize) -> (r: Option<EmitSlice>)
        requires
            self.well_formed(),
        ensures
            r == self.emitted(frames),
            r matches Some(slice) ==> slice.from < slice.to <= frames,
    {
        let end: u64 = add_held(self.produced, frames as u64);
        let limit: u64 = self.limit();
        let from: u64 = if self.produced > self.write_start {
            self.produced
        } else {
            self.write_start
        };
        let to: u64 = if end < limit {
            end
        } else {
            limit
        };
        if to > from {
            Some(
                EmitSlice {
                    from: (from - self.produced) as usize,
                    to: (to - self.produced) as usize,
                },
            )
        } else {
            None
        }
    }

    /// Take over a rendered block of `frames` frames. `quiet` is whether what
    /// was written of it stayed below the silence threshold. A block without
    /// frames ends the render.
    pub fn block_rendered(&mut self, frames: usize, quiet: bool) -> (r: BlockDone)
        requires
            old(self).well_formed(),
        ensures
            frames == 0 ==> *final(self) == *old(self) && r == (BlockDone {
                stop: true,
                progress: None,
            }),
            frames > 0 ==> *final(self) == old(self).after_block(frames, quiet)
                && final(self).well_formed() && r == (BlockDone {
                stop: old(self).ends_in_silence(frames, quiet),
                progress: if old(self).ends_in_silence(frames, quiet) {
                    None
                } else {
                    final(self).reported()
                },
            }),
    {
        if frames == 0 {
            return BlockDone { stop: true, progress: None };
        }
        let slice: Option<EmitSlice> = self.emit_slice(frames);
        let in_tail: bool = self.produced >= self.content_end;
        let rings: bool = match self.tail {
            ExportTailMode::UntilSilence { .. } => true,
            _ => false,
        };
        let added: u64 = match slice {
            Some(s) => (s.to - s.from) as u64,
            None => 0,
        };
        let stop: bool = quiet && rings && in_tail && slice.is_some();
        self.written = self.written + added;
        self.produced = add_held(self.produced, frames as u64);
        self.pos = add_held(self.pos, frames as u64);
        if stop {
            return BlockDone { stop: true, progress: None };
        }
        self.blocks = self.blocks.wrapping_add(1);
        let progress: Option<ExportProgress> = if self.blocks % 16 == 0 {
            let total: u64 = if self.total == 0 {
                1
            } else {
                self.total
            };
            let shown: u64 = if self.written < total {
                self.written
            } else {
                total
            };
            Some(ExportProgress::new(ExportStage::Rendering, shown, total))
        } else {
            None
        };
        BlockDone { stop: false, progress }
    }

    /// The outcome of a render that ended: cancelled, if the user did so at the
    /// last moment, else the frames that were written.
    pub fn summary(&self, cancelled: bool) -> (r: Result<u64, ExportError>)
        ensures
            cancelled ==> r == Err::<u64, _>(ExportError::Cancelled),
            !cancelled ==> r == Ok::<_, ExportError>(self.written),
    {
        if cancelled {
            Err(ExportError::Cancelled)
        } else {
            Ok(self.written)
        }
    }
}

// ── Laws ────────────────────────────────────────────────────────────────────

/// The state after some blocks.
pub open spec fn after_blocks(r: OfflineRender, blocks: Seq<(usize, bool)>) -> OfflineRender
    decreases blocks.len(),
{
    if blocks.len() == 0 {
        r
    } else {
        after_blocks(r, blocks.drop_last()).after_block(blocks.last().0, blocks.last().1)
    }
}

proof fn lemma_blocks_keep_the_plan(r: OfflineRender, blocks: Seq<(usize, bool)>)
    requires
        r.well_formed(),
    ensures
        ({
            let s = after_blocks(r, blocks);
            &&& s.well_formed()
            &&& s.write_limit() == r.write_limit()
            &&& s.write_start == r.write_start
            &&& s.block == r.block
        }),
    decreases blocks.len(),
{
    if blocks.len() > 0 {
        lemma_blocks_keep_the_plan(r, blocks.drop_last());
    }
}

/// A render without a tail that ends without being cancelled has written
/// exactly its content, however its blocks came out.
pub proof fn law_export_is_as_long_as_its_content(
    request: OfflineRenderRequest,
    warmup: u64,
    blocks: Seq<(usize, bool)>,
)
    requires
        request.refusal() is None,
        request.tail == ExportTailMode::NoTail,
        warmup + request.content() <= u64::MAX,
        after_blocks(OfflineRender::started(request, warmup), blocks).next(false)
            == RenderCommand::Finished,
    ensures
        after_blocks(OfflineRender::started(request, warmup), blocks).written == request.content(),
{
    let r = OfflineRender::started(request, warmup);
    lemma_blocks_keep_the_plan(r, blocks);
}

/// With a fixed tail the render writes content and tail, and never more than
/// that with any tail.
pub proof fn law_export_never_exceeds_content_and_tail(
    request: OfflineRenderRequest,
    warmup: u64,
    blocks: Seq<(usize, bool)>,
)
    requires
        request.refusal() is None,
        warmup + request.content() + request.tail_cap() <= u64::MAX,
    ensures
        ({
            let s = after_blocks(OfflineRender::started(request, warmup), blocks);
            &&& s.written <= request.content() + request.tail_cap()
            &&& s.next(false) == RenderCommand::Finished ==> s.written == request.content()
                + request.tail_cap()
        }),
{
    let r = OfflineRender::started(request, warmup);
    lemma_blocks_keep_the_plan(r, blocks);
}

/// What is written is one stretch without a gap: a block's slice starts where
/// the written part of what came before ends.
pub proof fn law_slices_join(r: OfflineRender, frames: usize, quiet: bool)
    requires
        r.well_formed(),
        r.produced + frames <= u64::MAX,
    ensures
        match r.emitted(frames) {
            Some(slice) => {
                &&& r.produced + slice.from == r.write_start + r.written
                &&& r.after_block(frames, quiet).written == r.written + (slice.to - slice.from)
            },
            None => r.after_block(frames, quiet).written == r.written,
        },
{
}

/// Every block is asked for at full size, from the warm-up to the end of the
/// tail.
pub proof fn law_blocks_are_never_shortened(
    request: OfflineRenderRequest,
    warmup: u64,
    blocks: Seq<(usize, bool)>,
)
    requires
        request.refusal() is None,
    ensures
        after_blocks(OfflineRender::started(request, warmup), blocks).next(
            false,
        ) matches RenderCommand::Render { frames, .. } ==> frames == request.block_size,
{
    let r = OfflineRender::started(request, warmup);
    lemma_blocks_keep_the_plan(r, blocks);
}

/// Nothing of the warm-up is written.
pub proof fn law_warmup_is_not_written(r: OfflineRender, frames: usize)
    requires
        r.well_formed(),
        r.produced + frames <= r.write_start,
    ensures
        r.emitted(frames) is None,
        r.written == 0,
{
}

/// Every block that has frames brings a render nearer to its end.
pub proof fn law_render_makes_progress(r: OfflineRender, frames: usize, quiet: bool)
    requires
        r.well_formed(),
        r.next(false) is Render,
        frames > 0,
    ensures
        r.after_block(frames, quiet).produced > r.produced,
{
}

// ── Output layout ───────────────────────────────────────────────────────────

/// What a channel of the written file carries.
#[derive(Clone, Copy, Debug, PartialEq, Eq, Structural)]
pub enum OutputSample {
    /// Half the sum of both sides.
    Fold,
    Left,
    Right,
    Silence,
}

/// What channel `c` of a file with `channels` channels carries.
pub open spec fn channel_content(channels: int, c: int) -> OutputSample {
    if channels == 1 {
        OutputSample::Fold
    } else if c == 0 {
        OutputSample::Left
    } else if c == 1 {
        OutputSample::Right
    } else {
        OutputSample::Silence
    }
}

/// What the channels of a written file carry: one channel carries the fold of
/// both sides, and channels past the second are silent.
pub fn output_layout(channels: u16) -> (r: Vec<OutputSample>)
    ensures
        r@ == Seq::new(channels as nat, |c: int| channel_content(channels as int, c)),
{
    let mut out: Vec<OutputSample> = Vec::new();
    let mut c: u16 = 0;
    while c < channels
        invariant
            c <= channels,
            out@ == Seq::new(c as nat, |k: int| channel_content(channels as int, k)),
        decreases channels - c,
    {
        let sample: OutputSample = if channels == 1 {
            OutputSample::Fold
        } else if c == 0 {
            OutputSample::Left
        } else if c == 1 {
            OutputSample::Right
        } else {
            OutputSample::Silence
        };
        out.push(sample);
        c = c + 1;
        proof {
            assert(out@ =~= Seq::new(c as nat, |k: int| channel_content(channels as int, k)));
        }
    }
    out
}

/// What the channels of a written stem carry: a stem has one channel, which
/// carries the fold of both sides, or else exactly both sides.
pub fn stem_layout(channels: u16) -> (r: Vec<OutputSample>)
    ensures
        r@ == if channels == 1 {
            seq![OutputSample::Fold]
        } else {
            seq![OutputSample::Left, OutputSample::Right]
        },
{
    let mut out: Vec<OutputSample> = Vec::new();
    if channels == 1 {
        out.push(OutputSample::Fold);
    } else {
        out.push(OutputSample::Left);
        out.push(OutputSample::Right);
    }
    proof {
        assert(out@ =~= if channels == 1 {
            seq![OutputSample::Fold]
        } else {
            seq![OutputSample::Left, OutputSample::Right]
        });
    }
    out
}

// ── Saved plug-in states ────────────────────────────────────────────────────

/// An insert as a project saves it.
#[derive(Debug)]
pub struct SavedInsert {
    pub id: String,
    pub has_state: bool,
}

/// A track as a project saves it.
#[derive(Debug)]
pub struct SavedTrack {
    pub id: String,
    pub inserts: Vec<SavedInsert>,
}

/// A saved state that is given to a plug-in instance.
#[derive(Clone, Copy, Debug, PartialEq, Eq, Structural)]
pub struct StateRestore {
    /// The saved track and insert.
    pub saved_track: usize,
    pub saved_insert: usize,
    /// The track and insert of the graph.
    pub track: usize,
    pub insert: usize,
}

/// The instance that a saved insert's state is given to: the one of the same
/// track and insert, if the insert has a state and came up.
pub open spec fn restore_of(saved: Seq<SavedTrack>, p: RuntimeProject, t: int, i: int) -> Option<
    StateRestore,
> {
    if !saved[t].inserts@[i].has_state {
        None
    } else {
        match report::instance_place(p, saved[t].id@, saved[t].inserts@[i].id@) {
            Some(place) => Some(
                StateRestore {
                    saved_track: t as usize,
                    saved_insert: i as usize,
                    track: place.0 as usize,
                    insert: place.1 as usize,
                },
            ),
            None => None,
        }
    }
}

/// The restores of the first `n` inserts of saved track `t`.
pub open spec fn track_restores(saved: Seq<SavedTrack>, p: RuntimeProject, t: int, n: nat) -> Seq<
    StateRestore,
>
    decreases n,
{
    if n == 0 {
        Seq::empty()
    } else {
        let rest = track_restores(saved, p, t, (n - 1) as nat);
        match restore_of(saved, p, t, n - 1) {
            Some(r) => rest.push(r),
            None => rest,
        }
    }
}

/// The restores of the first `n` saved tracks.
pub open spec fn state_restores(saved: Seq<SavedTrack>, p: RuntimeProject, n: nat) -> Seq<
    StateRestore,
>
    decreases n,
{
    if n == 0 {
        Seq::empty()
    } else {
        state_restores(saved, p, (n - 1) as nat) + track_restores(
            saved,
            p,
            n - 1,
            saved[n - 1].inserts@.len(),
        )
    }
}

/// Which saved states are given to which plug-in instances. An insert that did
/// not come up is passed over.
pub fn restore_offline_plugin_states(saved: &Vec<SavedTrack>, p: &RuntimeProject) -> (r: Vec<
    StateRestore,
>)
    ensures
        r@ == state_restores(saved@, *p, saved@.len()),
{
    let mut out: Vec<StateRestore> = Vec::new();
    let mut t: usize = 0;
    while t < saved.len()
        invariant
            t <= saved@.len(),
            out@ == state_restores(saved@, *p, t as nat),
        decreases saved@.len() - t,
    {
        let ghost before = out@;
        let mut i: usize = 0;
        proof {
            assert(before + Seq::<StateRestore>::empty() =~= before);
        }
        while i < saved[t].inserts.len()
            invariant
                t < saved@.len(),
                i <= saved@[t as int].inserts@.len(),
                before == state_restores(saved@, *p, t as nat),
                out@ == before + track_restores(saved@, *p, t as int, i as nat),
            decreases saved@[t as int].inserts@.len() - i,
        {
            if saved[t].inserts[i].has_state {
                if let Some((track, insert)) = p.instance_at(&saved[t].id, &saved[t].inserts[i].id) {
                    let restore = StateRestore {
                        saved_track: t,
                        saved_insert: i,
                        track,
                        insert,
                    };
                    proof {
                        let rest = track_restores(saved@, *p, t as int, i as nat);
                        assert(before + rest.push(restore) =~= (before + rest).push(restore));
                    }
                    out.push(restore);
                }
            }
            i = i + 1;
        }
        t = t + 1;
    }
    out
}

// ── Waiting for a bridged plug-in ───────────────────────────────────────────

/// How long an offline read waits for a bridged plug-in's block, in
/// microseconds.
pub const BRIDGE_WAIT_US: u64 = 5_000_000;

/// The pause between two tries of an offline read, in microseconds.
pub const BRIDGE_POLL_US: u64 = 100;

/// One try at reading a block of a bridged plug-in's output.
pub struct BridgeTry {
    /// Frames that the plug-in handed over.
    pub got: usize,
    /// Channels that they have.
    pub channels: usize,
    /// Whether the export had been cancelled by then.
    pub cancelled: bool,
    /// Microseconds since the first try.
    pub waited_us: u64,
}

/// What a try comes to: frames and channels, or nothing as long as the block
/// may still come.
///
/// A short block is refused. Its remainder would never arrive, and half a block
/// beside dry samples would click.
pub open spec fn bridge_outcome(t: BridgeTry, frames: usize) -> Option<(usize, usize)> {
    if t.got >= frames {
        Some((frames, t.channels))
    } else if t.got > 0 || t.cancelled || t.waited_us >= BRIDGE_WAIT_US {
        Some((0, 0))
    } else {
        None
    }
}

/// Decide a try at a block of `frames` frames. Without an answer the host
/// pauses for `BRIDGE_POLL_US` and tries again.
pub fn read_bridge_block(t: &BridgeTry, frames: usize) -> (r: Option<(usize, usize)>)
    ensures
        r == bridge_outcome(*t, frames),
{
    if t.got >= frames {
        return Some((frames, t.channels));
    }
    if t.got > 0 || t.cancelled || t.waited_us >= BRIDGE_WAIT_US {
        return Some((0, 0));
    }
    None
}

/// What a read comes to that makes these tries: the first answer.
pub open spec fn bridge_read(tries: Seq<BridgeTry>, frames: usize) -> Option<(usize, usize)>
    decreases tries.len(),
{
    if tries.len() == 0 {
        None
    } else {
        match bridge_read(tries.drop_last(), frames) {
            Some(answer) => Some(answer),
            None => bridge_outcome(tries.last(), frames),
        }
    }
}

/// An offline read never hands over a part of a block.
pub proof fn law_offline_reads_are_whole(tries: Seq<BridgeTry>, frames: usize)
    ensures
        bridge_read(tries, frames) matches Some((got, channels)) ==> {
            ||| got == frames
            ||| got == 0 && channels == 0
        },
    decreases tries.len(),
{
    if tries.len() > 0 {
        law_offline_reads_are_whole(tries.drop_last(), frames);
    }
}

/// A read has ended once a try found the export cancelled or the time up.
pub proof fn law_offline_reads_end(tries: Seq<BridgeTry>, frames: usize)
    requires
        tries.len() > 0,
        tries.last().cancelled || tries.last().waited_us >= BRIDGE_WAIT_US,
    ensures
        bridge_read(tries, frames) is Some,
{
}

/// A read that had to wait is handed the whole block when it comes.
pub proof fn law_offline_reads_wait_for_the_block(tries: Seq<BridgeTry>, frames: usize)
    requires
        tries.len() > 0,
        bridge_read(tries.drop_last(), frames) is None,
        tries.last().got >= frames,
    ensures
        bridge_read(tries, frames) == Some((frames, tries.last().channels)),
{
}

// ── The timeline of an export ───────────────────────────────────────────────

/// The frames of some blocks together.
pub open spec fn frames_of(blocks: Seq<(usize, bool)>) -> nat
    decreases blocks.len(),
{
    if blocks.len() == 0 {
        0
    } else {
        frames_of(blocks.drop_last()) + blocks.last().0 as nat
    }
}

/// An export goes through its range once and in order: after some blocks, the
/// next one is asked for at the request's start plus the frames rendered so
/// far.
pub proof fn law_export_follows_the_timeline(
    request: OfflineRenderRequest,
    warmup: u64,
    blocks: Seq<(usize, bool)>,
)
    requires
        request.start_sample + frames_of(blocks) <= u64::MAX,
    ensures
        ({
            let s = after_blocks(OfflineRender::started(request, warmup), blocks);
            &&& s.produced == frames_of(blocks)
            &&& s.next(false) matches RenderCommand::Render { sample, frames } ==> sample
                == request.start_sample + frames_of(blocks) && frames == request.block_size
        }),
    decreases blocks.len(),
{
    lemma_export_place(request, warmup, blocks);
}

proof fn lemma_export_place(
    request: OfflineRenderRequest,
    warmup: u64,
    blocks: Seq<(usize, bool)>,
)
    requires
        request.start_sample + frames_of(blocks) <= u64::MAX,
    ensures
        ({
            let s = after_blocks(OfflineRender::started(request, warmup), blocks);
            &&& s.produced == frames_of(blocks)
            &&& s.pos == request.start_sample + frames_of(blocks)
            &&& s.block == request.block_size
            &&& s.tail == request.tail
            &&& s.write_start == OfflineRender::started(request, warmup).write_start
            &&& s.content_end == OfflineRender::started(request, warmup).content_end
            &&& s.produce_cap == OfflineRender::started(request, warmup).produce_cap
        }),
    decreases blocks.len(),
{
    if blocks.len() > 0 {
        lemma_export_place(request, warmup, blocks.drop_last());
    }
}

/// An export renders until its range is covered and no longer: it asks for
/// another block exactly as long as the frames rendered so far do not cover the
/// warm-up, the range and, where it has one, the tail.
pub proof fn law_export_ends_with_its_range(
    request: OfflineRenderRequest,
    warmup: u64,
    blocks: Seq<(usize, bool)>,
    tail: int,
)
    requires
        request.start_sample < request.end_sample,
        tail == match request.tail {
            ExportTailMode::NoTail => 0,
            ExportTailMode::Fixed { frames } => frames as int,
            ExportTailMode::UntilSilence { max_frames, threshold } => max_frames as int,
        },
        warmup + (request.end_sample - request.start_sample) + tail <= u64::MAX,
        request.start_sample + frames_of(blocks) <= u64::MAX,
    ensures
        ({
            let s = after_blocks(OfflineRender::started(request, warmup), blocks);
            let all = warmup + (request.end_sample - request.start_sample) + tail;
            &&& s.next(false) is Render <==> frames_of(blocks) < all
            &&& s.next(false) is Finished <==> frames_of(blocks) >= all
            &&& s.next(true) is Cancelled
        }),
{
    lemma_export_place(request, warmup, blocks);
}

/// A rendered frame is written exactly when it lies behind the warm-up and
/// before the end of the range and its tail: of the block that comes next, frame
/// `f` is in the written slice if and only if it does.
pub proof fn law_written_frames_are_those_of_the_range(
    request: OfflineRenderRequest,
    warmup: u64,
    blocks: Seq<(usize, bool)>,
    frames: usize,
    tail: int,
    f: int,
)
    requires
        request.start_sample < request.end_sample,
        tail == match request.tail {
            ExportTailMode::NoTail => 0,
            ExportTailMode::Fixed { frames } => frames as int,
            ExportTailMode::UntilSilence { max_frames, threshold } => max_frames as int,
        },
        warmup + (request.end_sample - request.start_sample) + tail <= u64::MAX,
        request.start_sample + frames_of(blocks) <= u64::MAX,
        frames_of(blocks) + frames <= u64::MAX,
        0 <= f < frames,
    ensures
        ({
            let s = after_blocks(OfflineRender::started(request, warmup), blocks);
            let place = frames_of(blocks) + f;
            (s.emitted(frames) matches Some(slice) && slice.from <= f < slice.to) <==> warmup
                <= place < warmup + (request.end_sample - request.start_sample) + tail
        }),
{
    lemma_export_place(request, warmup, blocks);
}

/// A tail that rings until it is silent ends with a quiet block, and only with
/// one, and only behind the content; any other tail never ends early.
pub proof fn law_only_a_quiet_tail_ends_early(
    request: OfflineRenderRequest,
    warmup: u64,
    blocks: Seq<(usize, bool)>,
    frames: usize,
    quiet: bool,
)
    requires
        request.start_sample < request.end_sample,
        warmup + (request.end_sample - request.start_sample) <= u64::MAX,
        request.start_sample + frames_of(blocks) <= u64::MAX,
    ensures
        ({
            let s = after_blocks(OfflineRender::started(request, warmup), blocks);
            &&& s.ends_in_silence(frames, quiet) ==> quiet && request.tail is UntilSilence
                && frames_of(blocks) >= warmup + (request.end_sample - request.start_sample)
            &&& quiet && frames > 0 && frames_of(blocks) >= warmup + (request.end_sample
                - request.start_sample) && frames_of(blocks) + frames <= u64::MAX && (
            request.tail matches ExportTailMode::UntilSilence { max_frames, threshold } && warmup
                + (request.end_sample - request.start_sample) + max_frames > frames_of(blocks)
                && warmup + (request.end_sample - request.start_sample) + max_frames <= u64::MAX)
                ==> s.ends_in_silence(frames, quiet)
        }),
{
    lemma_export_place(request, warmup, blocks);
}

/// The warm-up is the latency from a clip to the master's output: what the
/// longest path and the master's inserts hold back together, and nothing where
/// delays are not compensated.
pub proof fn law_warmup_is_the_whole_latency(graph: RuntimeLatencyGraph)
    ensures
        graph.max_path_latency_samples + graph.master_plugin_latency <= u32::MAX ==> warmup(
            graph,
            true,
        ) == graph.max_path_latency_samples + graph.master_plugin_latency,
        warmup(graph, true) >= graph.max_path_latency_samples,
        warmup(graph, true) >= graph.master_plugin_latency,
        warmup(graph, false) == 0,
{
}

/// A file's first two channels carry both sides, one channel alone the fold of
/// both, and any further channel nothing.
pub proof fn law_channels_carry_both_sides(channels: int, c: int)
    requires
        0 <= c < channels,
    ensures
        channel_content(channels, c) == OutputSample::Fold <==> channels == 1,
        channel_content(channels, c) == OutputSample::Left <==> channels > 1 && c == 0,
        channel_content(channels, c) == OutputSample::Right <==> channels > 1 && c == 1,
        channel_content(channels, c) == OutputSample::Silence <==> c > 1,
{
}

proof fn lemma_track_restores(saved: Seq<SavedTrack>, p: RuntimeProject, t: int, n: nat)
    requires
        0 <= t < saved.len() <= usize::MAX,
        n <= saved[t].inserts@.len() <= usize::MAX,
        p.tracks@.len() <= usize::MAX,
        forall|j: int|
            0 <= j < p.tracks@.len() ==> (#[trigger] p.tracks@[j]).inserts@.len() <= usize::MAX,
    ensures
        forall|k: int|
            0 <= k < track_restores(saved, p, t, n).len() ==> restores(
                #[trigger] track_restores(saved, p, t, n)[k],
                saved,
                p,
            ) && track_restores(saved, p, t, n)[k].saved_track == t,
        forall|i: int|
            0 <= i < n && (#[trigger] saved[t].inserts@[i]).has_state && report::instance_place(
                p,
                saved[t].id@,
                saved[t].inserts@[i].id@,
            ) is Some ==> exists|k: int|
                0 <= k < track_restores(saved, p, t, n).len() && (#[trigger] track_restores(
                    saved,
                    p,
                    t,
                    n,
                )[k]).saved_insert == i,
    decreases n,
{
    if n > 0 {
        let m = (n - 1) as nat;
        lemma_track_restores(saved, p, t, m);
        let rest = track_restores(saved, p, t, m);
        let all = track_restores(saved, p, t, n);
        report_laws::law_instance_is_that_of_the_named_insert(
            p,
            saved[t].id@,
            saved[t].inserts@[n - 1].id@,
        );
        assert forall|k: int| 0 <= k < all.len() implies restores(#[trigger] all[k], saved, p)
            && all[k].saved_track == t by {
            if k < rest.len() {
                assert(all[k] == rest[k]);
            }
        }
        assert forall|i: int|
            0 <= i < n && (#[trigger] saved[t].inserts@[i]).has_state && report::instance_place(
                p,
                saved[t].id@,
                saved[t].inserts@[i].id@,
            ) is Some implies exists|k: int|
            0 <= k < all.len() && (#[trigger] all[k]).saved_insert == i by {
            if i < m {
                let k = choose|k: int|
                    0 <= k < rest.len() && (#[trigger] rest[k]).saved_insert == i;
                assert(all[k] == rest[k]);
            } else {
                assert(all[all.len() - 1].saved_insert == i);
            }
        }
    }
}

/// Whether a restore gives a saved state to the instance of the same track and
/// insert.
pub open spec fn restores(r: StateRestore, saved: Seq<SavedTrack>, p: RuntimeProject) -> bool {
    &&& r.saved_track < saved.len()
    &&& r.saved_insert < saved[r.saved_track as int].inserts@.len()
    &&& saved[r.saved_track as int].inserts@[r.saved_insert as int].has_state
    &&& r.track < p.tracks@.len()
    &&& r.insert < p.tracks@[r.track as int].inserts@.len()
    &&& p.tracks@[r.track as int].id@ == saved[r.saved_track as int].id@
    &&& p.tracks@[r.track as int].inserts@[r.insert as int].id@
        == saved[r.saved_track as int].inserts@[r.saved_insert as int].id@
    &&& p.tracks@[r.track as int].inserts@[r.insert as int].native is Some
}

/// Every saved state is given to the instance of the same track and insert where
/// there is one, and no instance is given anything else.
pub proof fn law_saved_states_go_to_their_instances(
    saved: Seq<SavedTrack>,
    p: RuntimeProject,
    n: nat,
)
    requires
        n <= saved.len() <= usize::MAX,
        p.tracks@.len() <= usize::MAX,
        forall|t: int|
            0 <= t < saved.len() ==> (#[trigger] saved[t]).inserts@.len() <= usize::MAX,
        forall|t: int|
            0 <= t < p.tracks@.len() ==> (#[trigger] p.tracks@[t]).inserts@.len() <= usize::MAX,
    ensures
        forall|k: int|
            0 <= k < state_restores(saved, p, n).len() ==> restores(
                #[trigger] state_restores(saved, p, n)[k],
                saved,
                p,
            ),
        forall|t: int, i: int|
            #![trigger saved[t].inserts@[i]]
            0 <= t < n && 0 <= i < saved[t].inserts@.len() && saved[t].inserts@[i].has_state
                && report::instance_place(p, saved[t].id@, saved[t].inserts@[i].id@) is Some
                ==> exists|k: int|
                0 <= k < state_restores(saved, p, n).len() && (#[trigger] state_restores(
                    saved,
                    p,
                    n,
                )[k]).saved_track == t && state_restores(saved, p, n)[k].saved_insert == i,
    decreases n,
{
    if n > 0 {
        let m = (n - 1) as nat;
        law_saved_states_go_to_their_instances(saved, p, m);
        assert(saved[m as int].inserts@.len() <= usize::MAX);
        lemma_track_restores(saved, p, m as int, saved[m as int].inserts@.len());
        let rest = state_restores(saved, p, m);
        let own = track_restores(saved, p, m as int, saved[m as int].inserts@.len());
        let all = state_restores(saved, p, n);
        assert(all == rest + own);
        assert forall|k: int| 0 <= k < all.len() implies restores(#[trigger] all[k], saved, p) by {
            if k < rest.len() {
                assert(all[k] == rest[k]);
            } else {
                assert(all[k] == own[k - rest.len()]);
            }
        }
        assert forall|t: int, i: int|
            #![trigger saved[t].inserts@[i]]
            0 <= t < n && 0 <= i < saved[t].inserts@.len() && saved[t].inserts@[i].has_state
                && report::instance_place(
                p,
                saved[t].id@,
                saved[t].inserts@[i].id@,
            ) is Some implies exists|k: int|
            0 <= k < all.len() && (#[trigger] all[k]).saved_track == t && all[k].saved_insert
                == i by {
            if t < m {
                let k = choose|k: int|
                    0 <= k < rest.len() && (#[trigger] rest[k]).saved_track == t
                        && rest[k].saved_insert == i;
                assert(all[k] == rest[k]);
            } else {
                let k = choose|k: int| 0 <= k < own.len() && (#[trigger] own[k]).saved_insert == i;
                assert(all[rest.len() + k] == own[k]);
            }
        }
    }
}

/// Progress is reported after every sixteenth block, with the frames that are
/// written of those that there will be.
pub proof fn law_every_sixteenth_block_is_reported(r: OfflineRender)
    ensures
        r.reported() is Some <==> r.blocks % 16 == 0,
        r.reported() matches Some(p) ==> p.stage is Rendering,
        r.reported() matches Some(p) ==> (r.total > 0 ==> p.total_frames == r.total),
        r.reported() matches Some(p) ==> (r.written <= r.total && r.total > 0 ==> p.rendered_frames
            == r.written),
{
}

} // verus!
