//! The order in which an export touches files.
//!
//! An export writes to a partial file beside its output and puts it in place of
//! the output only once it is complete. The host performs the phases; this
//! module says which comes next and what is cleaned up.

use vstd::prelude::*;

use crate::engine::control_laws;
use crate::engine::input::TrackSnapshot;
use crate::engine::live;
use crate::engine::live::find_track;
use crate::export::offline_renderer;
use crate::export::render_progress;
use crate::export::render_progress::ExportProgress;
use crate::export::render_progress::ExportStage;
use crate::export::render_request::ExportNormalizeMode;
use crate::export::render_request::OfflineRenderRequest;
use crate::export::ExportError;
use crate::text::join;

verus! {

/// The partial file that an export writes to.
pub open spec fn partial_path(output: Seq<char>) -> Seq<char> {
    output + ".partial"@
}

/// The partial file that an export writes to.
pub fn partial_path_for(output: &str) -> (r: String)
    ensures
        r@ == partial_path(output@),
{
    join(output, ".partial")
}

/// The partial file is never the output itself, and two outputs never share
/// one.
pub proof fn law_partial_files_are_distinct(a: Seq<char>, b: Seq<char>)
    ensures
        partial_path(a) != a,
        a != b ==> partial_path(a) != partial_path(b),
{
    reveal_strlit(".partial");
    assert(partial_path(a).len() == a.len() + 8);
    if partial_path(a) == partial_path(b) {
        assert(a =~= partial_path(a).subrange(0, a.len() as int));
        assert(b =~= partial_path(b).subrange(0, b.len() as int));
        assert(partial_path(a).len() == partial_path(b).len());
    }
}

// ── One file ────────────────────────────────────────────────────────────────

/// What the host does next in an export.
#[derive(Clone, Copy, Debug, PartialEq, Eq, Structural)]
pub enum ExportPhase {
    /// Look whether the output's directory exists.
    CheckDirectory,
    /// Render once without writing, to find the peak.
    Analyze,
    /// Remove what an earlier run may have left, and open the encoder on the
    /// partial file.
    CreateEncoder,
    /// Render into the encoder.
    Render,
    /// Complete the partial file.
    Finalize,
    /// Move the partial file over the output, in one step: a move that fails
    /// leaves both as they were.
    Rename,
    /// Nothing: the output is in place.
    Done,
    /// Drop the encoder and remove the partial file; the export failed.
    RemovePartial,
    /// Nothing: the export failed before it touched a file.
    Refused,
}

/// What follows a phase. `normalizes` is whether the peak is analyzed first. The
/// old output is never removed, only replaced by the complete new one.
pub open spec fn phase_after(phase: ExportPhase, ok: bool, normalizes: bool) -> ExportPhase {
    match phase {
        ExportPhase::CheckDirectory => if !ok {
            ExportPhase::Refused
        } else if normalizes {
            ExportPhase::Analyze
        } else {
            ExportPhase::CreateEncoder
        },
        ExportPhase::Analyze => if ok {
            ExportPhase::CreateEncoder
        } else {
            ExportPhase::Refused
        },
        ExportPhase::CreateEncoder => if ok {
            ExportPhase::Render
        } else {
            ExportPhase::RemovePartial
        },
        ExportPhase::Render => if ok {
            ExportPhase::Finalize
        } else {
            ExportPhase::RemovePartial
        },
        ExportPhase::Finalize => if ok {
            ExportPhase::Rename
        } else {
            ExportPhase::RemovePartial
        },
        ExportPhase::Rename => if ok {
            ExportPhase::Done
        } else {
            ExportPhase::RemovePartial
        },
        ExportPhase::Done => ExportPhase::Done,
        ExportPhase::RemovePartial => ExportPhase::RemovePartial,
        ExportPhase::Refused => ExportPhase::Refused,
    }
}

/// What follows a phase.
pub fn next_phase(phase: ExportPhase, ok: bool, normalizes: bool) -> (r: ExportPhase)
    ensures
        r == phase_after(phase, ok, normalizes),
{
    match phase {
        ExportPhase::CheckDirectory => if !ok {
            ExportPhase::Refused
        } else if normalizes {
            ExportPhase::Analyze
        } else {
            ExportPhase::CreateEncoder
        },
        ExportPhase::Analyze => if ok {
            ExportPhase::CreateEncoder
        } else {
            ExportPhase::Refused
        },
        ExportPhase::CreateEncoder => if ok {
            ExportPhase::Render
        } else {
            ExportPhase::RemovePartial
        },
        ExportPhase::Render => if ok {
            ExportPhase::Finalize
        } else {
            ExportPhase::RemovePartial
        },
        ExportPhase::Finalize => if ok {
            ExportPhase::Rename
        } else {
            ExportPhase::RemovePartial
        },
        ExportPhase::Rename => if ok {
            ExportPhase::Done
        } else {
            ExportPhase::RemovePartial
        },
        ExportPhase::Done => ExportPhase::Done,
        ExportPhase::RemovePartial => ExportPhase::RemovePartial,
        ExportPhase::Refused => ExportPhase::Refused,
    }
}

/// The progress that is reported when a phase begins, if any is.
pub open spec fn phase_progress(phase: ExportPhase, total: u64) -> Option<ExportProgress> {
    match phase {
        ExportPhase::CheckDirectory => Some(
            render_progress::stage_progress(ExportStage::Preparing, total),
        ),
        ExportPhase::Analyze => Some(
            render_progress::stage_progress(ExportStage::AnalyzingPeak, total),
        ),
        ExportPhase::Render => Some(render_progress::progress(ExportStage::Encoding, 0, total)),
        ExportPhase::Finalize => Some(
            render_progress::progress(ExportStage::Finalizing, total, total),
        ),
        ExportPhase::Done => Some(render_progress::stage_progress(ExportStage::Complete, total)),
        _ => None,
    }
}

/// The progress that is reported when a phase begins, if any is.
pub fn report_phase(phase: ExportPhase, total: u64) -> (r: Option<ExportProgress>)
    ensures
        r == phase_progress(phase, total),
{
    match phase {
        ExportPhase::CheckDirectory => Some(
            ExportProgress::stage_only(ExportStage::Preparing, total),
        ),
        ExportPhase::Analyze => Some(
            ExportProgress::stage_only(ExportStage::AnalyzingPeak, total),
        ),
        ExportPhase::Render => Some(ExportProgress::new(ExportStage::Encoding, 0, total)),
        ExportPhase::Finalize => Some(ExportProgress::new(ExportStage::Finalizing, total, total)),
        ExportPhase::Done => Some(ExportProgress::stage_only(ExportStage::Complete, total)),
        _ => None,
    }
}

/// Render progress as it is reported while the encoder is fed.
pub fn encoding_progress(rendering: ExportProgress) -> (r: ExportProgress)
    ensures
        r == render_progress::progress(
            ExportStage::Encoding,
            rendering.rendered_frames,
            rendering.total_frames,
        ),
{
    ExportProgress::new(ExportStage::Encoding, rendering.rendered_frames, rendering.total_frames)
}

/// An export that can begin: its length for progress, and whether the peak is
/// analyzed first.
#[derive(Clone, Copy, Debug, PartialEq, Eq, Structural)]
pub struct ExportPlan {
    pub total: u64,
    pub normalizes: bool,
}

/// Begin an export, or say why its request is not valid.
pub fn export_arrangement(request: &OfflineRenderRequest) -> (r: Result<ExportPlan, ExportError>)
    ensures
        request.refusal() matches Some(why) ==> (r matches Err(ExportError::Settings(text))
            && text@ == why),
        request.refusal() is None ==> r == Ok::<_, ExportError>(
            ExportPlan {
                total: offline_renderer::held_sum(request.content(), request.tail_cap()),
                normalizes: request.normalize is PeakDb,
            },
        ),
{
    match request.validate() {
        Ok(_) => {},
        Err(why) => {
            return Err(ExportError::Settings(why));
        },
    }
    let content: u64 = request.content_frames();
    let tail: u64 = request.max_tail_frames();
    let total: u64 = if tail > 0xffff_ffff_ffff_ffff - content {
        0xffff_ffff_ffff_ffff
    } else {
        content + tail
    };
    let normalizes: bool = match request.normalize {
        ExportNormalizeMode::PeakDb { .. } => true,
        ExportNormalizeMode::Unchanged => false,
    };
    Ok(ExportPlan { total, normalizes })
}

/// What is said of an output directory that does not exist.
pub fn missing_directory(parent: &str) -> (r: ExportError)
    ensures
        r matches ExportError::Settings(why) && why@ == "output directory does not exist: "@
            + parent@,
{
    ExportError::Settings(join("output directory does not exist: ", parent))
}

// ── What becomes of the files ───────────────────────────────────────────────

/// What a path holds.
pub enum FileContent {
    Nothing,
    /// What was there before the export.
    Old,
    /// An unfinished export.
    Incomplete,
    /// The finished export.
    Complete,
}

/// The output and its partial file.
pub struct ExportFiles {
    pub output: FileContent,
    pub partial: FileContent,
}

/// What a phase leaves behind. A failed phase leaves the files as they were,
/// but for the encoder, which may have begun its file.
pub open spec fn files_after(files: ExportFiles, phase: ExportPhase, ok: bool) -> ExportFiles {
    match phase {
        ExportPhase::CreateEncoder => ExportFiles { partial: FileContent::Incomplete, ..files },
        ExportPhase::Finalize => if ok {
            ExportFiles { partial: FileContent::Complete, ..files }
        } else {
            files
        },
        ExportPhase::Rename => if ok {
            ExportFiles { output: files.partial, partial: FileContent::Nothing }
        } else {
            files
        },
        ExportPhase::RemovePartial => ExportFiles { partial: FileContent::Nothing, ..files },
        _ => files,
    }
}

/// The phase and the files after the host performed some phases, with these
/// outcomes.
pub open spec fn export_run(
    outcomes: Seq<bool>,
    normalizes: bool,
    files: ExportFiles,
) -> (ExportPhase, ExportFiles)
    decreases outcomes.len(),
{
    if outcomes.len() == 0 {
        (ExportPhase::CheckDirectory, files)
    } else {
        let before = export_run(outcomes.drop_last(), normalizes, files);
        let ok = outcomes.last();
        (
            phase_after(before.0, ok, normalizes),
            files_after(before.1, before.0, ok),
        )
    }
}

/// Which files an export that is at a phase can have.
pub open spec fn files_fit(phase: ExportPhase, now: ExportFiles, before: ExportFiles) -> bool {
    match phase {
        ExportPhase::CheckDirectory => now == before,
        ExportPhase::Analyze => now == before,
        ExportPhase::CreateEncoder => now == before,
        ExportPhase::Refused => now == before,
        ExportPhase::Render => now.output == before.output && now.partial is Incomplete,
        ExportPhase::Finalize => now.output == before.output && now.partial is Incomplete,
        ExportPhase::Rename => now.output == before.output && now.partial is Complete,
        ExportPhase::Done => now.output is Complete && now.partial is Nothing,
        ExportPhase::RemovePartial => now.output == before.output,
    }
}

proof fn lemma_files_fit(outcomes: Seq<bool>, normalizes: bool, files: ExportFiles)
    ensures
        ({
            let run = export_run(outcomes, normalizes, files);
            files_fit(run.0, run.1, files)
        }),
    decreases outcomes.len(),
{
    if outcomes.len() > 0 {
        lemma_files_fit(outcomes.drop_last(), normalizes, files);
    }
}

/// A finished export has its output in place and leaves no partial file,
/// whatever was there before.
pub proof fn law_finished_export_replaces_the_output(
    outcomes: Seq<bool>,
    normalizes: bool,
    files: ExportFiles,
)
    requires
        export_run(outcomes, normalizes, files).0 == ExportPhase::Done,
    ensures
        export_run(outcomes, normalizes, files).1.output is Complete,
        export_run(outcomes, normalizes, files).1.partial is Nothing,
{
    lemma_files_fit(outcomes, normalizes, files);
}

/// An export that fails or is cancelled, at whatever phase, leaves the old
/// output as it was, and once cleaned up no partial file of its own.
pub proof fn law_failed_export_leaves_the_output(
    outcomes: Seq<bool>,
    normalizes: bool,
    files: ExportFiles,
    ok: bool,
)
    requires
        export_run(outcomes, normalizes, files).0 == ExportPhase::RemovePartial || export_run(
            outcomes,
            normalizes,
            files,
        ).0 == ExportPhase::Refused,
    ensures
        ({
            let run = export_run(outcomes, normalizes, files);
            let cleaned = files_after(run.1, run.0, ok);
            &&& cleaned.output == files.output
            &&& run.0 == ExportPhase::RemovePartial ==> cleaned.partial is Nothing
            &&& run.0 == ExportPhase::Refused ==> cleaned == files
        }),
{
    lemma_files_fit(outcomes, normalizes, files);
}

/// Until the export is done the output is what it was: there is no moment
/// without it.
pub proof fn law_output_is_touched_last(
    outcomes: Seq<bool>,
    normalizes: bool,
    files: ExportFiles,
)
    requires
        export_run(outcomes, normalizes, files).0 != ExportPhase::Done,
    ensures
        export_run(outcomes, normalizes, files).1.output == files.output,
{
    lemma_files_fit(outcomes, normalizes, files);
}

// ── Many files in one pass ──────────────────────────────────────────────────

/// A track that is exported to a file of its own.
#[derive(Debug)]
pub struct TrackExportTarget {
    pub track_id: String,
    pub request: OfflineRenderRequest,
}

/// Whether two requests can be rendered in one pass.
pub open spec fn same_geometry(a: OfflineRenderRequest, b: OfflineRenderRequest) -> bool {
    &&& a.sample_rate == b.sample_rate
    &&& a.channels == b.channels
    &&& a.start_sample == b.start_sample
    &&& a.end_sample == b.end_sample
}

/// The first target, from `from` on, whose track the project does not have.
pub open spec fn first_unknown(
    targets: Seq<TrackExportTarget>,
    tracks: Seq<TrackSnapshot>,
    from: int,
) -> Option<int>
    decreases targets.len() - from,
{
    if from >= targets.len() {
        None
    } else if live::track_with_id(tracks, targets[from].track_id@, 0) is None {
        Some(from)
    } else {
        first_unknown(targets, tracks, from + 1)
    }
}

/// Whether all targets can be rendered in one pass.
pub open spec fn one_pass(targets: Seq<TrackExportTarget>) -> bool {
    forall|i: int|
        0 <= i < targets.len() ==> same_geometry(
            (#[trigger] targets[i]).request,
            targets[0].request,
        )
}

/// Whether no target is normalized.
pub open spec fn none_normalized(targets: Seq<TrackExportTarget>) -> bool {
    forall|i: int| 0 <= i < targets.len() ==> (#[trigger] targets[i]).request.normalize is Unchanged
}

/// Why targets cannot be exported in one pass; `None` where they can.
pub open spec fn batch_refusal(
    targets: Seq<TrackExportTarget>,
    tracks: Seq<TrackSnapshot>,
) -> Option<Seq<char>> {
    if targets.len() == 0 {
        None
    } else if !one_pass(targets) {
        Some("batch export targets must share render settings"@)
    } else if !none_normalized(targets) {
        Some("normalization is unavailable for single-pass stem export"@)
    } else {
        match first_unknown(targets, tracks, 0) {
            Some(i) => Some("export track not found: "@ + targets[i].track_id@),
            None => None,
        }
    }
}

fn share_settings(targets: &Vec<TrackExportTarget>) -> (r: bool)
    requires
        targets@.len() > 0,
    ensures
        r == one_pass(targets@),
{
    let first: OfflineRenderRequest = targets[0].request;
    let mut i: usize = 0;
    while i < targets.len()
        invariant
            targets@.len() > 0,
            i <= targets@.len(),
            first == targets@[0].request,
            forall|j: int| 0 <= j < i ==> same_geometry((#[trigger] targets@[j]).request, first),
        decreases targets@.len() - i,
    {
        let other: OfflineRenderRequest = targets[i].request;
        if other.sample_rate != first.sample_rate || other.channels != first.channels
            || other.start_sample != first.start_sample || other.end_sample != first.end_sample {
            proof {
                assert(!same_geometry(targets@[i as int].request, targets@[0].request));
            }
            return false;
        }
        i = i + 1;
    }
    true
}

fn leave_levels(targets: &Vec<TrackExportTarget>) -> (r: bool)
    ensures
        r == none_normalized(targets@),
{
    let mut i: usize = 0;
    while i < targets.len()
        invariant
            i <= targets@.len(),
            forall|j: int|
                0 <= j < i ==> (#[trigger] targets@[j]).request.normalize is Unchanged,
        decreases targets@.len() - i,
    {
        match targets[i].request.normalize {
            ExportNormalizeMode::Unchanged => {},
            _ => {
                proof {
                    assert(!(targets@[i as int].request.normalize is Unchanged));
                }
                return false;
            },
        }
        i = i + 1;
    }
    true
}

/// The tracks of the targets, in the targets' order, or why they cannot be
/// exported in one pass.
pub fn export_tracks_single_pass(
    targets: &Vec<TrackExportTarget>,
    tracks: &Vec<TrackSnapshot>,
) -> (r: Result<Vec<usize>, ExportError>)
    ensures
        batch_refusal(targets@, tracks@) matches Some(why) ==> (r matches Err(
            ExportError::Settings(text),
        ) && text@ == why),
        batch_refusal(targets@, tracks@) is None ==> (r matches Ok(indices) && {
            &&& indices@.len() == targets@.len()
            &&& forall|i: int|
                0 <= i < indices@.len() ==> live::track_with_id(
                    tracks@,
                    targets@[i].track_id@,
                    0,
                ) == Some((#[trigger] indices@[i]) as int)
        }),
{
    let mut indices: Vec<usize> = Vec::new();
    if targets.len() == 0 {
        return Ok(indices);
    }
    if !share_settings(targets) {
        return Err(
            ExportError::Settings("batch export targets must share render settings".to_owned()),
        );
    }
    if !leave_levels(targets) {
        return Err(
            ExportError::Settings(
                "normalization is unavailable for single-pass stem export".to_owned(),
            ),
        );
    }
    let mut i: usize = 0;
    while i < targets.len()
        invariant
            i <= targets@.len(),
            first_unknown(targets@, tracks@, 0) == first_unknown(targets@, tracks@, i as int),
            indices@.len() == i,
            forall|j: int|
                0 <= j < i ==> live::track_with_id(tracks@, targets@[j].track_id@, 0) == Some(
                    (#[trigger] indices@[j]) as int,
                ),
            targets@.len() > 0,
            one_pass(targets@),
            none_normalized(targets@),
        decreases targets@.len() - i,
    {
        match find_track(tracks, &targets[i].track_id) {
            Some(k) => {
                indices.push(k);
            },
            None => {
                return Err(
                    ExportError::Settings(
                        join("export track not found: ", &targets[i].track_id),
                    ),
                );
            },
        }
        i = i + 1;
    }
    Ok(indices)
}

/// Where an export of many files is.
#[derive(Clone, Copy, Debug, PartialEq, Eq, Structural)]
pub enum BatchPhase {
    /// Making the directory of file `index` and opening its encoder.
    Open { index: usize },
    /// Rendering into all encoders.
    Render,
    /// Completing file `index` and moving it over its output, in one step: a move
    /// that fails leaves the output as it was.
    Place { index: usize },
    Done,
    /// Failed: close all encoders and remove the partial files from `from` on
    /// and before `to`.
    CleanUp { from: usize, to: usize },
}

/// What an export of `n` files begins with.
pub open spec fn batch_start(n: usize) -> BatchPhase {
    if n == 0 {
        BatchPhase::Done
    } else {
        BatchPhase::Open { index: 0 }
    }
}

/// What follows a phase of an export of `n` files. What is cleaned up is every
/// partial file that may exist: files that are in place stay.
pub open spec fn batch_after(phase: BatchPhase, ok: bool, n: usize) -> BatchPhase {
    match phase {
        BatchPhase::Open { index } => if !ok {
            BatchPhase::CleanUp { from: 0, to: (index + 1) as usize }
        } else if index + 1 < n {
            BatchPhase::Open { index: (index + 1) as usize }
        } else {
            BatchPhase::Render
        },
        BatchPhase::Render => if ok {
            BatchPhase::Place { index: 0 }
        } else {
            BatchPhase::CleanUp { from: 0, to: n }
        },
        BatchPhase::Place { index } => if !ok {
            BatchPhase::CleanUp { from: index, to: n }
        } else if index + 1 < n {
            BatchPhase::Place { index: (index + 1) as usize }
        } else {
            BatchPhase::Done
        },
        BatchPhase::Done => BatchPhase::Done,
        BatchPhase::CleanUp { from, to } => BatchPhase::CleanUp { from, to },
    }
}

/// What an export of `n` files begins with.
pub fn begin_batch(n: usize) -> (r: BatchPhase)
    ensures
        r == batch_start(n),
{
    if n == 0 {
        BatchPhase::Done
    } else {
        BatchPhase::Open { index: 0 }
    }
}

/// What follows a phase of an export of `n` files.
pub fn next_batch_phase(phase: BatchPhase, ok: bool, n: usize) -> (r: BatchPhase)
    requires
        batch_valid(phase, n),
    ensures
        r == batch_after(phase, ok, n),
        batch_valid(r, n),
{
    match phase {
        BatchPhase::Open { index } => if !ok {
            BatchPhase::CleanUp { from: 0, to: index + 1 }
        } else if index + 1 < n {
            BatchPhase::Open { index: index + 1 }
        } else {
            BatchPhase::Render
        },
        BatchPhase::Render => if ok {
            BatchPhase::Place { index: 0 }
        } else {
            BatchPhase::CleanUp { from: 0, to: n }
        },
        BatchPhase::Place { index } => if !ok {
            BatchPhase::CleanUp { from: index, to: n }
        } else if index + 1 < n {
            BatchPhase::Place { index: index + 1 }
        } else {
            BatchPhase::Done
        },
        BatchPhase::Done => BatchPhase::Done,
        BatchPhase::CleanUp { from, to } => BatchPhase::CleanUp { from, to },
    }
}

/// A phase speaks of files that there are.
pub open spec fn batch_valid(phase: BatchPhase, n: usize) -> bool {
    match phase {
        BatchPhase::Open { index } => index < n,
        BatchPhase::Render => n > 0,
        BatchPhase::Place { index } => index < n,
        BatchPhase::Done => true,
        BatchPhase::CleanUp { from, to } => from <= to <= n,
    }
}

/// The partial files after a phase. Opening an encoder may begin its file even
/// where it fails; a file in place has none any more.
pub open spec fn partials_after(partials: Set<int>, phase: BatchPhase, ok: bool) -> Set<int> {
    match phase {
        BatchPhase::Open { index } => partials.insert(index as int),
        BatchPhase::Place { index } => if ok {
            partials.remove(index as int)
        } else {
            partials
        },
        BatchPhase::CleanUp { from, to } => partials.difference(
            Set::new(|i: int| from <= i < to),
        ),
        _ => partials,
    }
}

/// The outputs after a phase: a file that was placed is complete, and nothing
/// else is touched.
pub open spec fn outputs_after(
    outputs: Seq<FileContent>,
    phase: BatchPhase,
    ok: bool,
) -> Seq<FileContent> {
    match phase {
        BatchPhase::Place { index } => if ok {
            outputs.update(index as int, FileContent::Complete)
        } else {
            outputs
        },
        _ => outputs,
    }
}

/// The outputs after some phases with these outcomes.
pub open spec fn batch_outputs(
    outcomes: Seq<bool>,
    outputs: Seq<FileContent>,
) -> Seq<FileContent>
    decreases outcomes.len(),
{
    if outcomes.len() == 0 {
        outputs
    } else {
        outputs_after(
            batch_outputs(outcomes.drop_last(), outputs),
            batch_run(outcomes.drop_last(), outputs.len() as usize).0,
            outcomes.last(),
        )
    }
}

/// How many files are in place at a phase of an export of `n` files.
pub open spec fn placed_at(phase: BatchPhase, n: usize) -> int {
    match phase {
        BatchPhase::Open { .. } => 0,
        BatchPhase::Render => 0,
        BatchPhase::Place { index } => index as int,
        BatchPhase::Done => n as int,
        BatchPhase::CleanUp { from, .. } => from as int,
    }
}

/// The phase and the partial files after some phases with these outcomes.
pub open spec fn batch_run(outcomes: Seq<bool>, n: usize) -> (BatchPhase, Set<int>)
    decreases outcomes.len(),
{
    if outcomes.len() == 0 {
        (batch_start(n), Set::empty())
    } else {
        let before = batch_run(outcomes.drop_last(), n);
        (
            batch_after(before.0, outcomes.last(), n),
            partials_after(before.1, before.0, outcomes.last()),
        )
    }
}

/// The partial files that can exist at a phase.
pub open spec fn partials_fit(phase: BatchPhase, partials: Set<int>, n: usize) -> bool {
    match phase {
        BatchPhase::Open { index } => partials == Set::new(|i: int| 0 <= i < index),
        BatchPhase::Render => partials == Set::new(|i: int| 0 <= i < n),
        BatchPhase::Place { index } => partials == Set::new(|i: int| index <= i < n),
        BatchPhase::Done => partials == Set::<int>::empty(),
        BatchPhase::CleanUp { from, to } => forall|i: int|
            #[trigger] partials.contains(i) ==> from <= i < to,
    }
}

proof fn lemma_partials_fit(outcomes: Seq<bool>, n: usize)
    ensures
        batch_valid(batch_run(outcomes, n).0, n),
        partials_fit(batch_run(outcomes, n).0, batch_run(outcomes, n).1, n),
    decreases outcomes.len(),
{
    if outcomes.len() > 0 {
        lemma_partials_fit(outcomes.drop_last(), n);
        let before = batch_run(outcomes.drop_last(), n);
        let after = batch_run(outcomes, n);
        let ok = outcomes.last();
        match before.0 {
            BatchPhase::Open { index } => {
                assert(after.1 =~= Set::new(|i: int| 0 <= i < index + 1));
            },
            BatchPhase::Place { index } => {
                if ok {
                    assert(after.1 =~= Set::new(|i: int| index + 1 <= i < n));
                    if index + 1 == n {
                        assert(after.1 =~= Set::<int>::empty());
                    }
                }
            },
            _ => {},
        }
    } else {
        let start = batch_run(outcomes, n);
        assert(start.1 =~= Set::<int>::empty());
        assert(Set::new(|i: int| 0 <= i < 0) =~= Set::<int>::empty());
    }
}

/// An export of many files leaves no partial file behind, whether it succeeds
/// or fails at any point.
pub proof fn law_batch_leaves_no_partial_file(outcomes: Seq<bool>, n: usize, ok: bool)
    ensures
        batch_run(outcomes, n).0 == BatchPhase::Done ==> batch_run(outcomes, n).1 == Set::<
            int,
        >::empty(),
        batch_run(outcomes, n).0 is CleanUp ==> partials_after(
            batch_run(outcomes, n).1,
            batch_run(outcomes, n).0,
            ok,
        ) == Set::<int>::empty(),
{
    lemma_partials_fit(outcomes, n);
    let run = batch_run(outcomes, n);
    if run.0 is CleanUp {
        assert(partials_after(run.1, run.0, ok) =~= Set::<int>::empty());
    }
}

/// At every point of an export of many files, the first so many outputs are
/// complete and every other is what it was. So a failed export leaves each
/// output that it had not placed yet untouched, and a finished one has placed
/// them all.
pub proof fn law_batch_leaves_unplaced_outputs(outcomes: Seq<bool>, outputs: Seq<FileContent>)
    requires
        outputs.len() <= usize::MAX,
    ensures
        ({
            let n = outputs.len() as usize;
            let phase = batch_run(outcomes, n).0;
            let now = batch_outputs(outcomes, outputs);
            &&& 0 <= placed_at(phase, n) <= n
            &&& now.len() == outputs.len()
            &&& forall|i: int|
                0 <= i < n ==> #[trigger] now[i] == if i < placed_at(phase, n) {
                    FileContent::Complete
                } else {
                    outputs[i]
                }
        }),
    decreases outcomes.len(),
{
    let n = outputs.len() as usize;
    lemma_partials_fit(outcomes, n);
    if outcomes.len() > 0 {
        law_batch_leaves_unplaced_outputs(outcomes.drop_last(), outputs);
        lemma_partials_fit(outcomes.drop_last(), n);
    }
}

// ── The course of an export ─────────────────────────────────────────────────

/// How many steps of a successful export lie before a phase; the analysis is a
/// step of those that normalize alone.
pub open spec fn steps_before(phase: ExportPhase, normalizes: bool) -> int {
    let shift: int = if normalizes {
        1
    } else {
        0
    };
    match phase {
        ExportPhase::CheckDirectory => 0,
        ExportPhase::Analyze => 1,
        ExportPhase::CreateEncoder => 1 + shift,
        ExportPhase::Render => 2 + shift,
        ExportPhase::Finalize => 3 + shift,
        ExportPhase::Rename => 4 + shift,
        ExportPhase::Done => 5 + shift,
        ExportPhase::RemovePartial => -1,
        ExportPhase::Refused => -2,
    }
}

/// A step that succeeds leads to the next one, and the last to the end. A step
/// that fails ends the export: before the encoder is opened nothing is left to
/// remove, and from then on the partial file is. An export that ended stays so.
pub proof fn law_export_takes_its_steps_in_order(phase: ExportPhase, normalizes: bool)
    requires
        phase is Analyze ==> normalizes,
    ensures
        0 <= steps_before(phase, normalizes) && !(phase is Done) ==> steps_before(
            phase_after(phase, true, normalizes),
            normalizes,
        ) == steps_before(phase, normalizes) + 1,
        phase is CheckDirectory || phase is Analyze ==> phase_after(phase, false, normalizes)
            is Refused,
        phase is CreateEncoder || phase is Render || phase is Finalize || phase is Rename
            ==> phase_after(phase, false, normalizes) is RemovePartial,
        !normalizes ==> !(phase_after(phase, true, normalizes) is Analyze),
        phase is CheckDirectory && normalizes ==> phase_after(phase, true, normalizes) is Analyze,
        phase is Done || phase is RemovePartial || phase is Refused ==> phase_after(
            phase,
            true,
            normalizes,
        ) == phase && phase_after(phase, false, normalizes) == phase,
{
}

/// What is reported in a phase: an export that renders has rendered nothing yet,
/// one that is completed has rendered all, and a failed one reports nothing.
pub proof fn law_phases_report_their_stage(phase: ExportPhase, total: u64)
    ensures
        phase is CheckDirectory ==> phase_progress(phase, total) is Some && phase_progress(
            phase,
            total,
        )->0.stage is Preparing,
        phase is Analyze ==> phase_progress(phase, total) is Some && phase_progress(
            phase,
            total,
        )->0.stage is AnalyzingPeak,
        phase is Render ==> phase_progress(phase, total) is Some && phase_progress(
            phase,
            total,
        )->0.stage is Encoding && phase_progress(phase, total)->0.rendered_frames == 0,
        phase is Finalize ==> phase_progress(phase, total) is Some && phase_progress(
            phase,
            total,
        )->0.stage is Finalizing && phase_progress(phase, total)->0.rendered_frames == total,
        phase is Done ==> phase_progress(phase, total) is Some && phase_progress(
            phase,
            total,
        )->0.stage is Complete && phase_progress(phase, total)->0.rendered_frames == total,
        phase is RemovePartial || phase is Refused ==> phase_progress(phase, total) is None,
        phase_progress(phase, total) matches Some(p) ==> p.total_frames == total,
{
}

/// A batch is accepted where its targets share their rate, channels and range,
/// none is normalized, and the project has every track that is named; an empty
/// one is accepted.
pub proof fn law_batch_is_accepted_where_one_pass_serves(
    targets: Seq<TrackExportTarget>,
    tracks: Seq<TrackSnapshot>,
)
    ensures
        targets.len() == 0 ==> batch_refusal(targets, tracks) is None,
        targets.len() > 0 ==> (batch_refusal(targets, tracks) is None <==> {
            &&& forall|i: int|
                0 <= i < targets.len() ==> (#[trigger] targets[i]).request.sample_rate
                    == targets[0].request.sample_rate && targets[i].request.channels
                    == targets[0].request.channels && targets[i].request.start_sample
                    == targets[0].request.start_sample && targets[i].request.end_sample
                    == targets[0].request.end_sample
            &&& forall|i: int|
                0 <= i < targets.len() ==> (#[trigger] targets[i]).request.normalize is Unchanged
            &&& forall|i: int|
                0 <= i < targets.len() ==> exists|t: int|
                    0 <= t < tracks.len() && (#[trigger] tracks[t]).id@ == (
                    #[trigger] targets[i]).track_id@
        }),
{
    lemma_first_unknown(targets, tracks, 0);
    if targets.len() > 0 {
        if batch_refusal(targets, tracks) is None {
            assert forall|i: int| 0 <= i < targets.len() implies (
            #[trigger] targets[i]).request.sample_rate == targets[0].request.sample_rate
                && targets[i].request.channels == targets[0].request.channels
                && targets[i].request.start_sample == targets[0].request.start_sample
                && targets[i].request.end_sample == targets[0].request.end_sample by {
                assert(same_geometry(targets[i].request, targets[0].request));
            }
        }
    }
}

proof fn lemma_first_unknown(
    targets: Seq<TrackExportTarget>,
    tracks: Seq<TrackSnapshot>,
    from: int,
)
    requires
        0 <= from,
    ensures
        first_unknown(targets, tracks, from) matches Some(i) ==> from <= i < targets.len()
            && forall|t: int| 0 <= t < tracks.len() ==> (#[trigger] tracks[t]).id@
            != targets[i].track_id@,
        first_unknown(targets, tracks, from) is None ==> forall|i: int|
            from <= i < targets.len() ==> exists|t: int|
                0 <= t < tracks.len() && (#[trigger] tracks[t]).id@ == (
                #[trigger] targets[i]).track_id@,
    decreases targets.len() - from,
{
    if from < targets.len() {
        control_laws::law_track_is_found_by_its_id(tracks, targets[from].track_id@, 0);
        lemma_first_unknown(targets, tracks, from + 1);
        if first_unknown(targets, tracks, from) is None {
            assert forall|i: int| from <= i < targets.len() implies exists|t: int|
                0 <= t < tracks.len() && (#[trigger] tracks[t]).id@ == (
                #[trigger] targets[i]).track_id@ by {
                if i == from {
                    let t = live::track_with_id(tracks, targets[from].track_id@, 0)->0;
                    assert(tracks[t].id@ == targets[i].track_id@);
                }
            }
        }
    }
}

/// A batch whose every step succeeds opens its files one after the other,
/// renders once, and puts the files in place one after the other; then it is
/// done.
pub proof fn law_batch_opens_renders_and_places(outcomes: Seq<bool>, n: usize)
    requires
        n > 0,
        2 * n + 1 <= usize::MAX,
        forall|k: int| 0 <= k < outcomes.len() ==> #[trigger] outcomes[k],
    ensures
        outcomes.len() < n ==> batch_run(outcomes, n).0 == (BatchPhase::Open {
            index: outcomes.len() as usize,
        }),
        outcomes.len() == n ==> batch_run(outcomes, n).0 is Render,
        n < outcomes.len() <= 2 * n ==> batch_run(outcomes, n).0 == (BatchPhase::Place {
            index: (outcomes.len() - n - 1) as usize,
        }),
        outcomes.len() > 2 * n ==> batch_run(outcomes, n).0 is Done,
    decreases outcomes.len(),
{
    if outcomes.len() > 0 {
        let shorter = outcomes.drop_last();
        assert forall|k: int| 0 <= k < shorter.len() implies #[trigger] shorter[k] by {
            assert(outcomes[k]);
        }
        law_batch_opens_renders_and_places(shorter, n);
        assert(outcomes[outcomes.len() - 1]);
    }
}

/// A batch that fails removes the files that it opened and did not put in place,
/// and no others.
pub proof fn law_failed_batch_removes_what_it_opened(phase: BatchPhase, n: usize)
    requires
        batch_valid(phase, n),
    ensures
        phase matches BatchPhase::Open { index } ==> (batch_after(
            phase,
            false,
            n,
        ) matches BatchPhase::CleanUp { from, to } && from == 0 && to == index + 1),
        phase is Render ==> (batch_after(phase, false, n) matches BatchPhase::CleanUp { from, to }
            && from == 0 && to == n),
        phase matches BatchPhase::Place { index } ==> (batch_after(
            phase,
            false,
            n,
        ) matches BatchPhase::CleanUp { from, to } && from == index && to == n),
        batch_after(BatchPhase::Done, false, n) is Done,
        n == 0 ==> batch_start(n) is Done,
{
}

} // verus!
