//! How far an export is, and its cancellation.

use vstd::prelude::*;

use std::sync::atomic::AtomicBool;
use std::sync::atomic::Ordering;
use std::sync::Arc;

verus! {

/// What an export is doing.
#[derive(Clone, Copy, Debug, PartialEq, Eq, Structural)]
pub enum ExportStage {
    Preparing,
    Rendering,
    AnalyzingPeak,
    Encoding,
    Finalizing,
    Complete,
    Failed,
    Cancelled,
}

impl ExportStage {
    /// The name of the stage.
    pub open spec fn name(self) -> Seq<char> {
        match self {
            ExportStage::Preparing => "Preparing"@,
            ExportStage::Rendering => "Rendering"@,
            ExportStage::AnalyzingPeak => "Analyzing peak"@,
            ExportStage::Encoding => "Encoding"@,
            ExportStage::Finalizing => "Finalizing"@,
            ExportStage::Complete => "Complete"@,
            ExportStage::Failed => "Failed"@,
            ExportStage::Cancelled => "Cancelled"@,
        }
    }

    /// Whether nothing follows.
    pub open spec fn terminal(self) -> bool {
        self == ExportStage::Complete || self == ExportStage::Failed || self
            == ExportStage::Cancelled
    }

    pub fn as_str(self) -> (r: &'static str)
        ensures
            r@ == self.name(),
    {
        match self {
            ExportStage::Preparing => "Preparing",
            ExportStage::Rendering => "Rendering",
            ExportStage::AnalyzingPeak => "Analyzing peak",
            ExportStage::Encoding => "Encoding",
            ExportStage::Finalizing => "Finalizing",
            ExportStage::Complete => "Complete",
            ExportStage::Failed => "Failed",
            ExportStage::Cancelled => "Cancelled",
        }
    }

    /// Whether nothing follows.
    pub fn is_terminal(self) -> (r: bool)
        ensures
            r == self.terminal(),
    {
        match self {
            ExportStage::Complete => true,
            ExportStage::Failed => true,
            ExportStage::Cancelled => true,
            _ => false,
        }
    }
}

/// How far an export is.
#[derive(Clone, Copy, Debug, PartialEq, Eq, Structural)]
pub struct ExportProgress {
    pub rendered_frames: u64,
    pub total_frames: u64,
    pub stage: ExportStage,
    /// The finished part, as a numerator and a denominator that is not zero.
    pub done: u64,
    pub of: u64,
}

/// How far an export is, with the finished part held between nothing and all
/// of it. Without frames to render, only an ended export is finished.
pub open spec fn progress(stage: ExportStage, rendered: u64, total: u64) -> ExportProgress {
    ExportProgress {
        rendered_frames: rendered,
        total_frames: total,
        stage,
        done: if total == 0 {
            if stage.terminal() {
                1
            } else {
                0
            }
        } else if rendered > total {
            total
        } else {
            rendered
        },
        of: if total == 0 {
            1
        } else {
            total
        },
    }
}

/// Progress that says only what stage the export is in: an ended one has
/// rendered everything, any other nothing.
pub open spec fn stage_progress(stage: ExportStage, total: u64) -> ExportProgress {
    progress(
        stage,
        if stage.terminal() {
            total
        } else {
            0
        },
        total,
    )
}

impl ExportProgress {
    pub fn new(stage: ExportStage, rendered_frames: u64, total_frames: u64) -> (r: Self)
        ensures
            r == progress(stage, rendered_frames, total_frames),
    {
        let (done, of): (u64, u64) = if total_frames == 0 {
            if stage.is_terminal() {
                (1, 1)
            } else {
                (0, 1)
            }
        } else if rendered_frames > total_frames {
            (total_frames, total_frames)
        } else {
            (rendered_frames, total_frames)
        };
        ExportProgress { rendered_frames, total_frames, stage, done, of }
    }

    pub fn stage_only(stage: ExportStage, total_frames: u64) -> (r: Self)
        ensures
            r == stage_progress(stage, total_frames),
    {
        let rendered: u64 = if stage.is_terminal() {
            total_frames
        } else {
            0
        };
        ExportProgress::new(stage, rendered, total_frames)
    }
}

/// The finished part is never less than nothing and never more than all, and an
/// ended export that reports only its stage is all done.
pub proof fn law_progress_is_a_fraction(stage: ExportStage, rendered: u64, total: u64)
    ensures
        progress(stage, rendered, total).of > 0,
        progress(stage, rendered, total).done <= progress(stage, rendered, total).of,
        stage.terminal() ==> stage_progress(stage, total).done == stage_progress(
            stage,
            total,
        ).of,
        !stage.terminal() ==> stage_progress(stage, total).done == 0,
{
}

/// A flag that cancels an export. Clones share it: one side cancels, the other
/// polls. What the flag holds changes under a shared reference and is no part of
/// the token's value, so nothing is stated of it: neither that a new one is not
/// set, nor when a cancellation is seen, which rests with the threads that hold
/// the clones. Whatever is polled is handed on as a plain value, and what follows
/// from it is stated there.
#[derive(Debug, Clone)]
pub struct ExportCancelToken(Arc<AtomicBool>);

impl Default for ExportCancelToken {
    fn default() -> Self {
        ExportCancelToken::new()
    }
}

impl ExportCancelToken {
    /// A flag that is not set.
    pub fn new() -> Self {
        ExportCancelToken(Arc::new(AtomicBool::new(false)))
    }

    /// Set the flag.
    pub fn cancel(&self) {
        self.0.store(true, Ordering::SeqCst);
    }

    /// Whether the flag is set.
    pub fn is_cancelled(&self) -> bool {
        self.0.load(Ordering::SeqCst)
    }
}

/// The finished part is the rendered frames among all of them, and never more
/// than all of them; the frames are reported as they are. A stage that ends an
/// export reports all of it, and any other stage none.
pub proof fn law_progress_is_the_rendered_part(stage: ExportStage, rendered: u64, total: u64)
    ensures
        progress(stage, rendered, total).rendered_frames == rendered,
        progress(stage, rendered, total).total_frames == total,
        progress(stage, rendered, total).stage == stage,
        total > 0 ==> progress(stage, rendered, total).of == total,
        total > 0 && rendered <= total ==> progress(stage, rendered, total).done == rendered,
        total > 0 && rendered >= total ==> progress(stage, rendered, total).done == total,
        total == 0 && (stage is Complete || stage is Failed || stage is Cancelled) ==> progress(
            stage,
            rendered,
            total,
        ).done == progress(stage, rendered, total).of,
        total == 0 && !(stage is Complete || stage is Failed || stage is Cancelled) ==> progress(
            stage,
            rendered,
            total,
        ).done == 0,
        stage is Complete || stage is Failed || stage is Cancelled ==> stage_progress(
            stage,
            total,
        ).rendered_frames == total,
        !(stage is Complete || stage is Failed || stage is Cancelled) ==> stage_progress(
            stage,
            total,
        ).rendered_frames == 0,
{
}

/// A stage is shown by its name.
pub proof fn law_stages_are_shown_by_name(stage: ExportStage)
    ensures
        stage is Preparing ==> stage.name() == "Preparing"@,
        stage is Rendering ==> stage.name() == "Rendering"@,
        stage is AnalyzingPeak ==> stage.name() == "Analyzing peak"@,
        stage is Encoding ==> stage.name() == "Encoding"@,
        stage is Finalizing ==> stage.name() == "Finalizing"@,
        stage is Complete ==> stage.name() == "Complete"@,
        stage is Failed ==> stage.name() == "Failed"@,
        stage is Cancelled ==> stage.name() == "Cancelled"@,
        stage.terminal() <==> stage is Complete || stage is Failed || stage is Cancelled,
{
}

} // verus!
