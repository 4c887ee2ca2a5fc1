//! Offline export of an arrangement.
//!
//! The host renders blocks and writes files; this module decides which blocks
//! are rendered, which frames of them are written, and in which order files are
//! touched.

use vstd::prelude::*;

use crate::text::join;

pub mod exporter;
pub mod offline_renderer;
pub mod render_progress;
pub mod render_request;

verus! {

/// Why an export failed.
#[derive(Debug)]
pub enum ExportError {
    /// The graph could not be built.
    Build(String),
    /// The encoder refused the format or failed to write.
    Encode(String),
    Io(String),
    /// The user cancelled.
    Cancelled,
    /// The request was not valid.
    Settings(String),
}

impl ExportError {
    /// The text that the error is shown with.
    pub open spec fn text(self) -> Seq<char> {
        match self {
            ExportError::Build(s) => "render graph build failed: "@ + s@,
            ExportError::Encode(s) => "encode failed: "@ + s@,
            ExportError::Io(s) => "io error: "@ + s@,
            ExportError::Cancelled => "export cancelled"@,
            ExportError::Settings(s) => "invalid export settings: "@ + s@,
        }
    }

    /// The text that the error is shown with.
    pub fn to_string(&self) -> (r: String)
        ensures
            r@ == self.text(),
    {
        match self {
            ExportError::Build(s) => join("render graph build failed: ", s),
            ExportError::Encode(s) => join("encode failed: ", s),
            ExportError::Io(s) => join("io error: ", s),
            ExportError::Cancelled => "export cancelled".to_owned(),
            ExportError::Settings(s) => join("invalid export settings: ", s),
        }
    }
}

} // verus!
