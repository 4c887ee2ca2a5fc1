//! Errors of the engine and their texts.

use vstd::prelude::*;

use crate::text;
use crate::text::decimal_string;
use crate::text::join;

verus! {

/// What can go wrong in the engine.
#[derive(Debug)]
pub enum SphereAudioError {
    BackendUnavailable(String),
    DeviceNotFound(String),
    StreamOpenFailed(String),
    StreamStartFailed(String),
    EngineNotOpen,
    InvalidConfig(String),
    ProjectDeserialize(String),
    InvalidRoutingGraph(String),
    NativeError(String),
}

/// Why a routing graph was refused.
#[derive(Debug)]
pub struct GraphValidationError {
    pub message: String,
    /// The cycles as the graph lists them, `None` where it has none.
    pub cycles: Option<String>,
    pub rejected_routes: u64,
}

/// The text of a refused graph: its message, the cycles if there are any, and
/// how many routes were rejected.
pub open spec fn graph_error_text(e: GraphValidationError) -> Seq<char> {
    e.message@ + (match e.cycles {
        Some(c) => " cycles="@ + c@,
        None => ""@,
    }) + " rejected_routes="@ + text::decimal(e.rejected_routes as nat)
}

impl SphereAudioError {
    /// The text that the error is shown with.
    pub open spec fn text(self) -> Seq<char> {
        match self {
            SphereAudioError::BackendUnavailable(s) => "Audio backend unavailable: "@ + s@,
            SphereAudioError::DeviceNotFound(s) => "Device not found: "@ + s@,
            SphereAudioError::StreamOpenFailed(s) => "Stream open failed: "@ + s@,
            SphereAudioError::StreamStartFailed(s) => "Stream start failed: "@ + s@,
            SphereAudioError::EngineNotOpen => "Engine stream is not open"@,
            SphereAudioError::InvalidConfig(s) => "Invalid configuration: "@ + s@,
            SphereAudioError::ProjectDeserialize(s) => "Project deserialization failed: "@ + s@,
            SphereAudioError::InvalidRoutingGraph(s) => "Invalid routing graph: "@ + s@,
            SphereAudioError::NativeError(s) => "Native error: "@ + s@,
        }
    }

    /// The text that the error is shown with.
    pub fn to_string(&self) -> (r: String)
        ensures
            r@ == self.text(),
    {
        match self {
            SphereAudioError::BackendUnavailable(s) => join("Audio backend unavailable: ", s),
            SphereAudioError::DeviceNotFound(s) => join("Device not found: ", s),
            SphereAudioError::StreamOpenFailed(s) => join("Stream open failed: ", s),
            SphereAudioError::StreamStartFailed(s) => join("Stream start failed: ", s),
            SphereAudioError::EngineNotOpen => "Engine stream is not open".to_owned(),
            SphereAudioError::InvalidConfig(s) => join("Invalid configuration: ", s),
            SphereAudioError::ProjectDeserialize(s) => join(
                "Project deserialization failed: ",
                s,
            ),
            SphereAudioError::InvalidRoutingGraph(s) => join("Invalid routing graph: ", s),
            SphereAudioError::NativeError(s) => join("Native error: ", s),
        }
    }
}

impl vstd::std_specs::convert::FromSpecImpl<GraphValidationError> for SphereAudioError {
    open spec fn obeys_from_spec() -> bool {
        false
    }

    open spec fn from_spec(e: GraphValidationError) -> Self {
        SphereAudioError::EngineNotOpen
    }
}

impl From<GraphValidationError> for SphereAudioError {
    fn from(e: GraphValidationError) -> (r: Self)
        ensures
            r matches SphereAudioError::InvalidRoutingGraph(s) && s@ == graph_error_text(e),
    {
        let detail: String = match &e.cycles {
            Some(c) => join(" cycles=", c),
            None => "".to_owned(),
        };
        let head: String = join(&e.message, &detail);
        let head: String = join(&head, " rejected_routes=");
        SphereAudioError::InvalidRoutingGraph(join(&head, &decimal_string(e.rejected_routes)))
    }
}

/// An error's text says what failed and ends with the reason.
pub proof fn law_error_text_ends_with_its_reason(e: SphereAudioError)
    ensures
        e matches SphereAudioError::BackendUnavailable(s) ==> e.text()
            == "Audio backend unavailable: "@ + s@,
        e matches SphereAudioError::DeviceNotFound(s) ==> e.text() == "Device not found: "@ + s@,
        e matches SphereAudioError::StreamOpenFailed(s) ==> e.text() == "Stream open failed: "@
            + s@,
        e matches SphereAudioError::StreamStartFailed(s) ==> e.text() == "Stream start failed: "@
            + s@,
        e is EngineNotOpen ==> e.text() == "Engine stream is not open"@,
        e matches SphereAudioError::InvalidConfig(s) ==> e.text() == "Invalid configuration: "@
            + s@,
        e matches SphereAudioError::ProjectDeserialize(s) ==> e.text()
            == "Project deserialization failed: "@ + s@,
        e matches SphereAudioError::InvalidRoutingGraph(s) ==> e.text()
            == "Invalid routing graph: "@ + s@,
        e matches SphereAudioError::NativeError(s) ==> e.text() == "Native error: "@ + s@,
{
}

/// A graph that was refused is told with its cycles, where it has any, and with
/// how many routes were rejected.
pub proof fn law_refused_graph_is_told_in_full(e: GraphValidationError)
    ensures
        e.cycles is None ==> graph_error_text(e) == e.message@ + " rejected_routes="@
            + text::decimal(e.rejected_routes as nat),
        e.cycles is Some ==> graph_error_text(e) == e.message@ + (" cycles="@ + e.cycles->0@)
            + " rejected_routes="@ + text::decimal(e.rejected_routes as nat),
{
    reveal_strlit("");
    assert(e.message@ + ""@ =~= e.message@);
}

} // verus!
