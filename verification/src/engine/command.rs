//! Commands from the control thread to the audio callback.

use vstd::prelude::*;

use crossbeam_channel::Sender;

use crate::runtime::RuntimeProject;

verus! {

/// A point of a tempo map: beat and beats per minute, as bit patterns of `f64`.
#[derive(Clone, Copy, Debug, PartialEq, Eq, Structural)]
pub struct TempoPoint {
    pub beat: u64,
    pub bpm: u64,
}

/// A point of a time signature map; the beat is the bit pattern of an `f64`.
#[derive(Clone, Copy, Debug, PartialEq, Eq, Structural)]
pub struct TimeSignaturePoint {
    pub beat: u64,
    pub numerator: u32,
    pub denominator: u32,
}

/// The hardware channels that feed a track.
#[derive(Clone, Copy, Debug, PartialEq, Eq, Structural)]
pub enum TrackInputRoute {
    Unrouted,
    /// One channel, or two.
    Pair { left: u32, right: u32 },
}

/// What the control thread asks of the audio callback. Numbers with a fraction
/// travel as bit patterns.
#[derive(Debug)]
pub enum EngineCommand {
    LoadProject(Box<RuntimeProject>),
    SetTestTone { enabled: bool, frequency: u32 },
    SetMasterVolume { value: u32 },
    SetTrackVolume { track_id: String, value: u32 },
    SetTrackPan { track_id: String, value: u32 },
    SetTrackMute { track_id: String, muted: bool },
    SetTrackSolo { track_id: String, solo: bool },
    SetTrackInputState {
        track_index: usize,
        record_armed: bool,
        monitor_enabled: bool,
        input_source: TrackInputRoute,
    },
    SetTrackPreviewMode { track_id: String, value: u32 },
    SetInsertParam { track_id: String, insert_id: String, param_id: String, value: u32 },
    MidiPreviewNoteOn { track_id: String, channel: u8, pitch: u8, velocity: u8 },
    MidiPreviewNoteOff { track_id: String, channel: u8, pitch: u8 },
    MidiPreviewControlChange { track_id: String, channel: u8, controller: u8, value: u8 },
    MidiPreviewAllNotesOff { track_id: String },
    PluginPreviewNoteOn {
        track_id: String,
        plugin_instance_id: String,
        channel: u8,
        pitch: u8,
        velocity: u8,
    },
    PluginPreviewNoteOff { track_id: String, plugin_instance_id: String, channel: u8, pitch: u8 },
    PluginPreviewControlChange {
        track_id: String,
        plugin_instance_id: String,
        channel: u8,
        controller: u8,
        value: u8,
    },
    PluginPreviewAllNotesOff { track_id: String, plugin_instance_id: String },
    StartTransport,
    StopTransport,
    Seek { position_seconds: u64 },
    SetMetronomeEnabled(bool),
    SetMetronomeSuspended(bool),
    SetBpm(u64),
    SetTempoMap { default_bpm: u64, points: Vec<TempoPoint> },
    SetTimeSignature(u32, u32),
    SetTimeSignatureMap(Vec<TimeSignaturePoint>),
    SetLoop { enabled: bool, start_seconds: u64, end_seconds: u64 },
    /// Bind an insert to its bridged host, or unbind it.
    SetPluginBridgeSink { insert_id: String, bound: bool },
    /// Acknowledge the barrier with this number once everything before it has
    /// been applied.
    CommandBarrier { barrier: u64 },
    SetBridgeEditorActive { track_id: String, active: bool },
    /// Play the decoded source with this number.
    StartAudition { source: u64 },
    StopAudition,
}

impl EngineCommand {
    /// The name that a command is traced under.
    pub open spec fn name(self) -> Seq<char> {
        match self {
            EngineCommand::LoadProject(_) => "LoadProject"@,
            EngineCommand::SetTestTone { .. } => "SetTestTone"@,
            EngineCommand::SetMasterVolume { .. } => "SetMasterVolume"@,
            EngineCommand::SetTrackVolume { .. } => "SetTrackVolume"@,
            EngineCommand::SetTrackPan { .. } => "SetTrackPan"@,
            EngineCommand::SetTrackMute { .. } => "SetTrackMute"@,
            EngineCommand::SetTrackSolo { .. } => "SetTrackSolo"@,
            EngineCommand::SetTrackInputState { .. } => "SetTrackInputState"@,
            EngineCommand::SetTrackPreviewMode { .. } => "SetTrackPreviewMode"@,
            EngineCommand::SetInsertParam { .. } => "SetInsertParam"@,
            EngineCommand::MidiPreviewNoteOn { .. } => "MidiPreviewNoteOn"@,
            EngineCommand::MidiPreviewNoteOff { .. } => "MidiPreviewNoteOff"@,
            EngineCommand::MidiPreviewControlChange { .. } => "MidiPreviewControlChange"@,
            EngineCommand::MidiPreviewAllNotesOff { .. } => "MidiPreviewAllNotesOff"@,
            EngineCommand::PluginPreviewNoteOn { .. } => "PluginPreviewNoteOn"@,
            EngineCommand::PluginPreviewNoteOff { .. } => "PluginPreviewNoteOff"@,
            EngineCommand::PluginPreviewControlChange { .. } => "PluginPreviewControlChange"@,
            EngineCommand::PluginPreviewAllNotesOff { .. } => "PluginPreviewAllNotesOff"@,
            EngineCommand::StartTransport => "StartTransport"@,
            EngineCommand::StopTransport => "StopTransport"@,
            EngineCommand::Seek { .. } => "Seek"@,
            EngineCommand::SetMetronomeEnabled(_) => "SetMetronomeEnabled"@,
            EngineCommand::SetMetronomeSuspended(_) => "SetMetronomeSuspended"@,
            EngineCommand::SetBpm(_) => "SetBpm"@,
            EngineCommand::SetTempoMap { .. } => "SetTempoMap"@,
            EngineCommand::SetTimeSignature(_, _) => "SetTimeSignature"@,
            EngineCommand::SetTimeSignatureMap(_) => "SetTimeSignatureMap"@,
            EngineCommand::SetLoop { .. } => "SetLoop"@,
            EngineCommand::SetPluginBridgeSink { .. } => "SetPluginBridgeSink"@,
            EngineCommand::CommandBarrier { .. } => "CommandBarrier"@,
            EngineCommand::SetBridgeEditorActive { .. } => "SetBridgeEditorActive"@,
            EngineCommand::StartAudition { .. } => "StartAudition"@,
            EngineCommand::StopAudition => "StopAudition"@,
        }
    }

    /// The name that a command is traced under.
    pub fn label(&self) -> (r: &'static str)
        ensures
            r@ == self.name(),
    {
        match self {
            EngineCommand::LoadProject(_) => "LoadProject",
            EngineCommand::SetTestTone { .. } => "SetTestTone",
            EngineCommand::SetMasterVolume { .. } => "SetMasterVolume",
            EngineCommand::SetTrackVolume { .. } => "SetTrackVolume",
            EngineCommand::SetTrackPan { .. } => "SetTrackPan",
            EngineCommand::SetTrackMute { .. } => "SetTrackMute",
            EngineCommand::SetTrackSolo { .. } => "SetTrackSolo",
            EngineCommand::SetTrackInputState { .. } => "SetTrackInputState",
            EngineCommand::SetTrackPreviewMode { .. } => "SetTrackPreviewMode",
            EngineCommand::SetInsertParam { .. } => "SetInsertParam",
            EngineCommand::MidiPreviewNoteOn { .. } => "MidiPreviewNoteOn",
            EngineCommand::MidiPreviewNoteOff { .. } => "MidiPreviewNoteOff",
            EngineCommand::MidiPreviewControlChange { .. } => "MidiPreviewControlChange",
            EngineCommand::MidiPreviewAllNotesOff { .. } => "MidiPreviewAllNotesOff",
            EngineCommand::PluginPreviewNoteOn { .. } => "PluginPreviewNoteOn",
            EngineCommand::PluginPreviewNoteOff { .. } => "PluginPreviewNoteOff",
            EngineCommand::PluginPreviewControlChange { .. } => "PluginPreviewControlChange",
            EngineCommand::PluginPreviewAllNotesOff { .. } => "PluginPreviewAllNotesOff",
            EngineCommand::StartTransport => "StartTransport",
            EngineCommand::StopTransport => "StopTransport",
            EngineCommand::Seek { .. } => "Seek",
            EngineCommand::SetMetronomeEnabled(_) => "SetMetronomeEnabled",
            EngineCommand::SetMetronomeSuspended(_) => "SetMetronomeSuspended",
            EngineCommand::SetBpm(_) => "SetBpm",
            EngineCommand::SetTempoMap { .. } => "SetTempoMap",
            EngineCommand::SetTimeSignature(_, _) => "SetTimeSignature",
            EngineCommand::SetTimeSignatureMap(_) => "SetTimeSignatureMap",
            EngineCommand::SetLoop { .. } => "SetLoop",
            EngineCommand::SetPluginBridgeSink { .. } => "SetPluginBridgeSink",
            EngineCommand::CommandBarrier { .. } => "CommandBarrier",
            EngineCommand::SetBridgeEditorActive { .. } => "SetBridgeEditorActive",
            EngineCommand::StartAudition { .. } => "StartAudition",
            EngineCommand::StopAudition => "StopAudition",
        }
    }
}

// ── The command channel ─────────────────────────────────────────────────────

/// The sending half of a channel of the crossbeam-channel crate.
#[verifier::external_type_specification]
#[verifier::external_body]
#[verifier::reject_recursive_types(T)]
pub struct ExSender<T>(Sender<T>);

/// The commands that a sender has put into its channel so far, in order.
pub uninterp spec fn placed(tx: Sender<EngineCommand>) -> Seq<EngineCommand>;

/// Hand a command to crossbeam-channel's `Sender::try_send`. It never blocks.
/// Either the command is put into the channel, behind those that this sender
/// put there before, or it is not and the error says that the channel is full
/// or that its receiver is gone. Which of the two happens rests with the
/// receiver, and is not stated.
#[verifier::external_body]
pub(crate) fn try_send(tx: &mut Sender<EngineCommand>, command: EngineCommand) -> (r: Result<
    (),
    String,
>)
    ensures
        r is Ok ==> placed(*final(tx)) == placed(*old(tx)).push(command),
        r is Err ==> placed(*final(tx)) == placed(*old(tx)),
        r matches Err(text) ==> text@ == "sending on a full channel"@ || text@
            == "sending on a disconnected channel"@,
{
    tx.try_send(command).map_err(|e| e.to_string())
}

} // verus!
