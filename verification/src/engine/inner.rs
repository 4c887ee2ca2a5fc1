//! The engine as the control thread holds it: what it knows, and the commands
//! that it hands to the callback.

use vstd::prelude::*;

use crossbeam_channel::Sender;

use crate::engine::command;
use crate::engine::command::try_send;
use crate::engine::command::EngineCommand;
use crate::engine::command::TempoPoint;
use crate::engine::command::TimeSignaturePoint;
use crate::engine::device::DauxDeviceConfig;
use crate::engine::device::EngineStatus;
use crate::engine::input::AsioSessionCaps;
use crate::engine::input::ProjectSnapshot;
use crate::engine::state;
use crate::engine::state::one_or_more;
use crate::engine::state::AudioEngineState;
use crate::engine::state::DropoutDiagnostics;
use crate::engine::state::DropoutProtectionMode;
use crate::engine::state::DropoutReason;
use crate::engine::state::SharedState;
use crate::error::SphereAudioError;
use crate::runtime::RuntimeProject;
use crate::text::str_eq;

verus! {

/// The engine's version.
pub const ENGINE_VERSION: &'static str = "0.1.0";

/// A stream that the engine opened through one of its backends.
#[derive(Debug)]
pub struct ActiveStream {
    /// Where the stream's callback takes its commands from.
    pub tx: Option<Sender<EngineCommand>>,
    pub backend_name: String,
}

/// A take that is running.
#[derive(Clone, Copy, Debug, PartialEq, Eq, Structural)]
pub struct RecordingSession {
    pub track_count: u32,
    /// Whether the take taps the open duplex session.
    pub asio_tap: bool,
}

/// The capture stream that feeds live input.
#[derive(Debug)]
pub struct LiveInput {
    /// The device, `None` for the system's default.
    pub device_id: Option<String>,
}

/// The engine as the control thread holds it.
#[derive(Debug)]
pub struct EngineInner {
    pub shared: SharedState,
    pub active_stream: Option<ActiveStream>,
    /// Whether a stream is open that was not opened through a backend.
    pub plain_stream: bool,
    pub cmd_tx: Option<Sender<EngineCommand>>,
    pub status: EngineStatus,
    pub project: Option<ProjectSnapshot>,
    /// Counts the input edits that were taken over.
    pub input_state_revision: u64,
    pub runtime: RuntimeProject,
    /// Media files that are held open or decoded.
    pub audio_cache: Vec<String>,
    /// Held media files that no clip uses any more, the longest unused first.
    pub inactive_audio_cache_lru: Vec<String>,
    pub glitch_counter: u64,
    pub daux_config: DauxDeviceConfig,
    pub recording: Option<RecordingSession>,
    pub live_input: Option<LiveInput>,
    pub asio_caps: Option<AsioSessionCaps>,
    /// Whether a capture stream of its own feeds the input test.
    pub input_test: bool,
    /// Whether the input test reads the duplex session's peak.
    pub input_test_uses_session: bool,
}

impl EngineInner {
    /// The rings of the shared state hold what they have room for.
    pub open spec fn well_formed(self) -> bool {
        self.shared.well_formed()
    }

    /// Whether nothing is open and nothing is loaded, and nothing has happened
    /// yet.
    pub open spec fn fresh(self) -> bool {
        &&& self.well_formed()
        &&& self.shared.initial()
        &&& self.active_stream is None
        &&& !self.plain_stream
        &&& self.cmd_tx is None
        &&& self.project is None
        &&& self.input_state_revision == 0
        &&& self.runtime.empty()
        &&& self.audio_cache@.len() == 0
        &&& self.inactive_audio_cache_lru@.len() == 0
        &&& self.glitch_counter == 0
        &&& self.recording is None
        &&& self.live_input is None
        &&& self.asio_caps is None
        &&& !self.input_test
        &&& !self.input_test_uses_session
        &&& !self.status.stream_open
        &&& !self.status.running
        &&& self.status.sample_rate == 0
        &&& self.status.buffer_size == 0
        &&& self.status.input_device is None
        &&& self.status.output_device is None
        &&& self.status.last_error is None
        &&& self.status.last_daux_error is None
    }

    /// An engine with nothing open and nothing loaded. `daux_config` is what a
    /// stream is opened with where nothing else is asked for.
    pub fn new(daux_config: DauxDeviceConfig) -> (r: Self)
        ensures
            r.fresh(),
            r.daux_config == daux_config,
    {
        EngineInner {
            shared: SharedState::default(),
            active_stream: None,
            plain_stream: false,
            cmd_tx: None,
            status: EngineStatus::default(),
            project: None,
            input_state_revision: 0,
            runtime: RuntimeProject::default(),
            audio_cache: Vec::new(),
            inactive_audio_cache_lru: Vec::new(),
            glitch_counter: 0,
            daux_config,
            recording: None,
            live_input: None,
            asio_caps: None,
            input_test: false,
            input_test_uses_session: false,
        }
    }
}

// ── Handing over commands ───────────────────────────────────────────────────

impl EngineInner {
    /// Where commands go: to the active stream, else to the plain one.
    pub open spec fn sender(self) -> Option<Sender<EngineCommand>> {
        match self.active_stream {
            Some(stream) => match stream.tx {
                Some(tx) => Some(tx),
                None => self.cmd_tx,
            },
            None => self.cmd_tx,
        }
    }

    /// The engine with the command channel that commands go to replaced.
    pub open spec fn with_sender(self, tx: Sender<EngineCommand>) -> EngineInner {
        match self.active_stream {
            Some(stream) => match stream.tx {
                Some(_) => EngineInner {
                    active_stream: Some(ActiveStream { tx: Some(tx), ..stream }),
                    ..self
                },
                None => EngineInner { cmd_tx: Some(tx), ..self },
            },
            None => EngineInner { cmd_tx: Some(tx), ..self },
        }
    }
}

/// What handing over `command` did to an engine: nothing without an open
/// stream, and otherwise the command went into the channel, or it was refused
/// and nothing did.
pub open spec fn handed_over(
    before: EngineInner,
    after: EngineInner,
    command: EngineCommand,
    r: Result<(), SphereAudioError>,
) -> bool {
    match before.sender() {
        None => r == Err::<(), _>(SphereAudioError::EngineNotOpen) && after == before,
        Some(tx) => {
            &&& after.sender() is Some
            &&& after == before.with_sender(after.sender()->0)
            &&& match r {
                Ok(_) => command::placed(after.sender()->0) == command::placed(tx).push(command),
                Err(e) => {
                    &&& command::placed(after.sender()->0) == command::placed(tx)
                    &&& e matches SphereAudioError::NativeError(text) && (text@
                        == "sending on a full channel"@ || text@
                        == "sending on a disconnected channel"@)
                },
            }
        },
    }
}

/// What the outcome of a send means for the caller.
pub fn send_outcome(sent: Result<(), String>) -> (r: Result<(), SphereAudioError>)
    ensures
        sent is Ok <==> r is Ok,
        sent matches Err(text) ==> r == Err::<(), _>(SphereAudioError::NativeError(text)),
{
    match sent {
        Ok(_) => Ok(()),
        Err(text) => Err(SphereAudioError::NativeError(text)),
    }
}

impl EngineInner {
    /// Hand a command to the callback. It takes effect at the start of a later
    /// block.
    pub fn send_command(&mut self, command: EngineCommand) -> (r: Result<(), SphereAudioError>)
        ensures
            handed_over(*old(self), *final(self), command, r),
    {
        let sent: Result<(), String> = match &mut self.active_stream {
            Some(stream) => match &mut stream.tx {
                Some(tx) => try_send(tx, command),
                None => match &mut self.cmd_tx {
                    Some(tx) => try_send(tx, command),
                    None => {
                        return Err(SphereAudioError::EngineNotOpen);
                    },
                },
            },
            None => match &mut self.cmd_tx {
                Some(tx) => try_send(tx, command),
                None => {
                    return Err(SphereAudioError::EngineNotOpen);
                },
            },
        };
        send_outcome(sent)
    }
}

// ── Switches and readings ───────────────────────────────────────────────────

/// A volume held between zero and two.
pub open spec fn held_volume(bits: u32) -> u32 {
    if 0x4000_0000 < bits <= 0x7f80_0000 {
        0x4000_0000
    } else if 0x8000_0000 < bits <= 0xff80_0000 {
        0
    } else {
        bits
    }
}

/// A volume held between zero and two.
pub fn hold_volume(bits: u32) -> (r: u32)
    ensures
        r == held_volume(bits),
{
    if 0x4000_0000 < bits && bits <= 0x7f80_0000 {
        0x4000_0000
    } else if 0x8000_0000 < bits && bits <= 0xff80_0000 {
        0
    } else {
        bits
    }
}

impl EngineInner {
    /// Whether plug-in delays are compensated. `forced_off` is the process-wide
    /// switch that overrides the setting.
    pub fn pdc_enabled(&self, forced_off: bool) -> (r: bool)
        ensures
            r == (!forced_off && self.shared.pdc_enabled),
    {
        if forced_off {
            return false;
        }
        self.shared.pdc_enabled
    }

    /// Switch delay compensation. A change starts a new generation of the
    /// latency graph.
    pub fn set_pdc_enabled(&mut self, enabled: bool)
        ensures
            *final(self) == (EngineInner {
                shared: compensation_set(old(self).shared, enabled),
                ..*old(self)
            }),
    {
        if self.shared.pdc_enabled != enabled {
            self.shared.pdc_enabled = enabled;
            self.shared.latency_graph_version = state::count(self.shared.latency_graph_version);
        }
    }

    /// Generation of the latency graph.
    pub fn latency_graph_version(&self) -> (r: u64)
        ensures
            r == self.shared.latency_graph_version,
    {
        self.shared.latency_graph_version
    }

    pub fn dropout_protection_mode(&self) -> (r: DropoutProtectionMode)
        ensures
            r == DropoutProtectionMode::of_number(self.shared.dropout_protection_mode),
    {
        DropoutProtectionMode::from_u8(self.shared.dropout_protection_mode)
    }

    pub fn set_dropout_protection_mode(&mut self, mode: DropoutProtectionMode)
        ensures
            *final(self) == (EngineInner {
                shared: SharedState { dropout_protection_mode: mode.number(), ..old(self).shared },
                ..*old(self)
            }),
    {
        self.shared.dropout_protection_mode = mode.as_u8();
    }

    /// The dropout counters.
    pub fn dropout_diagnostics(&self) -> (r: DropoutDiagnostics)
        ensures
            r == (DropoutDiagnostics {
                protection_mode: DropoutProtectionMode::of_number(
                    self.shared.dropout_protection_mode,
                ),
                dropout_count: self.shared.dropout_count,
                last_reason: DropoutReason::of_number(self.shared.dropout_last_reason),
                callback_last_us: self.shared.last_callback_us,
                callback_max_us: self.shared.max_callback_us,
                callback_deadline_us: self.shared.callback_deadline_us,
                slow_callback_count: self.shared.slow_callback_count,
            }),
    {
        self.shared.dropout_diagnostics()
    }

    /// Whether the transport plays.
    pub fn transport_playing(&self) -> (r: bool)
        ensures
            r == self.shared.playing,
    {
        self.shared.playing
    }

    /// The engine's lifecycle state.
    pub fn engine_state(&self) -> (r: AudioEngineState)
        ensures
            r == AudioEngineState::of_number(self.shared.engine_state),
    {
        AudioEngineState::from_u8(self.shared.engine_state)
    }

    pub fn get_version(&self) -> (r: String)
        ensures
            r@ == ENGINE_VERSION@,
    {
        ENGINE_VERSION.to_owned()
    }

    /// Set the master volume, held between zero and two.
    pub fn set_master_volume(&mut self, value: u32)
        ensures
            *final(self) == (EngineInner {
                shared: SharedState { master_volume: held_volume(value), ..old(self).shared },
                ..*old(self)
            }),
    {
        self.shared.master_volume = hold_volume(value);
    }
}

/// A shared state with delay compensation set. Switching it is a new
/// generation of the latency graph; setting it to what it is is none.
pub open spec fn compensation_set(s: SharedState, enabled: bool) -> SharedState {
    if s.pdc_enabled == enabled {
        s
    } else {
        SharedState {
            pdc_enabled: enabled,
            latency_graph_version: state::counted(s.latency_graph_version),
            ..s
        }
    }
}

/// Setting delay compensation to what it is changes nothing, so setting it
/// twice is setting it once, and every switch makes a new generation of the
/// latency graph.
pub proof fn law_compensation_switch_is_a_generation(s: SharedState, enabled: bool)
    ensures
        compensation_set(s, s.pdc_enabled) == s,
        compensation_set(compensation_set(s, enabled), enabled) == compensation_set(s, enabled),
        compensation_set(s, enabled).latency_graph_version == s.latency_graph_version
            <==> enabled == s.pdc_enabled,
{
}

/// The signature that a map starts with, or the one before if it is empty.
pub open spec fn shown_signature(points: Seq<TimeSignaturePoint>, num: u32, den: u32) -> (
    u32,
    u32,
) {
    if points.len() > 0 {
        (state::at_least_one(points[0].numerator), state::at_least_one(points[0].denominator))
    } else {
        (num, den)
    }
}

fn first_signature(points: &Vec<TimeSignaturePoint>, num: u32, den: u32) -> (r: (u32, u32))
    ensures
        r == shown_signature(points@, num, den),
{
    if points.len() > 0 {
        (one_or_more(points[0].numerator), one_or_more(points[0].denominator))
    } else {
        (num, den)
    }
}

// ── Transport ───────────────────────────────────────────────────────────────

impl EngineInner {
    /// Start the transport. Nothing is sent when it already plays.
    pub fn play(&mut self) -> (r: Result<(), SphereAudioError>)
        ensures
            old(self).shared.playing ==> r is Ok && *final(self) == *old(self),
            !old(self).shared.playing ==> handed_over(
                *old(self),
                *final(self),
                EngineCommand::StartTransport,
                r,
            ),
    {
        if self.shared.playing {
            return Ok(());
        }
        self.send_command(EngineCommand::StartTransport)
    }

    /// Stop the transport.
    pub fn pause(&mut self) -> (r: Result<(), SphereAudioError>)
        ensures
            handed_over(
                *old(self),
                *final(self),
                EngineCommand::StopTransport,
                r,
            ),
    {
        self.send_command(EngineCommand::StopTransport)
    }

    /// Move the transport to a time in seconds.
    pub fn seek(&mut self, position_seconds: u64) -> (r: Result<(), SphereAudioError>)
        ensures
            handed_over(
                *old(self),
                *final(self),
                EngineCommand::Seek { position_seconds },
                r,
            ),
    {
        self.send_command(EngineCommand::Seek { position_seconds })
    }

    /// Suspend the click without switching it off.
    pub fn set_metronome_suspended(&mut self, suspended: bool) -> (r: Result<(), SphereAudioError>)
        ensures
            handed_over(
                *old(self),
                *final(self),
                EngineCommand::SetMetronomeSuspended(suspended),
                r,
            ),
    {
        self.send_command(EngineCommand::SetMetronomeSuspended(suspended))
    }

    /// Switch the click.
    pub fn set_metronome_enabled(&mut self, enabled: bool) -> (r: Result<(), SphereAudioError>)
        ensures
            handed_over(
                (EngineInner {
                    shared: SharedState { metronome_enabled: enabled, ..old(self).shared },
                    ..*old(self)
                }),
                *final(self),
                EngineCommand::SetMetronomeEnabled(enabled),
                r,
            ),
    {
        self.shared.metronome_enabled = enabled;
        self.send_command(EngineCommand::SetMetronomeEnabled(enabled))
    }

    /// Play at a static tempo.
    pub fn set_bpm(&mut self, bpm: u64) -> (r: Result<(), SphereAudioError>)
        ensures
            tempo_set(*old(self), *final(self), bpm, Seq::empty(), r),
    {
        self.set_tempo_map(bpm, Vec::new())
    }

    /// Replace the tempo map; without points the tempo is static. The loaded
    /// project takes the map over too.
    pub fn set_tempo_map(&mut self, default_bpm: u64, points: Vec<TempoPoint>) -> (r: Result<
        (),
        SphereAudioError,
    >)
        ensures
            tempo_set(*old(self), *final(self), default_bpm, points@, r),
    {
        let for_project: Vec<TempoPoint> = copy_points(&points);
        self.shared.bpm_bits = default_bpm;
        if let Some(project) = &mut self.project {
            project.bpm = default_bpm;
            project.tempo_points = for_project;
        }
        let ghost middle = *self;
        let command = EngineCommand::SetTempoMap { default_bpm, points };
        let r = self.send_command(command);
        proof {
            assert(tempo_stored(*old(self), middle, default_bpm, points@));
            assert(handed_over(middle, *self, command, r));
        }
        r
    }

    /// The tempo map that plays: the default tempo and the points, of which a
    /// static tempo has none.
    pub fn tempo_map(&self) -> (r: (u64, Vec<TempoPoint>))
        ensures
            (r.0, r.1@) == current_tempo(*self),
    {
        match &self.project {
            Some(project) => (project.bpm, copy_points(&project.tempo_points)),
            None => (self.shared.bpm_bits, Vec::new()),
        }
    }

    /// Set the time signature.
    pub fn set_time_signature(&mut self, numerator: u32, denominator: u32) -> (r: Result<(), SphereAudioError>)
        ensures
            handed_over(
                (EngineInner {
                    shared: SharedState { time_sig_num: state::at_least_one(numerator), time_sig_den: state::at_least_one(denominator), ..old(self).shared },
                    ..*old(self)
                }),
                *final(self),
                EngineCommand::SetTimeSignature(numerator, denominator),
                r,
            ),
    {
        self.shared.time_sig_num = one_or_more(numerator);
        self.shared.time_sig_den = one_or_more(denominator);
        self.send_command(EngineCommand::SetTimeSignature(numerator, denominator))
    }

    /// Replace the time signature map. Its first entry is the signature that is
    /// shown until the callback moves past it.
    pub fn set_time_signature_map(&mut self, points: Vec<TimeSignaturePoint>) -> (r: Result<
        (),
        SphereAudioError,
    >)
        ensures
            handed_over(
                (EngineInner {
                    shared: SharedState {
                        time_sig_num: shown_signature(
                            points@,
                            old(self).shared.time_sig_num,
                            old(self).shared.time_sig_den,
                        ).0,
                        time_sig_den: shown_signature(
                            points@,
                            old(self).shared.time_sig_num,
                            old(self).shared.time_sig_den,
                        ).1,
                        ..old(self).shared
                    },
                    ..*old(self)
                }),
                *final(self),
                EngineCommand::SetTimeSignatureMap(points),
                r,
            ),
    {
        let shown: (u32, u32) = first_signature(
            &points,
            self.shared.time_sig_num,
            self.shared.time_sig_den,
        );
        self.shared.time_sig_num = shown.0;
        self.shared.time_sig_den = shown.1;
        self.send_command(EngineCommand::SetTimeSignatureMap(points))
    }

    /// Set the loop, in seconds.
    pub fn set_loop(&mut self, enabled: bool, start_seconds: u64, end_seconds: u64) -> (r: Result<(), SphereAudioError>)
        ensures
            handed_over(
                *old(self),
                *final(self),
                EngineCommand::SetLoop { enabled, start_seconds, end_seconds },
                r,
            ),
    {
        self.send_command(EngineCommand::SetLoop { enabled, start_seconds, end_seconds })
    }

    /// Set the test tone. The callback reads the settings; the command only
    /// makes it retune at once, so a refusal changes nothing.
    pub fn set_test_tone(&mut self, enabled: bool, frequency: u32)
        ensures
            exists|r: Result<(), SphereAudioError>|
                #[trigger] tone_set(*old(self), *final(self), enabled, frequency, r),
    {
        self.shared.test_tone_enabled = enabled;
        self.shared.test_tone_freq = frequency;
        let r: Result<(), SphereAudioError> = self.send_command(
            EngineCommand::SetTestTone { enabled, frequency },
        );
        proof {
            assert(tone_set(*old(self), *self, enabled, frequency, r));
        }
    }

}

/// What setting the test tone does: the settings change, and the callback is
/// told to retune.
pub open spec fn tone_set(
    before: EngineInner,
    after: EngineInner,
    enabled: bool,
    frequency: u32,
    r: Result<(), SphereAudioError>,
) -> bool {
    handed_over(
        EngineInner {
            shared: SharedState {
                test_tone_enabled: enabled,
                test_tone_freq: frequency,
                ..before.shared
            },
            ..before
        },
        after,
        EngineCommand::SetTestTone { enabled, frequency },
        r,
    )
}

/// What setting a tempo map does before the callback hears of it.
pub open spec fn tempo_stored(
    before: EngineInner,
    after: EngineInner,
    bpm: u64,
    points: Seq<TempoPoint>,
) -> bool {
    &&& after == (EngineInner {
        shared: SharedState { bpm_bits: bpm, ..before.shared },
        project: after.project,
        ..before
    })
    &&& match before.project {
        Some(project) => after.project matches Some(next) && next == (ProjectSnapshot {
            bpm,
            tempo_points: next.tempo_points,
            ..project
        }) && next.tempo_points@ == points,
        None => after.project is None,
    }
}

/// What setting a tempo map does: the settings and the project take it over,
/// and the callback is told.
pub open spec fn tempo_set(
    before: EngineInner,
    after: EngineInner,
    bpm: u64,
    points: Seq<TempoPoint>,
    r: Result<(), SphereAudioError>,
) -> bool {
    exists|middle: EngineInner, map: Vec<TempoPoint>|
        map@ == points && #[trigger] tempo_stored(before, middle, bpm, map@)
            && #[trigger] handed_over(
            middle,
            after,
            EngineCommand::SetTempoMap { default_bpm: bpm, points: map },
            r,
        )
}

/// The tempo map of an engine: its project's, or the set tempo without one.
pub open spec fn current_tempo(e: EngineInner) -> (u64, Seq<TempoPoint>) {
    match e.project {
        Some(project) => (project.bpm, project.tempo_points@),
        None => (e.shared.bpm_bits, Seq::empty()),
    }
}

/// The tempo that was set is the tempo that plays, whether or not the callback
/// could be told. Its points need a project to stay in.
pub proof fn law_tempo_is_what_was_set(
    before: EngineInner,
    after: EngineInner,
    bpm: u64,
    points: Seq<TempoPoint>,
    r: Result<(), SphereAudioError>,
)
    requires
        tempo_set(before, after, bpm, points, r),
    ensures
        current_tempo(after).0 == bpm,
        before.project is Some ==> current_tempo(after).1 == points,
{
}

pub(crate) fn copy_points(points: &Vec<TempoPoint>) -> (r: Vec<TempoPoint>)
    ensures
        r@ == points@,
{
    let mut out: Vec<TempoPoint> = Vec::new();
    let mut i: usize = 0;
    while i < points.len()
        invariant
            i <= points@.len(),
            out@ == points@.take(i as int),
        decreases points@.len() - i,
    {
        out.push(points[i]);
        proof {
            assert(out@ =~= points@.take(i + 1));
        }
        i = i + 1;
    }
    proof {
        assert(points@.take(points@.len() as int) =~= points@);
    }
    out
}

// ── Edits and previews ──────────────────────────────────────────────────────

impl EngineInner {
    /// Set a parameter of an insert.
    pub fn set_insert_param(&mut self, track_id: String, insert_id: String, param_id: String, value: u32) -> (r: Result<(), SphereAudioError>)
        ensures
            handed_over(
                *old(self),
                *final(self),
                EngineCommand::SetInsertParam { track_id, insert_id, param_id, value },
                r,
            ),
    {
        self.send_command(EngineCommand::SetInsertParam { track_id, insert_id, param_id, value })
    }

    /// Bind an insert to its bridged host, or unbind it.
    pub fn set_plugin_bridge_sink(&mut self, insert_id: String, bound: bool) -> (r: Result<(), SphereAudioError>)
        ensures
            handed_over(
                *old(self),
                *final(self),
                EngineCommand::SetPluginBridgeSink { insert_id, bound },
                r,
            ),
    {
        self.send_command(EngineCommand::SetPluginBridgeSink { insert_id, bound })
    }

    /// Note that the editor of a bridged plug-in is open, or is not.
    pub fn set_bridge_editor_active(&mut self, track_id: String, active: bool) -> (r: Result<(), SphereAudioError>)
        ensures
            handed_over(
                *old(self),
                *final(self),
                EngineCommand::SetBridgeEditorActive { track_id, active },
                r,
            ),
    {
        self.send_command(EngineCommand::SetBridgeEditorActive { track_id, active })
    }

    /// Sound a note on a track's instrument.
    pub fn midi_preview_note_on(&mut self, track_id: String, channel: u8, pitch: u8, velocity: u8) -> (r: Result<(), SphereAudioError>)
        ensures
            handed_over(
                *old(self),
                *final(self),
                EngineCommand::MidiPreviewNoteOn { track_id, channel, pitch, velocity },
                r,
            ),
    {
        self.send_command(EngineCommand::MidiPreviewNoteOn { track_id, channel, pitch, velocity })
    }

    /// Release a previewed note.
    pub fn midi_preview_note_off(&mut self, track_id: String, channel: u8, pitch: u8) -> (r: Result<(), SphereAudioError>)
        ensures
            handed_over(
                *old(self),
                *final(self),
                EngineCommand::MidiPreviewNoteOff { track_id, channel, pitch },
                r,
            ),
    {
        self.send_command(EngineCommand::MidiPreviewNoteOff { track_id, channel, pitch })
    }

    /// Preview a controller on a track's instrument.
    pub fn midi_preview_control_change(&mut self, track_id: String, channel: u8, controller: u8, value: u8) -> (r: Result<(), SphereAudioError>)
        ensures
            handed_over(
                *old(self),
                *final(self),
                EngineCommand::MidiPreviewControlChange { track_id, channel, controller, value },
                r,
            ),
    {
        self.send_command(EngineCommand::MidiPreviewControlChange { track_id, channel, controller, value })
    }

    /// Release every previewed note of a track.
    pub fn midi_preview_all_notes_off(&mut self, track_id: String) -> (r: Result<(), SphereAudioError>)
        ensures
            handed_over(
                *old(self),
                *final(self),
                EngineCommand::MidiPreviewAllNotesOff { track_id },
                r,
            ),
    {
        self.send_command(EngineCommand::MidiPreviewAllNotesOff { track_id })
    }

    /// Sound a note on one bridged instrument.
    pub fn plugin_preview_note_on(&mut self, track_id: String, plugin_instance_id: String, channel: u8, pitch: u8, velocity: u8) -> (r: Result<(), SphereAudioError>)
        ensures
            handed_over(
                *old(self),
                *final(self),
                EngineCommand::PluginPreviewNoteOn {
                    track_id,
                    plugin_instance_id,
                    channel,
                    pitch,
                    velocity,
                },
                r,
            ),
    {
        self.send_command(EngineCommand::PluginPreviewNoteOn {
                    track_id,
                    plugin_instance_id,
                    channel,
                    pitch,
                    velocity,
                })
    }

    /// Release a note of one bridged instrument.
    pub fn plugin_preview_note_off(&mut self, track_id: String, plugin_instance_id: String, channel: u8, pitch: u8) -> (r: Result<(), SphereAudioError>)
        ensures
            handed_over(
                *old(self),
                *final(self),
                EngineCommand::PluginPreviewNoteOff { track_id, plugin_instance_id, channel, pitch },
                r,
            ),
    {
        self.send_command(EngineCommand::PluginPreviewNoteOff { track_id, plugin_instance_id, channel, pitch })
    }

    /// Preview a controller on one bridged instrument.
    pub fn plugin_preview_control_change(&mut self, track_id: String, plugin_instance_id: String, channel: u8, controller: u8, value: u8) -> (r: Result<(), SphereAudioError>)
        ensures
            handed_over(
                *old(self),
                *final(self),
                EngineCommand::PluginPreviewControlChange {
                    track_id,
                    plugin_instance_id,
                    channel,
                    controller,
                    value,
                },
                r,
            ),
    {
        self.send_command(EngineCommand::PluginPreviewControlChange {
                    track_id,
                    plugin_instance_id,
                    channel,
                    controller,
                    value,
                })
    }

    /// Release every note of one bridged instrument.
    pub fn plugin_preview_all_notes_off(&mut self, track_id: String, plugin_instance_id: String) -> (r: Result<(), SphereAudioError>)
        ensures
            handed_over(
                *old(self),
                *final(self),
                EngineCommand::PluginPreviewAllNotesOff { track_id, plugin_instance_id },
                r,
            ),
    {
        self.send_command(EngineCommand::PluginPreviewAllNotesOff { track_id, plugin_instance_id })
    }

    /// Stop the audition.
    pub fn stop_audition(&mut self) -> (r: Result<(), SphereAudioError>)
        ensures
            handed_over(
                *old(self),
                *final(self),
                EngineCommand::StopAudition,
                r,
            ),
    {
        self.send_command(EngineCommand::StopAudition)
    }

    /// Start the audition of a decoded source. Without an open stream nothing
    /// is decoded in the first place: see [`EngineInner::can_send`].
    pub fn start_audition(&mut self, source: u64) -> (r: Result<(), SphereAudioError>)
        ensures
            handed_over(
                *old(self),
                *final(self),
                EngineCommand::StartAudition { source },
                r,
            ),
    {
        self.send_command(EngineCommand::StartAudition { source })
    }

    /// Whether a stream takes commands.
    pub fn can_send(&self) -> (r: Result<(), SphereAudioError>)
        ensures
            r == if self.sender() is Some {
                Ok::<(), SphereAudioError>(())
            } else {
                Err(SphereAudioError::EngineNotOpen)
            },
    {
        let open: bool = match &self.active_stream {
            Some(stream) => stream.tx.is_some() || self.cmd_tx.is_some(),
            None => self.cmd_tx.is_some(),
        };
        if open {
            Ok(())
        } else {
            Err(SphereAudioError::EngineNotOpen)
        }
    }
}

/// A parameter's value, as the bit patterns of an `f64` and of the `f32` nearest
/// to it.
#[derive(Clone, Copy, Debug, PartialEq, Eq, Structural)]
pub struct ParamValue {
    pub exact: u64,
    pub single: u32,
}

impl ParamValue {
    /// Whether the value is not zero.
    pub open spec fn on(self) -> bool {
        self.exact != 0 && self.exact != 0x8000_0000_0000_0000
    }

    fn is_on(&self) -> (r: bool)
        ensures
            r == self.on(),
    {
        self.exact != 0 && self.exact != 0x8000_0000_0000_0000
    }
}

/// Whether `command` is what a track parameter asks for.
pub open spec fn track_param_command(
    track_id: Seq<char>,
    param_id: Seq<char>,
    value: ParamValue,
    command: EngineCommand,
) -> bool {
    if param_id == "volume"@ {
        command matches EngineCommand::SetTrackVolume { track_id: id, value: v } && id@ == track_id
            && v == value.single
    } else if param_id == "pan"@ {
        command matches EngineCommand::SetTrackPan { track_id: id, value: v } && id@ == track_id
            && v == value.single
    } else if param_id == "muted"@ {
        command matches EngineCommand::SetTrackMute { track_id: id, muted } && id@ == track_id
            && muted == value.on()
    } else if param_id == "solo"@ {
        command matches EngineCommand::SetTrackSolo { track_id: id, solo } && id@ == track_id
            && solo == value.on()
    } else if param_id == "previewMode"@ {
        command matches EngineCommand::SetTrackPreviewMode { track_id: id, value: v } && id@
            == track_id && v == value.single
    } else {
        false
    }
}

/// Whether a track has such a parameter.
pub open spec fn known_track_param(param_id: Seq<char>) -> bool {
    param_id == "volume"@ || param_id == "pan"@ || param_id == "muted"@ || param_id == "solo"@
        || param_id == "previewMode"@
}

/// The track id that stands for the master.
pub const MASTER_TRACK_ID: &'static str = "__master__";

impl EngineInner {
    /// Set a parameter of a track, or the master's volume. An unknown parameter
    /// is passed over.
    pub fn update_track_param(&mut self, track_id: &str, param_id: &str, value: ParamValue) -> (r:
        Result<(), SphereAudioError>)
        ensures
            track_id@ == MASTER_TRACK_ID@ && param_id@ == "volume"@ ==> r is Ok && *final(self)
                == (EngineInner {
                shared: SharedState {
                    master_volume: held_volume(value.single),
                    ..old(self).shared
                },
                ..*old(self)
            }),
            !(track_id@ == MASTER_TRACK_ID@ && param_id@ == "volume"@) && known_track_param(
                param_id@,
            ) ==> exists|command: EngineCommand|
                track_param_command(track_id@, param_id@, value, command)
                    && #[trigger] handed_over(*old(self), *final(self), command, r),
            !known_track_param(param_id@) ==> r is Ok && *final(self) == *old(self),
    {
        proof {
            lemma_params_differ();
        }
        if str_eq(track_id, MASTER_TRACK_ID) && str_eq(param_id, "volume") {
            self.set_master_volume(value.single);
            return Ok(());
        }
        let id: String = track_id.to_owned();
        let command: EngineCommand = if str_eq(param_id, "volume") {
            EngineCommand::SetTrackVolume { track_id: id, value: value.single }
        } else if str_eq(param_id, "pan") {
            EngineCommand::SetTrackPan { track_id: id, value: value.single }
        } else if str_eq(param_id, "muted") {
            EngineCommand::SetTrackMute { track_id: id, muted: value.is_on() }
        } else if str_eq(param_id, "solo") {
            EngineCommand::SetTrackSolo { track_id: id, solo: value.is_on() }
        } else if str_eq(param_id, "previewMode") {
            EngineCommand::SetTrackPreviewMode { track_id: id, value: value.single }
        } else {
            return Ok(());
        };
        let ghost sent = command;
        proof {
            assert(track_param_command(track_id@, param_id@, value, sent));
        }
        let r = self.send_command(command);
        proof {
            assert(handed_over(*old(self), *self, sent, r));
        }
        r
    }

    /// Set a parameter of an insert.
    pub fn update_insert_param(
        &mut self,
        track_id: &str,
        insert_id: &str,
        param_id: &str,
        value: ParamValue,
    ) -> (r: Result<(), SphereAudioError>)
        ensures
            exists|track: String, insert: String, param: String|
                track@ == track_id@ && insert@ == insert_id@ && param@ == param_id@
                    && #[trigger] handed_over(
                    *old(self),
                    *final(self),
                    EngineCommand::SetInsertParam {
                        track_id: track,
                        insert_id: insert,
                        param_id: param,
                        value: value.single,
                    },
                    r,
                ),
    {
        self.set_insert_param(
            track_id.to_owned(),
            insert_id.to_owned(),
            param_id.to_owned(),
            value.single,
        )
    }
}

proof fn lemma_params_differ()
    ensures
        "volume"@ != "pan"@,
        "volume"@ != "muted"@,
        "volume"@ != "solo"@,
        "volume"@ != "previewMode"@,
        "pan"@ != "muted"@,
        "pan"@ != "solo"@,
        "pan"@ != "previewMode"@,
        "muted"@ != "solo"@,
        "muted"@ != "previewMode"@,
        "solo"@ != "previewMode"@,
{
    reveal_strlit("volume");
    reveal_strlit("pan");
    reveal_strlit("muted");
    reveal_strlit("solo");
    reveal_strlit("previewMode");
    assert("volume"@.len() == 6);
    assert("pan"@.len() == 3);
    assert("muted"@.len() == 5);
    assert("solo"@.len() == 4);
    assert("previewMode"@.len() == 11);
}

// ── Laws ────────────────────────────────────────────────────────────────────

/// Commands that were taken arrive in the order in which they were handed over,
/// and a refused one is not among them.
pub proof fn law_commands_keep_their_order(
    a: EngineInner,
    b: EngineInner,
    c: EngineInner,
    first: EngineCommand,
    second: EngineCommand,
    r1: Result<(), SphereAudioError>,
    r2: Result<(), SphereAudioError>,
)
    requires
        a.sender() is Some,
        handed_over(a, b, first, r1),
        handed_over(b, c, second, r2),
    ensures
        c.sender() is Some,
        command::placed(c.sender()->0) == command::placed(a.sender()->0) + (if r1 is Ok {
            seq![first]
        } else {
            Seq::empty()
        }) + (if r2 is Ok {
            seq![second]
        } else {
            Seq::empty()
        }),
{
    let start = command::placed(a.sender()->0);
    assert(start.push(first) =~= start + seq![first]);
    let mid = command::placed(b.sender()->0);
    assert(mid.push(second) =~= mid + seq![second]);
    assert(start + Seq::<EngineCommand>::empty() =~= start);
    assert(mid + Seq::<EngineCommand>::empty() =~= mid);
}

/// Handing over a command changes nothing but the command channel.
pub proof fn law_handing_over_changes_only_the_channel(
    before: EngineInner,
    after: EngineInner,
    command: EngineCommand,
    r: Result<(), SphereAudioError>,
)
    requires
        handed_over(before, after, command, r),
    ensures
        after.shared == before.shared,
        after.project == before.project,
        after.runtime == before.runtime,
        after.status == before.status,
        after.daux_config == before.daux_config,
        after.recording == before.recording,
        after.live_input == before.live_input,
        after.plain_stream == before.plain_stream,
        after.input_state_revision == before.input_state_revision,
        after.audio_cache == before.audio_cache,
        after.inactive_audio_cache_lru == before.inactive_audio_cache_lru,
        after.glitch_counter == before.glitch_counter,
        after.asio_caps == before.asio_caps,
        after.input_test == before.input_test,
        after.input_test_uses_session == before.input_test_uses_session,
        before.sender() is None ==> after == before,
        before.sender() is Some ==> after.sender() is Some && after == before.with_sender(
            after.sender()->0,
        ),
{
}

// ── Barriers ────────────────────────────────────────────────────────────────

impl EngineInner {
    /// Ask the callback to acknowledge barrier `barrier` once it has applied
    /// everything that was sent before. `false` where that cannot be asked, and
    /// then there is nothing to wait for.
    pub fn begin_command_barrier(&mut self, barrier: u64) -> (r: bool)
        ensures
            exists|sent: Result<(), SphereAudioError>| #[trigger]
                handed_over(
                    *old(self),
                    *final(self),
                    EngineCommand::CommandBarrier { barrier },
                    sent,
                ) && r == (sent is Ok),
    {
        let sent: Result<(), SphereAudioError> = self.send_command(
            EngineCommand::CommandBarrier { barrier },
        );
        sent.is_ok()
    }
}

/// What waiting for a barrier has come to: `Some(true)` once it was
/// acknowledged, `Some(false)` once the time is up without that, and `None`
/// while the wait goes on. An acknowledgement that comes with the end of the
/// time still counts.
pub fn wait_for_command_barrier(acknowledged: bool, time_is_up: bool) -> (r: Option<bool>)
    ensures
        r == if acknowledged {
            Some(true)
        } else if time_is_up {
            Some(false)
        } else {
            None
        },
{
    if acknowledged {
        Some(true)
    } else if time_is_up {
        Some(false)
    } else {
        None
    }
}

} // verus!
