//! The output callback: draining events, choosing what a block renders, and
//! moving the transport on.
//!
//! One block runs in three steps. [`CallbackState::drain_events`] applies what
//! the control thread asked for and says what the host does about it.
//! [`CallbackState::begin_block`] fixes the block's place on the timeline and
//! its MIDI. [`CallbackState::plan_block`] keeps the tails and chooses the
//! path, and [`CallbackState::finish_block`] moves the position on.

use vstd::prelude::*;

use crate::engine::render;
use crate::engine::render::numbers_equal;
use crate::engine::schedule;
use crate::engine::schedule::schedule_midi_render_block;
use crate::engine::schedule::MidiAction;
use crate::engine::state;
use crate::engine::state::one_or_more;
use crate::engine::state::record_output_callback_timing;
use crate::engine::state::SharedState;
use crate::runtime::RuntimeProject;
use crate::transport;
use crate::transport::active_loop_bounds;
use crate::transport::advance_loop_position;
use crate::transport::loop_segments;
use crate::transport::normalize_loop_position;
use crate::transport::LoopBounds;
use crate::transport::LoopSegment;

verus! {

// ── Events ──────────────────────────────────────────────────────────────────

/// What the control thread asks of the callback. Times arrive as samples at the
/// shared rate.
#[derive(Clone, Copy, Debug, PartialEq, Eq)]
pub enum CallbackEvent {
    /// Take over a new project graph.
    LoadProject,
    /// Switch the test tone, with its frequency as a bit pattern.
    SetTestTone { enabled: bool, frequency: u32 },
    StartAudition,
    StopAudition,
    StartTransport,
    StopTransport,
    Seek { position: u64 },
    SetMetronomeEnabled { enabled: bool },
    SetMetronomeSuspended { suspended: bool },
    /// A static tempo, as the bit pattern of an `f64`. The position that keeps
    /// its place in the music is `remapped`.
    SetBpm { bpm_bits: u64, remapped: u64 },
    /// A tempo map; `remapped` as for a static tempo.
    SetTempoMap { remapped: u64 },
    SetTimeSignature { num: u32, den: u32 },
    /// A time signature map and its first entry, if it has one.
    SetTimeSignatureMap { first: Option<(u32, u32)> },
    SetLoop { enabled: bool, start: u64, end: u64 },
    /// Linear master volume, as a bit pattern.
    SetMasterVolume { value: u32 },
    /// Bind an insert to its bridged host, or unbind it.
    SetPluginBridgeSink { bound: bool },
    CommandBarrier,
    SetBridgeEditorActive { active: bool },
    SetTrackMute,
    SetTrackSolo,
    /// Anything that only edits the graph.
    Edit,
}

/// Why notes are released.
#[derive(Clone, Copy, Debug, PartialEq, Eq, Structural)]
pub enum NotesOff {
    ProjectLoad,
    Stop,
    TrackMute,
    TrackSolo,
}

/// What the host does about an event, or at a block's edge.
#[derive(Clone, Copy, Debug, PartialEq, Eq)]
pub enum CallbackAction {
    /// Release every sounding note of the graph.
    AllNotesOff { reason: NotesOff },
    /// Release the notes of tracks that cannot be heard any more.
    NotesOffForInaudible { reason: NotesOff },
    /// Let native plug-ins drain their MIDI for this many frames.
    FlushMidiInserts { frames: usize },
    /// Put the new graph in place of the old one. Bridge bindings and open
    /// editors carry over.
    SwapGraph,
    /// Find the bridge of every insert again.
    ResolveBridgeSinks,
    /// Hand the old graph to the background for disposal.
    RetireGraph,
    /// Point MIDI playback at a timeline sample and forget sounding notes.
    ResetMidi { position: u64 },
    /// Silence the compensation delay lines.
    ResetDelayLines,
    /// Restart the click schedule at a timeline sample.
    ResetMetronome { position: u64 },
    /// Give the click the graph's tempo.
    FollowTempo { position: u64 },
    /// Move the graph's clips to the new tempo.
    RemapTempo { position: u64 },
    EnableMetronome { enabled: bool, position: u64 },
    SuspendMetronome { suspended: bool },
    /// Give the click a time signature.
    ClickSignature { num: u32, den: u32, position: u64 },
    /// Give the click a time signature map.
    ClickSignatureMap { position: u64 },
    /// Tune the test tone.
    ToneFrequency { frequency: u32 },
    /// Begin to play the audition source that the event brought.
    BeginAudition,
    /// Hand the audition source to the background for disposal.
    RetireAudition,
    /// Tell the sender that everything before has been applied.
    Acknowledge,
    /// Bind or unbind the insert's bridge.
    BindSink { bound: bool },
    /// Note that the track's editor is open, or is not.
    EditorActive { active: bool },
    /// Apply the event's edit to the graph.
    ApplyEdit,
    /// Add this block's live input to the track meters.
    AccumulateLiveInput { left: u32, right: u32, pair: (u32, u32) },
}

/// What the callback remembers from block to block.
#[derive(Clone, Copy, Debug, PartialEq, Eq, Structural)]
pub struct CallbackState {
    pub playing: bool,
    /// Samples for which a stopped transport still renders.
    pub stop_tail_samples: u64,
    /// Samples for which a previewed note still renders.
    pub preview_tail_samples: u64,
    /// Samples for which the bridges are kept awake to drain a panic.
    pub bridge_panic_flush_samples: u64,
    /// Samples for which a bridged preview still renders.
    pub bridge_preview_tail_samples: u64,
    /// Whether an audition source plays.
    pub audition: bool,
    pub osc_on: bool,
    /// Frequency that the test tone is tuned to, as a bit pattern.
    pub osc_freq: u32,
    /// Rate of the device, in hertz.
    pub output_sample_rate: u32,
}

/// The largest of two numbers.
pub open spec fn max64(a: u64, b: u64) -> u64 {
    if a >= b {
        a
    } else {
        b
    }
}

/// `a` less `b`, at least zero.
pub open spec fn less(a: u64, b: u64) -> u64 {
    if a >= b {
        (a - b) as u64
    } else {
        0
    }
}

impl CallbackState {
    /// The state after an event. `tail` is how long a stopped graph rings.
    pub open spec fn after_event(self, event: CallbackEvent, tail: u64) -> CallbackState {
        match event {
            CallbackEvent::SetTestTone { enabled, frequency } => CallbackState {
                osc_on: enabled,
                osc_freq: frequency,
                ..self
            },
            CallbackEvent::StartAudition => CallbackState { audition: true, ..self },
            CallbackEvent::StopAudition => CallbackState { audition: false, ..self },
            CallbackEvent::StartTransport => CallbackState {
                playing: true,
                stop_tail_samples: 0,
                ..self
            },
            CallbackEvent::StopTransport => CallbackState {
                playing: false,
                stop_tail_samples: tail,
                ..self
            },
            CallbackEvent::SetBridgeEditorActive { active } => if active {
                self
            } else {
                CallbackState {
                    preview_tail_samples: max64(self.preview_tail_samples, tail),
                    ..self
                }
            },
            _ => self,
        }
    }

    /// What the host does about an event. `frames` is the length of the block
    /// that drains it.
    pub open spec fn event_actions(
        self,
        event: CallbackEvent,
        position: u64,
        frames: usize,
    ) -> Seq<CallbackAction> {
        match event {
            CallbackEvent::LoadProject => seq![
                CallbackAction::AllNotesOff { reason: NotesOff::ProjectLoad },
                CallbackAction::FlushMidiInserts { frames },
                CallbackAction::SwapGraph,
                CallbackAction::ResolveBridgeSinks,
                CallbackAction::FollowTempo { position },
                CallbackAction::RetireGraph,
                CallbackAction::ResetMidi { position },
            ],
            CallbackEvent::SetTestTone { enabled, frequency } => seq![
                CallbackAction::ToneFrequency { frequency },
            ],
            CallbackEvent::StartAudition => if self.audition {
                seq![CallbackAction::BeginAudition, CallbackAction::RetireAudition]
            } else {
                seq![CallbackAction::BeginAudition]
            },
            CallbackEvent::StopAudition => if self.audition {
                seq![CallbackAction::RetireAudition]
            } else {
                Seq::empty()
            },
            CallbackEvent::StartTransport => seq![
                CallbackAction::ResetMidi { position },
                CallbackAction::ResetDelayLines,
            ],
            CallbackEvent::StopTransport => seq![
                CallbackAction::AllNotesOff { reason: NotesOff::Stop },
            ],
            CallbackEvent::Seek { position: to } => seq![
                CallbackAction::ResetMetronome { position: to },
                CallbackAction::ResetMidi { position: to },
                CallbackAction::ResetDelayLines,
            ],
            CallbackEvent::SetMetronomeEnabled { enabled } => seq![
                CallbackAction::EnableMetronome { enabled, position },
            ],
            CallbackEvent::SetMetronomeSuspended { suspended } => seq![
                CallbackAction::SuspendMetronome { suspended },
            ],
            CallbackEvent::SetBpm { bpm_bits, remapped } => seq![
                CallbackAction::FollowTempo { position },
                CallbackAction::RemapTempo { position },
            ],
            CallbackEvent::SetTempoMap { remapped } => seq![
                CallbackAction::FollowTempo { position },
                CallbackAction::RemapTempo { position },
            ],
            CallbackEvent::SetTimeSignature { num, den } => seq![
                CallbackAction::ClickSignature { num, den, position },
            ],
            CallbackEvent::SetTimeSignatureMap { first } => seq![
                CallbackAction::ClickSignatureMap { position },
            ],
            CallbackEvent::SetLoop { enabled, start, end } => Seq::empty(),
            CallbackEvent::SetMasterVolume { value } => Seq::empty(),
            CallbackEvent::SetPluginBridgeSink { bound } => seq![
                CallbackAction::BindSink { bound },
                CallbackAction::ResolveBridgeSinks,
            ],
            CallbackEvent::CommandBarrier => seq![CallbackAction::Acknowledge],
            CallbackEvent::SetBridgeEditorActive { active } => seq![
                CallbackAction::EditorActive { active },
            ],
            CallbackEvent::SetTrackMute => seq![
                CallbackAction::ApplyEdit,
                CallbackAction::NotesOffForInaudible { reason: NotesOff::TrackMute },
            ],
            CallbackEvent::SetTrackSolo => seq![
                CallbackAction::ApplyEdit,
                CallbackAction::NotesOffForInaudible { reason: NotesOff::TrackSolo },
            ],
            CallbackEvent::Edit => seq![CallbackAction::ApplyEdit],
        }
    }
}

/// The part of the shared state that events change.
#[derive(Clone, Copy, Debug, PartialEq, Eq, Structural)]
pub struct TransportFields {
    pub playing: bool,
    pub position: u64,
    pub metronome_enabled: bool,
    pub bpm_bits: u64,
    pub time_sig_num: u32,
    pub time_sig_den: u32,
    pub loop_enabled: bool,
    pub loop_start: u64,
    pub loop_end: u64,
    pub master_volume: u32,
}

impl TransportFields {
    /// The fields as a shared state holds them.
    pub open spec fn of(shared: SharedState) -> TransportFields {
        TransportFields {
            playing: shared.playing,
            position: shared.position_samples,
            metronome_enabled: shared.metronome_enabled,
            bpm_bits: shared.bpm_bits,
            time_sig_num: shared.time_sig_num,
            time_sig_den: shared.time_sig_den,
            loop_enabled: shared.loop_enabled,
            loop_start: shared.loop_start_samples,
            loop_end: shared.loop_end_samples,
            master_volume: shared.master_volume,
        }
    }

    /// A shared state with these fields.
    pub open spec fn put_in(self, shared: SharedState) -> SharedState {
        SharedState {
            playing: self.playing,
            position_samples: self.position,
            metronome_enabled: self.metronome_enabled,
            bpm_bits: self.bpm_bits,
            time_sig_num: self.time_sig_num,
            time_sig_den: self.time_sig_den,
            loop_enabled: self.loop_enabled,
            loop_start_samples: self.loop_start,
            loop_end_samples: self.loop_end,
            master_volume: self.master_volume,
            ..shared
        }
    }

    /// The fields after an event.
    pub open spec fn after_event(self, event: CallbackEvent) -> TransportFields {
        match event {
            CallbackEvent::StartTransport => TransportFields { playing: true, ..self },
            CallbackEvent::StopTransport => TransportFields { playing: false, ..self },
            CallbackEvent::Seek { position } => TransportFields { position, ..self },
            CallbackEvent::SetMetronomeEnabled { enabled } => TransportFields {
                metronome_enabled: enabled,
                ..self
            },
            CallbackEvent::SetBpm { bpm_bits, remapped } => TransportFields {
                bpm_bits,
                position: remapped,
                ..self
            },
            CallbackEvent::SetTempoMap { remapped } => TransportFields {
                position: remapped,
                ..self
            },
            CallbackEvent::SetTimeSignature { num, den } => TransportFields {
                time_sig_num: state::at_least_one(num),
                time_sig_den: state::at_least_one(den),
                ..self
            },
            CallbackEvent::SetTimeSignatureMap { first } => match first {
                Some(signature) => TransportFields {
                    time_sig_num: state::at_least_one(signature.0),
                    time_sig_den: state::at_least_one(signature.1),
                    ..self
                },
                None => self,
            },
            CallbackEvent::SetLoop { enabled, start, end } => TransportFields {
                loop_enabled: enabled,
                loop_start: start,
                loop_end: end,
                ..self
            },
            CallbackEvent::SetMasterVolume { value } => TransportFields {
                master_volume: value,
                ..self
            },
            _ => self,
        }
    }
}

/// The shared state after an event.
pub open spec fn shared_after(shared: SharedState, event: CallbackEvent) -> SharedState {
    TransportFields::of(shared).after_event(event).put_in(shared)
}

/// The state after the first `n` events.
pub open spec fn state_after(
    s: CallbackState,
    events: Seq<CallbackEvent>,
    tail: u64,
    n: nat,
) -> CallbackState
    decreases n,
{
    if n == 0 {
        s
    } else {
        state_after(s, events, tail, (n - 1) as nat).after_event(events[n - 1], tail)
    }
}

/// The shared state after the first `n` events.
pub open spec fn shared_after_all(
    shared: SharedState,
    events: Seq<CallbackEvent>,
    n: nat,
) -> SharedState
    decreases n,
{
    if n == 0 {
        shared
    } else {
        shared_after(shared_after_all(shared, events, (n - 1) as nat), events[n - 1])
    }
}

/// What the host does about the first `n` events, in order.
pub open spec fn actions_for(
    s: CallbackState,
    shared: SharedState,
    events: Seq<CallbackEvent>,
    tail: u64,
    frames: usize,
    n: nat,
) -> Seq<CallbackAction>
    decreases n,
{
    if n == 0 {
        Seq::empty()
    } else {
        actions_for(s, shared, events, tail, frames, (n - 1) as nat) + state_after(
            s,
            events,
            tail,
            (n - 1) as nat,
        ).event_actions(
            events[n - 1],
            shared_after_all(shared, events, (n - 1) as nat).position_samples,
            frames,
        )
    }
}

/// The fields after an event.
fn transport_after(fields: TransportFields, event: CallbackEvent) -> (r: TransportFields)
    ensures
        r == fields.after_event(event),
{
    let mut t: TransportFields = fields;
    match event {
        CallbackEvent::StartTransport => {
            t.playing = true;
        },
        CallbackEvent::StopTransport => {
            t.playing = false;
        },
        CallbackEvent::Seek { position } => {
            t.position = position;
        },
        CallbackEvent::SetMetronomeEnabled { enabled } => {
            t.metronome_enabled = enabled;
        },
        CallbackEvent::SetBpm { bpm_bits, remapped } => {
            t.bpm_bits = bpm_bits;
            t.position = remapped;
        },
        CallbackEvent::SetTempoMap { remapped } => {
            t.position = remapped;
        },
        CallbackEvent::SetTimeSignature { num, den } => {
            t.time_sig_num = one_or_more(num);
            t.time_sig_den = one_or_more(den);
        },
        CallbackEvent::SetTimeSignatureMap { first } => {
            if let Some(signature) = first {
                t.time_sig_num = one_or_more(signature.0);
                t.time_sig_den = one_or_more(signature.1);
            }
        },
        CallbackEvent::SetLoop { enabled, start, end } => {
            t.loop_enabled = enabled;
            t.loop_start = start;
            t.loop_end = end;
        },
        CallbackEvent::SetMasterVolume { value } => {
            t.master_volume = value;
        },
        _ => {},
    }
    t
}

/// Apply an event to the shared state.
fn apply_to_shared(shared: &mut SharedState, event: CallbackEvent)
    ensures
        *final(shared) == shared_after(*old(shared), event),
{
    let before = TransportFields {
        playing: shared.playing,
        position: shared.position_samples,
        metronome_enabled: shared.metronome_enabled,
        bpm_bits: shared.bpm_bits,
        time_sig_num: shared.time_sig_num,
        time_sig_den: shared.time_sig_den,
        loop_enabled: shared.loop_enabled,
        loop_start: shared.loop_start_samples,
        loop_end: shared.loop_end_samples,
        master_volume: shared.master_volume,
    };
    let t: TransportFields = transport_after(before, event);
    shared.playing = t.playing;
    shared.position_samples = t.position;
    shared.metronome_enabled = t.metronome_enabled;
    shared.bpm_bits = t.bpm_bits;
    shared.time_sig_num = t.time_sig_num;
    shared.time_sig_den = t.time_sig_den;
    shared.loop_enabled = t.loop_enabled;
    shared.loop_start_samples = t.loop_start;
    shared.loop_end_samples = t.loop_end;
    shared.master_volume = t.master_volume;
}

impl CallbackState {
    /// Apply one event to the callback's own state.
    fn apply_to_state(&mut self, event: CallbackEvent, tail: u64)
        ensures
            *final(self) == old(self).after_event(event, tail),
    {
        match event {
            CallbackEvent::SetTestTone { enabled, frequency } => {
                self.osc_on = enabled;
                self.osc_freq = frequency;
            },
            CallbackEvent::StartAudition => {
                self.audition = true;
            },
            CallbackEvent::StopAudition => {
                self.audition = false;
            },
            CallbackEvent::StartTransport => {
                self.playing = true;
                self.stop_tail_samples = 0;
            },
            CallbackEvent::StopTransport => {
                self.playing = false;
                self.stop_tail_samples = tail;
            },
            CallbackEvent::SetBridgeEditorActive { active } => {
                if !active && self.preview_tail_samples < tail {
                    self.preview_tail_samples = tail;
                }
            },
            _ => {},
        }
    }

    /// Append what the host does about one event.
    fn push_event_actions(
        &self,
        event: CallbackEvent,
        position: u64,
        frames: usize,
        out: &mut Vec<CallbackAction>,
    )
        ensures
            final(out)@ == old(out)@ + self.event_actions(event, position, frames),
    {
        match event {
            CallbackEvent::LoadProject => {
                out.push(CallbackAction::AllNotesOff { reason: NotesOff::ProjectLoad });
                out.push(CallbackAction::FlushMidiInserts { frames });
                out.push(CallbackAction::SwapGraph);
                out.push(CallbackAction::ResolveBridgeSinks);
                out.push(CallbackAction::FollowTempo { position });
                out.push(CallbackAction::RetireGraph);
                out.push(CallbackAction::ResetMidi { position });
            },
            CallbackEvent::SetTestTone { enabled, frequency } => {
                out.push(CallbackAction::ToneFrequency { frequency });
            },
            CallbackEvent::StartAudition => {
                out.push(CallbackAction::BeginAudition);
                if self.audition {
                    out.push(CallbackAction::RetireAudition);
                }
            },
            CallbackEvent::StopAudition => {
                if self.audition {
                    out.push(CallbackAction::RetireAudition);
                }
            },
            CallbackEvent::StartTransport => {
                out.push(CallbackAction::ResetMidi { position });
                out.push(CallbackAction::ResetDelayLines);
            },
            CallbackEvent::StopTransport => {
                out.push(CallbackAction::AllNotesOff { reason: NotesOff::Stop });
            },
            CallbackEvent::Seek { position: to } => {
                out.push(CallbackAction::ResetMetronome { position: to });
                out.push(CallbackAction::ResetMidi { position: to });
                out.push(CallbackAction::ResetDelayLines);
            },
            CallbackEvent::SetMetronomeEnabled { enabled } => {
                out.push(CallbackAction::EnableMetronome { enabled, position });
            },
            CallbackEvent::SetMetronomeSuspended { suspended } => {
                out.push(CallbackAction::SuspendMetronome { suspended });
            },
            CallbackEvent::SetBpm { bpm_bits, remapped } => {
                out.push(CallbackAction::FollowTempo { position });
                out.push(CallbackAction::RemapTempo { position });
            },
            CallbackEvent::SetTempoMap { remapped } => {
                out.push(CallbackAction::FollowTempo { position });
                out.push(CallbackAction::RemapTempo { position });
            },
            CallbackEvent::SetTimeSignature { num, den } => {
                out.push(CallbackAction::ClickSignature { num, den, position });
            },
            CallbackEvent::SetTimeSignatureMap { first } => {
                out.push(CallbackAction::ClickSignatureMap { position });
            },
            CallbackEvent::SetLoop { enabled, start, end } => {},
            CallbackEvent::SetMasterVolume { value } => {},
            CallbackEvent::SetPluginBridgeSink { bound } => {
                out.push(CallbackAction::BindSink { bound });
                out.push(CallbackAction::ResolveBridgeSinks);
            },
            CallbackEvent::CommandBarrier => {
                out.push(CallbackAction::Acknowledge);
            },
            CallbackEvent::SetBridgeEditorActive { active } => {
                out.push(CallbackAction::EditorActive { active });
            },
            CallbackEvent::SetTrackMute => {
                out.push(CallbackAction::ApplyEdit);
                out.push(CallbackAction::NotesOffForInaudible { reason: NotesOff::TrackMute });
            },
            CallbackEvent::SetTrackSolo => {
                out.push(CallbackAction::ApplyEdit);
                out.push(CallbackAction::NotesOffForInaudible { reason: NotesOff::TrackSolo });
            },
            CallbackEvent::Edit => {
                out.push(CallbackAction::ApplyEdit);
            },
        }
        proof {
            assert(out@ =~= old(out)@ + self.event_actions(event, position, frames));
        }
    }

    /// Apply everything that the control thread asked for, in order, before the
    /// block begins. `tail` is how long a stopped graph rings, and `frames` is
    /// the block's length.
    pub fn drain_events(
        &mut self,
        shared: &mut SharedState,
        events: &Vec<CallbackEvent>,
        tail: u64,
        frames: usize,
    ) -> (r: Vec<CallbackAction>)
        ensures
            *final(self) == state_after(*old(self), events@, tail, events@.len()),
            *final(shared) == shared_after_all(*old(shared), events@, events@.len()),
            r@ == actions_for(
                *old(self),
                *old(shared),
                events@,
                tail,
                frames,
                events@.len(),
            ),
    {
        let mut out: Vec<CallbackAction> = Vec::new();
        let mut k: usize = 0;
        let ghost before = *self;
        let ghost shared_before = *shared;
        while k < events.len()
            invariant
                k <= events@.len(),
                *self == state_after(before, events@, tail, k as nat),
                *shared == shared_after_all(shared_before, events@, k as nat),
                out@ == actions_for(before, shared_before, events@, tail, frames, k as nat),
            decreases events@.len() - k,
        {
            let event: CallbackEvent = events[k];
            self.push_event_actions(event, shared.position_samples, frames, &mut out);
            self.apply_to_state(event, tail);
            apply_to_shared(shared, event);
            k = k + 1;
        }
        out
    }
}

/// Put a new graph in place of the running one, at the device's rate, and give
/// back the old one for disposal elsewhere.
pub fn swap_graph(
    current: &mut RuntimeProject,
    next: RuntimeProject,
    output_sample_rate: u32,
) -> (r: RuntimeProject)
    ensures
        *final(current) == (RuntimeProject { sample_rate: output_sample_rate, ..next }),
        r == *old(current),
{
    let mut graph = next;
    graph.sample_rate = output_sample_rate;
    std::mem::swap(current, &mut graph);
    graph
}

// ── Test tone ───────────────────────────────────────────────────────────────

impl CallbackState {
    /// Follow the shared test-tone settings: the new frequency if it differs
    /// from the tuned one, and whether a tone sounds.
    pub fn sync_tone(&mut self, shared: &SharedState) -> (r: (Option<u32>, bool))
        ensures
            r.0 == if render::equal_as_numbers(shared.test_tone_freq, old(self).osc_freq) {
                None
            } else {
                Some(shared.test_tone_freq)
            },
            r.1 == (shared.test_tone_enabled || old(self).osc_on),
            *final(self) == (CallbackState {
                osc_freq: if r.0 is Some {
                    shared.test_tone_freq
                } else {
                    old(self).osc_freq
                },
                ..*old(self)
            }),
    {
        let sounds: bool = shared.test_tone_enabled || self.osc_on;
        if numbers_equal(shared.test_tone_freq, self.osc_freq) {
            (None, sounds)
        } else {
            self.osc_freq = shared.test_tone_freq;
            (Some(shared.test_tone_freq), sounds)
        }
    }
}

// ── A block ─────────────────────────────────────────────────────────────────

/// A block's place on the timeline.
#[derive(Debug)]
pub struct BlockStart {
    /// Whole frames that the device asked for.
    pub frames: u64,
    /// The loop that playback follows, if it plays and loops.
    pub loop_bounds: Option<LoopBounds>,
    /// Timeline sample of the first frame.
    pub base_sample: u64,
    /// What the host does first, where the position was brought into the loop.
    pub actions: Vec<CallbackAction>,
    /// What the MIDI scheduler does, when playing.
    pub midi: Vec<MidiAction>,
    /// Where playback starts anew after the block, if it ends on the loop's end.
    pub end_loop_midi_reset: Option<u64>,
}

/// Whole frames in a device buffer.
pub open spec fn whole_frames(len: int, channels: int) -> int {
    if channels == 0 {
        0
    } else {
        len / channels
    }
}

/// The loop that a block follows.
pub open spec fn block_loop(s: CallbackState, shared: SharedState) -> Option<LoopBounds> {
    if s.playing {
        shared.loop_in_force()
    } else {
        None
    }
}

fn count_whole_frames(len: usize, channels: usize) -> (r: u64)
    ensures
        r == whole_frames(len as int, channels as int),
{
    if channels == 0 {
        0
    } else {
        proof {
            assert(len as int / channels as int <= len) by (nonlinear_arith)
                requires
                    channels > 0,
                    len >= 0,
            ;
        }
        (len / channels) as u64
    }
}

/// What the host does where a position was brought into the loop.
pub open spec fn relocation_actions(from: u64, to: u64) -> Seq<CallbackAction> {
    if from == to {
        Seq::empty()
    } else {
        seq![
            CallbackAction::ResetMidi { position: to },
            CallbackAction::ResetMetronome { position: to },
        ]
    }
}

/// Whether `start` places a block of `len` samples at `position`.
pub open spec fn places_block(
    start: BlockStart,
    playing: bool,
    position: u64,
    bounds: Option<LoopBounds>,
    len: usize,
    channels: usize,
) -> bool {
    let segments = transport::block_segments(
        start.base_sample as int,
        start.frames as int,
        bounds,
    );
    let scheduled = playing && channels > 0;
    &&& start.frames == whole_frames(len as int, channels as int)
    &&& start.loop_bounds == bounds
    &&& start.base_sample == transport::normalized(position as int, bounds)
    &&& start.actions@ == relocation_actions(position, start.base_sample)
    &&& start.midi@ == if scheduled {
        schedule::midi_actions(segments, segments.len())
    } else {
        Seq::empty()
    }
    &&& start.end_loop_midi_reset == if scheduled {
        schedule::end_reset(segments, bounds)
    } else {
        None
    }
}

fn place_block(
    playing: bool,
    position: u64,
    loop_bounds: Option<LoopBounds>,
    len: usize,
    channels: usize,
) -> (r: BlockStart)
    requires
        transport::loop_valid(loop_bounds),
    ensures
        places_block(r, playing, position, loop_bounds, len, channels),
{
    let base_sample: u64 = normalize_loop_position(position, loop_bounds);
    let mut actions: Vec<CallbackAction> = Vec::new();
    if base_sample != position {
        actions.push(CallbackAction::ResetMidi { position: base_sample });
        actions.push(CallbackAction::ResetMetronome { position: base_sample });
    }
    proof {
        assert(actions@ =~= relocation_actions(position, base_sample));
    }
    let frames: u64 = count_whole_frames(len, channels);
    let (midi, end_loop_midi_reset): (Vec<MidiAction>, Option<u64>) = if playing && channels > 0 {
        schedule_midi_render_block(base_sample, frames, loop_bounds)
    } else {
        (Vec::new(), None)
    };
    BlockStart { frames, loop_bounds, base_sample, actions, midi, end_loop_midi_reset }
}

impl CallbackState {
    /// Fix a block's place on the timeline: bring the position into the loop,
    /// and schedule the block's MIDI when playing.
    pub fn begin_block(&self, shared: &mut SharedState, len: usize, channels: usize) -> (r:
        BlockStart)
        ensures
            places_block(
                r,
                self.playing,
                old(shared).position_samples,
                block_loop(*self, *old(shared)),
                len,
                channels,
            ),
            transport::loop_valid(r.loop_bounds),
            *final(shared) == (SharedState { position_samples: r.base_sample, ..*old(shared) }),
    {
        let loop_bounds: Option<LoopBounds> = active_loop_bounds(
            self.playing && shared.loop_enabled,
            shared.loop_start_samples,
            shared.loop_end_samples,
        );
        let start: BlockStart = place_block(
            self.playing,
            shared.position_samples,
            loop_bounds,
            len,
            channels,
        );
        shared.position_samples = start.base_sample;
        start
    }
}

/// What the host knows of its graph when a block is planned.
#[derive(Clone, Copy, Debug, PartialEq, Eq, Structural)]
pub struct GraphActivity {
    /// Whether a previewed note sounds.
    pub has_preview: bool,
    /// Whether MIDI events wait for this block.
    pub pending_midi: bool,
    /// Whether the editor of a bridged plug-in is open.
    pub bridge_editor_active: bool,
    /// How long a stopped graph rings, in samples.
    pub tail: u64,
}

/// What fills the device buffer.
#[derive(Clone, Copy, Debug, PartialEq, Eq, Structural)]
pub enum BlockPath {
    /// The project graph, test tone and click, on two channels or more.
    Graph,
    /// Test tone and click only, on two channels or more.
    Idle,
    /// The project sample by sample, test tone and click, on one channel.
    Mono,
    /// Nothing: the device has no channels.
    Silent,
}

impl CallbackState {
    /// The state once a block's tails are set up: a playing transport needs
    /// none, and a preview or pending MIDI starts the preview tail afresh.
    pub open spec fn tails_set(self, activity: GraphActivity) -> CallbackState {
        if self.playing {
            CallbackState {
                preview_tail_samples: 0,
                stop_tail_samples: 0,
                bridge_panic_flush_samples: 0,
                ..self
            }
        } else if activity.has_preview || activity.pending_midi {
            CallbackState { preview_tail_samples: activity.tail, ..self }
        } else {
            self
        }
    }

    /// Whether a stopped transport renders the graph.
    pub open spec fn renders_stopped(self, activity: GraphActivity) -> bool {
        let s = self.tails_set(activity);
        ||| activity.has_preview
        ||| activity.pending_midi
        ||| s.bridge_panic_flush_samples > 0
        ||| s.bridge_preview_tail_samples > 0
        ||| s.preview_tail_samples > 0
        ||| s.stop_tail_samples > 0
        ||| activity.bridge_editor_active
        ||| s.audition
    }

    /// The state after a block of `frames` frames was planned: what a stopped
    /// transport still rings for grows shorter by the block.
    pub open spec fn after_plan(self, activity: GraphActivity, frames: u64) -> CallbackState {
        let s = self.tails_set(activity);
        if s.playing {
            s
        } else {
            CallbackState {
                bridge_panic_flush_samples: less(s.bridge_panic_flush_samples, frames),
                bridge_preview_tail_samples: less(s.bridge_preview_tail_samples, frames),
                preview_tail_samples: if activity.has_preview || activity.pending_midi {
                    s.preview_tail_samples
                } else {
                    less(s.preview_tail_samples, frames)
                },
                stop_tail_samples: less(s.stop_tail_samples, frames),
                ..s
            }
        }
    }

    /// What fills a block.
    pub open spec fn path(self, activity: GraphActivity, channels: usize) -> BlockPath {
        if channels == 0 {
            BlockPath::Silent
        } else if channels == 1 {
            BlockPath::Mono
        } else if self.playing || self.renders_stopped(activity) {
            BlockPath::Graph
        } else {
            BlockPath::Idle
        }
    }

    /// Keep the tails and choose what fills a block of `frames` frames.
    pub fn plan_block(&mut self, activity: GraphActivity, frames: u64, channels: usize) -> (r:
        BlockPath)
        ensures
            r == old(self).path(activity, channels),
            *final(self) == old(self).after_plan(activity, frames),
    {
        let sounding: bool = activity.has_preview || activity.pending_midi;
        if self.playing {
            self.preview_tail_samples = 0;
            self.stop_tail_samples = 0;
            self.bridge_panic_flush_samples = 0;
        } else if sounding {
            self.preview_tail_samples = activity.tail;
        }
        let stopped_renders: bool = sounding || self.bridge_panic_flush_samples > 0
            || self.bridge_preview_tail_samples > 0 || self.preview_tail_samples > 0
            || self.stop_tail_samples > 0 || activity.bridge_editor_active || self.audition;
        let path: BlockPath = if channels == 0 {
            BlockPath::Silent
        } else if channels == 1 {
            BlockPath::Mono
        } else if self.playing || stopped_renders {
            BlockPath::Graph
        } else {
            BlockPath::Idle
        };
        if !self.playing {
            self.bridge_panic_flush_samples = shorten(self.bridge_panic_flush_samples, frames);
            self.bridge_preview_tail_samples = shorten(self.bridge_preview_tail_samples, frames);
            if !sounding {
                self.preview_tail_samples = shorten(self.preview_tail_samples, frames);
            }
            self.stop_tail_samples = shorten(self.stop_tail_samples, frames);
        }
        path
    }

    /// The click's runs of consecutive samples in a graph block. The click
    /// schedule restarts at the first sample of every run but the first.
    pub fn click_runs(&self, start: &BlockStart) -> (r: Vec<LoopSegment>)
        requires
            transport::loop_valid(start.loop_bounds),
        ensures
            r@ == transport::block_segments(
                start.base_sample as int,
                start.frames as int,
                start.loop_bounds,
            ),
    {
        loop_segments(start.base_sample, start.frames, start.loop_bounds)
    }
}

fn shorten(a: u64, b: u64) -> (r: u64)
    ensures
        r == less(a, b),
{
    if a >= b {
        a - b
    } else {
        0
    }
}

/// The level of a block on one side, as bit patterns.
#[derive(Clone, Copy, Debug, PartialEq, Eq, Structural)]
pub struct SideLevel {
    pub peak: u32,
    pub rms: u32,
}

/// The level that the right meter shows: on a mono device the left one.
pub fn right_level(channels: usize, left: SideLevel, right: SideLevel) -> (r: SideLevel)
    ensures
        r == if channels >= 2 {
            right
        } else {
            left
        },
{
    if channels >= 2 {
        right
    } else {
        left
    }
}

/// How a block came out.
#[derive(Clone, Copy, Debug, PartialEq, Eq, Structural)]
pub struct BlockResult {
    pub path: BlockPath,
    pub channels: usize,
    /// Frames that were filled.
    pub frames: u64,
    /// Whether the block was louder than the silence threshold.
    pub loud: bool,
    /// How long a stopped graph rings, in samples.
    pub tail: u64,
    /// Whether the audition source came to its end in the block.
    pub audition_finished: bool,
    /// Smoothed levels.
    pub left: SideLevel,
    pub right: SideLevel,
    /// Time that the block took, in microseconds.
    pub elapsed_us: u32,
    /// Whole frames that the device asked for.
    pub block_frames: usize,
}

impl CallbackState {
    /// Whether the audition ends with a block: it is mixed into rendered graphs
    /// only.
    pub open spec fn audition_ends(self, result: BlockResult) -> bool {
        self.audition && result.path == BlockPath::Graph && result.audition_finished
    }

    /// The state after a block: a bridged preview that is still loud keeps
    /// ringing, and an audition whose source came to its end is over.
    pub open spec fn after_block(self, result: BlockResult) -> CallbackState {
        CallbackState {
            bridge_preview_tail_samples: if result.path == BlockPath::Graph && !self.playing
                && self.bridge_preview_tail_samples > 0 && result.loud {
                result.tail
            } else {
                self.bridge_preview_tail_samples
            },
            audition: self.audition && !self.audition_ends(result),
            ..self
        }
    }

    /// The shared state after a block: levels, position, counters and timing.
    pub open spec fn shared_after_block(
        self,
        shared: SharedState,
        start: BlockStart,
        result: BlockResult,
    ) -> SharedState {
        (SharedState {
            peak_l: result.left.peak,
            peak_r: result.right.peak,
            rms_l: result.left.rms,
            rms_r: result.right.rms,
            position_samples: if self.playing && result.channels > 0 {
                transport::advanced(
                    start.base_sample as int,
                    result.frames as int,
                    start.loop_bounds,
                ) as u64
            } else {
                shared.position_samples
            },
            output_cb_count: state::counted(shared.output_cb_count),
            ..shared
        }).timed(result.elapsed_us, result.block_frames as nat, self.output_sample_rate)
    }

    /// What the host does after a block: dispose of an audition source that came
    /// to its end, feed the live input to the meters, and start playback anew
    /// where the block ended on the loop's end.
    pub open spec fn end_actions(
        self,
        shared: SharedState,
        start: BlockStart,
        result: BlockResult,
    ) -> Seq<CallbackAction> {
        (if self.audition_ends(result) {
            seq![CallbackAction::RetireAudition]
        } else {
            Seq::empty()
        }) + (if shared.live_input_active {
            seq![
                CallbackAction::AccumulateLiveInput {
                    left: shared.live_input_l,
                    right: shared.live_input_r,
                    pair: (shared.monitor_pair().0 as u32, shared.monitor_pair().1 as u32),
                },
            ]
        } else {
            Seq::empty()
        }) + (if self.playing && result.channels > 0 && start.end_loop_midi_reset is Some {
            seq![
                CallbackAction::ResetMidi { position: start.end_loop_midi_reset->0 },
                CallbackAction::ResetMetronome { position: start.end_loop_midi_reset->0 },
            ]
        } else {
            Seq::empty()
        })
    }

    /// Close a block: publish its levels, move the position on when playing,
    /// count the block and record its timing.
    #[verifier::rlimit(30)]
    #[verifier::spinoff_prover]
    pub fn finish_block(
        &mut self,
        shared: &mut SharedState,
        start: &BlockStart,
        result: BlockResult,
    ) -> (r: Vec<CallbackAction>)
        requires
            transport::loop_valid(start.loop_bounds),
            result.block_frames * 1_000_000 <= u64::MAX,
        ensures
            *final(self) == old(self).after_block(result),
            *final(shared) == old(self).shared_after_block(*old(shared), *start, result),
            r@ == old(self).end_actions(*old(shared), *start, result),
            result.path == BlockPath::Graph && result.audition_finished ==> !final(self).audition,
    {
        let mut out: Vec<CallbackAction> = Vec::new();
        let rendered: bool = match result.path {
            BlockPath::Graph => true,
            _ => false,
        };
        let auditioned: bool = self.audition && rendered && result.audition_finished;
        if auditioned {
            out.push(CallbackAction::RetireAudition);
        }
        if shared.live_input_active {
            out.push(
                CallbackAction::AccumulateLiveInput {
                    left: shared.live_input_l,
                    right: shared.live_input_r,
                    pair: shared.monitor_source_pair(),
                },
            );
        }
        let moves: bool = self.playing && result.channels > 0;
        let position: u64 = if moves {
            advance_loop_position(start.base_sample, result.frames, start.loop_bounds).0
        } else {
            shared.position_samples
        };
        if moves {
            if let Some(at) = start.end_loop_midi_reset {
                out.push(CallbackAction::ResetMidi { position: at });
                out.push(CallbackAction::ResetMetronome { position: at });
            }
        }
        let callbacks: u64 = state::count(shared.output_cb_count);
        shared.peak_l = result.left.peak;
        shared.peak_r = result.right.peak;
        shared.rms_l = result.left.rms;
        shared.rms_r = result.right.rms;
        shared.position_samples = position;
        shared.output_cb_count = callbacks;
        record_output_callback_timing(
            shared,
            result.elapsed_us,
            result.block_frames,
            self.output_sample_rate,
        );
        if rendered && !self.playing && self.bridge_preview_tail_samples > 0 && result.loud {
            self.bridge_preview_tail_samples = result.tail;
        }
        if auditioned {
            self.audition = false;
        }
        out
    }
}

// ── Laws ────────────────────────────────────────────────────────────────────

/// A playing transport rings no tails and renders the graph on any device with
/// two channels or more.
pub proof fn law_playing_needs_no_tail(
    s: CallbackState,
    activity: GraphActivity,
    frames: u64,
    channels: usize,
)
    requires
        s.playing,
    ensures
        s.after_plan(activity, frames).playing,
        s.after_plan(activity, frames).stop_tail_samples == 0,
        s.after_plan(activity, frames).preview_tail_samples == 0,
        s.after_plan(activity, frames).bridge_panic_flush_samples == 0,
        channels >= 2 ==> s.path(activity, channels) == BlockPath::Graph,
{
}

/// The state after `n` blocks of `frames` frames in which nothing happens.
pub open spec fn after_quiet_blocks(
    s: CallbackState,
    activity: GraphActivity,
    frames: u64,
    n: nat,
) -> CallbackState
    decreases n,
{
    if n == 0 {
        s
    } else {
        after_quiet_blocks(s, activity, frames, (n - 1) as nat).after_plan(activity, frames)
    }
}

/// A transport that was stopped rings for as long as it was given: block after
/// block of its graph while the tail lasts, and none once it is used up.
pub proof fn law_stopped_transport_rings_out(
    s: CallbackState,
    activity: GraphActivity,
    frames: u64,
    n: nat,
    channels: usize,
)
    requires
        !s.playing,
        !s.audition,
        s.preview_tail_samples == 0,
        s.bridge_panic_flush_samples == 0,
        s.bridge_preview_tail_samples == 0,
        !activity.has_preview,
        !activity.pending_midi,
        !activity.bridge_editor_active,
        channels >= 2,
    ensures
        after_quiet_blocks(s, activity, frames, n).path(activity, channels) == if n * frames
            < s.stop_tail_samples {
            BlockPath::Graph
        } else {
            BlockPath::Idle
        },
{
    lemma_quiet_blocks(s, activity, frames, n);
}

/// An audition ends with its source: the source is disposed of once, and a
/// stopped engine with nothing else to render is idle again.
pub proof fn law_finished_audition_ends(
    s: CallbackState,
    activity: GraphActivity,
    shared: SharedState,
    start: BlockStart,
    result: BlockResult,
    again: BlockResult,
    channels: usize,
)
    requires
        s.audition,
        result.path == BlockPath::Graph,
        result.audition_finished,
        channels >= 2,
    ensures
        ({
            let after = s.after_block(result);
            let quiet = !s.playing && s.stop_tail_samples == 0 && s.preview_tail_samples == 0
                && s.bridge_panic_flush_samples == 0 && s.bridge_preview_tail_samples == 0
                && !activity.has_preview && !activity.pending_midi
                && !activity.bridge_editor_active;
            &&& !after.audition
            &&& s.end_actions(shared, start, result).contains(CallbackAction::RetireAudition)
            &&& !after.end_actions(shared, start, again).contains(CallbackAction::RetireAudition)
            &&& quiet ==> after.path(activity, channels) == BlockPath::Idle
        }),
{
    assert(s.end_actions(shared, start, result)[0] == CallbackAction::RetireAudition);
}

proof fn lemma_quiet_blocks(s: CallbackState, activity: GraphActivity, frames: u64, n: nat)
    requires
        !s.playing,
        s.preview_tail_samples == 0,
        s.bridge_panic_flush_samples == 0,
        s.bridge_preview_tail_samples == 0,
        !activity.has_preview,
        !activity.pending_midi,
    ensures
        ({
            let left = s.stop_tail_samples - n * frames;
            after_quiet_blocks(s, activity, frames, n) == (CallbackState {
                stop_tail_samples: if left >= 0 {
                    left as u64
                } else {
                    0
                },
                ..s
            })
        }),
    decreases n,
{
    if n > 0 {
        lemma_quiet_blocks(s, activity, frames, (n - 1) as nat);
        assert(n * frames == (n - 1) * frames + frames) by (nonlinear_arith);
    } else {
        assert(n * frames == 0) by (nonlinear_arith)
            requires
                n == 0,
        ;
    }
}

/// A stopped transport stays where it is, whatever is rendered meanwhile.
pub proof fn law_stopped_transport_keeps_its_position(
    s: CallbackState,
    shared: SharedState,
    start: BlockStart,
    result: BlockResult,
)
    requires
        !s.playing,
    ensures
        s.shared_after_block(shared, start, result).position_samples == shared.position_samples,
{
}

/// A transport that plays in a loop is in it after every block.
pub proof fn law_playback_stays_in_its_loop(
    s: CallbackState,
    shared: SharedState,
    start: BlockStart,
    result: BlockResult,
    bounds: LoopBounds,
)
    requires
        s.playing,
        result.channels > 0,
        start.loop_bounds == Some(bounds),
        bounds.start <= start.base_sample < bounds.end,
    ensures
        bounds.start <= s.shared_after_block(shared, start, result).position_samples < bounds.end,
{
    transport::law_loop_never_leaves_its_bounds(
        start.base_sample as int,
        result.frames as int,
        bounds,
    );
}

/// Whatever is drained, the callback and the control thread agree on whether
/// the transport plays.
pub proof fn law_playing_flags_agree(
    s: CallbackState,
    shared: SharedState,
    events: Seq<CallbackEvent>,
    tail: u64,
    n: nat,
)
    requires
        s.playing == shared.playing,
        n <= events.len(),
    ensures
        state_after(s, events, tail, n).playing == shared_after_all(shared, events, n).playing,
    decreases n,
{
    if n > 0 {
        law_playing_flags_agree(s, shared, events, tail, (n - 1) as nat);
    }
}

/// A barrier is acknowledged after everything that was sent before it, and
/// before anything that was sent after it.
pub proof fn law_barrier_waits_for_what_came_before(
    s: CallbackState,
    shared: SharedState,
    events: Seq<CallbackEvent>,
    tail: u64,
    frames: usize,
    k: int,
    n: nat,
)
    requires
        0 <= k < n <= events.len(),
        events[k] is CommandBarrier,
    ensures
        actions_for(s, shared, events, tail, frames, k as nat).push(
            CallbackAction::Acknowledge,
        ).is_prefix_of(actions_for(s, shared, events, tail, frames, n)),
    decreases n,
{
    let before = actions_for(s, shared, events, tail, frames, k as nat);
    let here = actions_for(s, shared, events, tail, frames, n);
    if n == k + 1 {
        assert(here =~= before.push(CallbackAction::Acknowledge));
    } else {
        law_barrier_waits_for_what_came_before(
            s,
            shared,
            events,
            tail,
            frames,
            k,
            (n - 1) as nat,
        );
        let shorter = actions_for(s, shared, events, tail, frames, (n - 1) as nat);
        assert(shorter =~= here.take(shorter.len() as int));
    }
}

/// Playing from a place, and moving to one, both start the compensation delay
/// lines silent and MIDI at that place.
pub proof fn law_relocation_starts_afresh(s: CallbackState, position: u64, to: u64, frames: usize)
    ensures
        s.event_actions(CallbackEvent::StartTransport, position, frames).contains(
            CallbackAction::ResetDelayLines,
        ),
        s.event_actions(CallbackEvent::StartTransport, position, frames).contains(
            CallbackAction::ResetMidi { position },
        ),
        s.event_actions(CallbackEvent::Seek { position: to }, position, frames).contains(
            CallbackAction::ResetDelayLines,
        ),
        s.event_actions(CallbackEvent::Seek { position: to }, position, frames).contains(
            CallbackAction::ResetMidi { position: to },
        ),
{
    let start = s.event_actions(CallbackEvent::StartTransport, position, frames);
    assert(start[0] == CallbackAction::ResetMidi { position });
    assert(start[1] == CallbackAction::ResetDelayLines);
    let seek = s.event_actions(CallbackEvent::Seek { position: to }, position, frames);
    assert(seek[1] == CallbackAction::ResetMidi { position: to });
    assert(seek[2] == CallbackAction::ResetDelayLines);
}

/// A new graph replaces the old one only after the old one's notes were
/// released, and the old one is disposed of only after that.
pub proof fn law_graph_is_retired_after_its_notes(s: CallbackState, position: u64, frames: usize)
    ensures
        ({
            let actions = s.event_actions(CallbackEvent::LoadProject, position, frames);
            exists|a: int, b: int, c: int|
                0 <= a < b < c < actions.len() && #[trigger] actions[a]
                    == (CallbackAction::AllNotesOff { reason: NotesOff::ProjectLoad })
                    && #[trigger] actions[b] == CallbackAction::SwapGraph && #[trigger] actions[c]
                    == CallbackAction::RetireGraph
        }),
{
    let actions = s.event_actions(CallbackEvent::LoadProject, position, frames);
    assert(actions[0] == CallbackAction::AllNotesOff { reason: NotesOff::ProjectLoad });
    assert(actions[2] == CallbackAction::SwapGraph);
    assert(actions[5] == CallbackAction::RetireGraph);
}

/// Playback moves on by what was played: after a block of a playing transport
/// on a device with channels, the position is the block's start plus its
/// frames. In a loop it is that up to whole rounds, and it is in the loop.
pub proof fn law_playback_moves_on_by_its_block(
    s: CallbackState,
    shared: SharedState,
    start: BlockStart,
    result: BlockResult,
)
    requires
        s.playing,
        result.channels > 0,
        start.loop_bounds matches Some(b) ==> b.start < b.end,
    ensures
        ({
            let after = s.shared_after_block(shared, start, result).position_samples;
            &&& start.loop_bounds is None && start.base_sample + result.frames <= u64::MAX
                ==> after == start.base_sample + result.frames
            &&& start.loop_bounds is None && start.base_sample + result.frames > u64::MAX
                ==> after == u64::MAX
            &&& start.loop_bounds matches Some(b) ==> {
                &&& after < b.end
                &&& start.base_sample >= b.start ==> after >= b.start
                &&& start.base_sample + result.frames < b.end ==> after == start.base_sample
                    + result.frames
                &&& start.base_sample + result.frames == b.end ==> after == b.start
                &&& exists|rounds: int|
                    #![trigger rounds * (b.end - b.start)]
                    0 <= rounds && after + rounds * (b.end - b.start) == start.base_sample
                        + result.frames
            }
        }),
{
    transport::law_position_moves_by_the_frames_played(
        start.base_sample as int,
        result.frames as int,
        start.loop_bounds,
    );
}

/// A block starts where the transport is, with as many whole frames as the
/// device's buffer holds. Only a position at or behind the end of the loop in
/// force is brought back into it, by whole rounds, and the host is told so.
pub proof fn law_block_starts_where_the_transport_is(
    start: BlockStart,
    s: CallbackState,
    shared: SharedState,
    len: usize,
    channels: usize,
)
    requires
        places_block(
            start,
            s.playing,
            shared.position_samples,
            block_loop(s, shared),
            len,
            channels,
        ),
    ensures
        channels > 0 ==> start.frames * channels <= len < (start.frames + 1) * channels,
        channels == 0 ==> start.frames == 0,
        start.loop_bounds is Some <==> s.playing && shared.loop_enabled
            && shared.loop_start_samples < shared.loop_end_samples,
        start.loop_bounds matches Some(b) ==> b.start == shared.loop_start_samples && b.end
            == shared.loop_end_samples,
        start.loop_bounds is None || shared.position_samples < shared.loop_end_samples
            ==> start.base_sample == shared.position_samples && start.actions@.len() == 0,
        start.loop_bounds is Some && shared.position_samples >= shared.loop_end_samples ==> {
            &&& shared.loop_start_samples <= start.base_sample < shared.loop_end_samples
            &&& exists|rounds: int|
                #![trigger rounds * (shared.loop_end_samples - shared.loop_start_samples)]
                0 < rounds && start.base_sample + rounds * (shared.loop_end_samples
                    - shared.loop_start_samples) == shared.position_samples
            &&& start.actions@.contains(
                CallbackAction::ResetMidi { position: start.base_sample },
            )
            &&& start.actions@.contains(
                CallbackAction::ResetMetronome { position: start.base_sample },
            )
        },
{
    if channels > 0 {
        vstd::arithmetic::div_mod::lemma_fundamental_div_mod(len as int, channels as int);
        let q = len as int / channels as int;
        let r = len as int % channels as int;
        assert(0 <= r < channels) by (nonlinear_arith)
            requires
                channels > 0,
                r == len as int % channels as int,
        ;
        assert(q * channels <= len < (q + 1) * channels) by (nonlinear_arith)
            requires
                len == channels * q + r,
                0 <= r < channels,
        ;
    }
    if let Some(b) = start.loop_bounds {
        if shared.position_samples >= b.end {
            let n = b.end - b.start;
            let x = shared.position_samples - b.start;
            vstd::arithmetic::div_mod::lemma_fundamental_div_mod(x, n);
            assert(0 <= x % n < n) by (nonlinear_arith)
                requires
                    n > 0,
            ;
            let rounds = x / n;
            assert(0 < rounds) by (nonlinear_arith)
                requires
                    x == n * rounds + x % n,
                    x >= n,
                    0 <= x % n < n,
            ;
            assert(rounds * n == n * rounds) by (nonlinear_arith);
            assert(start.base_sample + rounds * (shared.loop_end_samples
                - shared.loop_start_samples) == shared.position_samples);
            assert(start.base_sample < shared.position_samples);
            assert(start.actions@[0] == (CallbackAction::ResetMidi { position: start.base_sample }));
            assert(start.actions@[1] == (CallbackAction::ResetMetronome {
                position: start.base_sample,
            }));
        }
    }
}

/// A stopped transport schedules no notes, and a playing one on a device with
/// channels schedules every frame of its block once, from the timeline sample
/// that the frame plays.
pub proof fn law_playing_block_schedules_its_frames(
    start: BlockStart,
    s: CallbackState,
    shared: SharedState,
    len: usize,
    channels: usize,
    f: int,
)
    requires
        places_block(
            start,
            s.playing,
            shared.position_samples,
            block_loop(s, shared),
            len,
            channels,
        ),
        start.frames <= u32::MAX,
        start.base_sample + start.frames <= u64::MAX,
    ensures
        !s.playing || channels == 0 ==> start.midi@.len() == 0 && start.end_loop_midi_reset
            is None,
        s.playing && channels > 0 && 0 <= f < start.frames ==> exists|k: int|
            0 <= k < start.midi@.len() && (#[trigger] start.midi@[k] matches MidiAction::Schedule {
                sample,
                frames,
                offset,
            } && offset <= f < offset + frames && sample + (f - offset) == transport::timeline_at(
                start.base_sample as int,
                f,
                start.loop_bounds,
            )),
        start.end_loop_midi_reset matches Some(at) ==> start.loop_bounds is Some && at
            == start.loop_bounds->0.start,
{
    if s.playing && channels > 0 {
        schedule::law_block_that_ends_on_the_loop_end_restarts(
            start.base_sample as int,
            start.frames as int,
            start.loop_bounds,
        );
        if 0 <= f < start.frames {
            let k = schedule::law_every_frame_is_scheduled_once(
                start.base_sample as int,
                start.frames as int,
                start.loop_bounds,
                f,
            );
            assert(start.midi@[k] is Schedule);
        }
    }
}

/// What the control thread asks for is what the transport then is: the last
/// event of a kind decides.
pub proof fn law_events_set_what_they_name(
    s: CallbackState,
    shared: SharedState,
    events: Seq<CallbackEvent>,
    tail: u64,
    n: nat,
)
    requires
        0 < n <= events.len(),
    ensures
        ({
            let after = shared_after_all(shared, events, n);
            let state = state_after(s, events, tail, n);
            match events[n - 1] {
                CallbackEvent::StartTransport => after.playing && state.playing
                    && state.stop_tail_samples == 0,
                CallbackEvent::StopTransport => !after.playing && !state.playing
                    && state.stop_tail_samples == tail,
                CallbackEvent::Seek { position } => after.position_samples == position,
                CallbackEvent::SetMetronomeEnabled { enabled } => after.metronome_enabled
                    == enabled,
                CallbackEvent::SetBpm { bpm_bits, remapped } => after.bpm_bits == bpm_bits
                    && after.position_samples == remapped,
                CallbackEvent::SetTempoMap { remapped } => after.position_samples == remapped,
                CallbackEvent::SetTimeSignature { num, den } => after.time_sig_num == (if num == 0 {
                    1
                } else {
                    num
                }) && after.time_sig_den == (if den == 0 {
                    1
                } else {
                    den
                }),
                CallbackEvent::SetTimeSignatureMap { first } => first matches Some(signature)
                    ==> after.time_sig_num == (if signature.0 == 0 {
                    1
                } else {
                    signature.0
                }) && after.time_sig_den == (if signature.1 == 0 {
                    1
                } else {
                    signature.1
                }),
                CallbackEvent::SetLoop { enabled, start, end } => after.loop_enabled == enabled
                    && after.loop_start_samples == start && after.loop_end_samples == end,
                CallbackEvent::SetMasterVolume { value } => after.master_volume == value,
                CallbackEvent::SetTestTone { enabled, frequency } => state.osc_on == enabled
                    && state.osc_freq == frequency,
                CallbackEvent::StartAudition => state.audition,
                CallbackEvent::StopAudition => !state.audition,
                CallbackEvent::SetBridgeEditorActive { active } => !active
                    ==> state.preview_tail_samples >= tail,
                _ => true,
            }
        }),
{
}

/// Whether an event starts or stops the transport.
pub open spec fn switches_transport(event: CallbackEvent) -> bool {
    event is StartTransport || event is StopTransport
}

/// Whether an event moves the position.
pub open spec fn moves_position(event: CallbackEvent) -> bool {
    event is Seek || event is SetBpm || event is SetTempoMap
}

/// What no event asks to change stays as it is: the transport is started,
/// stopped, moved, looped or re-timed only by the events that say so.
pub proof fn law_events_change_nothing_else(
    s: CallbackState,
    shared: SharedState,
    events: Seq<CallbackEvent>,
    tail: u64,
    n: nat,
)
    requires
        n <= events.len(),
    ensures
        ({
            let after = shared_after_all(shared, events, n);
            let state = state_after(s, events, tail, n);
            &&& (forall|k: int| 0 <= k < n ==> !switches_transport(#[trigger] events[k]))
                ==> after.playing == shared.playing && state.playing == s.playing
                && state.stop_tail_samples == s.stop_tail_samples
            &&& (forall|k: int| 0 <= k < n ==> !moves_position(#[trigger] events[k]))
                ==> after.position_samples == shared.position_samples
            &&& (forall|k: int| 0 <= k < n ==> !(#[trigger] events[k] is SetLoop))
                ==> after.loop_enabled == shared.loop_enabled && after.loop_start_samples
                == shared.loop_start_samples && after.loop_end_samples == shared.loop_end_samples
            &&& (forall|k: int| 0 <= k < n ==> !(#[trigger] events[k] is SetMasterVolume))
                ==> after.master_volume == shared.master_volume
            &&& (forall|k: int| 0 <= k < n ==> !(#[trigger] events[k] is SetBpm))
                ==> after.bpm_bits == shared.bpm_bits
            &&& (forall|k: int| 0 <= k < n ==> !(#[trigger] events[k] is SetMetronomeEnabled))
                ==> after.metronome_enabled == shared.metronome_enabled
            &&& (forall|k: int|
                0 <= k < n ==> !(#[trigger] events[k] is StartAudition) && !(
                events[k] is StopAudition)) ==> state.audition == s.audition
            &&& (forall|k: int| 0 <= k < n ==> !(#[trigger] events[k] is SetTestTone))
                ==> state.osc_on == s.osc_on && state.osc_freq == s.osc_freq
            &&& after.peak_l == shared.peak_l && after.peak_r == shared.peak_r
            &&& after.input_ring == shared.input_ring && after.live_input_active
                == shared.live_input_active
            &&& state.output_sample_rate == s.output_sample_rate
            &&& state.bridge_panic_flush_samples == s.bridge_panic_flush_samples
            &&& state.bridge_preview_tail_samples == s.bridge_preview_tail_samples
            &&& state.preview_tail_samples >= s.preview_tail_samples
        }),
    decreases n,
{
    if n > 0 {
        law_events_change_nothing_else(s, shared, events, tail, (n - 1) as nat);
        let last = events[n - 1];
        assert(events[n - 1] == last);
    }
}

/// The host is told what an event takes: stopping releases the notes, a new
/// graph is put in place and its bridges found again, an edit is applied before
/// the notes of tracks that it silences are released, a click or a tempo is
/// passed on, and an audition source is disposed of exactly when one was
/// playing.
pub proof fn law_events_tell_the_host_what_to_do(
    s: CallbackState,
    position: u64,
    frames: usize,
    enabled: bool,
    num: u32,
    den: u32,
    frequency: u32,
)
    ensures
        s.event_actions(CallbackEvent::StopTransport, position, frames).contains(
            CallbackAction::AllNotesOff { reason: NotesOff::Stop },
        ),
        s.event_actions(CallbackEvent::LoadProject, position, frames).contains(
            CallbackAction::ResolveBridgeSinks,
        ),
        s.event_actions(CallbackEvent::LoadProject, position, frames).contains(
            CallbackAction::FlushMidiInserts { frames },
        ),
        s.event_actions(CallbackEvent::LoadProject, position, frames).contains(
            CallbackAction::FollowTempo { position },
        ),
        s.event_actions(CallbackEvent::LoadProject, position, frames).contains(
            CallbackAction::ResetMidi { position },
        ),
        s.event_actions(CallbackEvent::Edit, position, frames) == seq![CallbackAction::ApplyEdit],
        s.event_actions(CallbackEvent::SetTrackMute, position, frames) == seq![
            CallbackAction::ApplyEdit,
            CallbackAction::NotesOffForInaudible { reason: NotesOff::TrackMute },
        ],
        s.event_actions(CallbackEvent::SetTrackSolo, position, frames) == seq![
            CallbackAction::ApplyEdit,
            CallbackAction::NotesOffForInaudible { reason: NotesOff::TrackSolo },
        ],
        s.event_actions(CallbackEvent::StartAudition, position, frames).contains(
            CallbackAction::BeginAudition,
        ),
        s.event_actions(CallbackEvent::StartAudition, position, frames).contains(
            CallbackAction::RetireAudition,
        ) <==> s.audition,
        s.event_actions(CallbackEvent::StopAudition, position, frames).contains(
            CallbackAction::RetireAudition,
        ) <==> s.audition,
        s.event_actions(CallbackEvent::SetMetronomeEnabled { enabled }, position, frames).contains(
            CallbackAction::EnableMetronome { enabled, position },
        ),
        s.event_actions(
            CallbackEvent::SetMetronomeSuspended { suspended: enabled },
            position,
            frames,
        ).contains(CallbackAction::SuspendMetronome { suspended: enabled }),
        s.event_actions(CallbackEvent::SetTimeSignature { num, den }, position, frames).contains(
            CallbackAction::ClickSignature { num, den, position },
        ),
        s.event_actions(
            CallbackEvent::SetTestTone { enabled, frequency },
            position,
            frames,
        ).contains(CallbackAction::ToneFrequency { frequency }),
        s.event_actions(
            CallbackEvent::SetPluginBridgeSink { bound: enabled },
            position,
            frames,
        ) == seq![
            CallbackAction::BindSink { bound: enabled },
            CallbackAction::ResolveBridgeSinks,
        ],
        s.event_actions(
            CallbackEvent::SetBridgeEditorActive { active: enabled },
            position,
            frames,
        ).contains(CallbackAction::EditorActive { active: enabled }),
        s.event_actions(CallbackEvent::CommandBarrier, position, frames) == seq![
            CallbackAction::Acknowledge,
        ],
{
    let stop = s.event_actions(CallbackEvent::StopTransport, position, frames);
    assert(stop[0] == CallbackAction::AllNotesOff { reason: NotesOff::Stop });
    let load = s.event_actions(CallbackEvent::LoadProject, position, frames);
    assert(load[1] == CallbackAction::FlushMidiInserts { frames });
    assert(load[3] == CallbackAction::ResolveBridgeSinks);
    assert(load[4] == CallbackAction::FollowTempo { position });
    assert(load[6] == CallbackAction::ResetMidi { position });
    let start = s.event_actions(CallbackEvent::StartAudition, position, frames);
    assert(start[0] == CallbackAction::BeginAudition);
    if s.audition {
        assert(start[1] == CallbackAction::RetireAudition);
        assert(s.event_actions(CallbackEvent::StopAudition, position, frames)[0]
            == CallbackAction::RetireAudition);
    }
    assert(s.event_actions(
        CallbackEvent::SetMetronomeEnabled { enabled },
        position,
        frames,
    )[0] == CallbackAction::EnableMetronome { enabled, position });
    assert(s.event_actions(
        CallbackEvent::SetMetronomeSuspended { suspended: enabled },
        position,
        frames,
    )[0] == CallbackAction::SuspendMetronome { suspended: enabled });
    assert(s.event_actions(CallbackEvent::SetTimeSignature { num, den }, position, frames)[0]
        == CallbackAction::ClickSignature { num, den, position });
    assert(s.event_actions(CallbackEvent::SetTestTone { enabled, frequency }, position, frames)[0]
        == CallbackAction::ToneFrequency { frequency });
    assert(s.event_actions(
        CallbackEvent::SetBridgeEditorActive { active: enabled },
        position,
        frames,
    )[0] == CallbackAction::EditorActive { active: enabled });
}

/// A new tempo is followed by the click and by the graph's clips, from the
/// position that the transport had.
pub proof fn law_tempo_is_followed(
    s: CallbackState,
    position: u64,
    frames: usize,
    bpm_bits: u64,
    remapped: u64,
)
    ensures
        s.event_actions(CallbackEvent::SetBpm { bpm_bits, remapped }, position, frames) == seq![
            CallbackAction::FollowTempo { position },
            CallbackAction::RemapTempo { position },
        ],
        s.event_actions(CallbackEvent::SetTempoMap { remapped }, position, frames) == seq![
            CallbackAction::FollowTempo { position },
            CallbackAction::RemapTempo { position },
        ],
        s.event_actions(CallbackEvent::Seek { position: remapped }, position, frames).contains(
            CallbackAction::ResetMetronome { position: remapped },
        ),
{
    assert(s.event_actions(CallbackEvent::Seek { position: remapped }, position, frames)[0]
        == CallbackAction::ResetMetronome { position: remapped });
}

/// On a device with two channels or more, a stopped transport renders the graph
/// exactly when something is to be heard or driven on: a previewed note, waiting
/// notes, an open editor, an audition, or a tail that has not rung out. A device
/// without channels gets nothing, and one with a single channel is filled sample
/// by sample.
pub proof fn law_stopped_transport_renders_what_still_sounds(
    s: CallbackState,
    activity: GraphActivity,
    channels: usize,
)
    requires
        !s.playing,
    ensures
        channels == 0 ==> s.path(activity, channels) == BlockPath::Silent,
        channels == 1 ==> s.path(activity, channels) == BlockPath::Mono,
        channels >= 2 ==> (s.path(activity, channels) == BlockPath::Graph <==> activity.has_preview
            || activity.pending_midi || activity.bridge_editor_active || s.audition
            || s.bridge_panic_flush_samples > 0 || s.bridge_preview_tail_samples > 0
            || s.preview_tail_samples > 0 || s.stop_tail_samples > 0),
        channels >= 2 && s.path(activity, channels) != BlockPath::Graph ==> s.path(
            activity,
            channels,
        ) == BlockPath::Idle,
{
}

/// The tails of a stopped transport grow shorter by the block and end at zero; a
/// sounding preview keeps its own at full length.
pub proof fn law_tails_grow_shorter_by_the_block(
    s: CallbackState,
    activity: GraphActivity,
    frames: u64,
)
    requires
        !s.playing,
    ensures
        ({
            let after = s.after_plan(activity, frames);
            let sounding = activity.has_preview || activity.pending_midi;
            &&& after.stop_tail_samples == (if s.stop_tail_samples > frames {
                s.stop_tail_samples - frames
            } else {
                0
            })
            &&& after.bridge_panic_flush_samples == (if s.bridge_panic_flush_samples > frames {
                s.bridge_panic_flush_samples - frames
            } else {
                0
            })
            &&& after.bridge_preview_tail_samples == (if s.bridge_preview_tail_samples > frames {
                s.bridge_preview_tail_samples - frames
            } else {
                0
            })
            &&& sounding ==> after.preview_tail_samples == activity.tail
            &&& !sounding ==> after.preview_tail_samples == (if s.preview_tail_samples > frames {
                s.preview_tail_samples - frames
            } else {
                0
            })
            &&& after.playing == s.playing && after.audition == s.audition && after.osc_on
                == s.osc_on && after.osc_freq == s.osc_freq
        }),
{
}

/// A block's levels are shown as they were measured, and it is counted.
pub proof fn law_levels_are_published(
    s: CallbackState,
    shared: SharedState,
    start: BlockStart,
    result: BlockResult,
)
    ensures
        ({
            let after = s.shared_after_block(shared, start, result);
            &&& after.peak_l == result.left.peak
            &&& after.peak_r == result.right.peak
            &&& after.rms_l == result.left.rms
            &&& after.rms_r == result.right.rms
            &&& shared.output_cb_count < u64::MAX ==> after.output_cb_count
                == shared.output_cb_count + 1
            &&& after.playing == shared.playing
            &&& after.loop_enabled == shared.loop_enabled
            &&& after.master_volume == shared.master_volume
        }),
{
}

/// After a block the host is told: to meter the live input exactly while one is
/// active, with the levels and channels that it has, and to start playback anew
/// exactly where the block ended on the loop's end.
pub proof fn law_block_end_feeds_meters_and_restarts(
    s: CallbackState,
    shared: SharedState,
    start: BlockStart,
    result: BlockResult,
    k: int,
)
    ensures
        ({
            let actions = s.end_actions(shared, start, result);
            let restarts = s.playing && result.channels > 0 && start.end_loop_midi_reset is Some;
            &&& shared.live_input_active ==> exists|j: int|
                0 <= j < actions.len() && (
                #[trigger] actions[j] matches CallbackAction::AccumulateLiveInput {
                    left,
                    right,
                    pair,
                } && left == shared.live_input_l && right == shared.live_input_r && pair == (
                    shared.monitor_pair().0 as u32,
                    shared.monitor_pair().1 as u32,
                ))
            &&& restarts ==> actions.contains(
                CallbackAction::ResetMidi { position: start.end_loop_midi_reset->0 },
            ) && actions.contains(
                CallbackAction::ResetMetronome { position: start.end_loop_midi_reset->0 },
            )
            &&& 0 <= k < actions.len() ==> match actions[k] {
                CallbackAction::AccumulateLiveInput { left, right, pair } =>
                    shared.live_input_active,
                CallbackAction::ResetMidi { position } => restarts && Some(position)
                    == start.end_loop_midi_reset,
                CallbackAction::ResetMetronome { position } => restarts && Some(position)
                    == start.end_loop_midi_reset,
                CallbackAction::RetireAudition => s.audition && result.audition_finished
                    && result.path == BlockPath::Graph,
                _ => false,
            }
        }),
{
    let actions = s.end_actions(shared, start, result);
    let a: int = if s.audition_ends(result) {
        1
    } else {
        0
    };
    let b: int = if shared.live_input_active {
        1
    } else {
        0
    };
    if shared.live_input_active {
        assert(actions[a] is AccumulateLiveInput);
    }
    if s.playing && result.channels > 0 && start.end_loop_midi_reset is Some {
        assert(actions[a + b] == (CallbackAction::ResetMidi {
            position: start.end_loop_midi_reset->0,
        }));
        assert(actions[a + b + 1] == (CallbackAction::ResetMetronome {
            position: start.end_loop_midi_reset->0,
        }));
    }
}

/// Events take effect one after the other: the events of a block change the
/// callback, the shared state and what the host is told exactly as the first of
/// them do and then the rest, from the state and the place that the first left.
pub proof fn law_events_take_effect_one_after_the_other(
    s: CallbackState,
    shared: SharedState,
    events: Seq<CallbackEvent>,
    tail: u64,
    frames: usize,
    k: nat,
    n: nat,
)
    requires
        k <= n <= events.len(),
    ensures
        state_after(s, events, tail, n) == state_after(
            state_after(s, events, tail, k),
            events.skip(k as int),
            tail,
            (n - k) as nat,
        ),
        shared_after_all(shared, events, n) == shared_after_all(
            shared_after_all(shared, events, k),
            events.skip(k as int),
            (n - k) as nat,
        ),
        actions_for(s, shared, events, tail, frames, n) == actions_for(
            s,
            shared,
            events,
            tail,
            frames,
            k,
        ) + actions_for(
            state_after(s, events, tail, k),
            shared_after_all(shared, events, k),
            events.skip(k as int),
            tail,
            frames,
            (n - k) as nat,
        ),
        k + 1 == n ==> state_after(s, events, tail, n) == state_after(
            s,
            events,
            tail,
            k,
        ).after_event(events[k as int], tail) && shared_after_all(shared, events, n)
            == shared_after(shared_after_all(shared, events, k), events[k as int]),
    decreases n,
{
    let rest = events.skip(k as int);
    if n == k {
        assert(actions_for(
            state_after(s, events, tail, k),
            shared_after_all(shared, events, k),
            rest,
            tail,
            frames,
            0,
        ) =~= Seq::empty());
        assert(actions_for(s, shared, events, tail, frames, n) =~= actions_for(
            s,
            shared,
            events,
            tail,
            frames,
            k,
        ) + Seq::empty());
    } else {
        let m = (n - 1) as nat;
        law_events_take_effect_one_after_the_other(s, shared, events, tail, frames, k, m);
        assert(rest[m - k] == events[m as int]);
        let told = state_after(s, events, tail, m).event_actions(
            events[m as int],
            shared_after_all(shared, events, m).position_samples,
            frames,
        );
        let before = actions_for(s, shared, events, tail, frames, k);
        let between = actions_for(
            state_after(s, events, tail, k),
            shared_after_all(shared, events, k),
            rest,
            tail,
            frames,
            (m - k) as nat,
        );
        assert((before + between) + told =~= before + (between + told));
    }
}

/// The host is told of an event at the place where the transport is by then.
pub proof fn law_host_is_told_at_the_current_place(
    s: CallbackState,
    shared: SharedState,
    event: CallbackEvent,
    tail: u64,
    frames: usize,
)
    ensures
        actions_for(s, shared, seq![event], tail, frames, 1) == s.event_actions(
            event,
            shared.position_samples,
            frames,
        ),
{
    assert(actions_for(s, shared, seq![event], tail, frames, 0) =~= Seq::empty());
    assert(state_after(s, seq![event], tail, 0) == s);
    assert(shared_after_all(shared, seq![event], 0) == shared);
    assert(Seq::<CallbackAction>::empty() + s.event_actions(
        event,
        shared.position_samples,
        frames,
    ) =~= s.event_actions(event, shared.position_samples, frames));
    assert(actions_for(s, shared, seq![event], tail, frames, 1) == actions_for(
        s,
        shared,
        seq![event],
        tail,
        frames,
        0,
    ) + s.event_actions(event, shared.position_samples, frames));
}

} // verus!
