//! The life of the engine's stream: opening, starting, stopping, switching and
//! closing it.
//!
//! The host does the device work between the steps: it opens the path that
//! [`EngineInner::begin_open_daux`] names and hands the stream to
//! [`EngineInner::finish_open_daux`].

use vstd::prelude::*;

use crossbeam_channel::Sender;

use crate::engine::command::EngineCommand;
use crate::engine::device;
use crate::engine::device::device_state;
use crate::engine::device::log_sample_rate_decision;
use crate::engine::device::open_path;
use crate::engine::device::reverted_message;
use crate::engine::device::stranded_message;
use crate::engine::device::BackendKind;
use crate::engine::device::DauxConfig;
use crate::engine::device::DauxDeviceConfig;
use crate::engine::device::EngineStatus;
use crate::engine::device::OpenPath;
use crate::engine::device::Platform;
use crate::engine::inner;
use crate::engine::inner::ActiveStream;
use crate::engine::inner::EngineInner;
use crate::engine::input;
use crate::engine::input::AsioSessionCaps;
use crate::engine::live;
use crate::engine::live::InputAction;
use crate::engine::state::AudioEngineState;
use crate::engine::state::SharedState;
use crate::error::SphereAudioError;
use crate::input_ring::InputRing;
use crate::input_ring::InputRingModel;
use crate::text;
use crate::text::copy_optional;

verus! {

// ── Closing ─────────────────────────────────────────────────────────────────

/// The shared state once live input has stopped, its ring being `ring`.
pub open spec fn input_silent(s: SharedState, ring: InputRing) -> SharedState {
    SharedState {
        live_input_active: false,
        monitor_shared_clock: false,
        input_ring: ring,
        monitor_enabled_any: false,
        live_input_l: 0,
        live_input_r: 0,
        live_input_peak_l: 0,
        live_input_peak_r: 0,
        input_bus_peak_l: 0,
        input_bus_peak_r: 0,
        ..s
    }
}

/// An input ring that nothing feeds any more.
pub open spec fn unfed(ring: InputRingModel) -> InputRingModel {
    InputRingModel { active: false, channels: 0, sample_rate: 0, ..ring }
}

/// What stopping live input does to an engine.
pub open spec fn input_stopped(before: EngineInner, after: EngineInner) -> bool {
    &&& after == (EngineInner {
        live_input: None,
        shared: input_silent(before.shared, after.shared.input_ring),
        ..before
    })
    &&& after.shared.input_ring@ == unfed(before.shared.input_ring@)
}

/// What closing the stream does to an engine: live input stops first, and
/// nothing takes commands any more.
pub open spec fn stream_closed(before: EngineInner, after: EngineInner) -> bool {
    &&& after == (EngineInner {
        live_input: None,
        shared: input_silent(before.shared, after.shared.input_ring),
        active_stream: None,
        plain_stream: false,
        cmd_tx: None,
        asio_caps: None,
        status: EngineStatus { stream_open: false, running: false, ..before.status },
        ..before
    })
    &&& after.shared.input_ring@ == unfed(before.shared.input_ring@)
}

impl EngineInner {
    /// Stop live input and clear what it left behind.
    #[verifier::rlimit(30)]
    pub fn stop_live_input_stream(&mut self)
        ensures
            input_stopped(*old(self), *final(self)),
    {
        self.live_input = None;
        self.shared.live_input_active = false;
        self.shared.monitor_shared_clock = false;
        self.shared.input_ring.set_active(false, 0, 0);
        self.shared.monitor_enabled_any = false;
        self.shared.live_input_l = 0;
        self.shared.live_input_r = 0;
        self.shared.live_input_peak_l = 0;
        self.shared.live_input_peak_r = 0;
        self.shared.input_bus_peak_l = 0;
        self.shared.input_bus_peak_r = 0;
    }

    /// Stop and close the stream. Live input goes first: a later duplex stream
    /// writes to the same ring.
    pub fn close_device(&mut self)
        ensures
            stream_closed(*old(self), *final(self)),
    {
        self.stop_live_input_stream();
        self.active_stream = None;
        self.plain_stream = false;
        self.cmd_tx = None;
        self.asio_caps = None;
        self.status.stream_open = false;
        self.status.running = false;
    }
}

/// A closed engine takes no commands, and closing it again changes nothing
/// more.
pub proof fn law_closed_engine_takes_no_commands(
    before: EngineInner,
    after: EngineInner,
    again: EngineInner,
)
    requires
        stream_closed(before, after),
        stream_closed(after, again),
    ensures
        after.sender() is None,
        after.live_input is None,
        !after.status.stream_open,
        !after.shared.input_ring@.active,
        again == (EngineInner {
            shared: SharedState { input_ring: again.shared.input_ring, ..after.shared },
            ..after
        }),
        again.shared.input_ring@ == after.shared.input_ring@,
{
}

// ── Starting and stopping ───────────────────────────────────────────────────

/// The stream that starting the engine plays.
#[derive(Clone, Copy, Debug, PartialEq, Eq, Structural)]
pub enum StartTarget {
    /// None: it already runs.
    AlreadyRunning,
    /// The stream of a backend.
    Active,
    /// The stream that was not opened through a backend.
    Plain,
}

impl EngineInner {
    /// The stream that starting the engine plays, `None` where none is open.
    pub open spec fn start_choice(self) -> Option<StartTarget> {
        if self.status.stream_open && self.status.running {
            Some(StartTarget::AlreadyRunning)
        } else if self.active_stream is Some {
            Some(StartTarget::Active)
        } else if self.plain_stream {
            Some(StartTarget::Plain)
        } else {
            None
        }
    }

    /// The stream that starting the engine plays.
    pub fn start_target(&self) -> (r: Result<StartTarget, SphereAudioError>)
        ensures
            self.start_choice() matches Some(target) ==> r == Ok::<_, SphereAudioError>(target),
            self.start_choice() is None ==> r == Err::<StartTarget, _>(
                SphereAudioError::EngineNotOpen,
            ),
    {
        if self.status.stream_open && self.status.running {
            Ok(StartTarget::AlreadyRunning)
        } else if self.active_stream.is_some() {
            Ok(StartTarget::Active)
        } else if self.plain_stream {
            Ok(StartTarget::Plain)
        } else {
            Err(SphereAudioError::EngineNotOpen)
        }
    }

    /// The stream to play so that monitored input is heard, `None` where it
    /// already runs or none is open.
    pub open spec fn warm_choice(self) -> Option<StartTarget> {
        if self.status.running {
            None
        } else {
            self.start_choice()
        }
    }

    /// The stream to play so that monitored input is heard, `None` where it
    /// already runs or none is open.
    pub fn warm_output_for_monitoring(&self) -> (r: Option<StartTarget>)
        ensures
            r == self.warm_choice(),
    {
        if self.status.running {
            return None;
        }
        match self.start_target() {
            Ok(target) => Some(target),
            Err(_) => None,
        }
    }

    /// Take over whether the stream could be played. The transport starts
    /// paused.
    pub fn stream_played(&mut self, played: Result<(), String>) -> (r: Result<
        (),
        SphereAudioError,
    >)
        ensures
            played is Ok ==> r is Ok && *final(self) == (EngineInner {
                shared: SharedState { playing: false, ..old(self).shared },
                status: EngineStatus { running: true, ..old(self).status },
                ..*old(self)
            }),
            played matches Err(why) ==> r == Err::<(), _>(SphereAudioError::StreamStartFailed(why))
                && *final(self) == *old(self),
    {
        match played {
            Ok(_) => {
                self.shared.playing = false;
                self.status.running = true;
                Ok(())
            },
            Err(why) => Err(SphereAudioError::StreamStartFailed(why)),
        }
    }

    /// Note that the stream was paused: nothing plays and nothing runs.
    pub fn stop(&mut self)
        ensures
            *final(self) == paused(*old(self)),
    {
        self.shared.playing = false;
        self.status.running = false;
    }

    /// Shut down in order: no more output, the transport stopped, the stream
    /// paused, and everything closed.
    pub fn shutdown(&mut self)
        ensures
            shut_down(*old(self), *final(self)),
    {
        self.begin_closing();
        let ghost silenced = *self;
        let r = self.send_command(EngineCommand::StopTransport);
        let ghost told = *self;
        self.stop();
        self.close_device();
        proof {
            assert(inner::handed_over(silenced, told, EngineCommand::StopTransport, r));
        }
    }

    fn begin_closing(&mut self)
        ensures
            *final(self) == closing(*old(self)),
    {
        self.shared.engine_state = AudioEngineState::ClosingProject.as_u8();
        self.shared.playing = false;
    }
}

/// An engine that is closing: it is silent and its transport stopped.
pub open spec fn closing(e: EngineInner) -> EngineInner {
    EngineInner {
        shared: SharedState {
            engine_state: AudioEngineState::ClosingProject.number(),
            playing: false,
            ..e.shared
        },
        ..e
    }
}

/// An engine whose stream was paused.
pub open spec fn paused(e: EngineInner) -> EngineInner {
    EngineInner {
        shared: SharedState { playing: false, ..e.shared },
        status: EngineStatus { running: false, ..e.status },
        ..e
    }
}

/// What shutting down does: the engine is silenced, the callback is told to
/// stop, and the stream is closed.
pub open spec fn shut_down(before: EngineInner, after: EngineInner) -> bool {
    exists|told: EngineInner, r: Result<(), SphereAudioError>|
        #[trigger] inner::handed_over(closing(before), told, EngineCommand::StopTransport, r)
            && stream_closed(paused(told), after)
}

/// Whatever the engine was doing, after a shutdown it is silent, nothing is
/// open, and the transport is stopped.
pub proof fn law_shutdown_leaves_nothing_open(before: EngineInner, after: EngineInner)
    requires
        shut_down(before, after),
    ensures
        after.shared.engine_state == AudioEngineState::ClosingProject.number(),
        !after.shared.playing,
        !after.status.running,
        !after.status.stream_open,
        after.sender() is None,
        after.live_input is None,
{
}

// ── Opening ─────────────────────────────────────────────────────────────────

/// A stream that the host opened.
#[derive(Debug)]
pub struct OpenedStream {
    pub sample_rate: u32,
    pub buffer_size: u32,
    pub device_name: String,
    pub backend_name: String,
    /// Why the stream's input is not what it could be, where it is not.
    pub input_warning: Option<String>,
    /// What the session offers, where it is a duplex one.
    pub caps: Option<AsioSessionCaps>,
    pub tx: Sender<EngineCommand>,
}

impl EngineInner {
    /// Note what a newly opened stream runs at.
    pub fn commit_stream_open(&mut self, sample_rate: u32, buffer_size: u32, device_name: String)
        ensures
            *final(self) == (EngineInner {
                shared: SharedState { sample_rate, ..old(self).shared },
                status: EngineStatus {
                    stream_open: true,
                    running: false,
                    sample_rate,
                    buffer_size,
                    output_device: Some(device_name),
                    last_error: None,
                    ..old(self).status
                },
                ..*old(self)
            }),
    {
        self.shared.sample_rate = sample_rate;
        self.status.stream_open = true;
        self.status.running = false;
        self.status.sample_rate = sample_rate;
        self.status.buffer_size = buffer_size;
        self.status.output_device = Some(device_name);
        self.status.last_error = None;
    }

    /// Close what is open, take over the request, and say how to open it.
    /// `backend` is what the request's backend comes down to on this machine.
    pub fn begin_open_daux(
        &mut self,
        config: &DauxConfig,
        backend: BackendKind,
        backend_id: &str,
        platform: Platform,
    ) -> (r: Result<OpenPath, SphereAudioError>)
        ensures
            stream_closed(
                EngineInner {
                    daux_config: final(self).daux_config,
                    glitch_counter: 0,
                    ..*old(self)
                },
                *final(self),
            ),
            final(self).daux_config.made_from(*config, backend, backend_id@),
            device::path_of(backend, platform) matches Some(path) ==> r == Ok::<
                _,
                SphereAudioError,
            >(path),
            device::path_of(backend, platform) is None ==> (r matches Err(
                SphereAudioError::BackendUnavailable(why),
            ) && why@ == device::unavailable_text(backend)),
    {
        self.close_device();
        self.daux_config = DauxDeviceConfig::normalized(config, backend, backend_id);
        self.glitch_counter = 0;
        open_path(backend, platform)
    }

    /// Take over a stream that the host opened for the current config, and
    /// bring input in step with the stored project again: closing the stream
    /// before had stopped it. The host does what the result says about its
    /// capture stream.
    pub fn finish_open_daux(&mut self, opened: OpenedStream) -> (r: Option<
        Result<InputAction, SphereAudioError>,
    >)
        ensures
            stream_opened(*old(self), *final(self), opened, r),
    {
        let ghost before = *self;
        self.take_over_stream(opened);
        let ghost taken = *self;
        let r: Option<Result<InputAction, SphereAudioError>> = self.restore_input();
        proof {
            assert(stream_taken_over(before, taken, opened));
        }
        r
    }

    /// Note what a newly opened stream is.
    fn take_over_stream(&mut self, opened: OpenedStream)
        ensures
            stream_taken_over(*old(self), *final(self), opened),
    {
        let requested: u32 = match self.daux_config.sample_rate {
            Some(rate) => rate,
            None => 0,
        };
        let warning: Option<String> = log_sample_rate_decision(
            requested,
            opened.sample_rate,
            &self.daux_config.backend,
        );
        self.commit_stream_open(opened.sample_rate, opened.buffer_size, opened.device_name);
        self.asio_caps = opened.caps;
        self.status.last_daux_error = match warning {
            Some(w) => Some(w),
            None => opened.input_warning,
        };
        self.shared.device_lost = false;
        self.active_stream = Some(
            ActiveStream { tx: Some(opened.tx), backend_name: opened.backend_name },
        );
    }
}

/// The rate that a config asked for, zero for none.
pub open spec fn requested_rate(config: DauxDeviceConfig) -> u32 {
    match config.sample_rate {
        Some(rate) => rate,
        None => 0,
    }
}

/// What taking over an opened stream does: its rate and size are noted, the
/// device counts as found again, and a fallback of exclusive mode is reported
/// ahead of what the stream itself warned of.
pub open spec fn stream_taken_over(
    before: EngineInner,
    after: EngineInner,
    opened: OpenedStream,
) -> bool {
    let fell_back = device::rates_differ(requested_rate(before.daux_config), opened.sample_rate)
        && before.daux_config.backend == BackendKind::WasapiExclusive;
    &&& after == (EngineInner {
        shared: SharedState {
            sample_rate: opened.sample_rate,
            device_lost: false,
            ..before.shared
        },
        status: EngineStatus {
            stream_open: true,
            running: false,
            sample_rate: opened.sample_rate,
            buffer_size: opened.buffer_size,
            output_device: Some(opened.device_name),
            last_error: None,
            last_daux_error: after.status.last_daux_error,
            ..before.status
        },
        asio_caps: opened.caps,
        active_stream: Some(
            ActiveStream { tx: Some(opened.tx), backend_name: opened.backend_name },
        ),
        ..before
    })
    &&& if fell_back {
        text::optional(after.status.last_daux_error) == Some(
            device::exclusive_warning(requested_rate(before.daux_config), opened.sample_rate),
        )
    } else {
        after.status.last_daux_error == opened.input_warning
    }
}

/// What opening a stream does: it is taken over, and input is brought in step
/// with the stored project.
pub open spec fn stream_opened(
    before: EngineInner,
    after: EngineInner,
    opened: OpenedStream,
    r: Option<Result<InputAction, SphereAudioError>>,
) -> bool {
    exists|taken: EngineInner| #[trigger]
        stream_taken_over(before, taken, opened) && live::input_restored(taken, after, r)
}

/// Input is heard again after every reopening: with a track that wants input
/// and no conflict, a capture stream is opened anew, or the duplex session is
/// routed.
pub proof fn law_reopened_stream_listens_again(
    before: EngineInner,
    after: EngineInner,
    opened: OpenedStream,
    r: Option<Result<InputAction, SphereAudioError>>,
)
    requires
        stream_opened(before, after, opened, r),
        before.live_input is None,
        before.project matches Some(p) && input::monitor_conflict(p.tracks@) is None
            && input::first_wanting(p.tracks@, 0) is Some,
    ensures
        before.daux_config.backend != BackendKind::Asio ==> (r matches Some(
            Ok(InputAction::Open { .. }),
        )),
        before.daux_config.backend == BackendKind::Asio && (opened.caps matches Some(caps)
            && live::first_refused(before.project->0.tracks@, caps, 0) is None) ==> {
            &&& r == Some(
                Ok::<_, SphereAudioError>(InputAction::Routed { play: after.warm_choice() }),
            )
            &&& after.shared.live_input_active
            &&& after.shared.input_ring@.active
        },
{
    let taken = choose|taken: EngineInner| #[trigger]
        stream_taken_over(before, taken, opened) && live::input_restored(taken, after, r);
    live::law_restored_input_is_heard(taken, after, r);
}

/// An opened stream takes commands, is not running yet, and clears a lost
/// device.
pub proof fn law_opened_stream_takes_commands(
    before: EngineInner,
    after: EngineInner,
    opened: OpenedStream,
    r: Option<Result<InputAction, SphereAudioError>>,
)
    requires
        stream_opened(before, after, opened, r),
    ensures
        after.sender() == Some(opened.tx),
        after.status.stream_open,
        !after.status.running,
        !after.shared.device_lost,
        after.shared.playing == before.shared.playing,
{
}

// ── Recovering and switching ────────────────────────────────────────────────

/// The stream that a switch started from.
#[derive(Debug)]
pub struct PreviousStream {
    pub config: DauxConfig,
    /// Whether a backend's stream was open.
    pub open: bool,
}

impl EngineInner {
    /// What to open again after the device was lost; `None` where it was not.
    pub fn recover_daux(&self) -> (r: Option<DauxConfig>)
        ensures
            r is Some <==> self.shared.device_lost,
            r matches Some(config) ==> self.daux_config.asked_again_by(config),
    {
        if !self.shared.device_lost {
            return None;
        }
        Some(self.daux_config.to_request())
    }

    /// Whether a request needs the stream opened anew.
    pub fn daux_requires_restart(&self, new: &DauxConfig) -> (r: bool)
        ensures
            r == self.daux_config.differs_from(*new),
    {
        self.daux_config.requires_restart(new)
    }

    /// Begin a switch that falls back: the transport stops, and what was open
    /// is remembered.
    pub fn open_daux_safe(&mut self) -> (r: PreviousStream)
        ensures
            *final(self) == (EngineInner {
                shared: SharedState { playing: false, ..old(self).shared },
                ..*old(self)
            }),
            old(self).daux_config.asked_again_by(r.config),
            r.open == (old(self).active_stream is Some),
    {
        let previous = PreviousStream {
            config: self.daux_config.to_request(),
            open: self.active_stream.is_some(),
        };
        self.shared.playing = false;
        previous
    }

    /// Note why a switch failed, and say whether the previous stream is to be
    /// opened again.
    pub fn switch_failed(&mut self, error: &SphereAudioError, previous: &PreviousStream) -> (r:
        bool)
        ensures
            r == previous.open,
            *final(self) == (EngineInner {
                status: EngineStatus {
                    last_daux_error: final(self).status.last_daux_error,
                    ..old(self).status
                },
                ..*old(self)
            }),
            text::optional(final(self).status.last_daux_error) == Some(error.text()),
    {
        self.status.last_daux_error = Some(error.to_string());
        previous.open
    }

    /// Report a failed switch once the previous stream was tried again:
    /// `restore` is why that failed too, if it did.
    pub fn switch_reported(
        &mut self,
        attempted_backend: &str,
        error: &SphereAudioError,
        restore: Option<&SphereAudioError>,
    ) -> (r: SphereAudioError)
        ensures
            r matches SphereAudioError::StreamOpenFailed(why) && why@ == switch_text(
                attempted_backend@,
                error.text(),
                restore,
            ),
            *final(self) == (EngineInner {
                status: EngineStatus {
                    last_daux_error: final(self).status.last_daux_error,
                    ..old(self).status
                },
                ..*old(self)
            }),
            text::optional(final(self).status.last_daux_error) == Some(
                switch_text(attempted_backend@, error.text(), restore),
            ),
    {
        let why: String = match restore {
            None => reverted_message(attempted_backend, &error.to_string()),
            Some(e) => stranded_message(
                attempted_backend,
                &error.to_string(),
                &e.to_string(),
            ),
        };
        self.status.last_daux_error = Some(why.clone());
        SphereAudioError::StreamOpenFailed(why)
    }
}

/// What is reported of a failed switch.
pub open spec fn switch_text(
    backend: Seq<char>,
    error: Seq<char>,
    restore: Option<&SphereAudioError>,
) -> Seq<char> {
    match restore {
        None => device::reverted_text(backend, error),
        Some(e) => device::stranded_text(backend, error, e.text()),
    }
}

// ── Status ──────────────────────────────────────────────────────────────────

/// The stream's state as it is shown.
#[derive(Debug)]
pub struct DauxStatus {
    pub backend_id: String,
    pub backend_name: String,
    pub output_device: Option<String>,
    pub sample_rate: u32,
    pub requested_sample_rate: u32,
    pub buffer_size: u32,
    pub glitch_count: u64,
    pub mmcss_active: bool,
    pub last_error: Option<String>,
    pub device_lost: bool,
    pub device_state: String,
}

/// The engine's state as it is shown.
#[derive(Debug)]
pub struct StatusSnapshot {
    pub running: bool,
    pub stream_open: bool,
    pub transport_playing: bool,
    pub position_samples: u64,
    /// Rate that the position counts at, at least one.
    pub position_rate: u32,
    pub version: String,
    pub sample_rate: u32,
    pub buffer_size: u32,
    pub input_device: Option<String>,
    pub output_device: Option<String>,
    pub last_error: Option<String>,
}

impl EngineInner {
    /// The engine's state as it is shown.
    pub fn get_status(&self) -> (r: StatusSnapshot)
        ensures
            r.running == self.status.running,
            r.stream_open == self.status.stream_open,
            r.transport_playing == self.shared.playing,
            r.position_samples == self.shared.position_samples,
            r.position_rate == crate::engine::state::at_least_one(self.shared.sample_rate),
            r.version@ == inner::ENGINE_VERSION@,
            r.sample_rate == self.status.sample_rate,
            r.buffer_size == self.status.buffer_size,
            r.input_device == self.status.input_device,
            r.output_device == self.status.output_device,
            r.last_error == self.status.last_error,
    {
        StatusSnapshot {
            running: self.status.running,
            stream_open: self.status.stream_open,
            transport_playing: self.shared.playing,
            position_samples: self.shared.position_samples,
            position_rate: crate::engine::state::one_or_more(self.shared.sample_rate),
            version: self.get_version(),
            sample_rate: self.status.sample_rate,
            buffer_size: self.status.buffer_size,
            input_device: copy_optional(&self.status.input_device),
            output_device: copy_optional(&self.status.output_device),
            last_error: copy_optional(&self.status.last_error),
        }
    }

    /// The stream's state as it is shown. `configured_name` is what the
    /// configured backend is called.
    pub fn get_daux_status(&self, configured_name: &str) -> (r: DauxStatus)
        ensures
            r.backend_id == self.daux_config.backend_id,
            r.backend_name@ == match self.active_stream {
                Some(stream) => stream.backend_name@,
                None => configured_name@,
            },
            r.output_device == self.status.output_device,
            r.sample_rate == self.status.sample_rate,
            r.requested_sample_rate == requested_rate(self.daux_config),
            r.buffer_size == self.status.buffer_size,
            r.glitch_count == self.glitch_counter,
            r.mmcss_active == self.shared.mmcss_active,
            r.last_error == self.status.last_daux_error,
            r.device_lost == self.shared.device_lost,
            r.device_state@ == device::device_state_text(
                self.shared.device_lost,
                self.status.stream_open,
                self.shared.playing,
            ),
    {
        let backend_name: String = match &self.active_stream {
            Some(stream) => stream.backend_name.clone(),
            None => configured_name.to_owned(),
        };
        let requested_sample_rate: u32 = match self.daux_config.sample_rate {
            Some(rate) => rate,
            None => 0,
        };
        DauxStatus {
            backend_id: self.daux_config.backend_id.clone(),
            backend_name,
            output_device: copy_optional(&self.status.output_device),
            sample_rate: self.status.sample_rate,
            requested_sample_rate,
            buffer_size: self.status.buffer_size,
            glitch_count: self.glitch_counter,
            mmcss_active: self.shared.mmcss_active,
            last_error: copy_optional(&self.status.last_daux_error),
            device_lost: self.shared.device_lost,
            device_state: device_state(
                self.shared.device_lost,
                self.status.stream_open,
                self.shared.playing,
            ).to_owned(),
        }
    }
}

/// A shut-down engine is stopped and closed: nothing plays, nothing is captured,
/// no stream is open, and none takes commands. The loaded project stays.
pub proof fn law_shutdown_closes_everything(before: EngineInner, after: EngineInner)
    requires
        shut_down(before, after),
    ensures
        !after.shared.playing,
        !after.status.running,
        !after.status.stream_open,
        after.active_stream is None,
        after.cmd_tx is None,
        !after.plain_stream,
        after.live_input is None,
        after.asio_caps is None,
        !after.shared.live_input_active,
        !after.shared.monitor_enabled_any,
        after.shared.live_input_peak_l == 0,
        after.shared.live_input_peak_r == 0,
        AudioEngineState::of_number(after.shared.engine_state) == AudioEngineState::ClosingProject,
        after.project == before.project,
        after.runtime == before.runtime,
{
    let (told, r) = choose|told: EngineInner, r: Result<(), SphereAudioError>|
        #[trigger] inner::handed_over(closing(before), told, EngineCommand::StopTransport, r)
            && stream_closed(paused(told), after);
    inner::law_handing_over_changes_only_the_channel(
        closing(before),
        told,
        EngineCommand::StopTransport,
        r,
    );
    assert(told.shared == closing(before).shared);
    assert(told.project == before.project);
    assert(told.runtime == before.runtime);
}

/// A warm start starts what is not running: the native stream before the other
/// one. A stream that already runs is left alone.
pub proof fn law_warm_start_starts_what_is_open(e: EngineInner)
    ensures
        e.status.running ==> e.warm_choice() is None,
        !e.status.running && e.active_stream is Some ==> e.warm_choice() == Some(
            StartTarget::Active,
        ),
        !e.status.running && e.active_stream is None && e.plain_stream ==> e.warm_choice() == Some(
            StartTarget::Plain,
        ),
        !e.status.running && e.active_stream is None && !e.plain_stream ==> e.warm_choice()
            is None,
{
}

/// Input that is stopped leaves nothing to be heard or metered, and a ring that
/// nothing feeds.
pub proof fn law_stopped_input_is_silent(before: EngineInner, after: EngineInner)
    requires
        input_stopped(before, after),
    ensures
        after.live_input is None,
        !after.shared.live_input_active,
        !after.shared.monitor_enabled_any,
        !after.shared.monitor_shared_clock,
        after.shared.live_input_l == 0,
        after.shared.live_input_r == 0,
        after.shared.live_input_peak_l == 0,
        after.shared.live_input_peak_r == 0,
        after.shared.input_bus_peak_l == 0,
        after.shared.input_bus_peak_r == 0,
        !after.shared.input_ring@.active,
        after.shared.input_ring@.channels == 0,
        after.shared.input_ring@.head == before.shared.input_ring@.head,
        after.shared.playing == before.shared.playing,
        after.status == before.status,
        after.active_stream == before.active_stream,
        after.cmd_tx == before.cmd_tx,
        after.project == before.project,
{
}

} // verus!
