//! Keeping live input in step with the project's routes, and the edits that
//! change them.

use vstd::prelude::*;

use crate::engine::command::EngineCommand;
use crate::engine::command::TrackInputRoute;
use crate::engine::device::BackendKind;
use crate::engine::device::EngineStatus;
use crate::engine::inner;
use crate::engine::inner::EngineInner;
use crate::engine::inner::LiveInput;
use crate::engine::input;
use crate::engine::input::choose_capture_device;
use crate::engine::input::conflict_message;
use crate::engine::input::find_monitor_conflict;
use crate::engine::input::find_monitored;
use crate::engine::input::find_wanting;
use crate::engine::input::validate_asio_input_source;
use crate::engine::input::validate_route;
use crate::engine::input::AsioSessionCaps;
use crate::engine::input::ProjectSnapshot;
use crate::engine::input::TrackInputSource;
use crate::engine::input::TrackSnapshot;
use crate::engine::state;
use crate::engine::state::monitor_channel_pair;
use crate::engine::state::SharedState;
use crate::engine::stream;
use crate::engine::stream::StartTarget;
use crate::error::SphereAudioError;
use crate::input_ring::InputRing;
use crate::input_ring::InputRingModel;
use crate::runtime;
use crate::text;
use crate::text::join;
use crate::text::optional_eq;
use crate::text::str_eq;

verus! {

/// What the host does after input was brought in step with the project.
#[derive(Debug)]
pub enum InputAction {
    /// Close the capture stream.
    Stopped,
    /// Keep the capture stream, and play the output stream, where one is named,
    /// so that what is monitored is heard.
    Routed { play: Option<StartTarget> },
    /// Close the capture stream and open one on this device; `None` is the
    /// system's default.
    Open { device: Option<String>, monitor_any: bool },
}

/// The first of the tracks from `from` on whose input an ASIO session cannot
/// give.
pub open spec fn first_refused(
    tracks: Seq<TrackSnapshot>,
    caps: AsioSessionCaps,
    from: int,
) -> Option<int>
    decreases tracks.len() - from,
{
    if from >= tracks.len() {
        None
    } else if tracks[from].wants_input() && input::asio_refusal(
        tracks[from].id@,
        tracks[from].input_source,
        caps,
    ) is Some {
        Some(from)
    } else {
        first_refused(tracks, caps, from + 1)
    }
}

/// The track that decides what an ASIO session feeds to the monitor bus: one
/// that is heard goes before one that is only armed.
pub open spec fn session_track(tracks: Seq<TrackSnapshot>) -> Option<int> {
    match input::first_monitored(tracks, 0) {
        Some(m) => Some(m),
        None => input::first_wanting(tracks, 0),
    }
}

/// The channels that a track feeds to the monitor bus.
pub open spec fn bus_pair(track: TrackSnapshot) -> (u32, u32) {
    match state::route_pair(track.input_source.channels@) {
        Some(pair) => pair,
        None => (0, 1),
    }
}

/// The shared state with the monitor bus fed by an ASIO session.
pub open spec fn session_routed(
    s: SharedState,
    pair: (u32, u32),
    monitor_any: bool,
    ring: InputRing,
) -> SharedState {
    SharedState {
        monitor_src_pair: state::packed_pair(pair),
        monitor_enabled_any: monitor_any,
        input_ring: ring,
        monitor_shared_clock: true,
        live_input_active: true,
        ..s
    }
}

/// The shared state with the monitor bus fed by the capture stream that runs.
pub open spec fn stream_kept(s: SharedState, pair: (u32, u32), monitor_any: bool) -> SharedState {
    SharedState {
        monitor_shared_clock: false,
        monitor_enabled_any: monitor_any,
        monitor_src_pair: state::packed_pair(pair),
        live_input_active: true,
        ..s
    }
}

/// What bringing input in step does on an ASIO session.
pub open spec fn session_synced(
    before: EngineInner,
    after: EngineInner,
    tracks: Seq<TrackSnapshot>,
    caps: AsioSessionCaps,
    r: Result<InputAction, SphereAudioError>,
) -> bool {
    match first_refused(tracks, caps, 0) {
        Some(i) => {
            let why = input::asio_refusal(tracks[i].id@, tracks[i].input_source, caps)->0;
            &&& r matches Err(SphereAudioError::InvalidConfig(text)) && text@ == why
            &&& text::optional(after.status.last_error) == Some(why)
            &&& stream::input_stopped(
                EngineInner {
                    status: EngineStatus {
                        last_error: after.status.last_error,
                        ..before.status
                    },
                    ..before
                },
                after,
            )
        },
        None => match session_track(tracks) {
            Some(k) => {
                &&& r == Ok::<_, SphereAudioError>(
                    InputAction::Routed { play: before.warm_choice() },
                )
                &&& after == (EngineInner {
                    shared: session_routed(
                        before.shared,
                        bus_pair(tracks[k]),
                        input::first_monitored(tracks, 0) is Some,
                        after.shared.input_ring,
                    ),
                    ..before
                })
                &&& after.shared.input_ring@ == (InputRingModel {
                    active: true,
                    channels: caps.input_channels,
                    sample_rate: caps.sample_rate,
                    ..before.shared.input_ring@
                })
            },
            None => r == Ok::<_, SphereAudioError>(InputAction::Stopped) && stream::input_stopped(
                before,
                after,
            ),
        },
    }
}

/// What bringing input in step does with a capture stream of its own.
pub open spec fn capture_synced(
    before: EngineInner,
    after: EngineInner,
    tracks: Seq<TrackSnapshot>,
    preferred: Option<String>,
    r: Result<InputAction, SphereAudioError>,
) -> bool {
    match input::first_wanting(tracks, 0) {
        None => r == Ok::<_, SphereAudioError>(InputAction::Stopped) && stream::input_stopped(
            before,
            after,
        ),
        Some(k) => {
            let device = input::capture_device(tracks[k].input_source.device_id, preferred);
            let monitor_any = input::first_monitored(tracks, 0) is Some;
            if before.live_input matches Some(live) && text::optional(live.device_id) == device {
                &&& r == Ok::<_, SphereAudioError>(
                    InputAction::Routed { play: before.warm_choice() },
                )
                &&& after == (EngineInner {
                    shared: stream_kept(before.shared, bus_pair(tracks[k]), monitor_any),
                    ..before
                })
            } else {
                &&& r matches Ok(InputAction::Open { device: d, monitor_any: any })
                    && text::optional(d) == device && any == monitor_any
                &&& stream::input_stopped(
                    EngineInner {
                        shared: SharedState {
                            monitor_src_pair: state::packed_pair(bus_pair(tracks[k])),
                            ..before.shared
                        },
                        ..before
                    },
                    after,
                )
            }
        },
    }
}

/// What bringing input in step with the project does. Monitored tracks that
/// disagree are refused and nothing changes. A duplex session is only routed,
/// never opened, and while it is still opening the routing waits.
pub open spec fn input_synced(
    before: EngineInner,
    after: EngineInner,
    tracks: Seq<TrackSnapshot>,
    preferred: Option<String>,
    r: Result<InputAction, SphereAudioError>,
) -> bool {
    match input::monitor_conflict(tracks) {
        Some(pair) => {
            &&& r matches Err(SphereAudioError::InvalidConfig(text)) && text@
                == input::conflict_text(tracks[pair.0].id@, tracks[pair.1].id@)
            &&& after == before
        },
        None => if before.daux_config.backend == BackendKind::Asio {
            match before.asio_caps {
                Some(caps) => session_synced(before, after, tracks, caps, r),
                None => r == Ok::<_, SphereAudioError>(InputAction::Stopped)
                    && stream::input_stopped(before, after),
            }
        } else {
            capture_synced(before, after, tracks, preferred, r)
        },
    }
}

/// The channels that a track feeds to the monitor bus.
fn track_bus_pair(track: &TrackSnapshot) -> (r: (u32, u32))
    ensures
        r == bus_pair(*track),
{
    match monitor_channel_pair(track.input_source.channels.as_slice()) {
        Some(pair) => pair,
        None => (0, 1),
    }
}

/// The first track whose input an ASIO session cannot give, and why.
fn find_refused(tracks: &Vec<TrackSnapshot>, caps: &AsioSessionCaps) -> (r: Option<String>)
    ensures
        match first_refused(tracks@, *caps, 0) {
            Some(i) => text::optional(r) == input::asio_refusal(
                tracks@[i].id@,
                tracks@[i].input_source,
                *caps,
            ) && r is Some,
            None => r is None,
        },
{
    let mut i: usize = 0;
    while i < tracks.len()
        invariant
            i <= tracks@.len(),
            first_refused(tracks@, *caps, 0) == first_refused(tracks@, *caps, i as int),
        decreases tracks@.len() - i,
    {
        let track: &TrackSnapshot = &tracks[i];
        if str_eq(&track.track_type, "audio") && track.input_source.channels.len() > 0 && (
        track.armed || track.input_monitor) {
            let why: Option<String> = validate_asio_input_source(
                &track.id,
                &track.input_source,
                caps,
            );
            if why.is_some() {
                return why;
            }
        }
        i = i + 1;
    }
    None
}

impl EngineInner {
    /// Route a duplex session's input to the monitor bus.
    #[verifier::rlimit(40)]
    #[verifier::spinoff_prover]
    fn route_session(
        &mut self,
        pair: (u32, u32),
        monitor_any: bool,
        channels: u32,
        sample_rate: u32,
    )
        ensures
            *final(self) == (EngineInner {
                shared: session_routed(
                    old(self).shared,
                    pair,
                    monitor_any,
                    final(self).shared.input_ring,
                ),
                ..*old(self)
            }),
            final(self).shared.input_ring@ == (InputRingModel {
                active: true,
                channels,
                sample_rate,
                ..old(self).shared.input_ring@
            }),
    {
        self.shared.set_monitor_source_pair(pair.0, pair.1);
        self.shared.monitor_enabled_any = monitor_any;
        self.shared.input_ring.set_active(true, channels, sample_rate);
        self.shared.monitor_shared_clock = true;
        self.shared.live_input_active = true;
    }

    /// Note why input is not available, and stop it.
    fn refuse_input(&mut self, why: String) -> (r: SphereAudioError)
        ensures
            r matches SphereAudioError::InvalidConfig(text) && text@ == why@,
            text::optional(final(self).status.last_error) == Some(why@),
            stream::input_stopped(
                EngineInner {
                    status: EngineStatus {
                        last_error: final(self).status.last_error,
                        ..old(self).status
                    },
                    ..*old(self)
                },
                *final(self),
            ),
    {
        self.status.last_error = Some(why.clone());
        self.stop_live_input_stream();
        SphereAudioError::InvalidConfig(why)
    }

    /// Keep the capture stream and route it to the monitor bus.
    fn keep_capture(&mut self, pair: (u32, u32), monitor_any: bool)
        ensures
            *final(self) == (EngineInner {
                shared: stream_kept(old(self).shared, pair, monitor_any),
                ..*old(self)
            }),
    {
        self.shared.monitor_shared_clock = false;
        self.shared.monitor_enabled_any = monitor_any;
        self.shared.set_monitor_source_pair(pair.0, pair.1);
        self.shared.live_input_active = true;
    }

    /// Bring input in step with a duplex session.
    fn sync_asio_input_routing(&mut self, tracks: &Vec<TrackSnapshot>) -> (r: Result<
        InputAction,
        SphereAudioError,
    >)
        requires
            old(self).asio_caps is Some,
        ensures
            session_synced(*old(self), *final(self), tracks@, old(self).asio_caps->0, r),
    {
        let (refusal, channels, rate): (Option<String>, u32, u32) = match &self.asio_caps {
            Some(caps) => (find_refused(tracks, caps), caps.input_channels, caps.sample_rate),
            None => (None, 0, 0),
        };
        if let Some(why) = refusal {
            return Err(self.refuse_input(why));
        }
        let monitored: Option<usize> = find_monitored(tracks);
        let wanting: Option<usize> = find_wanting(tracks);
        let chosen: Option<usize> = match monitored {
            Some(m) => Some(m),
            None => wanting,
        };
        match chosen {
            Some(k) => {
                let pair: (u32, u32) = track_bus_pair(&tracks[k]);
                self.route_session(pair, monitored.is_some(), channels, rate);
                Ok(InputAction::Routed { play: self.warm_output_for_monitoring() })
            },
            None => {
                self.stop_live_input_stream();
                Ok(InputAction::Stopped)
            },
        }
    }

    /// Bring a capture stream of its own in step.
    fn sync_capture(&mut self, tracks: &Vec<TrackSnapshot>, preferred: &Option<String>) -> (r:
        Result<InputAction, SphereAudioError>)
        ensures
            capture_synced(*old(self), *final(self), tracks@, *preferred, r),
    {
        let k: usize = match find_wanting(tracks) {
            Some(k) => k,
            None => {
                self.stop_live_input_stream();
                return Ok(InputAction::Stopped);
            },
        };
        let monitor_any: bool = find_monitored(tracks).is_some();
        let device: Option<String> = choose_capture_device(
            &tracks[k].input_source.device_id,
            preferred,
        );
        let pair: (u32, u32) = track_bus_pair(&tracks[k]);
        let same: bool = match &self.live_input {
            Some(live) => optional_eq(&live.device_id, &device),
            None => false,
        };
        if same {
            self.keep_capture(pair, monitor_any);
            return Ok(InputAction::Routed { play: self.warm_output_for_monitoring() });
        }
        self.shared.set_monitor_source_pair(pair.0, pair.1);
        self.stop_live_input_stream();
        Ok(InputAction::Open { device, monitor_any })
    }

    /// Bring input in step with the project's routes, and say what the host
    /// does about its capture stream.
    pub fn sync_live_input_stream(
        &mut self,
        tracks: &Vec<TrackSnapshot>,
        preferred: &Option<String>,
    ) -> (r: Result<InputAction, SphereAudioError>)
        ensures
            input_synced(*old(self), *final(self), tracks@, *preferred, r),
    {
        if let Some((a, b)) = find_monitor_conflict(tracks) {
            return Err(
                SphereAudioError::InvalidConfig(conflict_message(&tracks[a].id, &tracks[b].id)),
            );
        }
        match self.daux_config.backend {
            BackendKind::Asio => if self.asio_caps.is_some() {
                self.sync_asio_input_routing(tracks)
            } else {
                self.stop_live_input_stream();
                Ok(InputAction::Stopped)
            },
            _ => self.sync_capture(tracks, preferred),
        }
    }
}

/// What bringing input in step with the stored project again does. Without a
/// project there is nothing to do.
pub open spec fn input_restored(
    before: EngineInner,
    after: EngineInner,
    r: Option<Result<InputAction, SphereAudioError>>,
) -> bool {
    match before.project {
        Some(p) => r matches Some(action) && input_synced(
            before,
            after,
            p.tracks@,
            p.preferred_input_device,
            action,
        ),
        None => r is None && after == before,
    }
}

/// Bringing input in step neither reads nor changes the stored project.
#[verifier::spinoff_prover]
#[verifier::rlimit(60)]
proof fn lemma_project_set_aside(
    before: EngineInner,
    after: EngineInner,
    project: Option<ProjectSnapshot>,
    tracks: Seq<TrackSnapshot>,
    preferred: Option<String>,
    r: Result<InputAction, SphereAudioError>,
)
    requires
        input_synced(EngineInner { project: None, ..before }, after, tracks, preferred, r),
    ensures
        input_synced(
            EngineInner { project, ..before },
            EngineInner { project, ..after },
            tracks,
            preferred,
            r,
        ),
{
}

impl EngineInner {
    /// Bring input in step with the stored project again, after something else
    /// had the input or the stream was opened anew.
    pub fn restore_input(&mut self) -> (r: Option<Result<InputAction, SphereAudioError>>)
        ensures
            input_restored(*old(self), *final(self), r),
    {
        let ghost before = *self;
        match self.project.take() {
            Some(project) => {
                let action: Result<InputAction, SphereAudioError> = self.sync_live_input_stream(
                    &project.tracks,
                    &project.preferred_input_device,
                );
                let ghost synced = *self;
                self.project = Some(project);
                proof {
                    lemma_project_set_aside(
                        before,
                        synced,
                        before.project,
                        project.tracks@,
                        project.preferred_input_device,
                        action,
                    );
                }
                Some(action)
            },
            None => None,
        }
    }
}

/// Input that had stopped is heard again once it is restored: with a track that
/// wants input and no conflict, a capture stream is opened anew, or the duplex
/// session is routed.
pub proof fn law_restored_input_is_heard(
    before: EngineInner,
    after: EngineInner,
    r: Option<Result<InputAction, SphereAudioError>>,
)
    requires
        input_restored(before, after, r),
        before.live_input is None,
        before.project matches Some(p) && input::monitor_conflict(p.tracks@) is None
            && input::first_wanting(p.tracks@, 0) is Some,
    ensures
        before.daux_config.backend != BackendKind::Asio ==> (r matches Some(
            Ok(InputAction::Open { .. }),
        )),
        before.daux_config.backend == BackendKind::Asio && (before.asio_caps matches Some(caps)
            && first_refused(before.project->0.tracks@, caps, 0) is None) ==> {
            &&& r == Some(
                Ok::<_, SphereAudioError>(InputAction::Routed { play: after.warm_choice() }),
            )
            &&& after.shared.live_input_active
            &&& after.shared.input_ring@.active
        },
{
}

/// The output is kept running for what is monitored: bringing input in step
/// without opening anything names the output stream to play, and it names one
/// exactly when one is open that does not run.
pub proof fn law_output_runs_while_monitoring(
    before: EngineInner,
    after: EngineInner,
    tracks: Seq<TrackSnapshot>,
    preferred: Option<String>,
    r: Result<InputAction, SphereAudioError>,
)
    requires
        input_synced(before, after, tracks, preferred, r),
    ensures
        r matches Ok(InputAction::Routed { play }) ==> {
            &&& play == after.warm_choice()
            &&& play is Some <==> !after.status.running && (after.active_stream is Some
                || after.plain_stream)
        },
{
}

/// Nothing is captured unless a track asks for it: without an armed or
/// monitored audio track the input ring is not fed, on any backend.
pub proof fn law_no_capture_without_a_track(
    before: EngineInner,
    after: EngineInner,
    tracks: Seq<TrackSnapshot>,
    preferred: Option<String>,
    r: Result<InputAction, SphereAudioError>,
)
    requires
        input_synced(before, after, tracks, preferred, r),
        forall|i: int| 0 <= i < tracks.len() ==> !(#[trigger] tracks[i]).wants_input(),
    ensures
        r == Ok::<_, SphereAudioError>(InputAction::Stopped),
        after.live_input is None,
        !after.shared.input_ring@.active,
        !after.shared.live_input_active,
        !after.shared.monitor_enabled_any,
{
    lemma_none_wanting(tracks, 0);
    lemma_none_monitored(tracks, 0);
    if let Some(caps) = before.asio_caps {
        lemma_none_refused(tracks, caps, 0);
    }
}

proof fn lemma_none_wanting(tracks: Seq<TrackSnapshot>, from: int)
    requires
        0 <= from,
        forall|i: int| 0 <= i < tracks.len() ==> !(#[trigger] tracks[i]).wants_input(),
    ensures
        input::first_wanting(tracks, from) is None,
    decreases tracks.len() - from,
{
    if from < tracks.len() {
        lemma_none_wanting(tracks, from + 1);
    }
}

proof fn lemma_none_monitored(tracks: Seq<TrackSnapshot>, from: int)
    requires
        0 <= from,
        forall|i: int| 0 <= i < tracks.len() ==> !(#[trigger] tracks[i]).wants_input(),
    ensures
        input::first_monitored(tracks, from) is None,
    decreases tracks.len() - from,
{
    if from < tracks.len() {
        assert(!tracks[from].wants_input());
        lemma_none_monitored(tracks, from + 1);
    }
}

proof fn lemma_none_refused(tracks: Seq<TrackSnapshot>, caps: AsioSessionCaps, from: int)
    requires
        0 <= from,
        forall|i: int| 0 <= i < tracks.len() ==> !(#[trigger] tracks[i]).wants_input(),
    ensures
        first_refused(tracks, caps, from) is None,
    decreases tracks.len() - from,
{
    if from < tracks.len() {
        lemma_none_refused(tracks, caps, from + 1);
    }
}

/// Tracks that monitor different inputs are refused before anything changes.
pub proof fn law_conflicting_routes_change_nothing(
    before: EngineInner,
    after: EngineInner,
    tracks: Seq<TrackSnapshot>,
    preferred: Option<String>,
    r: Result<InputAction, SphereAudioError>,
)
    requires
        input_synced(before, after, tracks, preferred, r),
        input::monitor_conflict(tracks) is Some,
    ensures
        r is Err,
        after == before,
{
}

/// A duplex session is never opened for its input, only routed.
pub proof fn law_duplex_session_is_never_reopened(
    before: EngineInner,
    after: EngineInner,
    tracks: Seq<TrackSnapshot>,
    preferred: Option<String>,
    r: Result<InputAction, SphereAudioError>,
)
    requires
        input_synced(before, after, tracks, preferred, r),
        before.daux_config.backend == BackendKind::Asio,
    ensures
        !(r matches Ok(InputAction::Open { .. })),
        after.active_stream == before.active_stream,
        after.asio_caps == before.asio_caps,
{
}

// ── The capture stream ──────────────────────────────────────────────────────

/// Why a capture stream did not come up, with what the device said.
#[derive(Debug)]
pub enum InputFailure {
    /// The device would not tell its format.
    Config(String),
    /// The stream could not be opened.
    Open(String),
    /// The stream could not be started.
    Play(String),
}

impl InputFailure {
    /// What is said of a capture stream that did not come up.
    pub open spec fn text(self) -> Seq<char> {
        match self {
            InputFailure::Config(e) => "Input device config error: "@ + e@,
            InputFailure::Open(e) => "Cannot open live input stream: "@ + e@,
            InputFailure::Play(e) => "Live input play failed: "@ + e@,
        }
    }
}

impl EngineInner {
    /// Arm the input ring for a capture stream that is about to open.
    pub fn arm_live_input(&mut self, channels: u32, sample_rate: u32)
        ensures
            *final(self) == (EngineInner {
                shared: SharedState {
                    input_ring: final(self).shared.input_ring,
                    ..old(self).shared
                },
                ..*old(self)
            }),
            final(self).shared.input_ring@ == (InputRingModel {
                active: true,
                channels: state::at_least_one(channels),
                sample_rate,
                ..old(self).shared.input_ring@
            }),
    {
        let n: u32 = state::one_or_more(channels);
        self.shared.input_ring.set_active(true, n, sample_rate);
    }

    /// Take over a capture stream that runs. The output stream that is named is
    /// to be played, so that what is monitored is heard.
    pub fn live_input_opened(&mut self, device: Option<String>, monitor_any: bool) -> (r: Option<
        StartTarget,
    >)
        ensures
            r == old(self).warm_choice(),
            *final(self) == (EngineInner {
                live_input: Some(LiveInput { device_id: device }),
                shared: SharedState {
                    live_input_active: true,
                    monitor_enabled_any: monitor_any,
                    ..old(self).shared
                },
                ..*old(self)
            }),
    {
        self.live_input = Some(LiveInput { device_id: device });
        self.shared.live_input_active = true;
        self.shared.monitor_enabled_any = monitor_any;
        self.warm_output_for_monitoring()
    }

    /// Report a capture stream that did not come up. One that could not be
    /// opened feeds nothing.
    pub fn live_input_failed(&mut self, failure: &InputFailure) -> (r: SphereAudioError)
        ensures
            r matches SphereAudioError::NativeError(why) && why@ == failure.text(),
            !(failure is Open) ==> *final(self) == *old(self),
            failure is Open ==> *final(self) == (EngineInner {
                shared: SharedState {
                    input_ring: final(self).shared.input_ring,
                    ..old(self).shared
                },
                ..*old(self)
            }) && final(self).shared.input_ring@ == stream::unfed(old(self).shared.input_ring@),
    {
        let why: String = match failure {
            InputFailure::Config(e) => join("Input device config error: ", e),
            InputFailure::Open(e) => {
                self.shared.input_ring.set_active(false, 0, 0);
                join("Cannot open live input stream: ", e)
            },
            InputFailure::Play(e) => join("Live input play failed: ", e),
        };
        SphereAudioError::NativeError(why)
    }

    /// What the open duplex session offers, `None` where none is open.
    pub fn asio_session_caps(&self) -> (r: Option<&AsioSessionCaps>)
        ensures
            r is Some <==> self.asio_caps is Some,
            r matches Some(caps) ==> self.asio_caps == Some(*caps),
    {
        match &self.asio_caps {
            Some(caps) => Some(caps),
            None => None,
        }
    }

    /// Whether a capture device may be opened: a duplex session is one device,
    /// and a second stream on it would stop its output.
    pub fn may_open_capture(&self) -> (r: Result<(), SphereAudioError>)
        ensures
            self.daux_config.backend != BackendKind::Asio ==> r is Ok,
            self.daux_config.backend == BackendKind::Asio ==> (r matches Err(
                SphereAudioError::NativeError(why),
            ) && why@
                == "ASIO input is captured by the active duplex session; no separate input device is ever opened"@),
    {
        match self.daux_config.backend {
            BackendKind::Asio => Err(
                SphereAudioError::NativeError(
                    "ASIO input is captured by the active duplex session; no separate input device is ever opened".to_owned(),
                ),
            ),
            _ => Ok(()),
        }
    }
}

// ── Input edits ─────────────────────────────────────────────────────────────

/// The first track with this id, from `from` on.
pub open spec fn track_with_id(tracks: Seq<TrackSnapshot>, id: Seq<char>, from: int) -> Option<int>
    decreases tracks.len() - from,
{
    if from >= tracks.len() {
        None
    } else if tracks[from].id@ == id {
        Some(from)
    } else {
        track_with_id(tracks, id, from + 1)
    }
}

/// The first track with this id.
pub fn find_track(tracks: &Vec<TrackSnapshot>, id: &str) -> (r: Option<usize>)
    ensures
        r is Some <==> track_with_id(tracks@, id@, 0) is Some,
        r matches Some(i) ==> track_with_id(tracks@, id@, 0) == Some(i as int) && i
            < tracks@.len() && tracks@[i as int].id@ == id@,
{
    let mut i: usize = 0;
    while i < tracks.len()
        invariant
            i <= tracks@.len(),
            track_with_id(tracks@, id@, 0) == track_with_id(tracks@, id@, i as int),
        decreases tracks@.len() - i,
    {
        if str_eq(&tracks[i].id, id) {
            return Some(i);
        }
        i = i + 1;
    }
    None
}

/// Why a track's input cannot be changed; `None` where it can. A route that was
/// not given stays what it is.
pub open spec fn edit_refusal(
    e: EngineInner,
    track_id: Seq<char>,
    route: Option<TrackInputSource>,
) -> Option<Seq<char>> {
    if e.recording is Some {
        Some("track input routing cannot change during an active recording"@)
    } else {
        match e.project {
            None => Some("no project is loaded"@),
            Some(p) => match track_with_id(p.tracks@, track_id, 0) {
                None => Some("track '"@ + track_id + "' was not found"@),
                Some(i) => {
                    let source = match route {
                        Some(s) => s,
                        None => p.tracks@[i].input_source,
                    };
                    match input::route_refusal(track_id, source.channels@) {
                        Some(why) => Some(why),
                        None => match e.asio_caps {
                            Some(caps) => input::asio_refusal(track_id, source, caps),
                            None => None,
                        },
                    }
                },
            },
        }
    }
}

/// Whether it is the open session that decides on an edit: everything else
/// about it is in order.
pub open spec fn session_decides(
    e: EngineInner,
    track_id: Seq<char>,
    route: Option<TrackInputSource>,
) -> bool {
    e.asio_caps is Some && edit_refusal(
        EngineInner { asio_caps: None, ..e },
        track_id,
        route,
    ) is None
}

/// What is needed to take an input edit back.
#[derive(Debug)]
pub struct InputEdit {
    pub track_index: usize,
    pub old_armed: bool,
    pub old_monitor: bool,
    /// The route that was replaced, if one was.
    pub old_source: Option<TrackInputSource>,
}

/// A track after an input edit.
pub open spec fn edited_track(
    t: TrackSnapshot,
    armed: bool,
    monitor: bool,
    route: Option<TrackInputSource>,
) -> TrackSnapshot {
    TrackSnapshot {
        armed,
        input_monitor: monitor,
        input_source: match route {
            Some(s) => s,
            None => t.input_source,
        },
        ..t
    }
}

/// Whether `after` is the project with track `i` replaced.
pub open spec fn track_replaced(
    before: ProjectSnapshot,
    after: ProjectSnapshot,
    i: int,
    track: TrackSnapshot,
) -> bool {
    &&& after == (ProjectSnapshot { tracks: after.tracks, ..before })
    &&& after.tracks@ == before.tracks@.update(i, track)
}

/// Whether `after` is the project with all its tracks as they were.
pub open spec fn same_project(before: ProjectSnapshot, after: ProjectSnapshot) -> bool {
    &&& after == (ProjectSnapshot { tracks: after.tracks, ..before })
    &&& after.tracks@ == before.tracks@
}

/// Put an edit into a project, and give back what undoes it.
fn put_edit(
    project: &mut ProjectSnapshot,
    index: usize,
    armed: bool,
    monitor: bool,
    route: Option<TrackInputSource>,
) -> (r: InputEdit)
    requires
        index < old(project).tracks@.len(),
    ensures
        track_replaced(
            *old(project),
            *final(project),
            index as int,
            edited_track(old(project).tracks@[index as int], armed, monitor, route),
        ),
        undoes(r, index, old(project).tracks@[index as int], route),
{
    let track: &mut TrackSnapshot = &mut project.tracks[index];
    let old_armed: bool = track.armed;
    let old_monitor: bool = track.input_monitor;
    track.armed = armed;
    track.input_monitor = monitor;
    let old_source: Option<TrackInputSource> = match route {
        Some(mut source) => {
            std::mem::swap(&mut track.input_source, &mut source);
            Some(source)
        },
        None => None,
    };
    InputEdit { track_index: index, old_armed, old_monitor, old_source }
}

/// Whether an edit undoes a change of a track that was `before`.
pub open spec fn undoes(
    edit: InputEdit,
    index: usize,
    before: TrackSnapshot,
    route: Option<TrackInputSource>,
) -> bool {
    &&& edit.track_index == index
    &&& edit.old_armed == before.armed
    &&& edit.old_monitor == before.input_monitor
    &&& edit.old_source == match route {
        Some(_) => Some(before.input_source),
        None => None,
    }
}

/// Take an edit back.
fn take_back(project: &mut ProjectSnapshot, edit: InputEdit)
    requires
        edit.track_index < old(project).tracks@.len(),
    ensures
        track_replaced(
            *old(project),
            *final(project),
            edit.track_index as int,
            edited_track(
                old(project).tracks@[edit.track_index as int],
                edit.old_armed,
                edit.old_monitor,
                edit.old_source,
            ),
        ),
{
    let track: &mut TrackSnapshot = &mut project.tracks[edit.track_index];
    track.armed = edit.old_armed;
    track.input_monitor = edit.old_monitor;
    if let Some(source) = edit.old_source {
        track.input_source = source;
    }
}

/// Taking an edit back gives the project that it was made on.
pub proof fn law_input_edit_is_undone(
    before: ProjectSnapshot,
    edited: ProjectSnapshot,
    back: ProjectSnapshot,
    i: int,
    armed: bool,
    monitor: bool,
    route: Option<TrackInputSource>,
    edit: InputEdit,
)
    requires
        0 <= i < before.tracks@.len(),
        i == edit.track_index,
        track_replaced(before, edited, i, edited_track(before.tracks@[i], armed, monitor, route)),
        undoes(edit, edit.track_index, before.tracks@[i], route),
        track_replaced(
            edited,
            back,
            i,
            edited_track(
                edited.tracks@[i],
                edit.old_armed,
                edit.old_monitor,
                edit.old_source,
            ),
        ),
    ensures
        same_project(before, back),
{
    assert(edited_track(
        edited.tracks@[i],
        edit.old_armed,
        edit.old_monitor,
        edit.old_source,
    ) == before.tracks@[i]);
    assert(back.tracks@ =~= before.tracks@);
}

/// What a refused edit does: it is reported why, and noted where the duplex
/// session decided.
pub open spec fn edit_refused(
    before: EngineInner,
    after: EngineInner,
    track_id: Seq<char>,
    route: Option<TrackInputSource>,
    r: Result<(InputEdit, InputAction), SphereAudioError>,
) -> bool {
    let why = edit_refusal(before, track_id, route)->0;
    &&& r matches Err(SphereAudioError::InvalidConfig(text)) && text@ == why
    &&& after == (EngineInner {
        status: EngineStatus { last_error: after.status.last_error, ..before.status },
        ..before
    })
    &&& if session_decides(before, track_id, route) {
        text::optional(after.status.last_error) == Some(why)
    } else {
        after.status.last_error == before.status.last_error
    }
}

/// What an accepted edit does before the callback hears of it: the project
/// takes it over and input is brought in step. Where that fails, the project is
/// as before and input is brought in step with it again.
pub open spec fn edit_begun(
    before: EngineInner,
    after: EngineInner,
    armed: bool,
    monitor: bool,
    track_id: Seq<char>,
    route: Option<TrackInputSource>,
    r: Result<(InputEdit, InputAction), SphereAudioError>,
) -> bool {
    let p = before.project->0;
    let i = track_with_id(p.tracks@, track_id, 0)->0;
    let aside = EngineInner { project: None, ..before };
    exists|edited: ProjectSnapshot, synced: EngineInner, s: Result<InputAction, SphereAudioError>|
        {
            &&& #[trigger] track_replaced(
                p,
                edited,
                i,
                edited_track(p.tracks@[i], armed, monitor, route),
            )
            &&& #[trigger] input_synced(
                aside,
                synced,
                edited.tracks@,
                p.preferred_input_device,
                s,
            )
            &&& match s {
                Ok(action) => {
                    &&& r matches Ok(done) && done.1 == action && undoes(
                        done.0,
                        i as usize,
                        p.tracks@[i],
                        route,
                    )
                    &&& after == (EngineInner { project: Some(edited), ..synced })
                },
                Err(e) => {
                    &&& r == Err::<(InputEdit, InputAction), _>(e)
                    &&& edit_dropped(p, synced, after)
                },
            }
        }
}

/// What dropping an edit does: the project is `p` again, and input is brought
/// in step with it.
pub open spec fn edit_dropped(p: ProjectSnapshot, before: EngineInner, after: EngineInner) -> bool {
    exists|again: EngineInner, s: Result<InputAction, SphereAudioError>|
        {
            &&& #[trigger] input_synced(before, again, p.tracks@, p.preferred_input_device, s)
            &&& after == (EngineInner { project: after.project, ..again })
            &&& after.project matches Some(back) && same_project(p, back)
        }
}

impl EngineInner {
    /// Why a track's input cannot be changed.
    fn refuse_edit(&self, track_id: &str, route: &Option<TrackInputSource>) -> (r: (
        Option<String>,
        bool,
    ))
        ensures
            text::optional(r.0) == edit_refusal(*self, track_id@, *route),
            r.1 == session_decides(*self, track_id@, *route),
    {
        if self.recording.is_some() {
            return (
                Some("track input routing cannot change during an active recording".to_owned()),
                false,
            );
        }
        match &self.project {
            None => (Some("no project is loaded".to_owned()), false),
            Some(p) => match find_track(&p.tracks, track_id) {
                None => {
                    let head: String = join("track '", track_id);
                    (Some(join(&head, "' was not found")), false)
                },
                Some(i) => {
                    let source: &TrackInputSource = match route {
                        Some(s) => s,
                        None => &p.tracks[i].input_source,
                    };
                    let why: Option<String> = validate_route(track_id, &source.channels);
                    if why.is_some() {
                        return (why, false);
                    }
                    match &self.asio_caps {
                        Some(caps) => (validate_asio_input_source(track_id, source, caps), true),
                        None => (None, false),
                    }
                },
            },
        }
    }

    /// Begin to change a track's arming, monitoring and route; a route that is
    /// not given stays. The host then does what the action says and commits the
    /// edit, or cancels it where its capture stream did not come up.
    pub fn begin_input_edit(
        &mut self,
        track_id: &str,
        record_armed: bool,
        monitor_enabled: bool,
        route: Option<TrackInputSource>,
    ) -> (r: Result<(InputEdit, InputAction), SphereAudioError>)
        ensures
            edit_refusal(*old(self), track_id@, route) is Some ==> edit_refused(
                *old(self),
                *final(self),
                track_id@,
                route,
                r,
            ),
            edit_refusal(*old(self), track_id@, route) is None ==> edit_begun(
                *old(self),
                *final(self),
                record_armed,
                monitor_enabled,
                track_id@,
                route,
                r,
            ),
    {
        let (refusal, by_session): (Option<String>, bool) = self.refuse_edit(track_id, &route);
        if let Some(why) = refusal {
            if by_session {
                self.status.last_error = Some(why.clone());
            }
            return Err(SphereAudioError::InvalidConfig(why));
        }
        let ghost whole = *self;
        let mut project: ProjectSnapshot = match self.project.take() {
            Some(p) => p,
            None => {
                return Err(SphereAudioError::EngineNotOpen);
            },
        };
        let ghost before = project;
        let index: usize = match find_track(&project.tracks, track_id) {
            Some(i) => i,
            None => {
                return Err(SphereAudioError::EngineNotOpen);
            },
        };
        let edit: InputEdit = put_edit(
            &mut project,
            index,
            record_armed,
            monitor_enabled,
            route,
        );
        let ghost edited = project;
        let synced: Result<InputAction, SphereAudioError> = self.sync_live_input_stream(
            &project.tracks,
            &project.preferred_input_device,
        );
        let ghost at_sync = *self;
        proof {
            assert(track_replaced(
                before,
                edited,
                index as int,
                edited_track(before.tracks@[index as int], record_armed, monitor_enabled, route),
            ));
            assert(input_synced(
                EngineInner { project: None, ..whole },
                at_sync,
                edited.tracks@,
                before.preferred_input_device,
                synced,
            ));
        }
        match synced {
            Ok(action) => {
                self.project = Some(project);
                Ok((edit, action))
            },
            Err(e) => {
                take_back(&mut project, edit);
                proof {
                    law_input_edit_is_undone(
                        before,
                        edited,
                        project,
                        index as int,
                        record_armed,
                        monitor_enabled,
                        route,
                        edit,
                    );
                }
                let again: Result<InputAction, SphereAudioError> = self.sync_live_input_stream(
                    &project.tracks,
                    &project.preferred_input_device,
                );
                let ghost resynced = *self;
                self.project = Some(project);
                proof {
                    assert(input_synced(
                        at_sync,
                        resynced,
                        before.tracks@,
                        before.preferred_input_device,
                        again,
                    ));
                    assert(edit_dropped(before, at_sync, *self));
                }
                Err(e)
            },
        }
    }
}

impl EngineInner {
    /// Begin to change a track's arming, monitoring and route.
    pub fn update_track_input_state(
        &mut self,
        track_id: &str,
        record_armed: bool,
        monitor_enabled: bool,
        input_source: TrackInputSource,
    ) -> (r: Result<(InputEdit, InputAction), SphereAudioError>)
        ensures
            edit_refusal(*old(self), track_id@, Some(input_source)) is Some ==> edit_refused(
                *old(self),
                *final(self),
                track_id@,
                Some(input_source),
                r,
            ),
            edit_refusal(*old(self), track_id@, Some(input_source)) is None ==> edit_begun(
                *old(self),
                *final(self),
                record_armed,
                monitor_enabled,
                track_id@,
                Some(input_source),
                r,
            ),
    {
        self.begin_input_edit(track_id, record_armed, monitor_enabled, Some(input_source))
    }

    /// Begin to change a track's arming and monitoring; its route stays.
    pub fn update_track_input_flags(
        &mut self,
        track_id: &str,
        record_armed: bool,
        monitor_enabled: bool,
    ) -> (r: Result<(InputEdit, InputAction), SphereAudioError>)
        ensures
            edit_refusal(*old(self), track_id@, None) is Some ==> edit_refused(
                *old(self),
                *final(self),
                track_id@,
                None,
                r,
            ),
            edit_refusal(*old(self), track_id@, None) is None ==> edit_begun(
                *old(self),
                *final(self),
                record_armed,
                monitor_enabled,
                track_id@,
                None,
                r,
            ),
    {
        self.begin_input_edit(track_id, record_armed, monitor_enabled, None)
    }

    /// Drop an edit: the project is as before it, and input is brought in step
    /// with that again. The error that made it necessary is the caller's to
    /// report.
    pub fn cancel_input_edit(&mut self, edit: InputEdit) -> (r: Result<
        InputAction,
        SphereAudioError,
    >)
        requires
            old(self).project matches Some(p) && edit.track_index < p.tracks@.len(),
        ensures
            edit_cancelled(*old(self), *final(self), edit, r),
    {
        let ghost whole = *self;
        let mut project: ProjectSnapshot = match self.project.take() {
            Some(p) => p,
            None => {
                return Err(SphereAudioError::EngineNotOpen);
            },
        };
        let ghost edited = project;
        take_back(&mut project, edit);
        let ghost back = project;
        let r: Result<InputAction, SphereAudioError> = self.sync_live_input_stream(
            &project.tracks,
            &project.preferred_input_device,
        );
        let ghost synced = *self;
        self.project = Some(project);
        proof {
            assert(track_replaced(
                edited,
                back,
                edit.track_index as int,
                edited_track(
                    edited.tracks@[edit.track_index as int],
                    edit.old_armed,
                    edit.old_monitor,
                    edit.old_source,
                ),
            ));
            assert(input_synced(
                EngineInner { project: None, ..whole },
                synced,
                back.tracks@,
                back.preferred_input_device,
                r,
            ));
        }
        r
    }

    /// Note a track's arming, monitoring and route in the stored graph.
    fn show_input(
        &mut self,
        index: usize,
        record_armed: bool,
        monitor_enabled: bool,
        input_source: TrackInputRoute,
    )
        ensures
            input_shown(
                *old(self),
                *final(self),
                index as int,
                record_armed,
                monitor_enabled,
                input_source,
            ),
    {
        self.runtime.update_track_input_state(
            index,
            record_armed,
            monitor_enabled,
            input_source,
        );
    }

    /// Commit an edit: the stored graph takes it over, and the callback is told.
    /// Without an open stream there is nobody to tell, and the edit stands;
    /// where the callback refuses, graph and project are as before the edit and
    /// what the host does about its capture stream is the second value.
    pub fn commit_input_edit(&mut self, edit: InputEdit) -> (r: (
        Result<(), SphereAudioError>,
        Option<Result<InputAction, SphereAudioError>>,
    ))
        requires
            old(self).project matches Some(p) && edit.track_index < p.tracks@.len(),
        ensures
            edit_committed(*old(self), *final(self), edit, r.0, r.1),
    {
        let ghost before = *self;
        let (armed, monitor, route, old_route): (bool, bool, TrackInputRoute, TrackInputRoute) =
            match &self.project {
            Some(p) => {
                let track: &TrackSnapshot = &p.tracks[edit.track_index];
                let route: TrackInputRoute = input_route(&track.input_source);
                let old_route: TrackInputRoute = match &edit.old_source {
                    Some(source) => input_route(source),
                    None => route,
                };
                (track.armed, track.input_monitor, route, old_route)
            },
            None => {
                return (Ok(()), None);
            },
        };
        self.show_input(edit.track_index, armed, monitor, route);
        let ghost shown = *self;
        let command: EngineCommand = EngineCommand::SetTrackInputState {
            track_index: edit.track_index,
            record_armed: armed,
            monitor_enabled: monitor,
            input_source: route,
        };
        let sent: Result<(), SphereAudioError> = self.send_command(command);
        let ghost told = *self;
        proof {
            let track = before.project->0.tracks@[edit.track_index as int];
            assert(command == input_command(track, edit.track_index));
            assert(input_shown(
                before,
                shown,
                edit.track_index as int,
                track.armed,
                track.input_monitor,
                route_of(track.input_source),
            ));
            assert(inner::handed_over(shown, told, command, sent));
        }
        match sent {
            Ok(_) => {
                self.input_state_revision = state::count(self.input_state_revision);
                (Ok(()), None)
            },
            Err(SphereAudioError::EngineNotOpen) => {
                self.input_state_revision = state::count(self.input_state_revision);
                (Ok(()), None)
            },
            Err(e) => {
                self.show_input(edit.track_index, edit.old_armed, edit.old_monitor, old_route);
                let ghost reverted = *self;
                let action: Result<InputAction, SphereAudioError> = self.cancel_input_edit(edit);
                proof {
                    let track = before.project->0.tracks@[edit.track_index as int];
                    assert(input_shown(
                        told,
                        reverted,
                        edit.track_index as int,
                        edit.old_armed,
                        edit.old_monitor,
                        route_of(old_source(track, edit)),
                    ));
                }
                (Err(e), Some(action))
            },
        }
    }
}

/// What dropping an edit does.
pub open spec fn edit_cancelled(
    before: EngineInner,
    after: EngineInner,
    edit: InputEdit,
    r: Result<InputAction, SphereAudioError>,
) -> bool {
    let p = before.project->0;
    let i = edit.track_index as int;
    exists|back: ProjectSnapshot, synced: EngineInner|
        {
            &&& #[trigger] track_replaced(
                p,
                back,
                i,
                edited_track(p.tracks@[i], edit.old_armed, edit.old_monitor, edit.old_source),
            )
            &&& #[trigger] input_synced(
                EngineInner { project: None, ..before },
                synced,
                back.tracks@,
                back.preferred_input_device,
                r,
            )
            &&& after == (EngineInner { project: Some(back), ..synced })
        }
}

/// The channels of a route as the callback takes them.
pub open spec fn route_of(source: TrackInputSource) -> TrackInputRoute {
    match state::route_pair(source.channels@) {
        Some(pair) => TrackInputRoute::Pair { left: pair.0, right: pair.1 },
        None => TrackInputRoute::Unrouted,
    }
}

/// What the callback is told of a track's input.
pub open spec fn input_command(track: TrackSnapshot, index: usize) -> EngineCommand {
    EngineCommand::SetTrackInputState {
        track_index: index,
        record_armed: track.armed,
        monitor_enabled: track.input_monitor,
        input_source: route_of(track.input_source),
    }
}

/// The channels of a route as the callback takes them.
pub fn input_route(source: &TrackInputSource) -> (r: TrackInputRoute)
    ensures
        r == route_of(*source),
{
    match monitor_channel_pair(source.channels.as_slice()) {
        Some(pair) => TrackInputRoute::Pair { left: pair.0, right: pair.1 },
        None => TrackInputRoute::Unrouted,
    }
}

/// What noting a track's input in the stored graph does.
pub open spec fn input_shown(
    before: EngineInner,
    after: EngineInner,
    index: int,
    record_armed: bool,
    monitor_enabled: bool,
    input_source: TrackInputRoute,
) -> bool {
    &&& after == (EngineInner { runtime: after.runtime, ..before })
    &&& runtime::track_input_set(
        before.runtime,
        after.runtime,
        index,
        record_armed,
        monitor_enabled,
        input_source,
    )
}

/// The route that a track had before an edit.
pub open spec fn old_source(track: TrackSnapshot, edit: InputEdit) -> TrackInputSource {
    match edit.old_source {
        Some(source) => source,
        None => track.input_source,
    }
}

/// What committing an edit does: the stored graph takes it over before the
/// callback is told. It stands unless the callback refused it, and then graph
/// and project are as before.
pub open spec fn edit_committed(
    before: EngineInner,
    after: EngineInner,
    edit: InputEdit,
    r: Result<(), SphereAudioError>,
    action: Option<Result<InputAction, SphereAudioError>>,
) -> bool {
    let track = before.project->0.tracks@[edit.track_index as int];
    exists|shown: EngineInner, told: EngineInner, sent: Result<(), SphereAudioError>|
        {
            &&& #[trigger] input_shown(
                before,
                shown,
                edit.track_index as int,
                track.armed,
                track.input_monitor,
                route_of(track.input_source),
            )
            &&& #[trigger] inner::handed_over(
                shown,
                told,
                input_command(track, edit.track_index),
                sent,
            )
            &&& if sent is Ok || sent == Err::<(), _>(SphereAudioError::EngineNotOpen) {
                &&& r is Ok
                &&& action is None
                &&& after == (EngineInner {
                    input_state_revision: state::counted(before.input_state_revision),
                    ..told
                })
            } else {
                &&& r == sent
                &&& action is Some
                &&& exists|reverted: EngineInner|
                    #[trigger] input_shown(
                        told,
                        reverted,
                        edit.track_index as int,
                        edit.old_armed,
                        edit.old_monitor,
                        route_of(old_source(track, edit)),
                    ) && edit_cancelled(reverted, after, edit, action->0)
            }
        }
}

} // verus!
