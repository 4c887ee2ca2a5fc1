//! Loading a project, and what is read back of the loaded one.
//!
//! A load runs in two steps around the host's build of the new graph.
//! [`EngineInner::begin_load`] silences the engine and notes where it was;
//! [`EngineInner::install_project`] takes the built graph over, or
//! [`EngineInner::load_refused`] puts the engine back.

use vstd::prelude::*;

use crate::engine::command::EngineCommand;
use crate::engine::command::TempoPoint;
use crate::engine::device::EngineStatus;
use crate::engine::inner;
use crate::engine::inner::EngineInner;
use crate::engine::input::ProjectSnapshot;
use crate::engine::input::TrackInputSource;
use crate::engine::input::TrackSnapshot;
use crate::engine::live;
use crate::engine::live::find_track;
use crate::engine::live::input_route;
use crate::engine::live::InputAction;
use crate::engine::media;
use crate::engine::media::media_in_use;
use crate::engine::media::update_inactive_audio;
use crate::engine::state;
use crate::engine::state::AudioEngineState;
use crate::engine::state::SharedState;
use crate::error;
use crate::error::GraphValidationError;
use crate::error::SphereAudioError;
use crate::runtime;
use crate::runtime::RuntimeProject;
use crate::text;
use crate::text::copy_optional;
use crate::text::join;
use crate::text::str_eq;

verus! {

// ── Beginning ───────────────────────────────────────────────────────────────

/// Where the engine was when a load began.
#[derive(Debug)]
pub struct LoadStart {
    /// Input edits that were taken over by then.
    pub revision: u64,
    pub old_state: AudioEngineState,
    /// Rate to build the graph for.
    pub output_sample_rate: u32,
    /// Media files that clips used.
    pub previously_active: Vec<String>,
}

/// The media files that the loaded project's clips use.
pub open spec fn project_media(project: Option<ProjectSnapshot>) -> Seq<Seq<char>> {
    match project {
        Some(p) => media::used_paths(p.media_paths@),
        None => Seq::empty(),
    }
}

impl EngineInner {
    /// Begin a load: the engine is silent until the new graph is in place.
    pub fn begin_load(&mut self) -> (r: LoadStart)
        ensures
            *final(self) == (EngineInner {
                shared: SharedState {
                    engine_state: AudioEngineState::LoadingProject.number(),
                    ..old(self).shared
                },
                ..*old(self)
            }),
            r.revision == old(self).input_state_revision,
            r.old_state == AudioEngineState::of_number(old(self).shared.engine_state),
            r.output_sample_rate == state::at_least_one(old(self).shared.sample_rate),
            text::texts(r.previously_active@) == project_media(old(self).project),
    {
        let old_state: AudioEngineState = AudioEngineState::from_u8(self.shared.engine_state);
        self.shared.engine_state = AudioEngineState::LoadingProject.as_u8();
        let previously_active: Vec<String> = match &self.project {
            Some(p) => media_in_use(&p.media_paths),
            None => Vec::new(),
        };
        proof {
            if self.project is None {
                assert(text::texts(previously_active@) =~= Seq::<Seq<char>>::empty());
            }
        }
        LoadStart {
            revision: self.input_state_revision,
            old_state,
            output_sample_rate: state::one_or_more(self.shared.sample_rate),
            previously_active,
        }
    }

    /// Give up a load whose graph was refused: the engine is where it was.
    pub fn load_refused(&mut self, start: &LoadStart, why: GraphValidationError) -> (r:
        SphereAudioError)
        ensures
            *final(self) == (EngineInner {
                shared: SharedState {
                    engine_state: start.old_state.number(),
                    ..old(self).shared
                },
                ..*old(self)
            }),
            r matches SphereAudioError::InvalidRoutingGraph(s) && s@ == error::graph_error_text(
                why,
            ),
    {
        self.shared.engine_state = start.old_state.as_u8();
        SphereAudioError::from(why)
    }

    /// Keep the media files that the new project uses, and a few of those that
    /// just went out of use; close the rest and give them back.
    pub fn retain_media(&mut self, start: &LoadStart, snapshot: &ProjectSnapshot) -> (r: Vec<
        String,
    >)
        ensures
            ({
                let all = media::unused_files(
                    text::texts(old(self).inactive_audio_cache_lru@),
                    text::texts(start.previously_active@),
                    media::used_paths(snapshot.media_paths@),
                    text::texts(old(self).audio_cache@),
                );
                let cut = media::surplus(all.len()) as int;
                &&& text::texts(final(self).inactive_audio_cache_lru@) == all.skip(cut)
                &&& text::texts(r@) == all.take(cut)
                &&& text::texts(final(self).audio_cache@) == media::without(
                    text::texts(old(self).audio_cache@),
                    all.take(cut),
                )
                &&& *final(self) == (EngineInner {
                    inactive_audio_cache_lru: final(self).inactive_audio_cache_lru,
                    audio_cache: final(self).audio_cache,
                    ..*old(self)
                })
            }),
    {
        let active: Vec<String> = media_in_use(&snapshot.media_paths);
        update_inactive_audio(
            &mut self.inactive_audio_cache_lru,
            &mut self.audio_cache,
            &start.previously_active,
            &active,
        )
    }
}

/// A load that was refused leaves the engine as it was.
pub proof fn law_refused_load_changes_nothing(
    before: EngineInner,
    loading: EngineInner,
    after: EngineInner,
    start: LoadStart,
)
    requires
        before.shared.engine_state == AudioEngineState::of_number(
            before.shared.engine_state,
        ).number(),
        loading == (EngineInner {
            shared: SharedState {
                engine_state: AudioEngineState::LoadingProject.number(),
                ..before.shared
            },
            ..before
        }),
        start.old_state == AudioEngineState::of_number(before.shared.engine_state),
        after == (EngineInner {
            shared: SharedState { engine_state: start.old_state.number(), ..loading.shared },
            ..loading
        }),
    ensures
        after == before,
{
}

// ── Newer input edits ───────────────────────────────────────────────────────

/// A track of a new project with the input state that the loaded project's
/// track of the same id has, if there is one.
pub open spec fn merged_track(t: TrackSnapshot, current: Seq<TrackSnapshot>) -> TrackSnapshot {
    match live::track_with_id(current, t.id@, 0) {
        Some(i) => TrackSnapshot {
            armed: current[i].armed,
            input_monitor: current[i].input_monitor,
            input_source: current[i].input_source,
            ..t
        },
        None => t,
    }
}

/// Whether `t` is `spec` with its route's parts compared by what they hold.
pub open spec fn same_track(t: TrackSnapshot, u: TrackSnapshot) -> bool {
    &&& t.id == u.id
    &&& t.track_type == u.track_type
    &&& t.armed == u.armed
    &&& t.input_monitor == u.input_monitor
    &&& t.input_source.same_as(u.input_source)
}

/// Whether input edits that came in since `revision` belong to the project that
/// is being loaded.
pub open spec fn has_newer_input(e: EngineInner, revision: u64, snapshot: ProjectSnapshot) -> bool {
    e.input_state_revision != revision && (e.project matches Some(current) && current.project_id@
        == snapshot.project_id@)
}

/// Whether `merged` is the new project with newer input edits carried over.
pub open spec fn input_merged(
    e: EngineInner,
    revision: u64,
    snapshot: ProjectSnapshot,
    merged: ProjectSnapshot,
) -> bool {
    &&& merged == (ProjectSnapshot { tracks: merged.tracks, ..snapshot })
    &&& if has_newer_input(e, revision, snapshot) {
        &&& merged.tracks@.len() == snapshot.tracks@.len()
        &&& forall|i: int|
            0 <= i < merged.tracks@.len() ==> same_track(
                #[trigger] merged.tracks@[i],
                merged_track(snapshot.tracks@[i], e.project->0.tracks@),
            )
    } else {
        merged.tracks@ == snapshot.tracks@
    }
}

fn copy_source(s: &TrackInputSource) -> (r: TrackInputSource)
    ensures
        r.same_as(*s),
{
    let mut channels: Vec<u32> = Vec::new();
    let mut i: usize = 0;
    while i < s.channels.len()
        invariant
            i <= s.channels@.len(),
            channels@ == s.channels@.take(i as int),
        decreases s.channels@.len() - i,
    {
        channels.push(s.channels[i]);
        proof {
            assert(channels@ =~= s.channels@.take(i + 1));
        }
        i = i + 1;
    }
    proof {
        assert(s.channels@.take(s.channels@.len() as int) =~= s.channels@);
    }
    TrackInputSource { device_id: copy_optional(&s.device_id), channels }
}

fn merge_tracks(tracks: &mut Vec<TrackSnapshot>, current: &Vec<TrackSnapshot>)
    ensures
        final(tracks)@.len() == old(tracks)@.len(),
        forall|i: int|
            0 <= i < final(tracks)@.len() ==> same_track(
                #[trigger] final(tracks)@[i],
                merged_track(old(tracks)@[i], current@),
            ),
{
    let ghost before = tracks@;
    let mut i: usize = 0;
    while i < tracks.len()
        invariant
            i <= tracks@.len(),
            tracks@.len() == before.len(),
            forall|j: int|
                0 <= j < i ==> same_track(
                    #[trigger] tracks@[j],
                    merged_track(before[j], current@),
                ),
            forall|j: int| i <= j < tracks@.len() ==> #[trigger] tracks@[j] == before[j],
        decreases tracks@.len() - i,
    {
        if let Some(k) = find_track(current, &tracks[i].id) {
            let source: TrackInputSource = copy_source(&current[k].input_source);
            let armed: bool = current[k].armed;
            let monitor: bool = current[k].input_monitor;
            let track: &mut TrackSnapshot = &mut tracks[i];
            track.armed = armed;
            track.input_monitor = monitor;
            track.input_source = source;
        }
        i = i + 1;
    }
}

impl EngineInner {
    /// Carry newer input edits over into a project that is being loaded.
    fn merge_newer_input(&self, revision: u64, snapshot: ProjectSnapshot) -> (r: ProjectSnapshot)
        ensures
            input_merged(*self, revision, snapshot, r),
    {
        let mut merged: ProjectSnapshot = snapshot;
        if self.input_state_revision != revision {
            if let Some(current) = &self.project {
                if str_eq(&current.project_id, &merged.project_id) {
                    merge_tracks(&mut merged.tracks, &current.tracks);
                }
            }
        }
        merged
    }
}

/// An input edit that came in while its project was being loaded is not lost:
/// the track is armed, monitored and routed as the edit left it.
pub proof fn law_newer_input_edit_survives_a_load(
    e: EngineInner,
    revision: u64,
    snapshot: ProjectSnapshot,
    merged: ProjectSnapshot,
    i: int,
    k: int,
)
    requires
        input_merged(e, revision, snapshot, merged),
        has_newer_input(e, revision, snapshot),
        0 <= i < merged.tracks@.len(),
        live::track_with_id(e.project->0.tracks@, snapshot.tracks@[i].id@, 0) == Some(k),
    ensures
        merged.tracks@[i].armed == e.project->0.tracks@[k].armed,
        merged.tracks@[i].input_monitor == e.project->0.tracks@[k].input_monitor,
        merged.tracks@[i].input_source.same_as(e.project->0.tracks@[k].input_source),
{
    assert(same_track(
        merged.tracks@[i],
        merged_track(snapshot.tracks@[i], e.project->0.tracks@),
    ));
}

// ── Installing ──────────────────────────────────────────────────────────────

/// The engine with a project and its graph stored; `input_error` is why live
/// input is not available, if it is not.
pub open spec fn project_stored(
    before: EngineInner,
    after: EngineInner,
    project: ProjectSnapshot,
    graph: RuntimeProject,
    input_error: Option<Seq<char>>,
) -> bool {
    &&& after == (EngineInner {
        status: EngineStatus { last_error: after.status.last_error, ..before.status },
        runtime: graph,
        project: Some(project),
        ..before
    })
    &&& match input_error {
        Some(why) => text::optional(after.status.last_error) == Some(
            "Live input unavailable: "@ + why,
        ),
        None => after.status.last_error == before.status.last_error,
    }
}

/// Why live input is not available, if it is not.
pub open spec fn why_no_input(action: Result<InputAction, SphereAudioError>) -> Option<Seq<char>> {
    match action {
        Ok(_) => None,
        Err(e) => Some(e.text()),
    }
}

/// The lifecycle state after a graph was handed to the callback: the callback
/// itself leaves the loading state; without a stream the engine is paused; and
/// where the callback refused, the engine is where it was.
pub open spec fn state_after_load(
    loading: u8,
    old_state: AudioEngineState,
    sent: Result<(), SphereAudioError>,
) -> u8 {
    match sent {
        Ok(_) => loading,
        Err(SphereAudioError::EngineNotOpen) => AudioEngineState::Paused.number(),
        Err(_) => old_state.number(),
    }
}

/// Whether track `i` of a project that is being loaded has a newer input edit.
pub open spec fn edited_since(
    e: EngineInner,
    revision: u64,
    snapshot: ProjectSnapshot,
    i: int,
) -> bool {
    &&& has_newer_input(e, revision, snapshot)
    &&& 0 <= i < snapshot.tracks@.len()
    &&& live::track_with_id(e.project->0.tracks@, snapshot.tracks@[i].id@, 0) is Some
}

/// Whether `after` is a graph with newer input edits carried over into its
/// tracks, as `merged` has them.
pub open spec fn graph_merged(
    e: EngineInner,
    revision: u64,
    snapshot: ProjectSnapshot,
    merged: ProjectSnapshot,
    before: RuntimeProject,
    after: RuntimeProject,
) -> bool {
    &&& after == (RuntimeProject { tracks: after.tracks, ..before })
    &&& after.tracks@.len() == before.tracks@.len()
    &&& forall|i: int|
        #![trigger after.tracks@[i]]
        0 <= i < after.tracks@.len() ==> after.tracks@[i] == if edited_since(
            e,
            revision,
            snapshot,
            i,
        ) {
            runtime::input_set(
                before.tracks@[i],
                merged.tracks@[i].armed,
                merged.tracks@[i].input_monitor,
                live::route_of(merged.tracks@[i].input_source),
            )
        } else {
            before.tracks@[i]
        }
}

/// An input edit that came in while its project was being loaded is not lost to
/// the callback either: the graph that it is handed has the track armed,
/// monitored and routed as the edit left it.
pub proof fn law_newer_input_edit_reaches_the_callback(
    e: EngineInner,
    revision: u64,
    snapshot: ProjectSnapshot,
    merged: ProjectSnapshot,
    before: RuntimeProject,
    after: RuntimeProject,
    i: int,
    k: int,
)
    requires
        input_merged(e, revision, snapshot, merged),
        graph_merged(e, revision, snapshot, merged, before, after),
        has_newer_input(e, revision, snapshot),
        0 <= i < snapshot.tracks@.len(),
        i < before.tracks@.len(),
        live::track_with_id(e.project->0.tracks@, snapshot.tracks@[i].id@, 0) == Some(k),
    ensures
        after.tracks@[i].record_armed == e.project->0.tracks@[k].armed,
        after.tracks@[i].monitor_enabled == e.project->0.tracks@[k].input_monitor,
        after.tracks@[i].input_source == live::route_of(e.project->0.tracks@[k].input_source),
{
    law_newer_input_edit_survives_a_load(e, revision, snapshot, merged, i, k);
    assert(edited_since(e, revision, snapshot, i));
}

/// What installing a project does.
pub open spec fn installed(
    before: EngineInner,
    after: EngineInner,
    start: LoadStart,
    snapshot: ProjectSnapshot,
    graph: RuntimeProject,
    for_callback: Box<RuntimeProject>,
    r: Result<(), SphereAudioError>,
    action: Result<InputAction, SphereAudioError>,
) -> bool {
    exists|
        merged: ProjectSnapshot,
        kept: RuntimeProject,
        handed: Box<RuntimeProject>,
        synced: EngineInner,
        stored: EngineInner,
        told: EngineInner,
        sent: Result<(), SphereAudioError>,
    |
        {
            &&& #[trigger] input_merged(before, start.revision, snapshot, merged)
            &&& #[trigger] graph_merged(before, start.revision, snapshot, merged, graph, kept)
            &&& #[trigger] graph_merged(
                before,
                start.revision,
                snapshot,
                merged,
                *for_callback,
                *handed,
            )
            &&& #[trigger] live::input_synced(
                before,
                synced,
                merged.tracks@,
                merged.preferred_input_device,
                action,
            )
            &&& #[trigger] project_stored(
                synced,
                stored,
                merged,
                kept,
                why_no_input(action),
            )
            &&& #[trigger] inner::handed_over(
                stored,
                told,
                EngineCommand::LoadProject(handed),
                sent,
            )
            &&& load_settled(told, after, timing_of(merged), start.old_state, sent, r)
        }
}

/// An engine in another lifecycle state.
pub open spec fn with_state(e: EngineInner, number: u8) -> EngineInner {
    EngineInner { shared: SharedState { engine_state: number, ..e.shared }, ..e }
}

/// What follows the hand-over of a graph: the lifecycle state settles, and
/// unless the callback refused, tempo and time signature follow the project.
pub open spec fn load_settled(
    before: EngineInner,
    after: EngineInner,
    timing: Timing,
    old_state: AudioEngineState,
    sent: Result<(), SphereAudioError>,
    r: Result<(), SphereAudioError>,
) -> bool {
    let settled = with_state(
        before,
        state_after_load(before.shared.engine_state, old_state, sent),
    );
    match sent {
        Err(SphereAudioError::EngineNotOpen) => r is Ok && timing_follows(settled, after, timing),
        Err(e) => r == Err::<(), _>(e) && after == settled,
        Ok(_) => r is Ok && timing_follows(settled, after, timing),
    }
}

/// What making tempo and time signature follow a project does.
#[verifier::opaque]
pub open spec fn timing_follows(before: EngineInner, after: EngineInner, timing: Timing) -> bool {
    exists|
        timed: EngineInner,
        r1: Result<(), SphereAudioError>,
        r2: Result<(), SphereAudioError>,
    |
        {
            &&& #[trigger] inner::tempo_set(before, timed, timing.bpm, timing.points, r1)
            &&& #[trigger] inner::handed_over(
                signature_stored(timed, timing.signature),
                after,
                EngineCommand::SetTimeSignature(timing.signature.0, timing.signature.1),
                r2,
            )
        }
}

/// The tempo and time signature of a project.
pub struct Timing {
    pub bpm: u64,
    pub points: Seq<TempoPoint>,
    pub signature: (u32, u32),
}

/// The tempo and time signature of a project.
pub open spec fn timing_of(project: ProjectSnapshot) -> Timing {
    Timing {
        bpm: project.bpm,
        points: project.tempo_points@,
        signature: project.time_signature,
    }
}

/// An engine that shows a time signature.
pub open spec fn signature_stored(e: EngineInner, signature: (u32, u32)) -> EngineInner {
    EngineInner {
        shared: SharedState {
            time_sig_num: state::at_least_one(signature.0),
            time_sig_den: state::at_least_one(signature.1),
            ..e.shared
        },
        ..e
    }
}

impl EngineInner {
    /// Store a project and its graph.
    fn store_project(
        &mut self,
        project: ProjectSnapshot,
        graph: RuntimeProject,
        input_error: Option<String>,
    )
        ensures
            project_stored(
                *old(self),
                *final(self),
                project,
                graph,
                text::optional(input_error),
            ),
    {
        if let Some(why) = input_error {
            self.status.last_error = Some(join("Live input unavailable: ", &why));
        }
        self.runtime = graph;
        self.project = Some(project);
    }

    /// Make tempo and time signature follow the loaded project.
    fn follow_timing(&mut self, bpm: u64, points: Vec<TempoPoint>, signature: (u32, u32))
        ensures
            timing_follows(*old(self), *final(self), (Timing { bpm, points: points@, signature })),
    {
        let ghost before = *self;
        let r1 = self.set_tempo_map(bpm, points);
        let ghost timed = *self;
        let r2 = self.set_time_signature(signature.0, signature.1);
        proof {
            reveal(timing_follows);
            let timing = Timing { bpm, points: points@, signature };
            assert(inner::tempo_set(before, timed, timing.bpm, timing.points, r1));
            assert(inner::handed_over(
                signature_stored(timed, timing.signature),
                *self,
                EngineCommand::SetTimeSignature(timing.signature.0, timing.signature.1),
                r2,
            ));
            assert(timing_follows(before, *self, timing));
        }
    }

    fn enter_state(&mut self, number: u8)
        ensures
            *final(self) == with_state(*old(self), number),
    {
        self.shared.engine_state = number;
    }

    /// Settle the lifecycle state once the callback was handed a graph.
    fn settle_load(
        &mut self,
        old_state: AudioEngineState,
        sent: Result<(), SphereAudioError>,
        bpm: u64,
        points: Vec<TempoPoint>,
        signature: (u32, u32),
    ) -> (r: Result<(), SphereAudioError>)
        ensures
            load_settled(
                *old(self),
                *final(self),
                (Timing { bpm, points: points@, signature }),
                old_state,
                sent,
                r,
            ),
    {
        let settled: u8 = match &sent {
            Ok(_) => self.shared.engine_state,
            Err(SphereAudioError::EngineNotOpen) => AudioEngineState::Paused.as_u8(),
            Err(_) => old_state.as_u8(),
        };
        self.enter_state(settled);
        match sent {
            Ok(_) => {},
            Err(SphereAudioError::EngineNotOpen) => {},
            Err(e) => {
                return Err(e);
            },
        }
        self.follow_timing(bpm, points, signature);
        Ok(())
    }

    /// Carry newer input edits over into a graph that was built without them.
    fn carry_input(
        &self,
        revision: u64,
        snapshot: Ghost<ProjectSnapshot>,
        merged: &ProjectSnapshot,
        graph: &mut RuntimeProject,
    )
        requires
            input_merged(*self, revision, snapshot@, *merged),
        ensures
            graph_merged(*self, revision, snapshot@, *merged, *old(graph), *final(graph)),
    {
        let ghost before = *graph;
        if self.input_state_revision == revision {
            return;
        }
        let current: &ProjectSnapshot = match &self.project {
            Some(current) => current,
            None => {
                return;
            },
        };
        if !str_eq(&current.project_id, &merged.project_id) {
            return;
        }
        let mut i: usize = 0;
        while i < merged.tracks.len()
            invariant
                i <= merged.tracks@.len(),
                has_newer_input(*self, revision, snapshot@),
                input_merged(*self, revision, snapshot@, *merged),
                current == self.project->0,
                *graph == (RuntimeProject { tracks: graph.tracks, ..before }),
                graph.tracks@.len() == before.tracks@.len(),
                forall|j: int|
                    #![trigger graph.tracks@[j]]
                    0 <= j < graph.tracks@.len() ==> graph.tracks@[j] == if j < i && edited_since(
                        *self,
                        revision,
                        snapshot@,
                        j,
                    ) {
                        runtime::input_set(
                            before.tracks@[j],
                            merged.tracks@[j].armed,
                            merged.tracks@[j].input_monitor,
                            live::route_of(merged.tracks@[j].input_source),
                        )
                    } else {
                        before.tracks@[j]
                    },
            decreases merged.tracks@.len() - i,
        {
            let track: &TrackSnapshot = &merged.tracks[i];
            proof {
                assert(same_track(
                    merged.tracks@[i as int],
                    merged_track(snapshot@.tracks@[i as int], current.tracks@),
                ));
            }
            if find_track(&current.tracks, &track.id).is_some() {
                graph.update_track_input_state(
                    i,
                    track.armed,
                    track.input_monitor,
                    input_route(&track.input_source),
                );
            }
            i = i + 1;
        }
    }

    /// Take over a built graph and its project. Input edits that came in while
    /// it was built are carried over into the project and into both graphs, live
    /// input is brought in step, and the callback is handed its graph. The second value is what the host does
    /// about its capture stream.
    pub fn install_project(
        &mut self,
        start: &LoadStart,
        snapshot: ProjectSnapshot,
        graph: RuntimeProject,
        for_callback: Box<RuntimeProject>,
    ) -> (r: (Result<(), SphereAudioError>, Result<InputAction, SphereAudioError>))
        ensures
            installed(
                *old(self),
                *final(self),
                *start,
                snapshot,
                graph,
                for_callback,
                r.0,
                r.1,
            ),
    {
        let ghost before = *self;
        let merged: ProjectSnapshot = self.merge_newer_input(start.revision, snapshot);
        let mut kept: RuntimeProject = graph;
        self.carry_input(start.revision, Ghost(snapshot), &merged, &mut kept);
        let mut handed: RuntimeProject = *for_callback;
        self.carry_input(start.revision, Ghost(snapshot), &merged, &mut handed);
        let action: Result<InputAction, SphereAudioError> = self.sync_live_input_stream(
            &merged.tracks,
            &merged.preferred_input_device,
        );
        let ghost synced = *self;
        let bpm: u64 = merged.bpm;
        let points: Vec<TempoPoint> = inner::copy_points(&merged.tempo_points);
        let signature: (u32, u32) = merged.time_signature;
        let input_error: Option<String> = match &action {
            Ok(_) => None,
            Err(e) => Some(e.to_string()),
        };
        let handed: Box<RuntimeProject> = Box::new(handed);
        self.store_project(merged, kept, input_error);
        let ghost stored = *self;
        let sent: Result<(), SphereAudioError> = self.send_command(
            EngineCommand::LoadProject(handed),
        );
        let ghost told = *self;
        proof {
            assert(input_merged(before, start.revision, snapshot, merged));
            assert(live::input_synced(
                before,
                synced,
                merged.tracks@,
                merged.preferred_input_device,
                action,
            ));
            assert(graph_merged(before, start.revision, snapshot, merged, graph, kept));
            assert(graph_merged(
                before,
                start.revision,
                snapshot,
                merged,
                *for_callback,
                *handed,
            ));
            assert(project_stored(
                synced,
                stored,
                merged,
                kept,
                why_no_input(action),
            ));
            assert(inner::handed_over(
                stored,
                told,
                EngineCommand::LoadProject(handed),
                sent,
            ));
        }
        let r: Result<(), SphereAudioError> = self.settle_load(
            start.old_state,
            sent,
            bpm,
            points,
            signature,
        );
        proof {
            assert(load_settled(told, *self, timing_of(merged), start.old_state, sent, r));
        }
        (r, action)
    }
}

/// A load never leaves the engine wedged in silence: only a callback that took
/// the graph, and ends the loading state itself, leaves it loading.
pub proof fn law_load_never_wedges(
    old_state: AudioEngineState,
    sent: Result<(), SphereAudioError>,
)
    requires
        old_state != AudioEngineState::LoadingProject,
    ensures
        state_after_load(AudioEngineState::LoadingProject.number(), old_state, sent)
            == AudioEngineState::LoadingProject.number() <==> sent is Ok,
{
}

// ── The graph that a new stream starts with ─────────────────────────────────

/// Where a new stream's graph comes from.
#[derive(Clone, Copy, Debug, PartialEq, Eq, Structural)]
pub enum InitialRuntime {
    /// The graph that is already built.
    Cached,
    /// A graph built from the loaded project; the stored one if that fails.
    Build,
    /// The stored graph, though it is empty.
    Previous,
}

impl EngineInner {
    /// Where a new stream's graph comes from, and the rate that it runs at. A
    /// built graph is never built again: that would decode every clip anew.
    pub fn get_initial_runtime(&self, sample_rate: Option<u32>) -> (r: (InitialRuntime, u32))
        ensures
            r.0 == if self.runtime.tracks@.len() > 0 {
                InitialRuntime::Cached
            } else if self.project is Some {
                InitialRuntime::Build
            } else {
                InitialRuntime::Previous
            },
            r.1 == match sample_rate {
                Some(rate) => rate,
                None => if self.shared.sample_rate > 44100 {
                    self.shared.sample_rate
                } else {
                    44100
                },
            },
    {
        let rate: u32 = match sample_rate {
            Some(rate) => rate,
            None => if self.shared.sample_rate > 44100 {
                self.shared.sample_rate
            } else {
                44100
            },
        };
        let source: InitialRuntime = if self.runtime.tracks.len() > 0 {
            InitialRuntime::Cached
        } else if self.project.is_some() {
            InitialRuntime::Build
        } else {
            InitialRuntime::Previous
        };
        (source, rate)
    }
}

} // verus!
