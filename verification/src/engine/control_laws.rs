//! What the engine's own operations do: handing commands over, keeping media
//! open, loading a project, and changing a track's input.

use vstd::prelude::*;

use crate::engine::command;
use crate::engine::command::EngineCommand;
use crate::engine::command::TempoPoint;
use crate::engine::command::TimeSignaturePoint;
use crate::engine::command::TrackInputRoute;
use crate::engine::inner;
use crate::engine::inner::EngineInner;
use crate::engine::inner::ParamValue;
use crate::engine::input::ProjectSnapshot;
use crate::engine::input::TrackInputSource;
use crate::engine::input::TrackSnapshot;
use crate::engine::input_laws;
use crate::engine::live;
use crate::engine::live::InputAction;
use crate::engine::live::InputEdit;
use crate::engine::media;
use crate::engine::project;
use crate::engine::project::LoadStart;
use crate::engine::state;
use crate::engine::state::AudioEngineState;
use crate::error::SphereAudioError;
use crate::runtime::RuntimeProject;
use crate::text;

verus! {

// ── Commands ────────────────────────────────────────────────────────────────

/// Whether any stream takes commands.
pub open spec fn takes_commands(e: EngineInner) -> bool {
    e.cmd_tx is Some || (e.active_stream is Some && e.active_stream->0.tx is Some)
}

/// Whether the native stream takes the commands.
pub open spec fn native_takes_commands(e: EngineInner) -> bool {
    e.active_stream is Some && e.active_stream->0.tx is Some
}

/// A command goes to the native stream where one takes commands, and otherwise
/// to the other stream; with no stream it is refused as such. One that was taken
/// stands behind all that were placed before it, and one that was not leaves the
/// channel as it was. The other stream's channel is never touched.
pub proof fn law_commands_go_to_the_stream_that_runs(
    before: EngineInner,
    after: EngineInner,
    command: EngineCommand,
    r: Result<(), SphereAudioError>,
)
    requires
        inner::handed_over(before, after, command, r),
    ensures
        !takes_commands(before) <==> r == Err::<(), _>(SphereAudioError::EngineNotOpen),
        native_takes_commands(before) ==> after.cmd_tx == before.cmd_tx && native_takes_commands(
            after,
        ) && command::placed(after.active_stream->0.tx->0) == if r is Ok {
            command::placed(before.active_stream->0.tx->0).push(command)
        } else {
            command::placed(before.active_stream->0.tx->0)
        },
        takes_commands(before) && !native_takes_commands(before) ==> after.active_stream
            == before.active_stream && after.cmd_tx is Some && command::placed(after.cmd_tx->0)
            == if r is Ok {
            command::placed(before.cmd_tx->0).push(command)
        } else {
            command::placed(before.cmd_tx->0)
        },
        after.project == before.project,
        after.runtime == before.runtime,
        after.shared == before.shared,
        after.status == before.status,
{
}

/// Each parameter of a track has a command of its own that carries the track's
/// name and the value; the switches are on for every value but the two zeros. No
/// other name has a command.
pub proof fn law_each_parameter_has_its_command(
    track_id: Seq<char>,
    param_id: Seq<char>,
    value: ParamValue,
    command: EngineCommand,
)
    requires
        inner::track_param_command(track_id, param_id, value, command),
    ensures
        inner::known_track_param(param_id),
        command matches EngineCommand::SetTrackVolume { track_id: id, value: v } ==> param_id
            == "volume"@ && id@ == track_id && v == value.single,
        command matches EngineCommand::SetTrackPan { track_id: id, value: v } ==> param_id
            == "pan"@ && id@ == track_id && v == value.single,
        command matches EngineCommand::SetTrackMute { track_id: id, muted } ==> param_id
            == "muted"@ && id@ == track_id && (!muted <==> value.exact == 0 || value.exact
            == 0x8000_0000_0000_0000),
        command matches EngineCommand::SetTrackSolo { track_id: id, solo } ==> param_id
            == "solo"@ && id@ == track_id && (!solo <==> value.exact == 0 || value.exact
            == 0x8000_0000_0000_0000),
        command matches EngineCommand::SetTrackPreviewMode { track_id: id, value: v } ==> param_id
            == "previewMode"@ && id@ == track_id && v == value.single,
        command is SetTrackVolume || command is SetTrackPan || command is SetTrackMute
            || command is SetTrackSolo || command is SetTrackPreviewMode,
{
}

/// Volume, pan, mute, solo and preview mode are the parameters of a track.
pub proof fn law_a_track_has_five_parameters(param_id: Seq<char>)
    ensures
        inner::known_track_param(param_id) <==> (param_id == "volume"@ || param_id == "pan"@
            || param_id == "muted"@ || param_id == "solo"@ || param_id == "previewMode"@),
{
}

/// A master volume is held between silence and twice the level: what lies there
/// stays, holding it again changes nothing, and a louder one never becomes
/// softer than a softer one. A negative one is silent.
pub proof fn law_master_volume_is_held(a: u32, b: u32)
    ensures
        a <= 0x4000_0000 ==> inner::held_volume(a) == a,
        a <= 0x7f80_0000 ==> inner::held_volume(a) <= 0x4000_0000,
        inner::held_volume(inner::held_volume(a)) == inner::held_volume(a),
        a <= b <= 0x7f80_0000 ==> inner::held_volume(a) <= inner::held_volume(b),
        0x8000_0000 < a <= 0xff80_0000 ==> inner::held_volume(a) == 0,
{
}

/// The signature that is shown is the first of the map, and without one the
/// signature that was shown; neither of its numbers is ever zero where the map
/// gives it.
pub proof fn law_shown_signature_is_the_first(points: Seq<TimeSignaturePoint>, num: u32, den: u32)
    ensures
        points.len() == 0 ==> inner::shown_signature(points, num, den) == (num, den),
        points.len() > 0 ==> inner::shown_signature(points, num, den).0 > 0
            && inner::shown_signature(points, num, den).1 > 0,
        points.len() > 0 && points[0].numerator > 0 ==> inner::shown_signature(points, num, den).0
            == points[0].numerator,
        points.len() > 0 && points[0].denominator > 0 ==> inner::shown_signature(
            points,
            num,
            den,
        ).1 == points[0].denominator,
        points.len() > 0 && points[0].numerator == 0 ==> inner::shown_signature(points, num, den).0
            == 1,
        points.len() > 0 && points[0].denominator == 0 ==> inner::shown_signature(
            points,
            num,
            den,
        ).1 == 1,
{
}

/// The last command that reached the stream which takes them.
pub open spec fn last_placed(e: EngineInner) -> EngineCommand {
    if native_takes_commands(e) {
        command::placed(e.active_stream->0.tx->0).last()
    } else {
        command::placed(e.cmd_tx->0).last()
    }
}

/// A tempo that is set is the one that is shown and that the loaded project has,
/// whether or not a stream heard of it; a stream that took the command is told
/// that tempo and those points.
pub proof fn law_set_tempo_is_shown_stored_and_told(
    before: EngineInner,
    after: EngineInner,
    bpm: u64,
    points: Seq<TempoPoint>,
    r: Result<(), SphereAudioError>,
)
    requires
        inner::tempo_set(before, after, bpm, points, r),
    ensures
        after.shared.bpm_bits == bpm,
        before.project is None <==> after.project is None,
        after.project matches Some(p) ==> p.bpm == bpm && p.tempo_points@ == points && p.tracks
            == before.project->0.tracks && p.project_id == before.project->0.project_id
            && p.media_paths == before.project->0.media_paths && p.time_signature
            == before.project->0.time_signature,
        after.runtime == before.runtime,
        r is Ok ==> (last_placed(after) matches EngineCommand::SetTempoMap {
            default_bpm,
            points: told,
        } && default_bpm == bpm && told@ == points),
{
    let (middle, map) = choose|middle: EngineInner, map: Vec<TempoPoint>|
        map@ == points && #[trigger] inner::tempo_stored(before, middle, bpm, map@)
            && #[trigger] inner::handed_over(
            middle,
            after,
            EngineCommand::SetTempoMap { default_bpm: bpm, points: map },
            r,
        );
    law_commands_go_to_the_stream_that_runs(
        middle,
        after,
        EngineCommand::SetTempoMap { default_bpm: bpm, points: map },
        r,
    );
    assert(r is Ok ==> last_placed(after) == (EngineCommand::SetTempoMap {
        default_bpm: bpm,
        points: map,
    }));
}

/// The tempo that is read back is the loaded project's, and without a project
/// the one that is shown, with no points.
pub proof fn law_tempo_is_read_where_it_is_kept(e: EngineInner)
    ensures
        e.project matches Some(p) ==> inner::current_tempo(e).0 == p.bpm && inner::current_tempo(
            e,
        ).1 == p.tempo_points@,
        e.project is None ==> inner::current_tempo(e).0 == e.shared.bpm_bits
            && inner::current_tempo(e).1.len() == 0,
{
}

/// A test tone that is set is the one that is shown, whether or not a stream
/// heard of it, and a stream that took the command is told the same.
pub proof fn law_test_tone_is_shown_and_told(
    before: EngineInner,
    after: EngineInner,
    enabled: bool,
    frequency: u32,
    r: Result<(), SphereAudioError>,
)
    requires
        inner::tone_set(before, after, enabled, frequency, r),
    ensures
        after.shared.test_tone_enabled == enabled,
        after.shared.test_tone_freq == frequency,
        after.shared.bpm_bits == before.shared.bpm_bits,
        after.project == before.project,
        r is Ok ==> (last_placed(after) matches EngineCommand::SetTestTone {
            enabled: told,
            frequency: at,
        } && told == enabled && at == frequency),
{
}

// ── Media ───────────────────────────────────────────────────────────────────

/// A file is used where some clip names it, and a clip without a file, or with
/// one that has no name, uses none.
pub proof fn law_a_file_is_used_where_a_clip_names_it(paths: Seq<Option<String>>, path: Seq<char>)
    ensures
        media::used_paths(paths).contains(path) <==> path.len() > 0 && exists|i: int|
            0 <= i < paths.len() && (#[trigger] paths[i]) is Some && paths[i]->0@ == path,
    decreases paths.len(),
{
    if paths.len() > 0 {
        let shorter = paths.drop_last();
        law_a_file_is_used_where_a_clip_names_it(shorter, path);
        let rest = media::used_paths(shorter);
        let all = media::used_paths(paths);
        if all.contains(path) {
            let k = choose|k: int| 0 <= k < all.len() && all[k] == path;
            if k < rest.len() {
                assert(rest[k] == path);
                let i = choose|i: int|
                    0 <= i < shorter.len() && (#[trigger] shorter[i]) is Some && shorter[i]->0@
                        == path;
                assert(paths[i] == shorter[i]);
            } else {
                assert(paths[paths.len() - 1] is Some);
            }
        }
        if path.len() > 0 && exists|i: int|
            0 <= i < paths.len() && (#[trigger] paths[i]) is Some && paths[i]->0@ == path {
            let i = choose|i: int|
                0 <= i < paths.len() && (#[trigger] paths[i]) is Some && paths[i]->0@ == path;
            if i < shorter.len() {
                assert(shorter[i] == paths[i]);
                let k = choose|k: int| 0 <= k < rest.len() && rest[k] == path;
                assert(all[k] == path);
            } else {
                assert(all[all.len() - 1] == path);
            }
        }
    }
}

proof fn lemma_without_contains(
    list: Seq<Seq<char>>,
    gone: Seq<Seq<char>>,
    path: Seq<char>,
)
    ensures
        media::without(list, gone).contains(path) <==> list.contains(path) && !gone.contains(path),
    decreases list.len(),
{
    if list.len() > 0 {
        let shorter = list.drop_last();
        lemma_without_contains(shorter, gone, path);
        let rest = media::without(shorter, gone);
        let all = media::without(list, gone);
        if all.contains(path) {
            let k = choose|k: int| 0 <= k < all.len() && all[k] == path;
            if k < rest.len() {
                assert(rest[k] == path);
                let i = choose|i: int| 0 <= i < shorter.len() && shorter[i] == path;
                assert(list[i] == path);
            } else {
                assert(list[list.len() - 1] == path);
            }
        }
        if list.contains(path) && !gone.contains(path) {
            let i = choose|i: int| 0 <= i < list.len() && list[i] == path;
            if i < shorter.len() {
                assert(shorter[i] == path);
                let k = choose|k: int| 0 <= k < rest.len() && rest[k] == path;
                assert(all[k] == path);
            } else {
                assert(all[all.len() - 1] == path);
            }
        }
    }
}

/// A file that is closed is not held any more, and every other file that was
/// held still is.
pub proof fn law_closing_files_leaves_the_others(
    held: Seq<Seq<char>>,
    closed: Seq<Seq<char>>,
    path: Seq<char>,
)
    ensures
        media::without(held, closed).contains(path) <==> held.contains(path) && !closed.contains(
            path,
        ),
{
    lemma_without_contains(held, closed, path);
}

/// What stays of a list stays in its order.
pub proof fn law_closing_files_keeps_the_order(
    held: Seq<Seq<char>>,
    closed: Seq<Seq<char>>,
    i: int,
    j: int,
) -> (places: (int, int))
    requires
        0 <= i < j < media::without(held, closed).len(),
    ensures
        0 <= places.0 < places.1 < held.len(),
        held[places.0] == media::without(held, closed)[i],
        held[places.1] == media::without(held, closed)[j],
    decreases held.len(),
{
    let rest = media::without(held.drop_last(), closed);
    if j < rest.len() {
        let places = law_closing_files_keeps_the_order(held.drop_last(), closed, i, j);
        places
    } else {
        assert(rest[i] == media::without(held, closed)[i]);
        lemma_without_contains(held.drop_last(), closed, rest[i]);
        assert(rest.contains(rest[i]));
        let k = choose|k: int|
            0 <= k < held.drop_last().len() && held.drop_last()[k] == rest[i];
        assert(held[k] == rest[i]);
        (k, held.len() - 1)
    }
}

proof fn lemma_retired(
    list: Seq<Seq<char>>,
    were_used: Seq<Seq<char>>,
    active: Seq<Seq<char>>,
    held: Seq<Seq<char>>,
    path: Seq<char>,
)
    ensures
        media::retired(list, were_used, active, held).contains(path) <==> list.contains(path) || (
        were_used.contains(path) && held.contains(path) && !active.contains(path)),
        media::retired(list, were_used, active, held).len() >= list.len(),
        media::retired(list, were_used, active, held).take(list.len() as int) == list,
    decreases were_used.len(),
{
    let all = media::retired(list, were_used, active, held);
    if were_used.len() > 0 {
        let shorter = were_used.drop_last();
        lemma_retired(list, shorter, active, held, path);
        lemma_retired(list, shorter, active, held, were_used.last());
        let rest = media::retired(list, shorter, active, held);
        assert(all.take(list.len() as int) =~= rest.take(list.len() as int));
        if all.contains(path) {
            let k = choose|k: int| 0 <= k < all.len() && all[k] == path;
            if k < rest.len() {
                assert(rest[k] == path);
                if shorter.contains(path) {
                    let i = choose|i: int| 0 <= i < shorter.len() && shorter[i] == path;
                    assert(were_used[i] == path);
                }
            } else {
                assert(were_used[were_used.len() - 1] == path);
            }
        }
        if rest.contains(path) {
            let k = choose|k: int| 0 <= k < rest.len() && rest[k] == path;
            assert(all[k] == path);
        }
        if were_used.contains(path) && held.contains(path) && !active.contains(path) {
            let i = choose|i: int| 0 <= i < were_used.len() && were_used[i] == path;
            if i < shorter.len() {
                assert(shorter[i] == path);
            } else if !rest.contains(path) {
                assert(all[all.len() - 1] == path);
            }
        }
    } else {
        assert(all.take(list.len() as int) =~= list);
    }
}

/// The files that stay open without a clip are those that no clip uses any more
/// and that were on the list already, or were used before and are held. Those
/// that were on the list stand before those that just went out of use.
pub proof fn law_unused_files_are_those_out_of_use(
    list: Seq<Seq<char>>,
    were_used: Seq<Seq<char>>,
    active: Seq<Seq<char>>,
    held: Seq<Seq<char>>,
    path: Seq<char>,
)
    ensures
        media::unused_files(list, were_used, active, held).contains(path) <==> !active.contains(
            path,
        ) && (list.contains(path) || (were_used.contains(path) && held.contains(path))),
        forall|i: int, j: int|
            0 <= i < j < media::unused_files(list, were_used, active, held).len() && list.contains(
                #[trigger] media::unused_files(list, were_used, active, held)[j],
            ) ==> list.contains(
                #[trigger] media::unused_files(list, were_used, active, held)[i],
            ),
{
    let kept = media::without(list, active);
    lemma_without_contains(list, active, path);
    lemma_retired(kept, were_used, active, held, path);
    let all = media::unused_files(list, were_used, active, held);
    assert forall|i: int, j: int|
        0 <= i < j < all.len() && list.contains(#[trigger] all[j]) implies list.contains(
        #[trigger] all[i],
    ) by {
        lemma_later_is_new(kept, were_used, active, held, j);
        lemma_retired(kept, were_used, active, held, all[j]);
        lemma_without_contains(list, active, all[j]);
        assert(all.contains(all[j]));
        assert(kept.contains(all[j]));
        assert(j < kept.len());
        assert(all.take(kept.len() as int)[i] == kept[i]);
        lemma_without_contains(list, active, all[i]);
        assert(kept.contains(kept[i]));
    }
}

/// What stands behind the list was not on it.
proof fn lemma_later_is_new(
    list: Seq<Seq<char>>,
    were_used: Seq<Seq<char>>,
    active: Seq<Seq<char>>,
    held: Seq<Seq<char>>,
    j: int,
)
    requires
        0 <= j < media::retired(list, were_used, active, held).len(),
    ensures
        list.contains(media::retired(list, were_used, active, held)[j]) ==> j < list.len(),
        !list.contains(media::retired(list, were_used, active, held)[j]) ==> !active.contains(
            media::retired(list, were_used, active, held)[j],
        ),
    decreases were_used.len(),
{
    if were_used.len() > 0 {
        let rest = media::retired(list, were_used.drop_last(), active, held);
        if j < rest.len() {
            lemma_later_is_new(list, were_used.drop_last(), active, held, j);
        } else {
            lemma_retired(list, were_used.drop_last(), active, held, were_used.last());
        }
    } else {
        assert(list.contains(list[j]));
    }
}

/// Four files at most stay open without a clip: with four or fewer none is
/// closed, and of more all but four are.
pub proof fn law_four_unused_files_stay(n: nat)
    ensures
        n <= 4 ==> media::surplus(n) == 0,
        n >= 4 ==> n - media::surplus(n) == 4,
{
}

// ── Loading ─────────────────────────────────────────────────────────────────

/// Whether a track is the first of its id.
pub open spec fn first_of_its_id(tracks: Seq<TrackSnapshot>, i: int) -> bool {
    &&& 0 <= i < tracks.len()
    &&& forall|j: int| 0 <= j < i ==> (#[trigger] tracks[j]).id@ != tracks[i].id@
}

/// A track is found by its id, and of several with one id the first is.
pub proof fn law_track_is_found_by_its_id(tracks: Seq<TrackSnapshot>, id: Seq<char>, from: int)
    requires
        0 <= from,
    ensures
        live::track_with_id(tracks, id, from) matches Some(i) ==> from <= i < tracks.len()
            && tracks[i].id@ == id && forall|j: int| from <= j < i ==> (#[trigger] tracks[j]).id@
            != id,
        live::track_with_id(tracks, id, from) is None ==> forall|j: int|
            from <= j < tracks.len() ==> (#[trigger] tracks[j]).id@ != id,
    decreases tracks.len() - from,
{
    if from < tracks.len() && tracks[from].id@ != id {
        law_track_is_found_by_its_id(tracks, id, from + 1);
    }
}

proof fn lemma_found(tracks: Seq<TrackSnapshot>, k: int)
    requires
        first_of_its_id(tracks, k),
    ensures
        live::track_with_id(tracks, tracks[k].id@, 0) == Some(k),
{
    law_track_is_found_by_its_id(tracks, tracks[k].id@, 0);
    let found = live::track_with_id(tracks, tracks[k].id@, 0);
    match found {
        Some(i) => {
            if i < k {
                assert(tracks[i].id@ != tracks[k].id@);
            }
        },
        None => {
            assert(tracks[k].id@ != tracks[k].id@);
        },
    }
}

/// A load takes the snapshot's tracks as they are where no input was edited
/// meanwhile, or where another project was loaded then.
pub proof fn law_load_takes_the_snapshots_tracks(
    e: EngineInner,
    revision: u64,
    snapshot: ProjectSnapshot,
    merged: ProjectSnapshot,
)
    requires
        project::input_merged(e, revision, snapshot, merged),
        e.input_state_revision == revision || e.project is None || e.project->0.project_id@
            != snapshot.project_id@,
    ensures
        merged.tracks@ == snapshot.tracks@,
{
}

/// An input edit that was made while a project was loaded again survives the
/// load: the track's arming, monitoring and route are the edited ones, and all
/// else of it is the snapshot's. A track that the engine did not have is taken
/// as it is. Nothing but the tracks' input is taken from the engine.
pub proof fn law_load_keeps_newer_input(
    e: EngineInner,
    revision: u64,
    snapshot: ProjectSnapshot,
    merged: ProjectSnapshot,
    i: int,
    k: int,
)
    requires
        project::input_merged(e, revision, snapshot, merged),
        e.input_state_revision != revision,
        e.project is Some,
        e.project->0.project_id@ == snapshot.project_id@,
        0 <= i < snapshot.tracks@.len(),
        first_of_its_id(e.project->0.tracks@, k),
        e.project->0.tracks@[k].id@ == snapshot.tracks@[i].id@,
    ensures
        merged.tracks@.len() == snapshot.tracks@.len(),
        merged.tracks@[i].armed == e.project->0.tracks@[k].armed,
        merged.tracks@[i].input_monitor == e.project->0.tracks@[k].input_monitor,
        merged.tracks@[i].input_source.channels@
            == e.project->0.tracks@[k].input_source.channels@,
        merged.tracks@[i].id == snapshot.tracks@[i].id,
        merged.tracks@[i].track_type == snapshot.tracks@[i].track_type,
        merged.bpm == snapshot.bpm,
        merged.tempo_points == snapshot.tempo_points,
        merged.media_paths == snapshot.media_paths,
        merged.time_signature == snapshot.time_signature,
{
    lemma_found(e.project->0.tracks@, k);
    assert(project::same_track(
        merged.tracks@[i],
        project::merged_track(snapshot.tracks@[i], e.project->0.tracks@),
    ));
}

/// A load whose graph reached the callback leaves the engine loading until the
/// callback answers; with no stream open the engine is paused, and a refused
/// load puts back what the engine did before.
pub proof fn law_state_after_a_load(
    loading: u8,
    old_state: AudioEngineState,
    sent: Result<(), SphereAudioError>,
)
    ensures
        sent is Ok ==> project::state_after_load(loading, old_state, sent) == loading,
        sent == Err::<(), _>(SphereAudioError::EngineNotOpen) ==> AudioEngineState::of_number(
            project::state_after_load(loading, old_state, sent),
        ) == AudioEngineState::Paused,
        sent is Err && sent != Err::<(), _>(SphereAudioError::EngineNotOpen)
            ==> AudioEngineState::of_number(project::state_after_load(loading, old_state, sent))
            == old_state,
{
}

/// What was loaded is what the engine has: the snapshot's timing is shown and
/// stored, its media and its other facts are kept, and the stored graph is the
/// built one with at most the tracks' input changed. Where the callback refused
/// the graph, the project is stored all the same and the error is reported.
pub proof fn law_loaded_project_is_what_the_engine_has(
    before: EngineInner,
    after: EngineInner,
    start: LoadStart,
    snapshot: ProjectSnapshot,
    graph: RuntimeProject,
    for_callback: Box<RuntimeProject>,
    r: Result<(), SphereAudioError>,
    action: Result<InputAction, SphereAudioError>,
)
    requires
        project::installed(before, after, start, snapshot, graph, for_callback, r, action),
    ensures
        after.project is Some,
        after.project->0.project_id == snapshot.project_id,
        after.project->0.media_paths == snapshot.media_paths,
        after.project->0.bpm == snapshot.bpm,
        after.project->0.tempo_points@ == snapshot.tempo_points@,
        after.project->0.time_signature == snapshot.time_signature,
        r is Ok ==> after.shared.bpm_bits == snapshot.bpm,
        r is Ok && snapshot.time_signature.0 > 0 ==> after.shared.time_sig_num
            == snapshot.time_signature.0,
        r is Ok && snapshot.time_signature.1 > 0 ==> after.shared.time_sig_den
            == snapshot.time_signature.1,
        after.runtime.tracks@.len() == graph.tracks@.len(),
        after.runtime == (RuntimeProject { tracks: after.runtime.tracks, ..graph }),
        forall|i: int|
            0 <= i < graph.tracks@.len() ==> (#[trigger] after.runtime.tracks@[i]).id
                == graph.tracks@[i].id && after.runtime.tracks@[i].inserts
                == graph.tracks@[i].inserts && after.runtime.tracks@[i].muted
                == graph.tracks@[i].muted,
        action is Err && r is Err ==> after.status.last_error is Some,
{
    let (merged, kept, handed, synced, stored, told, sent) = choose|
        merged: ProjectSnapshot,
        kept: RuntimeProject,
        handed: Box<RuntimeProject>,
        synced: EngineInner,
        stored: EngineInner,
        told: EngineInner,
        sent: Result<(), SphereAudioError>,
    |
        {
            &&& #[trigger] project::input_merged(before, start.revision, snapshot, merged)
            &&& #[trigger] project::graph_merged(
                before,
                start.revision,
                snapshot,
                merged,
                graph,
                kept,
            )
            &&& #[trigger] project::graph_merged(
                before,
                start.revision,
                snapshot,
                merged,
                *for_callback,
                *handed,
            )
            &&& #[trigger] live::input_synced(
                before,
                synced,
                merged.tracks@,
                merged.preferred_input_device,
                action,
            )
            &&& #[trigger] project::project_stored(
                synced,
                stored,
                merged,
                kept,
                project::why_no_input(action),
            )
            &&& #[trigger] inner::handed_over(
                stored,
                told,
                EngineCommand::LoadProject(handed),
                sent,
            )
            &&& project::load_settled(
                told,
                after,
                project::timing_of(merged),
                start.old_state,
                sent,
                r,
            )
        };
    law_commands_go_to_the_stream_that_runs(
        stored,
        told,
        EngineCommand::LoadProject(handed),
        sent,
    );
    assert(told.project == Some(merged));
    assert(told.runtime == kept);
    assert forall|i: int| 0 <= i < graph.tracks@.len() implies (#[trigger] kept.tracks@[i]).id
        == graph.tracks@[i].id && kept.tracks@[i].inserts == graph.tracks@[i].inserts
        && kept.tracks@[i].muted == graph.tracks@[i].muted by {}
    let settled = project::with_state(
        told,
        project::state_after_load(told.shared.engine_state, start.old_state, sent),
    );
    if r is Ok {
        lemma_timing(settled, after, project::timing_of(merged));
    }
}

proof fn lemma_timing(before: EngineInner, after: EngineInner, timing: project::Timing)
    requires
        project::timing_follows(before, after, timing),
    ensures
        after.shared.bpm_bits == timing.bpm,
        timing.signature.0 > 0 ==> after.shared.time_sig_num == timing.signature.0,
        timing.signature.1 > 0 ==> after.shared.time_sig_den == timing.signature.1,
        after.runtime == before.runtime,
        after.status == before.status,
        before.project is Some ==> after.project is Some && after.project->0.bpm == timing.bpm
            && after.project->0.tempo_points@ == timing.points && after.project->0.project_id
            == before.project->0.project_id && after.project->0.media_paths
            == before.project->0.media_paths && after.project->0.time_signature
            == before.project->0.time_signature && after.project->0.tracks
            == before.project->0.tracks,
{
    reveal(project::timing_follows);
    let (timed, r1, r2) = choose|
        timed: EngineInner,
        r1: Result<(), SphereAudioError>,
        r2: Result<(), SphereAudioError>,
    |
        {
            &&& #[trigger] inner::tempo_set(before, timed, timing.bpm, timing.points, r1)
            &&& #[trigger] inner::handed_over(
                project::signature_stored(timed, timing.signature),
                after,
                EngineCommand::SetTimeSignature(timing.signature.0, timing.signature.1),
                r2,
            )
        };
    law_set_tempo_is_shown_stored_and_told(before, timed, timing.bpm, timing.points, r1);
    let (middle, map) = choose|middle: EngineInner, map: Vec<TempoPoint>|
        map@ == timing.points && #[trigger] inner::tempo_stored(
            before,
            middle,
            timing.bpm,
            map@,
        ) && #[trigger] inner::handed_over(
            middle,
            timed,
            EngineCommand::SetTempoMap { default_bpm: timing.bpm, points: map },
            r1,
        );
    assert(timed.status == before.status);
    law_commands_go_to_the_stream_that_runs(
        project::signature_stored(timed, timing.signature),
        after,
        EngineCommand::SetTimeSignature(timing.signature.0, timing.signature.1),
        r2,
    );
}

// ── Input edits ─────────────────────────────────────────────────────────────

/// No input is changed during a take, without a project, or of a track that the
/// project does not have.
pub proof fn law_input_is_edited_between_takes(
    e: EngineInner,
    track_id: Seq<char>,
    route: Option<TrackInputSource>,
)
    ensures
        e.recording is Some ==> live::edit_refusal(e, track_id, route) is Some,
        e.project is None ==> live::edit_refusal(e, track_id, route) is Some,
        e.project matches Some(p) ==> ((forall|i: int|
            0 <= i < p.tracks@.len() ==> (#[trigger] p.tracks@[i]).id@ != track_id)
            ==> live::edit_refusal(e, track_id, route) is Some),
{
    if let Some(p) = e.project {
        law_track_is_found_by_its_id(p.tracks@, track_id, 0);
    }
}

/// Outside a take, with one or two channels to take and no duplex session open,
/// a track of the project can be changed.
pub proof fn law_input_can_be_edited(
    e: EngineInner,
    k: int,
    route: Option<TrackInputSource>,
    source: TrackInputSource,
)
    requires
        e.recording is None,
        e.project is Some,
        first_of_its_id(e.project->0.tracks@, k),
        route is Some ==> source == route->0,
        route is None ==> source == e.project->0.tracks@[k].input_source,
        source.channels@.len() == 1 || (source.channels@.len() == 2 && source.channels@[0]
            != source.channels@[1]),
        e.asio_caps is None,
    ensures
        live::edit_refusal(e, e.project->0.tracks@[k].id@, route) is None,
{
    lemma_found(e.project->0.tracks@, k);
}

/// An input edit sets the arming, the monitoring and, where one is given, the
/// route of its track, and nothing else of the project. One that failed changes
/// none of the tracks.
pub proof fn law_input_edit_changes_its_track(
    before: EngineInner,
    after: EngineInner,
    armed: bool,
    monitor: bool,
    k: int,
    route: Option<TrackInputSource>,
    r: Result<(InputEdit, InputAction), SphereAudioError>,
)
    requires
        before.project is Some,
        first_of_its_id(before.project->0.tracks@, k),
        k <= usize::MAX,
        live::edit_begun(
            before,
            after,
            armed,
            monitor,
            before.project->0.tracks@[k].id@,
            route,
            r,
        ),
    ensures
        after.project is Some,
        after.project->0.tracks@.len() == before.project->0.tracks@.len(),
        after.project->0.bpm == before.project->0.bpm,
        after.project->0.project_id == before.project->0.project_id,
        after.project->0.media_paths == before.project->0.media_paths,
        after.project->0.preferred_input_device == before.project->0.preferred_input_device,
        forall|j: int|
            0 <= j < before.project->0.tracks@.len() && (j != k || r is Err) ==> (
            #[trigger] after.project->0.tracks@[j]) == before.project->0.tracks@[j],
        r is Ok ==> ({
            let was = before.project->0.tracks@[k];
            let is = after.project->0.tracks@[k];
            &&& is.armed == armed
            &&& is.input_monitor == monitor
            &&& route is Some ==> is.input_source == route->0
            &&& route is None ==> is.input_source == was.input_source
            &&& is.id == was.id
            &&& is.track_type == was.track_type
            &&& r->Ok_0.0.track_index == k
            &&& r->Ok_0.0.old_armed == was.armed
            &&& r->Ok_0.0.old_monitor == was.input_monitor
            &&& route is Some ==> r->Ok_0.0.old_source == Some(was.input_source)
            &&& route is None ==> r->Ok_0.0.old_source is None
        }),
{
    lemma_found(before.project->0.tracks@, k);
}

/// Dropping an edit puts back what it notes of its track, and nothing else of
/// the project.
pub proof fn law_dropped_edit_is_put_back(
    before: EngineInner,
    after: EngineInner,
    edit: InputEdit,
    r: Result<InputAction, SphereAudioError>,
)
    requires
        before.project is Some,
        edit.track_index < before.project->0.tracks@.len(),
        live::edit_cancelled(before, after, edit, r),
    ensures
        after.project is Some,
        after.project->0.tracks@.len() == before.project->0.tracks@.len(),
        after.project->0.bpm == before.project->0.bpm,
        forall|j: int|
            0 <= j < before.project->0.tracks@.len() && j != edit.track_index ==> (
            #[trigger] after.project->0.tracks@[j]) == before.project->0.tracks@[j],
        ({
            let is = after.project->0.tracks@[edit.track_index as int];
            let was = before.project->0.tracks@[edit.track_index as int];
            &&& is.armed == edit.old_armed
            &&& is.input_monitor == edit.old_monitor
            &&& edit.old_source is Some ==> is.input_source == edit.old_source->0
            &&& edit.old_source is None ==> is.input_source == was.input_source
            &&& is.id == was.id
        }),
{
}

/// Whether a graph's track shows the arming, the monitoring and the channels of
/// a project's track.
pub open spec fn shows_input(g: RuntimeProject, i: int, t: TrackSnapshot) -> bool {
    &&& g.tracks@[i].record_armed == t.armed
    &&& g.tracks@[i].monitor_enabled == t.input_monitor
    &&& t.input_source.channels@.len() == 0 ==> g.tracks@[i].input_source
        == TrackInputRoute::Unrouted
    &&& t.input_source.channels@.len() == 1 ==> g.tracks@[i].input_source
        == (TrackInputRoute::Pair {
        left: t.input_source.channels@[0],
        right: t.input_source.channels@[0],
    })
    &&& t.input_source.channels@.len() >= 2 ==> g.tracks@[i].input_source
        == (TrackInputRoute::Pair {
        left: t.input_source.channels@[0],
        right: t.input_source.channels@[1],
    })
}

/// An edit that was committed stands in the stored graph as it stands in the
/// project, is counted, and was told to the callback where a stream is open. One
/// that the callback refused is taken back in the project.
pub proof fn law_committed_edit_reaches_the_graph(
    before: EngineInner,
    after: EngineInner,
    edit: InputEdit,
    r: Result<(), SphereAudioError>,
    action: Option<Result<InputAction, SphereAudioError>>,
)
    requires
        before.project is Some,
        edit.track_index < before.project->0.tracks@.len(),
        edit.track_index < before.runtime.tracks@.len(),
        live::edit_committed(before, after, edit, r, action),
    ensures
        r is Ok ==> after.project == before.project && action is None && shows_input(
            after.runtime,
            edit.track_index as int,
            before.project->0.tracks@[edit.track_index as int],
        ) && (before.input_state_revision < u64::MAX ==> after.input_state_revision
            == before.input_state_revision + 1),
        r is Ok && takes_commands(before) ==> (last_placed(
            after,
        ) matches EngineCommand::SetTrackInputState {
            track_index,
            record_armed,
            monitor_enabled,
            input_source,
        } && track_index == edit.track_index && record_armed
            == before.project->0.tracks@[edit.track_index as int].armed && monitor_enabled
            == before.project->0.tracks@[edit.track_index as int].input_monitor && input_source
            == after.runtime.tracks@[edit.track_index as int].input_source),
        r is Err ==> action is Some && after.project is Some
            && after.project->0.tracks@[edit.track_index as int].armed == edit.old_armed
            && after.project->0.tracks@[edit.track_index as int].input_monitor
            == edit.old_monitor,
        !takes_commands(before) ==> r is Ok,
{
    let i = edit.track_index as int;
    let track = before.project->0.tracks@[i];
    let (shown, told, sent) = choose|
        shown: EngineInner,
        told: EngineInner,
        sent: Result<(), SphereAudioError>,
    |
        {
            &&& #[trigger] live::input_shown(
                before,
                shown,
                edit.track_index as int,
                track.armed,
                track.input_monitor,
                live::route_of(track.input_source),
            )
            &&& #[trigger] inner::handed_over(
                shown,
                told,
                live::input_command(track, edit.track_index),
                sent,
            )
            &&& if sent is Ok || sent == Err::<(), _>(SphereAudioError::EngineNotOpen) {
                &&& r is Ok
                &&& action is None
                &&& after == (EngineInner {
                    input_state_revision: state::counted(before.input_state_revision),
                    ..told
                })
            } else {
                &&& r == sent
                &&& action is Some
                &&& exists|reverted: EngineInner|
                    #[trigger] live::input_shown(
                        told,
                        reverted,
                        edit.track_index as int,
                        edit.old_armed,
                        edit.old_monitor,
                        live::route_of(live::old_source(track, edit)),
                    ) && live::edit_cancelled(reverted, after, edit, action->0)
            }
        };
    law_commands_go_to_the_stream_that_runs(
        shown,
        told,
        live::input_command(track, edit.track_index),
        sent,
    );
    if !(sent is Ok || sent == Err::<(), _>(SphereAudioError::EngineNotOpen)) {
        let reverted = choose|reverted: EngineInner|
            #[trigger] live::input_shown(
                told,
                reverted,
                edit.track_index as int,
                edit.old_armed,
                edit.old_monitor,
                live::route_of(live::old_source(track, edit)),
            ) && live::edit_cancelled(reverted, after, edit, action->0);
        law_dropped_edit_is_put_back(reverted, after, edit, action->0);
    }
}

/// While a duplex session is open, a track's input can be changed exactly where
/// its route is one and the session can give it.
pub proof fn law_session_decides_on_edits(
    e: EngineInner,
    k: int,
    route: Option<TrackInputSource>,
    source: TrackInputSource,
)
    requires
        e.recording is None,
        e.project is Some,
        first_of_its_id(e.project->0.tracks@, k),
        route is Some ==> source == route->0,
        route is None ==> source == e.project->0.tracks@[k].input_source,
        e.asio_caps is Some,
    ensures
        live::edit_refusal(e, e.project->0.tracks@[k].id@, route) is None <==> {
            &&& source.channels@.len() <= 2
            &&& source.channels@.len() == 2 ==> source.channels@[0] != source.channels@[1]
            &&& source.channels@.len() > 0 ==> {
                &&& e.asio_caps->0.input_channels > 0
                &&& source.device_id is None || text::trimmed(source.device_id->0@).len() == 0
                    || text::trimmed(source.device_id->0@) == e.asio_caps->0.driver@
                &&& forall|i: int|
                    0 <= i < source.channels@.len() ==> #[trigger] source.channels@[i]
                        < e.asio_caps->0.input_channels
            }
        },
{
    let id = e.project->0.tracks@[k].id@;
    lemma_found(e.project->0.tracks@, k);
    input_laws::law_routes_are_mono_or_stereo(id, source.channels@);
    input_laws::law_session_takes_the_routes_it_has(id, source, e.asio_caps->0);
}

/// A refused edit changes nothing but what is reported, and that only where the
/// session refused it.
pub proof fn law_refused_edit_changes_nothing(
    before: EngineInner,
    after: EngineInner,
    track_id: Seq<char>,
    route: Option<TrackInputSource>,
    r: Result<(InputEdit, InputAction), SphereAudioError>,
)
    requires
        live::edit_refused(before, after, track_id, route, r),
    ensures
        r is Err,
        after.project == before.project,
        after.runtime == before.runtime,
        after.shared == before.shared,
        after.live_input == before.live_input,
        after.input_state_revision == before.input_state_revision,
        before.asio_caps is None || before.recording is Some || before.project is None
            ==> after.status == before.status,
{
}

// ── Beginnings ──────────────────────────────────────────────────────────────

/// A fresh engine is stopped at the start, at a hundred and twenty beats in four
/// four, at full level, with compensation on, and has no project and no stream.
pub proof fn law_fresh_engine_is_at_rest(e: EngineInner)
    requires
        e.fresh(),
    ensures
        !e.shared.playing,
        e.shared.position_samples == 0,
        AudioEngineState::of_number(e.shared.engine_state) == AudioEngineState::Paused,
        e.shared.bpm_bits == 0x405e_0000_0000_0000,
        e.shared.time_sig_num == 4,
        e.shared.time_sig_den == 4,
        e.shared.master_volume == 0x3f80_0000,
        e.shared.monitor_gain == 0x3f80_0000,
        e.shared.pdc_enabled,
        !e.shared.loop_enabled,
        !e.shared.metronome_enabled,
        !e.shared.test_tone_enabled,
        !e.shared.live_input_active,
        !e.shared.monitor_enabled_any,
        !e.shared.device_lost,
        e.shared.dropout_count == 0,
        e.project is None,
        e.recording is None,
        e.live_input is None,
        !takes_commands(e),
        !e.status.stream_open,
        !e.status.running,
        e.runtime.tracks@.len() == 0,
        e.runtime.clips@.len() == 0,
{
}

/// The media that a project uses are the files that its clips name.
pub proof fn law_project_media_are_its_clips_files(p: ProjectSnapshot, path: Seq<char>)
    ensures
        project::project_media(Some(p)).contains(path) <==> path.len() > 0 && exists|i: int|
            0 <= i < p.media_paths@.len() && (#[trigger] p.media_paths@[i]) is Some
                && p.media_paths@[i]->0@ == path,
        project::project_media(None).len() == 0,
{
    law_a_file_is_used_where_a_clip_names_it(p.media_paths@, path);
}

/// Compensation that is switched has a new latency graph, and setting it to what
/// it is changes nothing.
pub proof fn law_compensation_is_switched_once(e: EngineInner, enabled: bool)
    ensures
        inner::compensation_set(e.shared, enabled).pdc_enabled == enabled,
        e.shared.pdc_enabled == enabled ==> inner::compensation_set(e.shared, enabled) == e.shared,
        e.shared.pdc_enabled != enabled && e.shared.latency_graph_version < u64::MAX
            ==> inner::compensation_set(e.shared, enabled).latency_graph_version
            == e.shared.latency_graph_version + 1,
        inner::compensation_set(e.shared, enabled).playing == e.shared.playing,
        inner::compensation_set(e.shared, enabled).position_samples == e.shared.position_samples,
{
}

} // verus!
