//! What is reported of the loaded project and of the device, in terms of its
//! tracks and of the settings.

use vstd::prelude::*;

use crate::engine::device;
use crate::engine::device::BackendKind;
use crate::engine::device::DauxConfig;
use crate::engine::device::DauxDeviceConfig;
use crate::engine::device::OpenPath;
use crate::engine::device::Platform;
use crate::engine::device::StreamFormat;
use crate::engine::inner::EngineInner;
use crate::engine::input::TrackSnapshot;
use crate::engine::report;
use crate::engine::report::EngineInsertStatus;
use crate::engine::report::RejectedRoute;
use crate::engine::report::TrackLatency;
use crate::engine::report::TrackMeter;
use crate::engine::state::SharedState;
use crate::engine::take;
use crate::engine::take::TakeSource;
use crate::input_ring;
use crate::input_ring::PREVIEW_CAPACITY;
use crate::runtime::RuntimeInsert;
use crate::runtime::RuntimeProject;
use crate::runtime::RuntimeTrack;
use crate::text;

verus! {

// ── Inserts ─────────────────────────────────────────────────────────────────

/// A track of the graph is found by its id, and of several with one id the
/// first is.
pub proof fn law_graph_track_is_found_by_its_id(tracks: Seq<RuntimeTrack>, id: Seq<char>, from: int)
    requires
        0 <= from,
    ensures
        report::track_named(tracks, id, from) matches Some(i) ==> from <= i < tracks.len()
            && tracks[i].id@ == id && forall|j: int| from <= j < i ==> (#[trigger] tracks[j]).id@
            != id,
        report::track_named(tracks, id, from) is None ==> forall|j: int|
            from <= j < tracks.len() ==> (#[trigger] tracks[j]).id@ != id,
    decreases tracks.len() - from,
{
    if from < tracks.len() && tracks[from].id@ != id {
        law_graph_track_is_found_by_its_id(tracks, id, from + 1);
    }
}

/// An insert is found by its id, and of several with one id the first is.
pub proof fn law_insert_is_found_by_its_id(inserts: Seq<RuntimeInsert>, id: Seq<char>, from: int)
    requires
        0 <= from,
    ensures
        report::insert_named(inserts, id, from) matches Some(i) ==> from <= i < inserts.len()
            && inserts[i].id@ == id && forall|j: int| from <= j < i ==> (
        #[trigger] inserts[j]).id@ != id,
        report::insert_named(inserts, id, from) is None ==> forall|j: int|
            from <= j < inserts.len() ==> (#[trigger] inserts[j]).id@ != id,
    decreases inserts.len() - from,
{
    if from < inserts.len() && inserts[from].id@ != id {
        law_insert_is_found_by_its_id(inserts, id, from + 1);
    }
}

/// An insert's instance is that of the track and the insert that are named, and
/// it is there where the insert has one.
pub proof fn law_instance_is_that_of_the_named_insert(
    p: RuntimeProject,
    track_id: Seq<char>,
    insert_id: Seq<char>,
)
    ensures
        report::instance_place(p, track_id, insert_id) matches Some(at) ==> 0 <= at.0
            < p.tracks@.len() && 0 <= at.1 < p.tracks@[at.0].inserts@.len()
            && p.tracks@[at.0].id@ == track_id && p.tracks@[at.0].inserts@[at.1].id@ == insert_id
            && p.tracks@[at.0].inserts@[at.1].native is Some,
        report::instance_place(p, track_id, insert_id) is None ==> forall|t: int, i: int|
            #![trigger p.tracks@[t].inserts@[i]]
            0 <= t < p.tracks@.len() && p.tracks@[t].id@ == track_id && (forall|j: int|
                0 <= j < t ==> (#[trigger] p.tracks@[j]).id@ != track_id) && 0 <= i
                < p.tracks@[t].inserts@.len() && p.tracks@[t].inserts@[i].id@ == insert_id && (
            forall|j: int|
                0 <= j < i ==> (#[trigger] p.tracks@[t].inserts@[j]).id@ != insert_id)
                ==> p.tracks@[t].inserts@[i].native is None,
{
    law_graph_track_is_found_by_its_id(p.tracks@, track_id, 0);
    if let Some(t) = report::track_named(p.tracks@, track_id, 0) {
        law_insert_is_found_by_its_id(p.tracks@[t].inserts@, insert_id, 0);
    }
    if report::instance_place(p, track_id, insert_id) is None {
        assert forall|t: int, i: int|
            #![trigger p.tracks@[t].inserts@[i]]
            0 <= t < p.tracks@.len() && p.tracks@[t].id@ == track_id && (forall|j: int|
                0 <= j < t ==> (#[trigger] p.tracks@[j]).id@ != track_id) && 0 <= i
                < p.tracks@[t].inserts@.len() && p.tracks@[t].inserts@[i].id@ == insert_id && (
            forall|j: int|
                0 <= j < i ==> (#[trigger] p.tracks@[t].inserts@[j]).id@
                    != insert_id) implies p.tracks@[t].inserts@[i].native is None by {
            let found = report::track_named(p.tracks@, track_id, 0);
            assert(found is Some);
            assert(p.tracks@[found->0].id@ == track_id);
            assert(p.tracks@[t].id@ == track_id);
            assert(found->0 == t);
            let insert = report::insert_named(p.tracks@[t].inserts@, insert_id, 0);
            assert(insert is Some);
            assert(p.tracks@[t].inserts@[insert->0].id@ == insert_id);
            assert(insert->0 == i);
        }
    }
}

/// An insert without an instance of its own is always ready, and a native
/// plugin is where its instance is.
pub proof fn law_native_insert_is_ready_with_its_instance(insert: RuntimeInsert)
    ensures
        !text::same_ignoring_case(insert.kind@, "native-plugin"@) ==> !report::insert_state(
            insert,
        ).0 && report::insert_state(insert).1,
        text::same_ignoring_case(insert.kind@, "native-plugin"@) ==> report::insert_state(insert).0
            && (report::insert_state(insert).1 <==> insert.native is Some
            && insert.native->0.ready),
{
}

// ── Latencies ───────────────────────────────────────────────────────────────

/// The latency that is reported of a chain is the sum of its parts', in whatever
/// parts it is taken.
pub proof fn law_reported_latency_adds_up(
    a: Seq<RuntimeInsert>,
    b: Seq<RuntimeInsert>,
    buffer_frames: u32,
)
    ensures
        report::chain_latency(a + b, buffer_frames) == report::chain_latency(a, buffer_frames)
            + report::chain_latency(b, buffer_frames),
    decreases b.len(),
{
    if b.len() == 0 {
        assert(a + b =~= a);
    } else {
        assert((a + b).drop_last() =~= a + b.drop_last());
        law_reported_latency_adds_up(a, b.drop_last(), buffer_frames);
    }
}

/// One insert adds what it is late by: nothing where it is switched off or has
/// no instance, a ready instance's own latency, and a bridge's latency and one
/// block more.
pub proof fn law_insert_reports_its_own_latency(insert: RuntimeInsert, buffer_frames: u32)
    ensures
        report::chain_latency(seq![insert], buffer_frames) == report::reported_latency(
            insert,
            buffer_frames,
        ),
        !insert.enabled ==> report::reported_latency(insert, buffer_frames) == 0,
        insert.enabled && insert.native is Some && insert.native->0.ready
            && insert.native->0.latency_samples >= 0 ==> report::reported_latency(
            insert,
            buffer_frames,
        ) == insert.native->0.latency_samples,
        insert.native is Some && !insert.native->0.ready ==> report::reported_latency(
            insert,
            buffer_frames,
        ) == 0,
        insert.enabled && insert.native is None && insert.bridge is Some
            && text::same_ignoring_case(insert.kind@, "external-bridge-plugin"@)
            ==> report::reported_latency(insert, buffer_frames)
            == insert.bridge->0.reported_latency_samples + buffer_frames,
        insert.native is None && insert.bridge is None ==> report::reported_latency(
            insert,
            buffer_frames,
        ) == 0,
        insert.native is None && !text::same_ignoring_case(
            insert.kind@,
            "external-bridge-plugin"@,
        ) ==> report::reported_latency(insert, buffer_frames) == 0,
{
    assert(seq![insert].drop_last() =~= Seq::<RuntimeInsert>::empty());
    assert(report::chain_latency(seq![insert].drop_last(), buffer_frames) == 0);
}

/// What is shown of a track's inserts is what they report now, where they report
/// any.
pub proof fn law_shown_latency_is_the_reported_one(track: RuntimeTrack, buffer_frames: u32)
    requires
        0 < report::chain_latency(track.inserts@, buffer_frames) <= u32::MAX,
    ensures
        report::shown_latency(track, buffer_frames) == report::chain_latency(
            track.inserts@,
            buffer_frames,
        ),
{
}

/// Every track but the master is reported once, in the order of the graph, with
/// what its inserts report, and with the path and the delay that the latency
/// graph gives it: the two make up the longest path.
pub proof fn law_every_track_but_the_master_is_reported(
    p: RuntimeProject,
    buffer_frames: u32,
    n: nat,
)
    requires
        n <= p.tracks@.len() <= usize::MAX,
        p.latency_graph.track_pdc_delay@.len() == p.tracks@.len(),
    ensures
        forall|k: int|
            #![trigger report::track_latencies(p, buffer_frames, n)[k]]
            0 <= k < report::track_latencies(p, buffer_frames, n).len() ==> ({
                let row = report::track_latencies(p, buffer_frames, n)[k];
                &&& row.track_index < n
                &&& p.tracks@[row.track_index as int].track_type@ != "master"@
                &&& row.plugin_samples == report::shown_latency(
                    p.tracks@[row.track_index as int],
                    buffer_frames,
                ) as u32
                &&& row.pdc_delay_samples
                    == p.latency_graph.track_pdc_delay@[row.track_index as int]
                &&& row.pdc_delay_samples <= p.latency_graph.max_path_latency_samples
                    ==> row.path_samples + row.pdc_delay_samples
                    == p.latency_graph.max_path_latency_samples
            }),
        forall|j: int, k: int|
            0 <= j < k < report::track_latencies(p, buffer_frames, n).len() ==> (
            #[trigger] report::track_latencies(p, buffer_frames, n)[j]).track_index < (
            #[trigger] report::track_latencies(p, buffer_frames, n)[k]).track_index,
        forall|t: int|
            0 <= t < n && (#[trigger] p.tracks@[t]).track_type@ != "master"@ ==> exists|k: int|
                0 <= k < report::track_latencies(p, buffer_frames, n).len() && (
                #[trigger] report::track_latencies(p, buffer_frames, n)[k]).track_index == t,
    decreases n,
{
    if n > 0 {
        let m = (n - 1) as nat;
        law_every_track_but_the_master_is_reported(p, buffer_frames, m);
        let rest = report::track_latencies(p, buffer_frames, m);
        let all = report::track_latencies(p, buffer_frames, n);
        assert forall|t: int|
            0 <= t < n && (#[trigger] p.tracks@[t]).track_type@ != "master"@ implies exists|k: int|
            0 <= k < all.len() && (#[trigger] all[k]).track_index == t by {
            if t < m {
                let k = choose|k: int|
                    0 <= k < rest.len() && (#[trigger] rest[k]).track_index == t;
                assert(all[k] == rest[k]);
            } else {
                assert(all[all.len() - 1].track_index == t);
            }
        }
        assert forall|k: int| #![trigger all[k]] 0 <= k < all.len() implies (k < rest.len()
            ==> all[k] == rest[k]) && (k >= rest.len() ==> all[k].track_index == m) by {}
    }
}

/// What is shown of the master's inserts is that of the last master track.
pub proof fn law_master_latency_is_the_masters(
    p: RuntimeProject,
    buffer_frames: u32,
    n: nat,
    t: int,
)
    requires
        0 <= t < n <= p.tracks@.len(),
        p.tracks@[t].track_type@ == "master"@,
        forall|j: int| t < j < n ==> (#[trigger] p.tracks@[j]).track_type@ != "master"@,
    ensures
        report::master_latency(p, buffer_frames, n) == report::shown_latency(
            p.tracks@[t],
            buffer_frames,
        ) as u32,
    decreases n,
{
    if t < n - 1 {
        assert(p.tracks@[n - 1].track_type@ != "master"@);
        law_master_latency_is_the_masters(p, buffer_frames, (n - 1) as nat, t);
    }
}

/// A project without a master track shows no latency of one.
pub proof fn law_no_master_no_latency(p: RuntimeProject, buffer_frames: u32, n: nat)
    requires
        n <= p.tracks@.len(),
        forall|j: int| 0 <= j < n ==> (#[trigger] p.tracks@[j]).track_type@ != "master"@,
    ensures
        report::master_latency(p, buffer_frames, n) == 0,
    decreases n,
{
    if n > 0 {
        assert(p.tracks@[n - 1].track_type@ != "master"@);
        law_no_master_no_latency(p, buffer_frames, (n - 1) as nat);
    }
}

/// The largest latency of the tracks is some track's, and no track's is larger.
pub proof fn law_largest_latency_is_some_tracks(tracks: Seq<TrackLatency>)
    ensures
        forall|k: int|
            0 <= k < tracks.len() ==> (#[trigger] tracks[k]).plugin_samples
                <= report::largest_plugin(tracks),
        report::largest_plugin(tracks) > 0 ==> exists|k: int|
            0 <= k < tracks.len() && (#[trigger] tracks[k]).plugin_samples
                == report::largest_plugin(tracks),
    decreases tracks.len(),
{
    if tracks.len() > 0 {
        let shorter = tracks.drop_last();
        law_largest_latency_is_some_tracks(shorter);
        assert forall|k: int| 0 <= k < tracks.len() implies (#[trigger] tracks[k]).plugin_samples
            <= report::largest_plugin(tracks) by {
            if k < shorter.len() {
                assert(shorter[k] == tracks[k]);
            }
        }
        if report::largest_plugin(tracks) > 0 {
            if tracks.last().plugin_samples > report::largest_plugin(shorter) {
                assert(tracks[tracks.len() - 1].plugin_samples == report::largest_plugin(tracks));
            } else {
                let k = choose|k: int|
                    0 <= k < shorter.len() && (#[trigger] shorter[k]).plugin_samples
                        == report::largest_plugin(shorter);
                assert(tracks[k] == shorter[k]);
            }
        }
    }
}

// ── Meters ──────────────────────────────────────────────────────────────────

/// Whether a track's meter shows its input: an audio track with this id that is
/// armed or monitored.
pub open spec fn meters_input(t: TrackSnapshot, id: Seq<char>) -> bool {
    t.id@ == id && t.track_type@ == "audio"@ && (t.armed || t.input_monitor)
}

/// The track whose input a meter shows is the first with the meter's id that is
/// an audio track and armed or monitored.
pub proof fn law_meter_shows_the_first_live_track(
    tracks: Seq<TrackSnapshot>,
    id: Seq<char>,
    from: int,
)
    requires
        0 <= from,
    ensures
        report::live_track(tracks, id, from) matches Some(i) ==> from <= i < tracks.len()
            && meters_input(tracks[i], id) && forall|j: int|
            from <= j < i ==> !meters_input(#[trigger] tracks[j], id),
        report::live_track(tracks, id, from) is None ==> forall|j: int|
            from <= j < tracks.len() ==> !meters_input(#[trigger] tracks[j], id),
    decreases tracks.len() - from,
{
    if from < tracks.len() && !meters_input(tracks[from], id) {
        law_meter_shows_the_first_live_track(tracks, id, from + 1);
    }
}

/// The meter of a live track with a route shows the peaks of the route's
/// channels, and a channel that the device does not have is silent.
pub proof fn law_live_meter_shows_the_route(
    meter: TrackMeter,
    tracks: Seq<TrackSnapshot>,
    peaks: Seq<u32>,
    i: int,
)
    requires
        0 <= i < tracks.len(),
        meters_input(tracks[i], meter.track_id@),
        forall|j: int| 0 <= j < i ==> !meters_input(#[trigger] tracks[j], meter.track_id@),
        tracks[i].input_source.channels@.len() > 0,
    ensures
        ({
            let shown = report::metered(meter, tracks, peaks);
            let left = tracks[i].input_source.channels@[0];
            let right = if tracks[i].input_source.channels@.len() > 1 {
                tracks[i].input_source.channels@[1]
            } else {
                left
            };
            &&& shown.track_id == meter.track_id
            &&& left < peaks.len() ==> shown.peak_l == peaks[left as int]
            &&& left >= peaks.len() ==> shown.peak_l == 0
            &&& right < peaks.len() ==> shown.peak_r == peaks[right as int]
            &&& right >= peaks.len() ==> shown.peak_r == 0
            &&& shown.rms_l == 0
            &&& shown.rms_r == 0
        }),
{
    law_meter_shows_the_first_live_track(tracks, meter.track_id@, 0);
    let found = report::live_track(tracks, meter.track_id@, 0);
    assert(found is Some) by {
        if found is None {
            assert(!meters_input(tracks[i], meter.track_id@));
        }
    }
    assert(found->0 == i) by {
        if found->0 < i {
            assert(!meters_input(tracks[found->0], meter.track_id@));
        }
        if i < found->0 {
            assert(!meters_input(tracks[i], meter.track_id@));
        }
    }
}

/// The meter of a track that is neither armed nor monitored shows what was
/// played, and so does every meter while nothing is captured.
pub proof fn law_other_meters_show_what_was_played(
    e: EngineInner,
    meter: TrackMeter,
    peaks: Option<Seq<u32>>,
)
    ensures
        peaks is None || e.project is None ==> report::shown_meter(e, meter, peaks) == meter,
        peaks is Some && e.project is Some && (forall|j: int|
            0 <= j < e.project->0.tracks@.len() ==> !meters_input(
                #[trigger] e.project->0.tracks@[j],
                meter.track_id@,
            )) ==> report::shown_meter(e, meter, peaks) == meter,
        peaks is Some && e.project is Some ==> report::shown_meter(e, meter, peaks)
            == report::metered(meter, e.project->0.tracks@, peaks->0),
{
    if e.project is Some {
        law_meter_shows_the_first_live_track(e.project->0.tracks@, meter.track_id@, 0);
    }
}

/// Whether a bit pattern is a number, and one at or above zero.
pub open spec fn a_level(bits: u32) -> bool {
    bits <= 0x7f80_0000
}

/// The larger of two levels is one of them and at least as large as both, and
/// what is no number never wins over one.
pub proof fn law_larger_level_bounds_both(a: u32, b: u32)
    ensures
        a_level(a) && a_level(b) ==> report::larger_level(a, b) >= a && report::larger_level(a, b)
            >= b,
        report::larger_level(a, b) == a || report::larger_level(a, b) == b,
        0x7f80_0000 < a < 0x8000_0000 || a > 0xff80_0000 ==> report::larger_level(a, b) == b,
        a_level(a) && (0x7f80_0000 < b < 0x8000_0000 || b > 0xff80_0000) ==> report::larger_level(
            a,
            b,
        ) == a,
        a_level(a) && a > 0 && 0x8000_0000 <= b <= 0xff80_0000 ==> report::larger_level(a, b) == a,
        a_level(b) && b > 0 && 0x8000_0000 <= a <= 0xff80_0000 ==> report::larger_level(a, b) == b,
        0x8000_0000 <= a <= b <= 0xff80_0000 ==> report::larger_level(a, b) == a,
        0x8000_0000 <= b <= a <= 0xff80_0000 ==> report::larger_level(a, b) == b,
{
}

// ── Counts ──────────────────────────────────────────────────────────────────

/// The audio tracks are exactly the tracks of that type, in order.
pub proof fn law_audio_tracks_are_all_of_them(tracks: Seq<RuntimeTrack>, n: nat)
    requires
        n <= tracks.len(),
    ensures
        forall|k: int|
            0 <= k < report::audio_tracks(tracks, n).len() ==> 0 <= (
            #[trigger] report::audio_tracks(tracks, n)[k]) < n && tracks[report::audio_tracks(
                tracks,
                n,
            )[k]].track_type@ == "audio"@,
        forall|t: int|
            0 <= t < n && (#[trigger] tracks[t]).track_type@ == "audio"@ ==> report::audio_tracks(
                tracks,
                n,
            ).contains(t),
        forall|j: int, k: int|
            0 <= j < k < report::audio_tracks(tracks, n).len() ==> (#[trigger] report::audio_tracks(
                tracks,
                n,
            )[j]) < (#[trigger] report::audio_tracks(tracks, n)[k]),
    decreases n,
{
    if n > 0 {
        let m = (n - 1) as nat;
        law_audio_tracks_are_all_of_them(tracks, m);
        let rest = report::audio_tracks(tracks, m);
        let all = report::audio_tracks(tracks, n);
        assert forall|t: int|
            0 <= t < n && (#[trigger] tracks[t]).track_type@ == "audio"@ implies all.contains(t) by {
            if t < m {
                let k = choose|k: int| 0 <= k < rest.len() && rest[k] == t;
                assert(all[k] == t);
            } else {
                assert(all[all.len() - 1] == t);
            }
        }
    }
}

/// A source is ready where it has frames: all of them are where all have, none
/// is where none has, and each counts once wherever it stands.
pub proof fn law_ready_sources_are_those_with_frames(frames: Seq<u64>, n: nat)
    requires
        n <= frames.len(),
    ensures
        report::ready_sources(frames, n) <= n,
        (forall|i: int| 0 <= i < n ==> (#[trigger] frames[i]) > 0) ==> report::ready_sources(
            frames,
            n,
        ) == n,
        (exists|i: int| 0 <= i < n && (#[trigger] frames[i]) == 0) ==> report::ready_sources(
            frames,
            n,
        ) < n,
        forall|i: int|
            0 <= i < n && (#[trigger] frames[i]) > 0 ==> report::ready_sources(
                frames.update(i, 0),
                n,
            ) + 1 == report::ready_sources(frames, n),
    decreases n,
{
    if n > 0 {
        let m = (n - 1) as nat;
        law_ready_sources_are_those_with_frames(frames, m);
        assert forall|i: int| 0 <= i < n && (#[trigger] frames[i]) > 0 implies report::ready_sources(
            frames.update(i, 0),
            n,
        ) + 1 == report::ready_sources(frames, n) by {
            if i == m {
                lemma_ready_before(frames, m, i);
            } else {
                assert(frames.update(i, 0)[m as int] == frames[m as int]);
            }
        }
    }
}

/// What stands behind the first sources does not count among them.
proof fn lemma_ready_before(frames: Seq<u64>, n: nat, i: int)
    requires
        n <= i < frames.len(),
    ensures
        report::ready_sources(frames.update(i, 0), n) == report::ready_sources(frames, n),
    decreases n,
{
    if n > 0 {
        lemma_ready_before(frames, (n - 1) as nat, i);
    }
}

// ── Device ──────────────────────────────────────────────────────────────────

/// A format that is asked for has the rate and the block size that were given,
/// and the device's own for what was not; the device's channels stay.
pub proof fn law_asked_format_takes_what_was_given(
    default: StreamFormat,
    sample_rate: Option<u32>,
    buffer_size: Option<u32>,
)
    ensures
        sample_rate is Some ==> device::asked_for(default, sample_rate, buffer_size).sample_rate
            == sample_rate->0,
        sample_rate is None ==> device::asked_for(default, sample_rate, buffer_size).sample_rate
            == default.sample_rate,
        buffer_size is Some ==> device::asked_for(default, sample_rate, buffer_size).fixed_buffer
            == buffer_size,
        buffer_size is None ==> device::asked_for(default, sample_rate, buffer_size).fixed_buffer
            == default.fixed_buffer,
        device::asked_for(default, sample_rate, buffer_size).channels == default.channels,
{
}

/// An empty name, a rate of zero and a block of zero ask for the default, and
/// anything else for itself; the switches are taken as they are.
pub proof fn law_configuration_leaves_the_defaults_out(
    c: DauxDeviceConfig,
    asked: DauxConfig,
    backend: BackendKind,
    id: Seq<char>,
)
    requires
        c.made_from(asked, backend, id),
    ensures
        c.backend == backend,
        c.backend_id@ == id,
        c.output_device_id is Some <==> asked.output_device_id is Some
            && asked.output_device_id->0@.len() > 0,
        c.output_device_id is Some ==> c.output_device_id->0@ == asked.output_device_id->0@,
        c.sample_rate is Some <==> asked.sample_rate is Some && asked.sample_rate->0 > 0,
        c.sample_rate is Some ==> c.sample_rate == asked.sample_rate,
        c.buffer_size is Some <==> asked.buffer_size is Some && asked.buffer_size->0 > 0,
        c.buffer_size is Some ==> c.buffer_size == asked.buffer_size,
        c.mmcss_priority == asked.mmcss_priority,
        c.safe_mode == asked.safe_mode,
{
}

/// A stream is opened anew where anything of its configuration changes: the
/// backend, the device, the rate, the block, or a switch.
pub proof fn law_any_change_opens_anew(c: DauxDeviceConfig, new: DauxConfig)
    ensures
        new.backend_id@ != c.backend_id@ ==> c.differs_from(new),
        new.output_device_id is Some && new.output_device_id->0@.len() > 0 && (
        c.output_device_id is None || c.output_device_id->0@ != new.output_device_id->0@)
            ==> c.differs_from(new),
        c.output_device_id is Some && (new.output_device_id is None
            || new.output_device_id->0@.len() == 0) ==> c.differs_from(new),
        new.sample_rate is Some && new.sample_rate->0 > 0 && c.sample_rate != new.sample_rate
            ==> c.differs_from(new),
        c.sample_rate is Some && (new.sample_rate is None || new.sample_rate->0 == 0)
            ==> c.differs_from(new),
        new.buffer_size is Some && new.buffer_size->0 > 0 && c.buffer_size != new.buffer_size
            ==> c.differs_from(new),
        c.buffer_size is Some && (new.buffer_size is None || new.buffer_size->0 == 0)
            ==> c.differs_from(new),
        new.mmcss_priority != c.mmcss_priority ==> c.differs_from(new),
        new.safe_mode != c.safe_mode ==> c.differs_from(new),
{
}

/// A backend is opened in its own way on Windows, where it needs one, and by the
/// portable library elsewhere; kernel streaming and ASIO are not to be had
/// elsewhere, nor ASIO in a build without it.
pub proof fn law_backends_open_in_their_own_way(backend: BackendKind, platform: Platform)
    ensures
        device::path_of(BackendKind::WasapiExclusive, platform) == Some(
            if platform.windows {
                OpenPath::WasapiExclusive
            } else {
                OpenPath::Portable
            },
        ),
        device::path_of(BackendKind::WdmKs, platform) is Some <==> platform.windows,
        device::path_of(BackendKind::Asio, platform) is Some <==> platform.windows
            && platform.asio,
        device::path_of(backend, platform) == Some(OpenPath::WdmKs) <==> backend
            == BackendKind::WdmKs && platform.windows,
        device::path_of(backend, platform) == Some(OpenPath::AsioDuplex) <==> backend
            == BackendKind::Asio && platform.windows && platform.asio,
        device::path_of(backend, platform) == Some(OpenPath::WasapiExclusive) <==> backend
            == BackendKind::WasapiExclusive && platform.windows,
        backend != BackendKind::WdmKs && backend != BackendKind::Asio ==> device::path_of(
            backend,
            platform,
        ) is Some,
{
}

/// A lost device is shown as such whatever else holds; otherwise a closed stream
/// is closed, and an open one runs while it plays.
pub proof fn law_device_state_is_shown(lost: bool, open: bool, playing: bool)
    ensures
        device::device_state_text(true, open, playing) == "DeviceLost"@,
        device::device_state_text(false, false, playing) == "Closed"@,
        device::device_state_text(false, true, true) == "Running"@,
        device::device_state_text(false, true, false) == "Ready"@,
{
}

/// Two rates differ where both are known and they are not one.
pub proof fn law_known_rates_are_compared(requested: u32, active: u32)
    ensures
        device::rates_differ(requested, active) == device::rates_differ(active, requested),
        !device::rates_differ(requested, requested),
        !device::rates_differ(0, active),
        requested > 0 && active > 0 && requested != active ==> device::rates_differ(
            requested,
            active,
        ),
{
}

// ── Takes ───────────────────────────────────────────────────────────────────

/// One take runs at a time. Without ASIO nothing else stands in the way of one;
/// with it, the session has to be open and to have input.
pub proof fn law_one_take_at_a_time(e: EngineInner)
    ensures
        e.recording is Some ==> take::take_refusal(e) is Some,
        e.recording is None && e.daux_config.backend != BackendKind::Asio ==> take::take_refusal(
            e,
        ) is None,
        e.recording is None && e.daux_config.backend == BackendKind::Asio ==> (take::take_refusal(
            e,
        ) is None <==> e.asio_caps is Some && e.asio_caps->0.input_channels > 0),
{
}

/// A take under ASIO taps the session that runs, with that session's channels,
/// rate and block; any other is captured by a stream of its own.
pub proof fn law_take_taps_the_session(e: EngineInner)
    requires
        take::take_refusal(e) is None,
    ensures
        e.daux_config.backend != BackendKind::Asio ==> take::take_source(e) is Stream,
        e.daux_config.backend == BackendKind::Asio ==> (take::take_source(
            e,
        ) matches TakeSource::Session { channels, sample_rate, buffer_size } && channels
            == e.asio_caps->0.input_channels && sample_rate == e.asio_caps->0.sample_rate
            && buffer_size == e.asio_caps->0.buffer_size),
{
}

/// The input of an ASIO session can be tested while the session is open and has
/// input.
pub proof fn law_session_input_is_tested_while_open(e: EngineInner)
    ensures
        take::session_test_refusal(e.asio_caps) is None <==> e.asio_caps is Some
            && e.asio_caps->0.input_channels > 0,
{
}

/// Draining gives every bin from the one that was asked for up to the newest,
/// in order, and where that many are not held any more, all that are held.
pub proof fn law_drained_bins_follow_one_another(shared: SharedState, from: u64)
    requires
        from <= shared.preview_ring@.head,
    ensures
        shared.preview_ring@.head - from <= PREVIEW_CAPACITY ==> take::drained(shared, from).len()
            == shared.preview_ring@.head - from,
        shared.preview_ring@.head - from > PREVIEW_CAPACITY ==> take::drained(shared, from).len()
            == PREVIEW_CAPACITY,
        forall|k: int|
            0 <= k < take::drained(shared, from).len() ==> (#[trigger] take::drained(
                shared,
                from,
            )[k]) == shared.preview_ring@.bins[(shared.preview_ring@.head - take::drained(
                shared,
                from,
            ).len() + k) % PREVIEW_CAPACITY as int],
{
}

// ── Rows and messages ───────────────────────────────────────────────────────

/// The rows of the inserts follow the tracks: a track's rows start behind those
/// of the track before, as many as it has inserts.
pub proof fn law_insert_rows_follow_the_tracks(tracks: Seq<RuntimeTrack>, t: nat, u: nat)
    requires
        t < u <= tracks.len(),
    ensures
        report::first_insert(tracks, 0) == 0,
        report::first_insert(tracks, t) + tracks[t as int].inserts@.len() <= report::first_insert(
            tracks,
            u,
        ),
        u == t + 1 ==> report::first_insert(tracks, u) == report::first_insert(tracks, t)
            + tracks[t as int].inserts@.len(),
    decreases u,
{
    if t + 1 < u {
        law_insert_rows_follow_the_tracks(tracks, t, (u - 1) as nat);
    }
}

/// A row names its track and its insert, and says what the insert is and whether
/// it processes.
pub proof fn law_insert_row_names_its_insert(
    statuses: Seq<EngineInsertStatus>,
    tracks: Seq<RuntimeTrack>,
    t: int,
    i: int,
)
    requires
        0 <= t < tracks.len(),
        0 <= i < tracks[t].inserts@.len(),
        report::status_at(statuses, tracks, t, i),
    ensures
        ({
            let row = statuses[report::first_insert(tracks, t as nat) + i];
            let insert = tracks[t].inserts@[i];
            &&& row.track_id == tracks[t].id
            &&& row.insert_id == insert.id
            &&& row.native <==> text::same_ignoring_case(insert.kind@, "native-plugin"@)
            &&& row.ready <==> (!row.native || (insert.native is Some && insert.native->0.ready))
        }),
{
}

/// An editor that cannot be opened is refused with the reason: the track is not
/// there, the insert is not there, or it has no instance.
pub proof fn law_editor_refusal_says_what_is_missing(
    p: RuntimeProject,
    track_id: Seq<char>,
    insert_id: Seq<char>,
    t: int,
)
    ensures
        (forall|j: int| 0 <= j < p.tracks@.len() ==> (#[trigger] p.tracks@[j]).id@ != track_id)
            ==> report::editor_refusal(p, track_id, insert_id)
            == "track not found for insert editor: "@ + track_id,
        0 <= t < p.tracks@.len() && p.tracks@[t].id@ == track_id && (forall|j: int|
            0 <= j < t ==> (#[trigger] p.tracks@[j]).id@ != track_id) && (forall|i: int|
            0 <= i < p.tracks@[t].inserts@.len() ==> (#[trigger] p.tracks@[t].inserts@[i]).id@
                != insert_id) ==> report::editor_refusal(p, track_id, insert_id)
            == "insert not found for editor: "@ + ("track="@ + track_id + " insert="@ + insert_id),
        0 <= t < p.tracks@.len() && p.tracks@[t].id@ == track_id && (forall|j: int|
            0 <= j < t ==> (#[trigger] p.tracks@[j]).id@ != track_id) && (exists|i: int|
            0 <= i < p.tracks@[t].inserts@.len() && (#[trigger] p.tracks@[t].inserts@[i]).id@
                == insert_id) ==> report::editor_refusal(p, track_id, insert_id)
            == "insert has no ready VST3 processor: "@ + ("track="@ + track_id + " insert="@
            + insert_id),
{
    law_graph_track_is_found_by_its_id(p.tracks@, track_id, 0);
    if 0 <= t < p.tracks@.len() && p.tracks@[t].id@ == track_id {
        law_insert_is_found_by_its_id(p.tracks@[t].inserts@, insert_id, 0);
        let found = report::track_named(p.tracks@, track_id, 0);
        assert(found is Some);
        assert(p.tracks@[found->0].id@ == track_id);
    }
}

/// A route that was rejected is told with its two ends, its kind and the reason.
pub proof fn law_rejected_route_is_told_in_full(route: RejectedRoute)
    ensures
        report::rejected_text(route) == route.from_track_id@ + " -> "@ + route.to_track_id@
            + " ("@ + route.kind@ + "): "@ + route.reason@,
{
}

/// What is reported of the device: a rate that fell back names both rates, a
/// switch that failed names the backend and the error, and whether the previous
/// backend came back.
pub proof fn law_device_messages_name_what_failed(
    requested: u32,
    active: u32,
    backend: Seq<char>,
    error: Seq<char>,
    restore: Seq<char>,
)
    ensures
        device::exclusive_warning(requested, active) == "Exclusive mode could not open at "@
            + text::decimal(requested as nat) + " Hz; the device is running at "@ + text::decimal(
            active as nat,
        ) + " Hz. Timing uses the active device rate."@,
        device::reverted_text(backend, error) == backend + " backend switch failed: "@ + error
            + ". Reverted to previous backend."@,
        device::stranded_text(backend, error, restore) == backend + " backend switch failed: "@
            + error + ". Fallback also failed: "@ + restore,
        device::unavailable_text(BackendKind::Asio)
            == "this build does not include the DAUx ASIO backend"@,
        device::unavailable_text(BackendKind::WdmKs) == "DAUx WDM-KS is only available on Windows"@,
{
}

} // verus!
