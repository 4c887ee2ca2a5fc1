//! What is read back of the loaded project: insert states, latencies, meters
//! and counts.

use vstd::prelude::*;

use crate::engine::inner::EngineInner;
use crate::engine::input::TrackSnapshot;
use crate::engine::render;
use crate::engine::render::nan_bits;
use crate::engine::state;
use crate::engine::state::routed_input_peaks;
use crate::engine::state::SharedState;
use crate::engine::take;
use crate::engine::take::track_path_samples;
use crate::error::SphereAudioError;
use crate::latency_graph;
use crate::latency_graph::strip_plugin_latency_samples;
use crate::latency_graph::RuntimeLatencyGraph;
use crate::runtime::RuntimeInsert;
use crate::runtime::RuntimeProject;
use crate::runtime::RuntimeTrack;
use crate::text;
use crate::text::eq_ignore_ascii_case;
use crate::text::join;
use crate::text::str_eq;

verus! {

// ── Insert editors ──────────────────────────────────────────────────────────

/// The first track with this id, from `from` on.
pub open spec fn track_named(tracks: Seq<RuntimeTrack>, id: Seq<char>, from: int) -> Option<int>
    decreases tracks.len() - from,
{
    if from >= tracks.len() {
        None
    } else if tracks[from].id@ == id {
        Some(from)
    } else {
        track_named(tracks, id, from + 1)
    }
}

/// The first insert with this id, from `from` on.
pub open spec fn insert_named(inserts: Seq<RuntimeInsert>, id: Seq<char>, from: int) -> Option<int>
    decreases inserts.len() - from,
{
    if from >= inserts.len() {
        None
    } else if inserts[from].id@ == id {
        Some(from)
    } else {
        insert_named(inserts, id, from + 1)
    }
}

/// The place of an insert that has a plug-in instance, `None` where there is
/// none.
pub open spec fn instance_place(p: RuntimeProject, track_id: Seq<char>, insert_id: Seq<char>) -> (
    Option<(int, int)>) {
    match track_named(p.tracks@, track_id, 0) {
        Some(t) => match insert_named(p.tracks@[t].inserts@, insert_id, 0) {
            Some(i) => if p.tracks@[t].inserts@[i].native is Some {
                Some((t, i))
            } else {
                None
            },
            None => None,
        },
        None => None,
    }
}

/// Why the editor of an insert cannot be opened.
pub open spec fn editor_refusal(
    p: RuntimeProject,
    track_id: Seq<char>,
    insert_id: Seq<char>,
) -> Seq<char> {
    let place = "track="@ + track_id + " insert="@ + insert_id;
    match track_named(p.tracks@, track_id, 0) {
        None => "track not found for insert editor: "@ + track_id,
        Some(t) => match insert_named(p.tracks@[t].inserts@, insert_id, 0) {
            None => "insert not found for editor: "@ + place,
            Some(_) => "insert has no ready VST3 processor: "@ + place,
        },
    }
}

/// The first track with this id.
pub fn find_runtime_track(tracks: &Vec<RuntimeTrack>, id: &str) -> (r: Option<usize>)
    ensures
        r is Some <==> track_named(tracks@, id@, 0) is Some,
        r matches Some(i) ==> track_named(tracks@, id@, 0) == Some(i as int) && i < tracks@.len(),
{
    let mut i: usize = 0;
    while i < tracks.len()
        invariant
            i <= tracks@.len(),
            track_named(tracks@, id@, 0) == track_named(tracks@, id@, i as int),
        decreases tracks@.len() - i,
    {
        if str_eq(&tracks[i].id, id) {
            return Some(i);
        }
        i = i + 1;
    }
    None
}

fn find_insert(inserts: &Vec<RuntimeInsert>, id: &str) -> (r: Option<usize>)
    ensures
        r is Some <==> insert_named(inserts@, id@, 0) is Some,
        r matches Some(i) ==> insert_named(inserts@, id@, 0) == Some(i as int) && i
            < inserts@.len(),
{
    let mut i: usize = 0;
    while i < inserts.len()
        invariant
            i <= inserts@.len(),
            insert_named(inserts@, id@, 0) == insert_named(inserts@, id@, i as int),
        decreases inserts@.len() - i,
    {
        if str_eq(&inserts[i].id, id) {
            return Some(i);
        }
        i = i + 1;
    }
    None
}

fn place_text(track_id: &str, insert_id: &str) -> (r: String)
    ensures
        r@ == "track="@ + track_id@ + " insert="@ + insert_id@,
{
    let head: String = join("track=", track_id);
    let head: String = join(&head, " insert=");
    join(&head, insert_id)
}

impl RuntimeProject {
    /// The place of an insert that has a plug-in instance.
    pub fn instance_at(&self, track_id: &str, insert_id: &str) -> (r: Option<(usize, usize)>)
        ensures
            r is Some <==> instance_place(*self, track_id@, insert_id@) is Some,
            r matches Some(place) ==> instance_place(*self, track_id@, insert_id@) == Some(
                (place.0 as int, place.1 as int),
            ),
    {
        match find_runtime_track(&self.tracks, track_id) {
            Some(t) => match find_insert(&self.tracks[t].inserts, insert_id) {
                Some(i) => if self.tracks[t].inserts[i].native.is_some() {
                    Some((t, i))
                } else {
                    None
                },
                None => None,
            },
            None => None,
        }
    }
}

impl EngineInner {
    /// The place of an insert that has a plug-in instance.
    pub fn insert_processor(&self, track_id: &str, insert_id: &str) -> (r: Option<(usize, usize)>)
        ensures
            r is Some <==> instance_place(self.runtime, track_id@, insert_id@) is Some,
            r matches Some(place) ==> instance_place(self.runtime, track_id@, insert_id@) == Some(
                (place.0 as int, place.1 as int),
            ),
    {
        self.runtime.instance_at(track_id, insert_id)
    }

    /// The insert whose editor is to be opened, or why it has none.
    pub fn open_insert_editor(&self, track_id: &str, insert_id: &str) -> (r: Result<
        (usize, usize),
        SphereAudioError,
    >)
        ensures
            instance_place(self.runtime, track_id@, insert_id@) matches Some(place) ==> (
            r matches Ok(at) && at.0 == place.0 && at.1 == place.1),
            instance_place(self.runtime, track_id@, insert_id@) is None ==> (r matches Err(
                SphereAudioError::NativeError(why),
            ) && why@ == editor_refusal(self.runtime, track_id@, insert_id@)),
    {
        let t: usize = match find_runtime_track(&self.runtime.tracks, track_id) {
            Some(t) => t,
            None => {
                return Err(
                    SphereAudioError::NativeError(
                        join("track not found for insert editor: ", track_id),
                    ),
                );
            },
        };
        let i: usize = match find_insert(&self.runtime.tracks[t].inserts, insert_id) {
            Some(i) => i,
            None => {
                return Err(
                    SphereAudioError::NativeError(
                        join("insert not found for editor: ", &place_text(track_id, insert_id)),
                    ),
                );
            },
        };
        if self.runtime.tracks[t].inserts[i].native.is_none() {
            return Err(
                SphereAudioError::NativeError(
                    join("insert has no ready VST3 processor: ", &place_text(track_id, insert_id)),
                ),
            );
        }
        Ok((t, i))
    }
}

impl EngineInner {
    /// The insert whose editor is to be closed, `None` where there is no plug-in
    /// instance and so nothing to close.
    pub fn close_insert_editor(&self, track_id: &str, insert_id: &str) -> (r: Option<
        (usize, usize),
    >)
        ensures
            r is Some <==> instance_place(self.runtime, track_id@, insert_id@) is Some,
            r matches Some(place) ==> instance_place(self.runtime, track_id@, insert_id@) == Some(
                (place.0 as int, place.1 as int),
            ),
    {
        self.runtime.instance_at(track_id, insert_id)
    }

    /// The insert whose editor is to be brought to the front, `None` where there
    /// is no plug-in instance.
    pub fn focus_insert_editor(&self, track_id: &str, insert_id: &str) -> (r: Option<
        (usize, usize),
    >)
        ensures
            r is Some <==> instance_place(self.runtime, track_id@, insert_id@) is Some,
            r matches Some(place) ==> instance_place(self.runtime, track_id@, insert_id@) == Some(
                (place.0 as int, place.1 as int),
            ),
    {
        self.runtime.instance_at(track_id, insert_id)
    }
}

/// An editor is found only where there is a plug-in instance: at an insert of
/// that id, on a track of that id.
pub proof fn law_editors_are_where_instances_are(
    p: RuntimeProject,
    track_id: Seq<char>,
    insert_id: Seq<char>,
)
    ensures
        instance_place(p, track_id, insert_id) matches Some(place) ==> 0 <= place.0
            < p.tracks@.len() && p.tracks@[place.0].id@ == track_id && 0 <= place.1
            < p.tracks@[place.0].inserts@.len() && p.tracks@[place.0].inserts@[place.1].id@
            == insert_id && p.tracks@[place.0].inserts@[place.1].native is Some,
{
    lemma_track_named(p.tracks@, track_id, 0);
    if let Some(t) = track_named(p.tracks@, track_id, 0) {
        lemma_insert_named(p.tracks@[t].inserts@, insert_id, 0);
    }
}

proof fn lemma_track_named(tracks: Seq<RuntimeTrack>, id: Seq<char>, from: int)
    requires
        0 <= from,
    ensures
        track_named(tracks, id, from) matches Some(t) ==> from <= t < tracks.len()
            && tracks[t].id@ == id,
    decreases tracks.len() - from,
{
    if from < tracks.len() {
        lemma_track_named(tracks, id, from + 1);
    }
}

proof fn lemma_insert_named(inserts: Seq<RuntimeInsert>, id: Seq<char>, from: int)
    requires
        0 <= from,
    ensures
        insert_named(inserts, id, from) matches Some(i) ==> from <= i < inserts.len()
            && inserts[i].id@ == id,
    decreases inserts.len() - from,
{
    if from < inserts.len() {
        lemma_insert_named(inserts, id, from + 1);
    }
}

/// What is said of an editor that the plug-in did not open.
pub fn editor_not_opened(track_id: &str, insert_id: &str) -> (r: SphereAudioError)
    ensures
        r matches SphereAudioError::NativeError(why) && why@ == "failed to open VST3 editor: "@ + (
        "track="@ + track_id@ + " insert="@ + insert_id@),
{
    SphereAudioError::NativeError(
        join("failed to open VST3 editor: ", &place_text(track_id, insert_id)),
    )
}

// ── Insert states ───────────────────────────────────────────────────────────

/// Whether an insert came up.
#[derive(Debug)]
pub struct EngineInsertStatus {
    pub track_id: String,
    pub insert_id: String,
    /// Whether it is a plug-in living in this process.
    pub native: bool,
    /// Whether it processes; a processor of the engine itself always does.
    pub ready: bool,
}

/// The state of an insert.
pub open spec fn insert_state(insert: RuntimeInsert) -> (bool, bool) {
    let native = text::same_ignoring_case(insert.kind@, "native-plugin"@);
    (
        native,
        if native {
            insert.native matches Some(n) && n.ready
        } else {
            true
        },
    )
}

/// Whether a status is the one of this insert on this track.
pub open spec fn status_of(
    status: EngineInsertStatus,
    track: RuntimeTrack,
    insert: RuntimeInsert,
) -> bool {
    &&& status.track_id == track.id
    &&& status.insert_id == insert.id
    &&& (status.native, status.ready) == insert_state(insert)
}

/// Where the inserts of track `t` start among all inserts.
pub open spec fn first_insert(tracks: Seq<RuntimeTrack>, t: nat) -> nat
    decreases t,
{
    if t == 0 {
        0
    } else {
        first_insert(tracks, (t - 1) as nat) + tracks[t - 1].inserts@.len()
    }
}

/// Whether the statuses hold insert `i` of track `t` at its place.
pub open spec fn status_at(
    statuses: Seq<EngineInsertStatus>,
    tracks: Seq<RuntimeTrack>,
    t: int,
    i: int,
) -> bool {
    let k = first_insert(tracks, t as nat) + i;
    k < statuses.len() && status_of(statuses[k], tracks[t], tracks[t].inserts@[i])
}

/// The state of every insert, track by track in order.
pub fn insert_statuses(project: &RuntimeProject) -> (r: Vec<EngineInsertStatus>)
    ensures
        r@.len() == first_insert(project.tracks@, project.tracks@.len()),
        forall|t: int, i: int|
            0 <= t < project.tracks@.len() && 0 <= i < project.tracks@[t].inserts@.len()
                ==> #[trigger] status_at(r@, project.tracks@, t, i),
{
    let mut out: Vec<EngineInsertStatus> = Vec::new();
    let ghost tracks = project.tracks@;
    let mut t: usize = 0;
    while t < project.tracks.len()
        invariant
            t <= tracks.len(),
            tracks == project.tracks@,
            out@.len() == first_insert(tracks, t as nat),
            forall|u: int, i: int|
                0 <= u < t && 0 <= i < tracks[u].inserts@.len() ==> #[trigger] status_at(
                    out@,
                    tracks,
                    u,
                    i,
                ),
        decreases tracks.len() - t,
    {
        let track: &RuntimeTrack = &project.tracks[t];
        let mut i: usize = 0;
        let ghost base = out@.len();
        while i < track.inserts.len()
            invariant
                t < tracks.len(),
                *track == tracks[t as int],
                i <= track.inserts@.len(),
                base == first_insert(tracks, t as nat),
                out@.len() == base + i,
                forall|u: int, j: int|
                    0 <= u < t && 0 <= j < tracks[u].inserts@.len() ==> #[trigger] status_at(
                    out@,
                    tracks,
                    u,
                    j,
                ),
                forall|j: int|
                    0 <= j < i ==> status_of(
                        #[trigger] out@[base + j],
                        tracks[t as int],
                        tracks[t as int].inserts@[j],
                    ),
            decreases track.inserts@.len() - i,
        {
            let insert: &RuntimeInsert = &track.inserts[i];
            let ghost had = out@;
            let native: bool = eq_ignore_ascii_case(&insert.kind, "native-plugin");
            let ready: bool = if native {
                match &insert.native {
                    Some(n) => n.ready,
                    None => false,
                }
            } else {
                true
            };
            out.push(
                EngineInsertStatus {
                    track_id: track.id.clone(),
                    insert_id: insert.id.clone(),
                    native,
                    ready,
                },
            );
            proof {
                assert forall|u: int, j: int|
                    0 <= u < t && 0 <= j < tracks[u].inserts@.len() implies #[trigger] status_at(
                    out@,
                    tracks,
                    u,
                    j,
                ) by {
                    assert(status_at(had, tracks, u, j));
                    assert(out@[first_insert(tracks, u as nat) + j] == had[first_insert(
                        tracks,
                        u as nat,
                    ) + j]);
                }
            }
            i = i + 1;
        }
        proof {
            assert forall|u: int, j: int|
                0 <= u < t + 1 && 0 <= j < tracks[u].inserts@.len() implies #[trigger] status_at(
                out@,
                tracks,
                u,
                j,
            ) by {
                if u == t {
                    assert(status_of(
                        out@[base + j],
                        tracks[t as int],
                        tracks[t as int].inserts@[j],
                    ));
                }
            }
        }
        t = t + 1;
    }
    out
}

// ── Latencies ───────────────────────────────────────────────────────────────

/// The latency that an insert reports, in samples: a plug-in in this process
/// its own, a bound bridge its plug-in's and one block.
pub open spec fn reported_latency(insert: RuntimeInsert, buffer_frames: u32) -> nat {
    if !insert.enabled {
        0
    } else {
        match insert.native {
            Some(n) => if n.ready && n.latency_samples > 0 {
                n.latency_samples as nat
            } else {
                0
            },
            None => if text::same_ignoring_case(insert.kind@, "external-bridge-plugin"@) {
                match insert.bridge {
                    Some(b) => (b.reported_latency_samples + buffer_frames) as nat,
                    None => 0,
                }
            } else {
                0
            },
        }
    }
}

/// The latency that a chain reports.
pub open spec fn chain_latency(inserts: Seq<RuntimeInsert>, buffer_frames: u32) -> nat
    decreases inserts.len(),
{
    if inserts.len() == 0 {
        0
    } else {
        chain_latency(inserts.drop_last(), buffer_frames) + reported_latency(
            inserts.last(),
            buffer_frames,
        )
    }
}

/// The latency that is shown for a track's plug-ins: what they report now, else
/// what the graph was planned with.
pub open spec fn shown_latency(track: RuntimeTrack, buffer_frames: u32) -> nat {
    let now = chain_latency(track.inserts@, buffer_frames);
    if now > 0 {
        now % 0x1_0000_0000
    } else {
        latency_graph::strip_latency(track)
    }
}

/// A track's latencies, in samples.
#[derive(Clone, Copy, Debug, PartialEq, Eq, Structural)]
pub struct TrackLatency {
    pub track_index: usize,
    pub plugin_samples: u32,
    pub path_samples: u32,
    pub pdc_delay_samples: u32,
}

/// The project's latencies, in samples.
#[derive(Debug)]
pub struct LatencyInfo {
    /// Rate that the samples count at, at least one.
    pub sample_rate: u32,
    pub buffer_frames: u32,
    /// Every track but the master, in order.
    pub tracks: Vec<TrackLatency>,
    pub master_samples: u32,
    pub max_path_samples: u32,
    pub pdc_enabled: bool,
    pub max_track_samples: u32,
}

/// The delay that a track is given.
pub open spec fn given_delay(graph: RuntimeLatencyGraph, t: int) -> u32 {
    if t < graph.track_pdc_delay@.len() {
        graph.track_pdc_delay@[t]
    } else {
        0
    }
}

/// The latencies of a track.
pub open spec fn track_latency(p: RuntimeProject, buffer_frames: u32, t: int) -> TrackLatency {
    TrackLatency {
        track_index: t as usize,
        plugin_samples: shown_latency(p.tracks@[t], buffer_frames) as u32,
        path_samples: take::path_samples(p.latency_graph, t),
        pdc_delay_samples: given_delay(p.latency_graph, t),
    }
}

/// The latencies of the first `n` tracks, the master left out.
pub open spec fn track_latencies(p: RuntimeProject, buffer_frames: u32, n: nat) -> Seq<
    TrackLatency,
>
    decreases n,
{
    if n == 0 {
        Seq::empty()
    } else {
        let rest = track_latencies(p, buffer_frames, (n - 1) as nat);
        if p.tracks@[n - 1].track_type@ == "master"@ {
            rest
        } else {
            rest.push(track_latency(p, buffer_frames, n - 1))
        }
    }
}

/// The master's latency among the first `n` tracks: the last master's.
pub open spec fn master_latency(p: RuntimeProject, buffer_frames: u32, n: nat) -> u32
    decreases n,
{
    if n == 0 {
        0
    } else if p.tracks@[n - 1].track_type@ == "master"@ {
        shown_latency(p.tracks@[n - 1], buffer_frames) as u32
    } else {
        master_latency(p, buffer_frames, (n - 1) as nat)
    }
}

/// The largest plug-in latency of some tracks.
pub open spec fn largest_plugin(tracks: Seq<TrackLatency>) -> u32
    decreases tracks.len(),
{
    if tracks.len() == 0 {
        0
    } else {
        let rest = largest_plugin(tracks.drop_last());
        if tracks.last().plugin_samples > rest {
            tracks.last().plugin_samples
        } else {
            rest
        }
    }
}

/// A project whose chains are short enough for their latencies to be summed.
pub open spec fn chains_fit(p: RuntimeProject) -> bool {
    &&& latency_graph::strips_fit(p.tracks@)
    &&& forall|t: int|
        #![trigger p.tracks@[t]]
        0 <= t < p.tracks@.len() ==> p.tracks@[t].inserts@.len() <= 0x3fff_ffff
}

fn insert_reports(insert: &RuntimeInsert, buffer_frames: u32) -> (r: u64)
    ensures
        r == reported_latency(*insert, buffer_frames),
        r <= 0x1_ffff_ffff,
{
    if !insert.enabled {
        return 0;
    }
    match &insert.native {
        Some(n) => if n.ready && n.latency_samples > 0 {
            n.latency_samples as u64
        } else {
            0
        },
        None => if eq_ignore_ascii_case(&insert.kind, "external-bridge-plugin") {
            match &insert.bridge {
                Some(b) => b.reported_latency_samples as u64 + buffer_frames as u64,
                None => 0,
            }
        } else {
            0
        },
    }
}

fn chain_reports(inserts: &Vec<RuntimeInsert>, buffer_frames: u32) -> (r: u64)
    requires
        inserts@.len() <= 0x3fff_ffff,
    ensures
        r == chain_latency(inserts@, buffer_frames),
{
    let mut sum: u64 = 0;
    let mut i: usize = 0;
    proof {
        assert(inserts@.take(0) =~= Seq::empty());
    }
    while i < inserts.len()
        invariant
            i <= inserts@.len() <= 0x3fff_ffff,
            sum == chain_latency(inserts@.take(i as int), buffer_frames),
            sum <= i * 0x1_ffff_ffff,
        decreases inserts@.len() - i,
    {
        proof {
            assert(inserts@.take(i + 1).drop_last() =~= inserts@.take(i as int));
            assert(inserts@.take(i + 1).last() == inserts@[i as int]);
        }
        sum = sum + insert_reports(&inserts[i], buffer_frames);
        i = i + 1;
    }
    proof {
        assert(inserts@.take(inserts@.len() as int) =~= inserts@);
    }
    sum
}

fn track_shows(track: &RuntimeTrack, buffer_frames: u32) -> (r: u32)
    requires
        latency_graph::inserts_latency(track.inserts@) <= u32::MAX,
        track.inserts@.len() <= 0x3fff_ffff,
    ensures
        r == shown_latency(*track, buffer_frames),
{
    let now: u64 = chain_reports(&track.inserts, buffer_frames);
    if now > 0 {
        (now % 0x1_0000_0000) as u32
    } else {
        strip_plugin_latency_samples(track)
    }
}

impl EngineInner {
    /// The project's latencies. `forced_off` is the process-wide switch against
    /// delay compensation.
    pub fn get_latency_info(&self, forced_off: bool) -> (r: LatencyInfo)
        requires
            chains_fit(self.runtime),
        ensures
            r.sample_rate == state::at_least_one(self.status.sample_rate),
            r.buffer_frames == self.status.buffer_size,
            r.tracks@ == track_latencies(
                self.runtime,
                self.status.buffer_size,
                self.runtime.tracks@.len(),
            ),
            r.master_samples == master_latency(
                self.runtime,
                self.status.buffer_size,
                self.runtime.tracks@.len(),
            ),
            r.max_path_samples == self.runtime.latency_graph.max_path_latency_samples,
            r.pdc_enabled == (!forced_off && self.shared.pdc_enabled),
            r.max_track_samples == largest_plugin(r.tracks@),
    {
        let buffer_frames: u32 = self.status.buffer_size;
        let ghost p = self.runtime;
        let mut tracks: Vec<TrackLatency> = Vec::new();
        let mut master_samples: u32 = 0;
        let mut largest: u32 = 0;
        let mut t: usize = 0;
        while t < self.runtime.tracks.len()
            invariant
                p == self.runtime,
                chains_fit(p),
                t <= p.tracks@.len(),
                tracks@ == track_latencies(p, buffer_frames, t as nat),
                master_samples == master_latency(p, buffer_frames, t as nat),
                largest == largest_plugin(tracks@),
            decreases p.tracks@.len() - t,
        {
            let track: &RuntimeTrack = &self.runtime.tracks[t];
            let plugin_samples: u32 = track_shows(track, buffer_frames);
            if str_eq(&track.track_type, "master") {
                master_samples = plugin_samples;
            } else {
                let graph: &RuntimeLatencyGraph = &self.runtime.latency_graph;
                let pdc_delay_samples: u32 = if t < graph.track_pdc_delay.len() {
                    graph.track_pdc_delay[t]
                } else {
                    0
                };
                let entry = TrackLatency {
                    track_index: t,
                    plugin_samples,
                    path_samples: track_path_samples(graph, t),
                    pdc_delay_samples,
                };
                proof {
                    assert(tracks@.push(entry).drop_last() =~= tracks@);
                }
                tracks.push(entry);
                if plugin_samples > largest {
                    largest = plugin_samples;
                }
            }
            t = t + 1;
        }
        LatencyInfo {
            sample_rate: state::one_or_more(self.status.sample_rate),
            buffer_frames,
            tracks,
            master_samples,
            max_path_samples: self.runtime.latency_graph.max_path_latency_samples,
            pdc_enabled: self.pdc_enabled(forced_off),
            max_track_samples: largest,
        }
    }
}

// ── Meters ──────────────────────────────────────────────────────────────────

/// A track's level, as bit patterns.
#[derive(Debug)]
pub struct TrackMeter {
    pub track_id: String,
    pub peak_l: u32,
    pub peak_r: u32,
    pub rms_l: u32,
    pub rms_r: u32,
}

/// The first track from `from` on with this id whose input is armed or heard.
pub open spec fn live_track(tracks: Seq<TrackSnapshot>, id: Seq<char>, from: int) -> Option<int>
    decreases tracks.len() - from,
{
    if from >= tracks.len() {
        None
    } else if tracks[from].id@ == id && tracks[from].track_type@ == "audio"@ && (tracks[from].armed
        || tracks[from].input_monitor) {
        Some(from)
    } else {
        live_track(tracks, id, from + 1)
    }
}

/// The peaks that a track's meter shows of its input, `None` where it shows its
/// own level.
pub open spec fn input_level(tracks: Seq<TrackSnapshot>, id: Seq<char>, peaks: Seq<u32>) -> Option<
    (u32, u32),
> {
    match live_track(tracks, id, 0) {
        Some(i) => match state::route_pair(tracks[i].input_source.channels@) {
            Some(pair) => Some((state::peak_of(peaks, pair.0), state::peak_of(peaks, pair.1))),
            None => None,
        },
        None => None,
    }
}

/// A meter with the level of the track's input in place of its own.
pub open spec fn metered(
    meter: TrackMeter,
    tracks: Seq<TrackSnapshot>,
    peaks: Seq<u32>,
) -> TrackMeter {
    match input_level(tracks, meter.track_id@, peaks) {
        Some(level) => TrackMeter {
            peak_l: level.0,
            peak_r: level.1,
            rms_l: 0,
            rms_r: 0,
            ..meter
        },
        None => meter,
    }
}

fn find_live_track(tracks: &Vec<TrackSnapshot>, id: &str) -> (r: Option<usize>)
    ensures
        r is Some <==> live_track(tracks@, id@, 0) is Some,
        r matches Some(i) ==> live_track(tracks@, id@, 0) == Some(i as int) && i < tracks@.len(),
{
    let mut i: usize = 0;
    while i < tracks.len()
        invariant
            i <= tracks@.len(),
            live_track(tracks@, id@, 0) == live_track(tracks@, id@, i as int),
        decreases tracks@.len() - i,
    {
        if str_eq(&tracks[i].id, id) && str_eq(&tracks[i].track_type, "audio") && (tracks[i].armed
            || tracks[i].input_monitor) {
            return Some(i);
        }
        i = i + 1;
    }
    None
}

/// Show the level of its input on the meter of every track that is armed or
/// monitored.
pub fn meter_inputs(meters: &mut Vec<TrackMeter>, tracks: &Vec<TrackSnapshot>, peaks: &[u32])
    ensures
        final(meters)@.len() == old(meters)@.len(),
        forall|i: int|
            0 <= i < final(meters)@.len() ==> #[trigger] final(meters)@[i] == metered(
                old(meters)@[i],
                tracks@,
                peaks@,
            ),
{
    let ghost before = meters@;
    let mut i: usize = 0;
    while i < meters.len()
        invariant
            i <= meters@.len(),
            meters@.len() == before.len(),
            forall|j: int|
                0 <= j < i ==> #[trigger] meters@[j] == metered(before[j], tracks@, peaks@),
            forall|j: int| i <= j < meters@.len() ==> #[trigger] meters@[j] == before[j],
        decreases meters@.len() - i,
    {
        let level: Option<(u32, u32)> = match find_live_track(tracks, &meters[i].track_id) {
            Some(k) => routed_input_peaks(peaks, tracks[k].input_source.channels.as_slice()),
            None => None,
        };
        if let Some((left, right)) = level {
            let meter: &mut TrackMeter = &mut meters[i];
            meter.peak_l = left;
            meter.peak_r = right;
            meter.rms_l = 0;
            meter.rms_r = 0;
        }
        i = i + 1;
    }
}

/// The level of one output channel of a plug-in, as a bit pattern.
#[derive(Debug)]
pub struct PluginOutputMeter {
    pub track_id: String,
    pub insert_id: String,
    pub channel: u32,
    pub peak: u32,
}

/// All levels as they are shown, as bit patterns.
#[derive(Debug)]
pub struct MeterSnapshot {
    pub tracks: Vec<TrackMeter>,
    /// The output channels of the plug-ins.
    pub plugin_outputs: Vec<PluginOutputMeter>,
    pub master_peak_l: u32,
    pub master_peak_r: u32,
    pub master_rms_l: u32,
    pub master_rms_r: u32,
    /// Largest input since the last reading.
    pub input_peak_l: u32,
    pub input_peak_r: u32,
}

/// The meters of the tracks, those of armed and monitored ones showing their
/// input where a duplex session hands over the peaks of its channels.
pub open spec fn shown_meter(e: EngineInner, meter: TrackMeter, peaks: Option<Seq<u32>>) -> (
    TrackMeter) {
    match (peaks, e.project) {
        (Some(p), Some(project)) => metered(meter, project.tracks@, p),
        _ => meter,
    }
}

impl EngineInner {
    /// All levels as they are shown. `tracks` are the levels of the tracks,
    /// `plugin_outputs` those of the plug-ins' output channels, and
    /// `session_peaks` those of the channels of a duplex session. The input's
    /// peaks start afresh.
    #[verifier::rlimit(30)]
    pub fn get_meters(
        &mut self,
        tracks: Vec<TrackMeter>,
        plugin_outputs: Vec<PluginOutputMeter>,
        session_peaks: Option<Vec<u32>>,
    ) -> (r: MeterSnapshot)
        ensures
            r.plugin_outputs == plugin_outputs,
            r.tracks@.len() == tracks@.len(),
            forall|i: int|
                0 <= i < tracks@.len() ==> #[trigger] r.tracks@[i] == shown_meter(
                    *old(self),
                    tracks@[i],
                    match session_peaks {
                        Some(p) => Some(p@),
                        None => None,
                    },
                ),
            r.master_peak_l == old(self).shared.peak_l,
            r.master_peak_r == old(self).shared.peak_r,
            r.master_rms_l == old(self).shared.rms_l,
            r.master_rms_r == old(self).shared.rms_r,
            r.input_peak_l == old(self).shared.live_input_peak_l,
            r.input_peak_r == old(self).shared.live_input_peak_r,
            *final(self) == (EngineInner {
                shared: SharedState {
                    live_input_peak_l: 0,
                    live_input_peak_r: 0,
                    ..old(self).shared
                },
                ..*old(self)
            }),
    {
        let mut tracks: Vec<TrackMeter> = tracks;
        if let Some(peaks) = &session_peaks {
            if let Some(project) = &self.project {
                meter_inputs(&mut tracks, &project.tracks, peaks.as_slice());
            }
        }
        let left: u32 = self.shared.live_input_peak_l;
        let right: u32 = self.shared.live_input_peak_r;
        self.shared.live_input_peak_l = 0;
        self.shared.live_input_peak_r = 0;
        MeterSnapshot {
            tracks,
            plugin_outputs,
            master_peak_l: self.shared.peak_l,
            master_peak_r: self.shared.peak_r,
            master_rms_l: self.shared.rms_l,
            master_rms_r: self.shared.rms_r,
            input_peak_l: left,
            input_peak_r: right,
        }
    }
}

// ── Diagnostics ─────────────────────────────────────────────────────────────

/// Where a bit pattern that stands for a number lies among them.
pub open spec fn rank(bits: u32) -> int {
    if bits < 0x8000_0000 {
        bits as int
    } else {
        0x8000_0000 - bits
    }
}

/// The larger of two levels, what is no number giving way.
pub open spec fn larger_level(a: u32, b: u32) -> u32 {
    if render::is_nan_bits(a) {
        b
    } else if render::is_nan_bits(b) || rank(a) >= rank(b) {
        a
    } else {
        b
    }
}

fn louder(a: u32, b: u32) -> (r: u32)
    ensures
        r == larger_level(a, b),
{
    let a_rank: i64 = if a < 0x8000_0000 {
        a as i64
    } else {
        0x8000_0000 - a as i64
    };
    let b_rank: i64 = if b < 0x8000_0000 {
        b as i64
    } else {
        0x8000_0000 - b as i64
    };
    if nan_bits(a) {
        b
    } else if nan_bits(b) || a_rank >= b_rank {
        a
    } else {
        b
    }
}

/// The audio tracks among the first `n`.
pub open spec fn audio_tracks(tracks: Seq<RuntimeTrack>, n: nat) -> Seq<int>
    decreases n,
{
    if n == 0 {
        Seq::empty()
    } else {
        let rest = audio_tracks(tracks, (n - 1) as nat);
        if tracks[n - 1].track_type@ == "audio"@ {
            rest.push(n - 1)
        } else {
            rest
        }
    }
}

/// The whole path of the sound in numbers.
#[derive(Debug)]
pub struct AudioDiagnostics {
    pub input_device_name: Option<String>,
    pub output_device_name: Option<String>,
    pub input_stream_running: bool,
    pub output_stream_running: bool,
    pub input_sample_rate: u32,
    pub input_channels: u32,
    pub raw_input_peak: u32,
    pub input_bus_peak: u32,
    pub output_peak: u32,
    /// Where the audio tracks stand among the loaded ones.
    pub tracks: Vec<usize>,
    pub input_callback_count: u64,
    pub output_callback_count: u64,
    pub input_frames_received: u64,
    pub monitor_frames_consumed: u64,
    pub monitor_ring_underruns: u64,
    pub monitor_ring_overruns: u64,
    pub record_ring_overruns: u64,
    pub output_xruns: u64,
    pub monitor_output_peak: u32,
    pub record_peak: u32,
}

impl EngineInner {
    /// The whole path of the sound in numbers. Nothing is reset by reading it.
    pub fn get_audio_diagnostics(&self) -> (r: AudioDiagnostics)
        ensures
            text::optional(r.input_device_name) == match self.live_input {
                Some(live) => text::optional(live.device_id),
                None => None,
            },
            r.output_device_name == self.status.output_device,
            r.input_stream_running == (self.live_input is Some && self.shared.input_ring@.active),
            r.output_stream_running == self.status.running,
            r.input_sample_rate == self.shared.input_ring@.sample_rate,
            r.input_channels == self.shared.input_ring@.channels,
            r.raw_input_peak == larger_level(
                self.shared.live_input_peak_l,
                self.shared.live_input_peak_r,
            ),
            r.input_bus_peak == larger_level(
                self.shared.input_bus_peak_l,
                self.shared.input_bus_peak_r,
            ),
            r.output_peak == larger_level(self.shared.peak_l, self.shared.peak_r),
            r.tracks@.map_values(|i: usize| i as int) == audio_tracks(
                self.runtime.tracks@,
                self.runtime.tracks@.len(),
            ),
            r.input_callback_count == self.shared.input_cb_count,
            r.output_callback_count == self.shared.output_cb_count,
            r.input_frames_received == self.shared.input_frames_received,
            r.monitor_frames_consumed == self.shared.monitor_frames_consumed,
            r.monitor_ring_underruns == self.shared.monitor_ring_underruns,
            r.monitor_ring_overruns == self.shared.monitor_ring_overruns,
            r.record_ring_overruns == self.shared.record_ring_overruns,
            r.output_xruns == self.shared.output_xruns,
            r.monitor_output_peak == self.shared.monitor_output_peak,
            r.record_peak == self.shared.record_peak,
    {
        let mut tracks: Vec<usize> = Vec::new();
        let mut i: usize = 0;
        proof {
            assert(tracks@.map_values(|k: usize| k as int) =~= Seq::<int>::empty());
        }
        while i < self.runtime.tracks.len()
            invariant
                i <= self.runtime.tracks@.len(),
                tracks@.map_values(|k: usize| k as int) == audio_tracks(
                    self.runtime.tracks@,
                    i as nat,
                ),
            decreases self.runtime.tracks@.len() - i,
        {
            if str_eq(&self.runtime.tracks[i].track_type, "audio") {
                let ghost before = tracks@;
                tracks.push(i);
                proof {
                    assert(tracks@.map_values(|k: usize| k as int) =~= before.map_values(
                        |k: usize| k as int,
                    ).push(i as int));
                }
            }
            i = i + 1;
        }
        let input_device_name: Option<String> = match &self.live_input {
            Some(live) => text::copy_optional(&live.device_id),
            None => None,
        };
        AudioDiagnostics {
            input_device_name,
            output_device_name: text::copy_optional(&self.status.output_device),
            input_stream_running: self.input_stream_running(),
            output_stream_running: self.status.running,
            input_sample_rate: self.shared.input_ring.sample_rate(),
            input_channels: self.shared.input_ring.channels(),
            raw_input_peak: louder(self.shared.live_input_peak_l, self.shared.live_input_peak_r),
            input_bus_peak: louder(self.shared.input_bus_peak_l, self.shared.input_bus_peak_r),
            output_peak: louder(self.shared.peak_l, self.shared.peak_r),
            tracks,
            input_callback_count: self.shared.input_cb_count,
            output_callback_count: self.shared.output_cb_count,
            input_frames_received: self.shared.input_frames_received,
            monitor_frames_consumed: self.shared.monitor_frames_consumed,
            monitor_ring_underruns: self.shared.monitor_ring_underruns,
            monitor_ring_overruns: self.shared.monitor_ring_overruns,
            record_ring_overruns: self.shared.record_ring_overruns,
            output_xruns: self.shared.output_xruns,
            monitor_output_peak: self.shared.monitor_output_peak,
            record_peak: self.shared.record_peak,
        }
    }
}

// ── Counts ──────────────────────────────────────────────────────────────────

/// A route that the graph refused.
#[derive(Debug)]
pub struct RejectedRoute {
    pub from_track_id: String,
    pub to_track_id: String,
    /// What kind of route it is, as it is shown.
    pub kind: String,
    pub reason: String,
}

/// What is said of a refused route.
pub open spec fn rejected_text(route: RejectedRoute) -> Seq<char> {
    route.from_track_id@ + " -> "@ + route.to_track_id@ + " ("@ + route.kind@ + "): "@
        + route.reason@
}

/// What is said of a refused route.
pub fn rejected_summary(route: &RejectedRoute) -> (r: String)
    ensures
        r@ == rejected_text(*route),
{
    let head: String = join(&route.from_track_id, " -> ");
    let head: String = join(&head, &route.to_track_id);
    let head: String = join(&head, " (");
    let head: String = join(&head, &route.kind);
    let head: String = join(&head, "): ");
    join(&head, &route.reason)
}

/// How many of the first `n` sources hold any frames.
pub open spec fn ready_sources(frames: Seq<u64>, n: nat) -> nat
    decreases n,
{
    if n == 0 {
        0
    } else {
        ready_sources(frames, (n - 1) as nat) + (if frames[n - 1] > 0 {
            1nat
        } else {
            0nat
        })
    }
}

/// What there is of a loaded project.
#[derive(Debug)]
pub struct EngineDebugInfo {
    pub project_id: Option<String>,
    pub loaded_tracks: usize,
    pub loaded_clips: usize,
    pub ready_clips: usize,
    pub is_playing: bool,
    pub loop_enabled: bool,
    pub has_solo: bool,
    pub graph_node_count: u32,
    pub graph_pass1_count: usize,
    pub graph_pass2_count: usize,
    pub graph_rejected_route_count: usize,
    pub graph_rejected_route_summaries: Vec<String>,
}

impl EngineInner {
    /// What there is of the loaded project. `clip_frames` is how many frames
    /// each clip's source holds, and `graph_node_count` how many nodes its graph
    /// was built with.
    pub fn get_debug_info(
        &self,
        clip_frames: &Vec<u64>,
        graph_node_count: u32,
        rejected: &Vec<RejectedRoute>,
    ) -> (r: EngineDebugInfo)
        ensures
            r.graph_node_count == graph_node_count,
            text::optional(r.project_id) == match self.project {
                Some(p) => Some(p.project_id@),
                None => None,
            },
            r.loaded_tracks == self.runtime.tracks@.len(),
            r.loaded_clips == self.runtime.clips@.len(),
            r.ready_clips == ready_sources(clip_frames@, clip_frames@.len()),
            r.is_playing == self.shared.playing,
            r.loop_enabled == self.shared.loop_enabled,
            r.has_solo == self.runtime.has_solo,
            r.graph_pass1_count == self.runtime.audio_graph.pass1_source_indices@.len(),
            r.graph_pass2_count == self.runtime.audio_graph.pass2_routing_indices@.len(),
            r.graph_rejected_route_count == rejected@.len(),
            text::texts(r.graph_rejected_route_summaries@) == Seq::new(
                rejected@.len(),
                |i: int| rejected_text(rejected@[i]),
            ),
    {
        let mut ready: usize = 0;
        let mut i: usize = 0;
        while i < clip_frames.len()
            invariant
                i <= clip_frames@.len(),
                ready == ready_sources(clip_frames@, i as nat),
                ready <= i,
            decreases clip_frames@.len() - i,
        {
            if clip_frames[i] > 0 {
                ready = ready + 1;
            }
            i = i + 1;
        }
        let mut summaries: Vec<String> = Vec::new();
        let mut k: usize = 0;
        while k < rejected.len()
            invariant
                k <= rejected@.len(),
                summaries@.len() == k,
                forall|j: int|
                    0 <= j < k ==> (#[trigger] summaries@[j])@ == rejected_text(rejected@[j]),
            decreases rejected@.len() - k,
        {
            summaries.push(rejected_summary(&rejected[k]));
            k = k + 1;
        }
        proof {
            assert(text::texts(summaries@) =~= Seq::new(
                rejected@.len(),
                |i: int| rejected_text(rejected@[i]),
            ));
        }
        EngineDebugInfo {
            project_id: match &self.project {
                Some(p) => Some(p.project_id.clone()),
                None => None,
            },
            loaded_tracks: self.runtime.tracks.len(),
            loaded_clips: self.runtime.clips.len(),
            ready_clips: ready,
            is_playing: self.shared.playing,
            loop_enabled: self.shared.loop_enabled,
            has_solo: self.runtime.has_solo,
            graph_node_count,
            graph_pass1_count: self.runtime.audio_graph.pass1_source_indices.len(),
            graph_pass2_count: self.runtime.audio_graph.pass2_routing_indices.len(),
            graph_rejected_route_count: rejected.len(),
            graph_rejected_route_summaries: summaries,
        }
    }

    /// Whether the capture stream feeds live input.
    pub fn input_stream_running(&self) -> (r: bool)
        ensures
            r == (self.live_input is Some && self.shared.input_ring@.active),
    {
        self.live_input.is_some() && self.shared.input_ring.is_active()
    }
}

} // verus!
