//! The runtime project as the render and latency planners read it.

use vstd::prelude::*;

use crate::engine::command::TrackInputRoute;
use crate::latency_graph;
use crate::latency_graph::chain_fits;
use crate::latency_graph::indices_fit;
use crate::latency_graph::RuntimeLatencyGraph;
use crate::text::str_eq;

verus! {

/// How an insert is hosted.
#[derive(Clone, Copy, Debug, PartialEq, Eq, Structural)]
pub enum RuntimeInsertKind {
    /// A processor of the engine itself.
    Builtin,
    /// A plug-in instance living in this process.
    NativePlugin,
    /// A plug-in instance behind a bridge to another process.
    ExternalBridge,
}

/// What the engine knows of a plug-in instance living in this process.
#[derive(Clone, Copy, Debug, PartialEq, Eq, Structural)]
pub struct NativeProcessor {
    /// Whether the instance finished loading.
    pub ready: bool,
    /// Whether the underlying instance still exists.
    pub valid: bool,
    /// The latency it reports, in samples; negative reports count as none.
    pub latency_samples: i32,
}

/// What the engine knows of a bound bridge.
#[derive(Clone, Copy, Debug, PartialEq, Eq, Structural)]
pub struct BridgeBinding {
    /// The latency that the bridged plug-in reports, in samples.
    pub reported_latency_samples: u32,
}

/// One insert of a track's chain.
#[derive(Debug)]
pub struct RuntimeInsert {
    pub id: String,
    pub kind: String,
    pub kind_tag: RuntimeInsertKind,
    pub enabled: bool,
    pub native: Option<NativeProcessor>,
    pub bridge: Option<BridgeBinding>,
    /// Whether a bridged plug-in replaces the signal (an effect) or adds to it
    /// (an instrument).
    pub bridge_is_effect: bool,
    /// Consecutive blocks for which the bridge had no fresh output.
    pub bridge_missed_blocks: u32,
    /// The strips that take the separate outputs of a multi-out instrument.
    pub vsti_output_children: Vec<VstiOutputChild>,
}

/// A strip that takes one pair of a multi-out instrument's channels.
#[derive(Clone, Copy, Debug, PartialEq, Eq, Structural)]
pub struct VstiOutputChild {
    pub track_index: usize,
    /// The plug-in's channels, counted from one.
    pub channel_l: u32,
    pub channel_r: u32,
}

/// A plug-in parameter that follows an automation lane.
#[derive(Clone, Copy, Debug, PartialEq, Eq, Structural)]
pub struct RuntimePluginParamBinding {
    pub insert_ix: usize,
    pub lane_ix: usize,
    pub param_id: u32,
    /// Bit pattern of the value last handed to the plug-in.
    pub last_value_bits: u32,
    /// Bit pattern of the lane's value at the current beat, if the lane is live.
    pub value_bits: Option<u32>,
}

/// A send from a track to a return track.
#[derive(Debug)]
pub struct RuntimeSend {
    pub id: String,
    pub return_track_id: String,
    pub return_track_index: Option<usize>,
    /// Bit pattern of the send's level.
    pub level_bits: u32,
    pub enabled: bool,
    pub pre_fader: bool,
}

/// A mixer track.
#[derive(Debug)]
pub struct RuntimeTrack {
    pub id: String,
    pub track_type: String,
    pub muted: bool,
    /// The mute state that automation asks for at the current beat, if any.
    pub automation_muted: Option<bool>,
    pub solo: bool,
    pub record_armed: bool,
    /// Whether the track's live input is heard.
    pub monitor_enabled: bool,
    pub input_source: TrackInputRoute,
    pub output_track_id: Option<String>,
    pub output_track_index: Option<usize>,
    pub inserts: Vec<RuntimeInsert>,
    pub sends: Vec<RuntimeSend>,
    /// The insert that receives the track's MIDI, if any.
    pub midi_instrument_insert_ix: Option<usize>,
    pub plugin_param_automation: Vec<RuntimePluginParamBinding>,
    /// Latency of the whole chain as last observed, bridges included.
    pub plugin_latency_samples: u32,
}

/// The order in which tracks are rendered.
#[derive(Debug)]
pub struct RuntimeAudioGraph {
    pub master_index: Option<usize>,
    /// Source tracks, rendered first.
    pub pass1_source_indices: Vec<usize>,
    /// Routing tracks, rendered once all of their inputs are complete.
    pub pass2_routing_indices: Vec<usize>,
}

/// How a clip's source is stretched.
#[derive(Clone, Copy, Debug, PartialEq, Eq, Structural)]
pub enum StretchBackend {
    InternalRePitch,
    Signalsmith,
}

/// How a clip's source is read.
#[derive(Clone, Copy, Debug, PartialEq, Eq, Structural)]
pub enum ClipDspProcessor {
    NoStretch,
    Resample,
    PhaseVocoderBasic,
}

/// A clip on the timeline.
#[derive(Debug)]
pub struct RuntimeClip {
    pub id: String,
    pub track_id: String,
    pub track_index: Option<usize>,
    pub start_sample: u64,
    pub duration_samples: u64,
    pub muted: bool,
    pub reverse: bool,
    pub fade_in_samples: u64,
    pub fade_out_samples: u64,
    pub processor: ClipDspProcessor,
    pub stretch_backend: StretchBackend,
    /// Whether a stretch processor was made for the clip.
    pub stretch_ready: bool,
    /// Where the stretch processor's stream goes on, if it has one.
    pub stretch_next_project_sample: Option<u64>,
}

/// A project as the audio callback renders it.
#[derive(Debug)]
pub struct RuntimeProject {
    pub sample_rate: u32,
    pub tracks: Vec<RuntimeTrack>,
    pub clips: Vec<RuntimeClip>,
    pub audio_graph: RuntimeAudioGraph,
    pub latency_graph: RuntimeLatencyGraph,
    pub pdc_enabled: bool,
    /// Whether any track is soloed.
    pub has_solo: bool,
}

impl RuntimeProject {
    /// Whether there is nothing in the project.
    pub open spec fn empty(self) -> bool {
        &&& self.tracks@.len() == 0
        &&& self.clips@.len() == 0
        &&& self.audio_graph.master_index is None
        &&& self.audio_graph.pass1_source_indices@.len() == 0
        &&& self.audio_graph.pass2_routing_indices@.len() == 0
        &&& self.latency_graph.empty()
        &&& self.sample_rate == 44100
        &&& self.pdc_enabled
        &&& !self.has_solo
    }
}

impl Default for RuntimeProject {
    /// A project with nothing in it.
    fn default() -> (r: Self)
        ensures
            r.empty(),
            r.well_formed(),
    {
        RuntimeProject {
            sample_rate: 44100,
            tracks: Vec::new(),
            clips: Vec::new(),
            audio_graph: RuntimeAudioGraph {
                master_index: None,
                pass1_source_indices: Vec::new(),
                pass2_routing_indices: Vec::new(),
            },
            latency_graph: RuntimeLatencyGraph::default(),
            pdc_enabled: true,
            has_solo: false,
        }
    }
}

/// How a clip's stretch mode and pitch preservation select its processor.
pub open spec fn clip_processor(mode: Seq<char>, preserve_pitch: bool) -> ClipDspProcessor {
    if mode == "resample"@ {
        ClipDspProcessor::Resample
    } else if mode == "warp"@ {
        ClipDspProcessor::PhaseVocoderBasic
    } else if mode == "manual"@ || mode == "temposync"@ {
        if preserve_pitch {
            ClipDspProcessor::PhaseVocoderBasic
        } else {
            ClipDspProcessor::Resample
        }
    } else {
        ClipDspProcessor::NoStretch
    }
}

/// Select a clip's processor from its stretch mode and pitch preservation.
pub fn resolve_clip_processor(mode: &str, preserve_pitch: bool) -> (r: ClipDspProcessor)
    ensures
        r == clip_processor(mode@, preserve_pitch),
{
    if str_eq(mode, "resample") {
        ClipDspProcessor::Resample
    } else if str_eq(mode, "warp") {
        ClipDspProcessor::PhaseVocoderBasic
    } else if str_eq(mode, "manual") || str_eq(mode, "temposync") {
        if preserve_pitch {
            ClipDspProcessor::PhaseVocoderBasic
        } else {
            ClipDspProcessor::Resample
        }
    } else {
        ClipDspProcessor::NoStretch
    }
}

// ── Latency refresh ─────────────────────────────────────────────────────────

/// The latency that an enabled insert adds to its chain, a bound bridge's
/// one-block handshake counted.
pub open spec fn observed_insert_latency(insert: RuntimeInsert, block_frames: u32) -> nat {
    let bridged: nat = match insert.bridge {
        Some(bridge) => if insert.enabled && insert.kind_tag == RuntimeInsertKind::ExternalBridge {
            (bridge.reported_latency_samples + block_frames) as nat
        } else {
            0
        },
        None => 0,
    };
    latency_graph::insert_latency(insert) + bridged
}

/// The latency of a whole chain, bound bridges counted.
pub open spec fn observed_latency(inserts: Seq<RuntimeInsert>, block_frames: u32) -> nat
    decreases inserts.len(),
{
    if inserts.len() == 0 {
        0
    } else {
        observed_latency(inserts.drop_last(), block_frames) + observed_insert_latency(
            inserts.last(),
            block_frames,
        )
    }
}

/// The chain latency that track `i` is planned with.
pub open spec fn observed_strip(track: RuntimeTrack, block_frames: u32) -> nat {
    latency_graph::saturated(observed_latency(track.inserts@, block_frames))
}

/// `tracks` with every chain latency brought up to date.
pub open spec fn refreshed_tracks(
    before: Seq<RuntimeTrack>,
    after: Seq<RuntimeTrack>,
    block_frames: u32,
) -> bool {
    &&& after.len() == before.len()
    &&& forall|i: int|
        #![trigger after[i]]
        0 <= i < before.len() ==> after[i] == (RuntimeTrack {
            plugin_latency_samples: observed_strip(before[i], block_frames) as u32,
            ..before[i]
        })
}

/// Whether the planned chain latencies are those of the chains now.
pub open spec fn latencies_current(
    tracks: Seq<RuntimeTrack>,
    graph: RuntimeLatencyGraph,
    block_frames: u32,
) -> bool {
    &&& latency_graph::sized_for(graph, tracks.len())
    &&& forall|i: int|
        #![trigger tracks[i]]
        0 <= i < tracks.len() ==> graph.track_plugin_latency@[i] == observed_strip(
            tracks[i],
            block_frames,
        )
}

/// Whether a track type receives sends and main outputs.
pub open spec fn routing_type(track_type: Seq<char>) -> bool {
    track_type == "bus"@ || track_type == "return"@ || track_type == "group"@
}

/// Whether a track type is the master strip.
pub open spec fn master_type(track_type: Seq<char>) -> bool {
    track_type == "master"@
}

/// Whether a track type receives sends and main outputs: bus, return or group.
pub fn is_routing_track_type(track_type: &str) -> (r: bool)
    ensures
        r == routing_type(track_type@),
{
    str_eq(track_type, "bus") || str_eq(track_type, "return") || str_eq(track_type, "group")
}

/// Whether a track type is the master strip.
pub fn is_master_track_type(track_type: &str) -> (r: bool)
    ensures
        r == master_type(track_type@),
{
    str_eq(track_type, "master")
}

/// No track type is both a routing type and the master type.
pub proof fn law_master_is_not_routing(track_type: Seq<char>)
    ensures
        !(routing_type(track_type) && master_type(track_type)),
{
    reveal_strlit("bus");
    reveal_strlit("return");
    reveal_strlit("group");
    reveal_strlit("master");
    if routing_type(track_type) && master_type(track_type) {
        assert("master"@.len() == 6);
        assert("bus"@.len() == 3);
        assert("group"@.len() == 5);
        assert("return"@[0] == 'r');
        assert("master"@[0] == 'm');
    }
}

/// The latency of a whole chain, bound bridges counted.
fn track_insert_latency_samples(track: &RuntimeTrack, block_frames: u32) -> (r: u32)
    ensures
        r == observed_strip(*track, block_frames),
{
    let mut sum: u32 = 0;
    let mut i: usize = 0;
    while i < track.inserts.len()
        invariant
            i <= track.inserts@.len(),
            sum == latency_graph::saturated(
                observed_latency(track.inserts@.take(i as int), block_frames),
            ),
        decreases track.inserts@.len() - i,
    {
        let insert = &track.inserts[i];
        proof {
            assert(track.inserts@.take(i + 1).drop_last() =~= track.inserts@.take(i as int));
        }
        if let Some(native) = insert.native {
            if insert.enabled && native.ready && native.latency_samples > 0 {
                sum = sum.saturating_add(native.latency_samples as u32);
            }
        }
        if let Some(bridge) = insert.bridge {
            if insert.enabled && insert.kind_tag == RuntimeInsertKind::ExternalBridge {
                sum = sum.saturating_add(bridge.reported_latency_samples);
                sum = sum.saturating_add(block_frames);
            }
        }
        i = i + 1;
    }
    proof {
        assert(track.inserts@.take(track.inserts@.len() as int) =~= track.inserts@);
    }
    sum
}

proof fn lemma_observed_covers_inserts(inserts: Seq<RuntimeInsert>, block_frames: u32)
    ensures
        latency_graph::inserts_latency(inserts) <= observed_latency(inserts, block_frames),
    decreases inserts.len(),
{
    if inserts.len() > 0 {
        lemma_observed_covers_inserts(inserts.drop_last(), block_frames);
    }
}

fn all_below(indices: &Vec<usize>, n: usize) -> (r: bool)
    ensures
        r == (forall|k: int|
            #![trigger indices@[k]]
            0 <= k < indices@.len() ==> indices@[k] < n),
{
    let mut i: usize = 0;
    while i < indices.len()
        invariant
            i <= indices@.len(),
            forall|k: int| #![trigger indices@[k]] 0 <= k < i ==> indices@[k] < n,
        decreases indices@.len() - i,
    {
        if indices[i] >= n {
            assert(!(indices@[i as int] < n));
            return false;
        }
        i = i + 1;
    }
    true
}

impl RuntimeProject {
    /// Every index of the project names a track and every chain's latency fits.
    pub open spec fn well_formed(self) -> bool {
        &&& latency_graph::plannable(self.tracks@, self.audio_graph)
        &&& self.audio_graph.master_index matches Some(m) ==> m < self.tracks@.len()
        &&& forall|k: int|
            #![trigger self.audio_graph.pass1_source_indices@[k]]
            0 <= k < self.audio_graph.pass1_source_indices@.len()
                ==> self.audio_graph.pass1_source_indices@[k] < self.tracks@.len()
    }

    /// Whether every index of the project names what it should and every
    /// chain's latency fits.
    pub fn is_well_formed(&self) -> (r: bool)
        ensures
            r == self.well_formed(),
    {
        let n: usize = self.tracks.len();
        let mut i: usize = 0;
        while i < n
            invariant
                i <= n,
                n == self.tracks@.len(),
                forall|k: int|
                    #![trigger self.tracks@[k]]
                    0 <= k < i ==> latency_graph::track_indices_valid(self.tracks@[k], n as nat)
                        && latency_graph::inserts_latency(self.tracks@[k].inserts@) <= u32::MAX,
            decreases n - i,
        {
            if !indices_fit(&self.tracks[i], n) || !chain_fits(&self.tracks[i].inserts) {
                assert(!(latency_graph::track_indices_valid(self.tracks@[i as int], n as nat)
                    && latency_graph::inserts_latency(self.tracks@[i as int].inserts@)
                    <= u32::MAX));
                return false;
            }
            i = i + 1;
        }
        let master: bool = match self.audio_graph.master_index {
            Some(m) => m < n,
            None => true,
        };
        master && all_below(&self.audio_graph.pass1_source_indices, n) && all_below(
            &self.audio_graph.pass2_routing_indices,
            n,
        )
    }

    /// Bring every chain latency up to date and, where one differs from what
    /// the latency graph was planned with, plan the graph again. Returns
    /// whether it did.
    pub fn refresh_runtime_latency_graph(&mut self, block_frames: u32) -> (changed: bool)
        requires
            old(self).well_formed(),
        ensures
            changed == !latencies_current(
                old(self).tracks@,
                old(self).latency_graph,
                block_frames,
            ),
            !changed ==> *final(self) == *old(self),
            changed ==> {
                &&& *final(self) == (RuntimeProject {
                    tracks: final(self).tracks,
                    latency_graph: final(self).latency_graph,
                    ..*old(self)
                })
                &&& refreshed_tracks(old(self).tracks@, final(self).tracks@, block_frames)
                &&& latency_graph::planned(
                    final(self).tracks@,
                    final(self).audio_graph,
                    final(self).pdc_enabled,
                    final(self).latency_graph,
                )
            },
            final(self).well_formed(),
    {
        let n: usize = self.tracks.len();
        let mut current: bool = self.latency_graph.track_plugin_latency.len() == n
            && self.latency_graph.track_output_latency.len() == n
            && self.latency_graph.track_pdc_delay.len() == n;
        let mut observed: Vec<u32> = Vec::new();
        let mut i: usize = 0;
        while i < n
            invariant
                i <= n,
                n == self.tracks@.len(),
                observed@.len() == i,
                *self == *old(self),
                latency_graph::strips_fit(self.tracks@),
                forall|k: int|
                    #![trigger observed@[k]]
                    #![trigger self.tracks@[k]]
                    0 <= k < i ==> observed@[k] == observed_strip(self.tracks@[k], block_frames),
                current == (latency_graph::sized_for(self.latency_graph, n as nat) && forall|k: int|
                    #![trigger self.tracks@[k]]
                    0 <= k < i ==> self.latency_graph.track_plugin_latency@[k] == observed_strip(
                        self.tracks@[k],
                        block_frames,
                    )),
            decreases n - i,
        {
            let latency: u32 = track_insert_latency_samples(&self.tracks[i], block_frames);
            if current {
                current = self.latency_graph.track_plugin_latency[i] == latency;
            }
            observed.push(latency);
            i = i + 1;
        }
        if current {
            return false;
        }
        let ghost before = self.tracks@;
        let mut i: usize = 0;
        while i < n
            invariant
                i <= n,
                n == self.tracks@.len(),
                n == before.len(),
                n == observed@.len(),
                *self == (RuntimeProject { tracks: self.tracks, ..*old(self) }),
                forall|k: int|
                    #![trigger observed@[k]]
                    0 <= k < n ==> observed@[k] == observed_strip(before[k], block_frames),
                forall|k: int|
                    #![trigger self.tracks@[k]]
                    0 <= k < i ==> self.tracks@[k] == (RuntimeTrack {
                        plugin_latency_samples: observed@[k],
                        ..before[k]
                    }),
                forall|k: int| #![trigger self.tracks@[k]] i <= k < n ==> self.tracks@[k] == before[k],
            decreases n - i,
        {
            let track = &mut self.tracks[i];
            track.plugin_latency_samples = observed[i];
            i = i + 1;
        }
        proof {
            assert forall|k: int|
                #![trigger self.tracks@[k]]
                0 <= k < n implies latency_graph::track_indices_valid(self.tracks@[k], n as nat)
                && latency_graph::inserts_latency(self.tracks@[k].inserts@) <= u32::MAX by {
                assert(latency_graph::track_indices_valid(before[k], n as nat));
                assert(latency_graph::inserts_latency(before[k].inserts@) <= u32::MAX);
            }
        }
        let mut graph = RuntimeLatencyGraph {
            track_plugin_latency: vec![0u32; n],
            track_output_latency: vec![0u32; n],
            track_pdc_delay: vec![0u32; n],
            max_path_latency_samples: 0,
            master_plugin_latency: 0,
        };
        latency_graph::recompute_runtime_latency_graph(
            &mut graph,
            &self.tracks,
            &self.audio_graph,
            self.pdc_enabled,
        );
        self.latency_graph = graph;
        true
    }
}

/// A refresh settles: with nothing changed in between, the next one finds the
/// graph current and does nothing.
pub proof fn law_latency_refresh_settles(
    before: Seq<RuntimeTrack>,
    after: Seq<RuntimeTrack>,
    audio_graph: RuntimeAudioGraph,
    pdc_enabled: bool,
    graph: RuntimeLatencyGraph,
    block_frames: u32,
)
    requires
        refreshed_tracks(before, after, block_frames),
        latency_graph::strips_fit(before),
        latency_graph::planned(after, audio_graph, pdc_enabled, graph),
    ensures
        latencies_current(after, graph, block_frames),
{
    assert forall|i: int| #![trigger after[i]] 0 <= i < after.len() implies graph
        .track_plugin_latency@[i] == observed_strip(after[i], block_frames) by {
        assert(latency_graph::inserts_latency(before[i].inserts@) <= u32::MAX);
        lemma_observed_covers_inserts(before[i].inserts@, block_frames);
    }
}

// ── Track input ─────────────────────────────────────────────────────────────

/// A track with its arming, monitoring and route set.
pub open spec fn input_set(
    track: RuntimeTrack,
    record_armed: bool,
    monitor_enabled: bool,
    input_source: TrackInputRoute,
) -> RuntimeTrack {
    RuntimeTrack { record_armed, monitor_enabled, input_source, ..track }
}

/// Whether `after` is the graph with the input of track `index` set; an index
/// past the last track sets nothing.
pub open spec fn track_input_set(
    before: RuntimeProject,
    after: RuntimeProject,
    index: int,
    record_armed: bool,
    monitor_enabled: bool,
    input_source: TrackInputRoute,
) -> bool {
    &&& after == (RuntimeProject { tracks: after.tracks, ..before })
    &&& after.tracks@ == if 0 <= index < before.tracks@.len() {
        before.tracks@.update(
            index,
            input_set(before.tracks@[index], record_armed, monitor_enabled, input_source),
        )
    } else {
        before.tracks@
    }
}

impl RuntimeProject {
    /// Set a track's arming, monitoring and route.
    pub fn update_track_input_state(
        &mut self,
        track_index: usize,
        record_armed: bool,
        monitor_enabled: bool,
        input_source: TrackInputRoute,
    )
        ensures
            track_input_set(
                *old(self),
                *final(self),
                track_index as int,
                record_armed,
                monitor_enabled,
                input_source,
            ),
    {
        if track_index < self.tracks.len() {
            let track: &mut RuntimeTrack = &mut self.tracks[track_index];
            track.record_armed = record_armed;
            track.monitor_enabled = monitor_enabled;
            track.input_source = input_source;
        }
    }
}

/// Setting a track's input keeps a graph well formed.
pub proof fn law_input_edit_keeps_a_graph_well_formed(
    before: RuntimeProject,
    after: RuntimeProject,
    index: int,
    record_armed: bool,
    monitor_enabled: bool,
    input_source: TrackInputRoute,
)
    requires
        before.well_formed(),
        track_input_set(before, after, index, record_armed, monitor_enabled, input_source),
    ensures
        after.well_formed(),
{
    assert forall|k: int| #![trigger after.tracks@[k]] 0 <= k < after.tracks@.len() implies after.tracks@[k]
        == input_set(
        before.tracks@[k],
        after.tracks@[k].record_armed,
        after.tracks@[k].monitor_enabled,
        after.tracks@[k].input_source,
    ) by {}
}

/// The latency of a chain with bound bridges: in-process plug-ins add what they
/// report, and an enabled insert on a bound bridge adds what its plug-in reports
/// and one block for the exchange. Chains put together add their latencies.
pub proof fn law_observed_latency_adds_up(
    first: Seq<RuntimeInsert>,
    second: Seq<RuntimeInsert>,
    insert: RuntimeInsert,
    block_frames: u32,
)
    ensures
        observed_latency(first + second, block_frames) == observed_latency(first, block_frames)
            + observed_latency(second, block_frames),
        observed_latency(Seq::empty(), block_frames) == 0,
        !insert.enabled ==> observed_latency(seq![insert], block_frames) == 0,
        insert.enabled && insert.native is None && insert.kind_tag
            == RuntimeInsertKind::ExternalBridge && insert.bridge is Some ==> observed_latency(
            seq![insert],
            block_frames,
        ) == insert.bridge->0.reported_latency_samples + block_frames,
        insert.enabled && (insert.native matches Some(native) && native.ready
            && native.latency_samples >= 0) && insert.bridge is None ==> observed_latency(
            seq![insert],
            block_frames,
        ) == insert.native->0.latency_samples,
        insert.native is None && (insert.bridge is None || insert.kind_tag
            != RuntimeInsertKind::ExternalBridge) ==> observed_latency(seq![insert], block_frames)
            == 0,
    decreases second.len(),
{
    assert(seq![insert].drop_last() =~= Seq::empty());
    assert(seq![insert].last() == insert);
    assert(observed_latency(seq![insert], block_frames) == observed_insert_latency(
        insert,
        block_frames,
    )) by {
        assert(observed_latency(seq![insert].drop_last(), block_frames) == 0);
    }
    if second.len() == 0 {
        assert(first + second =~= first);
    } else {
        law_observed_latency_adds_up(first, second.drop_last(), insert, block_frames);
        assert((first + second).drop_last() =~= first + second.drop_last());
    }
}

/// A block is planned with the latencies that its chains have now: whatever the
/// graph held before, each track's planned plug-in latency is its chain's, held
/// at the largest latency, and the tracks are otherwise as they were.
pub proof fn law_block_is_planned_with_current_latencies(
    before: RuntimeProject,
    after: RuntimeProject,
    block_frames: u32,
    i: int,
)
    requires
        before.well_formed(),
        crate::engine::render::refreshed(before, after, block_frames),
        0 <= i < before.tracks@.len(),
    ensures
        after.tracks@.len() == before.tracks@.len(),
        observed_latency(before.tracks@[i].inserts@, block_frames) <= u32::MAX
            ==> after.latency_graph.track_plugin_latency@[i] == observed_latency(
            before.tracks@[i].inserts@,
            block_frames,
        ),
        observed_latency(before.tracks@[i].inserts@, block_frames) > u32::MAX
            ==> after.latency_graph.track_plugin_latency@[i] == u32::MAX,
        after.latency_graph.track_pdc_delay@.len() == before.tracks@.len(),
        after.tracks@[i].muted == before.tracks@[i].muted,
        after.tracks@[i].automation_muted == before.tracks@[i].automation_muted,
        after.tracks@[i].solo == before.tracks@[i].solo,
        after.tracks@[i].inserts == before.tracks@[i].inserts,
        after.tracks@[i].sends == before.tracks@[i].sends,
        after.tracks@[i].output_track_index == before.tracks@[i].output_track_index,
        after.tracks@[i].track_type == before.tracks@[i].track_type,
        after.clips == before.clips && after.audio_graph == before.audio_graph && after.has_solo
            == before.has_solo,
{
    if !latencies_current(before.tracks@, before.latency_graph, block_frames) {
        law_latency_refresh_settles(
            before.tracks@,
            after.tracks@,
            after.audio_graph,
            after.pdc_enabled,
            after.latency_graph,
            block_frames,
        );
        assert(after.tracks@[i] == after.tracks@[i]);
    } else {
        assert(before.tracks@[i] == before.tracks@[i]);
    }
}

/// A clip is resampled, or its pitch is kept, as its stretch mode says; a mode
/// that leaves it open goes by whether the pitch is to be kept. Any other mode
/// does not stretch.
pub proof fn law_stretch_mode_chooses_the_processor(mode: Seq<char>, preserve_pitch: bool)
    ensures
        mode == "resample"@ ==> clip_processor(mode, preserve_pitch) is Resample,
        mode == "warp"@ ==> clip_processor(mode, preserve_pitch) is PhaseVocoderBasic,
        mode == "manual"@ || mode == "temposync"@ ==> (clip_processor(mode, preserve_pitch)
            is PhaseVocoderBasic <==> preserve_pitch) && (clip_processor(mode, preserve_pitch)
            is Resample <==> !preserve_pitch),
        mode != "resample"@ && mode != "warp"@ && mode != "manual"@ && mode != "temposync"@
            ==> clip_processor(mode, preserve_pitch) is NoStretch,
{
    reveal_strlit("resample");
    reveal_strlit("warp");
    reveal_strlit("manual");
    reveal_strlit("temposync");
    assert("resample"@.len() == 8 && "warp"@.len() == 4 && "manual"@.len() == 6
        && "temposync"@.len() == 9);
}

/// Buses, returns and groups route what others give them; the master and every
/// other track do not.
pub proof fn law_routing_tracks_are_buses_returns_and_groups(track_type: Seq<char>)
    ensures
        routing_type(track_type) <==> track_type == "bus"@ || track_type == "return"@ || track_type
            == "group"@,
        master_type(track_type) <==> track_type == "master"@,
{
}

/// Setting a track's input sets its arming, its monitoring and its route, and
/// nothing else of the graph; an index past the last track sets nothing.
pub proof fn law_input_is_set_on_its_track(
    before: RuntimeProject,
    after: RuntimeProject,
    index: int,
    record_armed: bool,
    monitor_enabled: bool,
    input_source: TrackInputRoute,
)
    requires
        0 <= index,
        track_input_set(before, after, index, record_armed, monitor_enabled, input_source),
    ensures
        after.tracks@.len() == before.tracks@.len(),
        forall|i: int|
            0 <= i < before.tracks@.len() && i != index ==> (#[trigger] after.tracks@[i])
                == before.tracks@[i],
        index < before.tracks@.len() ==> after.tracks@[index].record_armed == record_armed
            && after.tracks@[index].monitor_enabled == monitor_enabled
            && after.tracks@[index].input_source == input_source && after.tracks@[index].id
            == before.tracks@[index].id && after.tracks@[index].solo
            == before.tracks@[index].solo && after.tracks@[index].muted
            == before.tracks@[index].muted && after.tracks@[index].inserts
            == before.tracks@[index].inserts,
        after.clips == before.clips,
        after.audio_graph == before.audio_graph,
        after.latency_graph == before.latency_graph,
{
}

} // verus!
