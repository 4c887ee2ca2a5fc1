//! Latency planning and plug-in delay compensation.
//!
//! Every track's plug-in latency is known; compensation delays the tracks with
//! the shorter paths so that all of them meet at the master sum.

use vstd::prelude::*;

use crate::engine::render;
use crate::runtime;
use crate::runtime::RuntimeAudioGraph;
use crate::runtime::RuntimeInsert;
use crate::runtime::RuntimeSend;
use crate::runtime::RuntimeTrack;
use crate::text::str_eq;

verus! {

/// Precomputed latency and compensation data of a runtime project.
#[derive(Clone, Debug)]
pub struct RuntimeLatencyGraph {
    /// Latency of each track's own insert chain.
    pub track_plugin_latency: Vec<u32>,
    /// Latency at each track's output, upstream feeds of routing tracks counted.
    pub track_output_latency: Vec<u32>,
    /// Delay applied to each track's main output.
    pub track_pdc_delay: Vec<u32>,
    /// The longest path to the master sum, before the master's inserts.
    pub max_path_latency_samples: u32,
    pub master_plugin_latency: u32,
}

impl RuntimeLatencyGraph {
    /// Whether there is no track and no latency.
    pub open spec fn empty(self) -> bool {
        &&& self.track_plugin_latency@.len() == 0
        &&& self.track_output_latency@.len() == 0
        &&& self.track_pdc_delay@.len() == 0
        &&& self.max_path_latency_samples == 0
        &&& self.master_plugin_latency == 0
    }
}

impl Default for RuntimeLatencyGraph {
    fn default() -> (r: Self)
        ensures
            r.empty(),
    {
        RuntimeLatencyGraph {
            track_plugin_latency: Vec::new(),
            track_output_latency: Vec::new(),
            track_pdc_delay: Vec::new(),
            max_path_latency_samples: 0,
            master_plugin_latency: 0,
        }
    }
}

// ── Model ───────────────────────────────────────────────────────────────────

/// A sum held at the largest representable latency.
pub open spec fn saturated(n: nat) -> nat {
    if n > u32::MAX {
        u32::MAX as nat
    } else {
        n
    }
}

pub open spec fn max_nat(a: nat, b: nat) -> nat {
    if a >= b {
        a
    } else {
        b
    }
}

/// The latency that an enabled, ready in-process plug-in adds to its chain.
pub open spec fn insert_latency(insert: RuntimeInsert) -> nat {
    match insert.native {
        Some(native) => if insert.enabled && native.ready && native.latency_samples > 0 {
            native.latency_samples as nat
        } else {
            0
        },
        None => 0,
    }
}

/// The latency of a chain's in-process plug-ins.
pub open spec fn inserts_latency(inserts: Seq<RuntimeInsert>) -> nat
    decreases inserts.len(),
{
    if inserts.len() == 0 {
        0
    } else {
        inserts_latency(inserts.drop_last()) + insert_latency(inserts.last())
    }
}

/// The latency of a track's strip: the sum over its in-process plug-ins, and
/// never less than the stored value.
pub open spec fn strip_latency(track: RuntimeTrack) -> nat {
    max_nat(inserts_latency(track.inserts@), track.plugin_latency_samples as nat)
}

/// The position of the last track named `id`, if any.
pub open spec fn track_index_of(tracks: Seq<RuntimeTrack>, id: Seq<char>) -> Option<usize>
    decreases tracks.len(),
{
    if tracks.len() == 0 {
        None
    } else if tracks.last().id@ == id {
        Some((tracks.len() - 1) as usize)
    } else {
        track_index_of(tracks.drop_last(), id)
    }
}

/// The track that a main output names, `None` when it goes to the master.
pub open spec fn output_index_of(tracks: Seq<RuntimeTrack>, id: Option<String>) -> Option<usize> {
    match id {
        Some(id) => if render::is_master_output_spec(id@) {
            None
        } else {
            track_index_of(tracks, id@)
        },
        None => None,
    }
}

/// `track` after its routing indices were looked up among `tracks`.
pub open spec fn resolved_track(
    tracks: Seq<RuntimeTrack>,
    before: RuntimeTrack,
    after: RuntimeTrack,
) -> bool {
    &&& after == (RuntimeTrack {
        output_track_index: output_index_of(tracks, before.output_track_id),
        sends: after.sends,
        ..before
    })
    &&& after.sends@.len() == before.sends@.len()
    &&& forall|s: int|
        #![trigger after.sends@[s]]
        #![trigger before.sends@[s]]
        0 <= s < before.sends@.len() ==> after.sends@[s] == (RuntimeSend {
            return_track_index: track_index_of(tracks, before.sends@[s].return_track_id@),
            ..before.sends@[s]
        })
}

/// Every routing index of `tracks` names a track.
pub open spec fn indices_valid(tracks: Seq<RuntimeTrack>) -> bool {
    forall|i: int|
        #![trigger tracks[i]]
        0 <= i < tracks.len() ==> track_indices_valid(tracks[i], tracks.len())
}

/// Every routing index of `track` is below `n`.
pub open spec fn track_indices_valid(track: RuntimeTrack, n: nat) -> bool {
    &&& track.output_track_index matches Some(t) ==> t < n
    &&& forall|s: int|
        #![trigger track.sends@[s]]
        0 <= s < track.sends@.len() ==> (track.sends@[s].return_track_index matches Some(t)
            ==> t < n)
}

/// Whether the planner can run on this project: every index names a track and
/// every chain's latency fits.
pub open spec fn plannable(tracks: Seq<RuntimeTrack>, graph: RuntimeAudioGraph) -> bool {
    &&& indices_valid(tracks)
    &&& strips_fit(tracks)
    &&& forall|k: int|
        #![trigger graph.pass2_routing_indices@[k]]
        0 <= k < graph.pass2_routing_indices@.len() ==> graph.pass2_routing_indices@[k]
            < tracks.len()
}

/// Every chain's in-process latency fits in 32 bits.
pub open spec fn strips_fit(tracks: Seq<RuntimeTrack>) -> bool {
    forall|i: int|
        #![trigger tracks[i]]
        0 <= i < tracks.len() ==> inserts_latency(tracks[i].inserts@) <= u32::MAX
}

/// Each track's strip latency.
pub open spec fn strip_latencies(tracks: Seq<RuntimeTrack>) -> Seq<nat> {
    Seq::new(tracks.len(), |i: int| strip_latency(tracks[i]))
}

/// Whether an enabled send of `track` feeds track `idx`.
pub open spec fn sends_into(track: RuntimeTrack, idx: int) -> bool {
    exists|s: int|
        #![trigger track.sends@[s]]
        0 <= s < track.sends@.len() && track.sends@[s].enabled && (
        track.sends@[s].return_track_index matches Some(t) && t == idx)
}

/// Whether `track` feeds track `idx`, by a send or by its main output.
pub open spec fn feeds(track: RuntimeTrack, idx: int) -> bool {
    &&& !runtime::master_type(track.track_type@)
    &&& sends_into(track, idx) || (track.output_track_index matches Some(t) && t == idx)
}

/// The largest output latency among the first `n` tracks that feed `idx`.
pub open spec fn feed_max(tracks: Seq<RuntimeTrack>, out: Seq<nat>, idx: int, n: nat) -> nat
    decreases n,
{
    if n == 0 {
        0
    } else {
        let rest = feed_max(tracks, out, idx, (n - 1) as nat);
        if feeds(tracks[n - 1], idx) {
            max_nat(rest, out[n - 1])
        } else {
            rest
        }
    }
}

/// Output latencies after the routing tracks `order[..k]` took in their feeds.
pub open spec fn output_latencies(
    tracks: Seq<RuntimeTrack>,
    order: Seq<usize>,
    k: nat,
) -> Seq<nat>
    decreases k,
{
    if k == 0 {
        strip_latencies(tracks)
    } else {
        let out = output_latencies(tracks, order, (k - 1) as nat);
        let idx = order[k - 1] as int;
        out.update(
            idx,
            saturated(strip_latency(tracks[idx]) + feed_max(tracks, out, idx, tracks.len())),
        )
    }
}

/// The routing track other than the master that a track's main output feeds.
pub open spec fn routing_hop(
    tracks: Seq<RuntimeTrack>,
    master: Option<usize>,
    i: int,
) -> Option<int> {
    match tracks[i].output_track_index {
        Some(next) => if master == Some(next) || !runtime::routing_type(tracks[next as int].track_type@) {
            None
        } else {
            Some(next as int)
        },
        None => None,
    }
}

/// Plug-in latency of the routing tracks downstream of track `i`, over at most
/// `hops` hops.
pub open spec fn tail_latency(
    tracks: Seq<RuntimeTrack>,
    master: Option<usize>,
    i: int,
    hops: nat,
) -> nat
    decreases hops,
{
    if hops == 0 {
        0
    } else {
        match routing_hop(tracks, master, i) {
            Some(next) => strip_latency(tracks[next]) + tail_latency(
                tracks,
                master,
                next,
                (hops - 1) as nat,
            ),
            None => 0,
        }
    }
}

/// Latency from track `i`'s input to the master sum.
pub open spec fn path_latency(
    tracks: Seq<RuntimeTrack>,
    out: Seq<nat>,
    master: Option<usize>,
    i: int,
) -> nat {
    if master matches Some(m) && m == i {
        0
    } else {
        saturated(out[i] + saturated(tail_latency(tracks, master, i, tracks.len())))
    }
}

/// The routing track that track `i`'s main output feeds, the master included
/// where it is itself of a routing type.
pub open spec fn bus_target(tracks: Seq<RuntimeTrack>, i: int) -> Option<int> {
    match tracks[i].output_track_index {
        Some(t) => if runtime::routing_type(tracks[t as int].track_type@) {
            Some(t as int)
        } else {
            None
        },
        None => None,
    }
}

/// Latency of track `i`'s dry path to the master sum.
pub open spec fn main_path_latency(
    tracks: Seq<RuntimeTrack>,
    out: Seq<nat>,
    master: Option<usize>,
    i: int,
) -> nat {
    match bus_target(tracks, i) {
        Some(t) => path_latency(tracks, out, master, t),
        None => path_latency(tracks, out, master, i),
    }
}

/// The longest of a track's dry path and the paths of its first `n` sends.
pub open spec fn effective_path_latency(
    tracks: Seq<RuntimeTrack>,
    out: Seq<nat>,
    master: Option<usize>,
    i: int,
    n: nat,
) -> nat
    decreases n,
{
    if n == 0 {
        main_path_latency(tracks, out, master, i)
    } else {
        let rest = effective_path_latency(tracks, out, master, i, (n - 1) as nat);
        let send = tracks[i].sends@[n - 1];
        match send.return_track_index {
            Some(t) => if send.enabled {
                max_nat(rest, path_latency(tracks, out, master, t as int))
            } else {
                rest
            },
            None => rest,
        }
    }
}

/// Whether track `i` is the master, by its place or by its type.
pub open spec fn is_master_strip(
    tracks: Seq<RuntimeTrack>,
    master: Option<usize>,
    i: int,
) -> bool {
    (master matches Some(m) && m == i) || runtime::master_type(tracks[i].track_type@)
}

/// The longest path among the first `n` tracks that are not the master.
pub open spec fn longest_path(
    tracks: Seq<RuntimeTrack>,
    out: Seq<nat>,
    master: Option<usize>,
    n: nat,
) -> nat
    decreases n,
{
    if n == 0 {
        0
    } else {
        let rest = longest_path(tracks, out, master, (n - 1) as nat);
        if is_master_strip(tracks, master, n - 1) {
            rest
        } else {
            max_nat(
                rest,
                effective_path_latency(tracks, out, master, n - 1, tracks[n - 1].sends@.len()),
            )
        }
    }
}

/// The delay of track `i`: what its dry path lacks of the longest path. The
/// master takes none, and a track that feeds a bus leaves it to the bus.
pub open spec fn pdc_delay(
    tracks: Seq<RuntimeTrack>,
    out: Seq<nat>,
    master: Option<usize>,
    pdc_enabled: bool,
    i: int,
) -> nat {
    let longest = longest_path(tracks, out, master, tracks.len());
    let path = main_path_latency(tracks, out, master, i);
    if !pdc_enabled || is_master_strip(tracks, master, i) || bus_target(tracks, i) is Some {
        0
    } else if longest >= path {
        (longest - path) as nat
    } else {
        0
    }
}

/// `graph` holds the latencies and delays of `tracks`.
pub open spec fn planned(
    tracks: Seq<RuntimeTrack>,
    audio_graph: RuntimeAudioGraph,
    pdc_enabled: bool,
    graph: RuntimeLatencyGraph,
) -> bool {
    let n = tracks.len();
    let order = audio_graph.pass2_routing_indices@;
    let out = output_latencies(tracks, order, order.len());
    let master = audio_graph.master_index;
    &&& graph.track_plugin_latency@.len() == n
    &&& graph.track_output_latency@.len() == n
    &&& graph.track_pdc_delay@.len() == n
    &&& forall|i: int|
        #![trigger graph.track_plugin_latency@[i]]
        0 <= i < n ==> graph.track_plugin_latency@[i] == strip_latency(tracks[i])
    &&& forall|i: int|
        #![trigger graph.track_output_latency@[i]]
        0 <= i < n ==> graph.track_output_latency@[i] == out[i]
    &&& forall|i: int|
        #![trigger graph.track_pdc_delay@[i]]
        0 <= i < n ==> graph.track_pdc_delay@[i] == pdc_delay(tracks, out, master, pdc_enabled, i)
    &&& graph.max_path_latency_samples == longest_path(tracks, out, master, n)
    &&& graph.master_plugin_latency == (match master {
        Some(m) => if m < n {
            strip_latency(tracks[m as int])
        } else {
            0
        },
        None => 0,
    })
}

// ── Planning ────────────────────────────────────────────────────────────────

/// The latency of a track's strip: the sum over its enabled, ready in-process
/// plug-ins, with the stored value as a floor. The stored value carries what
/// bridged inserts add, which the sum does not see.
pub fn strip_plugin_latency_samples(track: &RuntimeTrack) -> (r: u32)
    requires
        inserts_latency(track.inserts@) <= u32::MAX,
    ensures
        r == strip_latency(*track),
{
    let mut sum: u32 = 0;
    let mut i: usize = 0;
    while i < track.inserts.len()
        invariant
            i <= track.inserts@.len(),
            inserts_latency(track.inserts@) <= u32::MAX,
            sum == inserts_latency(track.inserts@.take(i as int)),
        decreases track.inserts@.len() - i,
    {
        let insert = &track.inserts[i];
        let latency: u32 = match insert.native {
            Some(native) => if insert.enabled && native.ready && native.latency_samples > 0 {
                native.latency_samples as u32
            } else {
                0
            },
            None => 0,
        };
        proof {
            lemma_inserts_latency_step(track.inserts@, i as int);
            lemma_inserts_latency_bound(track.inserts@, i + 1);
        }
        sum = sum + latency;
        i = i + 1;
    }
    proof {
        assert(track.inserts@.take(track.inserts@.len() as int) =~= track.inserts@);
    }
    if sum >= track.plugin_latency_samples {
        sum
    } else {
        track.plugin_latency_samples
    }
}

/// Whether a chain's in-process latency fits in 32 bits.
pub(crate) fn chain_fits(inserts: &Vec<RuntimeInsert>) -> (r: bool)
    ensures
        r == (inserts_latency(inserts@) <= u32::MAX),
{
    let mut sum: u64 = 0;
    let mut i: usize = 0;
    while i < inserts.len()
        invariant
            i <= inserts@.len(),
            sum == inserts_latency(inserts@.take(i as int)),
            sum <= u32::MAX,
        decreases inserts@.len() - i,
    {
        let latency: u64 = match inserts[i].native {
            Some(native) => if inserts[i].enabled && native.ready && native.latency_samples > 0 {
                native.latency_samples as u64
            } else {
                0
            },
            None => 0,
        };
        proof {
            lemma_inserts_latency_step(inserts@, i as int);
            lemma_inserts_latency_bound(inserts@, i + 1);
        }
        sum = sum + latency;
        if sum > 0xffff_ffff {
            return false;
        }
        i = i + 1;
    }
    proof {
        assert(inserts@.take(inserts@.len() as int) =~= inserts@);
    }
    true
}

/// Whether every routing index of a track is below `n`.
pub(crate) fn indices_fit(track: &RuntimeTrack, n: usize) -> (r: bool)
    ensures
        r == track_indices_valid(*track, n as nat),
{
    if let Some(t) = track.output_track_index {
        if t >= n {
            return false;
        }
    }
    let mut s: usize = 0;
    while s < track.sends.len()
        invariant
            s <= track.sends@.len(),
            track.output_track_index matches Some(t) ==> t < n,
            forall|k: int|
                #![trigger track.sends@[k]]
                0 <= k < s ==> (track.sends@[k].return_track_index matches Some(t) ==> t < n),
        decreases track.sends@.len() - s,
    {
        if let Some(t) = track.sends[s].return_track_index {
            if t >= n {
                assert(!(track.sends@[s as int].return_track_index matches Some(t) ==> t < n));
                return false;
            }
        }
        s = s + 1;
    }
    true
}

proof fn lemma_inserts_latency_step(inserts: Seq<RuntimeInsert>, i: int)
    requires
        0 <= i < inserts.len(),
    ensures
        inserts_latency(inserts.take(i + 1)) == inserts_latency(inserts.take(i)) + insert_latency(
            inserts[i],
        ),
{
    assert(inserts.take(i + 1).drop_last() =~= inserts.take(i));
}

proof fn lemma_inserts_latency_bound(inserts: Seq<RuntimeInsert>, i: int)
    requires
        0 <= i <= inserts.len(),
    ensures
        inserts_latency(inserts.take(i)) <= inserts_latency(inserts),
    decreases inserts.len() - i,
{
    if i < inserts.len() {
        lemma_inserts_latency_step(inserts, i);
        lemma_inserts_latency_bound(inserts, i + 1);
    } else {
        assert(inserts.take(i) =~= inserts);
    }
}

/// The position of the last track named `id`, if any.
fn find_track(tracks: &Vec<RuntimeTrack>, id: &str) -> (r: Option<usize>)
    ensures
        r == track_index_of(tracks@, id@),
        r matches Some(i) ==> i < tracks@.len(),
{
    let mut n: usize = tracks.len();
    proof {
        assert(tracks@.take(n as int) =~= tracks@);
    }
    while n > 0
        invariant
            n <= tracks@.len(),
            track_index_of(tracks@, id@) == track_index_of(tracks@.take(n as int), id@),
        decreases n,
    {
        proof {
            assert(tracks@.take(n as int).drop_last() =~= tracks@.take(n - 1));
        }
        if str_eq(tracks[n - 1].id.as_str(), id) {
            return Some(n - 1);
        }
        n = n - 1;
    }
    None
}

/// The lookup of a track depends on the tracks' names alone.
proof fn lemma_track_index_by_ids(a: Seq<RuntimeTrack>, b: Seq<RuntimeTrack>, id: Seq<char>)
    requires
        a.len() == b.len(),
        forall|i: int| 0 <= i < a.len() ==> (#[trigger] a[i]).id == (#[trigger] b[i]).id,
    ensures
        track_index_of(a, id) == track_index_of(b, id),
    decreases a.len(),
{
    if a.len() > 0 {
        lemma_track_index_by_ids(a.drop_last(), b.drop_last(), id);
    }
}

proof fn lemma_track_index_in_range(tracks: Seq<RuntimeTrack>, id: Seq<char>)
    requires
        tracks.len() <= usize::MAX,
    ensures
        track_index_of(tracks, id) matches Some(i) ==> i < tracks.len() && tracks[i as int].id@
            == id,
    decreases tracks.len(),
{
    if tracks.len() > 0 {
        lemma_track_index_in_range(tracks.drop_last(), id);
    }
}

/// Look up every track's main-output target and every send's return target.
pub fn resolve_latency_routing_indices(tracks: &mut Vec<RuntimeTrack>)
    ensures
        final(tracks)@.len() == old(tracks)@.len(),
        forall|i: int|
            #![trigger final(tracks)@[i]]
            0 <= i < final(tracks)@.len() ==> resolved_track(
                old(tracks)@,
                old(tracks)@[i],
                final(tracks)@[i],
            ),
        indices_valid(final(tracks)@),
{
    let ghost before = tracks@;
    let n: usize = tracks.len();
    let mut i: usize = 0;
    while i < n
        invariant
            i <= n,
            n == before.len(),
            n == tracks@.len(),
            forall|j: int|
                #![trigger tracks@[j]]
                0 <= j < i ==> resolved_track(before, before[j], tracks@[j]),
            forall|j: int|
                #![trigger tracks@[j]]
                0 <= j < i ==> track_indices_valid(tracks@[j], n as nat),
            forall|j: int| #![trigger tracks@[j]] i <= j < n ==> tracks@[j] == before[j],
        decreases n - i,
    {
        proof {
            assert forall|id: Seq<char>| track_index_of(tracks@, id) == track_index_of(
                before,
                id,
            ) by {
                lemma_track_index_by_ids(tracks@, before, id);
            }
        }
        let output: Option<usize> = match &tracks[i].output_track_id {
            Some(id) => if render::is_master_output(id.as_str()) {
                None
            } else {
                find_track(tracks, id.as_str())
            },
            None => None,
        };
        let count: usize = tracks[i].sends.len();
        let mut targets: Vec<Option<usize>> = Vec::new();
        let mut s: usize = 0;
        while s < count
            invariant
                s <= count,
                i < n,
                n == tracks@.len(),
                count == tracks@[i as int].sends@.len(),
                targets@.len() == s,
                forall|id: Seq<char>| track_index_of(tracks@, id) == track_index_of(before, id),
                forall|k: int|
                    #![trigger targets@[k]]
                    0 <= k < s ==> targets@[k] == track_index_of(
                        before,
                        tracks@[i as int].sends@[k].return_track_id@,
                    ) && (targets@[k] matches Some(t) ==> t < n),
            decreases count - s,
        {
            let target = find_track(tracks, tracks[i].sends[s].return_track_id.as_str());
            targets.push(target);
            s = s + 1;
        }
        let ghost original = tracks@[i as int];
        let track = &mut tracks[i];
        track.output_track_index = output;
        let mut s: usize = 0;
        while s < count
            invariant
                s <= count,
                count == original.sends@.len(),
                count == targets@.len(),
                track.sends@.len() == count,
                *track == (RuntimeTrack {
                    output_track_index: output,
                    sends: track.sends,
                    ..original
                }),
                forall|k: int|
                    #![trigger track.sends@[k]]
                    0 <= k < s ==> track.sends@[k] == (RuntimeSend {
                        return_track_index: targets@[k],
                        ..original.sends@[k]
                    }),
                forall|k: int|
                    #![trigger track.sends@[k]]
                    s <= k < count ==> track.sends@[k] == original.sends@[k],
            decreases count - s,
        {
            let send = &mut track.sends[s];
            send.return_track_index = targets[s];
            s = s + 1;
        }
        proof {
            assert(resolved_track(before, before[i as int], *track));
        }
        i = i + 1;
    }
}

/// Latencies as mathematical numbers.
pub open spec fn as_nats(v: Seq<u32>) -> Seq<nat> {
    Seq::new(v.len(), |i: int| v[i] as nat)
}

/// `plugin_latency` holds the strip latencies of `tracks`.
spec fn holds_strips(tracks: Seq<RuntimeTrack>, plugin_latency: Seq<u32>) -> bool {
    &&& plugin_latency.len() == tracks.len()
    &&& forall|i: int|
        #![trigger plugin_latency[i]]
        #![trigger tracks[i]]
        0 <= i < tracks.len() ==> plugin_latency[i] == strip_latency(tracks[i])
}

/// Latency of the routing tracks downstream of a track, its own output latency
/// not counted.
fn routing_tail_to_master(
    track_index: usize,
    tracks: &Vec<RuntimeTrack>,
    plugin_latency: &Vec<u32>,
    master_index: Option<usize>,
) -> (r: u32)
    requires
        track_index < tracks@.len(),
        indices_valid(tracks@),
        holds_strips(tracks@, plugin_latency@),
    ensures
        r == saturated(
            tail_latency(tracks@, master_index, track_index as int, tracks@.len()),
        ),
{
    let mut at: usize = track_index;
    let mut tail: u32 = 0;
    let mut hops: usize = 0;
    let ghost total = tail_latency(tracks@, master_index, track_index as int, tracks@.len());
    while hops < tracks.len()
        invariant_except_break
            at < tracks@.len(),
            hops <= tracks@.len(),
            saturated(total) == saturated(
                tail as nat + tail_latency(
                    tracks@,
                    master_index,
                    at as int,
                    (tracks@.len() - hops) as nat,
                ),
            ),
        invariant
            indices_valid(tracks@),
            holds_strips(tracks@, plugin_latency@),
        ensures
            tail == saturated(total),
        decreases tracks@.len() - hops,
    {
        hops = hops + 1;
        let next: usize = match tracks[at].output_track_index {
            Some(next) => next,
            None => {
                break;
            },
        };
        let at_master: bool = match master_index {
            Some(m) => m == next,
            None => false,
        };
        if at_master {
            break;
        }
        if !runtime::is_routing_track_type(tracks[next].track_type.as_str()) {
            break;
        }
        tail = tail.saturating_add(plugin_latency[next]);
        at = next;
    }
    tail
}

/// Latency from a track's input to the master sum; none for the master itself.
fn path_to_master_sum(
    track_index: usize,
    tracks: &Vec<RuntimeTrack>,
    output_latency: &Vec<u32>,
    plugin_latency: &Vec<u32>,
    master_index: Option<usize>,
) -> (r: u32)
    requires
        track_index < tracks@.len(),
        indices_valid(tracks@),
        holds_strips(tracks@, plugin_latency@),
        output_latency@.len() == tracks@.len(),
    ensures
        r == path_latency(tracks@, as_nats(output_latency@), master_index, track_index as int),
{
    if let Some(m) = master_index {
        if m == track_index {
            return 0;
        }
    }
    let tail: u32 = routing_tail_to_master(track_index, tracks, plugin_latency, master_index);
    output_latency[track_index].saturating_add(tail)
}

/// Latency of a track's main-output path only, sends not counted.
fn main_path_to_master(
    track_index: usize,
    tracks: &Vec<RuntimeTrack>,
    output_latency: &Vec<u32>,
    plugin_latency: &Vec<u32>,
    master_index: Option<usize>,
) -> (r: u32)
    requires
        track_index < tracks@.len(),
        indices_valid(tracks@),
        holds_strips(tracks@, plugin_latency@),
        output_latency@.len() == tracks@.len(),
    ensures
        r == main_path_latency(
            tracks@,
            as_nats(output_latency@),
            master_index,
            track_index as int,
        ),
{
    if let Some(target) = tracks[track_index].output_track_index {
        if runtime::is_routing_track_type(tracks[target].track_type.as_str()) {
            return path_to_master_sum(
                target,
                tracks,
                output_latency,
                plugin_latency,
                master_index,
            );
        }
    }
    path_to_master_sum(track_index, tracks, output_latency, plugin_latency, master_index)
}

/// The longest of a track's main path and the paths through its enabled sends.
fn effective_path_to_master(
    track_index: usize,
    tracks: &Vec<RuntimeTrack>,
    output_latency: &Vec<u32>,
    plugin_latency: &Vec<u32>,
    master_index: Option<usize>,
) -> (r: u32)
    requires
        track_index < tracks@.len(),
        indices_valid(tracks@),
        holds_strips(tracks@, plugin_latency@),
        output_latency@.len() == tracks@.len(),
    ensures
        r == effective_path_latency(
            tracks@,
            as_nats(output_latency@),
            master_index,
            track_index as int,
            tracks@[track_index as int].sends@.len(),
        ),
{
    let mut path: u32 = main_path_to_master(
        track_index,
        tracks,
        output_latency,
        plugin_latency,
        master_index,
    );
    let count: usize = tracks[track_index].sends.len();
    let mut s: usize = 0;
    while s < count
        invariant
            s <= count,
            count == tracks@[track_index as int].sends@.len(),
            track_index < tracks@.len(),
            indices_valid(tracks@),
            holds_strips(tracks@, plugin_latency@),
            output_latency@.len() == tracks@.len(),
            path == effective_path_latency(
                tracks@,
                as_nats(output_latency@),
                master_index,
                track_index as int,
                s as nat,
            ),
        decreases count - s,
    {
        let send = &tracks[track_index].sends[s];
        if send.enabled {
            if let Some(target) = send.return_track_index {
                proof {
                    assert(track_indices_valid(tracks@[track_index as int], tracks@.len()));
                }
                let via_return: u32 = path_to_master_sum(
                    target,
                    tracks,
                    output_latency,
                    plugin_latency,
                    master_index,
                );
                if via_return > path {
                    path = via_return;
                }
            }
        }
        s = s + 1;
    }
    path
}

/// Whether a track feeds track `idx`, by an enabled send or by its main output.
fn track_feeds(track: &RuntimeTrack, idx: usize) -> (r: bool)
    ensures
        r == feeds(*track, idx as int),
{
    if runtime::is_master_track_type(track.track_type.as_str()) {
        return false;
    }
    if let Some(t) = track.output_track_index {
        if t == idx {
            return true;
        }
    }
    let mut s: usize = 0;
    while s < track.sends.len()
        invariant
            s <= track.sends@.len(),
            !runtime::master_type(track.track_type@),
            !(track.output_track_index matches Some(t) && t == idx),
            forall|k: int|
                #![trigger track.sends@[k]]
                0 <= k < s ==> !(track.sends@[k].enabled && (
                track.sends@[k].return_track_index matches Some(t) && t == idx)),
        decreases track.sends@.len() - s,
    {
        let send = &track.sends[s];
        if send.enabled {
            if let Some(t) = send.return_track_index {
                if t == idx {
                    proof {
                        assert(track.sends@[s as int].enabled);
                        assert(sends_into(*track, idx as int));
                    }
                    return true;
                }
            }
        }
        s = s + 1;
    }
    false
}

/// The largest output latency among the tracks that feed `idx`.
fn largest_feed(tracks: &Vec<RuntimeTrack>, output_latency: &Vec<u32>, idx: usize) -> (r: u32)
    requires
        output_latency@.len() == tracks@.len(),
    ensures
        r == feed_max(tracks@, as_nats(output_latency@), idx as int, tracks@.len()),
{
    let mut best: u32 = 0;
    let mut i: usize = 0;
    while i < tracks.len()
        invariant
            i <= tracks@.len(),
            output_latency@.len() == tracks@.len(),
            best == feed_max(tracks@, as_nats(output_latency@), idx as int, i as nat),
        decreases tracks@.len() - i,
    {
        if track_feeds(&tracks[i], idx) {
            if output_latency[i] > best {
                best = output_latency[i];
            }
        }
        i = i + 1;
    }
    best
}

/// Whether track `i` is the master, by its place or by its type.
fn master_strip(tracks: &Vec<RuntimeTrack>, master_index: Option<usize>, i: usize) -> (r: bool)
    requires
        i < tracks@.len(),
    ensures
        r == is_master_strip(tracks@, master_index, i as int),
{
    if let Some(m) = master_index {
        if m == i {
            return true;
        }
    }
    runtime::is_master_track_type(tracks[i].track_type.as_str())
}

/// Latencies and delays of `tracks`, with their routing indices looked up first.
/// With compensation off the delays are zero and the paths are still computed.
pub fn plan_runtime_latency_graph(
    tracks: &mut Vec<RuntimeTrack>,
    audio_graph: &RuntimeAudioGraph,
    pdc_enabled: bool,
) -> (graph: RuntimeLatencyGraph)
    requires
        strips_fit(old(tracks)@),
        forall|k: int|
            #![trigger audio_graph.pass2_routing_indices@[k]]
            0 <= k < audio_graph.pass2_routing_indices@.len()
                ==> audio_graph.pass2_routing_indices@[k] < old(tracks)@.len(),
    ensures
        final(tracks)@.len() == old(tracks)@.len(),
        forall|i: int|
            #![trigger final(tracks)@[i]]
            0 <= i < final(tracks)@.len() ==> resolved_track(
                old(tracks)@,
                old(tracks)@[i],
                final(tracks)@[i],
            ),
        indices_valid(final(tracks)@),
        planned(final(tracks)@, *audio_graph, pdc_enabled, graph),
{
    let n: usize = tracks.len();
    resolve_latency_routing_indices(tracks);
    let mut graph = RuntimeLatencyGraph {
        track_plugin_latency: vec![0u32; n],
        track_output_latency: vec![0u32; n],
        track_pdc_delay: vec![0u32; n],
        max_path_latency_samples: 0,
        master_plugin_latency: 0,
    };
    proof {
        assert forall|i: int| #![trigger tracks@[i]] 0 <= i < tracks@.len() implies inserts_latency(
            tracks@[i].inserts@,
        ) <= u32::MAX by {
            assert(resolved_track(old(tracks)@, old(tracks)@[i], tracks@[i]));
        }
    }
    recompute_runtime_latency_graph(&mut graph, tracks, audio_graph, pdc_enabled);
    graph
}

/// Recompute `graph` in place from the tracks' current latencies and routing
/// indices. A graph whose vectors are not sized for `tracks` is left alone.
pub fn recompute_runtime_latency_graph(
    graph: &mut RuntimeLatencyGraph,
    tracks: &Vec<RuntimeTrack>,
    audio_graph: &RuntimeAudioGraph,
    pdc_enabled: bool,
)
    requires
        plannable(tracks@, *audio_graph),
    ensures
        sized_for(*old(graph), tracks@.len()) && tracks@.len() > 0 ==> planned(
            tracks@,
            *audio_graph,
            pdc_enabled,
            *final(graph),
        ),
        !(sized_for(*old(graph), tracks@.len()) && tracks@.len() > 0) ==> *final(graph) == *old(
            graph,
        ),
{
    let n: usize = tracks.len();
    if n == 0 || graph.track_plugin_latency.len() != n || graph.track_output_latency.len() != n
        || graph.track_pdc_delay.len() != n {
        return;
    }
    let mut plugin_latency: Vec<u32> = Vec::new();
    let mut i: usize = 0;
    while i < n
        invariant
            i <= n,
            n == tracks@.len(),
            plugin_latency@.len() == i,
            strips_fit(tracks@),
            forall|k: int|
                #![trigger plugin_latency@[k]]
                #![trigger tracks@[k]]
                0 <= k < i ==> plugin_latency@[k] == strip_latency(tracks@[k]),
        decreases n - i,
    {
        let latency: u32 = strip_plugin_latency_samples(&tracks[i]);
        plugin_latency.push(latency);
        i = i + 1;
    }
    let master_index: Option<usize> = audio_graph.master_index;
    let master_latency: u32 = match master_index {
        Some(m) => if m < n {
            plugin_latency[m]
        } else {
            0
        },
        None => 0,
    };
    let mut output_latency: Vec<u32> = plugin_latency.clone();
    let order = &audio_graph.pass2_routing_indices;
    proof {
        assert(output_latency@ =~= plugin_latency@);
        assert(as_nats(output_latency@) =~= strip_latencies(tracks@));
    }
    let mut k: usize = 0;
    while k < order.len()
        invariant
            k <= order@.len(),
            order@ == audio_graph.pass2_routing_indices@,
            plannable(tracks@, *audio_graph),
            holds_strips(tracks@, plugin_latency@),
            output_latency@.len() == tracks@.len(),
            as_nats(output_latency@) == output_latencies(tracks@, order@, k as nat),
        decreases order@.len() - k,
    {
        let idx: usize = order[k];
        let feed: u32 = largest_feed(tracks, &output_latency, idx);
        let ghost before = as_nats(output_latency@);
        let latency: u32 = plugin_latency[idx].saturating_add(feed);
        output_latency[idx] = latency;
        proof {
            assert(as_nats(output_latency@) =~= before.update(idx as int, latency as nat));
        }
        k = k + 1;
    }
    let ghost out = as_nats(output_latency@);
    let mut longest: u32 = 0;
    let mut i: usize = 0;
    while i < n
        invariant
            i <= n,
            n == tracks@.len(),
            indices_valid(tracks@),
            holds_strips(tracks@, plugin_latency@),
            output_latency@.len() == tracks@.len(),
            out == as_nats(output_latency@),
            longest == longest_path(tracks@, out, master_index, i as nat),
        decreases n - i,
    {
        if !master_strip(tracks, master_index, i) {
            let path: u32 = effective_path_to_master(
                i,
                tracks,
                &output_latency,
                &plugin_latency,
                master_index,
            );
            if path > longest {
                longest = path;
            }
        }
        i = i + 1;
    }
    let mut delays: Vec<u32> = Vec::new();
    let mut i: usize = 0;
    while i < n
        invariant
            i <= n,
            n == tracks@.len(),
            indices_valid(tracks@),
            holds_strips(tracks@, plugin_latency@),
            output_latency@.len() == tracks@.len(),
            out == as_nats(output_latency@),
            longest == longest_path(tracks@, out, master_index, n as nat),
            delays@.len() == i,
            forall|k: int|
                #![trigger delays@[k]]
                0 <= k < i ==> delays@[k] == pdc_delay(tracks@, out, master_index, pdc_enabled, k),
        decreases n - i,
    {
        let mut delay: u32 = 0;
        if pdc_enabled && longest > 0 && !master_strip(tracks, master_index, i) {
            let feeds_bus: bool = match tracks[i].output_track_index {
                Some(target) => runtime::is_routing_track_type(
                    tracks[target].track_type.as_str(),
                ),
                None => false,
            };
            if !feeds_bus {
                let path: u32 = main_path_to_master(
                    i,
                    tracks,
                    &output_latency,
                    &plugin_latency,
                    master_index,
                );
                delay = longest.saturating_sub(path);
            }
        }
        delays.push(delay);
        i = i + 1;
    }
    graph.track_plugin_latency = plugin_latency;
    graph.track_output_latency = output_latency;
    graph.track_pdc_delay = delays;
    graph.max_path_latency_samples = longest;
    graph.master_plugin_latency = master_latency;
}

/// Whether the vectors of `graph` have one entry per track.
pub open spec fn sized_for(graph: RuntimeLatencyGraph, n: nat) -> bool {
    &&& graph.track_plugin_latency@.len() == n
    &&& graph.track_output_latency@.len() == n
    &&& graph.track_pdc_delay@.len() == n
}

// ── Laws of the plan ────────────────────────────────────────────────────────

proof fn lemma_main_path_within_effective(
    tracks: Seq<RuntimeTrack>,
    out: Seq<nat>,
    master: Option<usize>,
    i: int,
    n: nat,
)
    ensures
        main_path_latency(tracks, out, master, i) <= effective_path_latency(
            tracks,
            out,
            master,
            i,
            n,
        ),
    decreases n,
{
    if n > 0 {
        lemma_main_path_within_effective(tracks, out, master, i, (n - 1) as nat);
    }
}

proof fn lemma_longest_bounds(
    tracks: Seq<RuntimeTrack>,
    out: Seq<nat>,
    master: Option<usize>,
    i: int,
    n: nat,
)
    requires
        0 <= i < n,
        !is_master_strip(tracks, master, i),
    ensures
        effective_path_latency(tracks, out, master, i, tracks[i].sends@.len()) <= longest_path(
            tracks,
            out,
            master,
            n,
        ),
    decreases n,
{
    if i < n - 1 {
        lemma_longest_bounds(tracks, out, master, i, (n - 1) as nat);
    }
}

/// No path of a track, dry or through a send, is longer than the longest path.
pub proof fn law_longest_path_bounds_every_path(
    tracks: Seq<RuntimeTrack>,
    audio_graph: RuntimeAudioGraph,
    pdc_enabled: bool,
    graph: RuntimeLatencyGraph,
    i: int,
)
    requires
        planned(tracks, audio_graph, pdc_enabled, graph),
        0 <= i < tracks.len(),
        !is_master_strip(tracks, audio_graph.master_index, i),
    ensures
        ({
            let order = audio_graph.pass2_routing_indices@;
            let out = output_latencies(tracks, order, order.len());
            let master = audio_graph.master_index;
            &&& main_path_latency(tracks, out, master, i) <= graph.max_path_latency_samples
            &&& effective_path_latency(tracks, out, master, i, tracks[i].sends@.len())
                <= graph.max_path_latency_samples
        }),
{
    let order = audio_graph.pass2_routing_indices@;
    let out = output_latencies(tracks, order, order.len());
    let master = audio_graph.master_index;
    lemma_main_path_within_effective(tracks, out, master, i, tracks[i].sends@.len());
    lemma_longest_bounds(tracks, out, master, i, tracks.len());
}

/// With compensation on, the dry path of every track that sums to the master
/// itself, together with its delay, is exactly the longest path: all of them
/// meet at the master sum.
pub proof fn law_compensated_paths_align(
    tracks: Seq<RuntimeTrack>,
    audio_graph: RuntimeAudioGraph,
    graph: RuntimeLatencyGraph,
    i: int,
)
    requires
        planned(tracks, audio_graph, true, graph),
        0 <= i < tracks.len(),
        !is_master_strip(tracks, audio_graph.master_index, i),
        bus_target(tracks, i) is None,
    ensures
        ({
            let order = audio_graph.pass2_routing_indices@;
            let out = output_latencies(tracks, order, order.len());
            main_path_latency(tracks, out, audio_graph.master_index, i) + graph.track_pdc_delay@[i]
                == graph.max_path_latency_samples
        }),
{
    law_longest_path_bounds_every_path(tracks, audio_graph, true, graph, i);
}

/// A track that feeds a bus takes no delay of its own; where the bus sums to
/// the master, the bus's delay alone brings the track's dry path to the longest
/// path, so nothing is compensated twice.
pub proof fn law_feeder_is_aligned_by_its_bus(
    tracks: Seq<RuntimeTrack>,
    audio_graph: RuntimeAudioGraph,
    graph: RuntimeLatencyGraph,
    i: int,
    bus: int,
)
    requires
        planned(tracks, audio_graph, true, graph),
        0 <= i < tracks.len(),
        0 <= bus < tracks.len(),
        bus_target(tracks, i) == Some(bus),
        bus_target(tracks, bus) is None,
        !is_master_strip(tracks, audio_graph.master_index, bus),
    ensures
        graph.track_pdc_delay@[i] == 0,
        ({
            let order = audio_graph.pass2_routing_indices@;
            let out = output_latencies(tracks, order, order.len());
            main_path_latency(tracks, out, audio_graph.master_index, i)
                + graph.track_pdc_delay@[bus] == graph.max_path_latency_samples
        }),
{
    law_compensated_paths_align(tracks, audio_graph, graph, bus);
}

/// Turning compensation off zeroes the delays and leaves every latency as it is.
pub proof fn law_compensation_off_keeps_latencies(
    tracks: Seq<RuntimeTrack>,
    audio_graph: RuntimeAudioGraph,
    on: RuntimeLatencyGraph,
    off: RuntimeLatencyGraph,
)
    requires
        planned(tracks, audio_graph, true, on),
        planned(tracks, audio_graph, false, off),
    ensures
        forall|i: int| 0 <= i < tracks.len() ==> #[trigger] off.track_pdc_delay@[i] == 0,
        off.track_plugin_latency@ == on.track_plugin_latency@,
        off.track_output_latency@ == on.track_output_latency@,
        off.max_path_latency_samples == on.max_path_latency_samples,
        off.master_plugin_latency == on.master_plugin_latency,
{
    assert(off.track_plugin_latency@ =~= on.track_plugin_latency@);
    assert(off.track_output_latency@ =~= on.track_output_latency@);
}

/// A chain of routing tracks never leads back: each hop between routing tracks
/// goes to a later track.
pub open spec fn hops_ascend(tracks: Seq<RuntimeTrack>, master: Option<usize>) -> bool {
    forall|i: int|
        #![trigger tracks[i]]
        0 <= i < tracks.len() && runtime::routing_type(tracks[i].track_type@) ==> (routing_hop(
            tracks,
            master,
            i,
        ) matches Some(next) ==> i < next < tracks.len())
}

proof fn lemma_tail_stable(
    tracks: Seq<RuntimeTrack>,
    master: Option<usize>,
    i: int,
    a: nat,
    b: nat,
)
    requires
        hops_ascend(tracks, master),
        0 <= i < tracks.len(),
        runtime::routing_type(tracks[i].track_type@),
        a >= tracks.len() - i - 1,
        b >= tracks.len() - i - 1,
    ensures
        tail_latency(tracks, master, i, a) == tail_latency(tracks, master, i, b),
    decreases tracks.len() - i,
{
    assert(tracks[i] == tracks[i]);
    match routing_hop(tracks, master, i) {
        Some(next) => {
            lemma_tail_stable(tracks, master, next, (a - 1) as nat, (b - 1) as nat);
        },
        None => {},
    }
}

/// Where no chain of routing tracks leads back, the bound on the number of hops
/// plays no part: the tail of a track is its next hop's plug-in latency and
/// that hop's own tail.
pub proof fn law_tail_follows_the_chain(
    tracks: Seq<RuntimeTrack>,
    master: Option<usize>,
    i: int,
    next: int,
)
    requires
        indices_valid(tracks),
        hops_ascend(tracks, master),
        0 <= i < tracks.len(),
        routing_hop(tracks, master, i) == Some(next),
    ensures
        tail_latency(tracks, master, i, tracks.len()) == strip_latency(tracks[next])
            + tail_latency(tracks, master, next, tracks.len()),
{
    assert(track_indices_valid(tracks[i], tracks.len()));
    lemma_tail_stable(tracks, master, next, (tracks.len() - 1) as nat, tracks.len());
}

/// `order` lists each routing track once, after every routing track that feeds
/// it.
pub open spec fn feed_order(tracks: Seq<RuntimeTrack>, order: Seq<usize>) -> bool {
    &&& forall|k: int| #![trigger order[k]] 0 <= k < order.len() ==> order[k] < tracks.len()
    &&& forall|j: int, k: int|
        #![trigger order[j], order[k]]
        0 <= j <= k < order.len() ==> !feeds(tracks[order[k] as int], order[j] as int)
    &&& forall|j: int, k: int|
        #![trigger order[j], order[k]]
        0 <= j < k < order.len() ==> order[j] != order[k]
}

proof fn lemma_output_untouched(
    tracks: Seq<RuntimeTrack>,
    order: Seq<usize>,
    a: nat,
    b: nat,
    i: int,
)
    requires
        a <= b <= order.len(),
        0 <= i < tracks.len(),
        forall|k: int| #![trigger order[k]] 0 <= k < order.len() ==> order[k] < tracks.len(),
        forall|k: int| #![trigger order[k]] a <= k < b ==> order[k] != i,
    ensures
        output_latencies(tracks, order, b)[i] == output_latencies(tracks, order, a)[i],
        output_latencies(tracks, order, a).len() == tracks.len(),
        output_latencies(tracks, order, b).len() == tracks.len(),
    decreases b,
{
    if a < b {
        lemma_output_untouched(tracks, order, a, (b - 1) as nat, i);
        assert(order[b - 1] != i);
    } else if b > 0 {
        lemma_output_len(tracks, order, b);
    }
}

proof fn lemma_output_len(tracks: Seq<RuntimeTrack>, order: Seq<usize>, k: nat)
    requires
        k <= order.len(),
        forall|j: int| #![trigger order[j]] 0 <= j < order.len() ==> order[j] < tracks.len(),
    ensures
        output_latencies(tracks, order, k).len() == tracks.len(),
    decreases k,
{
    if k > 0 {
        lemma_output_len(tracks, order, (k - 1) as nat);
        assert(order[k - 1] < tracks.len());
    }
}

proof fn lemma_feed_max_same(
    tracks: Seq<RuntimeTrack>,
    a: Seq<nat>,
    b: Seq<nat>,
    idx: int,
    n: nat,
)
    requires
        n <= tracks.len(),
        forall|i: int|
            #![trigger tracks[i]]
            0 <= i < n && feeds(tracks[i], idx) ==> a[i] == b[i],
    ensures
        feed_max(tracks, a, idx, n) == feed_max(tracks, b, idx, n),
    decreases n,
{
    if n > 0 {
        lemma_feed_max_same(tracks, a, b, idx, (n - 1) as nat);
        assert(feeds(tracks[n - 1], idx) ==> a[n - 1] == b[n - 1]);
    }
}

/// Where routing tracks are listed after the tracks that feed them, the planned
/// output latency of each is its own plug-in latency on top of the largest
/// output latency that reaches it, and every other track's is its own.
pub proof fn law_output_latency_includes_every_feed(
    tracks: Seq<RuntimeTrack>,
    order: Seq<usize>,
    i: int,
)
    requires
        feed_order(tracks, order),
        0 <= i < tracks.len(),
    ensures
        ({
            let out = output_latencies(tracks, order, order.len());
            &&& (exists|k: int| 0 <= k < order.len() && #[trigger] order[k] == i) ==> out[i]
                == saturated(strip_latency(tracks[i]) + feed_max(tracks, out, i, tracks.len()))
            &&& (forall|k: int| 0 <= k < order.len() ==> #[trigger] order[k] != i) ==> out[i]
                == strip_latency(tracks[i])
        }),
{
    let out = output_latencies(tracks, order, order.len());
    if exists|k: int| 0 <= k < order.len() && #[trigger] order[k] == i {
        let k = choose|k: int| 0 <= k < order.len() && #[trigger] order[k] == i;
        let mid = output_latencies(tracks, order, k as nat);
        lemma_output_len(tracks, order, k as nat);
        lemma_output_untouched(tracks, order, (k + 1) as nat, order.len(), i);
        assert forall|j: int|
            #![trigger tracks[j]]
            0 <= j < tracks.len() && feeds(tracks[j], i) implies mid[j] == out[j] by {
            assert forall|m: int| #![trigger order[m]] k <= m < order.len() implies order[m]
                != j by {
                if order[m] == j {
                    assert(order[k] == i);
                    assert(feeds(tracks[order[m] as int], order[k] as int));
                }
            }
            lemma_output_untouched(tracks, order, k as nat, order.len(), j);
        }
        lemma_feed_max_same(tracks, mid, out, i, tracks.len());
        assert(output_latencies(tracks, order, (k + 1) as nat)[i] == saturated(
            strip_latency(tracks[i]) + feed_max(tracks, mid, i, tracks.len()),
        ));
    } else {
        lemma_output_untouched(tracks, order, 0, order.len(), i);
    }
}

// ── The delay line ──────────────────────────────────────────────────────────

/// The samples that a ring holds, oldest first, when the next write goes to
/// `pos`.
pub open spec fn line_history(line: Seq<u32>, pos: nat) -> Seq<u32> {
    Seq::new(
        line.len(),
        |k: int|
            if pos % line.len() + k < line.len() {
                line[(pos % line.len()) + k]
            } else {
                line[(pos % line.len()) + k - line.len()]
            },
    )
}

/// What a delay line of `delay` samples makes of `input`: frame `f` comes out
/// `delay` frames later, and what the line held comes out first.
pub open spec fn delayed_block(
    history: Seq<u32>,
    input: Seq<u32>,
    delay: nat,
) -> Seq<u32> {
    (history + input).subrange(history.len() - delay, history.len() - delay + input.len())
}

/// The line's history after `input` went through it.
pub open spec fn shifted_history(history: Seq<u32>, input: Seq<u32>) -> Seq<u32> {
    (history + input).subrange(input.len() as int, (history + input).len() as int)
}

/// Whether a delay line takes part at all: some delay, some frames, and more
/// room than the delay.
pub open spec fn delay_applies(cap: nat, delay: u32, frames: nat) -> bool {
    delay > 0 && frames > 0 && cap > delay
}

proof fn lemma_line_step(line: Seq<u32>, wp: nat, x: u32, delay: nat)
    requires
        wp < line.len(),
        0 < delay < line.len(),
    ensures
        ({
            let cap = line.len();
            let rp = if wp >= delay {
                (wp - delay) as nat
            } else {
                (wp + cap - delay) as nat
            };
            let next = if wp + 1 == cap {
                0nat
            } else {
                wp + 1
            };
            &&& line_history(line, wp)[cap - delay] == line[rp as int]
            &&& line_history(line.update(wp as int, x), next) == line_history(
                line,
                wp,
            ).drop_first().push(x)
        }),
{
    let cap = line.len();
    let next: nat = if wp + 1 == cap {
        0
    } else {
        wp + 1
    };
    vstd::arithmetic::div_mod::lemma_small_mod(wp, cap);
    vstd::arithmetic::div_mod::lemma_small_mod(next, cap);
    assert(line_history(line.update(wp as int, x), next) =~= line_history(
        line,
        wp,
    ).drop_first().push(x));
}

/// One channel of the delay line: replace `block[..frames]` by the samples of
/// `delay` frames ago and write the block into the line.
fn delay_channel(
    block: &mut [u32],
    line: &mut [u32],
    start: usize,
    delay: usize,
    frames: usize,
) -> (end: usize)
    requires
        frames <= old(block)@.len(),
        start < old(line)@.len(),
        0 < delay < old(line)@.len(),
    ensures
        final(block)@ == delayed_block(
            line_history(old(line)@, start as nat),
            old(block)@.take(frames as int),
            delay as nat,
        ) + old(block)@.skip(frames as int),
        final(line)@.len() == old(line)@.len(),
        end < old(line)@.len(),
        line_history(final(line)@, end as nat) == shifted_history(
            line_history(old(line)@, start as nat),
            old(block)@.take(frames as int),
        ),
        end == (start + frames) % old(line)@.len() as int,
{
    let cap: usize = line.len();
    let ghost input = block@;
    let ghost history = line_history(line@, start as nat);
    let mut wp: usize = start;
    let mut frame: usize = 0;
    proof {
        assert(shifted_history(history, input.take(0)) =~= history);
        vstd::arithmetic::div_mod::lemma_small_mod(start as nat, cap as nat);
    }
    while frame < frames
        invariant
            frame <= frames,
            frames <= input.len(),
            block@.len() == input.len(),
            line@.len() == cap,
            history.len() == cap,
            wp < cap,
            0 < delay < cap,
            wp == (start + frame) % cap as int,
            forall|k: int|
                0 <= k < frame ==> #[trigger] block@[k] == (history + input)[cap - delay + k],
            forall|k: int| frame <= k < input.len() ==> #[trigger] block@[k] == input[k],
            line_history(line@, wp as nat) == shifted_history(history, input.take(frame as int)),
        decreases frames - frame,
    {
        let rp: usize = if wp >= delay {
            wp - delay
        } else {
            cap - delay + wp
        };
        let out: u32 = line[rp];
        let x: u32 = block[frame];
        proof {
            lemma_line_step(line@, wp as nat, x, delay as nat);
            let h = shifted_history(history, input.take(frame as int));
            assert(h[cap - delay] == (history + input)[cap - delay + frame]);
            assert(h.drop_first().push(x) =~= shifted_history(
                history,
                input.take(frame + 1),
            ));
        }
        line[wp] = x;
        block[frame] = out;
        proof {
            lemma_mod_step((start + frame) as nat, cap as nat);
        }
        wp = if wp + 1 == cap {
            0
        } else {
            wp + 1
        };
        frame = frame + 1;
    }
    proof {
        assert(block@ =~= delayed_block(history, input.take(frames as int), delay as nat)
            + input.skip(frames as int));
    }
    wp
}

proof fn lemma_mod_step(x: nat, m: nat)
    requires
        m > 0,
    ensures
        (x + 1) % m == if x % m + 1 == m {
            0
        } else {
            x % m + 1
        },
{
    if x % m + 1 == m {
        assert((x + 1) % m == 0) by (nonlinear_arith)
            requires
                m > 0,
                x % m + 1 == m,
        ;
    } else {
        assert((x + 1) % m == x % m + 1) by (nonlinear_arith)
            requires
                m > 0,
                x % m + 1 < m,
        ;
        assert(x % m < m) by (nonlinear_arith)
            requires
                m > 0,
        ;
    }
}

/// In-place stereo delay line. Nothing happens without a delay, without frames,
/// or when the line has no more room than the delay. Samples are bit patterns.
pub fn apply_pdc_delay_block(
    block_l: &mut [u32],
    block_r: &mut [u32],
    delay_l: &mut [u32],
    delay_r: &mut [u32],
    write_pos: &mut usize,
    delay_samples: u32,
    frames: usize,
)
    requires
        frames <= old(block_l)@.len(),
        frames <= old(block_r)@.len(),
        old(delay_l)@.len() == old(delay_r)@.len(),
    ensures
        final(delay_l)@.len() == old(delay_l)@.len(),
        final(delay_r)@.len() == old(delay_r)@.len(),
        !delay_applies(old(delay_l)@.len(), delay_samples, frames as nat) ==> {
            &&& final(block_l)@ == old(block_l)@
            &&& final(block_r)@ == old(block_r)@
            &&& final(delay_l)@ == old(delay_l)@
            &&& final(delay_r)@ == old(delay_r)@
            &&& *final(write_pos) == *old(write_pos)
        },
        delay_applies(old(delay_l)@.len(), delay_samples, frames as nat) ==> {
            let n = frames as int;
            let hist_l = line_history(old(delay_l)@, *old(write_pos) as nat);
            let hist_r = line_history(old(delay_r)@, *old(write_pos) as nat);
            let in_l = old(block_l)@.take(n);
            let in_r = old(block_r)@.take(n);
            let delay = delay_samples as nat;
            &&& final(block_l)@ == delayed_block(hist_l, in_l, delay) + old(block_l)@.skip(n)
            &&& final(block_r)@ == delayed_block(hist_r, in_r, delay) + old(block_r)@.skip(n)
            &&& line_history(final(delay_l)@, *final(write_pos) as nat) == shifted_history(
                hist_l,
                in_l,
            )
            &&& line_history(final(delay_r)@, *final(write_pos) as nat) == shifted_history(
                hist_r,
                in_r,
            )
            &&& *final(write_pos) == (*old(write_pos) as int % old(delay_l)@.len() as int + n)
                % old(delay_l)@.len() as int
        },
{
    if delay_samples == 0 || frames == 0 {
        return;
    }
    let cap: usize = delay_l.len();
    if cap as u64 <= delay_samples as u64 {
        return;
    }
    let delay: usize = delay_samples as usize;
    let start: usize = *write_pos % cap;
    proof {
        vstd::arithmetic::div_mod::lemma_small_mod(start as nat, cap as nat);
        assert(line_history(delay_l@, *write_pos as nat) =~= line_history(delay_l@, start as nat));
        assert(line_history(delay_r@, *write_pos as nat) =~= line_history(delay_r@, start as nat));
    }
    let end: usize = delay_channel(block_l, delay_l, start, delay, frames);
    let end_r: usize = delay_channel(block_r, delay_r, start, delay, frames);
    *write_pos = end;
}

/// Cutting a stream into blocks makes no difference to what a delay line gives
/// out: two blocks in turn come out as the two together would.
pub proof fn law_delay_line_ignores_block_boundaries(
    history: Seq<u32>,
    first: Seq<u32>,
    second: Seq<u32>,
    delay: nat,
)
    requires
        delay <= history.len(),
    ensures
        delayed_block(history, first, delay) + delayed_block(
            shifted_history(history, first),
            second,
            delay,
        ) == delayed_block(history, first + second, delay),
        shifted_history(shifted_history(history, first), second) == shifted_history(
            history,
            first + second,
        ),
{
    assert(delayed_block(history, first, delay) + delayed_block(
        shifted_history(history, first),
        second,
        delay,
    ) =~= delayed_block(history, first + second, delay));
    assert(shifted_history(shifted_history(history, first), second) =~= shifted_history(
        history,
        first + second,
    ));
}

/// A sample goes in and comes out exactly `delay` frames later.
pub proof fn law_delay_line_shifts_by_its_delay(
    history: Seq<u32>,
    input: Seq<u32>,
    delay: nat,
    f: int,
)
    requires
        delay <= history.len(),
        0 <= f,
        f + delay < input.len(),
    ensures
        delayed_block(history, input, delay)[f + delay] == input[f],
{
}

// ── Latencies in terms of the tracks ────────────────────────────────────────

/// A chain's latency is the sum of what its in-process plug-ins report: one
/// that is switched on and ready adds what it reports, anything else nothing,
/// and putting chains together adds their latencies.
pub proof fn law_chain_latency_adds_up(
    first: Seq<RuntimeInsert>,
    second: Seq<RuntimeInsert>,
    insert: RuntimeInsert,
)
    ensures
        inserts_latency(first + second) == inserts_latency(first) + inserts_latency(second),
        inserts_latency(Seq::empty()) == 0,
        insert.enabled && (insert.native matches Some(native) && native.ready
            && native.latency_samples >= 0) ==> inserts_latency(seq![insert])
            == insert.native->0.latency_samples,
        !insert.enabled || insert.native is None || (insert.native matches Some(native) && (
        !native.ready || native.latency_samples < 0)) ==> inserts_latency(seq![insert]) == 0,
    decreases second.len(),
{
    assert(seq![insert].drop_last() =~= Seq::empty());
    assert(seq![insert].last() == insert);
    assert(inserts_latency(seq![insert]) == insert_latency(insert)) by {
        assert(inserts_latency(seq![insert].drop_last()) == 0);
    }
    if second.len() == 0 {
        assert(first + second =~= first);
    } else {
        law_chain_latency_adds_up(first, second.drop_last(), insert);
        assert((first + second).drop_last() =~= first + second.drop_last());
    }
}

/// A strip's latency is its chain's, with the stored value as a floor.
pub proof fn law_strip_latency_has_its_floor(track: RuntimeTrack)
    ensures
        strip_latency(track) >= inserts_latency(track.inserts@),
        strip_latency(track) >= track.plugin_latency_samples,
        strip_latency(track) == inserts_latency(track.inserts@) || strip_latency(track)
            == track.plugin_latency_samples,
{
}

/// Track `j` gives its signal to track `i`: by an enabled send, or as its main
/// output. The master gives to none.
pub open spec fn gives_to(tracks: Seq<RuntimeTrack>, j: int, i: int) -> bool {
    &&& tracks[j].track_type@ != "master"@
    &&& tracks[j].output_track_index == Some(i as usize) || exists|s: int|
        0 <= s < tracks[j].sends@.len() && #[trigger] tracks[j].sends@[s].enabled
            && tracks[j].sends@[s].return_track_index == Some(i as usize)
}

proof fn lemma_gives_to(tracks: Seq<RuntimeTrack>, j: int, i: int)
    requires
        0 <= i <= usize::MAX,
    ensures
        feeds(tracks[j], i) == gives_to(tracks, j, i),
{
    if sends_into(tracks[j], i) {
        let s = choose|s: int|
            #![trigger tracks[j].sends@[s]]
            0 <= s < tracks[j].sends@.len() && tracks[j].sends@[s].enabled && (
            tracks[j].sends@[s].return_track_index matches Some(t) && t == i);
        assert(tracks[j].sends@[s].enabled);
    }
}

proof fn lemma_feed_max_bounds(
    tracks: Seq<RuntimeTrack>,
    out: Seq<nat>,
    i: int,
    n: nat,
)
    requires
        n <= tracks.len(),
        out.len() == tracks.len(),
        0 <= i <= usize::MAX,
    ensures
        forall|j: int|
            #![trigger out[j]]
            0 <= j < n && gives_to(tracks, j, i) ==> out[j] <= feed_max(tracks, out, i, n),
        feed_max(tracks, out, i, n) > 0 ==> exists|j: int|
            0 <= j < n && gives_to(tracks, j, i) && #[trigger] out[j] == feed_max(
                tracks,
                out,
                i,
                n,
            ),
    decreases n,
{
    if n > 0 {
        lemma_feed_max_bounds(tracks, out, i, (n - 1) as nat);
        lemma_gives_to(tracks, n - 1, i);
        let rest = feed_max(tracks, out, i, (n - 1) as nat);
        let all = feed_max(tracks, out, i, n);
        if all > 0 {
            if all == rest {
                let j = choose|j: int|
                    0 <= j < n - 1 && gives_to(tracks, j, i) && #[trigger] out[j] == rest;
                assert(out[j] == all);
            } else {
                assert(out[n - 1] == all);
            }
        }
    }
}

/// The listed routing tracks come after every track that gives to them, each
/// once.
pub open spec fn listed_after_feeds(tracks: Seq<RuntimeTrack>, order: Seq<usize>) -> bool {
    &&& forall|k: int| #![trigger order[k]] 0 <= k < order.len() ==> order[k] < tracks.len()
    &&& forall|j: int, k: int|
        #![trigger order[j], order[k]]
        0 <= j <= k < order.len() ==> !gives_to(tracks, order[k] as int, order[j] as int)
    &&& forall|j: int, k: int|
        #![trigger order[j], order[k]]
        0 <= j < k < order.len() ==> order[j] != order[k]
}

/// A signal leaves a listed routing track as late as the latest of what it is
/// given, and its own plug-ins later, held at the largest latency; a track that
/// is not listed adds its own plug-ins only.
pub proof fn law_routing_track_is_as_late_as_its_latest_feed(
    tracks: Seq<RuntimeTrack>,
    audio_graph: RuntimeAudioGraph,
    pdc_enabled: bool,
    graph: RuntimeLatencyGraph,
    i: int,
    listed: int,
)
    requires
        planned(tracks, audio_graph, pdc_enabled, graph),
        listed_after_feeds(tracks, audio_graph.pass2_routing_indices@),
        0 <= i < tracks.len() <= usize::MAX,
    ensures
        ({
            let order = audio_graph.pass2_routing_indices@;
            let late = graph.track_output_latency@;
            let own = strip_latency(tracks[i]);
            &&& graph.track_plugin_latency@[i] == own
            &&& (forall|k: int| 0 <= k < order.len() ==> #[trigger] order[k] != i) ==> late[i]
                == own
            &&& 0 <= listed < order.len() && order[listed] == i ==> {
                &&& forall|j: int|
                    #![trigger late[j]]
                    0 <= j < tracks.len() && gives_to(tracks, j, i) ==> late[i] >= own + late[j]
                        || late[i] == u32::MAX
                &&& late[i] == own || late[i] == u32::MAX || exists|j: int|
                    0 <= j < tracks.len() && gives_to(tracks, j, i) && #[trigger] late[j] + own
                        == late[i]
            }
        }),
{
    let order = audio_graph.pass2_routing_indices@;
    let out = output_latencies(tracks, order, order.len());
    lemma_output_len(tracks, order, order.len());
    assert(feed_order(tracks, order)) by {
        assert forall|j: int, k: int|
            #![trigger order[j], order[k]]
            0 <= j <= k < order.len() implies !feeds(tracks[order[k] as int], order[j] as int) by {
            lemma_gives_to(tracks, order[k] as int, order[j] as int);
        }
    }
    law_output_latency_includes_every_feed(tracks, order, i);
    lemma_feed_max_bounds(tracks, out, i, tracks.len());
    assert(graph.track_plugin_latency@[i] == strip_latency(tracks[i]));
    assert(graph.track_output_latency@[i] == out[i]);
    if 0 <= listed < order.len() && order[listed] == i {
        let late = graph.track_output_latency@;
        let own = strip_latency(tracks[i]);
        assert forall|j: int|
            #![trigger late[j]]
            0 <= j < tracks.len() && gives_to(tracks, j, i) implies late[i] >= own + late[j]
            || late[i] == u32::MAX by {
            assert(late[j] == out[j]);
        }
        let most = feed_max(tracks, out, i, tracks.len());
        if most > 0 {
            let j = choose|j: int|
                0 <= j < tracks.len() && gives_to(tracks, j, i) && #[trigger] out[j] == most;
            assert(late[j] == out[j]);
        }
    }
}

/// A track's signal goes through the routing track that its main output names,
/// unless that is the master, and through the routing tracks behind it in turn:
/// the latency behind a track is the plug-ins of the next one and the latency
/// behind that one, and nothing where there is no next one.
pub proof fn law_latency_behind_a_track_follows_its_outputs(
    tracks: Seq<RuntimeTrack>,
    master: Option<usize>,
    i: int,
)
    requires
        indices_valid(tracks),
        0 <= i < tracks.len(),
        forall|j: int|
            #![trigger tracks[j]]
            0 <= j < tracks.len() && (tracks[j].track_type@ == "bus"@ || tracks[j].track_type@
                == "return"@ || tracks[j].track_type@ == "group"@) ==> (
            tracks[j].output_track_index matches Some(t) ==> j < t < tracks.len()),
    ensures
        ({
            let next = tracks[i].output_track_index;
            let goes_on = next is Some && next != master && (tracks[next->0 as int].track_type@
                == "bus"@ || tracks[next->0 as int].track_type@ == "return"@
                || tracks[next->0 as int].track_type@ == "group"@);
            &&& goes_on ==> tail_latency(tracks, master, i, tracks.len()) == strip_latency(
                tracks[next->0 as int],
            ) + tail_latency(tracks, master, next->0 as int, tracks.len())
            &&& !goes_on ==> tail_latency(tracks, master, i, tracks.len()) == 0
        }),
{
    assert(hops_ascend(tracks, master)) by {
        assert forall|j: int|
            #![trigger tracks[j]]
            0 <= j < tracks.len() && runtime::routing_type(tracks[j].track_type@) implies (
        routing_hop(tracks, master, j) matches Some(next) ==> j < next < tracks.len()) by {}
    }
    if let Some(next) = routing_hop(tracks, master, i) {
        law_tail_follows_the_chain(tracks, master, i, next);
    }
}

/// The way from a track to the master sum is the latency at its output and what
/// is behind it; the master itself is no way from it.
pub proof fn law_path_is_output_and_what_is_behind(
    tracks: Seq<RuntimeTrack>,
    out: Seq<nat>,
    master: Option<usize>,
    i: int,
)
    requires
        0 <= i < tracks.len() <= usize::MAX,
    ensures
        master == Some(i as usize) ==> path_latency(tracks, out, master, i) == 0,
        master != Some(i as usize) && out[i] + tail_latency(tracks, master, i, tracks.len())
            <= u32::MAX ==> path_latency(tracks, out, master, i) == out[i] + tail_latency(
            tracks,
            master,
            i,
            tracks.len(),
        ),
        path_latency(tracks, out, master, i) <= u32::MAX,
{
}

/// A track's dry signal takes the way of the routing track that it feeds, and
/// its own where it feeds none.
pub proof fn law_dry_path_is_that_of_the_bus(
    tracks: Seq<RuntimeTrack>,
    out: Seq<nat>,
    master: Option<usize>,
    i: int,
)
    requires
        indices_valid(tracks),
        0 <= i < tracks.len(),
    ensures
        ({
            let next = tracks[i].output_track_index;
            let bus = next is Some && (tracks[next->0 as int].track_type@ == "bus"@
                || tracks[next->0 as int].track_type@ == "return"@
                || tracks[next->0 as int].track_type@ == "group"@);
            &&& bus ==> main_path_latency(tracks, out, master, i) == path_latency(
                tracks,
                out,
                master,
                next->0 as int,
            )
            &&& !bus ==> main_path_latency(tracks, out, master, i) == path_latency(
                tracks,
                out,
                master,
                i,
            )
        }),
{
}

proof fn lemma_effective_attained(
    tracks: Seq<RuntimeTrack>,
    out: Seq<nat>,
    master: Option<usize>,
    i: int,
    n: nat,
)
    requires
        n <= tracks[i].sends@.len(),
    ensures
        ({
            let longest = effective_path_latency(tracks, out, master, i, n);
            &&& longest >= main_path_latency(tracks, out, master, i)
            &&& forall|s: int|
                #![trigger tracks[i].sends@[s]]
                0 <= s < n && tracks[i].sends@[s].enabled ==> (
                tracks[i].sends@[s].return_track_index matches Some(t) ==> longest >= path_latency(
                    tracks,
                    out,
                    master,
                    t as int,
                ))
            &&& longest == main_path_latency(tracks, out, master, i) || exists|s: int|
                #![trigger tracks[i].sends@[s]]
                0 <= s < n && tracks[i].sends@[s].enabled && (
                tracks[i].sends@[s].return_track_index matches Some(t) && longest == path_latency(
                    tracks,
                    out,
                    master,
                    t as int,
                ))
        }),
    decreases n,
{
    if n > 0 {
        lemma_effective_attained(tracks, out, master, i, (n - 1) as nat);
        let rest = effective_path_latency(tracks, out, master, i, (n - 1) as nat);
        let longest = effective_path_latency(tracks, out, master, i, n);
        if longest == rest {
            if longest != main_path_latency(tracks, out, master, i) {
                let s = choose|s: int|
                    #![trigger tracks[i].sends@[s]]
                    0 <= s < n - 1 && tracks[i].sends@[s].enabled && (
                    tracks[i].sends@[s].return_track_index matches Some(t) && rest
                        == path_latency(tracks, out, master, t as int));
                assert(tracks[i].sends@[s].enabled);
            }
        } else {
            assert(tracks[i].sends@[n - 1].enabled);
        }
    }
}

/// A track's longest path is the longest of its dry path and the paths of the
/// tracks that its enabled sends name: none is longer, and one of them is as
/// long.
pub proof fn law_longest_way_of_a_track(
    tracks: Seq<RuntimeTrack>,
    out: Seq<nat>,
    master: Option<usize>,
    i: int,
)
    ensures
        ({
            let longest = effective_path_latency(tracks, out, master, i, tracks[i].sends@.len());
            &&& longest >= main_path_latency(tracks, out, master, i)
            &&& forall|s: int|
                #![trigger tracks[i].sends@[s]]
                0 <= s < tracks[i].sends@.len() && tracks[i].sends@[s].enabled ==> (
                tracks[i].sends@[s].return_track_index matches Some(t) ==> longest >= path_latency(
                    tracks,
                    out,
                    master,
                    t as int,
                ))
            &&& longest == main_path_latency(tracks, out, master, i) || exists|s: int|
                #![trigger tracks[i].sends@[s]]
                0 <= s < tracks[i].sends@.len() && tracks[i].sends@[s].enabled && (
                tracks[i].sends@[s].return_track_index matches Some(t) && longest == path_latency(
                    tracks,
                    out,
                    master,
                    t as int,
                ))
        }),
{
    lemma_effective_attained(tracks, out, master, i, tracks[i].sends@.len());
}

proof fn lemma_longest_attained(
    tracks: Seq<RuntimeTrack>,
    out: Seq<nat>,
    master: Option<usize>,
    n: nat,
)
    requires
        n <= tracks.len() <= usize::MAX,
    ensures
        longest_path(tracks, out, master, n) > 0 ==> exists|i: int|
            #![trigger tracks[i]]
            0 <= i < n && master != Some(i as usize) && tracks[i].track_type@ != "master"@
                && longest_path(tracks, out, master, n) == effective_path_latency(
                tracks,
                out,
                master,
                i,
                tracks[i].sends@.len(),
            ),
    decreases n,
{
    if n > 0 {
        lemma_longest_attained(tracks, out, master, (n - 1) as nat);
        let rest = longest_path(tracks, out, master, (n - 1) as nat);
        let all = longest_path(tracks, out, master, n);
        if all > 0 {
            if all == rest {
                let i = choose|i: int|
                    #![trigger tracks[i]]
                    0 <= i < n - 1 && master != Some(i as usize) && tracks[i].track_type@
                        != "master"@ && rest == effective_path_latency(
                        tracks,
                        out,
                        master,
                        i,
                        tracks[i].sends@.len(),
                    );
                assert(tracks[i].track_type@ != "master"@);
            } else {
                assert(tracks[n - 1].track_type@ != "master"@);
            }
        }
    }
}

/// The longest path of a project is the way of one of its tracks, and no track
/// but the master has a longer one.
pub proof fn law_longest_path_is_some_tracks(
    tracks: Seq<RuntimeTrack>,
    audio_graph: RuntimeAudioGraph,
    pdc_enabled: bool,
    graph: RuntimeLatencyGraph,
    i: int,
)
    requires
        planned(tracks, audio_graph, pdc_enabled, graph),
        0 <= i < tracks.len() <= usize::MAX,
    ensures
        ({
            let order = audio_graph.pass2_routing_indices@;
            let out = output_latencies(tracks, order, order.len());
            let master = audio_graph.master_index;
            let longest = graph.max_path_latency_samples;
            &&& master != Some(i as usize) && tracks[i].track_type@ != "master"@ ==> longest
                >= effective_path_latency(tracks, out, master, i, tracks[i].sends@.len())
            &&& longest > 0 ==> exists|j: int|
                #![trigger tracks[j]]
                0 <= j < tracks.len() && longest == effective_path_latency(
                    tracks,
                    out,
                    master,
                    j,
                    tracks[j].sends@.len(),
                )
        }),
{
    let order = audio_graph.pass2_routing_indices@;
    let out = output_latencies(tracks, order, order.len());
    let master = audio_graph.master_index;
    lemma_longest_attained(tracks, out, master, tracks.len());
    if master != Some(i as usize) && tracks[i].track_type@ != "master"@ {
        lemma_longest_bounds(tracks, out, master, i, tracks.len());
    }
    if graph.max_path_latency_samples > 0 {
        let j = choose|j: int|
            #![trigger tracks[j]]
            0 <= j < tracks.len() && master != Some(j as usize) && tracks[j].track_type@
                != "master"@ && longest_path(tracks, out, master, tracks.len())
                == effective_path_latency(tracks, out, master, j, tracks[j].sends@.len());
        assert(tracks[j] == tracks[j]);
    }
}

/// A track is delayed by what its dry path lacks of the longest path, and
/// exactly so where compensation is on, the track is not the master, and its
/// main output names no routing track. Every other track is not delayed.
pub proof fn law_delay_is_what_a_path_lacks(
    tracks: Seq<RuntimeTrack>,
    audio_graph: RuntimeAudioGraph,
    pdc_enabled: bool,
    graph: RuntimeLatencyGraph,
    i: int,
)
    requires
        planned(tracks, audio_graph, pdc_enabled, graph),
        indices_valid(tracks),
        0 <= i < tracks.len() <= usize::MAX,
    ensures
        ({
            let order = audio_graph.pass2_routing_indices@;
            let out = output_latencies(tracks, order, order.len());
            let master = audio_graph.master_index;
            let next = tracks[i].output_track_index;
            let bus = next is Some && (tracks[next->0 as int].track_type@ == "bus"@
                || tracks[next->0 as int].track_type@ == "return"@
                || tracks[next->0 as int].track_type@ == "group"@);
            let own = pdc_enabled && master != Some(i as usize) && tracks[i].track_type@
                != "master"@ && !bus;
            &&& own ==> graph.track_pdc_delay@[i] + main_path_latency(tracks, out, master, i)
                == graph.max_path_latency_samples
            &&& !own ==> graph.track_pdc_delay@[i] == 0
        }),
{
    assert(track_indices_valid(tracks[i], tracks.len()));
    if audio_graph.master_index != Some(i as usize) && tracks[i].track_type@ != "master"@ {
        law_longest_path_bounds_every_path(tracks, audio_graph, pdc_enabled, graph, i);
    }
}

/// Tracks that go straight to the master meet there: with compensation on, the
/// plug-ins of each and its delay are together as long as the plug-ins of the
/// slowest one.
pub proof fn law_parallel_tracks_meet(
    tracks: Seq<RuntimeTrack>,
    audio_graph: RuntimeAudioGraph,
    graph: RuntimeLatencyGraph,
    i: int,
)
    requires
        planned(tracks, audio_graph, true, graph),
        0 <= i < tracks.len() <= usize::MAX,
        strips_fit(tracks),
        audio_graph.pass2_routing_indices@.len() == 0,
        audio_graph.master_index != Some(i as usize),
        tracks[i].track_type@ != "master"@,
        forall|j: int|
            #![trigger tracks[j]]
            0 <= j < tracks.len() ==> tracks[j].output_track_index is None && tracks[j].sends@.len()
                == 0,
    ensures
        graph.track_plugin_latency@[i] + graph.track_pdc_delay@[i]
            == graph.max_path_latency_samples,
        graph.max_path_latency_samples > 0 ==> exists|j: int|
            0 <= j < tracks.len() && #[trigger] graph.track_plugin_latency@[j]
                == graph.max_path_latency_samples,
{
    let order = audio_graph.pass2_routing_indices@;
    let out = output_latencies(tracks, order, order.len());
    let master = audio_graph.master_index;
    law_longest_path_is_some_tracks(tracks, audio_graph, true, graph, i);
    law_compensated_paths_align(tracks, audio_graph, graph, i);
    assert forall|j: int| #![trigger tracks[j]] 0 <= j < tracks.len() implies out[j]
        == strip_latency(tracks[j]) && tail_latency(tracks, master, j, tracks.len()) == 0
        && strip_latency(tracks[j]) <= u32::MAX by {
        assert(tracks[j].output_track_index is None);
        assert(inserts_latency(tracks[j].inserts@) <= u32::MAX);
    }
    assert(tracks[i].output_track_index is None);
    assert(graph.track_plugin_latency@[i] == strip_latency(tracks[i]));
    if graph.max_path_latency_samples > 0 {
        let j = choose|j: int|
            #![trigger tracks[j]]
            0 <= j < tracks.len() && graph.max_path_latency_samples == effective_path_latency(
                tracks,
                out,
                master,
                j,
                tracks[j].sends@.len(),
            );
        assert(tracks[j].sends@.len() == 0);
        assert(graph.track_plugin_latency@[j] == strip_latency(tracks[j]));
    }
}

proof fn lemma_index_names(tracks: Seq<RuntimeTrack>, id: Seq<char>)
    requires
        tracks.len() <= usize::MAX,
    ensures
        track_index_of(tracks, id) matches Some(t) ==> t < tracks.len() && tracks[t as int].id@
            == id && forall|j: int| t < j < tracks.len() ==> #[trigger] tracks[j].id@ != id,
        track_index_of(tracks, id) is None ==> forall|j: int|
            0 <= j < tracks.len() ==> #[trigger] tracks[j].id@ != id,
    decreases tracks.len(),
{
    if tracks.len() > 0 {
        lemma_index_names(tracks.drop_last(), id);
        if tracks.last().id@ != id {
            assert forall|j: int| 0 <= j < tracks.len() - 1 implies #[trigger] tracks[j]
                == tracks.drop_last()[j] by {}
        }
    }
}

/// Looking up a track's targets finds the tracks of those names, the last of
/// them where several have the name, and none where no track has it. A main
/// output without a name, or named for the master, has none; nothing else of
/// the track changes.
pub proof fn law_targets_are_found_by_name(
    tracks: Seq<RuntimeTrack>,
    before: RuntimeTrack,
    after: RuntimeTrack,
    s: int,
)
    requires
        tracks.len() <= usize::MAX,
        resolved_track(tracks, before, after),
        0 <= s < before.sends@.len(),
    ensures
        before.output_track_id is None ==> after.output_track_index is None,
        before.output_track_id matches Some(id) ==> {
            &&& id@.len() == 0 || id@ == "master"@ || id@ == "none"@ ==> after.output_track_index
                is None
            &&& id@.len() > 0 && id@ != "master"@ && id@ != "none"@ ==> {
                &&& after.output_track_index matches Some(t) ==> t < tracks.len()
                    && tracks[t as int].id@ == id@ && forall|j: int|
                    t < j < tracks.len() ==> #[trigger] tracks[j].id@ != id@
                &&& after.output_track_index is None ==> forall|j: int|
                    0 <= j < tracks.len() ==> #[trigger] tracks[j].id@ != id@
            }
        },
        after.sends@[s].return_track_index matches Some(t) ==> t < tracks.len()
            && tracks[t as int].id@ == before.sends@[s].return_track_id@ && forall|j: int|
            t < j < tracks.len() ==> #[trigger] tracks[j].id@
                != before.sends@[s].return_track_id@,
        after.sends@[s].return_track_index is None ==> forall|j: int|
            0 <= j < tracks.len() ==> #[trigger] tracks[j].id@
                != before.sends@[s].return_track_id@,
        after.sends@[s].enabled == before.sends@[s].enabled,
        after.sends@[s].level_bits == before.sends@[s].level_bits,
        after.sends@[s].pre_fader == before.sends@[s].pre_fader,
        after.muted == before.muted && after.solo == before.solo && after.inserts
            == before.inserts && after.id == before.id && after.track_type == before.track_type,
{
    if let Some(id) = before.output_track_id {
        lemma_index_names(tracks, id@);
    }
    lemma_index_names(tracks, before.sends@[s].return_track_id@);
    assert(after.sends@[s] == after.sends@[s]);
}

/// What a delay line gives out first is what it was given last before: the
/// first `delay` frames are the newest `delay` samples that it held, in order,
/// and a block comes out as long as it went in.
pub proof fn law_delay_line_gives_out_what_it_held(
    history: Seq<u32>,
    input: Seq<u32>,
    delay: nat,
    f: int,
)
    requires
        delay <= history.len(),
        0 <= f < input.len(),
    ensures
        delayed_block(history, input, delay).len() == input.len(),
        f < delay ==> delayed_block(history, input, delay)[f] == history[history.len() - delay
            + f],
        f >= delay ==> delayed_block(history, input, delay)[f] == input[f - delay],
        shifted_history(history, input).len() == history.len(),
        input.len() <= history.len() ==> shifted_history(history, input)[history.len()
            - input.len() + f] == input[f],
{
}

/// The samples of a line are read round from the place that is written next:
/// the oldest stands there, and the newest right before it.
pub proof fn law_line_is_read_round(line: Seq<u32>, pos: nat, k: int)
    requires
        0 <= k < line.len(),
    ensures
        line_history(line, pos).len() == line.len(),
        line_history(line, pos)[k] == line[(pos as int + k) % line.len() as int],
{
    let n = line.len() as int;
    let p = pos as int % n;
    vstd::arithmetic::div_mod::lemma_fundamental_div_mod(pos as int, n);
    let q = pos as int / n;
    assert(0 <= p < n) by (nonlinear_arith)
        requires
            n > 0,
            p == pos as int % n,
    ;
    assert(pos + k == n * q + (p + k));
    vstd::arithmetic::div_mod::lemma_mod_multiples_vanish(q, p + k, n);
    if p + k < n {
        vstd::arithmetic::div_mod::lemma_small_mod((p + k) as nat, n as nat);
    } else {
        vstd::arithmetic::div_mod::lemma_mod_add_multiples_vanish(p + k - n, n);
        vstd::arithmetic::div_mod::lemma_small_mod((p + k - n) as nat, n as nat);
    }
}

/// A line that has room for more than the delay delays every block of some
/// frames by it; a delay of zero leaves every block as it is.
pub proof fn law_delay_applies_where_there_is_room(cap: nat, delay: u32, frames: nat)
    ensures
        delay > 0 && frames > 0 && cap >= delay + 1 ==> delay_applies(cap, delay, frames),
        delay == 0 || frames == 0 || cap <= delay ==> !delay_applies(cap, delay, frames),
{
}

/// Every strip's own latency is noted, the master's among them: its chain's, or
/// the stored value where that is larger. Without a master there is none.
pub proof fn law_strips_and_master_are_noted(
    tracks: Seq<RuntimeTrack>,
    audio_graph: RuntimeAudioGraph,
    pdc_enabled: bool,
    graph: RuntimeLatencyGraph,
    i: int,
)
    requires
        planned(tracks, audio_graph, pdc_enabled, graph),
        0 <= i < tracks.len(),
    ensures
        graph.track_plugin_latency@[i] >= inserts_latency(tracks[i].inserts@),
        graph.track_plugin_latency@[i] >= tracks[i].plugin_latency_samples,
        graph.track_plugin_latency@[i] == inserts_latency(tracks[i].inserts@)
            || graph.track_plugin_latency@[i] == tracks[i].plugin_latency_samples,
        (audio_graph.master_index matches Some(m) && m == i) ==> graph.master_plugin_latency
            == graph.track_plugin_latency@[i],
        audio_graph.master_index is None ==> graph.master_plugin_latency == 0,
{
    law_strip_latency_has_its_floor(tracks[i]);
}

} // verus!
