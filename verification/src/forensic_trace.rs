//! Switches and rate limits of the trace output.

use vstd::prelude::*;

verus! {

/// Whether the engine's MIDI is traced: everything is, or this area is.
pub fn engine_midi_trace_enabled(forensic: bool, midi_debug: bool) -> (r: bool)
    ensures
        r == (forensic || midi_debug),
{
    forensic || midi_debug
}

/// Whether the engine's MIDI is traced in full.
pub fn engine_midi_verbose_enabled(forensic: bool, midi_verbose: bool) -> (r: bool)
    ensures
        r == (forensic || midi_verbose),
{
    forensic || midi_verbose
}

/// Whether plug-in MIDI is traced.
pub fn vst3_trace_enabled(forensic: bool, vst3_debug: bool) -> (r: bool)
    ensures
        r == (forensic || vst3_debug),
{
    forensic || vst3_debug
}

/// Milliseconds between two heartbeats of the scheduler at least.
pub const HEARTBEAT_INTERVAL_MS: u64 = 1000;

/// Whether a heartbeat is due at `now`, the last one having been at `last`.
pub open spec fn heartbeat_due(last: u64, now: u64) -> bool {
    now >= last + HEARTBEAT_INTERVAL_MS
}

/// Whether the scheduler's heartbeat is due at `now`, in milliseconds. One that
/// is due is taken as given.
pub fn scheduler_heartbeat_due(last: &mut u64, now: u64) -> (r: bool)
    ensures
        r == heartbeat_due(*old(last), now),
        *final(last) == if heartbeat_due(*old(last), now) {
            now
        } else {
            *old(last)
        },
{
    if now >= *last && now - *last >= HEARTBEAT_INTERVAL_MS {
        *last = now;
        true
    } else {
        false
    }
}

/// Within one interval of a heartbeat there is no other, whatever the clock
/// does.
pub proof fn law_heartbeats_keep_their_distance(last: u64, now: u64, later: u64)
    requires
        heartbeat_due(last, now),
        heartbeat_due(now, later),
    ensures
        later - now >= HEARTBEAT_INTERVAL_MS,
{
}

/// Milliseconds between two lines of the input's trace at least.
pub const INPUT_TRACE_INTERVAL_MS: u64 = 500;

/// Whether a line of the input's trace is due at `now`, the last one having been
/// at `last`, if there was one.
pub open spec fn input_trace_due(enabled: bool, last: Option<u64>, now: u64) -> bool {
    enabled && match last {
        Some(then) => now >= then + INPUT_TRACE_INTERVAL_MS,
        None => true,
    }
}

/// Whether a line of the input's trace is due at `now`, in milliseconds of a
/// clock that never goes back. One that is due is taken as written.
pub fn log_input_debug_throttled(enabled: bool, last: &mut Option<u64>, now: u64) -> (r: bool)
    ensures
        r == input_trace_due(enabled, *old(last), now),
        *final(last) == if input_trace_due(enabled, *old(last), now) {
            Some(now)
        } else {
            *old(last)
        },
{
    let due: bool = enabled && match *last {
        Some(then) => now >= then && now - then >= INPUT_TRACE_INTERVAL_MS,
        None => true,
    };
    if due {
        *last = Some(now);
    }
    due
}

/// What is traced of a track's clips: the indices of the clips on the track, in
/// order.
pub open spec fn clips_of_track(owners: Seq<Seq<char>>, track_id: Seq<char>, n: nat) -> Seq<int>
    decreases n,
{
    if n == 0 {
        Seq::empty()
    } else {
        let rest = clips_of_track(owners, track_id, (n - 1) as nat);
        if owners[n - 1] == track_id {
            rest.push(n - 1)
        } else {
            rest
        }
    }
}

/// The clips on a track, by the track ids of all clips.
pub fn log_engine_sync_midi(owners: &Vec<String>, track_id: &str) -> (r: Vec<usize>)
    ensures
        r@.map_values(|i: usize| i as int) == clips_of_track(
            crate::text::texts(owners@),
            track_id@,
            owners@.len(),
        ),
{
    let mut out: Vec<usize> = Vec::new();
    let ghost ids = crate::text::texts(owners@);
    let mut i: usize = 0;
    proof {
        assert(out@.map_values(|k: usize| k as int) =~= Seq::<int>::empty());
    }
    while i < owners.len()
        invariant
            i <= owners@.len(),
            ids == crate::text::texts(owners@),
            out@.map_values(|k: usize| k as int) == clips_of_track(ids, track_id@, i as nat),
        decreases owners@.len() - i,
    {
        if crate::text::str_eq(&owners[i], track_id) {
            let ghost before = out@;
            out.push(i);
            proof {
                assert(out@.map_values(|k: usize| k as int) =~= before.map_values(
                    |k: usize| k as int,
                ).push(i as int));
            }
        }
        i = i + 1;
    }
    out
}

/// A heartbeat is due once its distance has passed, and not before.
pub proof fn law_heartbeat_comes_after_its_distance(last: u64, now: u64)
    requires
        last <= now,
    ensures
        heartbeat_due(last, now) <==> now - last >= HEARTBEAT_INTERVAL_MS,
{
}

/// A trace that is switched off writes nothing; one that is on writes its first
/// line at once and each further line once its distance has passed.
pub proof fn law_input_trace_keeps_its_distance(last: u64, now: u64)
    requires
        last <= now,
    ensures
        !input_trace_due(false, None, now),
        !input_trace_due(false, Some(last), now),
        input_trace_due(true, None, now),
        input_trace_due(true, Some(last), now) <==> now - last >= INPUT_TRACE_INTERVAL_MS,
{
}

/// A track's clips are exactly those that it owns, in their order.
pub proof fn law_tracks_clips_are_those_it_owns(
    owners: Seq<Seq<char>>,
    track_id: Seq<char>,
    n: nat,
)
    requires
        n <= owners.len(),
    ensures
        forall|k: int|
            0 <= k < clips_of_track(owners, track_id, n).len() ==> 0 <= (#[trigger] clips_of_track(
                owners,
                track_id,
                n,
            )[k]) < n && owners[clips_of_track(owners, track_id, n)[k]] == track_id,
        forall|c: int|
            0 <= c < n && (#[trigger] owners[c]) == track_id ==> clips_of_track(
                owners,
                track_id,
                n,
            ).contains(c),
        forall|j: int, k: int|
            0 <= j < k < clips_of_track(owners, track_id, n).len() ==> (#[trigger] clips_of_track(
                owners,
                track_id,
                n,
            )[j]) < (#[trigger] clips_of_track(owners, track_id, n)[k]),
    decreases n,
{
    if n > 0 {
        let m = (n - 1) as nat;
        law_tracks_clips_are_those_it_owns(owners, track_id, m);
        let rest = clips_of_track(owners, track_id, m);
        let all = clips_of_track(owners, track_id, n);
        assert forall|c: int|
            0 <= c < n && (#[trigger] owners[c]) == track_id implies all.contains(c) by {
            if c < m {
                let k = choose|k: int| 0 <= k < rest.len() && rest[k] == c;
                assert(all[k] == c);
            } else {
                assert(all[all.len() - 1] == c);
            }
        }
    }
}

} // verus!
