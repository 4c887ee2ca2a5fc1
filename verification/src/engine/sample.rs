//! Planning a single timeline sample.

use vstd::prelude::*;

use crate::engine::plan_laws;
use crate::engine::render;
use crate::runtime;
use crate::runtime::RuntimeClip;
use crate::runtime::RuntimeProject;
use crate::runtime::RuntimeTrack;

verus! {

/// One step of rendering a single sample.
#[derive(Clone, Copy, Debug, PartialEq, Eq, Structural)]
pub enum SampleStep {
    /// Read a clip at `rel`, run its track's chain on it, and add it to the
    /// output, through the chain of `output` where there is one. A silent read
    /// skips the sends that follow.
    Voice { clip: usize, track: usize, rel: u64, output: Option<usize> },
    /// Run the last voice, scaled by a send's level, through the target's chain
    /// and add it to the output.
    Send { source: usize, send: usize, target: usize },
    /// Run the master's inserts on the output.
    Master { track: usize },
    /// Apply the master volume and the limiter.
    Limit,
}

/// Whether a track is heard: not muted, and soloed while anything is.
pub open spec fn heard(track: RuntimeTrack, has_solo: bool) -> bool {
    !render::muted_now(track) && (!has_solo || track.solo)
}

/// The place of the first track of the master type, counted from `i`.
pub open spec fn master_from(tracks: Seq<RuntimeTrack>, i: int) -> Option<usize>
    decreases tracks.len() - i,
{
    if i >= tracks.len() {
        None
    } else if runtime::master_type(tracks[i].track_type@) {
        Some(i as usize)
    } else {
        master_from(tracks, i + 1)
    }
}

/// The track that clip `c` sounds on at a timeline sample, if it does.
pub open spec fn voice_track(p: RuntimeProject, c: int, sample: int) -> Option<usize> {
    let clip = p.clips@[c];
    match clip.track_index {
        Some(t) => if !clip.muted && clip.start_sample <= sample < clip.start_sample
            + clip.duration_samples && t < p.tracks@.len() && master_from(p.tracks@, 0) != Some(t)
            && heard(p.tracks@[t as int], p.has_solo) {
            Some(t)
        } else {
            None
        },
        None => None,
    }
}

/// The track that track `t`'s output goes through, if it names one.
pub open spec fn voice_output(p: RuntimeProject, t: int) -> Option<usize> {
    match p.tracks@[t].output_track_index {
        Some(o) => if o < p.tracks@.len() {
            Some(o)
        } else {
            None
        },
        None => None,
    }
}

/// The target of send `s` of track `t`, if it sounds.
pub open spec fn voice_send(p: RuntimeProject, t: int, s: int) -> Option<usize> {
    let send = p.tracks@[t].sends@[s];
    match send.return_track_index {
        Some(r) => if send.enabled && !render::is_nonpositive_bits(send.level_bits) && r
            < p.tracks@.len() && heard(p.tracks@[r as int], p.has_solo) {
            Some(r)
        } else {
            None
        },
        None => None,
    }
}

/// The steps of the first `n` sends of track `t`.
pub open spec fn voice_sends(p: RuntimeProject, t: int, n: nat) -> Seq<SampleStep>
    decreases n,
{
    if n == 0 {
        Seq::empty()
    } else {
        let rest = voice_sends(p, t, (n - 1) as nat);
        match voice_send(p, t, n - 1) {
            Some(target) => rest.push(
                SampleStep::Send { source: t as usize, send: (n - 1) as usize, target },
            ),
            None => rest,
        }
    }
}

/// The steps of the first `n` clips at a timeline sample.
pub open spec fn voices(p: RuntimeProject, sample: int, n: nat) -> Seq<SampleStep>
    decreases n,
{
    if n == 0 {
        Seq::empty()
    } else {
        let rest = voices(p, sample, (n - 1) as nat);
        match voice_track(p, n - 1, sample) {
            Some(t) => rest.push(
                SampleStep::Voice {
                    clip: (n - 1) as usize,
                    track: t,
                    rel: (sample - p.clips@[n - 1].start_sample) as u64,
                    output: voice_output(p, t as int),
                },
            ) + voice_sends(p, t as int, p.tracks@[t as int].sends@.len()),
            None => rest,
        }
    }
}

/// The steps that render one timeline sample.
pub open spec fn sample_steps(p: RuntimeProject, sample: int) -> Seq<SampleStep> {
    voices(p, sample, p.clips@.len()) + (match master_from(p.tracks@, 0) {
        Some(m) => if heard(p.tracks@[m as int], p.has_solo) {
            seq![SampleStep::Master { track: m }]
        } else {
            Seq::empty()
        },
        None => Seq::empty(),
    }) + seq![SampleStep::Limit]
}

fn is_heard(track: &RuntimeTrack, has_solo: bool) -> (r: bool)
    ensures
        r == heard(*track, has_solo),
{
    !render::effective_track_muted(track) && (!has_solo || track.solo)
}

fn find_master(tracks: &Vec<RuntimeTrack>) -> (r: Option<usize>)
    ensures
        r == master_from(tracks@, 0),
        r matches Some(m) ==> m < tracks@.len(),
{
    let mut i: usize = 0;
    while i < tracks.len()
        invariant
            i <= tracks@.len(),
            master_from(tracks@, 0) == master_from(tracks@, i as int),
        decreases tracks@.len() - i,
    {
        if runtime::is_master_track_type(tracks[i].track_type.as_str()) {
            return Some(i);
        }
        i = i + 1;
    }
    None
}

/// Plan one timeline sample: every clip that sounds there, through its track,
/// output and sends, then the master.
pub fn render_project_sample(p: &RuntimeProject, project_sample: u64) -> (steps: Vec<SampleStep>)
    ensures
        steps@ == sample_steps(*p, project_sample as int),
{
    let mut steps: Vec<SampleStep> = Vec::new();
    let master: Option<usize> = find_master(&p.tracks);
    let mut c: usize = 0;
    while c < p.clips.len()
        invariant
            c <= p.clips@.len(),
            master == master_from(p.tracks@, 0),
            steps@ == voices(*p, project_sample as int, c as nat),
        decreases p.clips@.len() - c,
    {
        let clip: &RuntimeClip = &p.clips[c];
        let mut track: Option<usize> = None;
        if !clip.muted && clip.start_sample <= project_sample && project_sample - clip.start_sample
            < clip.duration_samples {
            if let Some(t) = clip.track_index {
                let is_master: bool = match master {
                    Some(m) => m == t,
                    None => false,
                };
                if t < p.tracks.len() && !is_master && is_heard(&p.tracks[t], p.has_solo) {
                    track = Some(t);
                }
            }
        }
        if let Some(t) = track {
            let output: Option<usize> = match p.tracks[t].output_track_index {
                Some(o) => if o < p.tracks.len() {
                    Some(o)
                } else {
                    None
                },
                None => None,
            };
            steps.push(
                SampleStep::Voice {
                    clip: c,
                    track: t,
                    rel: project_sample - clip.start_sample,
                    output,
                },
            );
            let ghost before = steps@;
            let count: usize = p.tracks[t].sends.len();
            let mut s: usize = 0;
            proof {
                assert(before + Seq::<SampleStep>::empty() =~= before);
            }
            while s < count
                invariant
                    s <= count,
                    t < p.tracks@.len(),
                    count == p.tracks@[t as int].sends@.len(),
                    steps@ == before + voice_sends(*p, t as int, s as nat),
                decreases count - s,
            {
                let send = &p.tracks[t].sends[s];
                let ghost rest = voice_sends(*p, t as int, s as nat);
                if send.enabled && !render::nonpositive_bits(send.level_bits) {
                    if let Some(target) = send.return_track_index {
                        if target < p.tracks.len() && is_heard(&p.tracks[target], p.has_solo) {
                            steps.push(SampleStep::Send { source: t, send: s, target });
                            proof {
                                let step = SampleStep::Send { source: t, send: s, target };
                                assert((before + rest).push(step) =~= before + rest.push(step));
                            }
                        }
                    }
                }
                s = s + 1;
            }
        }
        c = c + 1;
    }
    let ghost sounding = steps@;
    if let Some(m) = master {
        if is_heard(&p.tracks[m], p.has_solo) {
            steps.push(SampleStep::Master { track: m });
        }
    }
    steps.push(SampleStep::Limit);
    proof {
        assert(steps@ =~= sample_steps(*p, project_sample as int));
    }
    steps
}

// ── Laws ────────────────────────────────────────────────────────────────────

/// A step reads clip `c`.
pub open spec fn voices_clip(step: SampleStep, c: int) -> bool {
    step matches SampleStep::Voice { clip, track, rel, output } && clip == c
}

/// Track `t` is heard at a single sample: it is not switched off, and it is
/// soloed where anything is.
pub open spec fn plays(p: RuntimeProject, t: int) -> bool {
    !plan_laws::switched_off(p.tracks@[t]) && (!p.has_solo || p.tracks@[t].solo)
}

/// Track `m` is the first one of the master type.
pub open spec fn first_master(tracks: Seq<RuntimeTrack>, m: int) -> bool {
    &&& 0 <= m < tracks.len()
    &&& tracks[m].track_type@ == "master"@
    &&& forall|j: int| 0 <= j < m ==> #[trigger] tracks[j].track_type@ != "master"@
}

proof fn lemma_master(tracks: Seq<RuntimeTrack>, i: int)
    requires
        0 <= i <= tracks.len() <= usize::MAX,
    ensures
        master_from(tracks, i) matches Some(m) ==> i <= m < tracks.len()
            && tracks[m as int].track_type@ == "master"@ && forall|j: int|
            i <= j < m ==> #[trigger] tracks[j].track_type@ != "master"@,
        master_from(tracks, i) is None ==> forall|j: int|
            i <= j < tracks.len() ==> #[trigger] tracks[j].track_type@ != "master"@,
    decreases tracks.len() - i,
{
    if i < tracks.len() {
        lemma_master(tracks, i + 1);
    }
}

proof fn lemma_sample_sends(p: RuntimeProject, t: int, n: nat)
    requires
        0 <= t < p.tracks@.len() <= usize::MAX,
        n <= p.tracks@[t].sends@.len() <= usize::MAX,
    ensures
        ({
            let list = voice_sends(p, t, n);
            &&& forall|k: int|
                #![trigger list[k]]
                0 <= k < list.len() ==> (list[k] matches SampleStep::Send { source, send, target }
                    && source == t && send < n && voice_send(p, t, send as int) == Some(target))
            &&& forall|s: int|
                #![trigger p.tracks@[t].sends@[s]]
                0 <= s < n ==> (voice_send(p, t, s) matches Some(target) ==> list.contains(
                    SampleStep::Send { source: t as usize, send: s as usize, target },
                ))
        }),
    decreases n,
{
    if n > 0 {
        lemma_sample_sends(p, t, (n - 1) as nat);
        let rest = voice_sends(p, t, (n - 1) as nat);
        let list = voice_sends(p, t, n);
        assert forall|s: int| #![trigger p.tracks@[t].sends@[s]] 0 <= s < n implies (voice_send(
            p,
            t,
            s,
        ) matches Some(target) ==> list.contains(
            SampleStep::Send { source: t as usize, send: s as usize, target },
        )) by {
            if let Some(target) = voice_send(p, t, s) {
                let step = SampleStep::Send { source: t as usize, send: s as usize, target };
                if s < n - 1 {
                    assert(rest.contains(step));
                    let k = choose|k: int| 0 <= k < rest.len() && rest[k] == step;
                    assert(list[k] == step);
                } else {
                    assert(list[list.len() - 1] == step);
                }
            }
        }
    }
}

proof fn lemma_voices(p: RuntimeProject, sample: int, n: nat, c: int)
    requires
        0 <= sample <= u64::MAX,
        p.tracks@.len() <= usize::MAX,
        n <= p.clips@.len() <= usize::MAX,
        0 <= c < p.clips@.len(),
        forall|t: int|
            #![trigger p.tracks@[t]]
            0 <= t < p.tracks@.len() ==> p.tracks@[t].sends@.len() <= usize::MAX,
    ensures
        ({
            let list = voices(p, sample, n);
            &&& forall|k: int|
                #![trigger list[k]]
                0 <= k < list.len() ==> match list[k] {
                    SampleStep::Voice { clip, track, rel, output } => clip < n && voice_track(
                        p,
                        clip as int,
                        sample,
                    ) == Some(track) && rel == sample - p.clips@[clip as int].start_sample
                        && output == voice_output(p, track as int),
                    SampleStep::Send { source, send, target } => source < p.tracks@.len() && send
                        < p.tracks@[source as int].sends@.len() && voice_send(
                        p,
                        source as int,
                        send as int,
                    ) == Some(target) && exists|j: int|
                        0 <= j < k && (#[trigger] list[j] matches SampleStep::Voice {
                            clip,
                            track,
                            rel,
                            output,
                        } && track == source),
                    _ => false,
                }
            &&& c < n && voice_track(p, c, sample) is Some ==> exists|k: int|
                0 <= k < list.len() && voices_clip(#[trigger] list[k], c)
            &&& forall|j: int, k: int|
                #![trigger list[j], list[k]]
                0 <= j < list.len() && 0 <= k < list.len() && voices_clip(list[j], c)
                    && voices_clip(list[k], c) ==> j == k
            &&& forall|t: int, s: int|
                c < n && 0 <= t < p.tracks@.len() && voice_track(p, c, sample) == Some(t as usize)
                    && 0 <= s < p.tracks@[t].sends@.len() ==> (#[trigger] voice_send(
                    p,
                    t,
                    s,
                ) matches Some(target) ==> list.contains(
                    SampleStep::Send { source: t as usize, send: s as usize, target },
                ))
        }),
    decreases n,
{
    if n > 0 {
        lemma_voices(p, sample, (n - 1) as nat, c);
        let rest = voices(p, sample, (n - 1) as nat);
        let list = voices(p, sample, n);
        if let Some(t) = voice_track(p, n - 1, sample) {
            let voice = SampleStep::Voice {
                clip: (n - 1) as usize,
                track: t,
                rel: (sample - p.clips@[n - 1].start_sample) as u64,
                output: voice_output(p, t as int),
            };
            let count = p.tracks@[t as int].sends@.len();
            let sends = voice_sends(p, t as int, count);
            lemma_sample_sends(p, t as int, count);
            assert(list == rest.push(voice) + sends);
            assert(list[rest.len() as int] == voice);
            assert forall|k: int| #![trigger list[k]] 0 <= k < list.len() implies match list[k] {
                SampleStep::Voice { clip, track, rel, output } => clip < n && voice_track(
                    p,
                    clip as int,
                    sample,
                ) == Some(track) && rel == sample - p.clips@[clip as int].start_sample && output
                    == voice_output(p, track as int),
                SampleStep::Send { source, send, target } => source < p.tracks@.len() && send
                    < p.tracks@[source as int].sends@.len() && voice_send(
                    p,
                    source as int,
                    send as int,
                ) == Some(target) && exists|j: int|
                    0 <= j < k && (#[trigger] list[j] matches SampleStep::Voice {
                        clip,
                        track,
                        rel,
                        output,
                    } && track == source),
                _ => false,
            } by {
                if k < rest.len() {
                    assert(list[k] == rest[k]);
                    if let SampleStep::Send { source, send, target } = rest[k] {
                        let j = choose|j: int|
                            0 <= j < k && (#[trigger] rest[j] matches SampleStep::Voice {
                                clip,
                                track,
                                rel,
                                output,
                            } && track == source);
                        assert(list[j] == rest[j]);
                    }
                } else if k > rest.len() {
                    assert(list[k] == sends[k - rest.len() - 1]);
                    assert(list[rest.len() as int] is Voice);
                }
            }
            if c < n && voice_track(p, c, sample) is Some {
                if c < n - 1 {
                    let k = choose|k: int| 0 <= k < rest.len() && voices_clip(#[trigger] rest[k], c);
                    assert(list[k] == rest[k]);
                } else {
                    assert(voices_clip(list[rest.len() as int], c));
                }
            }
            assert forall|j: int, k: int|
                #![trigger list[j], list[k]]
                0 <= j < list.len() && 0 <= k < list.len() && voices_clip(list[j], c)
                    && voices_clip(list[k], c) implies j == k by {
                assert(j > rest.len() ==> list[j] == sends[j - rest.len() - 1]);
                assert(k > rest.len() ==> list[k] == sends[k - rest.len() - 1]);
                assert(j < rest.len() ==> list[j] == rest[j]);
                assert(k < rest.len() ==> list[k] == rest[k]);
            }
            assert forall|u: int, s: int|
                c < n && 0 <= u < p.tracks@.len() && voice_track(p, c, sample) == Some(u as usize)
                    && 0 <= s < p.tracks@[u].sends@.len() implies (#[trigger] voice_send(
                p,
                u,
                s,
            ) matches Some(target) ==> list.contains(
                SampleStep::Send { source: u as usize, send: s as usize, target },
            )) by {
                if let Some(target) = voice_send(p, u, s) {
                    let step = SampleStep::Send { source: u as usize, send: s as usize, target };
                    if c < n - 1 {
                        assert(rest.contains(step));
                        let k = choose|k: int| 0 <= k < rest.len() && rest[k] == step;
                        assert(list[k] == step);
                    } else {
                        assert(p.tracks@[t as int].sends@[s] == p.tracks@[t as int].sends@[s]);
                        assert(sends.contains(step));
                        let k = choose|k: int| 0 <= k < sends.len() && sends[k] == step;
                        assert(list[rest.len() + 1 + k] == step);
                    }
                }
            }
        } else {
            assert(list == rest);
            assert forall|k: int| #![trigger list[k]] 0 <= k < list.len() implies match list[k] {
                SampleStep::Voice { clip, track, rel, output } => clip < n && voice_track(
                    p,
                    clip as int,
                    sample,
                ) == Some(track) && rel == sample - p.clips@[clip as int].start_sample && output
                    == voice_output(p, track as int),
                SampleStep::Send { source, send, target } => source < p.tracks@.len() && send
                    < p.tracks@[source as int].sends@.len() && voice_send(
                    p,
                    source as int,
                    send as int,
                ) == Some(target) && exists|j: int|
                    0 <= j < k && (#[trigger] list[j] matches SampleStep::Voice {
                        clip,
                        track,
                        rel,
                        output,
                    } && track == source),
                _ => false,
            } by {
                assert(rest[k] == list[k]);
            }
        }
    }
}

/// At one timeline sample a clip sounds exactly when the sample lies in it, it
/// is not muted, and it stands on a track that is heard and is not the master:
/// it is read once, at its own place, and goes through the track that its
/// track's output names.
#[verifier::rlimit(40)]
pub proof fn law_clip_sounds_at_the_samples_it_covers(p: RuntimeProject, sample: int, c: int)
    requires
        0 <= sample <= u64::MAX,
        p.tracks@.len() <= usize::MAX,
        0 <= c < p.clips@.len() <= usize::MAX,
        forall|t: int|
            #![trigger p.tracks@[t]]
            0 <= t < p.tracks@.len() ==> p.tracks@[t].sends@.len() <= usize::MAX,
    ensures
        ({
            let steps = sample_steps(p, sample);
            let clip = p.clips@[c];
            let sounds = !clip.muted && clip.start_sample <= sample < clip.start_sample
                + clip.duration_samples && (clip.track_index matches Some(t) && t
                < p.tracks@.len() && !first_master(p.tracks@, t as int) && plays(p, t as int));
            &&& sounds ==> exists|k: int|
                0 <= k < steps.len() && (#[trigger] steps[k] matches SampleStep::Voice {
                    clip: cc,
                    track,
                    rel,
                    output,
                } && cc == c && Some(track) == clip.track_index && rel == sample
                    - clip.start_sample && (p.tracks@[track as int].output_track_index matches Some(
                    o,
                ) ==> (o < p.tracks@.len() ==> output == Some(o))) && (
                p.tracks@[track as int].output_track_index is None ==> output is None))
            &&& forall|k: int|
                #![trigger steps[k]]
                0 <= k < steps.len() && voices_clip(steps[k], c) ==> sounds
            &&& forall|j: int, k: int|
                #![trigger steps[j], steps[k]]
                0 <= j < steps.len() && 0 <= k < steps.len() && voices_clip(steps[j], c)
                    && voices_clip(steps[k], c) ==> j == k
        }),
{
    let steps = sample_steps(p, sample);
    let list = voices(p, sample, p.clips@.len());
    lemma_voices(p, sample, p.clips@.len(), c);
    lemma_master(p.tracks@, 0);
    assert forall|k: int| #![trigger steps[k]] 0 <= k < steps.len() && voices_clip(
        steps[k],
        c,
    ) implies k < list.len() && steps[k] == list[k] by {}
    if voice_track(p, c, sample) is Some {
        let k = choose|k: int| 0 <= k < list.len() && voices_clip(#[trigger] list[k], c);
        assert(steps[k] == list[k]);
    }
}

/// A voice's sends are taken exactly as they are set: one that is switched on,
/// has a level above zero and names a track that is heard.
#[verifier::rlimit(40)]
pub proof fn law_sample_sends_are_taken_as_they_are_set(
    p: RuntimeProject,
    sample: int,
    c: int,
    s: int,
    k: int,
)
    requires
        0 <= sample <= u64::MAX,
        p.tracks@.len() <= usize::MAX,
        0 <= c < p.clips@.len() <= usize::MAX,
        forall|t: int|
            #![trigger p.tracks@[t]]
            0 <= t < p.tracks@.len() ==> p.tracks@[t].sends@.len() <= usize::MAX,
    ensures
        ({
            let steps = sample_steps(p, sample);
            let t = p.clips@[c].track_index->0;
            let send = p.tracks@[t as int].sends@[s];
            &&& voice_track(p, c, sample) is Some && 0 <= s < p.tracks@[t as int].sends@.len()
                && send.enabled && 0 < send.level_bits <= 0x7f80_0000 && (
            send.return_track_index matches Some(r) && r < p.tracks@.len() && plays(p, r as int))
                ==> steps.contains(
                SampleStep::Send {
                    source: t,
                    send: s as usize,
                    target: send.return_track_index->0,
                },
            )
            &&& 0 <= k < steps.len() ==> (steps[k] matches SampleStep::Send {
                source,
                send: at,
                target,
            } ==> {
                let taken = p.tracks@[source as int].sends@[at as int];
                &&& source < p.tracks@.len() && at < p.tracks@[source as int].sends@.len()
                &&& taken.enabled
                &&& taken.level_bits != 0 && !(0x8000_0000 <= taken.level_bits <= 0xff80_0000)
                &&& taken.return_track_index == Some(target)
                &&& target < p.tracks@.len() && plays(p, target as int)
            })
        }),
{
    let steps = sample_steps(p, sample);
    let list = voices(p, sample, p.clips@.len());
    lemma_voices(p, sample, p.clips@.len(), c);
    if voice_track(p, c, sample) is Some {
        let t = p.clips@[c].track_index->0;
        if 0 <= s < p.tracks@[t as int].sends@.len() {
            if let Some(target) = voice_send(p, t as int, s) {
                let step = SampleStep::Send { source: t, send: s as usize, target };
                assert(list.contains(step));
                let j = choose|j: int| 0 <= j < list.len() && list[j] == step;
                assert(steps[j] == step);
            }
        }
    }
    if 0 <= k < steps.len() && steps[k] is Send {
        assert(k < list.len() && steps[k] == list[k]);
    }
}

/// A sample ends with the limiter, and right before it the master's inserts run
/// on the sum, exactly where the first track of the master type is heard.
pub proof fn law_sample_ends_with_master_and_limiter(
    p: RuntimeProject,
    sample: int,
    m: int,
    k: int,
)
    requires
        p.tracks@.len() <= usize::MAX,
        p.clips@.len() <= usize::MAX,
        0 <= sample <= u64::MAX,
        forall|t: int|
            #![trigger p.tracks@[t]]
            0 <= t < p.tracks@.len() ==> p.tracks@[t].sends@.len() <= usize::MAX,
    ensures
        ({
            let steps = sample_steps(p, sample);
            let end = steps.len() - 1;
            &&& end >= 0 && steps[end] == SampleStep::Limit
            &&& first_master(p.tracks@, m) && plays(p, m) ==> end >= 1 && steps[end - 1] == (
            SampleStep::Master { track: m as usize })
            &&& 0 <= k <= end ==> (steps[k] matches SampleStep::Master { track } ==> k == end - 1
                && first_master(p.tracks@, track as int) && plays(p, track as int))
            &&& 0 <= k < end ==> !(steps[k] is Limit)
        }),
{
    lemma_master(p.tracks@, 0);
    if first_master(p.tracks@, m) {
        if let Some(found) = master_from(p.tracks@, 0) {
            if found < m {
                assert(p.tracks@[found as int].track_type@ == "master"@);
            }
        } else {
            assert(p.tracks@[m].track_type@ == "master"@);
        }
    }
    let steps = sample_steps(p, sample);
    let list = voices(p, sample, p.clips@.len());
    if p.clips@.len() > 0 {
        lemma_voices(p, sample, p.clips@.len(), 0);
    }
    if 0 <= k < list.len() {
        assert(list[k] == steps[k]);
    }
}

} // verus!
