//! What live input and the device do, in terms of the tracks and the settings.

use vstd::prelude::*;

use crate::engine::device::BackendKind;
use crate::engine::inner::EngineInner;
use crate::engine::input;
use crate::engine::input::AsioSessionCaps;
use crate::engine::input::TrackInputSource;
use crate::engine::input::TrackSnapshot;
use crate::engine::live;
use crate::engine::live::InputAction;
use crate::engine::state;
use crate::engine::state::DropoutProtectionMode;
use crate::engine::state::SharedState;
use crate::engine::stream;
use crate::engine::stream::OpenedStream;
use crate::engine::stream::StartTarget;
use crate::error::SphereAudioError;
use crate::text;

verus! {

// ── Tracks ──────────────────────────────────────────────────────────────────

/// A track whose hardware input is to be heard: an audio track with a route that
/// monitors it.
pub open spec fn hears_input(t: TrackSnapshot) -> bool {
    t.track_type@ == "audio"@ && t.input_source.channels@.len() > 0 && t.input_monitor
}

/// A track whose hardware input is needed: an audio track with a route that is
/// armed or monitors it.
pub open spec fn needs_input(t: TrackSnapshot) -> bool {
    t.track_type@ == "audio"@ && t.input_source.channels@.len() > 0 && (t.armed
        || t.input_monitor)
}

/// Two routes take the same channels of the same device.
pub open spec fn same_route(a: TrackInputSource, b: TrackInputSource) -> bool {
    &&& a.channels@ == b.channels@
    &&& match (a.device_id, b.device_id) {
        (Some(x), Some(y)) => x@ == y@,
        (None, None) => true,
        _ => false,
    }
}

/// Some two tracks hear different inputs.
pub open spec fn routes_conflict(tracks: Seq<TrackSnapshot>) -> bool {
    exists|a: int, b: int|
        #![trigger tracks[a], tracks[b]]
        0 <= a < tracks.len() && 0 <= b < tracks.len() && hears_input(tracks[a]) && hears_input(
            tracks[b],
        ) && !same_route(tracks[a].input_source, tracks[b].input_source)
}

/// Track `k` is the first that needs its input.
pub open spec fn first_needing(tracks: Seq<TrackSnapshot>, k: int) -> bool {
    &&& 0 <= k < tracks.len()
    &&& needs_input(tracks[k])
    &&& forall|j: int| 0 <= j < k ==> !needs_input(#[trigger] tracks[j])
}

/// Track `k` is the first whose input is heard.
pub open spec fn first_hearing(tracks: Seq<TrackSnapshot>, k: int) -> bool {
    &&& 0 <= k < tracks.len()
    &&& hears_input(tracks[k])
    &&& forall|j: int| 0 <= j < k ==> !hears_input(#[trigger] tracks[j])
}

/// Some track's input is heard.
pub open spec fn some_hearing(tracks: Seq<TrackSnapshot>) -> bool {
    exists|j: int| 0 <= j < tracks.len() && hears_input(#[trigger] tracks[j])
}

proof fn lemma_same_route(a: TrackInputSource, b: TrackInputSource)
    ensures
        a.same_as(b) == same_route(a, b),
{
}

proof fn lemma_wanting(tracks: Seq<TrackSnapshot>, from: int)
    requires
        0 <= from <= tracks.len(),
    ensures
        input::first_wanting(tracks, from) matches Some(k) ==> from <= k < tracks.len()
            && needs_input(tracks[k]) && forall|j: int|
            from <= j < k ==> !needs_input(#[trigger] tracks[j]),
        input::first_wanting(tracks, from) is None ==> forall|j: int|
            from <= j < tracks.len() ==> !needs_input(#[trigger] tracks[j]),
    decreases tracks.len() - from,
{
    if from < tracks.len() {
        lemma_wanting(tracks, from + 1);
    }
}

proof fn lemma_monitored(tracks: Seq<TrackSnapshot>, from: int)
    requires
        0 <= from <= tracks.len(),
    ensures
        input::first_monitored(tracks, from) matches Some(k) ==> from <= k < tracks.len()
            && hears_input(tracks[k]) && forall|j: int|
            from <= j < k ==> !hears_input(#[trigger] tracks[j]),
        input::first_monitored(tracks, from) is None ==> forall|j: int|
            from <= j < tracks.len() ==> !hears_input(#[trigger] tracks[j]),
    decreases tracks.len() - from,
{
    if from < tracks.len() {
        lemma_monitored(tracks, from + 1);
    }
}

/// Monitoring is refused exactly where two audio tracks with routes hear
/// different inputs.
pub proof fn law_monitoring_conflicts_are_found(tracks: Seq<TrackSnapshot>)
    ensures
        input::monitor_conflict(tracks) is Some <==> routes_conflict(tracks),
{
    if let Some(pair) = input::monitor_conflict(tracks) {
        input::law_conflict_is_between_monitored_tracks(tracks);
        lemma_same_route(tracks[pair.0].input_source, tracks[pair.1].input_source);
        assert(hears_input(tracks[pair.0]) && hears_input(tracks[pair.1]));
        assert(routes_conflict(tracks));
    } else if routes_conflict(tracks) {
        let (a, b) = choose|a: int, b: int|
            #![trigger tracks[a], tracks[b]]
            0 <= a < tracks.len() && 0 <= b < tracks.len() && hears_input(tracks[a])
                && hears_input(tracks[b]) && !same_route(
                tracks[a].input_source,
                tracks[b].input_source,
            );
        input::law_monitored_tracks_share_an_input(tracks, a, b);
        lemma_same_route(tracks[a].input_source, tracks[b].input_source);
    }
}

// ── Devices and routes ──────────────────────────────────────────────────────

/// The device that a route is captured from: its own where it names one, else
/// the preferred one where there is one, else the system's default. A name of
/// white space only is no name.
pub open spec fn captured_from(
    own: Option<String>,
    preferred: Option<String>,
    device: Option<Seq<char>>,
) -> bool {
    let named = own is Some && !text::blank(own->0@);
    let wished = preferred is Some && !text::blank(preferred->0@);
    &&& named ==> device == Some(own->0@)
    &&& !named && wished ==> device == Some(preferred->0@)
    &&& !named && !wished ==> device is None
}

/// A route's own device goes before the preferred one, and that before the
/// system's default.
pub proof fn law_own_device_goes_first(own: Option<String>, preferred: Option<String>)
    ensures
        captured_from(own, preferred, input::capture_device(own, preferred)),
{
}

proof fn lemma_missing(channels: Seq<u32>, available: u32, from: int)
    requires
        0 <= from <= channels.len(),
    ensures
        input::first_missing(channels, available, from) is None <==> forall|i: int|
            from <= i < channels.len() ==> #[trigger] channels[i] < available,
    decreases channels.len() - from,
{
    if from < channels.len() {
        lemma_missing(channels, available, from + 1);
        if input::first_missing(channels, available, from) is None {
            assert forall|i: int| from <= i < channels.len() implies #[trigger] channels[i]
                < available by {
                if i > from {
                    assert(channels[i] < available);
                }
            }
        } else if channels[from] < available {
            let i = choose|i: int| from + 1 <= i < channels.len() && !(channels[i] < available);
            assert(channels[i] >= available);
        }
    }
}

/// A duplex session takes exactly the routes that it can give: those without
/// channels, and, where it has inputs, those of its own driver or of no named
/// device whose channels it all has.
pub proof fn law_session_takes_the_routes_it_has(
    track_id: Seq<char>,
    source: TrackInputSource,
    caps: AsioSessionCaps,
)
    ensures
        input::asio_refusal(track_id, source, caps) is None <==> {
            ||| source.channels@.len() == 0
            ||| {
                &&& caps.input_channels > 0
                &&& source.device_id is None || text::trimmed(source.device_id->0@).len() == 0
                    || text::trimmed(source.device_id->0@) == caps.driver@
                &&& forall|i: int|
                    0 <= i < source.channels@.len() ==> #[trigger] source.channels@[i]
                        < caps.input_channels
            }
        },
{
    lemma_missing(source.channels@, caps.input_channels, 0);
}

/// A track takes no input, one channel, or two different ones; nothing else is
/// a route.
pub proof fn law_routes_are_mono_or_stereo(track_id: Seq<char>, channels: Seq<u32>)
    ensures
        input::route_refusal(track_id, channels) is None <==> channels.len() == 0
            || channels.len() == 1 || (channels.len() == 2 && channels[0] != channels[1]),
{
}

/// A route of one channel is heard on both sides, and one of two on its own
/// sides; without channels there is nothing to hear.
pub proof fn law_route_feeds_its_sides(channels: Seq<u32>)
    ensures
        channels.len() == 0 <==> state::route_pair(channels) is None,
        state::route_pair(channels) matches Some(pair) ==> pair.0 == channels[0] && pair.1 == (
        if channels.len() == 1 {
            channels[0]
        } else {
            channels[1]
        }),
{
}

// ── Bringing input in step ──────────────────────────────────────────────────

/// The channels that the monitor path takes, as a shared state holds them.
pub open spec fn takes_channels(s: SharedState, source: TrackInputSource) -> bool {
    let left = source.channels@[0];
    let right = if source.channels@.len() == 1 {
        source.channels@[0]
    } else {
        source.channels@[1]
    };
    s.monitor_src_pair as int % 0x1_0000_0000 == left && s.monitor_src_pair as int / 0x1_0000_0000
        == right
}

/// With a capture stream of its own, input follows the first track that needs
/// it: a stream that already captures that track's device is kept and takes the
/// track's channels, and otherwise one is asked for on that device. It is heard
/// exactly where some track monitors its input.
pub proof fn law_capture_follows_the_first_track_that_needs_it(
    before: EngineInner,
    after: EngineInner,
    tracks: Seq<TrackSnapshot>,
    preferred: Option<String>,
    r: Result<InputAction, SphereAudioError>,
    k: int,
    device: Option<Seq<char>>,
)
    requires
        live::input_synced(before, after, tracks, preferred, r),
        before.daux_config.backend != BackendKind::Asio,
        !routes_conflict(tracks),
        first_needing(tracks, k),
        captured_from(tracks[k].input_source.device_id, preferred, device),
    ensures
        ({
            let kept = before.live_input is Some && match before.live_input->0.device_id {
                Some(d) => device == Some(d@),
                None => device is None,
            };
            &&& kept ==> {
                &&& r matches Ok(InputAction::Routed { play })
                &&& after.live_input == before.live_input
                &&& takes_channels(after.shared, tracks[k].input_source)
                &&& after.shared.monitor_enabled_any == some_hearing(tracks)
                &&& after.shared.live_input_active
                &&& !after.shared.monitor_shared_clock
            }
            &&& !kept ==> {
                &&& r matches Ok(InputAction::Open { device: d, monitor_any }) && (match d {
                    Some(name) => device == Some(name@),
                    None => device is None,
                }) && monitor_any == some_hearing(tracks)
                &&& after.live_input is None
                &&& takes_channels(after.shared, tracks[k].input_source)
                &&& !after.shared.live_input_active
            }
        }),
{
    law_monitoring_conflicts_are_found(tracks);
    lemma_wanting(tracks, 0);
    lemma_monitored(tracks, 0);
    let w = input::first_wanting(tracks, 0)->0;
    assert(w == k) by {
        if input::first_wanting(tracks, 0) is None {
            assert(!needs_input(tracks[k]));
        } else if w < k {
            assert(!needs_input(tracks[w]));
        } else if k < w {
            assert(!needs_input(tracks[k]));
        }
    }
    assert(some_hearing(tracks) == (input::first_monitored(tracks, 0) is Some)) by {
        if let Some(m) = input::first_monitored(tracks, 0) {
            assert(hears_input(tracks[m]));
        }
    }
    assert(tracks[k].input_source.channels@.len() > 0);
}

/// A duplex session that can give every route feeds the monitor path with the
/// channels of the first track that is heard, or else of the first that is
/// armed, in the session's own clock. Where it cannot give one, that is said
/// and nothing is captured.
pub proof fn law_session_follows_the_first_track_that_is_heard(
    before: EngineInner,
    after: EngineInner,
    tracks: Seq<TrackSnapshot>,
    preferred: Option<String>,
    r: Result<InputAction, SphereAudioError>,
    caps: AsioSessionCaps,
    k: int,
)
    requires
        live::input_synced(before, after, tracks, preferred, r),
        before.daux_config.backend == BackendKind::Asio,
        before.asio_caps == Some(caps),
        !routes_conflict(tracks),
    ensures
        ({
            let given = forall|i: int|
                #![trigger tracks[i]]
                0 <= i < tracks.len() && needs_input(tracks[i]) ==> input::asio_refusal(
                    tracks[i].id@,
                    tracks[i].input_source,
                    caps,
                ) is None;
            &&& given && (first_hearing(tracks, k) || (!some_hearing(tracks) && first_needing(
                tracks,
                k,
            ))) ==> {
                &&& r matches Ok(InputAction::Routed { play })
                &&& takes_channels(after.shared, tracks[k].input_source)
                &&& after.shared.monitor_enabled_any == some_hearing(tracks)
                &&& after.shared.live_input_active
                &&& after.shared.monitor_shared_clock
                &&& after.shared.input_ring@.active
                &&& after.shared.input_ring@.channels == caps.input_channels
                &&& after.shared.input_ring@.sample_rate == caps.sample_rate
            }
            &&& !given ==> r is Err && after.live_input is None && !after.shared.live_input_active
                && !after.shared.input_ring@.active
        }),
{
    law_monitoring_conflicts_are_found(tracks);
    lemma_wanting(tracks, 0);
    lemma_monitored(tracks, 0);
    lemma_refused(tracks, caps, 0);
    assert(some_hearing(tracks) == (input::first_monitored(tracks, 0) is Some)) by {
        if let Some(m) = input::first_monitored(tracks, 0) {
            assert(hears_input(tracks[m]));
        }
    }
    if first_hearing(tracks, k) {
        let m = input::first_monitored(tracks, 0)->0;
        assert(m == k) by {
            assert(hears_input(tracks[k]));
            if m < k {
                assert(!hears_input(tracks[m]));
            } else if k < m {
                assert(!hears_input(tracks[k]));
            }
        }
    } else if !some_hearing(tracks) && first_needing(tracks, k) {
        let w = input::first_wanting(tracks, 0)->0;
        assert(w == k) by {
            assert(needs_input(tracks[k]));
            if w < k {
                assert(!needs_input(tracks[w]));
            } else if k < w {
                assert(!needs_input(tracks[k]));
            }
        }
    }
}

proof fn lemma_refused(tracks: Seq<TrackSnapshot>, caps: AsioSessionCaps, from: int)
    requires
        0 <= from <= tracks.len(),
    ensures
        live::first_refused(tracks, caps, from) is None <==> forall|i: int|
            #![trigger tracks[i]]
            from <= i < tracks.len() && needs_input(tracks[i]) ==> input::asio_refusal(
                tracks[i].id@,
                tracks[i].input_source,
                caps,
            ) is None,
    decreases tracks.len() - from,
{
    if from < tracks.len() {
        lemma_refused(tracks, caps, from + 1);
        if live::first_refused(tracks, caps, from) is None {
            assert forall|i: int|
                #![trigger tracks[i]]
                from <= i < tracks.len() && needs_input(tracks[i]) implies input::asio_refusal(
                tracks[i].id@,
                tracks[i].input_source,
                caps,
            ) is None by {
                if i > from {
                    assert(tracks[i] == tracks[i]);
                }
            }
        } else if !(needs_input(tracks[from]) && input::asio_refusal(
            tracks[from].id@,
            tracks[from].input_source,
            caps,
        ) is Some) {
            let i = choose|i: int|
                #![trigger tracks[i]]
                from + 1 <= i < tracks.len() && needs_input(tracks[i]) && input::asio_refusal(
                    tracks[i].id@,
                    tracks[i].input_source,
                    caps,
                ) is Some;
            assert(needs_input(tracks[i]));
        }
    }
}

/// A duplex session that is not open yet captures nothing.
pub proof fn law_session_that_is_not_open_captures_nothing(
    before: EngineInner,
    after: EngineInner,
    tracks: Seq<TrackSnapshot>,
    preferred: Option<String>,
    r: Result<InputAction, SphereAudioError>,
)
    requires
        live::input_synced(before, after, tracks, preferred, r),
        before.daux_config.backend == BackendKind::Asio,
        before.asio_caps is None,
        !routes_conflict(tracks),
    ensures
        r == Ok::<_, SphereAudioError>(InputAction::Stopped),
        after.live_input is None,
        !after.shared.live_input_active,
        !after.shared.input_ring@.active,
{
    law_monitoring_conflicts_are_found(tracks);
}

// ── The capture callback ────────────────────────────────────────────────────

/// A captured sample is kept between minus one and one: what is in between
/// stays as it is, and what is beyond becomes the nearer bound.
pub proof fn law_captured_samples_are_clamped(bits: u32)
    ensures
        bits <= 0x3f80_0000 ==> input::clamped(bits) == bits,
        0x3f80_0000 < bits <= 0x7f80_0000 ==> input::clamped(bits) == 0x3f80_0000,
        0x8000_0000 <= bits <= 0xbf80_0000 ==> input::clamped(bits) == bits,
        0xbf80_0000 < bits <= 0xff80_0000 ==> input::clamped(bits) == 0xbf80_0000,
        input::clamped(input::clamped(bits)) == input::clamped(bits),
{
}

/// Of every captured frame the chosen channels are heard, left and right, where
/// the device has them; a right channel that it does not have is the left one,
/// and a left one that it does not have is the frame's first.
pub proof fn law_monitored_pair_is_the_chosen_channels(
    data: Seq<u32>,
    channels: int,
    f: int,
    pair: (int, int),
)
    requires
        channels > 0,
        0 <= f,
        (f + 1) * channels <= data.len(),
        0 <= pair.0 <= u32::MAX,
        0 <= pair.1 <= u32::MAX,
    ensures
        ({
            let heard = input::monitored_frame(data, channels, f, pair);
            &&& pair.0 < channels ==> heard.0 == input::clamped(data[f * channels + pair.0])
            &&& pair.0 >= channels ==> heard.0 == input::clamped(data[f * channels])
            &&& pair.1 < channels ==> heard.1 == input::clamped(data[f * channels + pair.1])
            &&& pair.1 >= channels ==> heard.1 == heard.0
        }),
{
    assert((f + 1) * channels == f * channels + channels) by (nonlinear_arith);
    law_captured_samples_are_clamped(data[f * channels]);
    if pair.0 < channels {
        law_captured_samples_are_clamped(data[f * channels + pair.0]);
    }
}

/// A block of whole frames is taken frame by frame, each once and in order.
pub proof fn law_every_captured_frame_is_taken(
    data: Seq<u32>,
    channels: int,
    pair: (int, int),
    frames: nat,
    f: int,
)
    requires
        channels > 0,
        data.len() == frames * channels,
        0 <= f < frames,
    ensures
        input::started_frames(data.len() as int, channels) == frames,
        input::monitored_frames(data, channels, pair, frames).len() == frames,
        input::monitored_frames(data, channels, pair, frames)[f] == input::monitored_frame(
            data,
            channels,
            f,
            pair,
        ),
        input::lefts(input::monitored_frames(data, channels, pair, frames))[f]
            == input::monitored_frame(data, channels, f, pair).0,
        input::rights(input::monitored_frames(data, channels, pair, frames))[f]
            == input::monitored_frame(data, channels, f, pair).1,
{
    let x = frames as int * channels + channels - 1;
    assert(x / channels == frames) by {
        vstd::arithmetic::div_mod::lemma_div_multiples_vanish_fancy(
            frames as int,
            channels - 1,
            channels,
        );
        assert(channels * frames as int + (channels - 1) == x) by (nonlinear_arith)
            requires
                x == frames as int * channels + channels - 1,
        ;
    }
}

// ── The stream ──────────────────────────────────────────────────────────────

/// Starting plays the stream that is open: nothing where it already runs, the
/// backend's stream before a plain one, and there is nothing to play where none
/// is open.
pub proof fn law_start_plays_the_open_stream(e: EngineInner)
    ensures
        e.status.running ==> e.warm_choice() is None,
        !e.status.running && e.active_stream is Some ==> e.start_choice() == Some(
            StartTarget::Active,
        ) && e.warm_choice() == Some(StartTarget::Active),
        !e.status.running && e.active_stream is None && e.plain_stream ==> e.start_choice()
            == Some(StartTarget::Plain) && e.warm_choice() == Some(StartTarget::Plain),
        !e.status.running && e.active_stream is None && !e.plain_stream ==> e.start_choice()
            is None && e.warm_choice() is None,
{
}

/// A stream that was opened is what the engine then runs at: its rate, its size
/// and its device are shown, its commands go to it, a lost device is found
/// again, and what a duplex session offers is kept.
pub proof fn law_opened_stream_is_what_runs(
    before: EngineInner,
    after: EngineInner,
    opened: OpenedStream,
)
    requires
        stream::stream_taken_over(before, after, opened),
    ensures
        after.shared.sample_rate == opened.sample_rate,
        after.status.sample_rate == opened.sample_rate,
        after.status.buffer_size == opened.buffer_size,
        after.status.output_device == Some(opened.device_name),
        after.status.stream_open,
        !after.status.running,
        after.status.last_error is None,
        after.asio_caps == opened.caps,
        after.active_stream matches Some(s) && s.tx == Some(opened.tx) && s.backend_name
            == opened.backend_name,
        !after.shared.device_lost,
        after.project == before.project,
        after.runtime == before.runtime,
        after.shared.position_samples == before.shared.position_samples,
        after.daux_config == before.daux_config,
{
}

/// Closing the stream leaves no stream, no command channel, no capture and no
/// session, silences the input, and keeps the project.
pub proof fn law_closed_stream_leaves_the_project(before: EngineInner, after: EngineInner)
    requires
        stream::stream_closed(before, after),
    ensures
        after.active_stream is None,
        !after.plain_stream,
        after.cmd_tx is None,
        after.asio_caps is None,
        after.live_input is None,
        !after.status.stream_open,
        !after.status.running,
        !after.shared.live_input_active,
        !after.shared.monitor_enabled_any,
        after.shared.live_input_l == 0 && after.shared.live_input_r == 0,
        after.shared.live_input_peak_l == 0 && after.shared.live_input_peak_r == 0,
        !after.shared.input_ring@.active,
        after.project == before.project,
        after.runtime == before.runtime,
        after.daux_config == before.daux_config,
        after.recording == before.recording,
        after.shared.position_samples == before.shared.position_samples,
{
}

/// Pausing stops the transport and the stream, and nothing else.
pub proof fn law_pausing_stops_the_transport(e: EngineInner)
    ensures
        !stream::paused(e).shared.playing,
        !stream::paused(e).status.running,
        stream::paused(e).status.stream_open == e.status.stream_open,
        stream::paused(e).shared.position_samples == e.shared.position_samples,
        stream::paused(e).active_stream == e.active_stream,
        stream::paused(e).project == e.project,
        stream::paused(e).recording == e.recording,
{
}

// ── Timing ──────────────────────────────────────────────────────────────────

/// A block's deadline is the time that its frames take to play: never more than
/// that, and less than a microsecond short of it.
pub proof fn law_deadline_is_the_time_of_a_block(frames: nat, sample_rate: u32)
    requires
        sample_rate > 0,
        frames * 1_000_000 < sample_rate * u32::MAX,
    ensures
        ({
            let d = state::block_deadline_us(frames, sample_rate);
            d * sample_rate <= frames * 1_000_000 < (d + 1) * sample_rate
        }),
        state::block_deadline_us(frames, 0) == 0,
{
    let x = frames * 1_000_000;
    let r = sample_rate as int;
    vstd::arithmetic::div_mod::lemma_fundamental_div_mod(x as int, r);
    let q = x as int / r;
    assert(0 <= x as int % r < r) by (nonlinear_arith)
        requires
            r > 0,
    ;
    assert(q <= u32::MAX) by (nonlinear_arith)
        requires
            x == r * q + x as int % r,
            x < r * 0xffff_ffff,
            x as int % r >= 0,
            r > 0,
    ;
    assert(q * r <= x < (q + 1) * r) by (nonlinear_arith)
        requires
            x == r * q + x as int % r,
            0 <= x as int % r < r,
    ;
}

/// A block is counted as a risk once it took the mode's share of its deadline:
/// all of it with protection off, and nine, eight or seven tenths otherwise.
pub proof fn law_protection_margins(elapsed: u32, deadline: u32)
    requires
        deadline > 0,
    ensures
        state::dropout_flagged(elapsed, deadline, DropoutProtectionMode::Off) <==> elapsed
            >= deadline,
        state::dropout_flagged(elapsed, deadline, DropoutProtectionMode::Light) <==> 100 * (
        elapsed + 1) > 90 * deadline,
        state::dropout_flagged(elapsed, deadline, DropoutProtectionMode::Medium) <==> 100 * (
        elapsed + 1) > 80 * deadline,
        state::dropout_flagged(elapsed, deadline, DropoutProtectionMode::High) <==> 100 * (elapsed
            + 1) > 70 * deadline,
        !state::dropout_flagged(elapsed, 0, DropoutProtectionMode::High),
{
}

/// Every callback is timed: the last and the longest time are kept, one of two
/// milliseconds or more counts as slow, and one that came too near to its
/// deadline counts as a dropout.
pub proof fn law_callbacks_are_timed(
    shared: SharedState,
    elapsed: u32,
    frames: nat,
    sample_rate: u32,
)
    ensures
        ({
            let after = shared.timed(elapsed, frames, sample_rate);
            let risky = state::dropout_flagged(
                elapsed,
                state::block_deadline_us(frames, sample_rate),
                DropoutProtectionMode::of_number(shared.dropout_protection_mode),
            );
            &&& after.last_callback_us == elapsed
            &&& after.max_callback_us >= elapsed && after.max_callback_us
                >= shared.max_callback_us
            &&& after.max_callback_us == elapsed || after.max_callback_us
                == shared.max_callback_us
            &&& after.callback_deadline_us == state::block_deadline_us(frames, sample_rate)
            &&& elapsed < 2_000 ==> after.slow_callback_count == shared.slow_callback_count
            &&& elapsed >= 2_000 && shared.slow_callback_count < u64::MAX
                ==> after.slow_callback_count == shared.slow_callback_count + 1
            &&& !risky ==> after.dropout_count == shared.dropout_count
                && after.dropout_last_reason == shared.dropout_last_reason
            &&& risky && shared.dropout_count < u64::MAX ==> after.dropout_count
                == shared.dropout_count + 1
            &&& after.position_samples == shared.position_samples && after.playing
                == shared.playing
        }),
{
}

/// A held peak is the larger of what was held and what came, and a value below
/// zero or no number leaves it as it is.
pub proof fn law_held_peak_is_the_larger(held: u32, value: u32)
    requires
        held <= 0x7f80_0000,
    ensures
        value <= 0x7f80_0000 ==> state::held_after(held, value) == if value > held {
            value
        } else {
            held
        },
        value > 0x7f80_0000 ==> state::held_after(held, value) == held,
{
}

/// What is refused of an input is told with the tracks, the channels and the
/// driver that it is about; channels are counted from one.
pub proof fn law_input_messages_name_what_is_wrong(
    a: Seq<char>,
    b: Seq<char>,
    driver: Seq<char>,
    channel: u32,
)
    ensures
        input::conflict_text(a, b) == "software monitoring routes conflict: track '"@ + a
            + "' and track '"@ + b + "' use different hardware inputs"@,
        input::no_channels_text(driver) == "ASIO driver '"@ + driver
            + "' has no usable input channels"@,
        channel < u32::MAX ==> input::counted_from_one(channel) == channel + 1,
{
}

/// A route of too many channels is told with how many it has, and one that takes
/// a channel twice with that channel.
pub proof fn law_refused_routes_are_told_with_their_channels(
    track_id: Seq<char>,
    channels: Seq<u32>,
)
    ensures
        channels.len() > 2 ==> input::route_refusal(track_id, channels) == Some(
            "track '"@ + track_id + "' input route has "@ + text::decimal(channels.len())
                + " channels; only mono or stereo routes are supported"@,
        ),
        channels.len() == 2 && channels[0] == channels[1] && channels[0] < u32::MAX
            ==> input::route_refusal(track_id, channels) == Some(
            "track '"@ + track_id + "' stereo input route uses channel "@ + text::decimal(
                (channels[0] + 1) as nat,
            ) + " twice"@,
        ),
{
}

} // verus!
