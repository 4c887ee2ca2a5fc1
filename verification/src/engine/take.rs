//! Input tests and takes.

use vstd::prelude::*;

use crate::engine::device::BackendKind;
use crate::engine::inner::EngineInner;
use crate::engine::inner::RecordingSession;
use crate::engine::input;
use crate::engine::input::no_channels_message;
use crate::engine::input::AsioSessionCaps;
use crate::engine::live;
use crate::engine::live::InputAction;
use crate::engine::state::SharedState;
use crate::engine::stream;
use crate::engine::stream::StartTarget;
use crate::error::SphereAudioError;
use crate::input_ring;
use crate::input_ring::WaveformPeak;
use crate::latency_graph::RuntimeLatencyGraph;
use crate::text;
use crate::text::join;

verus! {

// ── Input test ──────────────────────────────────────────────────────────────

/// Where an input test takes its level from.
#[derive(Clone, Copy, Debug, PartialEq, Eq, Structural)]
pub enum InputTestSource {
    /// The duplex session that already runs.
    Session,
    /// A capture stream that the host opens.
    Stream,
}

/// Why a test of a duplex session's input cannot start; `None` where it can.
pub open spec fn session_test_refusal(caps: Option<AsioSessionCaps>) -> Option<Seq<char>> {
    match caps {
        Some(c) => if c.input_channels > 0 {
            None
        } else {
            Some(input::no_channels_text(c.driver@))
        },
        None => Some("open the ASIO stream before testing its input"@),
    }
}

/// Why an input test's own capture stream did not come up.
#[derive(Debug)]
pub enum InputTestFailure {
    Config(String),
    Open(String),
    Play(String),
}

impl InputTestFailure {
    /// What is said of it.
    pub open spec fn text(self) -> Seq<char> {
        match self {
            InputTestFailure::Config(e) => "Input device config error: "@ + e@,
            InputTestFailure::Open(e) => "Cannot open input test stream: "@ + e@,
            InputTestFailure::Play(e) => "Input test play failed: "@ + e@,
        }
    }

    /// The error that reports it.
    pub fn to_error(&self) -> (r: SphereAudioError)
        ensures
            r matches SphereAudioError::NativeError(why) && why@ == self.text(),
    {
        SphereAudioError::NativeError(
            match self {
                InputTestFailure::Config(e) => join("Input device config error: ", e),
                InputTestFailure::Open(e) => join("Cannot open input test stream: ", e),
                InputTestFailure::Play(e) => join("Input test play failed: ", e),
            },
        )
    }
}

impl EngineInner {
    /// Begin an input test, in place of one that runs. A duplex session is read
    /// where it is; no second stream is ever opened on it.
    pub fn start_input_test(&mut self) -> (r: Result<InputTestSource, SphereAudioError>)
        ensures
            old(self).daux_config.backend != BackendKind::Asio ==> r == Ok::<_, SphereAudioError>(
                InputTestSource::Stream,
            ) && *final(self) == (EngineInner {
                input_test: false,
                input_test_uses_session: false,
                ..*old(self)
            }),
            old(self).daux_config.backend == BackendKind::Asio ==> match session_test_refusal(
                old(self).asio_caps,
            ) {
                None => r == Ok::<_, SphereAudioError>(InputTestSource::Session) && *final(self)
                    == (EngineInner {
                    input_test: false,
                    input_test_uses_session: true,
                    shared: SharedState { session_input_peak: 0, ..old(self).shared },
                    ..*old(self)
                }),
                Some(why) => (r matches Err(SphereAudioError::NativeError(text)) && text@ == why)
                    && *final(self) == (EngineInner {
                    input_test: false,
                    input_test_uses_session: false,
                    ..*old(self)
                }),
            },
    {
        self.input_test = false;
        self.input_test_uses_session = false;
        match self.daux_config.backend {
            BackendKind::Asio => {},
            _ => {
                return Ok(InputTestSource::Stream);
            },
        }
        let refusal: Option<String> = match &self.asio_caps {
            Some(caps) => if caps.input_channels > 0 {
                None
            } else {
                Some(no_channels_message(&caps.driver))
            },
            None => Some("open the ASIO stream before testing its input".to_owned()),
        };
        match refusal {
            Some(why) => Err(SphereAudioError::NativeError(why)),
            None => {
                self.shared.session_input_peak = 0;
                self.input_test_uses_session = true;
                Ok(InputTestSource::Session)
            },
        }
    }

    /// Note that the test's own capture stream runs.
    pub fn input_test_opened(&mut self)
        ensures
            *final(self) == (EngineInner { input_test: true, ..*old(self) }),
    {
        self.input_test = true;
    }

    /// The level since the last poll, as a bit pattern; zero when no test runs.
    /// `stream_peak` is what the test's own capture stream holds, which is reset
    /// with the poll.
    pub fn get_input_test_level(&mut self, stream_peak: u32) -> (r: u32)
        ensures
            r == if old(self).input_test_uses_session {
                old(self).shared.session_input_peak
            } else if old(self).input_test {
                stream_peak
            } else {
                0
            },
            *final(self) == (EngineInner {
                shared: SharedState {
                    session_input_peak: if old(self).input_test_uses_session {
                        0
                    } else {
                        old(self).shared.session_input_peak
                    },
                    ..old(self).shared
                },
                ..*old(self)
            }),
    {
        if self.input_test_uses_session {
            let peak: u32 = self.shared.session_input_peak;
            self.shared.session_input_peak = 0;
            return peak;
        }
        if self.input_test {
            stream_peak
        } else {
            0
        }
    }

    /// End the input test.
    pub fn stop_input_test(&mut self)
        ensures
            *final(self) == (EngineInner {
                input_test: false,
                input_test_uses_session: false,
                ..*old(self)
            }),
    {
        self.input_test = false;
        self.input_test_uses_session = false;
    }

    /// The input peaks since the last poll, which resets them.
    pub fn take_input_peaks(&mut self) -> (r: (u32, u32))
        ensures
            r == (old(self).shared.live_input_peak_l, old(self).shared.live_input_peak_r),
            *final(self) == (EngineInner {
                shared: SharedState {
                    live_input_peak_l: 0,
                    live_input_peak_r: 0,
                    ..old(self).shared
                },
                ..*old(self)
            }),
    {
        let peaks: (u32, u32) = (self.shared.live_input_peak_l, self.shared.live_input_peak_r);
        self.shared.live_input_peak_l = 0;
        self.shared.live_input_peak_r = 0;
        peaks
    }
}

// ── Takes ───────────────────────────────────────────────────────────────────

/// How a take captures.
#[derive(Clone, Copy, Debug, PartialEq, Eq, Structural)]
pub enum TakeSource {
    /// From a capture stream that the host opens for the take.
    Stream,
    /// From the duplex session that already runs.
    Session { channels: u32, sample_rate: u32, buffer_size: u32 },
}

/// Why a take cannot start; `None` where it can.
pub open spec fn take_refusal(e: EngineInner) -> Option<Seq<char>> {
    if e.recording is Some {
        Some("A recording session is already active"@)
    } else if e.daux_config.backend == BackendKind::Asio {
        match e.asio_caps {
            None => Some(
                "ASIO recording requires an open ASIO stream \u{2014} apply the audio settings first"@,
            ),
            Some(caps) => if caps.input_channels == 0 {
                match e.status.last_daux_error {
                    Some(why) => Some(why@),
                    None => Some(input::no_channels_text(caps.driver@)),
                }
            } else {
                None
            },
        }
    } else {
        None
    }
}

/// How a take that can start captures.
pub open spec fn take_source(e: EngineInner) -> TakeSource {
    if e.daux_config.backend == BackendKind::Asio {
        let caps = e.asio_caps->0;
        TakeSource::Session {
            channels: caps.input_channels,
            sample_rate: caps.sample_rate,
            buffer_size: caps.buffer_size,
        }
    } else {
        TakeSource::Stream
    }
}

impl EngineInner {
    fn refuse_take(&self) -> (r: Option<String>)
        ensures
            text::optional(r) == take_refusal(*self),
    {
        if self.recording.is_some() {
            return Some("A recording session is already active".to_owned());
        }
        match self.daux_config.backend {
            BackendKind::Asio => match &self.asio_caps {
                None => Some(
                    "ASIO recording requires an open ASIO stream \u{2014} apply the audio settings first".to_owned(),
                ),
                Some(caps) => if caps.input_channels == 0 {
                    match &self.status.last_daux_error {
                        Some(why) => Some(why.clone()),
                        None => Some(no_channels_message(&caps.driver)),
                    }
                } else {
                    None
                },
            },
            _ => None,
        }
    }

    /// Begin a take. A take with a capture stream of its own becomes the only
    /// client of the input device, so live input stops for it; a take on a
    /// duplex session leaves everything as it is.
    pub fn start_recording(&mut self) -> (r: Result<TakeSource, SphereAudioError>)
        ensures
            take_refusal(*old(self)) matches Some(why) ==> (r matches Err(
                SphereAudioError::NativeError(text),
            ) && text@ == why) && *final(self) == *old(self),
            take_refusal(*old(self)) is None ==> r == Ok::<_, SphereAudioError>(
                take_source(*old(self)),
            ) && if take_source(*old(self)) == TakeSource::Stream {
                stream::input_stopped(*old(self), *final(self))
            } else {
                *final(self) == *old(self)
            },
    {
        if let Some(why) = self.refuse_take() {
            return Err(SphereAudioError::NativeError(why));
        }
        match self.daux_config.backend {
            BackendKind::Asio => match &self.asio_caps {
                Some(caps) => Ok(
                    TakeSource::Session {
                        channels: caps.input_channels,
                        sample_rate: caps.sample_rate,
                        buffer_size: caps.buffer_size,
                    },
                ),
                None => Err(SphereAudioError::EngineNotOpen),
            },
            _ => {
                self.stop_live_input_stream();
                Ok(TakeSource::Stream)
            },
        }
    }

    /// Take over a take that runs. The output stream that is named is to be
    /// played, so that what is monitored is heard.
    pub fn recording_started(&mut self, session: RecordingSession) -> (r: Option<StartTarget>)
        ensures
            r == old(self).warm_choice(),
            *final(self) == (EngineInner { recording: Some(session), ..*old(self) }),
    {
        self.recording = Some(session);
        self.warm_output_for_monitoring()
    }

    /// A take did not start. The capture stream of its own that it would have
    /// had is gone, so live input, which had stopped for it, is brought in step
    /// with the stored project again; a duplex session was left as it is.
    pub fn recording_failed(&mut self) -> (r: Option<Result<InputAction, SphereAudioError>>)
        ensures
            old(self).daux_config.backend == BackendKind::Asio ==> r is None && *final(self)
                == *old(self),
            old(self).daux_config.backend != BackendKind::Asio ==> live::input_restored(
                *old(self),
                *final(self),
                r,
            ),
    {
        match self.daux_config.backend {
            BackendKind::Asio => None,
            _ => self.restore_input(),
        }
    }

    /// End the running take. The host completes its files and hands the outcome
    /// to [`EngineInner::recording_completed`].
    pub fn stop_recording(&mut self) -> (r: Result<RecordingSession, SphereAudioError>)
        ensures
            *final(self) == (EngineInner { recording: None, ..*old(self) }),
            old(self).recording matches Some(session) ==> r == Ok::<_, SphereAudioError>(session),
            old(self).recording is None ==> (r matches Err(SphereAudioError::NativeError(why))
                && why@ == "No active recording session"@),
    {
        match self.recording.take() {
            Some(session) => Ok(session),
            None => Err(SphereAudioError::NativeError("No active recording session".to_owned())),
        }
    }

    /// Take over how the files of an ended take came out. Once they are
    /// complete, live input is brought in step with the stored project again,
    /// and the host does what the result says about its capture stream; where
    /// they are not, that is reported and nothing else happens.
    pub fn recording_completed(&mut self, completed: Result<(), SphereAudioError>) -> (r: Result<
        Option<Result<InputAction, SphereAudioError>>,
        SphereAudioError,
    >)
        ensures
            match completed {
                Ok(_) => r matches Ok(action) && live::input_restored(
                    *old(self),
                    *final(self),
                    action,
                ),
                Err(e) => r == Err::<Option<Result<InputAction, SphereAudioError>>, _>(e)
                    && *final(self) == *old(self),
            },
    {
        match completed {
            Ok(_) => Ok(self.restore_input()),
            Err(e) => Err(e),
        }
    }

    /// Whether a take runs, and on how many tracks.
    pub fn get_recording_status(&self) -> (r: Option<u32>)
        ensures
            r == match self.recording {
                Some(session) => Some(session.track_count),
                None => None,
            },
    {
        match &self.recording {
            Some(session) => Some(session.track_count),
            None => None,
        }
    }
}

// ── Where a take lands ──────────────────────────────────────────────────────

/// The sum of two numbers, held at the largest one.
pub open spec fn saturating_sum(a: u32, b: u32) -> u32 {
    if a + b > u32::MAX {
        u32::MAX
    } else {
        (a + b) as u32
    }
}

/// The way through the hardware and back, in samples: what the duplex session
/// reports, else two blocks.
pub open spec fn round_trip(caps: Option<AsioSessionCaps>, buffer_frames: u32) -> u32 {
    let reported: u32 = match caps {
        Some(c) => saturating_sum(c.input_latency_samples, c.output_latency_samples),
        None => 0,
    };
    if reported > 0 {
        reported
    } else {
        saturating_sum(buffer_frames, buffer_frames)
    }
}

/// The delay between a track and the longest path, in samples: what the track
/// itself already adds.
pub open spec fn path_samples(graph: RuntimeLatencyGraph, track: int) -> u32 {
    let delay: u32 = if 0 <= track < graph.track_pdc_delay@.len() {
        graph.track_pdc_delay@[track]
    } else {
        0
    };
    if graph.max_path_latency_samples >= delay {
        (graph.max_path_latency_samples - delay) as u32
    } else {
        0
    }
}

/// How many samples earlier than it was captured a take on a track belongs.
pub open spec fn take_offset(
    caps: Option<AsioSessionCaps>,
    buffer_frames: u32,
    graph: RuntimeLatencyGraph,
    track: int,
) -> u32 {
    saturating_sum(round_trip(caps, buffer_frames), path_samples(graph, track))
}

fn sum_held(a: u32, b: u32) -> (r: u32)
    ensures
        r == saturating_sum(a, b),
{
    let sum: u64 = a as u64 + b as u64;
    if sum > 0xffff_ffff {
        0xffff_ffff
    } else {
        sum as u32
    }
}

/// The delay between a track and the longest path.
pub fn track_path_samples(graph: &RuntimeLatencyGraph, track: usize) -> (r: u32)
    ensures
        r == path_samples(*graph, track as int),
{
    let delay: u32 = if track < graph.track_pdc_delay.len() {
        graph.track_pdc_delay[track]
    } else {
        0
    };
    if graph.max_path_latency_samples >= delay {
        graph.max_path_latency_samples - delay
    } else {
        0
    }
}

impl EngineInner {
    /// How many samples earlier than it was captured a take on a track belongs,
    /// `None` for a track that the graph does not have. What was heard when it
    /// was played went through the hardware and the graph first.
    pub fn recording_offset(&self, track: Option<usize>) -> (r: Option<u32>)
        ensures
            r == match track {
                Some(t) => Some(
                    take_offset(
                        self.asio_caps,
                        self.status.buffer_size,
                        self.runtime.latency_graph,
                        t as int,
                    ),
                ),
                None => None,
            },
    {
        let t: usize = match track {
            Some(t) => t,
            None => {
                return None;
            },
        };
        let reported: u32 = match &self.asio_caps {
            Some(caps) => sum_held(caps.input_latency_samples, caps.output_latency_samples),
            None => 0,
        };
        let trip: u32 = if reported > 0 {
            reported
        } else {
            sum_held(self.status.buffer_size, self.status.buffer_size)
        };
        Some(sum_held(trip, track_path_samples(&self.runtime.latency_graph, t)))
    }
}

/// A take is never placed later than it was captured, and at least the way
/// through the hardware earlier.
pub proof fn law_take_offset_covers_the_round_trip(
    caps: Option<AsioSessionCaps>,
    buffer_frames: u32,
    graph: RuntimeLatencyGraph,
    track: int,
)
    ensures
        take_offset(caps, buffer_frames, graph, track) >= round_trip(caps, buffer_frames),
{
}

// ── Waveform preview ────────────────────────────────────────────────────────

/// What is known of the running take's waveform.
#[derive(Clone, Copy, Debug, PartialEq, Eq, Structural)]
pub struct RecordingPreviewInfo {
    pub active: bool,
    pub recording_id: u64,
    pub start_sample: u64,
    pub sample_rate: u32,
    pub channels: u32,
    pub peaks_per_second: u32,
    pub peak_count: u64,
}

/// The bins that a drain from `from` on gives: those that are still held, up to
/// the newest.
pub open spec fn drained(shared: SharedState, from: u64) -> Seq<WaveformPeak> {
    let head = shared.preview_ring@.head;
    let start = input_ring::drain_start(head, from);
    if start >= head {
        Seq::empty()
    } else {
        Seq::new(
            (head - start) as nat,
            |k: int|
                shared.preview_ring@.bins[input_ring::PreviewModel::place((start + k) as u64)],
        )
    }
}

impl EngineInner {
    /// What is known of the running take's waveform.
    pub fn recording_preview_info(&self) -> (r: RecordingPreviewInfo)
        ensures
            r == (RecordingPreviewInfo {
                active: self.shared.recording_preview_active,
                recording_id: self.shared.recording_preview_id,
                start_sample: self.shared.recording_preview_start_sample,
                sample_rate: self.shared.recording_preview_sample_rate,
                channels: self.shared.recording_preview_channels,
                peaks_per_second: self.shared.recording_preview_peaks_per_sec,
                peak_count: self.shared.preview_ring@.head,
            }),
    {
        RecordingPreviewInfo {
            active: self.shared.recording_preview_active,
            recording_id: self.shared.recording_preview_id,
            start_sample: self.shared.recording_preview_start_sample,
            sample_rate: self.shared.recording_preview_sample_rate,
            channels: self.shared.recording_preview_channels,
            peaks_per_second: self.shared.recording_preview_peaks_per_sec,
            peak_count: self.shared.preview_ring.head(),
        }
    }

    /// The waveform bins from count `from_index` on. A reader that fell behind
    /// goes on with the oldest bin that is still held.
    pub fn drain_recording_preview_peaks(&self, from_index: u64) -> (r: Vec<WaveformPeak>)
        requires
            self.well_formed(),
        ensures
            r@ == drained(self.shared, from_index),
    {
        let head: u64 = self.shared.preview_ring.head();
        let start: u64 = if head > 65536 && from_index < head - 65536 {
            head - 65536
        } else {
            from_index
        };
        let mut out: Vec<WaveformPeak> = Vec::new();
        let mut i: u64 = start;
        let ghost bins = self.shared.preview_ring@.bins;
        while i < head
            invariant
                start <= i,
                i <= head || i == start,
                self.shared.preview_ring.well_formed(),
                bins == self.shared.preview_ring@.bins,
                out@.len() == i - start,
                forall|k: int|
                    0 <= k < out@.len() ==> out@[k]
                        == bins[input_ring::PreviewModel::place((start + k) as u64)],
            decreases head - i,
        {
            out.push(self.shared.preview_ring.read(i));
            i = i + 1;
        }
        proof {
            assert(out@ =~= drained(self.shared, from_index));
        }
        out
    }
}

/// A reader gets no more bins than are held, none twice, and one that is up to
/// date gets exactly the next bin.
pub proof fn law_bins_are_drained_once(
    before: SharedState,
    after: SharedState,
    from: u64,
    peak: WaveformPeak,
)
    requires
        before.well_formed(),
        before.preview_ring@.head < u64::MAX,
        after.preview_ring@ == before.preview_ring@.after_push(peak),
    ensures
        drained(before, from).len() <= input_ring::PREVIEW_CAPACITY,
        from + drained(before, from).len() <= before.preview_ring@.head || drained(
            before,
            from,
        ).len() == 0,
        drained(before, before.preview_ring@.head).len() == 0,
        drained(after, before.preview_ring@.head) == seq![peak],
{
    let head = before.preview_ring@.head;
    assert(drained(after, head) =~= seq![peak]);
}

/// A take is moved earlier by the round trip and by what its track's signal was
/// late: the longest path less the delay that the track is given. A duplex
/// session that reports latencies gives the round trip, and otherwise it is two
/// blocks.
pub proof fn law_take_offset_is_round_trip_and_track_path(
    caps: Option<AsioSessionCaps>,
    buffer_frames: u32,
    graph: RuntimeLatencyGraph,
    track: int,
    trip: int,
)
    requires
        0 <= track < graph.track_pdc_delay@.len(),
        graph.track_pdc_delay@[track] <= graph.max_path_latency_samples,
        trip == match caps {
            Some(c) => if c.input_latency_samples + c.output_latency_samples > 0 {
                c.input_latency_samples + c.output_latency_samples
            } else {
                2 * buffer_frames
            },
            None => 2 * buffer_frames,
        },
    ensures
        trip + graph.max_path_latency_samples - graph.track_pdc_delay@[track] <= u32::MAX
            ==> take_offset(caps, buffer_frames, graph, track) + graph.track_pdc_delay@[track]
            == trip + graph.max_path_latency_samples,
        trip + graph.max_path_latency_samples - graph.track_pdc_delay@[track] > u32::MAX
            ==> take_offset(caps, buffer_frames, graph, track) == u32::MAX,
{
}

/// Of two tracks, a take on the one that is delayed less is moved earlier by as
/// much more: takes on both then meet as they were heard.
pub proof fn law_take_offsets_differ_by_the_delays(
    caps: Option<AsioSessionCaps>,
    buffer_frames: u32,
    graph: RuntimeLatencyGraph,
    a: int,
    b: int,
)
    requires
        0 <= a < graph.track_pdc_delay@.len(),
        0 <= b < graph.track_pdc_delay@.len(),
        graph.track_pdc_delay@[a] <= graph.max_path_latency_samples,
        graph.track_pdc_delay@[b] <= graph.max_path_latency_samples,
        take_offset(caps, buffer_frames, graph, a) < u32::MAX,
        take_offset(caps, buffer_frames, graph, b) < u32::MAX,
    ensures
        take_offset(caps, buffer_frames, graph, a) - take_offset(caps, buffer_frames, graph, b)
            == graph.track_pdc_delay@[b] - graph.track_pdc_delay@[a],
{
}

} // verus!
