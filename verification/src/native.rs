//! The engine as an application drives it: what it was configured with, and
//! what its calls come down to.

use vstd::prelude::*;

use crate::engine::command::EngineCommand;
use crate::engine::device;
use crate::engine::device::BackendKind;
use crate::engine::device::DauxConfig;
use crate::engine::device::DauxDeviceConfig;
use crate::engine::inner;
use crate::engine::inner::EngineInner;
use crate::engine::report;
use crate::engine::state;
use crate::engine::state::SharedState;
use crate::engine::stream;
use crate::error::SphereAudioError;
use crate::text;
use crate::text::copy_optional;

verus! {

/// Rate that is asked for where the caller names none.
pub const DEFAULT_SAMPLE_RATE: u32 = 48_000;

/// Block size that is asked for where the caller names none.
pub const DEFAULT_BUFFER_SIZE: u32 = 256;

/// Which backend to drive.
#[derive(Clone, Copy, Debug, PartialEq, Eq, Structural)]
pub enum AudioBackend {
    /// The platform's default.
    Auto,
    /// The portable one; the same as the default for now.
    Cpal,
    /// Exclusive mode on Windows, for the lowest latency.
    WasapiExclusive,
}

impl Default for AudioBackend {
    fn default() -> (r: Self)
        ensures
            r == AudioBackend::Auto,
    {
        AudioBackend::Auto
    }
}

impl AudioBackend {
    /// The backend that it comes down to.
    pub open spec fn kind(self) -> BackendKind {
        match self {
            AudioBackend::Auto => BackendKind::Auto,
            AudioBackend::Cpal => BackendKind::Auto,
            AudioBackend::WasapiExclusive => BackendKind::WasapiExclusive,
        }
    }

    /// The backend that it comes down to.
    pub fn to_backend_kind(self) -> (r: BackendKind)
        ensures
            r == self.kind(),
    {
        match self {
            AudioBackend::Auto => BackendKind::Auto,
            AudioBackend::Cpal => BackendKind::Auto,
            AudioBackend::WasapiExclusive => BackendKind::WasapiExclusive,
        }
    }
}

/// What the stream is opened with. A rate or block size of zero means the
/// device's own.
#[derive(Clone, Copy, Debug, PartialEq, Eq, Structural)]
pub struct EngineConfig {
    pub sample_rate: u32,
    pub buffer_size: u32,
    pub channels: u16,
    pub backend: AudioBackend,
}

impl EngineConfig {
    /// What is asked for where the caller asks for nothing.
    pub open spec fn standard() -> Self {
        EngineConfig {
            sample_rate: DEFAULT_SAMPLE_RATE,
            buffer_size: DEFAULT_BUFFER_SIZE,
            channels: 2,
            backend: AudioBackend::Auto,
        }
    }

    /// Whether `asked` is the request that opens a stream with this
    /// configuration, on the backend with this id.
    pub open spec fn asks_for(self, asked: DauxConfig, backend_id: Seq<char>) -> bool {
        &&& asked.backend_id@ == backend_id
        &&& asked.output_device_id is None
        &&& asked.sample_rate == device::positive(Some(self.sample_rate))
        &&& asked.buffer_size == device::positive(Some(self.buffer_size))
        &&& !asked.mmcss_priority
        &&& !asked.safe_mode
    }

    fn request(&self, backend_id: &str) -> (r: DauxConfig)
        ensures
            self.asks_for(r, backend_id@),
    {
        DauxConfig {
            backend_id: backend_id.to_owned(),
            output_device_id: None,
            sample_rate: device::non_zero(Some(self.sample_rate)),
            buffer_size: device::non_zero(Some(self.buffer_size)),
            mmcss_priority: false,
            safe_mode: false,
        }
    }
}

impl Default for EngineConfig {
    fn default() -> (r: Self)
        ensures
            r == EngineConfig::standard(),
    {
        EngineConfig {
            sample_rate: DEFAULT_SAMPLE_RATE,
            buffer_size: DEFAULT_BUFFER_SIZE,
            channels: 2,
            backend: AudioBackend::Auto,
        }
    }
}

/// An audio device.
#[derive(Debug)]
pub struct EngineDeviceInfo {
    pub id: String,
    pub name: String,
    pub kind: String,
    pub channels: u32,
    pub default_sample_rate: u32,
    pub is_default: bool,
    pub backend: String,
}

/// The first default device from `from` on.
pub open spec fn default_device(devices: Seq<EngineDeviceInfo>, from: int) -> Option<int>
    decreases devices.len() - from,
{
    if from >= devices.len() {
        None
    } else if devices[from].is_default {
        Some(from)
    } else {
        default_device(devices, from + 1)
    }
}

/// The state of the engine as a status bar polls it.
#[derive(Debug)]
pub struct EngineStats {
    pub running: bool,
    pub stream_open: bool,
    pub transport_playing: bool,
    pub position_samples: u64,
    pub loop_enabled: bool,
    /// Beats per minute, as the bit pattern of an `f64`.
    pub bpm: u64,
    pub time_signature_num: u32,
    pub time_signature_den: u32,
    pub sample_rate: u32,
    pub buffer_size: u32,
    pub backend_name: String,
    pub output_device: Option<String>,
    pub last_error: Option<String>,
    pub glitch_count: u64,
    /// Whether the device was lost and recovery is pending.
    pub device_lost: bool,
    pub device_state: String,
}

/// What there is of a loaded project, for a log. Silent playback almost always
/// means that no clip is loaded or none is ready.
#[derive(Clone, Copy, Debug, PartialEq, Eq, Structural)]
pub struct EngineDebugSnapshot {
    pub loaded_tracks: usize,
    pub loaded_clips: usize,
    pub ready_clips: usize,
    pub is_playing: bool,
    pub position_samples: u64,
}

/// What starting the engine comes down to.
#[derive(Debug)]
pub enum StartStep {
    /// Nothing: it runs.
    Running,
    /// Play the stream that is open. It is never closed and opened anew here.
    Resume,
    /// Open a stream with this request, and play it.
    Open(DauxConfig),
}

/// The engine as an application drives it.
#[derive(Debug)]
pub struct AudioEngine {
    pub inner: EngineInner,
    pub config: EngineConfig,
}

/// A position in seconds, as a bit pattern, with everything before the start and
/// what is no number held at the start.
pub open spec fn from_the_start(bits: u64) -> u64 {
    if bits > 0x7ff0_0000_0000_0000 {
        0
    } else {
        bits
    }
}

impl AudioEngine {
    /// What is asked for where the caller asks for nothing.
    pub fn default_config() -> (r: EngineConfig)
        ensures
            r == EngineConfig::standard(),
    {
        EngineConfig::default()
    }

    /// An engine with nothing open. `daux_config` is what the backends of this
    /// machine are opened with where nothing else is asked for.
    pub fn new(config: EngineConfig, daux_config: DauxDeviceConfig) -> (r: Result<
        Self,
        SphereAudioError,
    >)
        ensures
            r matches Ok(engine) && {
                &&& engine.config == config
                &&& engine.inner.fresh()
                &&& engine.inner.daux_config == daux_config
                &&& engine.inner.sender() is None
            },
    {
        Ok(AudioEngine { inner: EngineInner::new(daux_config), config })
    }

    /// What the engine was made with. Once a stream is open its rate and block
    /// size may differ.
    pub fn config(&self) -> (r: &EngineConfig)
        ensures
            *r == self.config,
    {
        &self.config
    }

    /// The engine's version.
    pub fn version(&self) -> (r: String)
        ensures
            r@ == inner::ENGINE_VERSION@,
    {
        self.inner.get_version()
    }

    /// What starting the engine comes down to. `backend_id` is the id of the
    /// configured backend.
    pub fn start(&self, backend_id: &str) -> (r: StartStep)
        ensures
            self.inner.status.stream_open && self.inner.status.running ==> r is Running,
            self.inner.status.stream_open && !self.inner.status.running ==> r is Resume,
            !self.inner.status.stream_open ==> (r matches StartStep::Open(asked)
                && self.config.asks_for(asked, backend_id@)),
    {
        if self.inner.status.stream_open {
            if self.inner.status.running {
                StartStep::Running
            } else {
                StartStep::Resume
            }
        } else {
            StartStep::Open(self.config.request(backend_id))
        }
    }

    /// Stop the stream and close the device.
    pub fn stop(&mut self)
        ensures
            stream::stream_closed(stream::paused(old(self).inner), final(self).inner),
            final(self).config == old(self).config,
    {
        self.inner.stop();
        self.inner.close_device();
    }

    /// Shut down in order. Doing so again does no harm.
    pub fn shutdown(&mut self)
        ensures
            stream::shut_down(old(self).inner, final(self).inner),
            final(self).config == old(self).config,
    {
        self.inner.shutdown();
    }

    /// Whether the stream runs.
    pub fn is_running(&self) -> (r: bool)
        ensures
            r == self.inner.status.running,
    {
        self.inner.status.running
    }

    /// Start the transport. Nothing is sent when it already plays.
    pub fn play(&mut self) -> (r: Result<(), SphereAudioError>)
        ensures
            old(self).inner.shared.playing ==> r is Ok && *final(self) == *old(self),
            !old(self).inner.shared.playing ==> inner::handed_over(
                old(self).inner,
                final(self).inner,
                EngineCommand::StartTransport,
                r,
            ),
            final(self).config == old(self).config,
    {
        self.inner.play()
    }

    /// Stop the transport. The stream goes on.
    pub fn pause(&mut self) -> (r: Result<(), SphereAudioError>)
        ensures
            inner::handed_over(
                old(self).inner,
                final(self).inner,
                EngineCommand::StopTransport,
                r,
            ),
            final(self).config == old(self).config,
    {
        self.inner.pause()
    }

    /// Move the transport to a time in seconds, as a bit pattern. Nothing lies
    /// before the start.
    pub fn seek(&mut self, position_seconds: u64) -> (r: Result<(), SphereAudioError>)
        ensures
            inner::handed_over(
                old(self).inner,
                final(self).inner,
                EngineCommand::Seek { position_seconds: from_the_start(position_seconds) },
                r,
            ),
            final(self).config == old(self).config,
    {
        let held: u64 = if position_seconds > 0x7ff0_0000_0000_0000 {
            0
        } else {
            position_seconds
        };
        self.inner.seek(held)
    }

    /// Switch the click.
    pub fn set_metronome_enabled(&mut self, enabled: bool) -> (r: Result<(), SphereAudioError>)
        ensures
            inner::handed_over(
                (EngineInner {
                    shared: SharedState { metronome_enabled: enabled, ..old(self).inner.shared },
                    ..old(self).inner
                }),
                final(self).inner,
                EngineCommand::SetMetronomeEnabled(enabled),
                r,
            ),
            final(self).config == old(self).config,
    {
        self.inner.set_metronome_enabled(enabled)
    }

    /// Play at a static tempo, as a bit pattern.
    pub fn set_bpm(&mut self, bpm: u64) -> (r: Result<(), SphereAudioError>)
        ensures
            inner::tempo_set(old(self).inner, final(self).inner, bpm, Seq::empty(), r),
            final(self).config == old(self).config,
    {
        self.inner.set_bpm(bpm)
    }

    /// Set the time signature.
    pub fn set_time_signature(&mut self, numerator: u32, denominator: u32) -> (r: Result<
        (),
        SphereAudioError,
    >)
        ensures
            inner::handed_over(
                (EngineInner {
                    shared: SharedState {
                        time_sig_num: state::at_least_one(numerator),
                        time_sig_den: state::at_least_one(denominator),
                        ..old(self).inner.shared
                    },
                    ..old(self).inner
                }),
                final(self).inner,
                EngineCommand::SetTimeSignature(numerator, denominator),
                r,
            ),
            final(self).config == old(self).config,
    {
        self.inner.set_time_signature(numerator, denominator)
    }

    /// Set the loop, in seconds, as bit patterns.
    pub fn set_loop(&mut self, enabled: bool, start_seconds: u64, end_seconds: u64) -> (r: Result<
        (),
        SphereAudioError,
    >)
        ensures
            inner::handed_over(
                old(self).inner,
                final(self).inner,
                EngineCommand::SetLoop { enabled, start_seconds, end_seconds },
                r,
            ),
            final(self).config == old(self).config,
    {
        self.inner.set_loop(enabled, start_seconds, end_seconds)
    }

    /// Whether plug-in delays are compensated. `forced_off` is the process-wide
    /// switch that overrides the setting.
    pub fn pdc_enabled(&self, forced_off: bool) -> (r: bool)
        ensures
            r == (!forced_off && self.inner.shared.pdc_enabled),
    {
        self.inner.pdc_enabled(forced_off)
    }

    /// Switch delay compensation. A change starts a new generation of the
    /// latency graph.
    pub fn set_pdc_enabled(&mut self, enabled: bool)
        ensures
            final(self).inner == (EngineInner {
                shared: inner::compensation_set(old(self).inner.shared, enabled),
                ..old(self).inner
            }),
            final(self).config == old(self).config,
    {
        self.inner.set_pdc_enabled(enabled);
    }

    /// Start the transport where it stands still, and stop it where it plays.
    /// What it does from now on is returned.
    pub fn toggle_transport(&mut self) -> (r: Result<bool, SphereAudioError>)
        ensures
            r matches Ok(playing) ==> playing == !old(self).inner.shared.playing,
            inner::handed_over(
                old(self).inner,
                final(self).inner,
                if old(self).inner.shared.playing {
                    EngineCommand::StopTransport
                } else {
                    EngineCommand::StartTransport
                },
                match r {
                    Ok(_) => Ok(()),
                    Err(e) => Err(e),
                },
            ),
            final(self).config == old(self).config,
    {
        let playing: bool = self.inner.shared.playing;
        let sent: Result<(), SphereAudioError> = if playing {
            self.inner.pause()
        } else {
            self.inner.play()
        };
        match sent {
            Ok(_) => Ok(!playing),
            Err(e) => Err(e),
        }
    }

    /// The default output device among those that there are.
    pub fn default_output_device(devices: &Vec<EngineDeviceInfo>) -> (r: Option<usize>)
        ensures
            r is Some <==> default_device(devices@, 0) is Some,
            r matches Some(i) ==> default_device(devices@, 0) == Some(i as int),
    {
        let mut i: usize = 0;
        while i < devices.len()
            invariant
                i <= devices@.len(),
                default_device(devices@, 0) == default_device(devices@, i as int),
            decreases devices@.len() - i,
        {
            if devices[i].is_default {
                return Some(i);
            }
            i = i + 1;
        }
        None
    }

    /// The state of the engine as a status bar polls it. `configured_name` is
    /// what the configured backend is called.
    pub fn stats(&self, configured_name: &str) -> (r: EngineStats)
        ensures
            r.running == self.inner.status.running,
            r.stream_open == self.inner.status.stream_open,
            r.transport_playing == self.inner.shared.playing,
            r.position_samples == self.inner.shared.position_samples,
            r.loop_enabled == self.inner.shared.loop_enabled,
            r.bpm == self.inner.shared.bpm_bits,
            r.time_signature_num == self.inner.shared.time_sig_num,
            r.time_signature_den == self.inner.shared.time_sig_den,
            r.sample_rate == self.inner.status.sample_rate,
            r.buffer_size == self.inner.status.buffer_size,
            r.backend_name@ == match self.inner.active_stream {
                Some(stream) => stream.backend_name@,
                None => configured_name@,
            },
            r.output_device == self.inner.status.output_device,
            r.last_error == self.inner.status.last_error,
            r.glitch_count == self.inner.glitch_counter,
            r.device_lost == self.inner.shared.device_lost,
            r.device_state@ == device::device_state_text(
                self.inner.shared.device_lost,
                self.inner.status.stream_open,
                self.inner.shared.playing,
            ),
    {
        let daux = self.inner.get_daux_status(configured_name);
        EngineStats {
            running: self.inner.status.running,
            stream_open: self.inner.status.stream_open,
            transport_playing: self.inner.shared_playing(),
            position_samples: self.inner.shared.position_samples,
            loop_enabled: self.inner.shared.loop_enabled,
            bpm: self.inner.shared.bpm_bits,
            time_signature_num: self.inner.shared.time_sig_num,
            time_signature_den: self.inner.shared.time_sig_den,
            sample_rate: self.inner.status.sample_rate,
            buffer_size: self.inner.status.buffer_size,
            backend_name: daux.backend_name,
            output_device: daux.output_device,
            last_error: copy_optional(&self.inner.status.last_error),
            glitch_count: daux.glitch_count,
            device_lost: daux.device_lost,
            device_state: daux.device_state,
        }
    }

    /// What there is of the loaded project. `clip_frames` is how many frames
    /// each clip's source holds.
    pub fn debug_snapshot(&self, clip_frames: &Vec<u64>) -> (r: EngineDebugSnapshot)
        ensures
            r == (EngineDebugSnapshot {
                loaded_tracks: self.inner.runtime.tracks@.len() as usize,
                loaded_clips: self.inner.runtime.clips@.len() as usize,
                ready_clips: report::ready_sources(clip_frames@, clip_frames@.len()) as usize,
                is_playing: self.inner.shared.playing,
                position_samples: self.inner.shared.position_samples,
            }),
    {
        let info = self.inner.get_debug_info(clip_frames, 0, &Vec::new());
        EngineDebugSnapshot {
            loaded_tracks: info.loaded_tracks,
            loaded_clips: info.loaded_clips,
            ready_clips: info.ready_clips,
            is_playing: info.is_playing,
            position_samples: self.inner.shared.position_samples,
        }
    }

    /// What to open again after the device was lost; `None` where it was not.
    pub fn recover_device(&self) -> (r: Option<DauxConfig>)
        ensures
            r is Some <==> self.inner.shared.device_lost,
            r matches Some(config) ==> self.inner.daux_config.asked_again_by(config),
    {
        self.inner.recover_daux()
    }

    /// Whether changing to `config` needs the stream opened anew. `backend_id`
    /// is the id of its backend.
    pub fn requires_restart(&self, config: &EngineConfig, backend_id: &str) -> (r: bool)
        ensures
            r == !self.already_as(*config, backend_id@),
    {
        let asked: DauxConfig = config.request(backend_id);
        self.inner.daux_requires_restart(&asked)
    }

    /// Whether the stream was opened as `config` asks.
    pub open spec fn already_as(self, config: EngineConfig, backend_id: Seq<char>) -> bool {
        &&& self.inner.daux_config.backend_id@ == backend_id
        &&& text::optional(self.inner.daux_config.output_device_id) is None
        &&& self.inner.daux_config.sample_rate == device::positive(Some(config.sample_rate))
        &&& self.inner.daux_config.buffer_size == device::positive(Some(config.buffer_size))
        &&& !self.inner.daux_config.mmcss_priority
        &&& !self.inner.daux_config.safe_mode
    }
}

impl EngineInner {
    /// Whether the transport advances.
    pub fn shared_playing(&self) -> (r: bool)
        ensures
            r == self.shared.playing,
    {
        self.shared.playing
    }
}

/// A stream that was opened as the engine's configuration asks needs no
/// restart for that configuration.
pub proof fn law_started_engine_needs_no_restart(
    engine: AudioEngine,
    asked: DauxConfig,
    backend_id: Seq<char>,
)
    requires
        engine.config.asks_for(asked, backend_id),
        engine.inner.daux_config.made_from(asked, engine.config.backend.kind(), backend_id),
    ensures
        engine.already_as(engine.config, backend_id),
{
}

/// A seek never leads before the start, and a seek to where a seek led leads
/// there again.
pub proof fn law_seek_starts_at_the_start(bits: u64)
    ensures
        from_the_start(bits) <= 0x7ff0_0000_0000_0000,
        from_the_start(from_the_start(bits)) == from_the_start(bits),
{
}

/// A seek to a place in the timeline leads there, and one to before the start
/// leads to the start.
pub proof fn law_seek_leads_where_it_was_sent(bits: u64)
    ensures
        bits <= 0x7ff0_0000_0000_0000 ==> from_the_start(bits) == bits,
        bits > 0x7ff0_0000_0000_0000 ==> from_the_start(bits) == 0,
{
}

/// The default device is the first that is marked so, and without one there is
/// none.
pub proof fn law_default_device_is_the_first_marked(devices: Seq<EngineDeviceInfo>, from: int)
    requires
        0 <= from,
    ensures
        default_device(devices, from) matches Some(i) ==> from <= i < devices.len()
            && devices[i].is_default && forall|j: int|
            from <= j < i ==> !(#[trigger] devices[j]).is_default,
        default_device(devices, from) is None ==> forall|j: int|
            from <= j < devices.len() ==> !(#[trigger] devices[j]).is_default,
    decreases devices.len() - from,
{
    if from < devices.len() && !devices[from].is_default {
        law_default_device_is_the_first_marked(devices, from + 1);
    }
}

/// The engine asks for the rate and the block size that were set, where they are
/// set, for the default device, and with every switch off.
pub proof fn law_engine_asks_for_its_settings(
    config: EngineConfig,
    asked: DauxConfig,
    backend_id: Seq<char>,
)
    requires
        config.asks_for(asked, backend_id),
    ensures
        asked.backend_id@ == backend_id,
        asked.output_device_id is None,
        config.sample_rate > 0 ==> asked.sample_rate == Some(config.sample_rate),
        config.sample_rate == 0 ==> asked.sample_rate is None,
        config.buffer_size > 0 ==> asked.buffer_size == Some(config.buffer_size),
        config.buffer_size == 0 ==> asked.buffer_size is None,
        !asked.mmcss_priority,
        !asked.safe_mode,
{
}

/// An engine that already runs as it is asked to has that rate, that block, that
/// backend, the default device and no switch on.
pub proof fn law_running_engine_is_kept_for_the_same_settings(
    engine: AudioEngine,
    config: EngineConfig,
    backend_id: Seq<char>,
)
    ensures
        engine.already_as(config, backend_id) <==> {
            &&& engine.inner.daux_config.backend_id@ == backend_id
            &&& engine.inner.daux_config.output_device_id is None
            &&& config.sample_rate > 0 ==> engine.inner.daux_config.sample_rate == Some(
                config.sample_rate,
            )
            &&& config.sample_rate == 0 ==> engine.inner.daux_config.sample_rate is None
            &&& config.buffer_size > 0 ==> engine.inner.daux_config.buffer_size == Some(
                config.buffer_size,
            )
            &&& config.buffer_size == 0 ==> engine.inner.daux_config.buffer_size is None
            &&& !engine.inner.daux_config.mmcss_priority
            &&& !engine.inner.daux_config.safe_mode
        },
{
}

/// Only the exclusive backend is asked for by name; the others are chosen.
pub proof fn law_only_exclusive_mode_is_asked_for(backend: AudioBackend)
    ensures
        backend.kind() == BackendKind::WasapiExclusive <==> backend is WasapiExclusive,
        backend.kind() == BackendKind::Auto <==> backend is Auto || backend is Cpal,
{
}

/// What is asked for where nothing is set: forty-eight thousand samples a second,
/// blocks of two hundred and fifty-six frames, two channels, any backend.
pub proof fn law_standard_settings()
    ensures
        EngineConfig::standard().sample_rate == 48_000,
        EngineConfig::standard().buffer_size == 256,
        EngineConfig::standard().channels == 2,
        EngineConfig::standard().backend is Auto,
{
}

} // verus!
