//! State that the control thread and the audio callback share.

use vstd::prelude::*;

use crate::input_ring;
use crate::input_ring::InputRing;
use crate::input_ring::PreviewPeakRing;
use crate::transport::LoopBounds;

verus! {

// ── Lifecycle ───────────────────────────────────────────────────────────────

/// Lifecycle of the engine. Only a running engine sounds.
#[derive(Clone, Copy, Debug, PartialEq, Eq, Structural)]
pub enum AudioEngineState {
    Running,
    Paused,
    LoadingProject,
    ClosingProject,
    DeviceSwitching,
    Suspended,
}

impl AudioEngineState {
    /// The number that stands for the state.
    pub open spec fn number(self) -> u8 {
        match self {
            AudioEngineState::Running => 0,
            AudioEngineState::Paused => 1,
            AudioEngineState::LoadingProject => 2,
            AudioEngineState::ClosingProject => 3,
            AudioEngineState::DeviceSwitching => 4,
            AudioEngineState::Suspended => 5,
        }
    }

    /// The state that a number stands for; any other number is a running
    /// engine.
    pub open spec fn of_number(v: u8) -> AudioEngineState {
        if v == 1 {
            AudioEngineState::Paused
        } else if v == 2 {
            AudioEngineState::LoadingProject
        } else if v == 3 {
            AudioEngineState::ClosingProject
        } else if v == 4 {
            AudioEngineState::DeviceSwitching
        } else if v == 5 {
            AudioEngineState::Suspended
        } else {
            AudioEngineState::Running
        }
    }

    /// The name of the state.
    pub open spec fn name(self) -> Seq<char> {
        match self {
            AudioEngineState::Running => "Running"@,
            AudioEngineState::Paused => "Paused"@,
            AudioEngineState::LoadingProject => "LoadingProject"@,
            AudioEngineState::ClosingProject => "ClosingProject"@,
            AudioEngineState::DeviceSwitching => "DeviceSwitching"@,
            AudioEngineState::Suspended => "Suspended"@,
        }
    }

    /// The number that stands for the state.
    pub fn as_u8(self) -> (r: u8)
        ensures
            r == self.number(),
    {
        match self {
            AudioEngineState::Running => 0,
            AudioEngineState::Paused => 1,
            AudioEngineState::LoadingProject => 2,
            AudioEngineState::ClosingProject => 3,
            AudioEngineState::DeviceSwitching => 4,
            AudioEngineState::Suspended => 5,
        }
    }

    /// The state that a number stands for.
    pub fn from_u8(v: u8) -> (r: Self)
        ensures
            r == AudioEngineState::of_number(v),
    {
        match v {
            1 => AudioEngineState::Paused,
            2 => AudioEngineState::LoadingProject,
            3 => AudioEngineState::ClosingProject,
            4 => AudioEngineState::DeviceSwitching,
            5 => AudioEngineState::Suspended,
            _ => AudioEngineState::Running,
        }
    }

    pub fn as_str(self) -> (r: &'static str)
        ensures
            r@ == self.name(),
    {
        match self {
            AudioEngineState::Running => "Running",
            AudioEngineState::Paused => "Paused",
            AudioEngineState::LoadingProject => "LoadingProject",
            AudioEngineState::ClosingProject => "ClosingProject",
            AudioEngineState::DeviceSwitching => "DeviceSwitching",
            AudioEngineState::Suspended => "Suspended",
        }
    }

    /// Whether the device buffer is silent in this state.
    pub fn outputs_silence(self) -> (r: bool)
        ensures
            r == (self != AudioEngineState::Running),
    {
        match self {
            AudioEngineState::Running => false,
            _ => true,
        }
    }
}

/// A lifecycle state, a protection mode and a dropout reason are each read back
/// from the number that stands for them.
pub proof fn law_numbers_read_back(
    state: AudioEngineState,
    mode: DropoutProtectionMode,
    reason: DropoutReason,
)
    ensures
        AudioEngineState::of_number(state.number()) == state,
        DropoutProtectionMode::of_number(mode.number()) == mode,
        DropoutReason::of_number(reason.number()) == reason,
{
}

// ── Dropout protection ──────────────────────────────────────────────────────

/// How much headroom the engine keeps against jitter. The mode sets how near to
/// its deadline a block may come before it is counted.
#[derive(Clone, Copy, Debug, PartialEq, Eq, Structural)]
pub enum DropoutProtectionMode {
    /// Lowest latency: only true overruns count.
    Off,
    Light,
    /// The recommended default.
    Medium,
    /// The widest margin.
    High,
}

impl DropoutProtectionMode {
    /// The number that stands for the mode.
    pub open spec fn number(self) -> u8 {
        match self {
            DropoutProtectionMode::Off => 0,
            DropoutProtectionMode::Light => 1,
            DropoutProtectionMode::Medium => 2,
            DropoutProtectionMode::High => 3,
        }
    }

    /// The mode that a number stands for; any other number is the default.
    pub open spec fn of_number(v: u8) -> DropoutProtectionMode {
        if v == 0 {
            DropoutProtectionMode::Off
        } else if v == 1 {
            DropoutProtectionMode::Light
        } else if v == 3 {
            DropoutProtectionMode::High
        } else {
            DropoutProtectionMode::Medium
        }
    }

    /// The name of the mode.
    pub open spec fn name(self) -> Seq<char> {
        match self {
            DropoutProtectionMode::Off => "Off"@,
            DropoutProtectionMode::Light => "Light"@,
            DropoutProtectionMode::Medium => "Medium"@,
            DropoutProtectionMode::High => "High"@,
        }
    }

    /// Percentage of its deadline that a block may take before it is counted.
    pub open spec fn percent(self) -> u64 {
        match self {
            DropoutProtectionMode::Off => 100,
            DropoutProtectionMode::Light => 90,
            DropoutProtectionMode::Medium => 80,
            DropoutProtectionMode::High => 70,
        }
    }

    /// The number that stands for the mode.
    pub fn as_u8(self) -> (r: u8)
        ensures
            r == self.number(),
    {
        match self {
            DropoutProtectionMode::Off => 0,
            DropoutProtectionMode::Light => 1,
            DropoutProtectionMode::Medium => 2,
            DropoutProtectionMode::High => 3,
        }
    }

    /// The mode that a number stands for.
    pub fn from_u8(v: u8) -> (r: Self)
        ensures
            r == DropoutProtectionMode::of_number(v),
    {
        match v {
            0 => DropoutProtectionMode::Off,
            1 => DropoutProtectionMode::Light,
            3 => DropoutProtectionMode::High,
            _ => DropoutProtectionMode::Medium,
        }
    }

    pub fn as_str(self) -> (r: &'static str)
        ensures
            r@ == self.name(),
    {
        match self {
            DropoutProtectionMode::Off => "Off",
            DropoutProtectionMode::Light => "Light",
            DropoutProtectionMode::Medium => "Medium",
            DropoutProtectionMode::High => "High",
        }
    }

    /// The fraction of its deadline, as numerator and denominator, from which
    /// on a block is counted.
    pub fn dropout_threshold_ratio(self) -> (r: (u64, u64))
        ensures
            r == (self.percent(), 100u64),
    {
        match self {
            DropoutProtectionMode::Off => (100, 100),
            DropoutProtectionMode::Light => (90, 100),
            DropoutProtectionMode::Medium => (80, 100),
            DropoutProtectionMode::High => (70, 100),
        }
    }
}

/// Why the last counted block was counted.
#[derive(Clone, Copy, Debug, PartialEq, Eq, Structural)]
pub enum DropoutReason {
    /// No block was.
    Unflagged,
    CallbackOverrun,
    GraphSwapLate,
    DiskCacheMiss,
    PluginOverrun,
}

impl DropoutReason {
    /// The number that stands for the reason.
    pub open spec fn number(self) -> u8 {
        match self {
            DropoutReason::Unflagged => 0,
            DropoutReason::CallbackOverrun => 1,
            DropoutReason::GraphSwapLate => 2,
            DropoutReason::DiskCacheMiss => 3,
            DropoutReason::PluginOverrun => 4,
        }
    }

    /// The reason that a number stands for; any other number is none.
    pub open spec fn of_number(v: u8) -> DropoutReason {
        if v == 1 {
            DropoutReason::CallbackOverrun
        } else if v == 2 {
            DropoutReason::GraphSwapLate
        } else if v == 3 {
            DropoutReason::DiskCacheMiss
        } else if v == 4 {
            DropoutReason::PluginOverrun
        } else {
            DropoutReason::Unflagged
        }
    }

    /// The name of the reason.
    pub open spec fn name(self) -> Seq<char> {
        match self {
            DropoutReason::Unflagged => "none"@,
            DropoutReason::CallbackOverrun => "callback-overrun"@,
            DropoutReason::GraphSwapLate => "graph-swap-late"@,
            DropoutReason::DiskCacheMiss => "disk-cache-miss"@,
            DropoutReason::PluginOverrun => "plugin-overrun"@,
        }
    }

    /// The number that stands for the reason.
    pub fn as_u8(self) -> (r: u8)
        ensures
            r == self.number(),
    {
        match self {
            DropoutReason::Unflagged => 0,
            DropoutReason::CallbackOverrun => 1,
            DropoutReason::GraphSwapLate => 2,
            DropoutReason::DiskCacheMiss => 3,
            DropoutReason::PluginOverrun => 4,
        }
    }

    /// The reason that a number stands for.
    pub fn from_u8(v: u8) -> (r: Self)
        ensures
            r == DropoutReason::of_number(v),
    {
        match v {
            1 => DropoutReason::CallbackOverrun,
            2 => DropoutReason::GraphSwapLate,
            3 => DropoutReason::DiskCacheMiss,
            4 => DropoutReason::PluginOverrun,
            _ => DropoutReason::Unflagged,
        }
    }

    pub fn as_str(self) -> (r: &'static str)
        ensures
            r@ == self.name(),
    {
        match self {
            DropoutReason::Unflagged => "none",
            DropoutReason::CallbackOverrun => "callback-overrun",
            DropoutReason::GraphSwapLate => "graph-swap-late",
            DropoutReason::DiskCacheMiss => "disk-cache-miss",
            DropoutReason::PluginOverrun => "plugin-overrun",
        }
    }
}

/// Snapshot of the dropout counters.
#[derive(Clone, Copy, Debug, PartialEq, Eq, Structural)]
pub struct DropoutDiagnostics {
    pub protection_mode: DropoutProtectionMode,
    pub dropout_count: u64,
    pub last_reason: DropoutReason,
    pub callback_last_us: u32,
    pub callback_max_us: u32,
    pub callback_deadline_us: u32,
    pub slow_callback_count: u64,
}

// ── Shared state ────────────────────────────────────────────────────────────

/// What the control thread and the audio callback both see.
#[derive(Debug)]
pub struct SharedState {
    // Meters, as bit patterns.
    pub peak_l: u32,
    pub peak_r: u32,
    pub rms_l: u32,
    pub rms_r: u32,
    // Controls.
    pub test_tone_enabled: bool,
    /// Frequency of the test tone in hertz, as a bit pattern.
    pub test_tone_freq: u32,
    /// Linear master volume, as a bit pattern.
    pub master_volume: u32,
    pub playing: bool,
    /// An [`AudioEngineState`] as a number.
    pub engine_state: u8,
    /// Samples elapsed from the start.
    pub position_samples: u64,
    pub sample_rate: u32,
    // Transport clock.
    /// Beats per minute, as the bit pattern of an `f64`.
    pub bpm_bits: u64,
    pub time_sig_num: u32,
    pub time_sig_den: u32,
    pub loop_enabled: bool,
    pub loop_start_samples: u64,
    pub loop_end_samples: u64,
    pub metronome_enabled: bool,
    // Recording and live input.
    pub recording_active: bool,
    pub recording_monitor_mix: bool,
    pub recording_monitor_l: u32,
    pub recording_monitor_r: u32,
    pub live_input_active: bool,
    pub live_input_l: u32,
    pub live_input_r: u32,
    pub live_input_peak_l: u32,
    pub live_input_peak_r: u32,
    // Monitoring.
    /// The two source channels of the monitor path, packed so that they change
    /// together: the left one in the low half.
    pub monitor_src_pair: u64,
    /// Whether input and output run on one device clock.
    pub monitor_shared_clock: bool,
    /// Largest input peak over all capture channels since the last poll.
    pub session_input_peak: u32,
    pub input_ring: InputRing,
    /// Whether any track monitors its input.
    pub monitor_enabled_any: bool,
    /// Linear gain of the input bus, as a bit pattern.
    pub monitor_gain: u32,
    pub input_bus_peak_l: u32,
    pub input_bus_peak_r: u32,
    // Counters.
    pub input_cb_count: u64,
    pub output_cb_count: u64,
    pub input_frames_received: u64,
    pub monitor_frames_consumed: u64,
    pub monitor_ring_underruns: u64,
    pub monitor_ring_overruns: u64,
    pub record_ring_overruns: u64,
    pub output_xruns: u64,
    pub record_peak: u32,
    /// Measured output latency in seconds, as a bit pattern.
    pub output_latency_secs: u32,
    /// Measured capture latency of the take in seconds, as a bit pattern.
    pub record_input_latency_secs: u32,
    pub monitor_output_peak: u32,
    // Waveform preview of the running take.
    pub preview_ring: PreviewPeakRing,
    pub recording_preview_active: bool,
    pub recording_preview_id: u64,
    pub recording_preview_start_sample: u64,
    pub recording_preview_sample_rate: u32,
    pub recording_preview_channels: u32,
    pub recording_preview_peaks_per_sec: u32,
    // Callback timing, in microseconds.
    pub last_callback_us: u32,
    pub max_callback_us: u32,
    pub slow_callback_count: u64,
    // Dropout protection.
    /// A [`DropoutProtectionMode`] as a number.
    pub dropout_protection_mode: u8,
    pub dropout_count: u64,
    /// A [`DropoutReason`] as a number.
    pub dropout_last_reason: u8,
    pub callback_deadline_us: u32,
    // Device.
    pub glitch_count: u64,
    pub mmcss_active: bool,
    /// Set when the device disappears mid-stream.
    pub device_lost: bool,
    /// Whether plug-in delays are compensated.
    pub pdc_enabled: bool,
    /// Generation of the latency graph.
    pub latency_graph_version: u64,
}

/// One more on a 64-bit counter that goes round.
pub open spec fn counted(n: u64) -> u64 {
    if n == u64::MAX {
        0
    } else {
        (n + 1) as u64
    }
}

/// One more on a 64-bit counter that goes round.
pub(crate) fn count(n: u64) -> (r: u64)
    ensures
        r == counted(n),
{
    if n == u64::MAX {
        0
    } else {
        n + 1
    }
}

/// A number held at one or more.
pub open spec fn at_least_one(n: u32) -> u32 {
    if n == 0 {
        1
    } else {
        n
    }
}

/// A number held at one or more.
pub(crate) fn one_or_more(n: u32) -> (r: u32)
    ensures
        r == at_least_one(n),
{
    if n == 0 {
        1
    } else {
        n
    }
}

/// Time that a block of `frames` frames takes to play, in microseconds, held
/// at the largest 32-bit number; zero at an unknown rate.
pub open spec fn block_deadline_us(frames: nat, sample_rate: u32) -> u32 {
    if sample_rate == 0 {
        0
    } else {
        let us = frames * 1_000_000 / sample_rate as nat;
        if us > u32::MAX {
            u32::MAX
        } else {
            us as u32
        }
    }
}

/// From how many microseconds on a block counts as a dropout risk.
pub open spec fn dropout_threshold_us(deadline: u32, mode: DropoutProtectionMode) -> int {
    match mode {
        DropoutProtectionMode::Off => deadline as int,
        DropoutProtectionMode::Light => deadline * 90 / 100,
        DropoutProtectionMode::Medium => deadline * 80 / 100,
        DropoutProtectionMode::High => deadline * 70 / 100,
    }
}

/// Whether a block that took `elapsed` microseconds is counted.
pub open spec fn dropout_flagged(elapsed: u32, deadline: u32, mode: DropoutProtectionMode) -> bool {
    deadline > 0 && elapsed >= dropout_threshold_us(deadline, mode)
}

/// The two channels that a route of an input feeds: its first and its second,
/// or the first on both sides.
pub open spec fn route_pair(channels: Seq<u32>) -> Option<(u32, u32)> {
    if channels.len() == 0 {
        None
    } else if channels.len() == 1 {
        Some((channels[0], channels[0]))
    } else {
        Some((channels[0], channels[1]))
    }
}

/// The peak of a channel, zero for one that the device does not have.
pub open spec fn peak_of(peaks: Seq<u32>, channel: u32) -> u32 {
    if channel < peaks.len() {
        peaks[channel as int]
    } else {
        0
    }
}

/// The two channels that a route of an input feeds.
pub fn monitor_channel_pair(channels: &[u32]) -> (r: Option<(u32, u32)>)
    ensures
        r == route_pair(channels@),
{
    if channels.len() == 0 {
        None
    } else if channels.len() == 1 {
        Some((channels[0], channels[0]))
    } else {
        Some((channels[0], channels[1]))
    }
}

/// Two channels in one word, the left one in the low half.
pub open spec fn packed_pair(pair: (u32, u32)) -> u64 {
    (pair.0 + pair.1 * 0x1_0000_0000) as u64
}

/// Pack two channels into one word, the left one in the low half.
pub fn pack_monitor_source_pair(left: u32, right: u32) -> (r: u64)
    ensures
        r == packed_pair((left, right)),
{
    left as u64 + (right as u64) * 0x1_0000_0000
}

/// The two channels of a packed word.
pub open spec fn unpacked_pair(word: u64) -> (u32, u32) {
    ((word % 0x1_0000_0000) as u32, (word / 0x1_0000_0000) as u32)
}

/// The two channels of a packed word.
pub fn unpack_monitor_source_pair(pair: u64) -> (r: (u32, u32))
    ensures
        r == unpacked_pair(pair),
{
    ((pair % 0x1_0000_0000) as u32, (pair / 0x1_0000_0000) as u32)
}

/// The peaks that a route of an input shows, `None` for an empty route.
pub fn routed_input_peaks(input_peaks: &[u32], channels: &[u32]) -> (r: Option<(u32, u32)>)
    ensures
        r == match route_pair(channels@) {
            Some(pair) => Some((peak_of(input_peaks@, pair.0), peak_of(input_peaks@, pair.1))),
            None => None,
        },
{
    match monitor_channel_pair(channels) {
        Some((left, right)) => {
            let l: u32 = if (left as usize) < input_peaks.len() {
                input_peaks[left as usize]
            } else {
                0
            };
            let r: u32 = if (right as usize) < input_peaks.len() {
                input_peaks[right as usize]
            } else {
                0
            };
            Some((l, r))
        },
        None => None,
    }
}

/// Whether a peak at or above zero is at most the number that `held` stands
/// for.
pub open spec fn at_most_held(peak: u32, held: u32) -> bool {
    if held <= 0x7f80_0000 {
        peak <= held
    } else {
        held == 0x8000_0000 && peak == 0
    }
}

/// A held peak after one more value: the larger of the two, a value below zero
/// or none at all counting as zero.
pub open spec fn held_after(held: u32, value: u32) -> u32 {
    let peak: u32 = if value <= 0x7f80_0000 {
        value
    } else {
        0
    };
    if at_most_held(peak, held) {
        held
    } else {
        peak
    }
}

/// Raise a held peak to a value, if the value is larger.
pub fn atomic_max_f32_bits(target: &mut u32, value: u32)
    ensures
        *final(target) == held_after(*old(target), value),
{
    let peak: u32 = if value <= 0x7f80_0000 {
        value
    } else {
        0
    };
    let held: u32 = *target;
    let keep: bool = if held <= 0x7f80_0000 {
        peak <= held
    } else {
        held == 0x8000_0000 && peak == 0
    };
    if !keep {
        *target = peak;
    }
}

impl Default for SharedState {
    fn default() -> (r: Self)
        ensures
            r.well_formed(),
            r.initial(),
    {
        SharedState {
            peak_l: 0,
            peak_r: 0,
            rms_l: 0,
            rms_r: 0,
            test_tone_enabled: false,
            test_tone_freq: 0x43dc_0000,
            master_volume: 0x3f80_0000,
            playing: false,
            engine_state: 1,
            position_samples: 0,
            sample_rate: 44100,
            bpm_bits: 0x405e_0000_0000_0000,
            time_sig_num: 4,
            time_sig_den: 4,
            loop_enabled: false,
            loop_start_samples: 0,
            loop_end_samples: 0,
            metronome_enabled: false,
            recording_active: false,
            recording_monitor_mix: false,
            recording_monitor_l: 0,
            recording_monitor_r: 0,
            live_input_active: false,
            live_input_l: 0,
            live_input_r: 0,
            live_input_peak_l: 0,
            live_input_peak_r: 0,
            monitor_src_pair: 0x1_0000_0000,
            monitor_shared_clock: false,
            session_input_peak: 0,
            input_ring: InputRing::default(),
            monitor_enabled_any: false,
            monitor_gain: 0x3f80_0000,
            input_bus_peak_l: 0,
            input_bus_peak_r: 0,
            input_cb_count: 0,
            output_cb_count: 0,
            input_frames_received: 0,
            monitor_frames_consumed: 0,
            monitor_ring_underruns: 0,
            monitor_ring_overruns: 0,
            record_ring_overruns: 0,
            output_xruns: 0,
            record_peak: 0,
            output_latency_secs: 0,
            record_input_latency_secs: 0,
            monitor_output_peak: 0,
            preview_ring: PreviewPeakRing::default(),
            recording_preview_active: false,
            recording_preview_id: 0,
            recording_preview_start_sample: 0,
            recording_preview_sample_rate: 0,
            recording_preview_channels: 0,
            recording_preview_peaks_per_sec: 0,
            last_callback_us: 0,
            max_callback_us: 0,
            slow_callback_count: 0,
            dropout_protection_mode: 2,
            dropout_count: 0,
            dropout_last_reason: 0,
            callback_deadline_us: 0,
            glitch_count: 0,
            mmcss_active: false,
            device_lost: false,
            pdc_enabled: true,
            latency_graph_version: 1,
        }
    }
}

impl SharedState {
    /// The rings hold what they have room for.
    pub open spec fn well_formed(self) -> bool {
        &&& self.input_ring.well_formed()
        &&& self.preview_ring.well_formed()
    }

    /// The state that an engine starts with.
    pub open spec fn initial(self) -> bool {
        &&& self.input_ring@ == input_ring::empty_input_ring()
        &&& self.preview_ring@.head == 0
        &&& self.peak_l == 0
        &&& self.peak_r == 0
        &&& self.rms_l == 0
        &&& self.rms_r == 0
        &&& self.test_tone_enabled == false
        &&& self.test_tone_freq == 0x43dc_0000
        &&& self.master_volume == 0x3f80_0000
        &&& self.playing == false
        &&& self.engine_state == 1
        &&& self.position_samples == 0
        &&& self.sample_rate == 44100
        &&& self.bpm_bits == 0x405e_0000_0000_0000
        &&& self.time_sig_num == 4
        &&& self.time_sig_den == 4
        &&& self.loop_enabled == false
        &&& self.loop_start_samples == 0
        &&& self.loop_end_samples == 0
        &&& self.metronome_enabled == false
        &&& self.recording_active == false
        &&& self.recording_monitor_mix == false
        &&& self.recording_monitor_l == 0
        &&& self.recording_monitor_r == 0
        &&& self.live_input_active == false
        &&& self.live_input_l == 0
        &&& self.live_input_r == 0
        &&& self.live_input_peak_l == 0
        &&& self.live_input_peak_r == 0
        &&& self.monitor_src_pair == 0x1_0000_0000
        &&& self.monitor_shared_clock == false
        &&& self.session_input_peak == 0
        &&& self.monitor_enabled_any == false
        &&& self.monitor_gain == 0x3f80_0000
        &&& self.input_bus_peak_l == 0
        &&& self.input_bus_peak_r == 0
        &&& self.input_cb_count == 0
        &&& self.output_cb_count == 0
        &&& self.input_frames_received == 0
        &&& self.monitor_frames_consumed == 0
        &&& self.monitor_ring_underruns == 0
        &&& self.monitor_ring_overruns == 0
        &&& self.record_ring_overruns == 0
        &&& self.output_xruns == 0
        &&& self.record_peak == 0
        &&& self.output_latency_secs == 0
        &&& self.record_input_latency_secs == 0
        &&& self.monitor_output_peak == 0
        &&& self.recording_preview_active == false
        &&& self.recording_preview_id == 0
        &&& self.recording_preview_start_sample == 0
        &&& self.recording_preview_sample_rate == 0
        &&& self.recording_preview_channels == 0
        &&& self.recording_preview_peaks_per_sec == 0
        &&& self.last_callback_us == 0
        &&& self.max_callback_us == 0
        &&& self.slow_callback_count == 0
        &&& self.dropout_protection_mode == 2
        &&& self.dropout_count == 0
        &&& self.dropout_last_reason == 0
        &&& self.callback_deadline_us == 0
        &&& self.glitch_count == 0
        &&& self.mmcss_active == false
        &&& self.device_lost == false
        &&& self.pdc_enabled == true
        &&& self.latency_graph_version == 1
    }

    /// The two source channels of the monitor path.
    pub open spec fn monitor_pair(self) -> (int, int) {
        (
            self.monitor_src_pair as int % 0x1_0000_0000,
            self.monitor_src_pair as int / 0x1_0000_0000,
        )
    }

    /// Select the two source channels of the monitor path, both at once.
    pub fn set_monitor_source_pair(&mut self, left: u32, right: u32)
        ensures
            final(self).monitor_pair() == (left as int, right as int),
            *final(self) == (SharedState {
                monitor_src_pair: packed_pair((left, right)),
                ..*old(self)
            }),
    {
        self.monitor_src_pair = pack_monitor_source_pair(left, right);
    }

    /// The two source channels of the monitor path.
    pub fn monitor_source_pair(&self) -> (r: (u32, u32))
        ensures
            (r.0 as int, r.1 as int) == self.monitor_pair(),
    {
        unpack_monitor_source_pair(self.monitor_src_pair)
    }

    /// The loop that playback follows: none when looping is off or the loop is
    /// empty.
    pub open spec fn loop_in_force(self) -> Option<LoopBounds> {
        if self.loop_enabled && self.loop_start_samples < self.loop_end_samples {
            Some(LoopBounds { start: self.loop_start_samples, end: self.loop_end_samples })
        } else {
            None
        }
    }

    /// The dropout counters.
    pub fn dropout_diagnostics(&self) -> (r: DropoutDiagnostics)
        ensures
            r == (DropoutDiagnostics {
                protection_mode: DropoutProtectionMode::of_number(self.dropout_protection_mode),
                dropout_count: self.dropout_count,
                last_reason: DropoutReason::of_number(self.dropout_last_reason),
                callback_last_us: self.last_callback_us,
                callback_max_us: self.max_callback_us,
                callback_deadline_us: self.callback_deadline_us,
                slow_callback_count: self.slow_callback_count,
            }),
    {
        DropoutDiagnostics {
            protection_mode: DropoutProtectionMode::from_u8(self.dropout_protection_mode),
            dropout_count: self.dropout_count,
            last_reason: DropoutReason::from_u8(self.dropout_last_reason),
            callback_last_us: self.last_callback_us,
            callback_max_us: self.max_callback_us,
            callback_deadline_us: self.callback_deadline_us,
            slow_callback_count: self.slow_callback_count,
        }
    }

    /// The timing counters after a callback that took `elapsed` microseconds
    /// for `frames` frames.
    pub open spec fn timed(self, elapsed: u32, frames: nat, sample_rate: u32) -> SharedState {
        let deadline = block_deadline_us(frames, sample_rate);
        let flagged = dropout_flagged(
            elapsed,
            deadline,
            DropoutProtectionMode::of_number(self.dropout_protection_mode),
        );
        SharedState {
            last_callback_us: elapsed,
            max_callback_us: if elapsed > self.max_callback_us {
                elapsed
            } else {
                self.max_callback_us
            },
            callback_deadline_us: deadline,
            slow_callback_count: if elapsed >= 2_000 {
                counted(self.slow_callback_count)
            } else {
                self.slow_callback_count
            },
            dropout_count: if flagged {
                counted(self.dropout_count)
            } else {
                self.dropout_count
            },
            dropout_last_reason: if flagged {
                DropoutReason::CallbackOverrun.number()
            } else {
                self.dropout_last_reason
            },
            ..self
        }
    }
}

fn block_deadline(frames: usize, sample_rate: u32) -> (r: u32)
    requires
        frames * 1_000_000 <= u64::MAX,
    ensures
        r == block_deadline_us(frames as nat, sample_rate),
{
    if sample_rate == 0 {
        return 0;
    }
    let us: u64 = frames as u64 * 1_000_000 / sample_rate as u64;
    if us > 0xffff_ffff {
        0xffff_ffff
    } else {
        us as u32
    }
}

fn counts_as_dropout(elapsed: u32, deadline: u32, mode: DropoutProtectionMode) -> (r: bool)
    ensures
        r == dropout_flagged(elapsed, deadline, mode),
{
    if deadline == 0 {
        return false;
    }
    let (num, den): (u64, u64) = mode.dropout_threshold_ratio();
    let ghost d = deadline as int;
    proof {
        assert(d * num <= 0xffff_ffff * 100) by (nonlinear_arith)
            requires
                0 <= d <= 0xffff_ffff,
                num <= 100,
        ;
        assert(num == 100 ==> d * num == d * 100) by (nonlinear_arith);
        assert(num == 90 ==> d * num == d * 90) by (nonlinear_arith);
        assert(num == 80 ==> d * num == d * 80) by (nonlinear_arith);
        assert(num == 70 ==> d * num == d * 70) by (nonlinear_arith);
    }
    let threshold: u64 = deadline as u64 * num / den;
    elapsed as u64 >= threshold
}

/// Record how long a callback took, and count it as a dropout risk when it came
/// too near to its deadline for the protection mode.
pub fn record_output_callback_timing(
    shared: &mut SharedState,
    elapsed_us: u32,
    block_frames: usize,
    sample_rate: u32,
)
    requires
        block_frames * 1_000_000 <= u64::MAX,
    ensures
        *final(shared) == old(shared).timed(elapsed_us, block_frames as nat, sample_rate),
{
    let deadline: u32 = block_deadline(block_frames, sample_rate);
    let mode = DropoutProtectionMode::from_u8(shared.dropout_protection_mode);
    let flagged: bool = counts_as_dropout(elapsed_us, deadline, mode);
    let worst: u32 = if elapsed_us > shared.max_callback_us {
        elapsed_us
    } else {
        shared.max_callback_us
    };
    let slow: u64 = if elapsed_us >= 2_000 {
        count(shared.slow_callback_count)
    } else {
        shared.slow_callback_count
    };
    let dropouts: u64 = if flagged {
        count(shared.dropout_count)
    } else {
        shared.dropout_count
    };
    let reason: u8 = if flagged {
        DropoutReason::CallbackOverrun.as_u8()
    } else {
        shared.dropout_last_reason
    };
    shared.last_callback_us = elapsed_us;
    shared.max_callback_us = worst;
    shared.callback_deadline_us = deadline;
    shared.slow_callback_count = slow;
    shared.dropout_count = dropouts;
    shared.dropout_last_reason = reason;
}

/// Packing two channels and reading them back gives the same two channels, and
/// no two pairs share a word.
pub proof fn law_monitor_pair_reads_back(pair: (u32, u32), other: (u32, u32))
    ensures
        unpacked_pair(packed_pair(pair)) == pair,
        packed_pair(pair) == packed_pair(other) <==> pair == other,
{
}

/// The wider the margin, the sooner a block is counted.
pub proof fn law_wider_margin_counts_sooner(elapsed: u32, deadline: u32)
    ensures
        dropout_flagged(elapsed, deadline, DropoutProtectionMode::Off) ==> dropout_flagged(
            elapsed,
            deadline,
            DropoutProtectionMode::Light,
        ),
        dropout_flagged(elapsed, deadline, DropoutProtectionMode::Light) ==> dropout_flagged(
            elapsed,
            deadline,
            DropoutProtectionMode::Medium,
        ),
        dropout_flagged(elapsed, deadline, DropoutProtectionMode::Medium) ==> dropout_flagged(
            elapsed,
            deadline,
            DropoutProtectionMode::High,
        ),
{
}

/// A true overrun is counted in every mode, and with protection off nothing
/// else is.
pub proof fn law_overrun_is_always_counted(
    elapsed: u32,
    deadline: u32,
    mode: DropoutProtectionMode,
)
    requires
        deadline > 0,
    ensures
        elapsed >= deadline ==> dropout_flagged(elapsed, deadline, mode),
        dropout_flagged(elapsed, deadline, DropoutProtectionMode::Off) <==> elapsed >= deadline,
{
}

/// A held peak never falls, and is never below a value that went into it.
pub proof fn law_held_peak_is_an_upper_bound(held: u32, value: u32)
    requires
        held <= 0x7f80_0000,
    ensures
        held <= held_after(held, value) <= 0x7f80_0000,
        value <= 0x7f80_0000 ==> value <= held_after(held, value),
{
}

/// A state, a protection mode and a dropout's reason are shown by their names.
pub proof fn law_states_are_shown_by_name(
    state: AudioEngineState,
    mode: DropoutProtectionMode,
    reason: DropoutReason,
)
    ensures
        state is Running <==> state.name() == "Running"@,
        state is Paused <==> state.name() == "Paused"@,
        state is LoadingProject <==> state.name() == "LoadingProject"@,
        state is ClosingProject <==> state.name() == "ClosingProject"@,
        state is DeviceSwitching <==> state.name() == "DeviceSwitching"@,
        state is Suspended <==> state.name() == "Suspended"@,
        mode is Off <==> mode.name() == "Off"@,
        mode is Light <==> mode.name() == "Light"@,
        mode is Medium <==> mode.name() == "Medium"@,
        mode is High <==> mode.name() == "High"@,
        reason is Unflagged <==> reason.name() == "none"@,
        reason is CallbackOverrun <==> reason.name() == "callback-overrun"@,
        reason is GraphSwapLate <==> reason.name() == "graph-swap-late"@,
        reason is DiskCacheMiss <==> reason.name() == "disk-cache-miss"@,
        reason is PluginOverrun <==> reason.name() == "plugin-overrun"@,
{
    reveal_strlit("Running");
    reveal_strlit("Paused");
    reveal_strlit("LoadingProject");
    reveal_strlit("ClosingProject");
    reveal_strlit("DeviceSwitching");
    reveal_strlit("Suspended");
    assert("Running"@.len() == 7 && "Paused"@.len() == 6 && "LoadingProject"@.len() == 14
        && "ClosingProject"@.len() == 14 && "DeviceSwitching"@.len() == 15 && "Suspended"@.len()
        == 9);
    assert("LoadingProject"@[0] == 'L' && "ClosingProject"@[0] == 'C');
    reveal_strlit("Off");
    reveal_strlit("Light");
    reveal_strlit("Medium");
    reveal_strlit("High");
    assert("Off"@.len() == 3 && "Light"@.len() == 5 && "Medium"@.len() == 6 && "High"@.len() == 4);
    reveal_strlit("none");
    reveal_strlit("callback-overrun");
    reveal_strlit("graph-swap-late");
    reveal_strlit("disk-cache-miss");
    reveal_strlit("plugin-overrun");
    assert("none"@.len() == 4 && "callback-overrun"@.len() == 16 && "graph-swap-late"@.len() == 15
        && "disk-cache-miss"@.len() == 15 && "plugin-overrun"@.len() == 14);
    assert("graph-swap-late"@[0] == 'g' && "disk-cache-miss"@[0] == 'd');
}

/// A state that is stored as a number is read back as it was, and what is no
/// state is a running engine.
pub proof fn law_unknown_numbers_have_a_meaning(v: u8)
    ensures
        v > 5 ==> AudioEngineState::of_number(v) is Running,
        v > 3 ==> DropoutProtectionMode::of_number(v) is Medium,
        v > 4 ==> DropoutReason::of_number(v) is Unflagged,
        v <= 5 ==> AudioEngineState::of_number(v).number() == v,
        v <= 3 ==> DropoutProtectionMode::of_number(v).number() == v,
        v <= 4 ==> DropoutReason::of_number(v).number() == v,
{
}

/// Playback loops where the loop is switched on and has a length, and then
/// between its bounds.
pub proof fn law_loop_is_in_force_where_it_is_on(s: SharedState)
    ensures
        s.loop_in_force() is Some <==> s.loop_enabled && s.loop_start_samples
            < s.loop_end_samples,
        s.loop_in_force() matches Some(bounds) ==> bounds.start == s.loop_start_samples
            && bounds.end == s.loop_end_samples,
{
}

/// A counter goes up by one and only the highest goes back, and a number is held
/// at one by raising zero alone.
pub proof fn law_counters_and_floors(n: u64, m: u32)
    ensures
        n < u64::MAX ==> counted(n) == n + 1,
        counted(u64::MAX) == 0,
        m >= 1 ==> at_least_one(m) == m,
        at_least_one(0) == 1,
{
}

} // verus!
