//! Devices: which stream is opened, what is reported of it, and what a failed
//! switch falls back to.

use vstd::prelude::*;

use crate::error::SphereAudioError;
use crate::text;
use crate::text::copy_optional;
use crate::text::decimal_string;
use crate::text::join;
use crate::text::optional_eq;
use crate::text::str_eq;

verus! {

/// An audio backend.
#[derive(Clone, Copy, Debug, PartialEq, Eq, Structural)]
pub enum BackendKind {
    Auto,
    WasapiShared,
    WasapiExclusive,
    WdmKs,
    Asio,
    CoreAudio,
    Alsa,
    MmeFallback,
}

impl BackendKind {
    /// The token that a backend is logged under.
    pub open spec fn mode(self) -> Seq<char> {
        match self {
            BackendKind::Auto => "AUTO"@,
            BackendKind::WasapiShared => "WASAPI_SHARED"@,
            BackendKind::WasapiExclusive => "WASAPI_EXCLUSIVE"@,
            BackendKind::WdmKs => "WDM_KS"@,
            BackendKind::Asio => "ASIO"@,
            BackendKind::CoreAudio => "COREAUDIO"@,
            BackendKind::Alsa => "ALSA"@,
            BackendKind::MmeFallback => "MME"@,
        }
    }
}

/// The token that a backend is logged under.
pub fn sample_rate_mode_label(backend: &BackendKind) -> (r: &'static str)
    ensures
        r@ == backend.mode(),
{
    match backend {
        BackendKind::Auto => "AUTO",
        BackendKind::WasapiShared => "WASAPI_SHARED",
        BackendKind::WasapiExclusive => "WASAPI_EXCLUSIVE",
        BackendKind::WdmKs => "WDM_KS",
        BackendKind::Asio => "ASIO",
        BackendKind::CoreAudio => "COREAUDIO",
        BackendKind::Alsa => "ALSA",
        BackendKind::MmeFallback => "MME",
    }
}

// ── Sample rate ─────────────────────────────────────────────────────────────

/// Whether a stream runs at another rate than the one that was asked for.
pub open spec fn rates_differ(requested: u32, active: u32) -> bool {
    requested > 0 && active > 0 && requested != active
}

/// The requested and the active rate, when a rate was asked for and the stream
/// runs at another.
pub fn sample_rate_mismatch(requested: u32, active: u32) -> (r: Option<(u32, u32)>)
    ensures
        r == if rates_differ(requested, active) {
            Some((requested, active))
        } else {
            None
        },
{
    if requested > 0 && active > 0 && requested != active {
        Some((requested, active))
    } else {
        None
    }
}

/// What the user is told when exclusive mode fell back to the device's rate.
pub open spec fn exclusive_warning(requested: u32, active: u32) -> Seq<char> {
    "Exclusive mode could not open at "@ + text::decimal(requested as nat)
        + " Hz; the device is running at "@ + text::decimal(active as nat)
        + " Hz. Timing uses the active device rate."@
}

/// The warning that goes with the rate that a stream opened at. Other modes
/// resample, and a difference there is no error; exclusive mode had to fall
/// back.
pub fn log_sample_rate_decision(requested: u32, active: u32, backend: &BackendKind) -> (r: Option<
    String,
>)
    ensures
        r is Some <==> rates_differ(requested, active) && *backend == BackendKind::WasapiExclusive,
        r matches Some(w) ==> w@ == exclusive_warning(requested, active),
{
    match sample_rate_mismatch(requested, active) {
        Some((req, act)) => match backend {
            BackendKind::WasapiExclusive => {
                let head: String = join(
                    "Exclusive mode could not open at ",
                    &decimal_string(req as u64),
                );
                let head: String = join(&head, " Hz; the device is running at ");
                let head: String = join(&head, &decimal_string(act as u64));
                Some(join(&head, " Hz. Timing uses the active device rate."))
            },
            _ => None,
        },
        None => None,
    }
}

// ── Stream candidates ───────────────────────────────────────────────────────

/// The format that a stream is opened with.
#[derive(Clone, Copy, Debug, PartialEq, Eq, Structural)]
pub struct StreamFormat {
    pub channels: u16,
    pub sample_rate: u32,
    /// Frames in a block, where the device is held to a number.
    pub fixed_buffer: Option<u32>,
}

/// A format to try, and what it is called in messages.
#[derive(Clone, Copy, Debug, PartialEq, Eq, Structural)]
pub struct OutputStreamCandidate {
    pub config: StreamFormat,
    /// Whether the caller asked for it; the device's own format otherwise.
    pub requested: bool,
}

impl OutputStreamCandidate {
    /// What a candidate is called in messages.
    pub open spec fn name(self) -> Seq<char> {
        if self.requested {
            "requested"@
        } else {
            "default"@
        }
    }

    pub fn label(&self) -> (r: &'static str)
        ensures
            r@ == self.name(),
    {
        if self.requested {
            "requested"
        } else {
            "default"
        }
    }
}

/// The device's format with what was asked for put in.
pub open spec fn asked_for(
    default: StreamFormat,
    sample_rate: Option<u32>,
    buffer_size: Option<u32>,
) -> StreamFormat {
    StreamFormat {
        sample_rate: match sample_rate {
            Some(rate) => rate,
            None => default.sample_rate,
        },
        fixed_buffer: match buffer_size {
            Some(frames) => Some(frames),
            None => default.fixed_buffer,
        },
        ..default
    }
}

/// The formats to try on a device, in order: what was asked for, if anything
/// was, and the device's own.
pub fn output_stream_candidates(
    default: StreamFormat,
    sample_rate: Option<u32>,
    buffer_size: Option<u32>,
) -> (r: Vec<OutputStreamCandidate>)
    ensures
        r@ == if sample_rate is Some || buffer_size is Some {
            seq![
                OutputStreamCandidate {
                    config: asked_for(default, sample_rate, buffer_size),
                    requested: true,
                },
                OutputStreamCandidate { config: default, requested: false },
            ]
        } else {
            seq![OutputStreamCandidate { config: default, requested: false }]
        },
{
    let mut out: Vec<OutputStreamCandidate> = Vec::new();
    if sample_rate.is_some() || buffer_size.is_some() {
        let mut config = default;
        if let Some(rate) = sample_rate {
            config.sample_rate = rate;
        }
        if let Some(frames) = buffer_size {
            config.fixed_buffer = Some(frames);
        }
        out.push(OutputStreamCandidate { config, requested: true });
    }
    out.push(OutputStreamCandidate { config: default, requested: false });
    out
}

/// The block size that is reported: zero where the device chooses.
pub fn reported_buffer_size(config: &StreamFormat) -> (r: u32)
    ensures
        r == match config.fixed_buffer {
            Some(frames) => frames,
            None => 0,
        },
{
    match config.fixed_buffer {
        Some(frames) => frames,
        None => 0,
    }
}

/// Opening a device: the formats that are left to try, and why the last one
/// failed.
#[derive(Debug)]
pub struct DeviceOpening {
    pub candidates: Vec<OutputStreamCandidate>,
    pub next: usize,
    pub last_error: Option<String>,
}

impl DeviceOpening {
    /// The next format to try, or why none is left.
    pub fn next_candidate(&self) -> (r: Result<OutputStreamCandidate, SphereAudioError>)
        ensures
            self.next < self.candidates@.len() ==> r == Ok::<_, SphereAudioError>(
                self.candidates@[self.next as int],
            ),
            self.next >= self.candidates@.len() ==> (r matches Err(
                SphereAudioError::StreamOpenFailed(text),
            ) && text@ == match self.last_error {
                Some(e) => e@,
                None => "no stream config candidates available"@,
            }),
    {
        if self.next < self.candidates.len() {
            return Ok(self.candidates[self.next]);
        }
        let text: String = match &self.last_error {
            Some(e) => e.clone(),
            None => "no stream config candidates available".to_owned(),
        };
        Err(SphereAudioError::StreamOpenFailed(text))
    }

    /// Note that the current format could not be opened, and go on to the next.
    pub fn candidate_failed(&mut self, error: &str)
        requires
            old(self).next < old(self).candidates@.len(),
        ensures
            final(self).candidates@ == old(self).candidates@,
            final(self).next == old(self).next + 1,
            text::optional(final(self).last_error) == Some(
                old(self).candidates@[old(self).next as int].name() + " config failed: "@ + error@,
            ),
    {
        proof {
            assert(self.next < self.candidates.len());
        }
        let label: &'static str = self.candidates[self.next].label();
        let head: String = join(label, " config failed: ");
        self.last_error = Some(join(&head, error));
        self.next = self.next + 1;
    }
}

// ── Configuration ───────────────────────────────────────────────────────────

/// What a caller asks of a stream. An empty device name, a rate of zero and a
/// block size of zero mean the default.
#[derive(Debug)]
pub struct DauxConfig {
    pub backend_id: String,
    pub output_device_id: Option<String>,
    pub sample_rate: Option<u32>,
    pub buffer_size: Option<u32>,
    pub mmcss_priority: bool,
    pub safe_mode: bool,
}

/// What the open stream was asked for, defaults left out.
#[derive(Debug)]
pub struct DauxDeviceConfig {
    pub backend: BackendKind,
    /// The id of the backend.
    pub backend_id: String,
    pub output_device_id: Option<String>,
    pub sample_rate: Option<u32>,
    pub buffer_size: Option<u32>,
    pub mmcss_priority: bool,
    pub safe_mode: bool,
}

/// A device name with the empty one taken for none.
pub open spec fn named_device(id: Option<String>) -> Option<Seq<char>> {
    match id {
        Some(d) => if d@.len() == 0 {
            None
        } else {
            Some(d@)
        },
        None => None,
    }
}

/// A number with zero taken for none.
pub open spec fn positive(n: Option<u32>) -> Option<u32> {
    match n {
        Some(v) => if v > 0 {
            Some(v)
        } else {
            None
        },
        None => None,
    }
}

/// A device name with the empty one taken for none.
pub fn non_empty_device(id: &Option<String>) -> (r: Option<String>)
    ensures
        text::optional(r) == named_device(*id),
{
    match id {
        Some(d) => if d.unicode_len() == 0 {
            None
        } else {
            Some(d.clone())
        },
        None => None,
    }
}

/// A number with zero taken for none.
pub fn non_zero(n: Option<u32>) -> (r: Option<u32>)
    ensures
        r == positive(n),
{
    match n {
        Some(v) => if v > 0 {
            Some(v)
        } else {
            None
        },
        None => None,
    }
}

impl DauxDeviceConfig {
    /// Whether a config is one that was made from `asked` for `backend`.
    pub open spec fn made_from(self, asked: DauxConfig, backend: BackendKind, id: Seq<char>) -> bool {
        &&& self.backend == backend
        &&& self.backend_id@ == id
        &&& text::optional(self.output_device_id) == named_device(asked.output_device_id)
        &&& self.sample_rate == positive(asked.sample_rate)
        &&& self.buffer_size == positive(asked.buffer_size)
        &&& self.mmcss_priority == asked.mmcss_priority
        &&& self.safe_mode == asked.safe_mode
    }

    /// The config that a request turns into, on the backend that it came down
    /// to.
    pub fn normalized(asked: &DauxConfig, backend: BackendKind, backend_id: &str) -> (r: Self)
        ensures
            r.made_from(*asked, backend, backend_id@),
    {
        DauxDeviceConfig {
            backend,
            backend_id: backend_id.to_owned(),
            output_device_id: non_empty_device(&asked.output_device_id),
            sample_rate: non_zero(asked.sample_rate),
            buffer_size: non_zero(asked.buffer_size),
            mmcss_priority: asked.mmcss_priority,
            safe_mode: asked.safe_mode,
        }
    }

    /// Whether opening with `new` would shape the stream differently.
    pub open spec fn differs_from(self, new: DauxConfig) -> bool {
        ||| new.backend_id@ != self.backend_id@
        ||| named_device(new.output_device_id) != text::optional(self.output_device_id)
        ||| positive(new.sample_rate) != self.sample_rate
        ||| positive(new.buffer_size) != self.buffer_size
        ||| new.mmcss_priority != self.mmcss_priority
        ||| new.safe_mode != self.safe_mode
    }

    /// Whether opening with `new` would shape the stream differently.
    pub fn requires_restart(&self, new: &DauxConfig) -> (r: bool)
        ensures
            r == self.differs_from(*new),
    {
        !str_eq(&new.backend_id, &self.backend_id) || !optional_eq(
            &non_empty_device(&new.output_device_id),
            &self.output_device_id,
        ) || !same_number(non_zero(new.sample_rate), self.sample_rate) || !same_number(
            non_zero(new.buffer_size),
            self.buffer_size,
        ) || new.mmcss_priority != self.mmcss_priority || new.safe_mode != self.safe_mode
    }

    /// Whether a request asks for this config again.
    pub open spec fn asked_again_by(self, asked: DauxConfig) -> bool {
        &&& asked.backend_id@ == self.backend_id@
        &&& asked.output_device_id == self.output_device_id
        &&& asked.sample_rate == self.sample_rate
        &&& asked.buffer_size == self.buffer_size
        &&& asked.mmcss_priority == self.mmcss_priority
        &&& asked.safe_mode == self.safe_mode
    }

    /// The request that asks for this config again.
    pub fn to_request(&self) -> (r: DauxConfig)
        ensures
            self.asked_again_by(r),
    {
        DauxConfig {
            backend_id: self.backend_id.clone(),
            output_device_id: copy_optional(&self.output_device_id),
            sample_rate: self.sample_rate,
            buffer_size: self.buffer_size,
            mmcss_priority: self.mmcss_priority,
            safe_mode: self.safe_mode,
        }
    }
}

fn same_number(a: Option<u32>, b: Option<u32>) -> (r: bool)
    ensures
        r == (a == b),
{
    match (a, b) {
        (Some(x), Some(y)) => x == y,
        (None, None) => true,
        _ => false,
    }
}

/// Asking again for what a config was made from needs no restart.
pub proof fn law_same_request_needs_no_restart(
    config: DauxDeviceConfig,
    asked: DauxConfig,
    backend: BackendKind,
)
    requires
        config.made_from(asked, backend, asked.backend_id@),
    ensures
        !config.differs_from(asked),
{
}

/// The request that a config is recovered with makes the same config again.
pub proof fn law_recovery_asks_for_the_same(
    config: DauxDeviceConfig,
    asked: DauxConfig,
    again: DauxConfig,
    remade: DauxDeviceConfig,
)
    requires
        config.made_from(asked, config.backend, config.backend_id@),
        config.asked_again_by(again),
        remade.made_from(again, config.backend, again.backend_id@),
    ensures
        remade.backend == config.backend,
        remade.backend_id@ == config.backend_id@,
        text::optional(remade.output_device_id) == text::optional(config.output_device_id),
        remade.sample_rate == config.sample_rate,
        remade.buffer_size == config.buffer_size,
        remade.mmcss_priority == config.mmcss_priority,
        remade.safe_mode == config.safe_mode,
{
}

// ── Backend choice ──────────────────────────────────────────────────────────

/// What this build can open.
#[derive(Clone, Copy, Debug, PartialEq, Eq, Structural)]
pub struct Platform {
    pub windows: bool,
    /// Whether the ASIO backend is built in.
    pub asio: bool,
}

/// How a stream is opened.
#[derive(Clone, Copy, Debug, PartialEq, Eq, Structural)]
pub enum OpenPath {
    WasapiExclusive,
    WdmKs,
    AsioDuplex,
    /// The portable stream library.
    Portable,
}

/// How a backend is opened on a platform, `None` where it cannot be.
pub open spec fn path_of(backend: BackendKind, platform: Platform) -> Option<OpenPath> {
    match backend {
        BackendKind::WasapiExclusive => if platform.windows {
            Some(OpenPath::WasapiExclusive)
        } else {
            Some(OpenPath::Portable)
        },
        BackendKind::WdmKs => if platform.windows {
            Some(OpenPath::WdmKs)
        } else {
            None
        },
        BackendKind::Asio => if platform.windows && platform.asio {
            Some(OpenPath::AsioDuplex)
        } else {
            None
        },
        _ => Some(OpenPath::Portable),
    }
}

/// What is said of a backend that cannot be opened.
pub open spec fn unavailable_text(backend: BackendKind) -> Seq<char> {
    if backend == BackendKind::Asio {
        "this build does not include the DAUx ASIO backend"@
    } else {
        "DAUx WDM-KS is only available on Windows"@
    }
}

/// How a backend is opened on a platform.
pub fn open_path(backend: BackendKind, platform: Platform) -> (r: Result<
    OpenPath,
    SphereAudioError,
>)
    ensures
        path_of(backend, platform) matches Some(path) ==> r == Ok::<_, SphereAudioError>(path),
        path_of(backend, platform) is None ==> (r matches Err(
            SphereAudioError::BackendUnavailable(why),
        ) && why@ == unavailable_text(backend)),
{
    match backend {
        BackendKind::WasapiExclusive => if platform.windows {
            Ok(OpenPath::WasapiExclusive)
        } else {
            Ok(OpenPath::Portable)
        },
        BackendKind::WdmKs => if platform.windows {
            Ok(OpenPath::WdmKs)
        } else {
            Err(
                SphereAudioError::BackendUnavailable(
                    "DAUx WDM-KS is only available on Windows".to_owned(),
                ),
            )
        },
        BackendKind::Asio => if platform.windows && platform.asio {
            Ok(OpenPath::AsioDuplex)
        } else {
            Err(
                SphereAudioError::BackendUnavailable(
                    "this build does not include the DAUx ASIO backend".to_owned(),
                ),
            )
        },
        _ => Ok(OpenPath::Portable),
    }
}

// ── Failed switches ─────────────────────────────────────────────────────────

/// What is reported when a switch failed and the previous backend is back.
pub open spec fn reverted_text(backend: Seq<char>, error: Seq<char>) -> Seq<char> {
    backend + " backend switch failed: "@ + error + ". Reverted to previous backend."@
}

/// What is reported when a switch failed and the previous backend did not come
/// back.
pub open spec fn stranded_text(backend: Seq<char>, error: Seq<char>, restore: Seq<char>) -> Seq<
    char,
> {
    backend + " backend switch failed: "@ + error + ". Fallback also failed: "@ + restore
}

/// What is reported when a switch failed and the previous backend is back.
pub fn reverted_message(backend: &str, error: &str) -> (r: String)
    ensures
        r@ == reverted_text(backend@, error@),
{
    let head: String = join(backend, " backend switch failed: ");
    let head: String = join(&head, error);
    join(&head, ". Reverted to previous backend.")
}

/// What is reported when a switch failed and the previous backend did not come
/// back.
pub fn stranded_message(backend: &str, error: &str, restore: &str) -> (r: String)
    ensures
        r@ == stranded_text(backend@, error@, restore@),
{
    let head: String = join(backend, " backend switch failed: ");
    let head: String = join(&head, error);
    let head: String = join(&head, ". Fallback also failed: ");
    join(&head, restore)
}

// ── Status ──────────────────────────────────────────────────────────────────

/// What is known of the stream outside the callback.
#[derive(Debug)]
pub struct EngineStatus {
    pub running: bool,
    pub stream_open: bool,
    pub sample_rate: u32,
    pub buffer_size: u32,
    pub input_device: Option<String>,
    pub output_device: Option<String>,
    pub last_error: Option<String>,
    pub last_daux_error: Option<String>,
}

impl Default for EngineStatus {
    fn default() -> (r: Self)
        ensures
            r == (EngineStatus {
                running: false,
                stream_open: false,
                sample_rate: 0,
                buffer_size: 0,
                input_device: None,
                output_device: None,
                last_error: None,
                last_daux_error: None,
            }),
    {
        EngineStatus {
            running: false,
            stream_open: false,
            sample_rate: 0,
            buffer_size: 0,
            input_device: None,
            output_device: None,
            last_error: None,
            last_daux_error: None,
        }
    }
}

/// The lifecycle of the device as it is shown.
pub open spec fn device_state_text(device_lost: bool, stream_open: bool, playing: bool) -> Seq<
    char,
> {
    if device_lost {
        "DeviceLost"@
    } else if !stream_open {
        "Closed"@
    } else if playing {
        "Running"@
    } else {
        "Ready"@
    }
}

/// The lifecycle of the device as it is shown.
pub fn device_state(device_lost: bool, stream_open: bool, playing: bool) -> (r: &'static str)
    ensures
        r@ == device_state_text(device_lost, stream_open, playing),
{
    if device_lost {
        "DeviceLost"
    } else if !stream_open {
        "Closed"
    } else if playing {
        "Running"
    } else {
        "Ready"
    }
}

/// A backend's mode is shown by its name.
pub proof fn law_modes_are_shown_by_name(backend: BackendKind)
    ensures
        backend is Auto ==> backend.mode() == "AUTO"@,
        backend is WasapiShared ==> backend.mode() == "WASAPI_SHARED"@,
        backend is WasapiExclusive ==> backend.mode() == "WASAPI_EXCLUSIVE"@,
        backend is WdmKs ==> backend.mode() == "WDM_KS"@,
        backend is Asio ==> backend.mode() == "ASIO"@,
        backend is CoreAudio ==> backend.mode() == "COREAUDIO"@,
        backend is Alsa ==> backend.mode() == "ALSA"@,
        backend is MmeFallback ==> backend.mode() == "MME"@,
{
}

} // verus!
