//! Live input: which tracks want it, which device and channels feed them, and
//! what the capture callback does with a block.

use vstd::prelude::*;

use crate::engine::command::TempoPoint;
use crate::engine::state;
use crate::engine::state::atomic_max_f32_bits;
use crate::engine::state::count;
use crate::engine::state::SharedState;
use crate::input_ring;
use crate::input_ring::InputRing;
use crate::ring;
use crate::ring::hold_peak;
use crate::text;
use crate::text::decimal_string;
use crate::text::is_blank;
use crate::text::join;
use crate::text::optional_eq;
use crate::text::str_eq;
use crate::text::trim;

verus! {

// ── Snapshots ───────────────────────────────────────────────────────────────

/// The hardware input that a track is routed from.
#[derive(Debug)]
pub struct TrackInputSource {
    /// The device, `None` for the preferred one.
    pub device_id: Option<String>,
    /// The device's channels, counted from zero; none means no route.
    pub channels: Vec<u32>,
}

/// What a project says of a track's input.
#[derive(Debug)]
pub struct TrackSnapshot {
    pub id: String,
    pub track_type: String,
    pub armed: bool,
    pub input_monitor: bool,
    pub input_source: TrackInputSource,
}

/// What the engine keeps of a loaded project.
#[derive(Debug)]
pub struct ProjectSnapshot {
    pub project_id: String,
    pub preferred_input_device: Option<String>,
    pub tracks: Vec<TrackSnapshot>,
    /// The media file of every clip that has one.
    pub media_paths: Vec<Option<String>>,
    /// Beats per minute, as the bit pattern of an `f64`.
    pub bpm: u64,
    pub tempo_points: Vec<TempoPoint>,
    pub time_signature: (u32, u32),
}

/// What an open ASIO session offers.
#[derive(Debug)]
pub struct AsioSessionCaps {
    pub driver: String,
    pub input_channels: u32,
    pub sample_rate: u32,
    pub buffer_size: u32,
    pub input_latency_samples: u32,
    pub output_latency_samples: u32,
}

impl TrackInputSource {
    /// Whether two tracks are routed from the same device and channels.
    pub open spec fn same_as(self, other: TrackInputSource) -> bool {
        text::optional(self.device_id) == text::optional(other.device_id) && self.channels@
            == other.channels@
    }
}

impl TrackSnapshot {
    /// Whether the track takes its signal from a hardware input.
    pub open spec fn routed(self) -> bool {
        self.track_type@ == "audio"@ && self.input_source.channels@.len() > 0
    }

    /// Whether the track's input is to be heard.
    pub open spec fn monitors(self) -> bool {
        self.routed() && self.input_monitor
    }

    /// Whether the track needs its input captured.
    pub open spec fn wants_input(self) -> bool {
        self.routed() && (self.armed || self.input_monitor)
    }

    fn is_routed(&self) -> (r: bool)
        ensures
            r == self.routed(),
    {
        str_eq(&self.track_type, "audio") && self.input_source.channels.len() > 0
    }
}

/// The first of the tracks from `from` on that monitors its input.
pub open spec fn first_monitored(tracks: Seq<TrackSnapshot>, from: int) -> Option<int>
    decreases tracks.len() - from,
{
    if from >= tracks.len() {
        None
    } else if tracks[from].monitors() {
        Some(from)
    } else {
        first_monitored(tracks, from + 1)
    }
}

/// The first of the tracks from `from` on that needs its input captured.
pub open spec fn first_wanting(tracks: Seq<TrackSnapshot>, from: int) -> Option<int>
    decreases tracks.len() - from,
{
    if from >= tracks.len() {
        None
    } else if tracks[from].wants_input() {
        Some(from)
    } else {
        first_wanting(tracks, from + 1)
    }
}

/// The first of the tracks from `from` on that monitors another input than
/// track `m`.
pub open spec fn first_conflicting(tracks: Seq<TrackSnapshot>, m: int, from: int) -> Option<int>
    decreases tracks.len() - from,
{
    if from >= tracks.len() {
        None
    } else if tracks[from].monitors() && !tracks[m].input_source.same_as(
        tracks[from].input_source,
    ) {
        Some(from)
    } else {
        first_conflicting(tracks, m, from + 1)
    }
}

/// Two tracks that monitor different inputs: the first that monitors, and the
/// first after it that monitors another input.
pub open spec fn monitor_conflict(tracks: Seq<TrackSnapshot>) -> Option<(int, int)> {
    match first_monitored(tracks, 0) {
        Some(m) => match first_conflicting(tracks, m, m + 1) {
            Some(j) => Some((m, j)),
            None => None,
        },
        None => None,
    }
}

/// What is said of two tracks that monitor different inputs.
pub open spec fn conflict_text(a: Seq<char>, b: Seq<char>) -> Seq<char> {
    "software monitoring routes conflict: track '"@ + a + "' and track '"@ + b
        + "' use different hardware inputs"@
}

fn same_channels(a: &Vec<u32>, b: &Vec<u32>) -> (r: bool)
    ensures
        r == (a@ == b@),
{
    if a.len() != b.len() {
        return false;
    }
    let mut i: usize = 0;
    while i < a.len()
        invariant
            i <= a@.len(),
            a@.len() == b@.len(),
            forall|j: int| 0 <= j < i ==> a@[j] == b@[j],
        decreases a@.len() - i,
    {
        if a[i] != b[i] {
            return false;
        }
        i = i + 1;
    }
    proof {
        assert(a@ =~= b@);
    }
    true
}

fn same_source(a: &TrackInputSource, b: &TrackInputSource) -> (r: bool)
    ensures
        r == a.same_as(*b),
{
    optional_eq(&a.device_id, &b.device_id) && same_channels(&a.channels, &b.channels)
}

/// The first track that monitors its input.
pub fn find_monitored(tracks: &Vec<TrackSnapshot>) -> (r: Option<usize>)
    ensures
        r is Some <==> first_monitored(tracks@, 0) is Some,
        r matches Some(i) ==> first_monitored(tracks@, 0) == Some(i as int) && i < tracks@.len()
            && tracks@[i as int].monitors(),
{
    let mut i: usize = 0;
    while i < tracks.len()
        invariant
            i <= tracks@.len(),
            first_monitored(tracks@, 0) == first_monitored(tracks@, i as int),
        decreases tracks@.len() - i,
    {
        if tracks[i].input_monitor && tracks[i].is_routed() {
            return Some(i);
        }
        i = i + 1;
    }
    None
}

/// The first track that needs its input captured.
pub fn find_wanting(tracks: &Vec<TrackSnapshot>) -> (r: Option<usize>)
    ensures
        r is Some <==> first_wanting(tracks@, 0) is Some,
        r matches Some(i) ==> first_wanting(tracks@, 0) == Some(i as int) && i < tracks@.len()
            && tracks@[i as int].wants_input(),
{
    let mut i: usize = 0;
    while i < tracks.len()
        invariant
            i <= tracks@.len(),
            first_wanting(tracks@, 0) == first_wanting(tracks@, i as int),
        decreases tracks@.len() - i,
    {
        if (tracks[i].armed || tracks[i].input_monitor) && tracks[i].is_routed() {
            return Some(i);
        }
        i = i + 1;
    }
    None
}

/// Two tracks that monitor different inputs, if there are any. The engine has
/// one monitor bus, so they cannot both be heard.
pub fn find_monitor_conflict(tracks: &Vec<TrackSnapshot>) -> (r: Option<(usize, usize)>)
    ensures
        r is Some <==> monitor_conflict(tracks@) is Some,
        r matches Some(pair) ==> monitor_conflict(tracks@) == Some((pair.0 as int, pair.1 as int))
            && pair.0 < tracks@.len() && pair.1 < tracks@.len(),
{
    let m: usize = match find_monitored(tracks) {
        Some(m) => m,
        None => {
            return None;
        },
    };
    proof {
        assert(m < tracks.len());
    }
    let mut j: usize = m + 1;
    while j < tracks.len()
        invariant
            m < tracks@.len(),
            m < j <= tracks@.len(),
            first_conflicting(tracks@, m as int, m + 1) == first_conflicting(
                tracks@,
                m as int,
                j as int,
            ),
            first_monitored(tracks@, 0) == Some(m as int),
        decreases tracks@.len() - j,
    {
        if tracks[j].input_monitor && tracks[j].is_routed() && !same_source(
            &tracks[m].input_source,
            &tracks[j].input_source,
        ) {
            return Some((m, j));
        }
        j = j + 1;
    }
    None
}

/// What is said of two tracks that monitor different inputs.
pub fn conflict_message(a: &str, b: &str) -> (r: String)
    ensures
        r@ == conflict_text(a@, b@),
{
    let head: String = join("software monitoring routes conflict: track '", a);
    let head: String = join(&head, "' and track '");
    let head: String = join(&head, b);
    join(&head, "' use different hardware inputs")
}

proof fn lemma_first_monitored(tracks: Seq<TrackSnapshot>, from: int)
    requires
        0 <= from,
    ensures
        match first_monitored(tracks, from) {
            Some(i) => from <= i < tracks.len() && tracks[i].monitors() && (forall|k: int|
                from <= k < i ==> !(#[trigger] tracks[k]).monitors()),
            None => forall|k: int| from <= k < tracks.len() ==> !(#[trigger] tracks[k]).monitors(),
        },
    decreases tracks.len() - from,
{
    if from < tracks.len() && !tracks[from].monitors() {
        lemma_first_monitored(tracks, from + 1);
    }
}

proof fn lemma_first_conflicting(tracks: Seq<TrackSnapshot>, m: int, from: int)
    requires
        0 <= from,
    ensures
        match first_conflicting(tracks, m, from) {
            Some(i) => from <= i < tracks.len() && tracks[i].monitors()
                && !tracks[m].input_source.same_as(tracks[i].input_source),
            None => forall|k: int|
                from <= k < tracks.len() && (#[trigger] tracks[k]).monitors()
                    ==> tracks[m].input_source.same_as(tracks[k].input_source),
        },
    decreases tracks.len() - from,
{
    if from < tracks.len() && !(tracks[from].monitors() && !tracks[m].input_source.same_as(
        tracks[from].input_source,
    )) {
        lemma_first_conflicting(tracks, m, from + 1);
    }
}

/// Without a conflict all monitored tracks hear the same input.
pub proof fn law_monitored_tracks_share_an_input(tracks: Seq<TrackSnapshot>, a: int, b: int)
    requires
        monitor_conflict(tracks) is None,
        0 <= a < tracks.len(),
        0 <= b < tracks.len(),
        tracks[a].monitors(),
        tracks[b].monitors(),
    ensures
        tracks[a].input_source.same_as(tracks[b].input_source),
{
    lemma_first_monitored(tracks, 0);
    let m = first_monitored(tracks, 0)->0;
    lemma_first_conflicting(tracks, m, m + 1);
    assert(tracks[m].input_source.same_as(tracks[a].input_source));
    assert(tracks[m].input_source.same_as(tracks[b].input_source));
}

/// A conflict is between two tracks that both monitor, and different inputs.
pub proof fn law_conflict_is_between_monitored_tracks(tracks: Seq<TrackSnapshot>)
    ensures
        monitor_conflict(tracks) matches Some(pair) ==> {
            &&& 0 <= pair.0 < pair.1 < tracks.len()
            &&& tracks[pair.0].monitors()
            &&& tracks[pair.1].monitors()
            &&& !tracks[pair.0].input_source.same_as(tracks[pair.1].input_source)
        },
{
    lemma_first_monitored(tracks, 0);
    if let Some(m) = first_monitored(tracks, 0) {
        lemma_first_conflicting(tracks, m, m + 1);
    }
}

// ── Device ──────────────────────────────────────────────────────────────────

/// The device that feeds a route: the route's own, else the preferred one,
/// else the system's default, which has no name. A blank name is none.
pub open spec fn capture_device(own: Option<String>, preferred: Option<String>) -> Option<
    Seq<char>,
> {
    match own {
        Some(d) => if text::blank(d@) {
            unblank(preferred)
        } else {
            Some(d@)
        },
        None => unblank(preferred),
    }
}

/// An optional name, a blank one taken for none.
pub open spec fn unblank(s: Option<String>) -> Option<Seq<char>> {
    match s {
        Some(d) => if text::blank(d@) {
            None
        } else {
            Some(d@)
        },
        None => None,
    }
}

fn non_blank(s: &Option<String>) -> (r: Option<String>)
    ensures
        text::optional(r) == unblank(*s),
{
    match s {
        Some(d) => if is_blank(d) {
            None
        } else {
            Some(d.clone())
        },
        None => None,
    }
}

/// The device that feeds a route.
pub fn choose_capture_device(own: &Option<String>, preferred: &Option<String>) -> (r: Option<
    String,
>)
    ensures
        text::optional(r) == capture_device(*own, *preferred),
{
    match non_blank(own) {
        Some(d) => Some(d),
        None => non_blank(preferred),
    }
}

// ── Route validation ────────────────────────────────────────────────────────

/// The first channel of a route that a device does not have.
pub open spec fn first_missing(channels: Seq<u32>, available: u32, from: int) -> Option<u32>
    decreases channels.len() - from,
{
    if from >= channels.len() {
        None
    } else if channels[from] >= available {
        Some(channels[from])
    } else {
        first_missing(channels, available, from + 1)
    }
}

/// One more than a channel, as it is counted for the user.
pub open spec fn counted_from_one(channel: u32) -> nat {
    if channel == u32::MAX {
        u32::MAX as nat
    } else {
        (channel + 1) as nat
    }
}

/// Why a route cannot be taken from an ASIO session; `None` where it can. A
/// route without channels always can.
pub open spec fn asio_refusal(
    track_id: Seq<char>,
    source: TrackInputSource,
    caps: AsioSessionCaps,
) -> Option<Seq<char>> {
    let wanted = match source.device_id {
        Some(d) => text::trimmed(d@),
        None => Seq::empty(),
    };
    if source.channels@.len() == 0 {
        None
    } else if caps.input_channels == 0 {
        Some(no_channels_text(caps.driver@))
    } else if wanted.len() > 0 && wanted != caps.driver@ {
        Some(
            "track '"@ + track_id + "' input device '"@ + wanted
                + "' is not the active ASIO driver '"@ + caps.driver@ + "'"@,
        )
    } else {
        match first_missing(source.channels@, caps.input_channels, 0) {
            Some(channel) => Some(
                "track '"@ + track_id + "' input channel "@ + text::decimal(
                    counted_from_one(channel),
                ) + " is unavailable on ASIO driver '"@ + caps.driver@ + "' ("@ + text::decimal(
                    caps.input_channels as nat,
                ) + " input channel(s))"@,
            ),
            None => None,
        }
    }
}

/// What is said of a driver without inputs.
pub open spec fn no_channels_text(driver: Seq<char>) -> Seq<char> {
    "ASIO driver '"@ + driver + "' has no usable input channels"@
}

/// What is said of a driver without inputs.
pub fn no_channels_message(driver: &str) -> (r: String)
    ensures
        r@ == no_channels_text(driver@),
{
    let head: String = join("ASIO driver '", driver);
    join(&head, "' has no usable input channels")
}

fn find_missing(channels: &Vec<u32>, available: u32) -> (r: Option<u32>)
    ensures
        r == first_missing(channels@, available, 0),
{
    let mut i: usize = 0;
    while i < channels.len()
        invariant
            i <= channels@.len(),
            first_missing(channels@, available, 0) == first_missing(
                channels@,
                available,
                i as int,
            ),
        decreases channels@.len() - i,
    {
        if channels[i] >= available {
            return Some(channels[i]);
        }
        i = i + 1;
    }
    None
}

/// Why a route cannot be taken from an ASIO session.
pub fn validate_asio_input_source(
    track_id: &str,
    source: &TrackInputSource,
    caps: &AsioSessionCaps,
) -> (r: Option<String>)
    ensures
        text::optional(r) == asio_refusal(track_id@, *source, *caps),
{
    if source.channels.len() == 0 {
        return None;
    }
    if caps.input_channels == 0 {
        return Some(no_channels_message(&caps.driver));
    }
    if let Some(d) = &source.device_id {
        let wanted: &str = trim(d);
        if wanted.unicode_len() > 0 && !str_eq(wanted, &caps.driver) {
            let head: String = join("track '", track_id);
            let head: String = join(&head, "' input device '");
            let head: String = join(&head, wanted);
            let head: String = join(&head, "' is not the active ASIO driver '");
            let head: String = join(&head, &caps.driver);
            return Some(join(&head, "'"));
        }
    }
    match find_missing(&source.channels, caps.input_channels) {
        Some(channel) => {
            let shown: u64 = if channel == 0xffff_ffff {
                0xffff_ffff
            } else {
                channel as u64 + 1
            };
            let head: String = join("track '", track_id);
            let head: String = join(&head, "' input channel ");
            let head: String = join(&head, &decimal_string(shown));
            let head: String = join(&head, " is unavailable on ASIO driver '");
            let head: String = join(&head, &caps.driver);
            let head: String = join(&head, "' (");
            let head: String = join(&head, &decimal_string(caps.input_channels as u64));
            Some(join(&head, " input channel(s))"))
        },
        None => None,
    }
}

/// A route that an ASIO session takes uses only channels that the session has.
pub proof fn law_accepted_route_exists(
    track_id: Seq<char>,
    source: TrackInputSource,
    caps: AsioSessionCaps,
    i: int,
)
    requires
        asio_refusal(track_id, source, caps) is None,
        0 <= i < source.channels@.len(),
    ensures
        source.channels@[i] < caps.input_channels,
{
    lemma_none_missing(source.channels@, caps.input_channels, 0, i);
}

proof fn lemma_none_missing(channels: Seq<u32>, available: u32, from: int, i: int)
    requires
        first_missing(channels, available, from) is None,
        from <= i < channels.len(),
    ensures
        channels[i] < available,
    decreases channels.len() - from,
{
    if from < i {
        lemma_none_missing(channels, available, from + 1, i);
    }
}

/// Why a track cannot be routed from these channels; `None` where it can.
pub open spec fn route_refusal(track_id: Seq<char>, channels: Seq<u32>) -> Option<Seq<char>> {
    if channels.len() > 2 {
        Some(
            "track '"@ + track_id + "' input route has "@ + text::decimal(channels.len())
                + " channels; only mono or stereo routes are supported"@,
        )
    } else if channels.len() == 2 && channels[0] == channels[1] {
        Some(
            "track '"@ + track_id + "' stereo input route uses channel "@ + text::decimal(
                counted_from_one(channels[0]),
            ) + " twice"@,
        )
    } else {
        None
    }
}

/// Why a track cannot be routed from these channels.
pub fn validate_route(track_id: &str, channels: &Vec<u32>) -> (r: Option<String>)
    ensures
        text::optional(r) == route_refusal(track_id@, channels@),
{
    if channels.len() > 2 {
        let head: String = join("track '", track_id);
        let head: String = join(&head, "' input route has ");
        let head: String = join(&head, &decimal_string(channels.len() as u64));
        return Some(join(&head, " channels; only mono or stereo routes are supported"));
    }
    if channels.len() == 2 && channels[0] == channels[1] {
        let shown: u64 = if channels[0] == 0xffff_ffff {
            0xffff_ffff
        } else {
            channels[0] as u64 + 1
        };
        let head: String = join("track '", track_id);
        let head: String = join(&head, "' stereo input route uses channel ");
        let head: String = join(&head, &decimal_string(shown));
        return Some(join(&head, " twice"));
    }
    None
}

// ── Capture callback ────────────────────────────────────────────────────────

/// A sample held between minus one and one.
pub open spec fn clamped(bits: u32) -> u32 {
    if 0x3f80_0000 < bits <= 0x7f80_0000 {
        0x3f80_0000
    } else if 0xbf80_0000 < bits <= 0xff80_0000 {
        0xbf80_0000
    } else {
        bits
    }
}

/// A sample held between minus one and one.
pub fn clamp_unit(bits: u32) -> (r: u32)
    ensures
        r == clamped(bits),
{
    if 0x3f80_0000 < bits && bits <= 0x7f80_0000 {
        0x3f80_0000
    } else if 0xbf80_0000 < bits && bits <= 0xff80_0000 {
        0xbf80_0000
    } else {
        bits
    }
}

/// How many frames a block of `len` samples starts, the last one perhaps cut
/// short.
pub open spec fn started_frames(len: int, channels: int) -> int {
    (len + channels - 1) / channels
}

/// Sample `channel` of frame `f`, if the block holds it.
pub open spec fn frame_sample(data: Seq<u32>, channels: int, f: int, channel: u32) -> Option<u32> {
    if channel < channels && f * channels + channel < data.len() {
        Some(data[f * channels + channel])
    } else {
        None
    }
}

/// The monitored pair of frame `f`: the chosen channels, the frame's first
/// sample for a left one that the device does not have, and the left one for
/// such a right one.
pub open spec fn monitored_frame(data: Seq<u32>, channels: int, f: int, pair: (int, int)) -> (
    u32,
    u32,
) {
    let l = clamped(
        match frame_sample(data, channels, f, pair.0 as u32) {
            Some(s) => s,
            None => data[f * channels],
        },
    );
    let r = clamped(
        match frame_sample(data, channels, f, pair.1 as u32) {
            Some(s) => s,
            None => l,
        },
    );
    (l, r)
}

/// The monitored pairs of the first `n` frames.
pub open spec fn monitored_frames(
    data: Seq<u32>,
    channels: int,
    pair: (int, int),
    n: nat,
) -> Seq<(u32, u32)> {
    Seq::new(n, |f: int| monitored_frame(data, channels, f, pair))
}

/// The left samples of some frames.
pub open spec fn lefts(frames: Seq<(u32, u32)>) -> Seq<u32> {
    frames.map_values(|p: (u32, u32)| p.0)
}

/// The right samples of some frames.
pub open spec fn rights(frames: Seq<(u32, u32)>) -> Seq<u32> {
    frames.map_values(|p: (u32, u32)| p.1)
}

/// `n` more on a 64-bit counter that goes round.
pub open spec fn counted_by(counter: u64, n: int) -> u64 {
    ((counter + n) % 0x1_0000_0000_0000_0000) as u64
}

/// The last pair of a block and its peaks.
struct PairsTaken {
    last_l: u32,
    last_r: u32,
    peak_l: u32,
    peak_r: u32,
}

fn write_pairs(input: &mut InputRing, data: &[u32], channels: usize, pair: (u32, u32)) -> (r:
    PairsTaken)
    requires
        old(input).well_formed(),
        channels > 0,
        data@.len() + channels <= usize::MAX,
    ensures
        ({
            let frames = monitored_frames(
                data@,
                channels as int,
                (pair.0 as int, pair.1 as int),
                started_frames(data@.len() as int, channels as int) as nat,
            );
            &&& final(input).well_formed()
            &&& final(input)@ == input_ring::after_frames(old(input)@, frames)
            &&& (r.last_l, r.last_r) == if frames.len() > 0 {
                frames.last()
            } else {
                (0u32, 0u32)
            }
            &&& r.peak_l == ring::peak_over(0, lefts(frames))
            &&& r.peak_r == ring::peak_over(0, rights(frames))
        }),
{
    let len: usize = data.len();
    let total: usize = (len + channels - 1) / channels;
    let mut f: usize = 0;
    let mut at: usize = 0;
    let mut last: (u32, u32) = (0, 0);
    let mut peak_l: u32 = 0;
    let mut peak_r: u32 = 0;
    let ghost spair = (pair.0 as int, pair.1 as int);
    let ghost before_all = input@;
    let ghost all = monitored_frames(data@, channels as int, spair, total as nat);
    proof {
        assert(lefts(all.take(0)) =~= Seq::empty());
        assert(rights(all.take(0)) =~= Seq::empty());
        assert(all.take(0) =~= Seq::empty());
    }
    while f < total
        invariant
            channels > 0,
            len == data@.len(),
            len + channels <= usize::MAX,
            total == (len + channels - 1) / channels as int,
            f <= total,
            f < total ==> at == f * channels,
            spair == (pair.0 as int, pair.1 as int),
            all == monitored_frames(data@, channels as int, spair, total as nat),
            input.well_formed(),
            input@ == input_ring::after_frames(before_all, all.take(f as int)),
            last == if f > 0 {
                all[f - 1]
            } else {
                (0u32, 0u32)
            },
            peak_l == ring::peak_over(0, lefts(all.take(f as int))),
            peak_r == ring::peak_over(0, rights(all.take(f as int))),
        decreases total - f,
    {
        proof {
            lemma_frame_starts_inside(len as int, channels as int, f as int);
        }
        let sides: (u32, u32) = pick_pair(data, channels, f, at, pair);
        input.write_stereo(sides.0, sides.1);
        peak_l = hold_peak(peak_l, sides.0);
        peak_r = hold_peak(peak_r, sides.1);
        last = sides;
        proof {
            let before = all.take(f as int);
            let after = all.take(f + 1);
            assert(after.drop_last() =~= before);
            assert(after.last() == sides);
            assert(lefts(after).drop_last() =~= lefts(before));
            assert(rights(after).drop_last() =~= rights(before));
            assert(lefts(after).last() == sides.0);
            assert(rights(after).last() == sides.1);
            assert((f + 1) * channels == f * channels + channels) by (nonlinear_arith);
        }
        f = f + 1;
        at = at + channels;
    }
    proof {
        assert(all.take(total as int) =~= all);
    }
    PairsTaken { last_l: last.0, last_r: last.1, peak_l, peak_r }
}

/// A block of captured samples: pick the monitored pair of every frame, hand it
/// to the output side, and keep the last pair and the peaks for the meters.
pub fn capture_block(shared: &mut SharedState, data: &[u32], channels: usize)
    requires
        old(shared).well_formed(),
        channels > 0,
        data@.len() + channels <= usize::MAX,
    ensures
        ({
            let frames = monitored_frames(
                data@,
                channels as int,
                old(shared).monitor_pair(),
                started_frames(data@.len() as int, channels as int) as nat,
            );
            &&& final(shared).well_formed()
            &&& final(shared).input_ring@ == input_ring::after_frames(
                old(shared).input_ring@,
                frames,
            )
            &&& *final(shared) == (SharedState {
                input_ring: final(shared).input_ring,
                input_cb_count: state::counted(old(shared).input_cb_count),
                input_frames_received: counted_by(
                    old(shared).input_frames_received,
                    data@.len() as int / channels as int,
                ),
                live_input_l: if frames.len() > 0 {
                    frames.last().0
                } else {
                    0
                },
                live_input_r: if frames.len() > 0 {
                    frames.last().1
                } else {
                    0
                },
                live_input_peak_l: state::held_after(
                    old(shared).live_input_peak_l,
                    ring::peak_over(0, lefts(frames)),
                ),
                live_input_peak_r: state::held_after(
                    old(shared).live_input_peak_r,
                    ring::peak_over(0, rights(frames)),
                ),
                live_input_active: true,
                ..*old(shared)
            })
        }),
{
    let pair: (u32, u32) = shared.monitor_source_pair();
    let whole: usize = data.len() / channels;
    let callbacks: u64 = count(shared.input_cb_count);
    let received: u64 = shared.input_frames_received.wrapping_add(whole as u64);
    let mut held_l: u32 = shared.live_input_peak_l;
    let mut held_r: u32 = shared.live_input_peak_r;
    let taken: PairsTaken = write_pairs(&mut shared.input_ring, data, channels, pair);
    atomic_max_f32_bits(&mut held_l, taken.peak_l);
    atomic_max_f32_bits(&mut held_r, taken.peak_r);
    shared.input_cb_count = callbacks;
    shared.input_frames_received = received;
    shared.live_input_l = taken.last_l;
    shared.live_input_r = taken.last_r;
    shared.live_input_peak_l = held_l;
    shared.live_input_peak_r = held_r;
    shared.live_input_active = true;
}

proof fn lemma_frame_starts_inside(len: int, channels: int, f: int)
    requires
        channels > 0,
        0 <= len,
        0 <= f < (len + channels - 1) / channels,
    ensures
        0 <= f * channels < len,
{
    let n = (len + channels - 1) / channels;
    assert(n * channels <= len + channels - 1) by (nonlinear_arith)
        requires
            channels > 0,
            n == (len + channels - 1) / channels,
    ;
    assert((f + 1) * channels <= n * channels) by (nonlinear_arith)
        requires
            f + 1 <= n,
            channels > 0,
    ;
    assert((f + 1) * channels == f * channels + channels) by (nonlinear_arith);
    assert(0 <= f * channels) by (nonlinear_arith)
        requires
            0 <= f,
            channels > 0,
    ;
}

/// The monitored pair of the frame that starts at `at`.
fn pick_pair(data: &[u32], channels: usize, f: usize, at: usize, pair: (u32, u32)) -> (r: (
    u32,
    u32,
))
    requires
        channels > 0,
        data@.len() + channels <= usize::MAX,
        at == f * channels,
        at < data@.len(),
    ensures
        r == monitored_frame(data@, channels as int, f as int, (pair.0 as int, pair.1 as int)),
{
    let l_ch: usize = pair.0 as usize;
    let r_ch: usize = pair.1 as usize;
    let l_raw: u32 = if l_ch < channels && at + l_ch < data.len() {
        data[at + l_ch]
    } else {
        data[at]
    };
    let l: u32 = clamp_unit(l_raw);
    let r_raw: u32 = if r_ch < channels && at + r_ch < data.len() {
        data[at + r_ch]
    } else {
        l
    };
    (l, clamp_unit(r_raw))
}

} // verus!
