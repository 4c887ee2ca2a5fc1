//! Rings between a network jam and the audio callback.
//!
//! Remote streams arrive in input slots, which the callback drains; local
//! sources leave through publish slots, which the callback fills. A slot with
//! nothing in it reads as silence: a jam never stalls the audio device.

use vstd::prelude::*;

use crate::text;
use crate::text::join;
use crate::text::starts_with;
use crate::text::str_eq;
use crate::text::strip_prefix;

pub mod bus;
pub mod input_slot;
pub mod publish_slot;
mod slot_keys;
pub mod slot_laws;

pub use bus::JamAudioBus;
pub use bus::JamBusModel;
pub use input_slot::target_frames;
pub use input_slot::JamInputModel;
pub use input_slot::JamInputSlot;
pub use input_slot::MixSource;
pub use publish_slot::JamPublishModel;
pub use publish_slot::JamPublishSlot;

verus! {

/// Ring capacity of a slot, in frames.
pub const CAPACITY_FRAMES: usize = 16384;

/// How many remote streams can feed tracks at once.
pub const MAX_JAM_INPUT_SLOTS: usize = 32;

/// How many stereo sources can be published at once.
pub const MAX_JAM_PUBLISH_SLOTS: usize = 8;

/// Widest layout that the multitrack publish slot can carry, in channels.
pub const MAX_MULTITRACK_CHANNELS: usize = 16;

/// How many track pairs the multitrack slot carries.
pub const MAX_MULTITRACK_PAIRS: usize = 8;

/// Index of the multitrack publish slot, after the stereo ones.
pub const MULTITRACK_PUBLISH_SLOT: usize = 8;

/// All publish slots, the stereo ones and the wide one.
pub const TOTAL_JAM_PUBLISH_SLOTS: usize = 9;

/// The pair assignment for "nobody fills this pair".
pub const NO_JAM_PAIR: u32 = 0xffff_ffff;

/// Port index of the master tap's left channel on the send device.
pub const JAM_SEND_PORT_MASTER: u32 = 0;

/// Port index of the live-input tap's left channel on the send device.
pub const JAM_SEND_PORT_LIVE_INPUT: u32 = 2;

/// Port index of the monitor tap's left channel on the send device.
pub const JAM_SEND_PORT_MONITOR: u32 = 4;

/// Ports on the send device: a stereo pair for each tap.
pub const JAM_SEND_PORTS: u32 = 6;

/// The prefix that marks a device id as a jam stream.
pub const JAM_DEVICE_PREFIX: &'static str = "jam:";

/// Publish key of the master bus, the mix before the control room.
pub const PUBLISH_KEY_MASTER: &'static str = "master";

/// Publish key of the live hardware input pair.
pub const PUBLISH_KEY_LIVE_INPUT: &'static str = "live-input";

/// Publish key of the control room's output.
pub const PUBLISH_KEY_MONITOR: &'static str = "monitor";

/// Publish key of the multitrack stream.
pub const PUBLISH_KEY_MULTITRACK: &'static str = "multitrack";

/// Device id of the jam's output ports. It does not carry the stream prefix.
pub const JAM_SEND_DEVICE_ID: &'static str = "jam-send";

// ── Device ids and publish keys ─────────────────────────────────────────────

/// The device id of one remote stream.
pub fn jam_device_id(stream_id: &str) -> (r: String)
    ensures
        r@ == JAM_DEVICE_PREFIX@ + stream_id@,
{
    join(JAM_DEVICE_PREFIX, stream_id)
}

/// Whether a device id names the jam's output ports.
pub fn is_jam_send_device(device_id: &str) -> (r: bool)
    ensures
        r == (device_id@ == JAM_SEND_DEVICE_ID@),
{
    str_eq(device_id, JAM_SEND_DEVICE_ID)
}

/// Publish key of one track or bus.
pub fn publish_key_track(track_id: &str) -> (r: String)
    ensures
        r@ == "track:"@ + track_id@,
{
    join("track:", track_id)
}

/// Publish key of a hardware input, named by its connection.
pub fn publish_key_hardware_input(connection_id: &str) -> (r: String)
    ensures
        r@ == "input:"@ + connection_id@,
{
    join("input:", connection_id)
}

/// The stream id inside a jam device id, `None` for any other device.
pub fn jam_stream_id(device_id: &str) -> (r: Option<&str>)
    ensures
        r is Some <==> text::has_prefix(device_id@, JAM_DEVICE_PREFIX@),
        r matches Some(id) ==> id@ == text::after_prefix(device_id@, JAM_DEVICE_PREFIX@),
{
    strip_prefix(device_id, JAM_DEVICE_PREFIX)
}

/// Whether a device id names a jam stream.
pub fn is_jam_device(device_id: &str) -> (r: bool)
    ensures
        r == text::has_prefix(device_id@, JAM_DEVICE_PREFIX@),
{
    starts_with(device_id, JAM_DEVICE_PREFIX)
}

/// The device id of a stream names that stream.
pub proof fn law_jam_device_id_names_its_stream(stream_id: Seq<char>)
    ensures
        text::has_prefix(JAM_DEVICE_PREFIX@ + stream_id, JAM_DEVICE_PREFIX@),
        text::after_prefix(JAM_DEVICE_PREFIX@ + stream_id, JAM_DEVICE_PREFIX@) == stream_id,
{
    text::law_prefix_splits(JAM_DEVICE_PREFIX@, stream_id);
}

/// The jam's output device is never mistaken for a remote stream.
pub proof fn law_jam_send_device_is_no_stream()
    ensures
        !text::has_prefix(JAM_SEND_DEVICE_ID@, JAM_DEVICE_PREFIX@),
{
    reveal_strlit("jam-send");
    reveal_strlit("jam:");
    let head = "jam-send"@.subrange(0, 4);
    assert(head[3] == '-');
    assert("jam:"@[3] == ':');
}

// ── Channel modes ───────────────────────────────────────────────────────────

/// How a stream's two channels reach a track.
#[derive(Clone, Copy, Debug, PartialEq, Eq, Structural)]
pub enum JamChannelMode {
    /// Channel 0 to the left, channel 1 to the right.
    Stereo,
    /// Channel 1 to the left, channel 0 to the right.
    StereoSwapped,
    /// Both sides from channel 0.
    Left,
    /// Both sides from channel 1.
    Right,
    /// Both sides from the halved sum.
    Mono,
}

impl JamChannelMode {
    /// The mode that the bound channel indices ask for.
    pub open spec fn of_channels(channels: Seq<u32>) -> JamChannelMode {
        if channels.len() == 0 {
            JamChannelMode::Mono
        } else if channels.len() == 1 {
            if channels[0] == 0 {
                JamChannelMode::Left
            } else if channels[0] == 1 {
                JamChannelMode::Right
            } else {
                JamChannelMode::Mono
            }
        } else if channels[0] == channels[1] {
            JamChannelMode::Mono
        } else if channels[0] > channels[1] {
            JamChannelMode::StereoSwapped
        } else {
            JamChannelMode::Stereo
        }
    }

    /// What each side takes of a source frame.
    pub open spec fn routed(self, left: u32, right: u32) -> (MixSource, MixSource) {
        match self {
            JamChannelMode::Stereo => (
                MixSource::Sample { bits: left },
                MixSource::Sample { bits: right },
            ),
            JamChannelMode::StereoSwapped => (
                MixSource::Sample { bits: right },
                MixSource::Sample { bits: left },
            ),
            JamChannelMode::Left => (
                MixSource::Sample { bits: left },
                MixSource::Sample { bits: left },
            ),
            JamChannelMode::Right => (
                MixSource::Sample { bits: right },
                MixSource::Sample { bits: right },
            ),
            JamChannelMode::Mono => (
                MixSource::HalfSum { left, right },
                MixSource::HalfSum { left, right },
            ),
        }
    }

    /// Resolve the mode from the channel indices that a route binds. A channel
    /// beyond the pair, or one named twice, folds.
    pub fn from_channels(channels: &[u32]) -> (r: Self)
        ensures
            r == JamChannelMode::of_channels(channels@),
    {
        if channels.len() == 0 {
            return JamChannelMode::Mono;
        }
        if channels.len() == 1 {
            return if channels[0] == 0 {
                JamChannelMode::Left
            } else if channels[0] == 1 {
                JamChannelMode::Right
            } else {
                JamChannelMode::Mono
            };
        }
        if channels[0] == channels[1] {
            JamChannelMode::Mono
        } else if channels[0] > channels[1] {
            JamChannelMode::StereoSwapped
        } else {
            JamChannelMode::Stereo
        }
    }

    /// What each side takes of a source frame.
    pub fn apply(self, left: u32, right: u32) -> (r: (MixSource, MixSource))
        ensures
            r == self.routed(left, right),
    {
        match self {
            JamChannelMode::Stereo => (
                MixSource::Sample { bits: left },
                MixSource::Sample { bits: right },
            ),
            JamChannelMode::StereoSwapped => (
                MixSource::Sample { bits: right },
                MixSource::Sample { bits: left },
            ),
            JamChannelMode::Left => (
                MixSource::Sample { bits: left },
                MixSource::Sample { bits: left },
            ),
            JamChannelMode::Right => (
                MixSource::Sample { bits: right },
                MixSource::Sample { bits: right },
            ),
            JamChannelMode::Mono => (
                MixSource::HalfSum { left, right },
                MixSource::HalfSum { left, right },
            ),
        }
    }
}

/// A count of events, which starts anew after its largest value.
pub open spec fn bumped(n: u64) -> u64 {
    if n == u64::MAX {
        0
    } else {
        (n + 1) as u64
    }
}

/// Count one more event.
pub(crate) fn bump(n: u64) -> (r: u64)
    ensures
        r == bumped(n),
{
    if n == 0xffff_ffff_ffff_ffff {
        0
    } else {
        n + 1
    }
}

/// A position after `n` more frames, held at the largest one.
pub open spec fn position_after(base: int, n: int) -> int {
    if base + n > i64::MAX {
        i64::MAX as int
    } else {
        base + n
    }
}

/// A position after `n` more frames, held at the largest one.
pub(crate) fn advance_position(base: i64, n: u64) -> (r: i64)
    requires
        n <= i64::MAX,
    ensures
        r == position_after(base as int, n as int),
{
    let sum: i128 = base as i128 + n as i128;
    if sum > 0x7fff_ffff_ffff_ffff {
        0x7fff_ffff_ffff_ffff
    } else {
        sum as i64
    }
}

} // verus!
