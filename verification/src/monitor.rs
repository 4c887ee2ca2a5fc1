//! Control room: the monitoring path after the master bus.
//!
//! The master mix passes the monitor source router, a listen override, the
//! monitor inserts and the monitor control on its way to the selected hardware
//! output pair. It is a playback path only: export and recording render without
//! it. It replaces the samples of its output pair, so a hardware output never
//! carries both the raw and the monitored feed.

use vstd::prelude::*;

use crate::text;
use crate::text::decimal_string;
use crate::text::join;
use crate::text::str_eq;

verus! {

// ── Source ──────────────────────────────────────────────────────────────────

/// Where the control room takes its signal from when nothing is listened to.
/// The master bus is the default; a hardware input is an explicit choice.
#[derive(Debug, Clone, PartialEq, Eq)]
pub enum MonitorSource {
    /// The master bus, after its inserts and its fader.
    MasterBus,
    /// A group, aux or return bus, after its fader.
    Bus(String),
    /// A track after its inserts and before its fader.
    TrackPreFader(String),
    /// A track after its fader.
    TrackAfterFader(String),
    /// A hardware capture input.
    HardwareInput(String),
}

impl Default for MonitorSource {
    fn default() -> (r: Self)
        ensures
            r == MonitorSource::MasterBus,
    {
        MonitorSource::MasterBus
    }
}

/// What a source is: its tag and the id that it names.
pub struct SourceParts {
    pub tag: Seq<char>,
    pub id: Option<Seq<char>>,
}

/// Whether `tag` is that of a source which names an id.
pub open spec fn names_an_id(tag: Seq<char>) -> bool {
    tag == "bus"@ || tag == "track-pfl"@ || tag == "track-afl"@ || tag == "hardware-input"@
}

/// The parts of the source that a tag and an id stand for.
pub open spec fn read_parts(tag: Seq<char>, id: Option<Seq<char>>) -> SourceParts {
    if id is Some && names_an_id(tag) {
        SourceParts { tag, id }
    } else {
        SourceParts { tag: "master"@, id: None }
    }
}

impl MonitorSource {
    /// The parts that a source is saved as.
    pub open spec fn parts(self) -> SourceParts {
        match self {
            MonitorSource::MasterBus => SourceParts { tag: "master"@, id: None },
            MonitorSource::Bus(id) => SourceParts { tag: "bus"@, id: Some(id@) },
            MonitorSource::TrackPreFader(id) => SourceParts { tag: "track-pfl"@, id: Some(id@) },
            MonitorSource::TrackAfterFader(id) => SourceParts { tag: "track-afl"@, id: Some(id@) },
            MonitorSource::HardwareInput(id) => SourceParts {
                tag: "hardware-input"@,
                id: Some(id@),
            },
        }
    }

    /// Stable tag of the source.
    pub fn tag(&self) -> (r: &'static str)
        ensures
            r@ == self.parts().tag,
    {
        match self {
            MonitorSource::MasterBus => "master",
            MonitorSource::Bus(_) => "bus",
            MonitorSource::TrackPreFader(_) => "track-pfl",
            MonitorSource::TrackAfterFader(_) => "track-afl",
            MonitorSource::HardwareInput(_) => "hardware-input",
        }
    }

    /// The id that the source names, if it names one.
    pub fn target_id(&self) -> (r: Option<&str>)
        ensures
            r is Some <==> self.parts().id is Some,
            r matches Some(id) ==> self.parts().id == Some(id@),
    {
        match self {
            MonitorSource::MasterBus => None,
            MonitorSource::Bus(id) => Some(id.as_str()),
            MonitorSource::TrackPreFader(id) => Some(id.as_str()),
            MonitorSource::TrackAfterFader(id) => Some(id.as_str()),
            MonitorSource::HardwareInput(id) => Some(id.as_str()),
        }
    }

    /// The source with this tag and id. An unknown tag, or one whose id is
    /// missing, gives the master bus: monitoring goes on rather than silent.
    pub fn from_parts(tag: &str, id: Option<&str>) -> (r: Self)
        ensures
            r.parts() == read_parts(
                tag@,
                match id {
                    Some(id) => Some(id@),
                    None => None,
                },
            ),
    {
        proof {
            lemma_tags_differ();
        }
        match id {
            Some(id) => if str_eq(tag, "bus") {
                MonitorSource::Bus(id.to_owned())
            } else if str_eq(tag, "track-pfl") {
                MonitorSource::TrackPreFader(id.to_owned())
            } else if str_eq(tag, "track-afl") {
                MonitorSource::TrackAfterFader(id.to_owned())
            } else if str_eq(tag, "hardware-input") {
                MonitorSource::HardwareInput(id.to_owned())
            } else {
                MonitorSource::MasterBus
            },
            None => MonitorSource::MasterBus,
        }
    }

    /// Whether the source reads a capture device. None is opened for the
    /// control room unless this holds.
    pub fn needs_hardware_input(&self) -> (r: bool)
        ensures
            r == (*self is HardwareInput),
    {
        match self {
            MonitorSource::HardwareInput(_) => true,
            _ => false,
        }
    }
}

proof fn lemma_tags_differ()
    ensures
        "master"@ != "bus"@,
        "master"@ != "track-pfl"@,
        "master"@ != "track-afl"@,
        "master"@ != "hardware-input"@,
        "bus"@ != "track-pfl"@,
        "bus"@ != "track-afl"@,
        "bus"@ != "hardware-input"@,
        "track-pfl"@ != "track-afl"@,
        "track-pfl"@ != "hardware-input"@,
        "track-afl"@ != "hardware-input"@,
{
    reveal_strlit("master");
    reveal_strlit("bus");
    reveal_strlit("track-pfl");
    reveal_strlit("track-afl");
    reveal_strlit("hardware-input");
    assert("master"@.len() == 6);
    assert("bus"@.len() == 3);
    assert("track-pfl"@.len() == 9);
    assert("track-afl"@.len() == 9);
    assert("hardware-input"@.len() == 14);
    assert("track-pfl"@[6] == 'p');
    assert("track-afl"@[6] == 'a');
}

/// A source is read back from its parts, and known by them: two with the same
/// tag and id are of the same kind.
pub proof fn law_source_is_known_by_its_parts(a: MonitorSource, b: MonitorSource)
    ensures
        read_parts(a.parts().tag, a.parts().id) == a.parts(),
        a.parts() == b.parts() ==> {
            &&& a is MasterBus <==> b is MasterBus
            &&& a is Bus <==> b is Bus
            &&& a is TrackPreFader <==> b is TrackPreFader
            &&& a is TrackAfterFader <==> b is TrackAfterFader
            &&& a is HardwareInput <==> b is HardwareInput
        },
{
    lemma_tags_differ();
}

/// Which stage writes the hardware output. Exactly one does.
#[derive(Debug, Clone, Copy, PartialEq, Eq, Structural)]
pub enum HardwareOutputOwner {
    /// The master writes its own destination; the control room is out of the
    /// path.
    MasterDirect,
    /// The control room writes. The master's direct feed is silent on channels
    /// that the monitoring destination does not cover.
    MonitorControlRoom,
    /// Nothing resolves: the device buffer is silent.
    Nothing,
}

impl Default for HardwareOutputOwner {
    fn default() -> (r: Self)
        ensures
            r == HardwareOutputOwner::MonitorControlRoom,
    {
        HardwareOutputOwner::MonitorControlRoom
    }
}

// ── Listen ──────────────────────────────────────────────────────────────────

/// Listen state of a channel.
#[derive(Debug, Clone, Copy, PartialEq, Eq, Structural)]
pub enum ListenMode {
    Off,
    /// Tapped after the inserts and before the fader.
    Pfl,
    /// Tapped after the fader.
    Afl,
}

impl Default for ListenMode {
    fn default() -> (r: Self)
        ensures
            r == ListenMode::Off,
    {
        ListenMode::Off
    }
}

impl ListenMode {
    /// The tag that a mode is saved as.
    pub open spec fn tag_text(self) -> Seq<char> {
        match self {
            ListenMode::Off => "off"@,
            ListenMode::Pfl => "pfl"@,
            ListenMode::Afl => "afl"@,
        }
    }

    /// The mode that a tag stands for; an unknown tag listens to nothing.
    pub open spec fn of_tag(tag: Seq<char>) -> ListenMode {
        if tag == "pfl"@ {
            ListenMode::Pfl
        } else if tag == "afl"@ {
            ListenMode::Afl
        } else {
            ListenMode::Off
        }
    }

    pub fn tag(self) -> (r: &'static str)
        ensures
            r@ == self.tag_text(),
    {
        match self {
            ListenMode::Off => "off",
            ListenMode::Pfl => "pfl",
            ListenMode::Afl => "afl",
        }
    }

    pub fn from_tag(tag: &str) -> (r: Self)
        ensures
            r == ListenMode::of_tag(tag@),
    {
        if str_eq(tag, "pfl") {
            ListenMode::Pfl
        } else if str_eq(tag, "afl") {
            ListenMode::Afl
        } else {
            ListenMode::Off
        }
    }

    pub fn is_active(self) -> (r: bool)
        ensures
            r == (self != ListenMode::Off),
    {
        match self {
            ListenMode::Off => false,
            _ => true,
        }
    }
}

/// The tag of a listen mode stands for that mode.
pub proof fn law_listen_mode_survives_its_tag(mode: ListenMode)
    ensures
        ListenMode::of_tag(mode.tag_text()) == mode,
{
    reveal_strlit("off");
    reveal_strlit("pfl");
    reveal_strlit("afl");
    assert("off"@[0] == 'o');
    assert("pfl"@[0] == 'p');
    assert("afl"@[0] == 'a');
}

/// Which stage of a channel a tap reads.
#[derive(Debug, Clone, Copy, PartialEq, Eq, Structural)]
pub enum TapStage {
    /// After the inserts, before the fader.
    PreFader,
    /// After the fader.
    PostFader,
}

// ── Level ───────────────────────────────────────────────────────────────────

/// Level and shape of the monitor path. They affect monitoring only.
#[derive(Debug, Clone, Copy, PartialEq, Eq, Structural)]
pub struct MonitorControl {
    /// Linear gain, as a bit pattern.
    pub gain: u32,
    pub mute: bool,
    pub dim: bool,
    /// Fold both sides to their average.
    pub mono: bool,
}

impl Default for MonitorControl {
    fn default() -> (r: Self)
        ensures
            r == (MonitorControl { gain: 0x3f80_0000, mute: false, dim: false, mono: false }),
    {
        MonitorControl { gain: 0x3f80_0000, mute: false, dim: false, mono: false }
    }
}

/// The gain that the monitor path applies.
#[derive(Debug, Clone, Copy, PartialEq, Eq, Structural)]
pub enum MonitorGain {
    /// Nothing is heard.
    Silent,
    /// The gain with this bit pattern.
    Linear { bits: u32 },
    /// The gain with this bit pattern, lowered by the dim attenuation.
    Dimmed { bits: u32 },
}

/// What the monitor control does to the first `frames` frames of a block: fold
/// both sides to their average if `fold`, then apply the gain to both.
#[derive(Debug, Clone, Copy, PartialEq, Eq, Structural)]
pub struct MonitorStep {
    pub frames: usize,
    pub fold: bool,
    pub gain: MonitorGain,
}

/// A bit pattern held at or above zero: a negative number, or none at all, is
/// zero.
pub open spec fn at_least_zero(bits: u32) -> u32 {
    if bits <= 0x7f80_0000 {
        bits
    } else {
        0
    }
}

impl MonitorControl {
    /// The gain that the controls add up to: mute wins, dim lowers, and a gain
    /// below zero is zero.
    pub open spec fn gain_applied(self) -> MonitorGain {
        if self.mute {
            MonitorGain::Silent
        } else if self.dim {
            MonitorGain::Dimmed { bits: at_least_zero(self.gain) }
        } else {
            MonitorGain::Linear { bits: at_least_zero(self.gain) }
        }
    }

    /// The gain that the controls add up to.
    pub fn effective_gain(&self) -> (r: MonitorGain)
        ensures
            r == self.gain_applied(),
    {
        if self.mute {
            return MonitorGain::Silent;
        }
        let bits: u32 = if self.gain <= 0x7f80_0000 {
            self.gain
        } else {
            0
        };
        if self.dim {
            MonitorGain::Dimmed { bits }
        } else {
            MonitorGain::Linear { bits }
        }
    }
}

/// What the monitor control does to a stereo block whose sides hold `left` and
/// `right` samples: as many frames as both sides have, folded before they are
/// scaled, so the reference level does not move with the mono switch. An empty
/// block is left alone.
pub fn apply_monitor_control(left: usize, right: usize, control: &MonitorControl) -> (r: Option<
    MonitorStep,
>)
    ensures
        r is None <==> left == 0 || right == 0,
        r matches Some(step) ==> step == (MonitorStep {
            frames: if left <= right {
                left
            } else {
                right
            },
            fold: control.mono,
            gain: control.gain_applied(),
        }),
{
    let frames: usize = if left <= right {
        left
    } else {
        right
    };
    if frames == 0 {
        return None;
    }
    Some(MonitorStep { frames, fold: control.mono, gain: control.effective_gain() })
}

/// Mute silences whatever else is set, and what is heard is never inverted.
pub proof fn law_mute_wins_and_nothing_is_inverted(control: MonitorControl)
    ensures
        control.mute <==> control.gain_applied() is Silent,
        control.gain_applied() matches MonitorGain::Linear { bits } ==> bits <= 0x7f80_0000,
        control.gain_applied() matches MonitorGain::Dimmed { bits } ==> bits <= 0x7f80_0000,
{
}

// ── Output ──────────────────────────────────────────────────────────────────

/// A stereo output pair of the active device.
#[derive(Debug, Clone, PartialEq, Eq)]
pub struct MonitorOutputTarget {
    pub name: String,
    /// Index of the left channel; the right one follows it.
    pub left_channel: u16,
}

/// The name of the pair that starts at channel `left`, counted from one.
pub open spec fn pair_name(left: nat) -> Seq<char> {
    "Out "@ + text::decimal(left + 1) + "-"@ + text::decimal(left + 2)
}

impl Default for MonitorOutputTarget {
    fn default() -> (r: Self)
        ensures
            r.name@ == pair_name(0),
            r.left_channel == 0,
    {
        proof {
            reveal_strlit("Out 1-2");
            reveal_strlit("Out ");
            reveal_strlit("-");
            assert("Out 1-2"@ =~= pair_name(0));
        }
        MonitorOutputTarget { name: "Out 1-2".to_owned(), left_channel: 0 }
    }
}

impl MonitorOutputTarget {
    /// The right channel.
    pub open spec fn right(self) -> int {
        if self.left_channel < u16::MAX {
            self.left_channel + 1
        } else {
            u16::MAX as int
        }
    }

    /// The pair that is written on a device with `channels` outputs: the chosen
    /// one where the device has it, else the main pair, and none on a device
    /// with less than two.
    pub open spec fn pair_on(self, channels: int) -> Option<(int, int)> {
        if channels < 2 {
            None
        } else if self.right() < channels {
            Some((self.left_channel as int, self.right()))
        } else {
            Some((0, 1))
        }
    }

    pub fn new(name: &str, left_channel: u16) -> (r: Self)
        ensures
            r.name@ == name@,
            r.left_channel == left_channel,
    {
        MonitorOutputTarget { name: name.to_owned(), left_channel }
    }

    pub fn right_channel(&self) -> (r: u16)
        ensures
            r == self.right(),
    {
        if self.left_channel < u16::MAX {
            self.left_channel + 1
        } else {
            u16::MAX
        }
    }

    /// Whether a device with `channels` outputs has the pair.
    pub fn fits(&self, channels: usize) -> (r: bool)
        ensures
            r == (self.right() < channels),
    {
        (self.right_channel() as usize) < channels
    }

    /// The pair that is written on a device with `channels` outputs.
    pub fn resolved_pair(&self, channels: usize) -> (r: Option<(usize, usize)>)
        ensures
            r is Some <==> self.pair_on(channels as int) is Some,
            r matches Some(p) ==> self.pair_on(channels as int) == Some((p.0 as int, p.1 as int)),
    {
        if channels < 2 {
            return None;
        }
        if self.fits(channels) {
            Some((self.left_channel as usize, self.right_channel() as usize))
        } else {
            Some((0, 1))
        }
    }

    /// The pairs offered on a device with `channels` outputs: the main pair, and
    /// every further one that the device has.
    pub fn available_for_device(channels: usize) -> (r: Vec<Self>)
        requires
            channels <= 0xffff,
        ensures
            r@.len() == (if channels < 2 {
                1
            } else {
                channels as int / 2
            }),
            forall|k: int|
                0 <= k < r@.len() ==> (#[trigger] r@[k]).left_channel == 2 * k && r@[k].name@
                    == pair_name((2 * k) as nat),
    {
        let mut targets: Vec<MonitorOutputTarget> = Vec::new();
        targets.push(MonitorOutputTarget::default());
        let mut left: u16 = 2;
        while (left as usize) + 1 < channels
            invariant
                channels <= 0xffff,
                left as int == 2 * targets@.len(),
                targets@.len() >= 1,
                targets@.len() == 1 || left <= channels,
                forall|k: int|
                    0 <= k < targets@.len() ==> (#[trigger] targets@[k]).left_channel == 2 * k
                        && targets@[k].name@ == pair_name((2 * k) as nat),
            decreases channels - left,
        {
            let name: String = join("Out ", &decimal_string(left as u64 + 1));
            let name: String = join(&name, "-");
            let name: String = join(&name, &decimal_string(left as u64 + 2));
            targets.push(MonitorOutputTarget::new(&name, left));
            left = left + 2;
        }
        targets
    }
}

/// A device with two outputs or more always has a pair to monitor on, and it is
/// one that the device has.
pub proof fn law_monitoring_survives_a_smaller_device(target: MonitorOutputTarget, channels: int)
    requires
        target.left_channel < u16::MAX,
    ensures
        channels >= 2 <==> target.pair_on(channels) is Some,
        target.pair_on(channels) matches Some(p) ==> 0 <= p.0 < channels && p.1 == p.0 + 1 && p.1
            < channels,
{
}

/// An unmuted level is the one that was set, dimmed or not; one below zero, or
/// one that is no number, is silent. Dimming changes how the level is applied and
/// not the level.
pub proof fn law_level_is_the_one_that_was_set(control: MonitorControl)
    requires
        !control.mute,
    ensures
        control.dim <==> control.gain_applied() is Dimmed,
        !control.dim <==> control.gain_applied() is Linear,
        control.gain <= 0x7f80_0000 && control.dim ==> control.gain_applied()
            == (MonitorGain::Dimmed { bits: control.gain }),
        control.gain <= 0x7f80_0000 && !control.dim ==> control.gain_applied()
            == (MonitorGain::Linear { bits: control.gain }),
        control.gain > 0x7f80_0000 && control.dim ==> control.gain_applied()
            == (MonitorGain::Dimmed { bits: 0 }),
        control.gain > 0x7f80_0000 && !control.dim ==> control.gain_applied()
            == (MonitorGain::Linear { bits: 0 }),
{
}

/// A pair that the device has is the one that is written, and the first pair is
/// in place of one that it does not have.
pub proof fn law_chosen_pair_is_written(target: MonitorOutputTarget, channels: int)
    requires
        target.left_channel < u16::MAX,
        channels >= 2,
    ensures
        target.left_channel + 1 < channels ==> target.pair_on(channels) == Some(
            (target.left_channel as int, target.left_channel + 1),
        ),
        target.left_channel + 1 >= channels ==> target.pair_on(channels) == Some((0int, 1int)),
{
}

/// A stored source is read as what was stored: a tag that names an id needs one,
/// and anything else is the master.
pub proof fn law_stored_source_is_read(tag: Seq<char>, id: Seq<char>)
    ensures
        read_parts(tag, None).tag == "master"@ && read_parts(tag, None).id is None,
        tag != "bus"@ && tag != "track-pfl"@ && tag != "track-afl"@ && tag != "hardware-input"@
            ==> read_parts(tag, Some(id)).tag == "master"@ && read_parts(tag, Some(id)).id is None,
        tag == "bus"@ || tag == "track-pfl"@ || tag == "track-afl"@ || tag == "hardware-input"@
            ==> read_parts(tag, Some(id)).tag == tag && read_parts(tag, Some(id)).id == Some(id),
{
}

} // verus!
