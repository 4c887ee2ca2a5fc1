//! What the slots count, keep and hand on, in terms of the frames that went in
//! and came out.

use vstd::prelude::*;

use crate::jam_bus;
use crate::jam_bus::bus::JamBusModel;
use crate::jam_bus::input_slot;
use crate::jam_bus::input_slot::JamInputModel;
use crate::jam_bus::publish_slot;
use crate::jam_bus::publish_slot::JamPublishModel;
use crate::jam_bus::JamChannelMode;
use crate::jam_bus::MixSource;
use crate::jam_bus::CAPACITY_FRAMES;
use crate::jam_bus::MAX_MULTITRACK_CHANNELS;
use crate::ring;

verus! {

/// Whether a counter has gone up by one; the highest goes back to zero.
pub open spec fn counts_one(after: u64, before: u64) -> bool {
    after == before + 1 || (before == u64::MAX && after == 0)
}

// ── Input slots ─────────────────────────────────────────────────────────────

/// A cushion is thirty milliseconds of the stream, rounded down, or two blocks
/// where that is more; a quarter of the ring is the most.
pub proof fn law_cushion_is_thirty_milliseconds(sample_rate: u32, block_frames: nat)
    requires
        sample_rate > 0,
    ensures
        ({
            let held = input_slot::cushion(sample_rate, block_frames);
            let quarter = CAPACITY_FRAMES / 4;
            &&& held <= quarter
            &&& held < quarter ==> held >= 2 * block_frames && (held + 1) * 1000 > sample_rate * 30
            &&& held == 2 * block_frames || held == quarter || held * 1000 <= sample_rate * 30
        }),
{
    let by_time = sample_rate * 30 / 1000;
    assert(by_time * 1000 <= sample_rate * 30 < (by_time + 1) * 1000);
}

/// A written block moves the writer by its frames and takes over its rate and
/// channels; the reader, the cushion and the lateness stay. A block that pushes
/// out frames that were not played is counted, and no other is.
pub proof fn law_write_counts_its_frames(
    s: JamInputModel,
    left: Seq<u32>,
    right: Seq<u32>,
    channels: u32,
    position: int,
    sample_rate: u32,
)
    requires
        s.read <= s.write,
    ensures
        ({
            let after = s.after_write(left, right, channels, position, sample_rate);
            &&& after.write == s.write + left.len()
            &&& after.read == s.read
            &&& after.active == s.active
            &&& after.priming == s.priming
            &&& after.underruns == s.underruns
            &&& after.sample_rate == sample_rate
            &&& after.channels == channels
            &&& s.write + left.len() - s.read > CAPACITY_FRAMES ==> counts_one(
                after.overruns,
                s.overruns,
            )
            &&& s.write + left.len() - s.read <= CAPACITY_FRAMES ==> after.overruns == s.overruns
        }),
{
}

/// The peak of a slot is no smaller than it was and than any sample that was
/// written, and is one of them.
pub proof fn law_write_keeps_the_peak(
    s: JamInputModel,
    left: Seq<u32>,
    right: Seq<u32>,
    channels: u32,
    position: int,
    sample_rate: u32,
)
    requires
        right.len() == left.len(),
    ensures
        ({
            let after = s.after_write(left, right, channels, position, sample_rate);
            &&& after.peak >= s.peak
            &&& forall|i: int|
                0 <= i < left.len() ==> ring::magnitude(#[trigger] left[i]) <= after.peak
            &&& forall|i: int|
                0 <= i < right.len() ==> ring::magnitude(#[trigger] right[i]) <= after.peak
            &&& after.peak == s.peak || (exists|i: int|
                0 <= i < left.len() && ring::magnitude(#[trigger] left[i]) == after.peak) || (
            exists|i: int|
                0 <= i < right.len() && ring::magnitude(#[trigger] right[i]) == after.peak)
        }),
{
    ring::law_stereo_peak_is_that_of_both(s.peak, left, right);
}

/// A slot whose backlog is at least its cushion plays the block that follows the
/// last one, and counts nothing. A backlog of more than the cushion and one block
/// is cut back to the cushion, or to one block where that is more, and the cut is
/// counted.
pub proof fn law_mix_plays_on(s: JamInputModel, want: nat)
    requires
        s.active,
        want > 0,
        s.read <= s.write,
        s.write - s.read <= CAPACITY_FRAMES,
        s.write - s.read >= want,
        s.priming ==> s.write - s.read >= input_slot::cushion(s.sample_rate, want),
    ensures
        ({
            let held = input_slot::cushion(s.sample_rate, want);
            let after = s.after_mix(want);
            &&& s.plays(want)
            &&& !after.priming
            &&& after.underruns == s.underruns
            &&& after.write == s.write
            &&& after.read == s.block_start(want) + want
            &&& s.write - s.read <= held + want ==> s.block_start(want) == s.read
                && after.overruns == s.overruns
            &&& s.write - s.read > held + want && held >= want ==> s.write - s.block_start(want)
                == held && counts_one(after.overruns, s.overruns)
            &&& s.write - s.read > held + want && held < want ==> s.write - s.block_start(want)
                == want && counts_one(after.overruns, s.overruns)
        }),
{
}

/// A slot that holds less than a block, or that fills its cushion, does not
/// play; only a slot that played before counts it, and fills its cushion again.
pub proof fn law_mix_that_runs_short_is_counted(s: JamInputModel, want: nat)
    requires
        s.active,
        want > 0,
        s.read <= s.write,
        s.write - s.read <= CAPACITY_FRAMES,
    ensures
        ({
            let held = input_slot::cushion(s.sample_rate, want);
            let after = s.after_mix(want);
            &&& s.write - s.read < want ==> !s.plays(want)
            &&& s.priming && s.write - s.read < held ==> !s.plays(want) && after == s
            &&& !s.priming && s.write - s.read < want ==> after.priming && after.read == s.read
                && after.write == s.write && after.overruns == s.overruns && counts_one(
                after.underruns,
                s.underruns,
            )
        }),
{
}

/// A reader that the writer lapped goes on at the oldest frame that is held, and
/// the loss is counted.
pub proof fn law_lapped_reader_goes_on_at_the_oldest(s: JamInputModel)
    requires
        s.read <= s.write,
    ensures
        s.write - s.read <= CAPACITY_FRAMES ==> s.unlapped() == s,
        s.write - s.read > CAPACITY_FRAMES ==> s.unlapped().read + CAPACITY_FRAMES == s.write
            && counts_one(s.unlapped().overruns, s.overruns) && s.unlapped().write == s.write
            && s.unlapped().priming == s.priming && s.unlapped().underruns == s.underruns,
{
}

/// A claimed slot starts empty, with nothing counted, and fills its cushion
/// first.
pub proof fn law_claimed_slot_starts_empty(s: JamInputModel)
    ensures
        s.claimed().active,
        s.claimed().priming,
        s.claimed().write == 0,
        s.claimed().read == 0,
        s.claimed().underruns == 0,
        s.claimed().overruns == 0,
        s.claimed().peak == 0,
        s.claimed().capture_base is None,
        s.claimed().left.len() == s.left.len(),
        s.claimed().right.len() == s.right.len(),
{
}

/// A block is as long as was asked for, and never longer than either side.
pub proof fn law_block_fits_both_sides(frames: usize, len_l: nat, len_r: nat)
    ensures
        input_slot::wanted(frames, len_l, len_r) <= frames,
        input_slot::wanted(frames, len_l, len_r) <= len_l,
        input_slot::wanted(frames, len_l, len_r) <= len_r,
        input_slot::wanted(frames, len_l, len_r) == frames || input_slot::wanted(
            frames,
            len_l,
            len_r,
        ) == len_l || input_slot::wanted(frames, len_l, len_r) == len_r,
        publish_slot::pair_frames(frames, len_l, len_r) <= frames,
        publish_slot::pair_frames(frames, len_l, len_r) <= len_l,
        publish_slot::pair_frames(frames, len_l, len_r) <= len_r,
        publish_slot::pair_frames(frames, len_l, len_r) == frames || publish_slot::pair_frames(
            frames,
            len_l,
            len_r,
        ) == len_l || publish_slot::pair_frames(frames, len_l, len_r) == len_r,
{
}

// ── Channels ────────────────────────────────────────────────────────────────

/// A route of one side takes that side to both outputs, a route of both takes
/// each to its own or crosswise, and every other one takes the middle.
pub proof fn law_route_takes_its_sides(channels: Seq<u32>, left: u32, right: u32)
    ensures
        ({
            let out = JamChannelMode::of_channels(channels).routed(left, right);
            let l = MixSource::Sample { bits: left };
            let r = MixSource::Sample { bits: right };
            let middle = MixSource::HalfSum { left, right };
            &&& channels.len() == 0 ==> out == (middle, middle)
            &&& channels.len() == 1 && channels[0] == 0 ==> out == (l, l)
            &&& channels.len() == 1 && channels[0] == 1 ==> out == (r, r)
            &&& channels.len() == 1 && channels[0] > 1 ==> out == (middle, middle)
            &&& channels.len() >= 2 && channels[0] < channels[1] ==> out == (l, r)
            &&& channels.len() >= 2 && channels[0] > channels[1] ==> out == (r, l)
            &&& channels.len() >= 2 && channels[0] == channels[1] ==> out == (middle, middle)
        }),
{
}

/// A position moves by the frames that pass, up to the highest there is.
pub proof fn law_position_moves_with_the_frames(base: int, n: int)
    ensures
        base + n <= i64::MAX ==> jam_bus::position_after(base, n) == base + n,
        base + n > i64::MAX ==> jam_bus::position_after(base, n) == i64::MAX,
{
}

// ── Publish slots ───────────────────────────────────────────────────────────

/// A written pair moves the writer by its frames and takes over the rate; the
/// reader stays. A block that pushes out frames that were not read is counted,
/// and no other is. A slot that nobody claimed takes nothing.
pub proof fn law_published_block_counts_its_frames(
    s: JamPublishModel,
    left: Seq<u32>,
    right: Seq<u32>,
    sample_rate: u32,
)
    requires
        s.read <= s.write,
        s.planes.len() >= 2,
        left.len() > 0,
    ensures
        ({
            let after = s.after_stereo(left, right, sample_rate);
            &&& !s.active ==> after == s
            &&& s.active ==> {
                &&& after.write == s.write + left.len()
                &&& after.read == s.read
                &&& after.active
                &&& after.channels == s.channels
                &&& after.capture_base == s.capture_base
                &&& after.sample_rate == sample_rate
                &&& s.write + left.len() - s.read > CAPACITY_FRAMES ==> counts_one(
                    after.overruns,
                    s.overruns,
                )
                &&& s.write + left.len() - s.read <= CAPACITY_FRAMES ==> after.overruns
                    == s.overruns
            }
        }),
{
}

/// A committed block of staged pairs counts as any other block does, and the next
/// one is assembled from nothing.
pub proof fn law_committed_block_counts_its_frames(
    s: JamPublishModel,
    frames: nat,
    sample_rate: u32,
)
    requires
        s.read <= s.write,
        frames > 0,
    ensures
        ({
            let after = s.after_commit(frames, sample_rate);
            &&& !s.active ==> after == s
            &&& s.active ==> {
                &&& after.write == s.write + frames
                &&& after.read == s.read
                &&& after.active
                &&& after.channels == s.channels
                &&& after.peak == s.peak
                &&& after.sample_rate == sample_rate
                &&& forall|p: int| 0 <= p < after.staged.len() ==> !(#[trigger] after.staged[p])
                &&& s.write + frames - s.read > CAPACITY_FRAMES ==> counts_one(
                    after.overruns,
                    s.overruns,
                )
                &&& s.write + frames - s.read <= CAPACITY_FRAMES ==> after.overruns == s.overruns
            }
        }),
{
}

/// A staged pair is noted, does not move the writer, and its samples count into
/// the peak. A pair past the layout is not taken.
pub proof fn law_staged_pair_waits_for_the_commit(
    s: JamPublishModel,
    pair: int,
    left: Seq<u32>,
    right: Seq<u32>,
)
    requires
        0 <= pair < s.staged.len(),
        left.len() > 0,
        right.len() == left.len(),
    ensures
        ({
            let after = s.after_stage(pair, left, right);
            let taken = s.active && pair * 2 + 1 < s.channels && pair * 2 + 1 < s.planes.len();
            &&& after.write == s.write
            &&& after.read == s.read
            &&& after.overruns == s.overruns
            &&& !taken ==> after == s
            &&& taken ==> after.staged[pair] && after.peak >= s.peak && forall|i: int|
                0 <= i < left.len() ==> ring::magnitude(#[trigger] left[i]) <= after.peak
            &&& forall|p: int|
                0 <= p < s.staged.len() && p != pair ==> (#[trigger] after.staged[p])
                    == s.staged[p]
        }),
{
    ring::law_stereo_peak_is_that_of_both(s.peak, left, right);
}

/// A read hands out all that is held, up to what was asked for, from where the
/// last one ended, and goes on at the oldest frame where the writer lapped it.
pub proof fn law_read_hands_out_what_is_held(s: JamPublishModel, max_frames: nat)
    requires
        s.read <= s.write,
    ensures
        s.write - s.read <= CAPACITY_FRAMES ==> s.read_start() == s.read,
        s.write - s.read > CAPACITY_FRAMES ==> s.read_start() + CAPACITY_FRAMES == s.write,
        s.ready(max_frames) <= max_frames,
        s.ready(max_frames) == max_frames || s.read_start() + s.ready(max_frames) == s.write,
        s.read_start() + s.ready(max_frames) <= s.write,
        s.active && s.ready(max_frames) > 0 ==> s.after_read(max_frames).read == s.read_start()
            + s.ready(max_frames),
        !s.active ==> s.after_read(max_frames) == s,
        s.after_read(max_frames).write == s.write,
        s.after_read(max_frames).overruns == s.overruns,
{
}

/// A claim gives an even number of channels, at least a pair and at most what the
/// slot has, and as many as were asked for where that can be.
pub proof fn law_claim_gives_whole_pairs(s: JamPublishModel, channels: nat)
    requires
        s.planes.len() >= 2,
        s.planes.len() % 2 == 0,
    ensures
        s.claimed(channels).channels % 2 == 0,
        2 <= s.claimed(channels).channels <= s.planes.len(),
        2 <= channels <= s.planes.len() && channels % 2 == 0 ==> s.claimed(channels).channels
            == channels,
        2 <= channels <= s.planes.len() && channels % 2 == 1 ==> s.claimed(channels).channels + 1
            == channels,
        channels < 2 ==> s.claimed(channels).channels == 2,
        channels >= s.planes.len() ==> s.claimed(channels).channels == s.planes.len(),
        s.claimed(channels).active,
        s.claimed(channels).write == 0,
        s.claimed(channels).read == 0,
        s.claimed(channels).overruns == 0,
        s.claimed(channels).peak == 0,
        s.claimed(channels).capture_base is None,
{
}

/// A slot is made as wide as was asked for, within one channel and the widest
/// layout.
pub proof fn law_slot_is_made_as_wide_as_asked(channels: nat)
    ensures
        1 <= channels <= MAX_MULTITRACK_CHANNELS ==> publish_slot::slot_width(channels)
            == channels,
        channels == 0 ==> publish_slot::slot_width(channels) == 1,
        channels > MAX_MULTITRACK_CHANNELS ==> publish_slot::slot_width(channels)
            == MAX_MULTITRACK_CHANNELS,
{
}

// ── The bus ─────────────────────────────────────────────────────────────────

/// Binding a stream claims one slot, the one it is bound to, and leaves every
/// other slot and every source alone.
pub proof fn law_binding_claims_one_slot(bus: JamBusModel, id: Seq<char>, i: usize)
    requires
        i < bus.inputs.len(),
    ensures
        ({
            let after = bus.with_input(id, i);
            &&& after.inputs[i as int].active
            &&& after.inputs[i as int].write == 0
            &&& after.input_keys.contains_key(id) && after.input_keys[id] == i
            &&& after.inputs.len() == bus.inputs.len()
            &&& after.publishes == bus.publishes
            &&& after.publish_keys == bus.publish_keys
            &&& after.master_click == bus.master_click
            &&& forall|j: int|
                0 <= j < bus.inputs.len() && j != i ==> (#[trigger] after.inputs[j])
                    == bus.inputs[j]
        }),
{
}

/// Publishing a source claims one slot with its channels, and leaves every other
/// slot and every stream alone.
pub proof fn law_publishing_claims_one_slot(
    bus: JamBusModel,
    key: Seq<char>,
    i: usize,
    channels: nat,
)
    requires
        i < bus.publishes.len(),
    ensures
        ({
            let after = bus.with_publish(key, i, channels);
            &&& after.publishes[i as int].active
            &&& after.publishes[i as int].write == 0
            &&& after.publish_keys.contains_key(key) && after.publish_keys[key] == i
            &&& after.publishes.len() == bus.publishes.len()
            &&& after.inputs == bus.inputs
            &&& after.input_keys == bus.input_keys
            &&& after.master_click == bus.master_click
            &&& forall|j: int|
                0 <= j < bus.publishes.len() && j != i ==> (#[trigger] after.publishes[j])
                    == bus.publishes[j]
        }),
{
}

/// Releasing a stream or a source leaves every other slot alone, and releasing
/// what is not bound does nothing.
pub proof fn law_release_leaves_the_other_slots(bus: JamBusModel, id: Seq<char>, j: int)
    ensures
        !bus.input_keys.contains_key(id) ==> bus.without_input(id) == bus,
        bus.input_keys.contains_key(id) && 0 <= j < bus.inputs.len() && j != bus.input_keys[id]
            && bus.input_keys[id] < bus.inputs.len() ==> bus.without_input(id).inputs[j]
            == bus.inputs[j],
        bus.without_input(id).publishes == bus.publishes,
        bus.without_input(id).publish_keys == bus.publish_keys,
        !bus.publish_keys.contains_key(id) ==> bus.without_publish(id) == bus,
        bus.publish_keys.contains_key(id) && 0 <= j < bus.publishes.len() && j
            != bus.publish_keys[id] && bus.publish_keys[id] < bus.publishes.len()
            ==> bus.without_publish(id).publishes[j] == bus.publishes[j],
        bus.without_publish(id).inputs == bus.inputs,
        bus.without_publish(id).input_keys == bus.input_keys,
{
}

} // verus!
