use sphere_direct_audio_engine::jam_bus::{
    is_jam_device, is_jam_send_device, jam_device_id, jam_stream_id, publish_key_hardware_input,
    publish_key_track, target_frames, JamAudioBus, JamChannelMode, JamInputSlot, JamPublishSlot,
    MixSource, CAPACITY_FRAMES, JAM_SEND_DEVICE_ID, MAX_JAM_INPUT_SLOTS, MAX_JAM_PUBLISH_SLOTS,
    MULTITRACK_PUBLISH_SLOT, PUBLISH_KEY_LIVE_INPUT, PUBLISH_KEY_MASTER, PUBLISH_KEY_MONITOR,
    PUBLISH_KEY_MULTITRACK,
};

fn bits(samples: &[f32]) -> Vec<u32> {
    samples.iter().map(|s| s.to_bits()).collect()
}

fn numbers(bits: &[u32]) -> Vec<f32> {
    bits.iter().map(|b| f32::from_bits(*b)).collect()
}

fn value(source: MixSource) -> f32 {
    match source {
        MixSource::Sample { bits } => f32::from_bits(bits),
        MixSource::HalfSum { left, right } => (f32::from_bits(left) + f32::from_bits(right)) * 0.5,
    }
}

/// Add what a slot plays to both sides.
fn mix_into(
    slot: &mut JamInputSlot,
    mode: JamChannelMode,
    left: &mut [f32],
    right: &mut [f32],
    frames: usize,
) -> usize {
    let mut out_l = vec![MixSource::Sample { bits: 0 }; left.len()];
    let mut out_r = vec![MixSource::Sample { bits: 0 }; right.len()];
    let n = slot.mix_into(mode, &mut out_l, &mut out_r, frames);
    for i in 0..n {
        left[i] += value(out_l[i]);
        right[i] += value(out_r[i]);
    }
    n
}

#[test]
fn jam_device_ids_round_trip_and_do_not_claim_hardware() {
    let id = jam_device_id("str_01K4S8");
    assert_eq!(id, "jam:str_01K4S8");
    assert!(is_jam_device(&id));
    assert_eq!(jam_stream_id(&id), Some("str_01K4S8"));

    assert!(!is_jam_device("Focusrite USB ASIO"));
    assert_eq!(jam_stream_id("Focusrite USB ASIO"), None);
}

#[test]
fn a_written_block_comes_back_through_the_callback_path() {
    let mut slot = JamInputSlot::default();
    slot.claim();
    slot.assume_primed();
    // Two stereo frames: (0.25, -0.25), (0.5, -0.5).
    slot.write_interleaved(&bits(&[0.25, -0.25, 0.5, -0.5]), 2, 1_000, 48_000);

    let mut left = vec![0.0; 2];
    let mut right = vec![0.0; 2];
    let read = mix_into(&mut slot, JamChannelMode::Stereo, &mut left, &mut right, 2);
    assert_eq!(read, 2);
    assert_eq!(left, vec![0.25, 0.5]);
    assert_eq!(right, vec![-0.25, -0.5]);
    assert_eq!(slot.sample_rate(), 48_000);
}

#[test]
fn the_callback_mixes_rather_than_replaces_so_a_track_can_carry_other_material() {
    let mut slot = JamInputSlot::default();
    slot.claim();
    slot.assume_primed();
    slot.write_interleaved(&bits(&[0.25, 0.25]), 2, 0, 48_000);

    let mut left = vec![0.5];
    let mut right = vec![0.5];
    mix_into(&mut slot, JamChannelMode::Stereo, &mut left, &mut right, 1);
    assert_eq!(left, vec![0.75]);
    assert_eq!(right, vec![0.75]);
}

#[test]
fn an_empty_slot_reads_as_silence_and_never_blocks() {
    let mut slot = JamInputSlot::default();
    slot.claim();
    slot.assume_primed();
    let mut left = vec![0.0f32; 4];
    let mut right = vec![0.0; 4];
    assert_eq!(
        mix_into(&mut slot, JamChannelMode::Stereo, &mut left, &mut right, 4),
        0
    );
    assert_eq!(left, vec![0.0; 4]);
    assert_eq!(slot.underruns(), 1);
}

#[test]
fn an_inactive_slot_produces_nothing_at_all() {
    let mut slot = JamInputSlot::default();
    let mut left = vec![0.0f32; 4];
    let mut right = vec![0.0; 4];
    assert_eq!(
        mix_into(&mut slot, JamChannelMode::Stereo, &mut left, &mut right, 4),
        0
    );
    // Not even an underrun: nothing is expected from a slot nobody bound.
    assert_eq!(slot.underruns(), 0);
}

/// The crackle, pinned. A block the network only half-filled used to be
/// handed over half-full, which is a hole in the audio — and because the
/// ring was then empty again, another hole in the next block, and the next.
/// It is silence and a re-prime instead: one gap while the cushion rebuilds,
/// then clean audio.
#[test]
fn a_partial_block_is_silence_and_a_re_prime_rather_than_a_hole() {
    let mut slot = JamInputSlot::default();
    slot.claim();
    slot.assume_primed();
    slot.write_interleaved(&bits(&[1.0, 1.0]), 2, 0, 48_000);

    let mut left = vec![0.0f32; 4];
    let mut right = vec![0.0; 4];
    assert_eq!(
        mix_into(&mut slot, JamChannelMode::Stereo, &mut left, &mut right, 4),
        0
    );
    assert_eq!(
        left,
        vec![0.0; 4],
        "a torn block is worse than a silent one"
    );
    assert_eq!(slot.underruns(), 1);
    assert!(
        slot.is_priming(),
        "an underrun must rebuild the cushion, not keep tearing"
    );
    assert_eq!(
        slot.available(),
        1,
        "the frame that did arrive is kept, not thrown away"
    );
}

/// Frames per call in the cushion tests, and a block of that many stereo
/// frames of `value`.
const BLOCK: usize = 128;

fn stereo_block(frames: usize, value: f32) -> Vec<f32> {
    vec![value; frames * 2]
}

/// Fill `slot` until it has at least a cushion, writing in `BLOCK` chunks
/// the way the receive thread does.
fn fill_cushion(slot: &mut JamInputSlot, sample_rate: u32) {
    let target = target_frames(sample_rate, BLOCK);
    let mut position = 0u64;
    while slot.available() < target {
        slot.write_interleaved(&bits(&stereo_block(BLOCK, 1.0)), 2, position, sample_rate);
        position += BLOCK as u64;
    }
}

/// A jam that starts playing the instant the first packet lands has no
/// absorption at all: it is empty again by the next callback. The slot holds
/// a cushion first, and while it is holding one it contributes silence
/// rather than a trickle.
#[test]
fn a_fresh_stream_holds_a_cushion_before_it_plays() {
    let mut slot = JamInputSlot::default();
    slot.claim();
    let mut left = vec![0.0; BLOCK];
    let mut right = vec![0.0; BLOCK];

    slot.write_interleaved(&bits(&stereo_block(BLOCK, 1.0)), 2, 0, 48_000);
    assert_eq!(
        mix_into(&mut slot, JamChannelMode::Stereo, &mut left, &mut right, BLOCK),
        0,
        "one packet is not a cushion"
    );
    assert_eq!(
        slot.underruns(),
        0,
        "priming is not lateness — those frames are early, not missing"
    );
    assert!(slot.is_priming());

    fill_cushion(&mut slot, 48_000);
    assert_eq!(
        mix_into(&mut slot, JamChannelMode::Stereo, &mut left, &mut right, BLOCK),
        BLOCK,
        "a full cushion plays whole blocks"
    );
    assert!(!slot.is_priming());
    assert_eq!(left[0], 1.0);
}

/// Steady state: as long as the producer keeps up, every block is whole and
/// nothing is counted against the stream.
#[test]
fn a_stream_that_keeps_up_plays_every_block_whole() {
    let mut slot = JamInputSlot::default();
    slot.claim();
    fill_cushion(&mut slot, 48_000);
    let mut position = 1 << 20;

    for _ in 0..64 {
        let mut left = vec![0.0; BLOCK];
        let mut right = vec![0.0; BLOCK];
        assert_eq!(
            mix_into(&mut slot, JamChannelMode::Stereo, &mut left, &mut right, BLOCK),
            BLOCK
        );
        slot.write_interleaved(&bits(&stereo_block(BLOCK, 1.0)), 2, position, 48_000);
        position += BLOCK as u64;
    }
    assert_eq!(slot.underruns(), 0);
    assert_eq!(slot.overruns(), 0);
}

/// The network ran ahead, or the callback stalled. Playing further and
/// further behind is worse than skipping: the frames skipped are already
/// past their moment.
#[test]
fn latency_creep_is_resynced_forward_to_the_cushion() {
    let mut slot = JamInputSlot::default();
    slot.claim();
    fill_cushion(&mut slot, 48_000);
    let target = target_frames(48_000, BLOCK);

    // Four cushions' worth queued and nobody reading.
    let mut position = 1 << 20;
    while slot.available() < target * 4 {
        slot.write_interleaved(&bits(&stereo_block(BLOCK, 1.0)), 2, position, 48_000);
        position += BLOCK as u64;
    }

    let mut left = vec![0.0; BLOCK];
    let mut right = vec![0.0; BLOCK];
    assert_eq!(
        mix_into(&mut slot, JamChannelMode::Stereo, &mut left, &mut right, BLOCK),
        BLOCK
    );
    assert!(slot.overruns() >= 1, "the skip has to be visible");
    assert!(
        slot.available() <= target,
        "backlog must come back down to the cushion, not stay four deep"
    );
}

/// A cushion thinner than the thing it is cushioning is not one.
#[test]
fn the_cushion_is_never_thinner_than_two_callback_blocks() {
    for (rate, block) in [(48_000u32, 1024usize), (44_100, 2048), (96_000, 64)] {
        let target = target_frames(rate, block);
        assert!(
            target >= (block as u64) * 2,
            "rate={rate} block={block} target={target}"
        );
        assert!(target <= (CAPACITY_FRAMES / 4) as u64);
    }
}

#[test]
fn channel_modes_fold_a_stereo_stream_the_documented_way() {
    for (mode, expect) in [
        (JamChannelMode::Stereo, (1.0f32, 0.0f32)),
        (JamChannelMode::Left, (1.0, 1.0)),
        (JamChannelMode::Right, (0.0, 0.0)),
        (JamChannelMode::Mono, (0.5, 0.5)),
    ] {
        let mut slot = JamInputSlot::default();
        slot.claim();
        slot.assume_primed();
        slot.assume_primed();
        slot.write_interleaved(&bits(&[1.0, 0.0]), 2, 0, 48_000);
        let mut left = vec![0.0];
        let mut right = vec![0.0];
        mix_into(&mut slot, mode, &mut left, &mut right, 1);
        assert_eq!((left[0], right[0]), expect, "{mode:?}");
    }
}

#[test]
fn a_mono_stream_reaches_both_sides() {
    let mut slot = JamInputSlot::default();
    slot.claim();
    slot.assume_primed();
    slot.write_interleaved(&bits(&[0.75, 0.5]), 1, 0, 48_000);
    let mut left = vec![0.0; 2];
    let mut right = vec![0.0; 2];
    mix_into(&mut slot, JamChannelMode::Stereo, &mut left, &mut right, 2);
    assert_eq!(left, vec![0.75, 0.5]);
    assert_eq!(right, vec![0.75, 0.5]);
}

#[test]
fn the_capture_position_follows_the_publisher_not_the_arrival() {
    let mut slot = JamInputSlot::default();
    slot.claim();
    slot.assume_primed();
    assert_eq!(
        slot.next_capture_position(),
        None,
        "unknown before any packet"
    );

    // The publisher captured this at position 20 000 000.
    slot.write_interleaved(&bits(&[0.0; 8]), 2, 20_000_000, 48_000);
    assert_eq!(slot.next_capture_position(), Some(20_000_000));

    // After the callback consumes two frames the next one is two ticks on.
    let mut left = vec![0.0; 2];
    let mut right = vec![0.0; 2];
    mix_into(&mut slot, JamChannelMode::Stereo, &mut left, &mut right, 2);
    assert_eq!(slot.next_capture_position(), Some(20_000_002));
}

#[test]
fn a_gap_re_bases_the_capture_clock_instead_of_drifting() {
    let mut slot = JamInputSlot::default();
    slot.claim();
    slot.assume_primed();
    slot.write_interleaved(&bits(&[0.0; 4]), 2, 1_000, 48_000);
    // The next block should have been tick 1002; it is 5000, because
    // packets were lost. The mapping follows the publisher.
    slot.write_interleaved(&bits(&[0.0; 4]), 2, 5_000, 48_000);

    let mut left = vec![0.0; 2];
    let mut right = vec![0.0; 2];
    mix_into(&mut slot, JamChannelMode::Stereo, &mut left, &mut right, 2);
    assert_eq!(slot.next_capture_position(), Some(5_000 - 2 + 2));
}

#[test]
fn a_publish_slot_round_trips_the_callbacks_output() {
    let mut slot = JamPublishSlot::default();
    slot.claim(2);
    slot.write_interleaved(&bits(&[0.1, 0.2, 0.3, 0.4]), 2, 48_000);

    let mut out = Vec::new();
    let (frames, _channels, tick) = slot.read_interleaved(&mut out, 8).expect("frames ready");
    assert_eq!(frames, 2);
    assert_eq!(numbers(&out), vec![0.1, 0.2, 0.3, 0.4]);
    assert_eq!(tick, None, "the tick is absent until the jam clock locks");

    assert!(slot.read_interleaved(&mut out, 8).is_none());
}

#[test]
fn an_unclaimed_publish_slot_costs_the_callback_one_load() {
    let mut slot = JamPublishSlot::default();
    slot.write_interleaved(&bits(&[1.0, 1.0]), 2, 48_000);
    let mut out = Vec::new();
    assert!(slot.read_interleaved(&mut out, 8).is_none());
    assert_eq!(slot.write_head(), 0);
}

#[test]
fn a_published_capture_base_reaches_the_reader() {
    let mut slot = JamPublishSlot::default();
    slot.claim(2);
    slot.write_interleaved(&bits(&[0.0; 4]), 2, 48_000);
    slot.set_capture_base(20_000_000);
    let mut out = Vec::new();
    let (_, _channels, tick) = slot.read_interleaved(&mut out, 8).expect("frames ready");
    assert_eq!(tick, Some(20_000_000));
}

#[test]
fn binding_is_idempotent_and_bounded() {
    let mut bus = JamAudioBus::new();
    assert!(!bus.has_inputs());

    let first = bus.bind_input("str_1").expect("a slot is free");
    assert_eq!(bus.bind_input("str_1"), Some(first), "rebinding is a no-op");
    assert!(bus.has_inputs());
    assert_eq!(bus.input_slot_for("str_1"), Some(first));

    for index in 0..MAX_JAM_INPUT_SLOTS {
        bus.bind_input(&format!("filler_{index}"));
    }
    // Every slot is taken; the next stream is refused rather than routed
    // somewhere arbitrary.
    assert_eq!(bus.bind_input("one_too_many"), None);
}

#[test]
fn releasing_a_stream_frees_its_slot_and_silences_it() {
    let mut bus = JamAudioBus::new();
    let index = bus.bind_input("str_1").expect("bound");
    bus.input_mut(index)
        .write_interleaved(&bits(&[1.0, 1.0]), 2, 0, 48_000);

    bus.release_input("str_1");
    assert!(!bus.has_inputs());
    assert_eq!(bus.input_slot_for("str_1"), None);

    // The audio callback may still hold the old index for one block.
    let mut left = vec![0.0];
    let mut right = vec![0.0];
    assert_eq!(
        mix_into(
            bus.input_mut(index),
            JamChannelMode::Stereo,
            &mut left,
            &mut right,
            1
        ),
        0
    );
    assert_eq!(left, vec![0.0]);
}

#[test]
fn the_live_input_publish_slot_is_resolved_and_released_like_the_masters() {
    let mut bus = JamAudioBus::new();
    assert!(bus.live_input_publish().is_none());
    let index = bus.bind_publish(PUBLISH_KEY_LIVE_INPUT).expect("bound");
    let slot = bus.live_input_publish().expect("resolved");
    assert!(std::ptr::eq(slot, bus.publish(index).expect("indexed")));
    // The two taps are distinct slots: a send of the live input must never
    // read the master's ring or the other way round.
    let master = bus.bind_publish(PUBLISH_KEY_MASTER).expect("bound");
    assert_ne!(master, index);
    bus.release_publish(PUBLISH_KEY_LIVE_INPUT);
    assert!(bus.live_input_publish().is_none());
    assert!(bus.master_publish().is_some());
    bus.release_all();
    assert!(bus.master_publish().is_none());
}

#[test]
fn the_master_publish_slot_is_reachable_without_touching_the_key_map() {
    let mut bus = JamAudioBus::new();
    assert!(bus.master_publish().is_none());

    let index = bus.bind_publish(PUBLISH_KEY_MASTER).expect("bound");
    assert!(std::ptr::eq(
        bus.master_publish().expect("resolved"),
        bus.publish(index).expect("in range")
    ));
    bus.publish_mut(index)
        .write_interleaved(&bits(&[0.5, -0.5]), 2, 48_000);
    assert_eq!(bus.publish(index).expect("in range").write_head(), 1);

    bus.release_publish(PUBLISH_KEY_MASTER);
    assert!(bus.master_publish().is_none());
}

#[test]
fn the_multitrack_slot_carries_a_pair_per_track_in_one_block() {
    let mut bus = JamAudioBus::new();
    assert!(bus.multitrack_publish().is_none());

    let index = bus
        .bind_multitrack_publish(6)
        .expect("the wide slot is free");
    assert_eq!(index, MULTITRACK_PUBLISH_SLOT);
    assert!(std::ptr::eq(
        bus.multitrack_publish().expect("claimed"),
        bus.publish(index).expect("in range")
    ));
    let slot = bus.publish_mut(index);
    assert_eq!(slot.channels(), 6, "three pairs");

    // Three tracks stage their post-fader blocks; one block is published.
    slot.stage_pair(0, &bits(&[0.1, 0.1]), &bits(&[0.2, 0.2]), 2);
    slot.stage_pair(1, &bits(&[0.3, 0.3]), &bits(&[0.4, 0.4]), 2);
    slot.stage_pair(2, &bits(&[0.5, 0.5]), &bits(&[0.6, 0.6]), 2);
    assert_eq!(
        slot.write_head(),
        0,
        "staging a pair does not publish the block on its own"
    );
    slot.commit(2, 48_000);
    assert_eq!(slot.write_head(), 2, "one head advance for the whole block");

    let mut out = Vec::new();
    let (frames, channels, _) = slot.read_interleaved(&mut out, 8).expect("frames ready");
    assert_eq!((frames, channels), (2, 6));
    assert_eq!(
        numbers(&out)[..6],
        [0.1, 0.2, 0.3, 0.4, 0.5, 0.6],
        "channels are interleaved in pair order"
    );

    bus.release_publish(PUBLISH_KEY_MULTITRACK);
    assert!(bus.multitrack_publish().is_none());
}

/// A track that stops sharing must leave silence in its pair, not its last
/// block repeating — a stuck buffer sounds like a bug in the receiver.
#[test]
fn an_unstaged_pair_is_published_as_silence_rather_than_the_previous_block() {
    let mut bus = JamAudioBus::new();
    let index = bus.bind_multitrack_publish(4).expect("free");
    assert!(bus.multitrack_publish().is_some());
    let slot = bus.publish_mut(index);

    slot.stage_pair(0, &bits(&[1.0]), &bits(&[1.0]), 1);
    slot.stage_pair(1, &bits(&[0.5]), &bits(&[0.5]), 1);
    slot.commit(1, 48_000);

    // The second track stops sharing: only pair 0 is staged this block.
    slot.stage_pair(0, &bits(&[1.0]), &bits(&[1.0]), 1);
    slot.commit(1, 48_000);

    let mut out = Vec::new();
    let (frames, channels, _) = slot.read_interleaved(&mut out, 8).expect("frames ready");
    assert_eq!((frames, channels), (2, 4));
    assert_eq!(numbers(&out)[2..4], [0.5, 0.5], "the first block is unchanged");
    assert_eq!(numbers(&out)[6..8], [0.0, 0.0], "the second is silent, not repeated");
}

#[test]
fn every_publish_slot_carries_what_it_can() {
    let carries = |bus: &JamAudioBus| {
        for index in 0..=MULTITRACK_PUBLISH_SLOT {
            let slot = bus.publish(index).expect("in range");
            assert!(2 <= slot.channels() && slot.channels() <= slot.capacity_channels());
        }
    };
    let mut bus = JamAudioBus::new();
    carries(&bus);
    for asked in [0, 1, 2, 7, 100_000] {
        bus.bind_multitrack_publish(asked);
        carries(&bus);
        bus.release_publish(PUBLISH_KEY_MULTITRACK);
        carries(&bus);
    }
    bus.bind_publish(PUBLISH_KEY_MASTER).expect("bound");
    carries(&bus);
}

#[test]
fn the_wide_slot_is_never_handed_out_to_an_ordinary_publish() {
    let mut bus = JamAudioBus::new();
    // Claim every stereo slot; the wide one must still be free, because a
    // master or track publish writing stereo into it would announce a
    // sixteen-channel stream carrying two channels of audio.
    for index in 0..MAX_JAM_PUBLISH_SLOTS {
        assert!(bus.bind_publish(&format!("track:{index}")).is_some());
    }
    assert!(bus.bind_publish("track:overflow").is_none());
    assert!(bus.bind_multitrack_publish(4).is_some());

    // And a second claim is refused rather than taking over a live stream.
    assert!(bus.bind_multitrack_publish(8).is_none());
}

#[test]
fn the_published_master_carries_the_click_unless_it_is_switched_off() {
    let mut bus = JamAudioBus::new();
    assert!(
        bus.master_click_published(),
        "a jam runs to a count, so the click is in the mix by default"
    );
    bus.set_master_click_published(false);
    assert!(!bus.master_click_published());
}

#[test]
fn a_planar_write_produces_the_same_frames_as_an_interleaved_one() {
    let mut planar = JamPublishSlot::default();
    planar.claim(2);
    planar.write_planar(&bits(&[0.25, 0.5]), &bits(&[-0.25, -0.5]), 2, 48_000);

    let mut interleaved = JamPublishSlot::default();
    interleaved.claim(2);
    interleaved.write_interleaved(&bits(&[0.25, -0.25, 0.5, -0.5]), 2, 48_000);

    let mut from_planar = Vec::new();
    let mut from_interleaved = Vec::new();
    planar
        .read_interleaved(&mut from_planar, 8)
        .expect("frames ready");
    interleaved
        .read_interleaved(&mut from_interleaved, 8)
        .expect("frames ready");
    assert_eq!(from_planar, from_interleaved);
}

#[test]
fn a_planar_write_is_bounded_by_the_shorter_buffer() {
    let mut slot = JamPublishSlot::default();
    slot.claim(2);
    // A caller that passes a frame count longer than its buffers must not
    // read past them; the shorter side wins.
    slot.write_planar(&bits(&[0.25]), &bits(&[0.25, 0.5]), 8, 48_000);
    let mut out = Vec::new();
    let (frames, _channels, _) = slot.read_interleaved(&mut out, 8).expect("frames ready");
    assert_eq!(frames, 1);
}

#[test]
fn releasing_everything_leaves_no_slot_claimed() {
    let mut bus = JamAudioBus::new();
    bus.bind_input("str_1");
    bus.bind_input("str_2");
    bus.bind_publish("master");
    bus.release_all();
    assert_eq!(bus.bound_input_count(), 0);
    assert_eq!(bus.bound_publish_count(), 0);
    assert!(!bus.has_inputs());
    assert!(!bus.has_publishes());
}

#[test]
fn channel_modes_come_from_the_same_index_shape_hardware_routes_use() {
    assert_eq!(JamChannelMode::from_channels(&[]), JamChannelMode::Mono);
    assert_eq!(JamChannelMode::from_channels(&[0]), JamChannelMode::Left);
    assert_eq!(JamChannelMode::from_channels(&[1]), JamChannelMode::Right);
    assert_eq!(
        JamChannelMode::from_channels(&[0, 1]),
        JamChannelMode::Stereo
    );
    assert_eq!(
        JamChannelMode::from_channels(&[1, 0]),
        JamChannelMode::StereoSwapped,
        "a route bound right-to-left really is swapped"
    );
    assert_eq!(
        JamChannelMode::from_channels(&[0, 0]),
        JamChannelMode::Mono,
        "a route that names one channel twice is a fold-down, not a stereo pair"
    );
}

#[test]
fn a_swapped_route_swaps_the_sides() {
    let mut slot = JamInputSlot::default();
    slot.claim();
    slot.assume_primed();
    slot.write_interleaved(&bits(&[1.0, -1.0]), 2, 0, 48_000);
    let mut left = vec![0.0];
    let mut right = vec![0.0];
    mix_into(&mut slot, JamChannelMode::StereoSwapped, &mut left, &mut right, 1);
    assert_eq!((left[0], right[0]), (-1.0, 1.0));
}

#[test]
fn a_lapped_consumer_resynchronises_instead_of_reading_stale_audio() {
    let mut slot = JamInputSlot::default();
    slot.claim();
    slot.assume_primed();
    // Write more than a whole ring without reading any of it.
    let block = vec![0.0f32; 2 * 1024];
    for _ in 0..(CAPACITY_FRAMES / 1024 + 2) {
        slot.write_interleaved(&bits(&block), 2, 0, 48_000);
    }
    assert!(slot.overruns() > 0);

    let mut left = vec![0.0; 64];
    let mut right = vec![0.0; 64];
    let read = mix_into(&mut slot, JamChannelMode::Stereo, &mut left, &mut right, 64);
    assert_eq!(read, 64, "the consumer catches up to the live window");
}

#[test]
fn the_send_device_is_no_remote_stream() {
    assert!(is_jam_send_device(JAM_SEND_DEVICE_ID));
    assert!(!is_jam_device(JAM_SEND_DEVICE_ID));
    assert!(!is_jam_send_device(&jam_device_id("str_1")));
    assert_eq!(publish_key_track("t1"), "track:t1");
    assert_eq!(publish_key_hardware_input("c1"), "input:c1");
}

#[test]
fn a_released_key_makes_room_for_another() {
    let mut bus = JamAudioBus::new();
    for index in 0..MAX_JAM_PUBLISH_SLOTS {
        assert!(bus.bind_publish(&publish_key_track(&format!("{index}"))).is_some());
    }
    assert!(bus.bind_publish(PUBLISH_KEY_MONITOR).is_none());
    bus.release_publish(&publish_key_track("3"));
    assert_eq!(bus.bind_publish(PUBLISH_KEY_MONITOR), Some(3));
    assert!(bus.monitor_publish().is_some());
    assert_eq!(bus.publish_slot_for(PUBLISH_KEY_MONITOR), Some(3));
    assert_eq!(bus.bound_publish_count(), MAX_JAM_PUBLISH_SLOTS);
}

#[test]
fn bound_streams_are_listed_in_order() {
    let mut bus = JamAudioBus::new();
    bus.bind_input("b");
    bus.bind_input("a");
    assert_eq!(
        bus.bound_inputs(),
        vec![("a".to_string(), 1), ("b".to_string(), 0)]
    );
    assert_eq!(bus.bound_input_count(), 2);
}

#[test]
fn a_peak_is_the_largest_sample_since_it_was_taken() {
    let mut slot = JamInputSlot::default();
    slot.claim();
    slot.write_interleaved(&bits(&[0.25, -0.75, 0.5, 0.0]), 2, 0, 48_000);
    assert_eq!(f32::from_bits(slot.take_peak()), 0.75);
    assert_eq!(f32::from_bits(slot.take_peak()), 0.0);
}

#[test]
fn the_layout_is_fixed_for_the_life_of_a_claim() {
    let mut bus = JamAudioBus::new();
    let index = bus.bind_multitrack_publish(6).expect("free");
    let slot = bus.publish_mut(index);
    slot.stage_pair(1, &bits(&[0.5]), &bits(&[0.5]), 1);
    slot.commit(1, 48_000);
    slot.write_planar(&bits(&[0.1]), &bits(&[0.2]), 1, 48_000);
    assert_eq!(slot.channels(), 6);
    slot.write_interleaved(&bits(&[0.3, 0.4]), 2, 48_000);
    assert_eq!(slot.channels(), 6);
    let mut out = Vec::new();
    let (frames, channels, _) = slot.read_interleaved(&mut out, 8).expect("frames ready");
    assert_eq!((frames, channels), (3, 6));
    assert_eq!(numbers(&out)[..6], [0.0, 0.0, 0.5, 0.5, 0.0, 0.0]);
    assert_eq!(numbers(&out)[6..12], [0.1, 0.2, 0.0, 0.0, 0.0, 0.0]);
    assert_eq!(numbers(&out)[12..], [0.3, 0.4, 0.0, 0.0, 0.0, 0.0]);
    assert_eq!(slot.channels(), 6);
    // The next claim has a layout of its own.
    bus.release_publish(PUBLISH_KEY_MULTITRACK);
    bus.bind_multitrack_publish(5).expect("free");
    assert_eq!(bus.multitrack_publish().unwrap().channels(), 4);
}

#[test]
fn ticks_follow_the_capture_base_over_many_calls() {
    let mut slot = JamPublishSlot::default();
    slot.claim(2);
    let mut out = Vec::new();
    slot.write_planar(&bits(&[0.0; 4]), &bits(&[0.0; 4]), 4, 48_000);
    assert_eq!(slot.read_interleaved(&mut out, 2), Some((2, 2, None)));
    slot.set_capture_base(1_000);
    assert_eq!(slot.read_interleaved(&mut out, 1), Some((1, 2, Some(1_002))));
    slot.write_planar(&bits(&[0.0; 4]), &bits(&[0.0; 4]), 4, 48_000);
    slot.take_peak();
    assert_eq!(slot.read_interleaved(&mut out, 3), Some((3, 2, Some(1_003))));
    assert_eq!(slot.read_interleaved(&mut out, 8), Some((2, 2, Some(1_006))));
}

#[test]
fn a_bus_counts_and_lists_what_is_bound() {
    let mut bus = JamAudioBus::new();
    for i in 0..MAX_JAM_INPUT_SLOTS {
        assert_eq!(bus.bound_input_count(), i);
        assert!(bus.bind_input(&format!("s{i:02}")).is_some());
    }
    assert!(bus.bind_input("one-more").is_none());
    let listed = bus.bound_inputs();
    assert_eq!(listed.len(), MAX_JAM_INPUT_SLOTS);
    for i in 0..MAX_JAM_INPUT_SLOTS {
        let id = format!("s{i:02}");
        assert_eq!(listed[i].0, id);
        assert_eq!(bus.input_slot_for(&id), Some(listed[i].1));
    }
    let slot = bus.input_slot_for("s07").unwrap();
    bus.release_input("s07");
    assert_eq!(bus.bound_input_count(), MAX_JAM_INPUT_SLOTS - 1);
    assert!(!bus.input(slot).unwrap().is_active());
    assert_eq!(bus.bind_input("one-more"), Some(slot));
}
