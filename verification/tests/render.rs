use sphere_direct_audio_engine::engine::command::TrackInputRoute;
use sphere_direct_audio_engine::engine::chain::{
    apply_external_bridge_insert_block, apply_insert, apply_insert_block, apply_track_chain_block,
    begin_external_bridge_insert_block, BridgeMix, BridgeStep, ChainStep, InsertAction,
};
use sphere_direct_audio_engine::engine::clip::{
    clip_fade_gain, clip_source_frame, signalsmith_input_span, stretch_source_index, FadeRatio,
};
use sphere_direct_audio_engine::engine::render::{
    accumulate_sends, effective_track_muted, is_master_output, render_project_block_interleaved,
    route_main_output, RenderStep,
};
use sphere_direct_audio_engine::engine::sample::{render_project_sample, SampleStep};
use sphere_direct_audio_engine::engine::schedule::{schedule_midi_render_block, MidiAction};
use sphere_direct_audio_engine::latency_graph::resolve_latency_routing_indices;
use sphere_direct_audio_engine::runtime::{
    is_master_track_type, is_routing_track_type, resolve_clip_processor, BridgeBinding,
    ClipDspProcessor, RuntimeAudioGraph, RuntimeClip, RuntimeInsert, RuntimeInsertKind,
    RuntimePluginParamBinding, RuntimeProject, RuntimeSend, RuntimeTrack, StretchBackend,
    VstiOutputChild,
};
use sphere_direct_audio_engine::transport::LoopBounds;

// ── Building projects ───────────────────────────────────────────────────────

fn track(id: &str, ty: &str, sends: Vec<RuntimeSend>) -> RuntimeTrack {
    RuntimeTrack {
        id: id.to_string(),
        track_type: ty.to_string(),
        muted: false,
        automation_muted: None,
        solo: false,
        record_armed: false,
        monitor_enabled: false,
        input_source: TrackInputRoute::Unrouted,
        output_track_id: None,
        output_track_index: None,
        inserts: Vec::new(),
        sends,
        midi_instrument_insert_ix: None,
        plugin_param_automation: Vec::new(),
        plugin_latency_samples: 0,
    }
}

fn send(target: &str, level: f32) -> RuntimeSend {
    RuntimeSend {
        id: format!("send-{target}"),
        return_track_id: target.to_string(),
        return_track_index: None,
        level_bits: level.to_bits(),
        enabled: true,
        pre_fader: false,
    }
}

fn clip(id: &str, track_index: usize, start: u64, duration: u64) -> RuntimeClip {
    RuntimeClip {
        id: id.to_string(),
        track_id: String::new(),
        track_index: Some(track_index),
        start_sample: start,
        duration_samples: duration,
        muted: false,
        reverse: false,
        fade_in_samples: 0,
        fade_out_samples: 0,
        processor: ClipDspProcessor::Resample,
        stretch_backend: StretchBackend::InternalRePitch,
        stretch_ready: false,
        stretch_next_project_sample: None,
    }
}

fn project(tracks: Vec<RuntimeTrack>, clips: Vec<RuntimeClip>) -> RuntimeProject {
    let mut audio_graph = RuntimeAudioGraph {
        master_index: None,
        pass1_source_indices: Vec::new(),
        pass2_routing_indices: Vec::new(),
    };
    for (i, t) in tracks.iter().enumerate() {
        if is_master_track_type(&t.track_type) {
            audio_graph.master_index = Some(i);
        } else if is_routing_track_type(&t.track_type) {
            audio_graph.pass2_routing_indices.push(i);
        } else {
            audio_graph.pass1_source_indices.push(i);
        }
    }
    let has_solo = tracks.iter().any(|t| t.solo);
    let mut p = RuntimeProject {
        sample_rate: 48_000,
        tracks,
        clips,
        audio_graph,
        has_solo,
        ..Default::default()
    };
    resolve_latency_routing_indices(&mut p.tracks);
    p
}

// ── Playing plans ───────────────────────────────────────────────────────────

fn pan_gains(pan: f32) -> (f32, f32) {
    if pan < 0.0 {
        (1.0, 1.0 + pan)
    } else {
        (1.0 - pan, 1.0)
    }
}

/// The buffers that a plan works on.
struct Mixer {
    block: Vec<[Vec<f32>; 2]>,
    recv: Vec<[Vec<f32>; 2]>,
    output: [Vec<f32>; 2],
    pan: f32,
    source: Vec<f32>,
    speed: f64,
}

impl Mixer {
    fn new(tracks: usize, frames: usize) -> Self {
        let silent = || [vec![0.0f32; frames], vec![0.0f32; frames]];
        Mixer {
            block: (0..tracks).map(|_| silent()).collect(),
            recv: (0..tracks).map(|_| silent()).collect(),
            output: silent(),
            pan: 0.0,
            source: Vec::new(),
            speed: 1.0,
        }
    }

    fn read(&self, position: f64) -> f32 {
        let at = |i: usize| self.source.get(i).copied().unwrap_or(0.0);
        let low = position.floor() as usize;
        let part = (position - position.floor()) as f32;
        at(low) * (1.0 - part) + at(low + 1) * part
    }

    fn run(&mut self, p: &RuntimeProject, steps: &[RenderStep]) {
        for step in steps {
            match *step {
                RenderStep::ClearOutput => {
                    for side in &mut self.output {
                        side.fill(0.0);
                    }
                }
                RenderStep::ClearTrack { track } => {
                    for side in 0..2 {
                        self.block[track][side].fill(0.0);
                        self.recv[track][side].fill(0.0);
                    }
                }
                RenderStep::Clip { piece } => {
                    let c = &p.clips[piece.clip];
                    for f in 0..piece.frames {
                        let frame =
                            clip_source_frame(piece.rel + f, c.duration_samples, c.reverse);
                        let v = self.read(frame as f64 * self.speed)
                            * fade(
                                piece.rel + f,
                                c.duration_samples,
                                c.fade_in_samples,
                                c.fade_out_samples,
                            );
                        for side in 0..2 {
                            self.block[piece.track][side][(piece.frame + f) as usize] += v;
                        }
                    }
                }
                RenderStep::LoadReceive { track } => {
                    self.block[track] = self.recv[track].clone();
                }
                RenderStep::Fader { track } => {
                    let (l, r) = pan_gains(self.pan);
                    self.block[track][0].iter_mut().for_each(|v| *v *= l);
                    self.block[track][1].iter_mut().for_each(|v| *v *= r);
                }
                RenderStep::Send {
                    source,
                    send,
                    target,
                } => {
                    let level = f32::from_bits(p.tracks[source].sends[send].level_bits);
                    for side in 0..2 {
                        for f in 0..self.block[source][side].len() {
                            self.recv[target][side][f] += self.block[source][side][f] * level;
                        }
                    }
                }
                RenderStep::MainToBus { source, target } => {
                    for side in 0..2 {
                        for f in 0..self.block[source][side].len() {
                            self.recv[target][side][f] += self.block[source][side][f];
                        }
                    }
                }
                RenderStep::MainToMaster { source } => {
                    for side in 0..2 {
                        for f in 0..self.block[source][side].len() {
                            self.output[side][f] += self.block[source][side][f];
                        }
                    }
                }
                RenderStep::LoadMaster { track } => self.block[track] = self.output.clone(),
                RenderStep::StoreMaster { track } => self.output = self.block[track].clone(),
                RenderStep::Chain { .. }
                | RenderStep::Delay { .. }
                | RenderStep::Meter { .. }
                | RenderStep::Limit => {}
            }
        }
    }
}

fn fade(rel: u64, duration: u64, fade_in: u64, fade_out: u64) -> f32 {
    let quarter = |r: Option<FadeRatio>| match r {
        Some(r) => (r.part as f32 / r.whole as f32 * std::f32::consts::FRAC_PI_2).sin(),
        None => 1.0,
    };
    let f = clip_fade_gain(rel, duration, fade_in, fade_out);
    quarter(f.fade_in) * quarter(f.fade_out)
}

// ── Clips ───────────────────────────────────────────────────────────────────

#[test]
fn no_fades_is_unity() {
    assert_eq!(fade(0, 1000, 0, 0), 1.0);
    assert_eq!(fade(500, 1000, 0, 0), 1.0);
    assert_eq!(fade(999, 1000, 0, 0), 1.0);
}

#[test]
fn fade_in_ramps_zero_to_one() {
    assert_eq!(fade(0, 1000, 100, 0), 0.0);
    assert!((fade(50, 1000, 100, 0) - std::f32::consts::FRAC_1_SQRT_2).abs() < 1e-6);
    assert_eq!(fade(100, 1000, 100, 0), 1.0);
    assert_eq!(fade(900, 1000, 100, 0), 1.0);
}

#[test]
fn fade_out_ramps_one_to_zero() {
    assert_eq!(fade(899, 1000, 0, 100), 1.0);
    assert!((fade(900, 1000, 0, 100) - 1.0).abs() < 1e-6);
    assert!((fade(950, 1000, 0, 100) - std::f32::consts::FRAC_1_SQRT_2).abs() < 1e-6);
    assert!(fade(1000, 1000, 0, 100) <= 0.0);
}

#[test]
fn fade_in_and_out_combine() {
    assert!((fade(500, 1000, 100, 100) - 1.0).abs() < 1e-6);
    let expected = (0.25f32 * std::f32::consts::FRAC_PI_2).sin();
    assert!((fade(25, 1000, 100, 100) - expected).abs() < 1e-6);
}

#[test]
fn a_fade_longer_than_the_clip_starts_part_way_down() {
    let f = clip_fade_gain(0, 50, 0, 100);
    assert_eq!(
        f.fade_out,
        Some(FadeRatio {
            part: 100,
            whole: 100
        })
    );
    assert_eq!(clip_fade_gain(200, 50, 0, 100).fade_out.map(|r| r.part), Some(0));
}

/// Source sample that an offset into a clip reads.
fn src_sample(rel: u64, duration: u64, speed: f32, reverse: bool) -> f64 {
    clip_source_frame(rel, duration, reverse) as f64 * speed as f64
}

#[test]
fn manual_stretch_maps_output_to_source_samples() {
    assert!((src_sample(0, 96_000, 0.5, false) - 0.0).abs() < 1e-6);
    assert!((src_sample(24_000, 96_000, 0.5, false) - 12_000.0).abs() < 1e-6);
    assert!((src_sample(48_000, 96_000, 0.5, false) - 24_000.0).abs() < 1e-6);
    assert!((src_sample(95_999, 96_000, 0.5, false) - 47_999.5).abs() < 1e-3);
}

#[test]
fn resample_mode_changes_source_read_rate() {
    assert!((src_sample(100, 48_000, 1.0, false) - 100.0).abs() < 1e-6);
    assert!((src_sample(100, 48_000, 2.0, false) - 200.0).abs() < 1e-6);
    assert!((src_sample(100, 48_000, 0.5, false) - 50.0).abs() < 1e-6);
}

#[test]
fn reverse_mapping_reads_from_source_end_backwards() {
    assert!((src_sample(0, 48_000, 1.0, true) - 47_999.0).abs() < 1e-6);
    assert!((src_sample(47_999, 48_000, 1.0, true) - 0.0).abs() < 1e-6);
    assert!(src_sample(0, 48_000, 1.0, true) > src_sample(1, 48_000, 1.0, true));
}

#[test]
fn processor_selection_routes_by_mode_and_preserve() {
    assert_eq!(
        resolve_clip_processor("off", false),
        ClipDspProcessor::NoStretch
    );
    assert_eq!(
        resolve_clip_processor("resample", true),
        ClipDspProcessor::Resample
    );
    assert_eq!(
        resolve_clip_processor("manual", false),
        ClipDspProcessor::Resample
    );
    assert_eq!(
        resolve_clip_processor("manual", true),
        ClipDspProcessor::PhaseVocoderBasic
    );
    assert_eq!(
        resolve_clip_processor("temposync", true),
        ClipDspProcessor::PhaseVocoderBasic
    );
    assert_eq!(
        resolve_clip_processor("warp", false),
        ClipDspProcessor::PhaseVocoderBasic
    );
}

#[test]
fn signalsmith_feed_tiles_source_without_gap_or_overlap() {
    for &(duration, ratio) in &[
        (96_000u64, 2.0_f64),
        (24_000u64, 0.5_f64),
        (50_000u64, 1.37_f64),
        (50_000u64, 0.73_f64),
    ] {
        let place = |rel: u64| (rel as f64 / ratio).floor() as u64;
        let frames = 512usize;
        let mut rel = 0u64;
        let mut prev_end: Option<u64> = None;
        let mut total: i64 = 0;
        while rel < duration {
            let block = frames.min((duration - rel) as usize);
            let span = signalsmith_input_span(place(rel), place(rel + block as u64));
            if let Some(end) = prev_end {
                assert_eq!(span.start, end, "blocks must tile with no gap/overlap");
            }
            prev_end = Some(span.start + span.frames);
            total += span.frames as i64;
            rel += block as u64;
        }
        let expected = (duration as f64 / ratio).floor() as i64;
        assert!(
            (total - expected).abs() <= 1,
            "consumed {total} source frames, expected ~{expected} (ratio {ratio})"
        );
    }
}

#[test]
fn a_stretcher_takes_one_frame_at_least_and_reads_backwards_in_reverse() {
    assert_eq!(signalsmith_input_span(7, 7).frames, 1);
    assert_eq!(stretch_source_index(10, 3, false), 3);
    assert_eq!(stretch_source_index(10, 3, true), 6);
    assert_eq!(stretch_source_index(10, 12, true), 0);
    let mut c = clip("c", 0, 0, 8);
    assert!(c.stretch_needs_reset(0));
    assert!(!c.render_signalsmith_clip_segment(0, 4, true));
    c.stretch_ready = true;
    assert!(c.render_signalsmith_clip_segment(0, 4, true));
    assert!(!c.stretch_needs_reset(4));
    assert!(!c.render_signalsmith_clip_segment(4, 4, false));
    assert!(c.stretch_needs_reset(8));
}

#[test]
fn block_render_wraps_clip_material_inside_callback() {
    let frames = 5usize;
    let channels = 2usize;
    let mut p = project(
        vec![track("audio", "audio", vec![])],
        vec![clip("clip-1", 0, 0, 8)],
    );
    let plan = render_project_block_interleaved(
        &mut p,
        3,
        frames * channels,
        channels,
        true,
        Some(LoopBounds { start: 2, end: 5 }),
    );

    assert_eq!(plan.frames, frames as u64);
    let mut mixer = Mixer::new(1, frames);
    mixer.pan = -1.0;
    mixer.source = (0..8).map(|i| i as f32 / 10.0).collect();
    mixer.run(&p, &plan.steps);
    assert_eq!(mixer.output[0], vec![0.3, 0.4, 0.2, 0.3, 0.4]);
}

#[test]
fn reverse_and_speed_change_clip_render_output() {
    let frames = 8usize;
    let channels = 2usize;
    let render = |reverse: bool, speed: f64| -> Vec<f32> {
        let mut c = clip("c", 0, 0, 8);
        c.reverse = reverse;
        let mut p = project(vec![track("audio", "audio", vec![])], vec![c]);
        let plan =
            render_project_block_interleaved(&mut p, 0, frames * channels, channels, true, None);
        let mut mixer = Mixer::new(1, frames);
        mixer.pan = -1.0;
        mixer.speed = speed;
        mixer.source = (0..8).map(|i| i as f32 / 10.0).collect();
        mixer.run(&p, &plan.steps);
        mixer.output[0].clone()
    };
    let close = |a: &[f32], b: &[f32]| {
        assert_eq!(a.len(), b.len(), "{a:?} vs {b:?}");
        for (x, y) in a.iter().zip(b) {
            assert!((x - y).abs() < 1e-4, "{a:?} vs {b:?}");
        }
    };
    close(
        &render(false, 1.0),
        &[0.0, 0.1, 0.2, 0.3, 0.4, 0.5, 0.6, 0.7],
    );
    close(
        &render(true, 1.0),
        &[0.7, 0.6, 0.5, 0.4, 0.3, 0.2, 0.1, 0.0],
    );
    close(
        &render(false, 0.5),
        &[0.0, 0.05, 0.1, 0.15, 0.2, 0.25, 0.3, 0.35],
    );
}

#[test]
fn a_stopped_transport_plays_no_clip() {
    let mut p = project(
        vec![track("audio", "audio", vec![])],
        vec![clip("c", 0, 0, 8)],
    );
    let plan = render_project_block_interleaved(&mut p, 0, 16, 2, false, None);
    assert_eq!(plan.frames, 8);
    assert!(!plan
        .steps
        .iter()
        .any(|s| matches!(s, RenderStep::Clip { .. })));
    let plan = render_project_block_interleaved(&mut p, 0, 16, 0, true, None);
    assert_eq!(plan.frames, 0);
    assert!(plan.steps.is_empty());
}

#[test]
fn a_muted_clip_and_a_muted_track_are_silent() {
    let mut quiet = clip("quiet", 0, 0, 8);
    quiet.muted = true;
    let mut muted = track("muted", "audio", vec![]);
    muted.muted = true;
    let mut p = project(
        vec![track("audio", "audio", vec![]), muted],
        vec![quiet, clip("c", 1, 0, 8)],
    );
    let plan = render_project_block_interleaved(&mut p, 0, 16, 2, true, None);
    assert!(!plan
        .steps
        .iter()
        .any(|s| matches!(s, RenderStep::Clip { .. })));
}

// ── Solo ────────────────────────────────────────────────────────────────────

/// An instrument with two output strips, by the solo flags of the three.
fn multiout(parent_solo: bool, child_solos: [bool; 2]) -> RuntimeProject {
    let mut parent = track("parent", "instrument", vec![]);
    parent.solo = parent_solo;
    let mut insert = bridged("insert-1");
    insert.bridge_is_effect = false;
    insert.vsti_output_children = vec![
        VstiOutputChild {
            track_index: 1,
            channel_l: 1,
            channel_r: 2,
        },
        VstiOutputChild {
            track_index: 2,
            channel_l: 3,
            channel_r: 4,
        },
    ];
    parent.inserts = vec![insert];
    let mut a = track("vsti-out:insert-1:bus:0", "bus", vec![]);
    a.solo = child_solos[0];
    let mut b = track("vsti-out:insert-1:bus:1", "bus", vec![]);
    b.solo = child_solos[1];
    project(vec![parent, a, b], vec![])
}

/// Whether each output strip reaches the output.
fn heard(p: &mut RuntimeProject) -> [bool; 2] {
    let plan = render_project_block_interleaved(p, 0, 16, 2, true, None);
    let heard = |track: usize| {
        plan.steps
            .iter()
            .any(|s| matches!(s, RenderStep::MainToMaster { source } if *source == track))
    };
    // The instrument itself must run for its strips to carry anything.
    assert!(plan
        .steps
        .iter()
        .any(|s| matches!(s, RenderStep::Chain { track: 0 })));
    [heard(1), heard(2)]
}

#[test]
fn soloing_parent_vsti_track_sounds_every_multi_out_channel() {
    assert_eq!(heard(&mut multiout(true, [false, false])), [true, true]);
}

#[test]
fn soloing_one_multi_out_channel_isolates_that_channel() {
    assert_eq!(heard(&mut multiout(false, [false, true])), [false, true]);
}

#[test]
fn without_a_solo_every_strip_is_heard() {
    assert_eq!(heard(&mut multiout(false, [false, false])), [true, true]);
}

// ── Automation ──────────────────────────────────────────────────────────────

#[test]
fn track_mute_automation_overrides_base_mute_state() {
    let mut t = track("audio", "audio", vec![]);
    assert!(!effective_track_muted(&t));

    t.automation_muted = Some(true);
    assert!(effective_track_muted(&t));

    t.automation_muted = None;
    assert!(!effective_track_muted(&t));

    t.muted = true;
    t.automation_muted = Some(false);
    assert!(!effective_track_muted(&t));
}

// ── Routing ─────────────────────────────────────────────────────────────────

fn apply_sends(p: &RuntimeProject, mixer: &mut Mixer, source: usize, pre_fader: bool) {
    let mut steps = Vec::new();
    accumulate_sends(&p.tracks, source, pre_fader, &mut steps);
    mixer.run(p, &steps);
}

#[test]
fn send_to_return_accumulates_scaled() {
    let frames = 4;
    let p = project(
        vec![
            track("audio", "audio", vec![send("ret", 0.5)]),
            track("ret", "return", vec![]),
        ],
        vec![],
    );
    let mut mixer = Mixer::new(2, frames);
    mixer.block[0][0].fill(1.0);
    mixer.block[0][1].fill(-2.0);

    apply_sends(&p, &mut mixer, 0, false);

    assert!(mixer.recv[1][0].iter().all(|&v| (v - 0.5).abs() < 1e-6));
    assert!(mixer.recv[1][1].iter().all(|&v| (v + 1.0).abs() < 1e-6));
}

#[test]
fn pre_fader_filter_only_routes_matching_phase() {
    let frames = 4;
    let mut pre = send("ret", 1.0);
    pre.pre_fader = true;
    let p = project(
        vec![
            track("audio", "audio", vec![pre]),
            track("ret", "return", vec![]),
        ],
        vec![],
    );
    let mut mixer = Mixer::new(2, frames);
    mixer.block[0][0].fill(1.0);

    apply_sends(&p, &mut mixer, 0, false);
    assert!(mixer.recv[1][0].iter().all(|&v| v == 0.0));

    apply_sends(&p, &mut mixer, 0, true);
    assert!(mixer.recv[1][0].iter().all(|&v| (v - 1.0).abs() < 1e-6));
}

#[test]
fn send_to_non_routing_target_is_rejected() {
    let frames = 4;
    let p = project(
        vec![
            track("a", "audio", vec![send("b", 1.0)]),
            track("b", "audio", vec![]),
        ],
        vec![],
    );
    let mut mixer = Mixer::new(2, frames);
    mixer.block[0][0].fill(1.0);
    apply_sends(&p, &mut mixer, 0, false);
    assert!(mixer.recv[1][0].iter().all(|&v| v == 0.0));
}

#[test]
fn routing_to_earlier_routing_is_rejected_as_cycle_unsafe() {
    let frames = 4;
    let p = project(
        vec![
            track("early", "bus", vec![send("late", 1.0)]),
            track("late", "return", vec![send("early", 1.0)]),
        ],
        vec![],
    );
    let mut mixer = Mixer::new(2, frames);
    mixer.block[0][0].fill(1.0);
    mixer.block[1][0].fill(1.0);

    apply_sends(&p, &mut mixer, 0, false);
    apply_sends(&p, &mut mixer, 1, false);

    assert!(mixer.recv[1][0].iter().all(|&v| (v - 1.0).abs() < 1e-6));
    assert!(mixer.recv[0][0].iter().all(|&v| v == 0.0));
}

#[test]
fn disabled_and_zero_sends_do_not_route() {
    let mut off = send("ret", 1.0);
    off.enabled = false;
    let p = project(
        vec![
            track("audio", "audio", vec![off, send("ret", 0.0), send("ret", -0.0)]),
            track("ret", "return", vec![]),
        ],
        vec![],
    );
    let mut steps = Vec::new();
    accumulate_sends(&p.tracks, 0, false, &mut steps);
    assert!(steps.is_empty());
}

#[test]
fn main_output_to_bus_routes_into_bus_receive_not_master() {
    let frames = 4;
    let mut a = track("a", "audio", vec![]);
    a.output_track_id = Some("bus".to_string());
    let p = project(vec![a, track("bus", "bus", vec![])], vec![]);
    let mut mixer = Mixer::new(2, frames);
    mixer.block[0][0].fill(0.8);
    mixer.block[0][1].fill(-0.4);

    mixer.run(&p, &[route_main_output(&p.tracks, 0)]);

    assert!(mixer.recv[1][0].iter().all(|&v| (v - 0.8).abs() < 1e-6));
    assert!(mixer.recv[1][1].iter().all(|&v| (v + 0.4).abs() < 1e-6));
    assert!(mixer.output.iter().all(|side| side.iter().all(|&v| v == 0.0)));
}

#[test]
fn main_output_to_master_sums_into_output() {
    let frames = 4;
    let p = project(vec![track("a", "audio", vec![])], vec![]);
    let mut mixer = Mixer::new(1, frames);
    mixer.block[0][0].fill(0.5);
    mixer.block[0][1].fill(0.25);

    mixer.run(&p, &[route_main_output(&p.tracks, 0)]);

    for f in 0..frames {
        assert!((mixer.output[0][f] - 0.5).abs() < 1e-6);
        assert!((mixer.output[1][f] - 0.25).abs() < 1e-6);
    }
}

#[test]
fn main_output_to_non_routing_track_falls_back_to_master() {
    let frames = 4;
    let mut a = track("a", "audio", vec![]);
    a.output_track_id = Some("b".to_string());
    let p = project(vec![a, track("b", "audio", vec![])], vec![]);
    let mut mixer = Mixer::new(2, frames);
    mixer.block[0][0].fill(1.0);
    mixer.block[0][1].fill(1.0);

    mixer.run(&p, &[route_main_output(&p.tracks, 0)]);

    assert!(mixer
        .output
        .iter()
        .all(|side| side.iter().all(|&v| (v - 1.0).abs() < 1e-6)));
    assert!(mixer.recv[1][0].iter().all(|&v| v == 0.0));
}

#[test]
fn feeds_come_before_the_tracks_that_take_them() {
    let mut a = track("a", "audio", vec![send("ret", 1.0)]);
    a.output_track_id = Some("bus".to_string());
    let mut p = project(
        vec![
            track("master", "master", vec![]),
            track("bus", "bus", vec![]),
            track("ret", "return", vec![]),
            a,
        ],
        vec![clip("c", 3, 0, 4)],
    );
    let plan = render_project_block_interleaved(&mut p, 0, 8, 2, true, None);
    let at = |wanted: RenderStep| plan.steps.iter().position(|s| *s == wanted).unwrap();
    assert!(
        at(RenderStep::MainToBus {
            source: 3,
            target: 1
        }) < at(RenderStep::LoadReceive { track: 1 })
    );
    assert!(
        at(RenderStep::Send {
            source: 3,
            send: 0,
            target: 2
        }) < at(RenderStep::LoadReceive { track: 2 })
    );
    assert!(at(RenderStep::MainToMaster { source: 2 }) < at(RenderStep::LoadMaster { track: 0 }));
    assert_eq!(*plan.steps.last().unwrap(), RenderStep::Limit);
}

#[test]
fn master_names_are_the_master() {
    assert!(is_master_output("master"));
    assert!(!is_master_output("bus-1"));
}

#[test]
fn one_sample_is_planned_like_a_block() {
    let p = project(
        vec![
            track("audio", "audio", vec![send("ret", 1.0)]),
            track("ret", "return", vec![]),
        ],
        vec![clip("c", 0, 10, 4)],
    );
    let voices = |sample: u64| {
        render_project_sample(&p, sample)
            .into_iter()
            .filter(|s| matches!(s, SampleStep::Voice { .. }))
            .count()
    };
    assert_eq!(voices(9), 0);
    assert_eq!(voices(10), 1);
    assert_eq!(voices(13), 1);
    assert_eq!(voices(14), 0);
}

// ── Notes ───────────────────────────────────────────────────────────────────

#[test]
fn playback_restarts_at_a_wrap() {
    let (actions, at_end) =
        schedule_midi_render_block(3, 5, Some(LoopBounds { start: 2, end: 5 }));
    assert_eq!(
        actions,
        vec![
            MidiAction::Schedule {
                sample: 3,
                frames: 2,
                offset: 0
            },
            MidiAction::Reset {
                sample: 2,
                offset: 2
            },
            MidiAction::Schedule {
                sample: 2,
                frames: 3,
                offset: 2
            },
        ]
    );
    assert_eq!(at_end, Some(2));
    let (actions, at_end) = schedule_midi_render_block(3, 5, None);
    assert_eq!(
        actions,
        vec![MidiAction::Schedule {
            sample: 3,
            frames: 5,
            offset: 0
        }]
    );
    assert_eq!(at_end, None);
}

// ── Bridged inserts ─────────────────────────────────────────────────────────

fn bridged(id: &str) -> RuntimeInsert {
    RuntimeInsert {
        id: id.to_string(),
        kind: "external-bridge-plugin".to_string(),
        kind_tag: RuntimeInsertKind::ExternalBridge,
        enabled: true,
        native: None,
        bridge: Some(BridgeBinding {
            reported_latency_samples: 0,
        }),
        bridge_is_effect: true,
        bridge_missed_blocks: 0,
        vsti_output_children: Vec::new(),
    }
}

fn bridge_effect_track() -> RuntimeTrack {
    let mut t = track("track-1", "audio", vec![]);
    t.inserts = vec![bridged("insert-1")];
    t
}

/// A plug-in host on the other side of a bridge.
enum Sink {
    /// Always gives this.
    Wet(f32),
    /// Gives back what it was handed, times this.
    Mult(f32),
    /// Never has a block ready.
    Miss,
}

struct Host {
    sinks: Vec<Sink>,
    pushes: Vec<(u32, f32)>,
    requests: u32,
}

/// Run a chain on a block of a constant.
fn run_chain(t: &mut RuntimeTrack, host: &mut Host, block: f32, playing: bool) -> [f32; 4] {
    let mut block = [block; 4];
    for step in apply_track_chain_block(t, 4, false, playing) {
        match step {
            ChainStep::PushParam {
                param_id,
                value_bits,
                ..
            } => host.pushes.push((param_id, f32::from_bits(value_bits))),
            ChainStep::Bridge { insert, with_midi } => {
                let sink = &host.sinks[insert];
                let mut handed = [0.0f32; 4];
                let mut got = 0;
                let mut wet = [0.0f32; 4];
                for b in begin_external_bridge_insert_block(&t.inserts[insert], 4, with_midi) {
                    match b {
                        BridgeStep::WriteInput { frames } => {
                            handed[..frames].copy_from_slice(&block[..frames])
                        }
                        BridgeStep::ReadOutput { frames } => match sink {
                            Sink::Wet(v) => {
                                wet.fill(*v);
                                got = frames;
                            }
                            Sink::Mult(m) => {
                                for i in 0..frames {
                                    wet[i] = handed[i] * m;
                                }
                                got = frames;
                            }
                            Sink::Miss => {}
                        },
                        _ => {}
                    }
                }
                let (mix, rest) =
                    apply_external_bridge_insert_block(&mut t.inserts[insert], 4, got);
                match mix {
                    BridgeMix::Replace { frames } => block[..frames].copy_from_slice(&wet[..frames]),
                    BridgeMix::Add { frames } => {
                        for i in 0..frames {
                            block[i] += wet[i];
                        }
                    }
                    BridgeMix::Keep | BridgeMix::Split { .. } => {}
                }
                for b in rest {
                    if let BridgeStep::RequestBlock { block_frames } = b {
                        assert_eq!(block_frames, 4);
                        host.requests += 1;
                    }
                }
            }
            ChainStep::Builtin { .. } | ChainStep::Native { .. } => {}
        }
    }
    block
}

fn host(sinks: Vec<Sink>) -> Host {
    Host {
        sinks,
        pushes: Vec::new(),
        requests: 0,
    }
}

#[test]
fn bridged_vst3_and_builtin_effects_process_on_master_when_sink_is_bound() {
    for kind in ["external-bridge-plugin", "external-bridge-builtin"] {
        let mut t = bridge_effect_track();
        t.track_type = "master".to_string();
        t.inserts[0].kind = kind.to_string();
        let mut h = host(vec![Sink::Wet(0.25)]);
        let block = run_chain(&mut t, &mut h, 1.0, false);
        assert!((block[0] - 0.25).abs() < 1e-6);
        assert_eq!(h.requests, 1);
    }
}

fn param_binding(value: Option<f32>) -> RuntimePluginParamBinding {
    RuntimePluginParamBinding {
        insert_ix: 0,
        lane_ix: 0,
        param_id: 42,
        last_value_bits: f32::NAN.to_bits(),
        value_bits: value.map(|v| v.to_bits()),
    }
}

#[test]
fn plugin_param_automation_pushes_value_to_bridge_sink_during_playback() {
    let mut t = bridge_effect_track();
    // At beat 2 the lane stands half way between 0 and 1.
    t.plugin_param_automation = vec![param_binding(Some(0.5))];
    let mut h = host(vec![Sink::Miss]);
    run_chain(&mut t, &mut h, 0.0, true);

    assert_eq!(h.pushes.len(), 1);
    assert_eq!(h.pushes[0].0, 42);
    assert!((h.pushes[0].1 - 0.5).abs() < 1e-4);
}

#[test]
fn plugin_param_automation_dedupes_unchanged_value_and_is_idle_when_stopped() {
    let mut t = bridge_effect_track();
    t.plugin_param_automation = vec![param_binding(Some(0.5))];
    let mut h = host(vec![Sink::Miss]);
    run_chain(&mut t, &mut h, 0.0, true);
    run_chain(&mut t, &mut h, 0.0, true);
    assert_eq!(h.pushes.len(), 1);

    t.plugin_param_automation[0].value_bits = Some(0.875f32.to_bits());
    run_chain(&mut t, &mut h, 0.0, false);
    assert_eq!(h.pushes.len(), 1);
}

#[test]
fn a_bridged_insert_is_bridged_by_its_chain_alone() {
    let mut t = bridge_effect_track();
    assert!(apply_track_chain_block(&mut t, 4, false, false)
        .iter()
        .all(|step| matches!(step, ChainStep::Bridge { .. })));
    assert!(matches!(
        apply_insert_block(&t.inserts[0], 0, 4, false),
        Some(ChainStep::Builtin { insert: 0 })
    ));
    assert!(apply_insert_block(&t.inserts[0], 0, 0, false).is_none());
}

#[test]
fn external_bridge_effect_stays_dry_without_sink() {
    let mut t = bridge_effect_track();
    t.inserts[0].bridge = None;
    let block = run_chain(&mut t, &mut host(vec![Sink::Wet(0.25)]), 1.0, false);
    assert!((block[0] - 1.0).abs() < 1e-6);
    assert!((block[3] - 1.0).abs() < 1e-6);
}

#[test]
fn serial_bridge_effect_chain_applies_both_gains() {
    let mut t = track("track-1", "audio", vec![]);
    t.inserts = vec![bridged("insert-a"), bridged("insert-b")];
    let mut h = host(vec![Sink::Mult(2.0), Sink::Mult(3.0)]);
    let block = run_chain(&mut t, &mut h, 1.0, false);
    assert!(
        (block[0] - 6.0).abs() < 1e-4,
        "serial chain expected 1*2*3=6 got {}",
        block[0]
    );
}

#[test]
fn serial_bridge_effect_chain_bypasses_only_missed_middle_insert() {
    let mut t = track("track-1", "audio", vec![]);
    t.inserts = vec![
        bridged("insert-a"),
        bridged("insert-b"),
        bridged("insert-c"),
    ];
    let mut h = host(vec![Sink::Mult(2.0), Sink::Miss, Sink::Mult(5.0)]);
    let block = run_chain(&mut t, &mut h, 1.0, false);
    assert!(
        (block[0] - 10.0).abs() < 1e-4,
        "A x2, B missed, C x5 expected 1*2*5=10 got {}",
        block[0]
    );
    assert_eq!(t.inserts[1].bridge_missed_blocks, 1);
    assert_eq!(t.inserts[2].bridge_missed_blocks, 0);
}

#[test]
fn missed_blocks_count_one_stall_and_start_over() {
    let mut t = bridge_effect_track();
    let mut missing = host(vec![Sink::Miss]);
    for n in 1..=3 {
        run_chain(&mut t, &mut missing, 1.0, false);
        assert_eq!(t.inserts[0].bridge_missed_blocks, n);
    }
    run_chain(&mut t, &mut host(vec![Sink::Wet(0.5)]), 1.0, false);
    assert_eq!(t.inserts[0].bridge_missed_blocks, 0);
}

#[test]
fn an_absent_in_process_plugin_leaves_single_samples_dry() {
    let mut insert = bridged("a");
    insert.kind_tag = RuntimeInsertKind::NativePlugin;
    assert_eq!(apply_insert(&insert), InsertAction::Dry);
    insert.kind_tag = RuntimeInsertKind::Builtin;
    assert_eq!(apply_insert(&insert), InsertAction::Builtin);
}
