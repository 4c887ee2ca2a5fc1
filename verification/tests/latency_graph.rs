use sphere_direct_audio_engine::engine::command::TrackInputRoute;
use sphere_direct_audio_engine::latency_graph::{
    apply_pdc_delay_block, plan_runtime_latency_graph, recompute_runtime_latency_graph,
    strip_plugin_latency_samples, RuntimeLatencyGraph,
};
use sphere_direct_audio_engine::runtime::{
    is_master_track_type, is_routing_track_type, BridgeBinding, NativeProcessor, RuntimeAudioGraph,
    RuntimeInsert, RuntimeInsertKind, RuntimeProject, RuntimeSend, RuntimeTrack,
};

fn track(id: &str, track_type: &str, plugin_latency: u32, sends: Vec<RuntimeSend>) -> RuntimeTrack {
    RuntimeTrack {
        id: id.to_string(),
        track_type: track_type.to_string(),
        muted: false,
        automation_muted: None,
        solo: false,
        record_armed: false,
        monitor_enabled: false,
        input_source: TrackInputRoute::Unrouted,
        output_track_id: None,
        output_track_index: None,
        inserts: Vec::new(),
        sends,
        midi_instrument_insert_ix: None,
        plugin_param_automation: Vec::new(),
        plugin_latency_samples: plugin_latency,
    }
}

fn send(id: &str, target: &str) -> RuntimeSend {
    RuntimeSend {
        id: id.to_string(),
        return_track_id: target.to_string(),
        return_track_index: None,
        level_bits: 1.0f32.to_bits(),
        enabled: true,
        pre_fader: false,
    }
}

fn native_insert(id: &str, latency: i32) -> RuntimeInsert {
    RuntimeInsert {
        id: id.to_string(),
        kind: "vst3".to_string(),
        kind_tag: RuntimeInsertKind::NativePlugin,
        enabled: true,
        native: Some(NativeProcessor {
            ready: true,
            valid: true,
            latency_samples: latency,
        }),
        bridge: None,
        bridge_is_effect: false,
        bridge_missed_blocks: 0,
        vsti_output_children: Vec::new(),
    }
}

fn bridged_insert(id: &str, latency: u32) -> RuntimeInsert {
    RuntimeInsert {
        id: id.to_string(),
        kind: "vst3".to_string(),
        kind_tag: RuntimeInsertKind::ExternalBridge,
        enabled: true,
        native: None,
        bridge: Some(BridgeBinding {
            reported_latency_samples: latency,
        }),
        bridge_is_effect: true,
        bridge_missed_blocks: 0,
        vsti_output_children: Vec::new(),
    }
}

fn plan_audio_graph(tracks: &Vec<RuntimeTrack>) -> RuntimeAudioGraph {
    let mut graph = RuntimeAudioGraph {
        master_index: None,
        pass1_source_indices: Vec::new(),
        pass2_routing_indices: Vec::new(),
    };
    for (i, t) in tracks.iter().enumerate() {
        if is_master_track_type(&t.track_type) {
            graph.master_index = Some(i);
        } else if is_routing_track_type(&t.track_type) {
            graph.pass2_routing_indices.push(i);
        } else {
            graph.pass1_source_indices.push(i);
        }
    }
    graph
}

#[test]
fn pdc_delays_shorter_track_to_match_longer_path() {
    let mut tracks = vec![
        track("fast", "audio", 0, vec![]),
        track("slow", "audio", 512, vec![]),
        track("master", "master", 0, vec![]),
    ];
    let audio_graph = plan_audio_graph(&tracks);
    let latency = plan_runtime_latency_graph(&mut tracks, &audio_graph, true);
    assert_eq!(latency.max_path_latency_samples, 512);
    assert_eq!(latency.track_pdc_delay[0], 512);
    assert_eq!(latency.track_pdc_delay[1], 0);
}

#[test]
fn return_feed_increases_path_latency() {
    let mut tracks = vec![
        track("src", "audio", 128, vec![send("s", "ret")]),
        track("ret", "return", 256, vec![]),
        track("master", "master", 0, vec![]),
    ];
    let audio_graph = plan_audio_graph(&tracks);
    let latency = plan_runtime_latency_graph(&mut tracks, &audio_graph, true);
    assert_eq!(latency.track_output_latency[1], 128 + 256);
    assert_eq!(latency.max_path_latency_samples, 128 + 256);
    // The dry path is 128 and the wet one 384; the dry one is delayed by 256
    // after the send tap so that both meet at the master.
    assert_eq!(latency.track_pdc_delay[0], 256);
    assert_eq!(latency.track_pdc_delay[1], 0);
}

#[test]
fn main_to_bus_does_not_double_pdc_against_longer_direct_path() {
    let mut src = track("src", "audio", 0, vec![]);
    src.output_track_id = Some("bus".to_string());
    let mut tracks = vec![
        src,
        track("bus", "bus", 0, vec![]),
        track("slow", "audio", 512, vec![]),
        track("master", "master", 0, vec![]),
    ];
    let audio_graph = plan_audio_graph(&tracks);
    let latency = plan_runtime_latency_graph(&mut tracks, &audio_graph, true);
    assert_eq!(latency.max_path_latency_samples, 512);
    assert_eq!(
        latency.track_pdc_delay[0], 0,
        "main→bus feeder must not take PDC (would double with the bus)"
    );
    assert_eq!(
        latency.track_pdc_delay[1], 512,
        "bus compensates once to align with the longer direct path"
    );
    assert_eq!(latency.track_pdc_delay[2], 0);
    let bus_arrival = latency.track_output_latency[1] + latency.track_pdc_delay[1];
    assert_eq!(bus_arrival, latency.max_path_latency_samples);
}

#[test]
fn strip_latency_uses_stored_value_as_a_floor() {
    let t = track("bridged", "audio", 900, vec![]);
    assert_eq!(strip_plugin_latency_samples(&t), 900);

    let zero = track("empty", "audio", 0, vec![]);
    assert_eq!(strip_plugin_latency_samples(&zero), 0);
}

#[test]
fn apply_pdc_delay_block_shifts_samples() {
    let bits = |v: [f32; 4]| v.iter().map(|x| x.to_bits()).collect::<Vec<u32>>();
    let mut block_l = bits([1.0, 2.0, 3.0, 4.0]);
    let mut block_r = bits([-1.0, -2.0, -3.0, -4.0]);
    let mut delay_l = vec![0u32; 8];
    let mut delay_r = vec![0u32; 8];
    let mut pos = 0usize;
    apply_pdc_delay_block(
        &mut block_l,
        &mut block_r,
        &mut delay_l,
        &mut delay_r,
        &mut pos,
        2,
        4,
    );
    assert_eq!(f32::from_bits(block_l[0]), 0.0);
    assert_eq!(f32::from_bits(block_l[1]), 0.0);
    assert_eq!(f32::from_bits(block_l[2]), 1.0);
    assert_eq!(f32::from_bits(block_l[3]), 2.0);
    assert_eq!(f32::from_bits(block_r[3]), -2.0);
}

#[test]
fn a_delay_line_ignores_block_boundaries() {
    let input: Vec<u32> = (1..=12).collect();
    let run = |cut: usize| {
        let mut line_l = vec![0u32; 5];
        let mut line_r = vec![0u32; 5];
        let mut pos = 0usize;
        let mut out = Vec::new();
        for part in input.chunks(cut) {
            let mut l = part.to_vec();
            let mut r = part.to_vec();
            let n = l.len();
            apply_pdc_delay_block(&mut l, &mut r, &mut line_l, &mut line_r, &mut pos, 3, n);
            assert_eq!(l, r);
            out.extend(l);
        }
        out
    };
    let whole = run(12);
    assert_eq!(whole, vec![0, 0, 0, 1, 2, 3, 4, 5, 6, 7, 8, 9]);
    assert_eq!(run(1), whole);
    assert_eq!(run(5), whole);
}

#[test]
fn a_zero_delay_leaves_the_block_alone() {
    let mut l = vec![1u32, 2];
    let mut r = vec![3u32, 4];
    let mut line_l = vec![9u32; 4];
    let mut line_r = vec![9u32; 4];
    let mut pos = 1usize;
    apply_pdc_delay_block(&mut l, &mut r, &mut line_l, &mut line_r, &mut pos, 0, 2);
    assert_eq!((l, r, pos), (vec![1, 2], vec![3, 4], 1));
    assert_eq!(line_l, vec![9; 4]);
}

#[test]
fn compensation_off_keeps_latencies_and_drops_delays() {
    let build = || {
        vec![
            track("fast", "audio", 10, vec![]),
            track("slow", "audio", 512, vec![]),
            track("master", "master", 64, vec![]),
        ]
    };
    let mut tracks = build();
    let audio_graph = plan_audio_graph(&tracks);
    let on = plan_runtime_latency_graph(&mut tracks, &audio_graph, true);
    let off = plan_runtime_latency_graph(&mut build(), &audio_graph, false);
    assert_eq!(on.track_pdc_delay[0], 502);
    assert_eq!(off.track_pdc_delay, vec![0, 0, 0]);
    assert_eq!(off.track_plugin_latency, on.track_plugin_latency);
    assert_eq!(off.track_output_latency, on.track_output_latency);
    assert_eq!(off.max_path_latency_samples, on.max_path_latency_samples);
    assert_eq!(on.master_plugin_latency, 64);
}

#[test]
fn in_process_inserts_add_up_and_beat_a_smaller_stored_value() {
    let mut t = track("t", "audio", 100, vec![]);
    t.inserts = vec![native_insert("a", 64), native_insert("b", 256)];
    assert_eq!(strip_plugin_latency_samples(&t), 320);
    t.inserts[0].enabled = false;
    assert_eq!(strip_plugin_latency_samples(&t), 256);
    t.inserts[1].native = Some(NativeProcessor {
        ready: true,
        valid: true,
        latency_samples: -5,
    });
    assert_eq!(strip_plugin_latency_samples(&t), 100);
}

#[test]
fn a_latency_graph_of_another_size_is_left_alone() {
    let tracks = vec![track("a", "audio", 32, vec![])];
    let audio_graph = plan_audio_graph(&tracks);
    let mut graph = RuntimeLatencyGraph::default();
    recompute_runtime_latency_graph(&mut graph, &tracks, &audio_graph, true);
    assert!(graph.track_pdc_delay.is_empty());
    assert_eq!(graph.max_path_latency_samples, 0);
}

#[test]
fn bridge_latency_refresh_updates_pdc_delays() {
    let frames = 16usize;
    let fast = track("fast", "audio", 0, vec![]);
    let mut slow = track("slow", "audio", 0, vec![]);
    slow.inserts = vec![bridged_insert("slow-insert", 16)];
    let tracks = vec![fast, slow];
    let audio_graph = plan_audio_graph(&tracks);
    let mut p = RuntimeProject {
        tracks,
        audio_graph,
        pdc_enabled: true,
        ..Default::default()
    };

    assert!(p.refresh_runtime_latency_graph(frames as u32));
    assert_eq!(p.latency_graph.track_plugin_latency[0], 0);
    assert_eq!(p.latency_graph.track_plugin_latency[1], 32);
    assert_eq!(p.latency_graph.track_pdc_delay[0], 32);
    assert_eq!(p.latency_graph.track_pdc_delay[1], 0);
    assert!(!p.refresh_runtime_latency_graph(frames as u32));
}

#[test]
fn a_project_that_points_nowhere_is_not_well_formed() {
    let mut p = RuntimeProject::default();
    assert!(p.is_well_formed());
    p.tracks = vec![track("a", "audio", 0, vec![send("s", "ret")])];
    p.audio_graph = plan_audio_graph(&p.tracks);
    assert!(p.is_well_formed());
    p.tracks[0].sends[0].return_track_index = Some(1);
    assert!(!p.is_well_formed());
    p.tracks[0].sends[0].return_track_index = Some(0);
    assert!(p.is_well_formed());
    p.audio_graph.master_index = Some(1);
    assert!(!p.is_well_formed());
    p.audio_graph.master_index = None;
    p.tracks[0].inserts = vec![
        native_insert("a", i32::MAX),
        native_insert("b", i32::MAX),
        native_insert("c", 2),
    ];
    assert!(!p.is_well_formed());
}
