use std::collections::BTreeMap;

use sphere_direct_audio_engine::engine::command::TrackInputRoute;
use sphere_direct_audio_engine::engine::input::{TrackInputSource, TrackSnapshot};
use sphere_direct_audio_engine::export::exporter::{
    begin_batch, encoding_progress, export_arrangement, export_tracks_single_pass,
    missing_directory, next_batch_phase, next_phase, partial_path_for, report_phase, BatchPhase,
    ExportPhase, TrackExportTarget,
};
use sphere_direct_audio_engine::export::offline_renderer::{
    export_warmup_frames, output_layout, stem_layout, read_bridge_block, restore_offline_plugin_states,
    BridgeTry, EmitSlice, OfflineRender, OutputSample, RenderCommand, SavedInsert, SavedTrack,
    StateRestore, BRIDGE_POLL_US, BRIDGE_WAIT_US,
};
use sphere_direct_audio_engine::export::render_progress::{
    ExportCancelToken, ExportProgress, ExportStage,
};
use sphere_direct_audio_engine::export::render_request::{
    arrangement_bounds_samples, ExportNormalizeMode, ExportTailMode, OfflineRenderRequest,
};
use sphere_direct_audio_engine::export::ExportError;
use sphere_direct_audio_engine::latency_graph::RuntimeLatencyGraph;
use sphere_direct_audio_engine::runtime::{
    NativeProcessor, RuntimeAudioGraph, RuntimeInsert, RuntimeInsertKind, RuntimeProject,
    RuntimeTrack,
};

fn request(start: u64, end: u64) -> OfflineRenderRequest {
    OfflineRenderRequest {
        sample_rate: 48_000,
        channels: 2,
        start_sample: start,
        end_sample: end,
        master_volume: 1.0f32.to_bits(),
        block_size: 256,
        tail: ExportTailMode::NoTail,
        normalize: ExportNormalizeMode::Unchanged,
    }
}

fn runtime_track(id: &str, latency: u32) -> RuntimeTrack {
    RuntimeTrack {
        id: id.to_string(),
        track_type: "audio".to_string(),
        muted: false,
        automation_muted: None,
        solo: false,
        record_armed: false,
        monitor_enabled: false,
        input_source: TrackInputRoute::Unrouted,
        output_track_id: None,
        output_track_index: None,
        inserts: Vec::new(),
        sends: Vec::new(),
        midi_instrument_insert_ix: None,
        plugin_param_automation: Vec::new(),
        plugin_latency_samples: latency,
    }
}

fn plugin(id: &str, latency: Option<i32>) -> RuntimeInsert {
    RuntimeInsert {
        id: id.to_string(),
        kind: "native-plugin".to_string(),
        kind_tag: RuntimeInsertKind::NativePlugin,
        enabled: true,
        native: latency.map(|latency_samples| NativeProcessor {
            ready: true,
            valid: true,
            latency_samples,
        }),
        bridge: None,
        bridge_is_effect: false,
        bridge_missed_blocks: 0,
        vsti_output_children: Vec::new(),
    }
}

/// Render silence, handing every written slice over. `quiet_after` is how many
/// frames sound before the tail is quiet.
fn render_offline(
    req: &OfflineRenderRequest,
    cancel: &ExportCancelToken,
    warmup: u64,
    quiet_after: u64,
    mut write: impl FnMut(usize),
) -> Result<u64, ExportError> {
    let mut render = OfflineRender::begin(req, warmup)?;
    loop {
        match render.next_block(cancel.is_cancelled()) {
            RenderCommand::Cancelled | RenderCommand::Finished => break,
            RenderCommand::Render { frames, .. } => {
                if let Some(slice) = render.emit_slice(frames) {
                    write(slice.to - slice.from);
                }
                let quiet = render.produced >= quiet_after;
                if render.block_rendered(frames, quiet).stop {
                    break;
                }
            }
        }
    }
    render.summary(cancel.is_cancelled())
}

#[test]
fn warmup_is_max_path_plus_master_when_pdc_on() {
    let lg = RuntimeLatencyGraph {
        max_path_latency_samples: 512,
        master_plugin_latency: 128,
        ..Default::default()
    };
    assert_eq!(export_warmup_frames(&lg, true), 640);
    assert_eq!(export_warmup_frames(&lg, false), 0);
}

#[test]
fn warmup_is_zero_without_latency() {
    let lg = RuntimeLatencyGraph::default();
    assert_eq!(export_warmup_frames(&lg, true), 0);
    assert_eq!(export_warmup_frames(&lg, false), 0);
}

#[test]
fn emit_slice_math_keeps_full_bridge_block_across_warmup() {
    let render = OfflineRender::begin(&request(0, 1000), 100).unwrap();
    let frames = match render.next_block(false) {
        RenderCommand::Render { frames, .. } => frames,
        other => panic!("{other:?}"),
    };
    let slice = render.emit_slice(frames).unwrap();
    assert_eq!(slice.to - slice.from, 156);
    assert_eq!(slice, EmitSlice { from: 100, to: 256 });
    assert_eq!(frames, 256, "bridge block size must stay full");
}

#[test]
fn export_snapshot_pdc_flag_reaches_runtime_graph() {
    for pdc in [true, false] {
        let mut slow = runtime_track("slow", 0);
        slow.inserts.push(plugin("insert-1", Some(512)));
        let mut runtime = RuntimeProject {
            tracks: vec![runtime_track("track-1", 0), slow],
            audio_graph: RuntimeAudioGraph {
                master_index: None,
                pass1_source_indices: vec![0, 1],
                pass2_routing_indices: Vec::new(),
            },
            pdc_enabled: pdc,
            ..Default::default()
        };
        assert!(runtime.refresh_runtime_latency_graph(256));
        assert_eq!(
            runtime.pdc_enabled, pdc,
            "runtime graph must adopt the snapshot's PDC state"
        );
        let delay = runtime.latency_graph.track_pdc_delay[0];
        assert_eq!(delay, if pdc { 512 } else { 0 });
    }
}

#[test]
fn empty_project_renders_exact_frame_count_of_silence() {
    let req = request(0, 1000);
    let cancel = ExportCancelToken::new();
    let mut total = 0u64;
    let frames = render_offline(&req, &cancel, 0, 0, |n| total += n as u64).unwrap();
    assert_eq!(frames, 1000);
    assert_eq!(total, 1000);
}

#[test]
fn pre_cancelled_render_returns_cancelled() {
    let req = request(0, 100_000);
    let cancel = ExportCancelToken::new();
    cancel.cancel();
    let result = render_offline(&req, &cancel, 0, 0, |_| {});
    assert!(matches!(result, Err(ExportError::Cancelled)));
}

#[test]
fn invalid_range_is_rejected() {
    let req = request(500, 500);
    let cancel = ExportCancelToken::new();
    let result = render_offline(&req, &cancel, 0, 0, |_| {});
    assert!(matches!(result, Err(ExportError::Settings(_))));
}

#[test]
fn restore_offline_plugin_states_skips_uninstantiated_insert() {
    let saved = vec![SavedTrack {
        id: "track-1".to_string(),
        inserts: vec![SavedInsert {
            id: "insert-1".to_string(),
            has_state: true,
        }],
    }];
    let mut runtime = RuntimeProject::default();
    let mut t = runtime_track("track-1", 0);
    t.inserts.push(plugin("insert-1", None));
    runtime.tracks.push(t);
    assert!(restore_offline_plugin_states(&saved, &runtime).is_empty());

    runtime.tracks[0].inserts[0].native = Some(NativeProcessor {
        ready: true,
        valid: true,
        latency_samples: 0,
    });
    assert_eq!(
        restore_offline_plugin_states(&saved, &runtime),
        vec![StateRestore {
            saved_track: 0,
            saved_insert: 0,
            track: 0,
            insert: 0,
        }]
    );
}

#[test]
fn mono_output_folds_to_single_channel() {
    let mut req = request(0, 480);
    req.channels = 1;
    let cancel = ExportCancelToken::new();
    let per_frame = output_layout(req.channels).len() as u64;
    let mut samples = 0u64;
    render_offline(&req, &cancel, 0, 0, |n| samples += n as u64 * per_frame).unwrap();
    assert_eq!(samples, 480);
    assert_eq!(output_layout(1), vec![OutputSample::Fold]);
}

#[test]
fn channels_past_the_second_are_silent() {
    assert_eq!(
        output_layout(3),
        vec![OutputSample::Left, OutputSample::Right, OutputSample::Silence]
    );
}

#[test]
fn a_stem_is_folded_or_carries_both_sides() {
    assert_eq!(stem_layout(1), vec![OutputSample::Fold]);
    for channels in [0, 2, 3, 8] {
        assert_eq!(
            stem_layout(channels),
            vec![OutputSample::Left, OutputSample::Right]
        );
    }
}

#[test]
fn warmup_is_not_written_and_the_length_is_kept() {
    let mut req = request(100, 1100);
    req.tail = ExportTailMode::Fixed { frames: 500 };
    let cancel = ExportCancelToken::new();
    for warmup in [0, 1, 255, 256, 700] {
        let mut total = 0u64;
        let frames = render_offline(&req, &cancel, warmup, 0, |n| total += n as u64).unwrap();
        assert_eq!((frames, total), (1500, 1500), "warmup={warmup}");
    }
}

#[test]
fn a_ringing_tail_ends_in_silence_or_at_its_bound() {
    let mut req = request(0, 1024);
    req.tail = ExportTailMode::UntilSilence {
        max_frames: 2048,
        threshold: 0,
    };
    let cancel = ExportCancelToken::new();
    let soon = render_offline(&req, &cancel, 0, 1280, |_| {}).unwrap();
    assert!((1024..3072).contains(&soon));
    let never = render_offline(&req, &cancel, 0, u64::MAX, |_| {}).unwrap();
    assert_eq!(never, 3072);
}

#[test]
fn a_request_is_refused_for_each_missing_part() {
    let mut req = request(0, 10);
    assert_eq!(req.validate(), Ok(()));
    req.sample_rate = 0;
    assert_eq!(req.validate(), Err("sample_rate must be non-zero".into()));
    req = request(0, 10);
    req.channels = 0;
    assert_eq!(req.validate(), Err("channels must be non-zero".into()));
    req = request(0, 10);
    req.block_size = 0;
    assert_eq!(req.validate(), Err("block_size must be non-zero".into()));
    assert_eq!(
        request(10, 9).validate(),
        Err("range end must be greater than range start".into())
    );
    assert_eq!(request(5, 25).content_frames(), 20);
    assert_eq!(request(25, 5).content_frames(), 0);
}

#[test]
fn percent_clamps_0_to_100() {
    let percent = |p: ExportProgress| p.done as f32 / p.of as f32 * 100.0;
    let p = ExportProgress::new(ExportStage::Rendering, 50, 100);
    assert!((percent(p) - 50.0).abs() < 0.001);
    let over = ExportProgress::new(ExportStage::Rendering, 200, 100);
    assert_eq!(percent(over), 100.0);
    let zero = ExportProgress::new(ExportStage::Rendering, 0, 0);
    assert_eq!(percent(zero), 0.0);
    let done = ExportProgress::new(ExportStage::Complete, 0, 0);
    assert_eq!(percent(done), 100.0);
}

#[test]
fn cancel_token_is_shared_across_clones() {
    let token = ExportCancelToken::new();
    let clone = token.clone();
    assert!(!clone.is_cancelled());
    token.cancel();
    assert!(clone.is_cancelled());
}

#[test]
fn stages_that_end_an_export_are_told_apart() {
    for stage in [ExportStage::Complete, ExportStage::Failed, ExportStage::Cancelled] {
        assert!(stage.is_terminal());
    }
    assert!(!ExportStage::Rendering.is_terminal());
    assert_eq!(
        encoding_progress(ExportProgress::new(ExportStage::Rendering, 3, 9)).stage,
        ExportStage::Encoding
    );
}

#[test]
fn errors_say_what_happened() {
    let texts = [
        ExportError::Build("b".into()),
        ExportError::Encode("e".into()),
        ExportError::Io("i".into()),
        ExportError::Cancelled,
        ExportError::Settings("s".into()),
    ]
    .map(|e| e.to_string());
    for (i, a) in texts.iter().enumerate() {
        assert!(!a.is_empty());
        assert!(texts.iter().skip(i + 1).all(|b| a != b));
    }
    assert_eq!(texts[3], "export cancelled");
}

// ── Files ───────────────────────────────────────────────────────────────────

/// Perform an export on a directory held in memory. `fails` is the phase that
/// fails, if one does.
fn export(
    files: &mut BTreeMap<String, &'static str>,
    output: &str,
    fails: Option<ExportPhase>,
) -> Vec<ExportStage> {
    let plan = export_arrangement(&request(0, 1000)).unwrap();
    let partial = partial_path_for(output);
    let mut phase = ExportPhase::CheckDirectory;
    let mut stages = Vec::new();
    loop {
        if let Some(p) = report_phase(phase, plan.total) {
            stages.push(p.stage);
        }
        let ok = fails != Some(phase);
        match phase {
            ExportPhase::CreateEncoder => {
                files.insert(partial.clone(), "incomplete");
            }
            ExportPhase::Finalize if ok => {
                files.insert(partial.clone(), "RIFF");
            }
            ExportPhase::Rename if ok => {
                let done = files.remove(&partial).unwrap();
                files.insert(output.to_string(), done);
            }
            ExportPhase::RemovePartial => {
                files.remove(&partial);
                return stages;
            }
            ExportPhase::Done | ExportPhase::Refused => return stages,
            _ => {}
        }
        phase = next_phase(phase, ok, plan.normalizes);
    }
}

#[test]
fn a_finished_export_is_in_place_and_leaves_no_partial_file() {
    let mut files = BTreeMap::new();
    let stages = export(&mut files, "mix.wav", None);
    assert_eq!(files, BTreeMap::from([("mix.wav".to_string(), "RIFF")]));
    assert_eq!(stages.last(), Some(&ExportStage::Complete));
    // A second one replaces it.
    files.insert("mix.wav".to_string(), "OLD-SMALL");
    export(&mut files, "mix.wav", None);
    assert_eq!(files["mix.wav"], "RIFF");
    assert_eq!(files.len(), 1);
}

#[test]
fn a_failed_export_leaves_the_old_output() {
    for phase in [
        ExportPhase::CheckDirectory,
        ExportPhase::CreateEncoder,
        ExportPhase::Render,
        ExportPhase::Finalize,
        ExportPhase::Rename,
    ] {
        let mut files = BTreeMap::from([("mix.wav".to_string(), "ORIGINAL")]);
        export(&mut files, "mix.wav", Some(phase));
        assert_eq!(
            files,
            BTreeMap::from([("mix.wav".to_string(), "ORIGINAL")]),
            "{phase:?}"
        );
    }
}

#[test]
fn a_normalized_export_is_analyzed_first() {
    let mut req = request(0, 1000);
    req.normalize = ExportNormalizeMode::PeakDb {
        db: (-1.0f32).to_bits(),
    };
    let plan = export_arrangement(&req).unwrap();
    assert!(plan.normalizes);
    assert_eq!(
        next_phase(ExportPhase::CheckDirectory, true, true),
        ExportPhase::Analyze
    );
    assert_eq!(
        next_phase(ExportPhase::Analyze, false, true),
        ExportPhase::Refused
    );
}

#[test]
fn a_missing_directory_is_named() {
    assert!(matches!(
        missing_directory("/nowhere"),
        ExportError::Settings(why) if why == "output directory does not exist: /nowhere"
    ));
}

#[test]
fn partial_files_stand_beside_their_outputs() {
    let a = partial_path_for("/out/mix.wav");
    let b = partial_path_for("/out/mix.flac");
    assert!(a.starts_with("/out/"));
    assert_ne!(a, "/out/mix.wav");
    assert_ne!(a, b);
}

fn snapshot(id: &str) -> TrackSnapshot {
    TrackSnapshot {
        id: id.to_string(),
        track_type: "audio".to_string(),
        armed: false,
        input_monitor: false,
        input_source: TrackInputSource {
            device_id: None,
            channels: Vec::new(),
        },
    }
}

fn target(id: &str, request: OfflineRenderRequest) -> TrackExportTarget {
    TrackExportTarget {
        track_id: id.to_string(),
        request,
    }
}

#[test]
fn a_batch_names_its_tracks_or_is_refused() {
    let tracks = vec![snapshot("a"), snapshot("b")];
    let ok = export_tracks_single_pass(
        &vec![target("b", request(0, 10)), target("a", request(0, 10))],
        &tracks,
    );
    assert_eq!(ok.unwrap(), vec![1, 0]);
    let why = |targets: Vec<TrackExportTarget>| match export_tracks_single_pass(&targets, &tracks) {
        Err(ExportError::Settings(why)) => why,
        other => panic!("{other:?}"),
    };
    assert_eq!(
        why(vec![target("a", request(0, 10)), target("b", request(0, 11))]),
        "batch export targets must share render settings"
    );
    let mut loud = request(0, 10);
    loud.normalize = ExportNormalizeMode::PeakDb { db: 0 };
    assert_eq!(
        why(vec![target("a", loud)]),
        "normalization is unavailable for single-pass stem export"
    );
    assert_eq!(
        why(vec![target("c", request(0, 10))]),
        "export track not found: c"
    );
}

#[test]
fn a_failed_batch_leaves_no_partial_file() {
    let n = 3;
    for fails_at in 0..8 {
        let mut phase = begin_batch(n);
        let mut partials = [false; 3];
        let mut step = 0;
        loop {
            let ok = step != fails_at;
            match phase {
                BatchPhase::Open { index } => partials[index] = true,
                BatchPhase::Render => {}
                BatchPhase::Place { index } => {
                    if ok {
                        partials[index] = false;
                    }
                }
                BatchPhase::Done => break,
                BatchPhase::CleanUp { from, to } => {
                    partials[from..to].fill(false);
                    break;
                }
            }
            phase = next_batch_phase(phase, ok, n);
            step += 1;
        }
        assert_eq!(partials, [false; 3], "fails_at={fails_at}");
    }
    assert_eq!(begin_batch(0), BatchPhase::Done);
}

#[test]
fn an_arrangement_ends_with_its_last_clip() {
    assert_eq!(arrangement_bounds_samples(&vec![], &vec![]), (0, 0));
    assert_eq!(arrangement_bounds_samples(&vec![10, 90, 20], &vec![40]), (0, 90));
    assert_eq!(arrangement_bounds_samples(&vec![10], &vec![40, 30]), (0, 40));
}

fn tried(got: usize, cancelled: bool, waited_us: u64) -> Option<(usize, usize)> {
    let t = BridgeTry {
        got,
        channels: 4,
        cancelled,
        waited_us,
    };
    read_bridge_block(&t, 256)
}

#[test]
fn an_offline_read_takes_whole_blocks_only() {
    assert_eq!(tried(256, false, 0), Some((256, 4)));
    assert_eq!(tried(300, true, BRIDGE_WAIT_US), Some((256, 4)));
    assert_eq!(tried(255, false, 0), Some((0, 0)));
    assert_eq!(tried(1, false, 0), Some((0, 0)));
}

#[test]
fn an_offline_read_waits_until_it_is_cancelled_or_late() {
    assert_eq!(BRIDGE_POLL_US, 100);
    assert_eq!(BRIDGE_WAIT_US, 5_000_000);
    assert_eq!(tried(0, false, 0), None);
    assert_eq!(tried(0, false, BRIDGE_WAIT_US - 1), None);
    assert_eq!(tried(0, false, BRIDGE_WAIT_US), Some((0, 0)));
    assert_eq!(tried(0, true, 0), Some((0, 0)));
}

#[test]
fn a_failed_batch_leaves_the_outputs_it_has_not_placed() {
    let n = 3;
    // Three encoders, the render, then the files in turn.
    for (fails_at, placed) in [(0, 0), (2, 0), (3, 0), (4, 0), (5, 1), (6, 2), (9, 3)] {
        let mut phase = begin_batch(n);
        let mut outputs = ["old"; 3];
        let mut step = 0;
        loop {
            let ok = step != fails_at;
            match phase {
                BatchPhase::Place { index } if ok => outputs[index] = "new",
                BatchPhase::Done | BatchPhase::CleanUp { .. } => break,
                _ => {}
            }
            phase = next_batch_phase(phase, ok, n);
            step += 1;
        }
        for (i, output) in outputs.iter().enumerate() {
            assert_eq!(*output, if i < placed { "new" } else { "old" }, "{fails_at}");
        }
    }
}
