use crossbeam_channel::{bounded, Receiver};

use sphere_direct_audio_engine::engine::callback::{
    right_level, swap_graph, BlockPath, BlockResult, CallbackAction, CallbackEvent, CallbackState,
    GraphActivity, SideLevel,
};
use sphere_direct_audio_engine::engine::command::{
    EngineCommand, TempoPoint, TimeSignaturePoint, TrackInputRoute,
};
use sphere_direct_audio_engine::engine::device::{
    open_path, output_stream_candidates, reported_buffer_size, BackendKind, DauxConfig,
    DauxDeviceConfig, DeviceOpening, OpenPath, Platform, StreamFormat,
};
use sphere_direct_audio_engine::engine::inner::{
    wait_for_command_barrier, ActiveStream, EngineInner, LiveInput, ParamValue, RecordingSession,
    ENGINE_VERSION,
};
use sphere_direct_audio_engine::engine::input::{
    capture_block, choose_capture_device, find_monitor_conflict, validate_asio_input_source,
    validate_route, AsioSessionCaps, ProjectSnapshot, TrackInputSource, TrackSnapshot,
};
use sphere_direct_audio_engine::engine::live::{InputAction, InputFailure};
use sphere_direct_audio_engine::engine::media::{media_in_use, update_inactive_audio};
use sphere_direct_audio_engine::engine::project::InitialRuntime;
use sphere_direct_audio_engine::engine::report::{
    editor_not_opened, insert_statuses, PluginOutputMeter, RejectedRoute, TrackMeter,
};
use sphere_direct_audio_engine::engine::state::{
    AudioEngineState, DropoutProtectionMode, SharedState,
};
use sphere_direct_audio_engine::engine::stream::{OpenedStream, StartTarget};
use sphere_direct_audio_engine::engine::take::{InputTestFailure, InputTestSource, TakeSource};
use sphere_direct_audio_engine::error::{GraphValidationError, SphereAudioError};
use sphere_direct_audio_engine::input_ring::WaveformPeak;
use sphere_direct_audio_engine::native::{
    AudioBackend, AudioEngine, EngineConfig, EngineDeviceInfo, StartStep,
};
use sphere_direct_audio_engine::runtime::{
    NativeProcessor, RuntimeInsert, RuntimeInsertKind, RuntimeProject, RuntimeTrack,
};

// ── Building ────────────────────────────────────────────────────────────────

fn audio_track(id: &str, armed: bool, monitor: bool, channels: Vec<u32>) -> TrackSnapshot {
    TrackSnapshot {
        id: id.into(),
        track_type: "audio".into(),
        armed,
        input_monitor: monitor,
        input_source: TrackInputSource {
            device_id: Some("test-asio-driver".into()),
            channels,
        },
    }
}

fn snapshot(tracks: Vec<TrackSnapshot>) -> ProjectSnapshot {
    ProjectSnapshot {
        project_id: "asio-routing-test".into(),
        preferred_input_device: None,
        tracks,
        media_paths: Vec::new(),
        bpm: 120.0f64.to_bits(),
        tempo_points: Vec::new(),
        time_signature: (4, 4),
    }
}

fn caps(channels: u32) -> AsioSessionCaps {
    AsioSessionCaps {
        driver: "test-asio-driver".into(),
        input_channels: channels,
        sample_rate: 48_000,
        buffer_size: 64,
        input_latency_samples: 0,
        output_latency_samples: 0,
    }
}

/// What the backends of a machine are opened with where nothing is asked for.
fn machine() -> DauxDeviceConfig {
    DauxDeviceConfig {
        backend: BackendKind::Auto,
        backend_id: "auto".into(),
        output_device_id: None,
        sample_rate: None,
        buffer_size: None,
        mmcss_priority: false,
        safe_mode: false,
    }
}

/// An engine whose callback takes commands from the receiver.
fn open_engine(room: usize) -> (EngineInner, Receiver<EngineCommand>) {
    let (tx, rx) = bounded(room);
    let mut engine = EngineInner::new(machine());
    engine.cmd_tx = Some(tx);
    engine.plain_stream = true;
    engine.status.stream_open = true;
    (engine, rx)
}

fn labels(rx: &Receiver<EngineCommand>) -> Vec<&'static str> {
    rx.try_iter().map(|c| c.label()).collect()
}

fn request() -> DauxConfig {
    DauxConfig {
        backend_id: "auto".into(),
        output_device_id: Some(String::new()),
        sample_rate: Some(48_000),
        buffer_size: Some(0),
        mmcss_priority: false,
        safe_mode: false,
    }
}

const LINUX: Platform = Platform {
    windows: false,
    asio: false,
};

// ── Commands ────────────────────────────────────────────────────────────────

#[test]
fn commands_arrive_in_order() {
    let (mut engine, rx) = open_engine(8);
    engine.play().unwrap();
    engine.seek(2.5f64.to_bits()).unwrap();
    engine.pause().unwrap();
    assert_eq!(labels(&rx), vec!["StartTransport", "Seek", "StopTransport"]);
}

#[test]
fn a_closed_engine_takes_no_commands() {
    let mut engine = EngineInner::new(machine());
    let err = engine.pause().unwrap_err();
    assert!(matches!(err, SphereAudioError::EngineNotOpen));
    assert!(engine.can_send().is_err());
    assert!(!engine.begin_command_barrier(1));
}

#[test]
fn a_full_or_broken_channel_is_reported() {
    let (mut engine, rx) = open_engine(1);
    engine.pause().unwrap();
    let full = engine.pause().unwrap_err();
    assert!(
        matches!(&full, SphereAudioError::NativeError(t) if t == "sending on a full channel"),
        "{full:?}"
    );
    drop(rx);
    let broken = engine.pause().unwrap_err();
    assert!(
        matches!(&broken, SphereAudioError::NativeError(t) if t == "sending on a disconnected channel"),
        "{broken:?}"
    );
}

#[test]
fn the_active_stream_hears_commands_before_the_plain_one() {
    let (mut engine, plain) = open_engine(4);
    let (tx, active) = bounded(4);
    engine.active_stream = Some(ActiveStream {
        tx: Some(tx),
        backend_name: "b".into(),
    });
    engine.pause().unwrap();
    assert_eq!(active.len(), 1);
    assert_eq!(plain.len(), 0);
}

#[test]
fn a_playing_transport_is_not_started_again() {
    let (mut engine, rx) = open_engine(4);
    engine.shared.playing = true;
    engine.play().unwrap();
    assert_eq!(rx.len(), 0);
}

#[test]
fn a_barrier_is_acknowledged_or_given_up() {
    let (mut engine, rx) = open_engine(4);
    assert!(engine.begin_command_barrier(7));
    assert!(matches!(
        rx.try_recv(),
        Ok(EngineCommand::CommandBarrier { barrier: 7 })
    ));
    assert_eq!(wait_for_command_barrier(false, false), None);
    assert_eq!(wait_for_command_barrier(true, true), Some(true));
    assert_eq!(wait_for_command_barrier(false, true), Some(false));
}

#[test]
fn settings_are_shared_and_sent() {
    let (mut engine, rx) = open_engine(16);
    engine.set_time_signature(0, 8).unwrap();
    assert_eq!((engine.shared.time_sig_num, engine.shared.time_sig_den), (1, 8));
    engine.set_metronome_enabled(true).unwrap();
    assert!(engine.shared.metronome_enabled);
    engine.set_bpm(90.0f64.to_bits()).unwrap();
    let (bpm, points) = engine.tempo_map();
    assert_eq!(bpm, 90.0f64.to_bits());
    assert!(points.is_empty());
    engine
        .set_tempo_map(
            120.0f64.to_bits(),
            vec![TempoPoint {
                beat: 0,
                bpm: 100.0f64.to_bits(),
            }],
        )
        .unwrap();
    assert_eq!(engine.tempo_map().0, 120.0f64.to_bits());
    engine
        .set_time_signature_map(vec![TimeSignaturePoint {
            beat: 0,
            numerator: 7,
            denominator: 0,
        }])
        .unwrap();
    assert_eq!((engine.shared.time_sig_num, engine.shared.time_sig_den), (7, 1));
    engine.set_loop(true, 0, 1).unwrap();
    engine.set_test_tone(true, 440.0f32.to_bits());
    assert!(engine.shared.test_tone_enabled);
    assert_eq!(
        labels(&rx),
        vec![
            "SetTimeSignature",
            "SetMetronomeEnabled",
            "SetTempoMap",
            "SetTempoMap",
            "SetTimeSignatureMap",
            "SetLoop",
            "SetTestTone",
        ]
    );
}

#[test]
fn the_master_volume_is_held_between_zero_and_two() {
    let mut engine = EngineInner::new(machine());
    for (asked, held) in [(0.5f32, 0.5f32), (7.0, 2.0), (-1.0, 0.0)] {
        engine.set_master_volume(asked.to_bits());
        assert_eq!(f32::from_bits(engine.shared.master_volume), held);
    }
}

#[test]
fn a_track_parameter_becomes_its_command() {
    let (mut engine, rx) = open_engine(8);
    let value = |v: f64| ParamValue {
        exact: v.to_bits(),
        single: (v as f32).to_bits(),
    };
    engine.update_track_param("t", "volume", value(0.5)).unwrap();
    engine.update_track_param("t", "pan", value(-0.5)).unwrap();
    engine.update_track_param("t", "muted", value(1.0)).unwrap();
    engine.update_track_param("t", "solo", value(0.0)).unwrap();
    engine.update_track_param("t", "nonsense", value(0.0)).unwrap();
    let got: Vec<EngineCommand> = rx.try_iter().collect();
    assert_eq!(got.len(), 4);
    assert!(matches!(&got[0], EngineCommand::SetTrackVolume { value, .. }
        if f32::from_bits(*value) == 0.5));
    assert!(matches!(&got[2], EngineCommand::SetTrackMute { muted: true, .. }));
    assert!(matches!(&got[3], EngineCommand::SetTrackSolo { solo: false, .. }));
}

// ── Streams ─────────────────────────────────────────────────────────────────

#[test]
fn a_stream_is_opened_started_and_closed() {
    let mut engine = EngineInner::new(machine());
    assert!(engine.start_target().is_err());
    let path = engine
        .begin_open_daux(&request(), BackendKind::Auto, "auto", LINUX)
        .unwrap();
    assert_eq!(path, OpenPath::Portable);
    assert_eq!(engine.daux_config.buffer_size, None);
    assert_eq!(engine.daux_config.output_device_id, None);
    let (tx, rx) = bounded(4);
    engine.finish_open_daux(OpenedStream {
        sample_rate: 48_000,
        buffer_size: 256,
        device_name: "Speakers".into(),
        backend_name: "Portable".into(),
        input_warning: None,
        caps: None,
        tx,
    });
    assert!(!engine.get_status().running);
    assert_eq!(engine.get_status().output_device.as_deref(), Some("Speakers"));
    assert_eq!(engine.start_target().unwrap(), StartTarget::Active);
    engine.stream_played(Ok(())).unwrap();
    assert_eq!(engine.start_target().unwrap(), StartTarget::AlreadyRunning);
    assert_eq!(engine.warm_output_for_monitoring(), None);
    engine.shutdown();
    assert_eq!(labels(&rx), vec!["StopTransport"]);
    assert!(engine.can_send().is_err());
    assert_eq!(engine.engine_state(), AudioEngineState::ClosingProject);
    assert!(!engine.get_status().stream_open);
}

#[test]
fn a_stream_that_does_not_play_is_reported() {
    let (mut engine, _rx) = open_engine(1);
    let err = engine.stream_played(Err("busy".into())).unwrap_err();
    assert_eq!(err.to_string(), SphereAudioError::StreamStartFailed("busy".into()).to_string());
    assert!(!engine.status.running);
}

#[test]
fn backends_open_where_they_can() {
    let windows = Platform {
        windows: true,
        asio: true,
    };
    assert_eq!(
        open_path(BackendKind::Asio, windows).unwrap(),
        OpenPath::AsioDuplex
    );
    assert!(matches!(
        open_path(BackendKind::Asio, LINUX),
        Err(SphereAudioError::BackendUnavailable(why))
            if why == "this build does not include the DAUx ASIO backend"
    ));
    assert!(matches!(
        open_path(BackendKind::WdmKs, LINUX),
        Err(SphereAudioError::BackendUnavailable(why))
            if why == "DAUx WDM-KS is only available on Windows"
    ));
    assert_eq!(
        open_path(BackendKind::WasapiExclusive, LINUX).unwrap(),
        OpenPath::Portable
    );
}

#[test]
fn the_same_request_needs_no_restart() {
    let mut engine = EngineInner::new(machine());
    engine
        .begin_open_daux(&request(), BackendKind::Auto, "auto", LINUX)
        .unwrap();
    assert!(!engine.daux_requires_restart(&request()));
    let mut other = request();
    other.sample_rate = Some(44_100);
    assert!(engine.daux_requires_restart(&other));
    assert!(engine.recover_daux().is_none());
    engine.shared.device_lost = true;
    let again = engine.recover_daux().unwrap();
    assert!(!engine.daux_requires_restart(&again));
}

#[test]
fn a_failed_switch_says_what_it_fell_back_to() {
    let (mut engine, _rx) = open_engine(1);
    engine.active_stream = Some(ActiveStream {
        tx: None,
        backend_name: "b".into(),
    });
    engine.shared.playing = true;
    let previous = engine.open_daux_safe();
    assert!(previous.open);
    assert!(!engine.shared.playing);
    let error = SphereAudioError::EngineNotOpen;
    assert!(engine.switch_failed(&error, &previous));
    let back = engine.switch_reported("asio", &error, None);
    let stuck = engine.switch_reported("asio", &error, Some(&error));
    assert_ne!(back.to_string(), stuck.to_string());
    assert!(engine.status.last_daux_error.is_some());
}

#[test]
fn a_device_is_tried_as_asked_and_then_as_it_is() {
    let own = StreamFormat {
        channels: 2,
        sample_rate: 44_100,
        fixed_buffer: None,
    };
    let candidates = output_stream_candidates(own, Some(48_000), None);
    assert_eq!(candidates.len(), 2);
    assert_eq!(candidates[0].config.sample_rate, 48_000);
    assert_eq!(candidates[1].config, own);
    assert_eq!(output_stream_candidates(own, None, None).len(), 1);
    assert_ne!(candidates[0].label(), candidates[1].label());
    assert_eq!(reported_buffer_size(&StreamFormat { fixed_buffer: Some(64), ..own }), 64);
    let mut opening = DeviceOpening {
        candidates,
        next: 0,
        last_error: None,
    };
    assert!(opening.next_candidate().unwrap().requested);
    opening.candidate_failed("no");
    assert!(!opening.next_candidate().unwrap().requested);
    opening.candidate_failed("still no");
    assert!(matches!(
        opening.next_candidate(),
        Err(SphereAudioError::StreamOpenFailed(why)) if why.contains("still no")
    ));
}

// ── Live input ──────────────────────────────────────────────────────────────

#[test]
fn stopping_live_input_clears_shared_clock() {
    let mut engine = EngineInner::new(machine());
    engine.shared.monitor_shared_clock = true;

    engine.stop_live_input_stream();

    assert!(!engine.shared.monitor_shared_clock);
}

#[test]
fn asio_input_routing_waits_for_duplex_session() {
    let mut engine = EngineInner::new(machine());
    engine.daux_config.backend = BackendKind::Asio;

    let s = snapshot(vec![audio_track("audio-1", true, true, vec![0, 1])]);
    let result = engine.sync_live_input_stream(&s.tracks, &s.preferred_input_device);

    assert!(result.is_ok());
    assert!(engine.live_input.is_none());
    assert!(!engine.shared.input_ring.is_active());
}

#[test]
fn nothing_is_captured_that_no_track_wants() {
    let mut engine = EngineInner::new(machine());
    let s = snapshot(vec![audio_track("a", false, false, vec![0])]);
    let action = engine.sync_live_input_stream(&s.tracks, &None).unwrap();
    assert!(matches!(action, InputAction::Stopped));
    let s = snapshot(vec![audio_track("a", false, true, vec![0])]);
    match engine.sync_live_input_stream(&s.tracks, &None).unwrap() {
        InputAction::Open {
            device,
            monitor_any,
        } => {
            assert_eq!(device.as_deref(), Some("test-asio-driver"));
            assert!(monitor_any);
            engine.arm_live_input(2, 48_000);
            // No stream is open that could be played for it.
            assert_eq!(engine.live_input_opened(device, monitor_any), None);
        }
        other => panic!("{other:?}"),
    }
    assert!(engine.shared.input_ring.is_active());
    assert!(engine.shared.monitor_enabled_any);
    assert!(engine.live_input.is_some());
}

#[test]
fn a_capture_that_cannot_be_opened_feeds_nothing() {
    for (failure, fed, why) in [
        (InputFailure::Config("x".into()), true, "Input device config error: x"),
        (InputFailure::Open("x".into()), false, "Cannot open live input stream: x"),
        (InputFailure::Play("x".into()), true, "Live input play failed: x"),
    ] {
        let mut engine = EngineInner::new(machine());
        engine.arm_live_input(2, 48_000);
        assert!(matches!(
            engine.live_input_failed(&failure),
            SphereAudioError::NativeError(text) if text == why
        ));
        assert!(engine.live_input.is_none());
        assert_eq!(engine.shared.input_ring.is_active(), fed);
    }
}

#[test]
fn tracks_that_monitor_different_inputs_conflict() {
    let tracks = vec![
        audio_track("a", false, true, vec![0]),
        audio_track("b", true, false, vec![1]),
        audio_track("c", false, true, vec![1]),
    ];
    assert_eq!(find_monitor_conflict(&tracks), Some((0, 2)));
    let mut engine = EngineInner::new(machine());
    assert!(matches!(
        engine.sync_live_input_stream(&tracks, &None),
        Err(SphereAudioError::InvalidConfig(_))
    ));
}

#[test]
fn routes_are_checked_against_the_session() {
    let source = |channels: Vec<u32>| TrackInputSource {
        device_id: None,
        channels,
    };
    assert_eq!(
        validate_asio_input_source("t", &source(vec![0, 1]), &caps(2)),
        None
    );
    assert!(validate_asio_input_source("t", &source(vec![2]), &caps(2)).is_some());
    assert!(validate_asio_input_source("t", &source(vec![0]), &caps(0)).is_some());
    assert!(validate_route("t", &vec![0, 1, 2]).is_some());
    assert_eq!(validate_route("t", &vec![0, 1]), None);
}

#[test]
fn a_device_of_its_own_comes_before_the_preferred_one() {
    let some = |s: &str| Some(s.to_string());
    assert_eq!(choose_capture_device(&some("own"), &some("pref")), some("own"));
    assert_eq!(choose_capture_device(&None, &some("pref")), some("pref"));
    assert_eq!(choose_capture_device(&None, &None), None);
}

#[test]
fn an_edit_can_be_taken_back() {
    let (mut engine, rx) = open_engine(4);
    engine.project = Some(snapshot(vec![audio_track("a", false, false, vec![0])]));
    let (edit, action) = engine.update_track_input_flags("a", true, true).unwrap();
    assert!(matches!(action, InputAction::Open { .. }));
    assert!(engine.project.as_ref().unwrap().tracks[0].armed);
    engine.cancel_input_edit(edit).unwrap();
    assert!(!engine.project.as_ref().unwrap().tracks[0].armed);
    assert_eq!(rx.len(), 0);

    let source = TrackInputSource {
        device_id: None,
        channels: vec![3],
    };
    let (edit, _) = engine
        .update_track_input_state("a", true, false, source)
        .unwrap();
    let (sent, again) = engine.commit_input_edit(edit);
    sent.unwrap();
    assert!(again.is_none());
    assert!(matches!(
        rx.try_recv(),
        Ok(EngineCommand::SetTrackInputState {
            track_index: 0,
            record_armed: true,
            monitor_enabled: false,
            input_source: TrackInputRoute::Pair { left: 3, right: 3 },
        })
    ));
    assert_eq!(engine.input_state_revision, 1);
}

#[test]
fn an_edit_of_an_unknown_track_is_refused() {
    let (mut engine, _rx) = open_engine(4);
    engine.project = Some(snapshot(vec![]));
    assert!(matches!(
        engine.update_track_input_flags("ghost", true, true),
        Err(SphereAudioError::InvalidConfig(why)) if why.contains("ghost")
    ));
}

#[test]
fn a_captured_block_reaches_the_ring_and_the_meters() {
    let mut shared = SharedState::default();
    let bits: Vec<u32> = [0.25f32, -0.5, 0.125, 0.0].iter().map(|v| v.to_bits()).collect();
    capture_block(&mut shared, &bits, 2);
    assert_eq!(shared.input_ring.write_head(), 2);
    assert_eq!(shared.input_ring.read_frame(0), (bits[0], bits[1]));
    assert_eq!(f32::from_bits(shared.live_input_peak_l), 0.25);
    assert_eq!(f32::from_bits(shared.live_input_peak_r), 0.5);
    assert_eq!(shared.input_frames_received, 2);
    assert_eq!(shared.input_cb_count, 1);
}

// ── Takes and input tests ───────────────────────────────────────────────────

#[test]
fn a_take_is_started_once_and_stopped_once() {
    let mut engine = EngineInner::new(machine());
    assert_eq!(engine.start_recording().unwrap(), TakeSource::Stream);
    engine.recording_started(RecordingSession {
        track_count: 2,
        asio_tap: false,
    });
    assert_eq!(engine.get_recording_status(), Some(2));
    assert!(engine.start_recording().is_err());
    assert_eq!(engine.stop_recording().unwrap().track_count, 2);
    assert!(engine.stop_recording().is_err());
}

#[test]
fn a_duplex_session_is_tapped_for_a_take() {
    let mut engine = EngineInner::new(machine());
    engine.daux_config.backend = BackendKind::Asio;
    assert!(engine.start_recording().is_err());
    engine.asio_caps = Some(caps(0));
    assert!(engine.start_recording().is_err());
    engine.asio_caps = Some(caps(8));
    assert_eq!(
        engine.start_recording().unwrap(),
        TakeSource::Session {
            channels: 8,
            sample_rate: 48_000,
            buffer_size: 64,
        }
    );
}

#[test]
fn an_input_test_reads_its_source() {
    let mut engine = EngineInner::new(machine());
    assert_eq!(engine.start_input_test().unwrap(), InputTestSource::Stream);
    engine.input_test_opened();
    assert_eq!(engine.get_input_test_level(77), 77);
    engine.stop_input_test();
    assert_eq!(engine.get_input_test_level(77), 0);
    for failure in [
        InputTestFailure::Config("c".into()),
        InputTestFailure::Open("o".into()),
        InputTestFailure::Play("p".into()),
    ] {
        assert!(!failure.to_error().to_string().is_empty());
    }
}

#[test]
fn preview_bins_are_read_from_where_the_reader_stands() {
    let mut engine = EngineInner::new(machine());
    for i in 0..5u32 {
        engine.shared.preview_ring.push(WaveformPeak {
            min: i,
            max: i,
            rms: i,
        });
    }
    let bins = engine.drain_recording_preview_peaks(3);
    assert_eq!(bins.iter().map(|b| b.max).collect::<Vec<_>>(), vec![3, 4]);
    assert_eq!(engine.recording_preview_info().peak_count, 5);
    assert!(engine.drain_recording_preview_peaks(5).is_empty());
}

// ── Projects ────────────────────────────────────────────────────────────────

#[test]
fn a_refused_load_changes_nothing() {
    let mut engine = EngineInner::new(machine());
    engine.project = Some(snapshot(vec![]));
    let before = engine.engine_state();
    let start = engine.begin_load();
    let err = engine.load_refused(
        &start,
        GraphValidationError {
            message: "cycle".into(),
            cycles: Some("a -> b -> a".into()),
            rejected_routes: 1,
        },
    );
    assert!(matches!(err, SphereAudioError::InvalidRoutingGraph(_)));
    assert_eq!(engine.engine_state(), before);
    assert!(engine.project.is_some());
}

#[test]
fn a_load_is_taken_over_and_sent() {
    let (mut engine, rx) = open_engine(4);
    let start = engine.begin_load();
    let s = snapshot(vec![]);
    let dropped = engine.retain_media(&start, &s);
    assert!(dropped.is_empty());
    let (sent, input) = engine.install_project(
        &start,
        s,
        RuntimeProject::default(),
        Box::new(RuntimeProject::default()),
    );
    sent.unwrap();
    assert!(matches!(input.unwrap(), InputAction::Stopped));
    assert_eq!(
        labels(&rx),
        vec!["LoadProject", "SetTempoMap", "SetTimeSignature"]
    );
    assert!(engine.project.is_some());
    assert_eq!(engine.get_initial_runtime(None), (InitialRuntime::Build, 44_100));
    engine.runtime.tracks = vec![runtime_track("a", "audio", vec![])];
    assert_eq!(engine.get_initial_runtime(None).0, InitialRuntime::Cached);
    assert_eq!(
        EngineInner::new(machine()).get_initial_runtime(Some(96_000)).0,
        InitialRuntime::Previous
    );
    let point = TempoPoint {
        beat: 4.0f64.to_bits(),
        bpm: 100.0f64.to_bits(),
    };
    engine.set_tempo_map(120.0f64.to_bits(), vec![point]).unwrap();
    let (bpm, points) = engine.tempo_map();
    assert_eq!(bpm, 120.0f64.to_bits());
    assert_eq!(points.len(), 1);
    assert_eq!((points[0].beat, points[0].bpm), (4.0f64.to_bits(), 100.0f64.to_bits()));
}

#[test]
fn unused_files_stay_open_for_a_while() {
    let text = |v: &[&str]| v.iter().map(|s| s.to_string()).collect::<Vec<String>>();
    assert_eq!(
        media_in_use(&vec![Some("a".into()), None, Some("b".into()), Some("a".into())]),
        text(&["a", "b", "a"])
    );
    let mut list = text(&[]);
    let mut held = text(&["a", "b", "c", "d", "e", "f"]);
    let dropped = update_inactive_audio(
        &mut list,
        &mut held,
        &text(&["a", "b", "c", "d", "e", "f"]),
        &text(&["f"]),
    );
    assert_eq!(dropped, text(&["a"]));
    assert_eq!(list, text(&["b", "c", "d", "e"]));
    assert_eq!(held, text(&["b", "c", "d", "e", "f"]));
}

// ── Reports ─────────────────────────────────────────────────────────────────

fn runtime_track(id: &str, ty: &str, inserts: Vec<RuntimeInsert>) -> RuntimeTrack {
    RuntimeTrack {
        id: id.into(),
        track_type: ty.into(),
        muted: false,
        automation_muted: None,
        solo: false,
        record_armed: false,
        monitor_enabled: false,
        input_source: TrackInputRoute::Unrouted,
        output_track_id: None,
        output_track_index: None,
        inserts,
        sends: Vec::new(),
        midi_instrument_insert_ix: None,
        plugin_param_automation: Vec::new(),
        plugin_latency_samples: 0,
    }
}

fn plugin(id: &str, present: bool) -> RuntimeInsert {
    RuntimeInsert {
        id: id.into(),
        kind: "native-plugin".into(),
        kind_tag: RuntimeInsertKind::NativePlugin,
        enabled: true,
        native: if present {
            Some(NativeProcessor {
                ready: true,
                valid: true,
                latency_samples: 32,
            })
        } else {
            None
        },
        bridge: None,
        bridge_is_effect: false,
        bridge_missed_blocks: 0,
        vsti_output_children: Vec::new(),
    }
}

#[test]
fn editors_are_where_instances_are() {
    let mut engine = EngineInner::new(machine());
    engine.runtime.tracks = vec![
        runtime_track("a", "audio", vec![plugin("x", false)]),
        runtime_track("b", "bus", vec![plugin("x", true), plugin("y", true)]),
    ];
    assert_eq!(engine.open_insert_editor("b", "y").unwrap(), (1, 1));
    assert_eq!(engine.close_insert_editor("b", "y"), Some((1, 1)));
    assert_eq!(engine.focus_insert_editor("a", "x"), None);
    assert_eq!(engine.insert_processor("b", "x"), Some((1, 0)));
    for (track, insert, why) in [
        ("c", "x", "track not found for insert editor: c"),
        ("a", "z", "insert not found for editor: track=a insert=z"),
        ("a", "x", "insert has no ready VST3 processor: track=a insert=x"),
    ] {
        assert!(matches!(
            engine.open_insert_editor(track, insert),
            Err(SphereAudioError::NativeError(text)) if text == why
        ));
    }
    let states = insert_statuses(&engine.runtime);
    assert_eq!(states.len(), 3);
    assert!(states[0].native && !states[0].ready);
    assert!(states[1].ready);
}

#[test]
fn meters_show_inputs_and_start_afresh() {
    let mut engine = EngineInner::new(machine());
    engine.project = Some(snapshot(vec![audio_track("a", true, false, vec![1])]));
    engine.shared.live_input_peak_l = 5;
    engine.shared.peak_l = 9;
    let meter = |id: &str| TrackMeter {
        track_id: id.into(),
        peak_l: 1,
        peak_r: 1,
        rms_l: 1,
        rms_r: 1,
    };
    let outputs = vec![PluginOutputMeter {
        track_id: "b".into(),
        insert_id: "drums".into(),
        channel: 3,
        peak: 12,
    }];
    let shown = engine.get_meters(vec![meter("a"), meter("b")], outputs, Some(vec![7, 8]));
    assert_eq!(shown.plugin_outputs.len(), 1);
    assert_eq!(shown.plugin_outputs[0].insert_id, "drums");
    assert_eq!((shown.plugin_outputs[0].channel, shown.plugin_outputs[0].peak), (3, 12));
    assert_eq!((shown.tracks[0].peak_l, shown.tracks[0].rms_l), (8, 0));
    assert_eq!(shown.tracks[1].peak_l, 1);
    assert_eq!((shown.input_peak_l, shown.master_peak_l), (5, 9));
    assert_eq!(engine.get_meters(vec![], vec![], None).input_peak_l, 0);
}

#[test]
fn diagnostics_take_the_louder_side_and_reset_nothing() {
    let mut engine = EngineInner::new(machine());
    engine.runtime.tracks = vec![
        runtime_track("bus", "bus", vec![]),
        runtime_track("a", "audio", vec![]),
    ];
    engine.live_input = Some(LiveInput {
        device_id: Some("mic".into()),
    });
    engine.shared.live_input_peak_l = 0.25f32.to_bits();
    engine.shared.live_input_peak_r = 0.5f32.to_bits();
    engine.shared.peak_l = f32::NAN.to_bits();
    engine.shared.peak_r = 0.125f32.to_bits();
    for _ in 0..2 {
        let d = engine.get_audio_diagnostics();
        assert_eq!(f32::from_bits(d.raw_input_peak), 0.5);
        assert_eq!(f32::from_bits(d.output_peak), 0.125);
        assert_eq!(d.tracks, vec![1]);
        assert_eq!(d.input_device_name.as_deref(), Some("mic"));
        assert!(!d.input_stream_running);
    }
}

#[test]
fn debug_counts_what_is_loaded() {
    let engine = EngineInner::new(machine());
    let info = engine.get_debug_info(
        &vec![0, 10, 20],
        5,
        &vec![RejectedRoute {
            from_track_id: "a".into(),
            to_track_id: "b".into(),
            kind: "Send".into(),
            reason: "cycle".into(),
        }],
    );
    assert_eq!((info.ready_clips, info.graph_node_count), (2, 5));
    assert_eq!(info.graph_rejected_route_summaries, vec!["a -> b (Send): cycle"]);
    assert_eq!(info.project_id, None);
}

#[test]
fn latency_is_reported_per_track() {
    let mut engine = EngineInner::new(machine());
    engine.runtime.tracks = vec![runtime_track("a", "audio", vec![plugin("x", true)])];
    let info = engine.get_latency_info(false);
    assert_eq!(info.tracks.len(), 1);
    assert_eq!(info.tracks[0].plugin_samples, 32);
}

// ── The callback ────────────────────────────────────────────────────────────

fn callback() -> CallbackState {
    CallbackState {
        playing: false,
        stop_tail_samples: 0,
        preview_tail_samples: 0,
        bridge_panic_flush_samples: 0,
        bridge_preview_tail_samples: 0,
        audition: false,
        osc_on: false,
        osc_freq: 440.0f32.to_bits(),
        output_sample_rate: 48_000,
    }
}

const QUIET: GraphActivity = GraphActivity {
    has_preview: false,
    pending_midi: false,
    bridge_editor_active: false,
    tail: 100,
};

fn result(path: BlockPath, frames: u64) -> BlockResult {
    let level = SideLevel { peak: 0, rms: 0 };
    BlockResult {
        path,
        channels: 2,
        frames,
        loud: false,
        tail: 100,
        audition_finished: false,
        left: level,
        right: level,
        elapsed_us: 10,
        block_frames: frames as usize,
    }
}

#[test]
fn playback_stays_in_its_loop() {
    let mut s = callback();
    let mut shared = SharedState::default();
    s.drain_events(
        &mut shared,
        &vec![
            CallbackEvent::SetLoop {
                enabled: true,
                start: 100,
                end: 300,
            },
            CallbackEvent::Seek { position: 250 },
            CallbackEvent::StartTransport,
        ],
        100,
        64,
    );
    assert!(s.playing && shared.playing);
    for _ in 0..20 {
        let start = s.begin_block(&mut shared, 128, 2);
        assert_eq!(start.frames, 64);
        assert_eq!(s.plan_block(QUIET, 64, 2), BlockPath::Graph);
        s.finish_block(&mut shared, &start, result(BlockPath::Graph, 64));
        assert!((100..300).contains(&shared.position_samples));
    }
    assert_eq!(shared.output_cb_count, 20);
}

#[test]
fn a_stopped_transport_rings_out_and_keeps_its_position() {
    let mut s = callback();
    let mut shared = SharedState::default();
    let actions = s.drain_events(
        &mut shared,
        &vec![
            CallbackEvent::Seek { position: 1000 },
            CallbackEvent::StartTransport,
            CallbackEvent::StopTransport,
            CallbackEvent::CommandBarrier,
        ],
        100,
        64,
    );
    assert_eq!(actions.last(), Some(&CallbackAction::Acknowledge));
    let mut rung = 0;
    while s.plan_block(QUIET, 64, 2) == BlockPath::Graph {
        let start = s.begin_block(&mut shared, 128, 2);
        s.finish_block(&mut shared, &start, result(BlockPath::Graph, 64));
        rung += 1;
        assert!(rung < 10);
    }
    assert_eq!(rung, 2);
    assert_eq!(shared.position_samples, 1000);
}

#[test]
fn a_block_goes_where_the_device_has_channels() {
    let mut s = callback();
    assert_eq!(s.plan_block(QUIET, 64, 0), BlockPath::Silent);
    assert_eq!(s.plan_block(QUIET, 64, 1), BlockPath::Mono);
    assert_eq!(s.plan_block(QUIET, 64, 2), BlockPath::Idle);
    let editing = GraphActivity {
        bridge_editor_active: true,
        ..QUIET
    };
    assert_eq!(s.plan_block(editing, 64, 2), BlockPath::Graph);
}

#[test]
fn a_graph_is_retired_after_its_notes() {
    let mut s = callback();
    let mut shared = SharedState::default();
    let actions = s.drain_events(&mut shared, &vec![CallbackEvent::LoadProject], 100, 64);
    let at = |wanted: fn(&CallbackAction) -> bool| actions.iter().position(wanted).unwrap();
    assert!(
        at(|a| matches!(a, CallbackAction::AllNotesOff { .. }))
            < at(|a| matches!(a, CallbackAction::SwapGraph))
    );
    assert!(
        at(|a| matches!(a, CallbackAction::SwapGraph))
            < at(|a| matches!(a, CallbackAction::RetireGraph))
    );
    let mut current = RuntimeProject::default();
    current.has_solo = true;
    let retired = swap_graph(&mut current, RuntimeProject::default(), 96_000);
    assert!(retired.has_solo);
    assert!(!current.has_solo);
    assert_eq!(current.sample_rate, 96_000);
}

// ── The application's handle ────────────────────────────────────────────────

#[test]
fn an_engine_starts_by_opening_its_stream() {
    let mut engine = AudioEngine::new(AudioEngine::default_config(), machine()).unwrap();
    assert_eq!(engine.version(), ENGINE_VERSION);
    assert_eq!(engine.config().sample_rate, 48_000);
    match engine.start("auto") {
        StartStep::Open(asked) => {
            assert_eq!(asked.sample_rate, Some(48_000));
            assert_eq!(asked.buffer_size, Some(256));
            assert_eq!(asked.output_device_id, None);
        }
        other => panic!("{other:?}"),
    }
    let (tx, _rx) = bounded(1);
    engine.inner.cmd_tx = Some(tx);
    engine.inner.status.stream_open = true;
    assert!(matches!(engine.start("auto"), StartStep::Resume));
    engine.inner.status.running = true;
    assert!(matches!(engine.start("auto"), StartStep::Running));
    engine.stop();
    assert!(!engine.is_running());
    assert!(matches!(engine.toggle_transport(), Err(SphereAudioError::EngineNotOpen)));
}

#[test]
fn the_handle_passes_its_calls_on() {
    let mut engine = AudioEngine::new(EngineConfig::default(), machine()).unwrap();
    assert!(matches!(engine.play(), Err(SphereAudioError::EngineNotOpen)));
    let (tx, rx) = bounded(8);
    engine.inner.cmd_tx = Some(tx);
    engine.play().unwrap();
    engine.pause().unwrap();
    engine.set_metronome_enabled(true).unwrap();
    engine.set_bpm(90.0f64.to_bits()).unwrap();
    engine.set_time_signature(0, 8).unwrap();
    engine.set_loop(true, 1, 2).unwrap();
    let got: Vec<EngineCommand> = rx.try_iter().collect();
    assert!(matches!(got[0], EngineCommand::StartTransport));
    assert!(matches!(got[1], EngineCommand::StopTransport));
    assert!(matches!(got[2], EngineCommand::SetMetronomeEnabled(true)));
    assert!(matches!(
        &got[3],
        EngineCommand::SetTempoMap { default_bpm, points }
            if *default_bpm == 90.0f64.to_bits() && points.is_empty()
    ));
    assert!(matches!(got[4], EngineCommand::SetTimeSignature(0, 8)));
    assert!(matches!(
        got[5],
        EngineCommand::SetLoop { enabled: true, start_seconds: 1, end_seconds: 2 }
    ));
    assert!(engine.inner.shared.metronome_enabled);
    assert_eq!(engine.inner.shared.time_sig_num, 1);
    let before = engine.inner.latency_graph_version();
    let on = engine.pdc_enabled(false);
    assert!(!engine.pdc_enabled(true));
    engine.set_pdc_enabled(!on);
    assert_eq!(engine.pdc_enabled(false), !on);
    assert_eq!(engine.inner.latency_graph_version(), before + 1);
}

#[test]
fn a_new_engine_keeps_what_its_backends_are_opened_with() {
    let exclusive = DauxDeviceConfig {
        backend: BackendKind::WasapiExclusive,
        backend_id: "wasapi-exclusive".into(),
        mmcss_priority: true,
        ..machine()
    };
    let engine = AudioEngine::new(EngineConfig::default(), exclusive).unwrap();
    assert_eq!(engine.inner.daux_config.backend_id, "wasapi-exclusive");
    assert!(engine.inner.daux_config.mmcss_priority);
    assert!(!engine.is_running());
    assert!(engine.inner.runtime.tracks.is_empty());
    assert!(engine.inner.runtime.clips.is_empty());
    assert!(engine.inner.runtime.audio_graph.pass1_source_indices.is_empty());
    assert!(engine.inner.project.is_none());
}

#[test]
fn toggling_starts_and_stops() {
    let mut engine = AudioEngine::new(EngineConfig::default(), machine()).unwrap();
    let (tx, rx) = bounded(4);
    engine.inner.cmd_tx = Some(tx);
    assert_eq!(engine.toggle_transport().unwrap(), true);
    engine.inner.shared.playing = true;
    assert_eq!(engine.toggle_transport().unwrap(), false);
    engine.seek((-4.0f64).to_bits()).unwrap();
    let got: Vec<EngineCommand> = rx.try_iter().collect();
    assert!(matches!(got[0], EngineCommand::StartTransport));
    assert!(matches!(got[1], EngineCommand::StopTransport));
    assert!(matches!(got[2], EngineCommand::Seek { position_seconds: 0 }));
}

#[test]
fn the_portable_backend_is_the_default_one() {
    assert_eq!(AudioBackend::default(), AudioBackend::Auto);
    assert_eq!(AudioBackend::Cpal.to_backend_kind(), BackendKind::Auto);
    assert_eq!(
        AudioBackend::WasapiExclusive.to_backend_kind(),
        BackendKind::WasapiExclusive
    );
}

#[test]
fn every_preview_and_edit_is_a_command() {
    let (mut e, rx) = open_engine(32);
    let t = || "t".to_string();
    let p = || "p".to_string();
    e.set_metronome_suspended(true).unwrap();
    e.set_plugin_bridge_sink("i".into(), true).unwrap();
    e.set_bridge_editor_active(t(), true).unwrap();
    e.midi_preview_note_on(t(), 0, 60, 100).unwrap();
    e.midi_preview_note_off(t(), 0, 60).unwrap();
    e.midi_preview_control_change(t(), 0, 64, 127).unwrap();
    e.midi_preview_all_notes_off(t()).unwrap();
    e.plugin_preview_note_on(t(), p(), 0, 60, 100).unwrap();
    e.plugin_preview_note_off(t(), p(), 0, 60).unwrap();
    e.plugin_preview_control_change(t(), p(), 0, 64, 127).unwrap();
    e.plugin_preview_all_notes_off(t(), p()).unwrap();
    e.start_audition(9).unwrap();
    e.stop_audition().unwrap();
    let value = ParamValue {
        exact: 0.5f64.to_bits(),
        single: 0.5f32.to_bits(),
    };
    e.update_insert_param("t", "i", "cutoff", value).unwrap();
    assert_eq!(
        labels(&rx),
        vec![
            "SetMetronomeSuspended",
            "SetPluginBridgeSink",
            "SetBridgeEditorActive",
            "MidiPreviewNoteOn",
            "MidiPreviewNoteOff",
            "MidiPreviewControlChange",
            "MidiPreviewAllNotesOff",
            "PluginPreviewNoteOn",
            "PluginPreviewNoteOff",
            "PluginPreviewControlChange",
            "PluginPreviewAllNotesOff",
            "StartAudition",
            "StopAudition",
            "SetInsertParam",
        ]
    );
}

#[test]
fn a_compensation_switch_is_a_generation() {
    let mut engine = EngineInner::new(machine());
    let version = engine.latency_graph_version();
    let on = engine.pdc_enabled(false);
    engine.set_pdc_enabled(on);
    assert_eq!(engine.latency_graph_version(), version);
    engine.set_pdc_enabled(!on);
    assert_eq!(engine.latency_graph_version(), version + 1);
    assert_eq!(engine.pdc_enabled(false), !on);
    assert!(!engine.pdc_enabled(true));
    engine.set_dropout_protection_mode(DropoutProtectionMode::High);
    assert_eq!(engine.dropout_protection_mode(), DropoutProtectionMode::High);
    assert_eq!(
        engine.dropout_diagnostics().protection_mode,
        DropoutProtectionMode::High
    );
}

#[test]
fn capture_is_refused_beside_a_duplex_session() {
    let mut engine = EngineInner::new(machine());
    assert!(engine.may_open_capture().is_ok());
    engine.daux_config.backend = BackendKind::Asio;
    assert!(matches!(
        engine.may_open_capture(),
        Err(SphereAudioError::NativeError(why)) if why.starts_with("ASIO input is captured")
    ));
}

#[test]
fn input_peaks_and_offsets_are_read() {
    let mut engine = EngineInner::new(machine());
    engine.shared.live_input_peak_l = 3;
    engine.shared.live_input_peak_r = 4;
    assert_eq!(engine.take_input_peaks(), (3, 4));
    assert_eq!(engine.take_input_peaks(), (0, 0));
    assert_eq!(engine.recording_offset(None), None);
    engine.status.buffer_size = 256;
    let without = engine.recording_offset(Some(0)).unwrap();
    engine.asio_caps = Some(AsioSessionCaps {
        input_latency_samples: 100,
        output_latency_samples: 200,
        ..caps(2)
    });
    let with = engine.recording_offset(Some(0)).unwrap();
    assert_eq!((without, with), (512, 300));
}

#[test]
fn the_tone_follows_the_shared_switch() {
    let mut s = callback();
    let mut shared = SharedState::default();
    assert_eq!(s.sync_tone(&shared), (None, false));
    shared.test_tone_enabled = true;
    shared.test_tone_freq = 880.0f32.to_bits();
    assert_eq!(s.sync_tone(&shared), (Some(880.0f32.to_bits()), true));
    assert_eq!(s.sync_tone(&shared), (None, true));
    let (a, b) = (SideLevel { peak: 1, rms: 1 }, SideLevel { peak: 2, rms: 2 });
    assert_eq!(right_level(1, a, b), a);
    assert_eq!(right_level(2, a, b), b);
}

#[test]
fn clicks_run_in_the_pieces_of_a_looped_block() {
    let mut s = callback();
    let mut shared = SharedState::default();
    shared.loop_enabled = true;
    shared.loop_end_samples = 100;
    shared.position_samples = 90;
    s.playing = true;
    let start = s.begin_block(&mut shared, 40, 2);
    let runs = s.click_runs(&start);
    assert_eq!(runs.iter().map(|r| (r.sample, r.frames)).collect::<Vec<_>>(), vec![(90, 10), (0, 10)]);
}

#[test]
fn a_status_bar_sees_the_stream() {
    let mut engine = AudioEngine::new(EngineConfig::default(), machine()).unwrap();
    let stats = engine.stats("Auto");
    assert_eq!(stats.backend_name, "Auto");
    assert_eq!(stats.device_state, "Closed");
    let debug = engine.debug_snapshot(&vec![0, 4]);
    assert_eq!((debug.loaded_clips, debug.ready_clips), (0, 1));
    assert!(engine.inner.asio_session_caps().is_none());
    assert!(engine.recover_device().is_none());
    engine.inner.shared.device_lost = true;
    assert!(engine.recover_device().is_some());
    assert!(engine.stats("Auto").device_lost);
    assert!(engine.requires_restart(&EngineConfig::default(), "auto"));
    let device = |id: &str, is_default: bool| EngineDeviceInfo {
        id: id.into(),
        name: id.into(),
        kind: "output".into(),
        channels: 2,
        default_sample_rate: 48_000,
        is_default,
        backend: "b".into(),
    };
    assert_eq!(
        AudioEngine::default_output_device(&vec![device("a", false), device("b", true)]),
        Some(1)
    );
    assert_eq!(AudioEngine::default_output_device(&vec![]), None);
}

#[test]
fn an_editor_that_does_not_open_is_named() {
    assert!(matches!(
        editor_not_opened("t", "i"),
        SphereAudioError::NativeError(why) if why == "failed to open VST3 editor: track=t insert=i"
    ));
    assert!(AudioEngineState::ClosingProject.outputs_silence());
    assert!(!AudioEngineState::Running.outputs_silence());
}

// ── Input after something else had it ───────────────────────────────────────

fn opened(tx: crossbeam_channel::Sender<EngineCommand>) -> OpenedStream {
    OpenedStream {
        sample_rate: 48_000,
        buffer_size: 256,
        device_name: "Speakers".into(),
        backend_name: "Portable".into(),
        input_warning: None,
        caps: None,
        tx,
    }
}

#[test]
fn a_reopened_stream_listens_again() {
    let mut engine = EngineInner::new(machine());
    let (tx, _rx) = bounded(4);
    // Nothing is loaded: there is nothing to listen to.
    engine
        .begin_open_daux(&request(), BackendKind::Auto, "auto", LINUX)
        .unwrap();
    assert!(engine.finish_open_daux(opened(tx)).is_none());
    engine.project = Some(snapshot(vec![audio_track("a", true, true, vec![2, 3])]));
    let (tx, _rx2) = bounded(4);
    engine
        .begin_open_daux(&request(), BackendKind::Auto, "auto", LINUX)
        .unwrap();
    assert!(engine.live_input.is_none());
    match engine.finish_open_daux(opened(tx)) {
        Some(Ok(InputAction::Open {
            device: Some(_),
            monitor_any: true,
        })) => {}
        other => panic!("{other:?}"),
    }
    assert!(engine.project.is_some());
    assert_eq!(engine.shared.monitor_source_pair(), (2, 3));
}

#[test]
fn a_reopened_session_is_routed_again() {
    let mut engine = EngineInner::new(machine());
    engine.project = Some(snapshot(vec![audio_track("a", false, true, vec![1])]));
    engine.daux_config.backend = BackendKind::Asio;
    let (tx, _rx) = bounded(4);
    let stream = OpenedStream {
        caps: Some(caps(8)),
        ..opened(tx)
    };
    match engine.finish_open_daux(stream) {
        Some(Ok(InputAction::Routed { play })) => {
            assert_eq!(play, Some(StartTarget::Active));
            assert!(engine.shared.live_input_active);
            assert_eq!(engine.shared.monitor_source_pair(), (1, 1));
        }
        other => panic!("{other:?}"),
    }
}

#[test]
fn monitored_input_keeps_the_output_running() {
    let mut engine = EngineInner::new(machine());
    assert_eq!(engine.warm_output_for_monitoring(), None);
    engine.active_stream = Some(ActiveStream {
        tx: None,
        backend_name: "Portable".into(),
    });
    assert_eq!(engine.warm_output_for_monitoring(), Some(StartTarget::Active));
    assert_eq!(engine.live_input_opened(None, true), Some(StartTarget::Active));
    let session = || RecordingSession {
        track_count: 1,
        asio_tap: false,
    };
    assert_eq!(engine.recording_started(session()), Some(StartTarget::Active));
    engine.stream_played(Ok(())).unwrap();
    assert_eq!(engine.live_input_opened(None, true), None);
    assert_eq!(engine.recording_started(session()), None);
}

#[test]
fn a_take_gives_live_input_back() {
    let mut engine = EngineInner::new(machine());
    engine.project = Some(snapshot(vec![audio_track("a", true, false, vec![0])]));
    assert_eq!(engine.live_input_opened(None, false), None);
    assert_eq!(engine.start_recording().unwrap(), TakeSource::Stream);
    assert!(engine.live_input.is_none());
    // It did not start.
    assert!(matches!(
        engine.recording_failed(),
        Some(Ok(InputAction::Open { .. }))
    ));
    assert_eq!(engine.start_recording().unwrap(), TakeSource::Stream);
    let play = engine.recording_started(RecordingSession {
        track_count: 1,
        asio_tap: false,
    });
    assert_eq!(play, None);
    assert_eq!(engine.stop_recording().unwrap().track_count, 1);
    // Its files could not be finished: input stays as it is.
    assert!(matches!(
        engine.recording_completed(Err(SphereAudioError::NativeError("disk full".into()))),
        Err(SphereAudioError::NativeError(why)) if why == "disk full"
    ));
    assert!(matches!(
        engine.recording_completed(Ok(())),
        Ok(Some(Ok(InputAction::Open { .. })))
    ));
    engine.daux_config.backend = BackendKind::Asio;
    assert!(engine.recording_failed().is_none());
}

#[test]
fn a_newer_input_edit_reaches_both_graphs() {
    let (mut engine, rx) = open_engine(8);
    engine.project = Some(snapshot(vec![
        audio_track("a", false, false, vec![0]),
        audio_track("b", false, false, vec![1]),
    ]));
    let start = engine.begin_load();
    let source = TrackInputSource {
        device_id: None,
        channels: vec![4, 5],
    };
    let (edit, _) = engine
        .update_track_input_state("b", true, true, source)
        .unwrap();
    engine.commit_input_edit(edit).0.unwrap();
    let graph = || {
        let mut g = RuntimeProject::default();
        g.tracks = vec![
            runtime_track("a", "audio", vec![]),
            runtime_track("b", "audio", vec![]),
        ];
        g
    };
    let stale = snapshot(vec![
        audio_track("a", false, false, vec![0]),
        audio_track("b", false, false, vec![1]),
    ]);
    let (sent, _) = engine.install_project(&start, stale, graph(), Box::new(graph()));
    sent.unwrap();
    let wanted = (true, true, TrackInputRoute::Pair { left: 4, right: 5 });
    let of = |g: &RuntimeProject, i: usize| {
        let t = &g.tracks[i];
        (t.record_armed, t.monitor_enabled, t.input_source)
    };
    assert_eq!(of(&engine.runtime, 1), wanted);
    assert!(engine.project.as_ref().unwrap().tracks[1].armed);
    let handed = rx
        .try_iter()
        .find_map(|c| match c {
            EngineCommand::LoadProject(g) => Some(g),
            _ => None,
        })
        .unwrap();
    assert_eq!(of(&handed, 1), wanted);
    assert_eq!(
        of(&handed, 0),
        (false, false, TrackInputRoute::Pair { left: 0, right: 0 })
    );
}

#[test]
fn a_committed_edit_is_in_the_graph_and_a_refused_one_is_not() {
    let (mut engine, _rx) = open_engine(1);
    engine.project = Some(snapshot(vec![audio_track("a", false, false, vec![0])]));
    engine.runtime.tracks = vec![runtime_track("a", "audio", vec![])];
    let (edit, _) = engine.update_track_input_flags("a", true, false).unwrap();
    engine.commit_input_edit(edit).0.unwrap();
    assert!(engine.runtime.tracks[0].record_armed);
    // There is no room for another command.
    let (edit, _) = engine.update_track_input_flags("a", false, true).unwrap();
    let (sent, again) = engine.commit_input_edit(edit);
    assert!(sent.is_err());
    assert!(again.is_some());
    let track = &engine.runtime.tracks[0];
    assert!(track.record_armed && !track.monitor_enabled);
    assert!(engine.project.as_ref().unwrap().tracks[0].armed);
}

#[test]
fn an_audition_ends_with_its_source() {
    let mut s = callback();
    let mut shared = SharedState::default();
    s.drain_events(&mut shared, &vec![CallbackEvent::StartAudition], 100, 64);
    for finished in [false, false, true] {
        assert_eq!(s.plan_block(QUIET, 64, 2), BlockPath::Graph);
        let start = s.begin_block(&mut shared, 128, 2);
        let block = BlockResult {
            audition_finished: finished,
            ..result(BlockPath::Graph, 64)
        };
        let actions = s.finish_block(&mut shared, &start, block);
        assert_eq!(actions.contains(&CallbackAction::RetireAudition), finished);
        assert_eq!(s.audition, !finished);
    }
    assert_eq!(s.plan_block(QUIET, 64, 2), BlockPath::Idle);
}
