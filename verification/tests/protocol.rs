use sphere_direct_audio_engine::error::{GraphValidationError, SphereAudioError};
use sphere_direct_audio_engine::forensic_trace::{
    engine_midi_trace_enabled, engine_midi_verbose_enabled, log_engine_sync_midi,
    log_input_debug_throttled, scheduler_heartbeat_due, vst3_trace_enabled,
};
use sphere_direct_audio_engine::graph::master::MasterState;
use sphere_direct_audio_engine::graph::track::TrackState;
use sphere_direct_audio_engine::input_ring::{
    InputRing, PreviewPeakRing, WaveformPeak, INPUT_CAPACITY_FRAMES, PREVIEW_CAPACITY,
};
use sphere_direct_audio_engine::ipc::{answer_line, dispatch, reply, READY_EVENT};
use sphere_direct_audio_engine::text;
use sphere_direct_audio_engine::transport::{
    active_loop_bounds, advance_loop_position, loop_segments, normalize_loop_position,
    segment_frames_until_loop_wrap, LoopBounds,
};

// ── The line protocol ───────────────────────────────────────────────────────

#[test]
fn a_request_is_answered_with_its_id() {
    let line = r#"{ "id": "rpc_1", "method": "getVersion", "params": {} }"#;
    assert_eq!(
        answer_line(line).as_deref(),
        Some(r#"{"id":"rpc_1","result":"0.1.0-stub"}"#)
    );
}

#[test]
fn an_escaped_id_is_read_as_json_reads_it() {
    let line = r#"{"method":"start","id":"rpc"}"#;
    assert_eq!(
        answer_line(line).as_deref(),
        Some(r#"{"id":"rpc","result":null}"#)
    );
}

#[test]
fn blank_lines_and_what_is_not_json_get_no_answer() {
    for line in ["", "   \t", "{", "getStatus", r#"{"id":"#] {
        assert_eq!(answer_line(line), None, "{line:?}");
    }
}

#[test]
fn missing_members_are_empty() {
    for line in ["[]", "17", r#"{"id":3,"method":null}"#, "{}"] {
        assert_eq!(
            answer_line(line).as_deref(),
            Some(r#"{"id":"","error":"Unknown method: "}"#),
            "{line:?}"
        );
    }
}

#[test]
fn an_unknown_method_is_an_error_without_double_quotes() {
    assert_eq!(
        reply("7", "do \"it\""),
        r#"{"id":"7","error":"Unknown method: do 'it'"}"#
    );
    assert_eq!(dispatch("nope"), Err("Unknown method: nope".to_string()));
}

#[test]
fn every_result_is_json() {
    for method in [
        "getStatus",
        "getVersion",
        "listInputDevices",
        "listOutputDevices",
        "openDevice",
        "closeDevice",
        "start",
        "stop",
        "setTransportState",
        "getTransportState",
        "updateTrackParam",
        "updateInsertParam",
        "loadProject",
        "updateClip",
        "getMeters",
    ] {
        let answer = reply("1", method);
        let value: serde_json::Value = serde_json::from_str(&answer).expect(method);
        assert_eq!(value["id"], "1");
        assert!(value.get("result").is_some(), "{method}");
    }
    let status: serde_json::Value = serde_json::from_str(&dispatch("getStatus").unwrap()).unwrap();
    assert_eq!(status["sampleRate"], 44_100);
    assert_eq!(status["bufferSize"], 256);
    assert_eq!(status["running"], true);
    assert!(status["inputDevice"].is_null());
    let ready: serde_json::Value = serde_json::from_str(READY_EVENT).unwrap();
    assert_eq!(ready["event"], "ready");
}

// ── Traces ──────────────────────────────────────────────────────────────────

#[test]
fn the_master_switch_traces_everything() {
    for trace in [
        engine_midi_trace_enabled,
        engine_midi_verbose_enabled,
        vst3_trace_enabled,
    ] {
        assert!(trace(true, false));
        assert!(trace(false, true));
        assert!(!trace(false, false));
    }
}

#[test]
fn heartbeats_keep_their_distance() {
    let mut last = 0;
    assert!(scheduler_heartbeat_due(&mut last, 5_000));
    assert!(!scheduler_heartbeat_due(&mut last, 5_999));
    assert!(scheduler_heartbeat_due(&mut last, 6_000));
    assert!(!scheduler_heartbeat_due(&mut last, 10));
    let mut last = None;
    assert!(!log_input_debug_throttled(false, &mut last, 0));
    assert!(log_input_debug_throttled(true, &mut last, 0));
    assert!(!log_input_debug_throttled(true, &mut last, 499));
    assert!(log_input_debug_throttled(true, &mut last, 500));
}

#[test]
fn a_tracks_clips_are_found_in_order() {
    let owners: Vec<String> = ["a", "b", "a"].iter().map(|s| s.to_string()).collect();
    assert_eq!(log_engine_sync_midi(&owners, "a"), vec![0, 2]);
    assert!(log_engine_sync_midi(&owners, "c").is_empty());
}

// ── Errors and mixer state ──────────────────────────────────────────────────

#[test]
fn every_error_has_its_own_text() {
    let texts: Vec<String> = vec![
        SphereAudioError::BackendUnavailable("x".into()),
        SphereAudioError::DeviceNotFound("x".into()),
        SphereAudioError::StreamOpenFailed("x".into()),
        SphereAudioError::StreamStartFailed("x".into()),
        SphereAudioError::EngineNotOpen,
        SphereAudioError::InvalidConfig("x".into()),
        SphereAudioError::ProjectDeserialize("x".into()),
        SphereAudioError::InvalidRoutingGraph("x".into()),
        SphereAudioError::NativeError("x".into()),
    ]
    .iter()
    .map(|e| e.to_string())
    .collect();
    for (i, a) in texts.iter().enumerate() {
        assert!(texts.iter().skip(i + 1).all(|b| a != b), "{a}");
    }
    let graph = SphereAudioError::from(GraphValidationError {
        message: "bad graph".into(),
        cycles: None,
        rejected_routes: 2,
    });
    assert!(graph.to_string().contains("bad graph"));
}

#[test]
fn a_muted_track_has_no_gain() {
    let mut t = TrackState::new("t");
    assert_eq!(f32::from_bits(t.effective_gain()), 1.0);
    t.muted = true;
    assert_eq!(f32::from_bits(t.effective_gain()), 0.0);
    assert_eq!(f32::from_bits(MasterState::default().volume), 1.0);
}

// ── Rings ───────────────────────────────────────────────────────────────────

#[test]
fn an_input_ring_gives_back_the_last_frames() {
    let mut ring = InputRing::default();
    for i in 0..(INPUT_CAPACITY_FRAMES as u32 + 10) {
        ring.write_stereo(i, i + 1);
    }
    let head = ring.write_head();
    assert_eq!(head, INPUT_CAPACITY_FRAMES as u64 + 10);
    assert_eq!(ring.read_frame(head - 1), (head as u32 - 1, head as u32));
    let oldest = head - ring.capacity_frames();
    assert_eq!(ring.read_frame(oldest), (oldest as u32, oldest as u32 + 1));
    ring.set_active(true, 2, 48_000);
    assert!(ring.is_active());
    assert_eq!((ring.channels(), ring.sample_rate()), (2, 48_000));
}

#[test]
fn a_preview_ring_starts_over() {
    let mut ring = PreviewPeakRing::default();
    let peak = WaveformPeak {
        min: 1,
        max: 2,
        rms: 3,
    };
    ring.push(peak);
    assert_eq!(ring.head(), 1);
    assert_eq!(ring.read(0), peak);
    ring.reset();
    assert_eq!(ring.head(), 0);
    assert_eq!(PreviewPeakRing::default_capacity(), PREVIEW_CAPACITY as u64);
}

// ── The timeline ────────────────────────────────────────────────────────────

#[test]
fn a_loop_wraps_as_often_as_it_must() {
    let bounds = Some(LoopBounds { start: 10, end: 14 });
    assert_eq!(normalize_loop_position(14, bounds), 10);
    assert_eq!(normalize_loop_position(3, bounds), 3);
    assert_eq!(segment_frames_until_loop_wrap(12, 9, bounds), 2);
    assert_eq!(advance_loop_position(12, 9, bounds).0, 13);
    let segments = loop_segments(12, 9, bounds);
    assert_eq!(segments.iter().map(|s| s.frames).collect::<Vec<_>>(), vec![2, 4, 3]);
    assert_eq!(segments.iter().map(|s| s.sample).collect::<Vec<_>>(), vec![12, 10, 10]);
    assert_eq!(segments.iter().map(|s| s.offset).collect::<Vec<_>>(), vec![0, 2, 6]);
}

#[test]
fn a_loop_without_length_is_no_loop() {
    assert_eq!(active_loop_bounds(true, 5, 5), None);
    assert_eq!(active_loop_bounds(false, 5, 9), None);
    assert_eq!(
        active_loop_bounds(true, 5, 9),
        Some(LoopBounds { start: 5, end: 9 })
    );
}

// ── Texts ───────────────────────────────────────────────────────────────────

#[test]
fn texts_are_compared_joined_and_cut() {
    assert_eq!(text::join("a", "ü"), "aü");
    assert_eq!(text::decimal_string(0), "0");
    assert_eq!(text::decimal_string(u64::MAX), u64::MAX.to_string());
    assert_eq!(text::strip_prefix("trk:x", "trk:"), Some("x"));
    assert_eq!(text::strip_prefix("trk", "trk:"), None);
    assert_eq!(text::trim(" \u{3000}x \n"), "x");
    assert!(text::is_blank("\u{2003}\t"));
    assert!(text::eq_ignore_ascii_case("MaSter", "master"));
    assert!(!text::eq_ignore_ascii_case("Ä", "ä"));
}
