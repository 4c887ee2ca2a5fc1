use sphere_direct_audio_engine::engine::device::{
    device_state, log_sample_rate_decision, sample_rate_mismatch, sample_rate_mode_label,
    BackendKind,
};
use sphere_direct_audio_engine::engine::state::{
    atomic_max_f32_bits, monitor_channel_pair, pack_monitor_source_pair,
    record_output_callback_timing, routed_input_peaks, unpack_monitor_source_pair,
    AudioEngineState, DropoutProtectionMode, DropoutReason, SharedState,
};

// 512 frames at 48 kHz: a block lasts about 10 666 microseconds.
const FRAMES: usize = 512;
const SR: u32 = 48_000;

#[test]
fn mono_monitor_route_uses_one_channel_for_both_sides() {
    assert_eq!(monitor_channel_pair(&[5]), Some((5, 5)));
}

#[test]
fn mono_input_meter_duplicates_selected_channel_peak() {
    let bits = |v: f32| v.to_bits();
    assert_eq!(
        routed_input_peaks(&[bits(0.1), bits(0.4), bits(0.2)], &[1]),
        Some((bits(0.4), bits(0.4)))
    );
}

#[test]
fn a_route_may_be_empty_or_point_beyond_the_channels() {
    assert_eq!(monitor_channel_pair(&[]), None);
    assert_eq!(monitor_channel_pair(&[2, 0, 7]), Some((2, 0)));
    assert_eq!(routed_input_peaks(&[9], &[]), None);
    assert_eq!(routed_input_peaks(&[9], &[0, 4]), Some((9, 0)));
}

#[test]
fn monitor_source_pair_publishes_both_channels_together() {
    let mut shared = SharedState::default();
    shared.set_monitor_source_pair(7, 3);
    assert_eq!(shared.monitor_source_pair(), (7, 3));
}

#[test]
fn a_packed_pair_comes_back() {
    for pair in [(0, 1), (u32::MAX, 0), (0, u32::MAX), (u32::MAX, u32::MAX)] {
        assert_eq!(
            unpack_monitor_source_pair(pack_monitor_source_pair(pair.0, pair.1)),
            pair
        );
    }
    assert_eq!(SharedState::default().monitor_source_pair(), (0, 1));
}

#[test]
fn monitor_shared_clock_defaults_false() {
    assert!(!SharedState::default().monitor_shared_clock);
}

#[test]
fn shared_mode_requested_48k_active_96k_is_a_mismatch() {
    assert_eq!(sample_rate_mismatch(48_000, 96_000), Some((48_000, 96_000)));
}

#[test]
fn matching_rates_report_no_mismatch() {
    assert_eq!(sample_rate_mismatch(48_000, 48_000), None);
    assert_eq!(sample_rate_mismatch(96_000, 96_000), None);
}

#[test]
fn zero_requested_means_device_default_no_mismatch() {
    assert_eq!(sample_rate_mismatch(0, 96_000), None);
    assert_eq!(sample_rate_mismatch(48_000, 0), None);
}

#[test]
fn shared_mismatch_is_visible_but_not_an_error() {
    assert_eq!(
        log_sample_rate_decision(48_000, 96_000, &BackendKind::WasapiShared),
        None
    );
    assert_eq!(
        log_sample_rate_decision(48_000, 96_000, &BackendKind::Auto),
        None
    );
}

#[test]
fn exclusive_mismatch_returns_a_visible_warning() {
    let warning = log_sample_rate_decision(48_000, 96_000, &BackendKind::WasapiExclusive)
        .expect("exclusive fallback must surface a warning");
    assert!(warning.contains("48000"));
    assert!(warning.contains("96000"));
}

#[test]
fn exclusive_without_mismatch_has_no_warning() {
    assert_eq!(
        log_sample_rate_decision(96_000, 96_000, &BackendKind::WasapiExclusive),
        None
    );
}

#[test]
fn mode_labels_are_stable() {
    assert_eq!(
        sample_rate_mode_label(&BackendKind::WasapiShared),
        "WASAPI_SHARED"
    );
    assert_eq!(
        sample_rate_mode_label(&BackendKind::WasapiExclusive),
        "WASAPI_EXCLUSIVE"
    );
}

#[test]
fn a_lost_device_outranks_everything() {
    assert_eq!(device_state(true, true, true), "DeviceLost");
    assert_eq!(device_state(false, false, true), "Closed");
    assert_eq!(device_state(false, true, true), "Running");
    assert_eq!(device_state(false, true, false), "Ready");
}

#[test]
fn threshold_ratios_are_ordered() {
    let frac = |m: DropoutProtectionMode| {
        let (n, d) = m.dropout_threshold_ratio();
        n as f64 / d as f64
    };
    assert!(frac(DropoutProtectionMode::High) < frac(DropoutProtectionMode::Medium));
    assert!(frac(DropoutProtectionMode::Medium) < frac(DropoutProtectionMode::Light));
    assert!(frac(DropoutProtectionMode::Light) < frac(DropoutProtectionMode::Off));
    assert_eq!(frac(DropoutProtectionMode::Off), 1.0);
}

#[test]
fn fast_block_never_flags_dropout() {
    let mut shared = SharedState::default();
    shared.dropout_protection_mode = DropoutProtectionMode::Medium.as_u8();
    record_output_callback_timing(&mut shared, 1_000, FRAMES, SR);
    assert_eq!(shared.dropout_count, 0);
    assert_eq!(shared.dropout_last_reason, DropoutReason::Unflagged.as_u8());
    assert!(shared.callback_deadline_us > 10_000);
}

#[test]
fn medium_flags_block_over_eighty_percent_of_deadline() {
    let mut shared = SharedState::default();
    shared.dropout_protection_mode = DropoutProtectionMode::Medium.as_u8();
    record_output_callback_timing(&mut shared, 9_000, FRAMES, SR);
    assert_eq!(shared.dropout_count, 1);
    assert_eq!(
        shared.dropout_last_reason,
        DropoutReason::CallbackOverrun.as_u8()
    );
}

#[test]
fn off_only_flags_true_overruns() {
    let mut shared = SharedState::default();
    shared.dropout_protection_mode = DropoutProtectionMode::Off.as_u8();
    record_output_callback_timing(&mut shared, 9_000, FRAMES, SR);
    assert_eq!(shared.dropout_count, 0);
    record_output_callback_timing(&mut shared, 12_000, FRAMES, SR);
    assert_eq!(shared.dropout_count, 1);
}

#[test]
fn the_worst_and_the_last_callback_are_kept() {
    let mut shared = SharedState::default();
    record_output_callback_timing(&mut shared, 2_500, FRAMES, SR);
    record_output_callback_timing(&mut shared, 1_500, FRAMES, SR);
    let seen = shared.dropout_diagnostics();
    assert_eq!(seen.callback_deadline_us, 10_666);
    assert_eq!(seen.dropout_count, 0);
    assert_eq!(seen.protection_mode, DropoutProtectionMode::Medium);
    assert_eq!(shared.max_callback_us, 2_500);
    assert_eq!(shared.slow_callback_count, 1);
}

#[test]
fn numbers_of_states_modes_and_reasons_come_back() {
    for n in 0..=8u8 {
        let state = AudioEngineState::from_u8(n);
        assert_eq!(AudioEngineState::from_u8(state.as_u8()), state);
        let mode = DropoutProtectionMode::from_u8(n);
        assert_eq!(DropoutProtectionMode::from_u8(mode.as_u8()), mode);
        let reason = DropoutReason::from_u8(n);
        assert_eq!(DropoutReason::from_u8(reason.as_u8()), reason);
    }
}

#[test]
fn a_held_peak_only_rises() {
    let mut peak = 0u32;
    for v in [0.25f32, 0.75, 0.5, -2.0, f32::NAN] {
        atomic_max_f32_bits(&mut peak, v.to_bits());
    }
    assert_eq!(f32::from_bits(peak), 0.75);
}
