use sphere_direct_audio_engine::monitor::{
    apply_monitor_control, HardwareOutputOwner, ListenMode, MonitorControl, MonitorGain,
    MonitorOutputTarget, MonitorSource, MonitorStep,
};

fn dim_gain() -> f32 {
    10.0f32.powf(-20.0 / 20.0)
}

fn linear(gain: MonitorGain) -> f32 {
    match gain {
        MonitorGain::Silent => 0.0,
        MonitorGain::Linear { bits } => f32::from_bits(bits),
        MonitorGain::Dimmed { bits } => f32::from_bits(bits) * dim_gain(),
    }
}

fn apply(l: &mut [f32], r: &mut [f32], control: &MonitorControl) {
    if let Some(step) = apply_monitor_control(l.len(), r.len(), control) {
        let gain = linear(step.gain);
        for i in 0..step.frames {
            if step.fold {
                let mid = (l[i] + r[i]) * 0.5;
                l[i] = mid * gain;
                r[i] = mid * gain;
            } else {
                l[i] *= gain;
                r[i] *= gain;
            }
        }
    }
}

#[test]
fn default_source_is_the_master_bus_not_a_hardware_input() {
    let source = MonitorSource::default();
    assert_eq!(source, MonitorSource::MasterBus);
    assert!(!source.needs_hardware_input());
}

#[test]
fn only_an_explicit_hardware_input_selection_requests_capture() {
    assert!(!MonitorSource::MasterBus.needs_hardware_input());
    assert!(!MonitorSource::Bus("bus-1".into()).needs_hardware_input());
    assert!(!MonitorSource::TrackPreFader("t1".into()).needs_hardware_input());
    assert!(!MonitorSource::TrackAfterFader("t1".into()).needs_hardware_input());
    assert!(MonitorSource::HardwareInput("in-1".into()).needs_hardware_input());
}

#[test]
fn source_round_trips_through_its_snapshot_parts() {
    for source in [
        MonitorSource::MasterBus,
        MonitorSource::Bus("bus-1".into()),
        MonitorSource::TrackPreFader("track-2".into()),
        MonitorSource::TrackAfterFader("track-3".into()),
        MonitorSource::HardwareInput("Focusrite In 1".into()),
    ] {
        let rebuilt = MonitorSource::from_parts(source.tag(), source.target_id());
        assert_eq!(rebuilt, source);
    }
}

#[test]
fn unknown_source_tag_falls_back_to_master_rather_than_silence() {
    assert_eq!(
        MonitorSource::from_parts("some-future-variant", Some("x")),
        MonitorSource::MasterBus
    );
}

#[test]
fn mute_overrides_gain_and_dim_attenuates() {
    let mut control = MonitorControl {
        gain: 1.0f32.to_bits(),
        mute: true,
        dim: false,
        mono: false,
    };
    assert_eq!(linear(control.effective_gain()), 0.0);

    control.mute = false;
    assert!((linear(control.effective_gain()) - 1.0).abs() < 1.0e-6);

    control.dim = true;
    assert!((linear(control.effective_gain()) - dim_gain()).abs() < 1.0e-6);
    // -20 dB is a tenth of the linear amplitude.
    assert!((dim_gain() - 0.1).abs() < 1.0e-4);
}

#[test]
fn mono_folds_both_channels_to_their_average() {
    let mut l = vec![1.0f32, 0.5];
    let mut r = vec![0.0f32, -0.5];
    apply(
        &mut l,
        &mut r,
        &MonitorControl {
            gain: 1.0f32.to_bits(),
            mute: false,
            dim: false,
            mono: true,
        },
    );
    assert_eq!(l, r);
    assert!((l[0] - 0.5).abs() < 1.0e-6);
    assert!((l[1] - 0.0).abs() < 1.0e-6);
}

#[test]
fn output_target_falls_back_to_the_main_pair_on_a_smaller_device() {
    let headphones = MonitorOutputTarget::new("Out 3-4", 2);
    assert_eq!(headphones.resolved_pair(8), Some((2, 3)));
    assert_eq!(headphones.resolved_pair(2), Some((0, 1)));
    assert_eq!(headphones.resolved_pair(1), None);
}

#[test]
fn available_targets_track_the_device_channel_count() {
    let stereo = MonitorOutputTarget::available_for_device(2);
    assert_eq!(stereo.len(), 1);
    assert_eq!(stereo[0].left_channel, 0);

    let eight = MonitorOutputTarget::available_for_device(8);
    assert_eq!(eight.len(), 4);
    assert_eq!(eight[3].name, "Out 7-8");
    assert_eq!(eight[3].left_channel, 6);
}

#[test]
fn listen_mode_round_trips_and_reports_activity() {
    for mode in [ListenMode::Off, ListenMode::Pfl, ListenMode::Afl] {
        assert_eq!(ListenMode::from_tag(mode.tag()), mode);
    }
    assert!(!ListenMode::Off.is_active());
    assert!(ListenMode::Pfl.is_active());
    assert!(ListenMode::Afl.is_active());
}

#[test]
fn a_source_without_its_id_is_the_master_bus() {
    for tag in ["bus", "track-pfl", "track-afl", "hardware-input"] {
        assert_eq!(MonitorSource::from_parts(tag, None), MonitorSource::MasterBus);
    }
}

#[test]
fn a_negative_monitor_gain_inverts_nothing() {
    let control = MonitorControl {
        gain: (-0.5f32).to_bits(),
        mute: false,
        dim: false,
        mono: false,
    };
    assert!(linear(control.effective_gain()) >= 0.0);
}

#[test]
fn an_empty_block_is_left_alone() {
    assert_eq!(apply_monitor_control(0, 64, &MonitorControl::default()), None);
    let muted = MonitorControl {
        mute: true,
        ..MonitorControl::default()
    };
    assert_eq!(
        apply_monitor_control(64, 32, &muted),
        Some(MonitorStep {
            frames: 32,
            fold: false,
            gain: MonitorGain::Silent,
        })
    );
}

#[test]
fn an_odd_channel_makes_no_pair() {
    assert_eq!(MonitorOutputTarget::available_for_device(0).len(), 1);
    assert_eq!(MonitorOutputTarget::available_for_device(5).len(), 2);
    assert_eq!(
        HardwareOutputOwner::default(),
        HardwareOutputOwner::MonitorControlRoom
    );
    let main = MonitorOutputTarget::default();
    assert_eq!((main.left_channel, main.right_channel()), (0, 1));
    assert!(main.fits(2));
    assert!(!main.fits(1));
}
