use sphere_direct_audio_engine::jam_bus::{is_jam_device, jam_device_id, jam_stream_id};
use sphere_direct_audio_engine::loopback::{
    is_loopback_device, loopback_device_id, loopback_track_id,
};

#[test]
fn a_loopback_device_id_round_trips_to_its_track() {
    let id = loopback_device_id("trk_01J8");
    assert_eq!(id, "trk:trk_01J8");
    assert!(is_loopback_device(&id));
    assert_eq!(loopback_track_id(&id), Some("trk_01J8"));
}

#[test]
fn a_jam_stream_is_not_a_loopback_source_and_the_reverse() {
    let jam = jam_device_id("str_1");
    assert!(!is_loopback_device(&jam));
    assert!(loopback_track_id(&jam).is_none());

    let loopback = loopback_device_id("trk_1");
    assert!(!is_jam_device(&loopback));
    assert!(jam_stream_id(&loopback).is_none());
}

#[test]
fn hardware_and_malformed_ids_are_refused() {
    assert!(!is_loopback_device("focusrite"));
    assert!(!is_loopback_device("trk:"));
    assert!(loopback_track_id("trk").is_none());
}

#[test]
fn a_track_id_may_hold_anything_behind_the_prefix() {
    let id = loopback_device_id("trk:ü");
    assert_eq!(loopback_track_id(&id), Some("trk:ü"));
}
