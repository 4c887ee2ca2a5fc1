//! Track loopback: one track's output as another track's input.
//!
//! A loopback source is selected like any other input, under a device id with
//! a prefix of its own. The destination reads what the source rendered in the
//! previous callback, so a loopback costs one block of latency and routing two
//! tracks into each other is a delay line.

use vstd::prelude::*;

use crate::jam_bus::JAM_DEVICE_PREFIX;
use crate::text;
use crate::text::join;
use crate::text::strip_prefix;

verus! {

/// The prefix that marks a device id as another track's output.
pub const LOOPBACK_DEVICE_PREFIX: &'static str = "trk:";

/// The source track that a device id names: what follows the prefix, unless
/// there is nothing.
pub open spec fn loopback_source(device_id: Seq<char>) -> Option<Seq<char>> {
    if text::has_prefix(device_id, LOOPBACK_DEVICE_PREFIX@) && device_id.len()
        > LOOPBACK_DEVICE_PREFIX@.len() {
        Some(text::after_prefix(device_id, LOOPBACK_DEVICE_PREFIX@))
    } else {
        None
    }
}

/// The device id of one source track.
pub fn loopback_device_id(track_id: &str) -> (r: String)
    ensures
        r@ == LOOPBACK_DEVICE_PREFIX@ + track_id@,
{
    join(LOOPBACK_DEVICE_PREFIX, track_id)
}

/// The source track id inside a loopback device id, `None` for anything else.
pub fn loopback_track_id(device_id: &str) -> (r: Option<&str>)
    ensures
        r is Some <==> loopback_source(device_id@) is Some,
        r matches Some(id) ==> loopback_source(device_id@) == Some(id@),
{
    match strip_prefix(device_id, LOOPBACK_DEVICE_PREFIX) {
        Some(id) => if id.unicode_len() == 0 {
            None
        } else {
            Some(id)
        },
        None => None,
    }
}

/// Whether a device id names a track loopback source.
pub fn is_loopback_device(device_id: &str) -> (r: bool)
    ensures
        r == (loopback_source(device_id@) is Some),
{
    loopback_track_id(device_id).is_some()
}

/// The device id made for a track names that track.
pub proof fn law_loopback_id_names_its_track(track_id: Seq<char>)
    requires
        track_id.len() > 0,
    ensures
        loopback_source(LOOPBACK_DEVICE_PREFIX@ + track_id) == Some(track_id),
{
    text::law_prefix_splits(LOOPBACK_DEVICE_PREFIX@, track_id);
}

/// No device id names both a jam stream and a loopback source.
pub proof fn law_loopback_and_jam_ids_are_disjoint(device_id: Seq<char>)
    ensures
        !(loopback_source(device_id) is Some && text::has_prefix(device_id, JAM_DEVICE_PREFIX@)),
{
    reveal_strlit("trk:");
    reveal_strlit("jam:");
    if text::has_prefix(device_id, LOOPBACK_DEVICE_PREFIX@) && text::has_prefix(
        device_id,
        JAM_DEVICE_PREFIX@,
    ) {
        assert(device_id.subrange(0, LOOPBACK_DEVICE_PREFIX@.len() as int)[0] == device_id[0]);
        assert(device_id.subrange(0, JAM_DEVICE_PREFIX@.len() as int)[0] == device_id[0]);
        assert(LOOPBACK_DEVICE_PREFIX@[0] == 't');
        assert(JAM_DEVICE_PREFIX@[0] == 'j');
    }
}

} // verus!
