//! The slot tables that the engine and the network side share.

use vstd::prelude::*;

use crate::jam_bus::input_slot::JamInputModel;
use crate::jam_bus::input_slot::JamInputSlot;
use crate::jam_bus::publish_slot::JamPublishModel;
use crate::jam_bus::publish_slot::JamPublishSlot;
use crate::jam_bus::slot_keys::SlotKeys;
use crate::jam_bus::MAX_JAM_INPUT_SLOTS;
use crate::jam_bus::MAX_JAM_PUBLISH_SLOTS;
use crate::jam_bus::MAX_MULTITRACK_CHANNELS;
use crate::jam_bus::MULTITRACK_PUBLISH_SLOT;
use crate::jam_bus::PUBLISH_KEY_LIVE_INPUT;
use crate::jam_bus::PUBLISH_KEY_MASTER;
use crate::jam_bus::PUBLISH_KEY_MONITOR;
use crate::jam_bus::PUBLISH_KEY_MULTITRACK;
use crate::jam_bus::TOTAL_JAM_PUBLISH_SLOTS;
use crate::text;
use crate::text::str_eq;

verus! {

/// The slots, and which stream or source each is bound to.
#[derive(Debug)]
pub struct JamAudioBus {
    inputs: Vec<JamInputSlot>,
    publishes: Vec<JamPublishSlot>,
    input_keys: SlotKeys,
    publish_keys: SlotKeys,
    any_input: bool,
    any_publish: bool,
    master_click: bool,
    master_publish: Option<usize>,
    live_input_publish: Option<usize>,
    monitor_publish: Option<usize>,
}

/// The state of the bus.
pub struct JamBusModel {
    pub inputs: Seq<JamInputModel>,
    pub publishes: Seq<JamPublishModel>,
    /// The slot of each bound stream.
    pub input_keys: Map<Seq<char>, usize>,
    /// The slot of each bound source.
    pub publish_keys: Map<Seq<char>, usize>,
    /// Whether the published master mix carries the metronome click.
    pub master_click: bool,
}

/// The slot that a key is bound to.
pub open spec fn bound_slot(keys: Map<Seq<char>, usize>, key: Seq<char>) -> Option<usize> {
    if keys.contains_key(key) {
        Some(keys[key])
    } else {
        None
    }
}

/// Whether any key is bound.
pub open spec fn any_bound(keys: Map<Seq<char>, usize>) -> bool {
    exists|k: Seq<char>| keys.contains_key(k)
}

/// Whether some key is bound to slot `i`.
pub open spec fn slot_bound(keys: Map<Seq<char>, usize>, i: int) -> bool {
    exists|k: Seq<char>| #[trigger] keys.contains_key(k) && keys[k] == i
}

/// Whether `key` is in a list of bindings.
pub open spec fn listed(list: Seq<(String, usize)>, key: Seq<char>) -> bool {
    exists|i: int| 0 <= i < list.len() && #[trigger] list[i].0@ == key
}

impl JamBusModel {
    /// The first free input slot from slot `i` on.
    pub open spec fn free_input(self, i: int) -> Option<usize>
        decreases self.inputs.len() - i,
    {
        if i >= self.inputs.len() {
            None
        } else if !self.inputs[i].active {
            Some(i as usize)
        } else {
            self.free_input(i + 1)
        }
    }

    /// The first free stereo publish slot from slot `i` on.
    pub open spec fn free_publish(self, i: int) -> Option<usize>
        decreases MAX_JAM_PUBLISH_SLOTS - i,
    {
        if i >= MAX_JAM_PUBLISH_SLOTS {
            None
        } else if !self.publishes[i].active {
            Some(i as usize)
        } else {
            self.free_publish(i + 1)
        }
    }

    /// The bus after a stream was bound.
    pub open spec fn with_input(self, id: Seq<char>, i: usize) -> JamBusModel {
        JamBusModel {
            inputs: self.inputs.update(i as int, self.inputs[i as int].claimed()),
            input_keys: self.input_keys.insert(id, i),
            ..self
        }
    }

    /// The slot that binding a stream gives: the one that it holds, or the first
    /// free one.
    pub open spec fn input_for(self, id: Seq<char>) -> Option<usize> {
        match bound_slot(self.input_keys, id) {
            Some(i) => Some(i),
            None => self.free_input(0),
        }
    }

    /// The bus after binding a stream, which is refused where no slot is free.
    pub open spec fn input_bound(self, id: Seq<char>) -> JamBusModel {
        match (bound_slot(self.input_keys, id), self.free_input(0)) {
            (None, Some(i)) => self.with_input(id, i),
            _ => self,
        }
    }

    /// The bus after a source was bound.
    pub open spec fn with_publish(self, key: Seq<char>, i: usize, channels: nat) -> JamBusModel {
        JamBusModel {
            publishes: self.publishes.update(
                i as int,
                self.publishes[i as int].claimed(channels),
            ),
            publish_keys: self.publish_keys.insert(key, i),
            ..self
        }
    }

    /// The bus after a stream was released.
    pub open spec fn without_input(self, id: Seq<char>) -> JamBusModel {
        if self.input_keys.contains_key(id) {
            let i = self.input_keys[id] as int;
            JamBusModel {
                inputs: self.inputs.update(
                    i,
                    JamInputModel { active: false, ..self.inputs[i] },
                ),
                input_keys: self.input_keys.remove(id),
                ..self
            }
        } else {
            self
        }
    }

    /// The bus after a source was released.
    pub open spec fn without_publish(self, key: Seq<char>) -> JamBusModel {
        if self.publish_keys.contains_key(key) {
            let i = self.publish_keys[key] as int;
            JamBusModel {
                publishes: self.publishes.update(
                    i,
                    JamPublishModel { active: false, ..self.publishes[i] },
                ),
                publish_keys: self.publish_keys.remove(key),
                ..self
            }
        } else {
            self
        }
    }

    /// The bus with every binding dropped.
    pub open spec fn emptied(self) -> JamBusModel {
        JamBusModel {
            inputs: self.inputs.map_values(|s: JamInputModel| JamInputModel { active: false, ..s }),
            publishes: self.publishes.map_values(
                |s: JamPublishModel| JamPublishModel { active: false, ..s },
            ),
            input_keys: Map::empty(),
            publish_keys: Map::empty(),
            ..self
        }
    }

    /// No key is bound, no slot is claimed, and nothing was written to any.
    pub open spec fn nothing_bound(self) -> bool {
        &&& self.input_keys == Map::<Seq<char>, usize>::empty()
        &&& self.publish_keys == Map::<Seq<char>, usize>::empty()
        &&& forall|i: int|
            #![trigger self.inputs[i]]
            0 <= i < self.inputs.len() ==> !self.inputs[i].active && self.inputs[i].write == 0
                && self.inputs[i].read == 0 && self.inputs[i].capture_base is None
        &&& forall|i: int|
            #![trigger self.publishes[i]]
            0 <= i < self.publishes.len() ==> !self.publishes[i].active && self.publishes[i].write
                == 0 && self.publishes[i].read == 0 && self.publishes[i].capture_base is None
                && self.publishes[i].channels == 2
    }

    /// Keys and slots agree: a slot is active exactly while a key is bound to
    /// it, no two keys share one, and the wide slot belongs to the multitrack
    /// stream alone.
    pub open spec fn consistent(self) -> bool {
        &&& self.inputs.len() == MAX_JAM_INPUT_SLOTS
        &&& self.publishes.len() == TOTAL_JAM_PUBLISH_SLOTS
        &&& self.input_keys.dom().finite()
        &&& self.publish_keys.dom().finite()
        &&& forall|k: Seq<char>| #[trigger]
            self.input_keys.contains_key(k) ==> self.input_keys[k] < MAX_JAM_INPUT_SLOTS
        &&& forall|i: int|
            #![trigger self.inputs[i]]
            0 <= i < MAX_JAM_INPUT_SLOTS ==> (self.inputs[i].active <==> slot_bound(
                self.input_keys,
                i,
            ))
        &&& forall|k: Seq<char>| #[trigger]
            self.publish_keys.contains_key(k) ==> (if k == PUBLISH_KEY_MULTITRACK@ {
                self.publish_keys[k] == MULTITRACK_PUBLISH_SLOT
            } else {
                self.publish_keys[k] < MAX_JAM_PUBLISH_SLOTS
            })
        &&& forall|i: int|
            #![trigger self.publishes[i]]
            0 <= i < TOTAL_JAM_PUBLISH_SLOTS ==> (self.publishes[i].active <==> slot_bound(
                self.publish_keys,
                i,
            ))
        &&& forall|a: Seq<char>, b: Seq<char>|
            #![trigger self.input_keys.contains_key(a), self.input_keys.contains_key(b)]
            self.input_keys.contains_key(a) && self.input_keys.contains_key(b) && a != b
                ==> self.input_keys[a] != self.input_keys[b]
        &&& forall|a: Seq<char>, b: Seq<char>|
            #![trigger self.publish_keys.contains_key(a), self.publish_keys.contains_key(b)]
            self.publish_keys.contains_key(a) && self.publish_keys.contains_key(b) && a != b
                ==> self.publish_keys[a] != self.publish_keys[b]
        &&& forall|i: int|
            #![trigger self.publishes[i]]
            0 <= i < TOTAL_JAM_PUBLISH_SLOTS ==> 2 <= self.publishes[i].channels
                <= self.publishes[i].planes.len()
        &&& forall|i: int|
            #![trigger self.publishes[i]]
            0 <= i < TOTAL_JAM_PUBLISH_SLOTS ==> self.publishes[i].planes.len() == if i
                == MULTITRACK_PUBLISH_SLOT {
                MAX_MULTITRACK_CHANNELS as nat
            } else {
                2
            }
    }
}

impl View for JamAudioBus {
    type V = JamBusModel;

    closed spec fn view(&self) -> JamBusModel {
        JamBusModel {
            inputs: self.inputs@.map_values(|s: JamInputSlot| s@),
            publishes: self.publishes@.map_values(|s: JamPublishSlot| s@),
            input_keys: self.input_keys@,
            publish_keys: self.publish_keys@,
            master_click: self.master_click,
        }
    }
}

impl Default for JamAudioBus {
    fn default() -> (r: Self)
        ensures
            r.well_formed(),
            r@.consistent(),
            r@.nothing_bound(),
            r@.master_click,
    {
        let mut inputs: Vec<JamInputSlot> = Vec::new();
        let mut i: usize = 0;
        while i < MAX_JAM_INPUT_SLOTS
            invariant
                i <= MAX_JAM_INPUT_SLOTS,
                inputs@.len() == i,
                forall|k: int|
                    #![trigger inputs@[k]]
                    0 <= k < i ==> inputs@[k].well_formed() && !inputs@[k]@.active
                        && inputs@[k]@.write == 0 && inputs@[k]@.read == 0
                        && inputs@[k]@.capture_base is None,
            decreases MAX_JAM_INPUT_SLOTS - i,
        {
            inputs.push(JamInputSlot::default());
            i = i + 1;
        }
        let mut publishes: Vec<JamPublishSlot> = Vec::new();
        let mut i: usize = 0;
        while i < TOTAL_JAM_PUBLISH_SLOTS
            invariant
                i <= TOTAL_JAM_PUBLISH_SLOTS,
                publishes@.len() == i,
                forall|k: int|
                    #![trigger publishes@[k]]
                    0 <= k < i ==> publishes@[k].well_formed() && !publishes@[k]@.active
                        && publishes@[k]@.write == 0 && publishes@[k]@.read == 0
                        && publishes@[k]@.capture_base is None && publishes@[k]@.channels == 2
                        && publishes@[k]@.planes.len() == if k == MULTITRACK_PUBLISH_SLOT {
                        MAX_MULTITRACK_CHANNELS as nat
                    } else {
                        2
                    },
            decreases TOTAL_JAM_PUBLISH_SLOTS - i,
        {
            let width: usize = if i == MULTITRACK_PUBLISH_SLOT {
                MAX_MULTITRACK_CHANNELS
            } else {
                2
            };
            publishes.push(JamPublishSlot::with_capacity_channels(width));
            i = i + 1;
        }
        JamAudioBus {
            inputs,
            publishes,
            input_keys: SlotKeys::new(),
            publish_keys: SlotKeys::new(),
            any_input: false,
            any_publish: false,
            master_click: true,
            master_publish: None,
            live_input_publish: None,
            monitor_publish: None,
        }
    }
}

impl JamAudioBus {
    /// Keys and slots agree, every slot is in order, and what the bus keeps at
    /// hand about its keys is what they say.
    pub closed spec fn well_formed(self) -> bool {
        &&& self@.consistent()
        &&& self.input_keys.well_formed()
        &&& self.publish_keys.well_formed()
        &&& forall|i: int|
            #![trigger self.inputs@[i]]
            0 <= i < self.inputs@.len() ==> self.inputs@[i].well_formed()
        &&& forall|i: int|
            #![trigger self.publishes@[i]]
            0 <= i < self.publishes@.len() ==> self.publishes@[i].well_formed()
        &&& self.any_input == any_bound(self.input_keys@)
        &&& self.any_publish == any_bound(self.publish_keys@)
        &&& self.master_publish == bound_slot(self.publish_keys@, PUBLISH_KEY_MASTER@)
        &&& self.live_input_publish == bound_slot(self.publish_keys@, PUBLISH_KEY_LIVE_INPUT@)
        &&& self.monitor_publish == bound_slot(self.publish_keys@, PUBLISH_KEY_MONITOR@)
    }

    /// A bus with nothing bound.
    pub fn new() -> (r: Self)
        ensures
            r.well_formed(),
            r@.consistent(),
            r@.nothing_bound(),
            r@.master_click,
    {
        JamAudioBus::default()
    }

    /// Whether any remote stream is bound.
    pub fn has_inputs(&self) -> (r: bool)
        requires
            self.well_formed(),
        ensures
            r == any_bound(self@.input_keys),
    {
        self.any_input
    }

    /// Whether any local source is bound.
    pub fn has_publishes(&self) -> (r: bool)
        requires
            self.well_formed(),
        ensures
            r == any_bound(self@.publish_keys),
    {
        self.any_publish
    }

    /// The input slot at `index`, if there is one.
    pub fn input(&self, index: usize) -> (r: Option<&JamInputSlot>)
        requires
            self.well_formed(),
        ensures
            r is Some <==> index < MAX_JAM_INPUT_SLOTS,
            r matches Some(slot) ==> slot@ == self@.inputs[index as int] && slot.well_formed(),
    {
        if index < self.inputs.len() {
            proof {
                assert(self.inputs@[index as int]@ == self@.inputs[index as int]);
            }
            Some(&self.inputs[index])
        } else {
            None
        }
    }

    /// The publish slot at `index`, if there is one.
    pub fn publish(&self, index: usize) -> (r: Option<&JamPublishSlot>)
        requires
            self.well_formed(),
        ensures
            r is Some <==> index < TOTAL_JAM_PUBLISH_SLOTS,
            r matches Some(slot) ==> slot@ == self@.publishes[index as int] && slot.well_formed(),
    {
        if index < self.publishes.len() {
            proof {
                assert(self.publishes@[index as int]@ == self@.publishes[index as int]);
            }
            Some(&self.publishes[index])
        } else {
            None
        }
    }

    /// The input slot at `index` for writing and draining. The bus stays in
    /// order as long as the slot does and its claim is left alone.
    pub fn input_mut(&mut self, index: usize) -> (r: &mut JamInputSlot)
        requires
            old(self).well_formed(),
            index < MAX_JAM_INPUT_SLOTS,
        ensures
            r@ == old(self)@.inputs[index as int],
            r.well_formed(),
            final(self)@ == (JamBusModel {
                inputs: old(self)@.inputs.update(index as int, final(r)@),
                ..old(self)@
            }),
            final(r).well_formed() && final(r)@.active == r@.active ==> final(self).well_formed(),
    {
        let ghost before = *self;
        proof {
            let i = index as int;
            assert(before.inputs@[i]@ == before@.inputs[i]);
            assert forall|v: JamInputSlot| #![trigger before.inputs@.update(i, v)] before.inputs@.update(
                i,
                v,
            ).map_values(|s: JamInputSlot| s@) == before@.inputs.update(i, v@) by {
                assert(before.inputs@.update(i, v).map_values(|s: JamInputSlot| s@)
                    =~= before@.inputs.update(i, v@));
            }
            assert forall|after: JamAudioBus| #![trigger after.well_formed()] after == (
            JamAudioBus { inputs: after.inputs, ..before }) && after.inputs@
                == before.inputs@.update(i, after.inputs@[i]) && after.inputs@[i].well_formed()
                && after.inputs@[i]@.active == before.inputs@[i]@.active implies after.well_formed() by {
                lemma_input_update(before, after, i);
            }
        }
        &mut self.inputs[index]
    }

    /// The publish slot at `index` for writing and draining. The bus stays in
    /// order as long as the slot does and its claim is left alone.
    pub fn publish_mut(&mut self, index: usize) -> (r: &mut JamPublishSlot)
        requires
            old(self).well_formed(),
            index < TOTAL_JAM_PUBLISH_SLOTS,
        ensures
            r@ == old(self)@.publishes[index as int],
            r.well_formed(),
            final(self)@ == (JamBusModel {
                publishes: old(self)@.publishes.update(index as int, final(r)@),
                ..old(self)@
            }),
            final(r).well_formed() && final(r)@.active == r@.active && final(r)@.planes.len()
                == r@.planes.len() && 2 <= final(r)@.channels <= final(r)@.planes.len()
                ==> final(self).well_formed(),
    {
        let ghost before = *self;
        proof {
            let i = index as int;
            assert(before.publishes@[i]@ == before@.publishes[i]);
            assert forall|v: JamPublishSlot| #![trigger before.publishes@.update(i, v)] before.publishes@.update(
                i,
                v,
            ).map_values(|s: JamPublishSlot| s@) == before@.publishes.update(i, v@) by {
                assert(before.publishes@.update(i, v).map_values(|s: JamPublishSlot| s@)
                    =~= before@.publishes.update(i, v@));
            }
            assert forall|after: JamAudioBus| #![trigger after.well_formed()] after == (
            JamAudioBus { publishes: after.publishes, ..before }) && after.publishes@
                == before.publishes@.update(i, after.publishes@[i])
                && after.publishes@[i].well_formed() && after.publishes@[i]@.active
                == before.publishes@[i]@.active && after.publishes@[i]@.planes.len()
                == before.publishes@[i]@.planes.len() && 2 <= after.publishes@[i]@.channels
                <= after.publishes@[i]@.planes.len() implies after.well_formed() by {
                lemma_publish_update(before, after, i);
            }
        }
        &mut self.publishes[index]
    }

    /// The master bus's publish slot, if it is bound.
    pub fn master_publish(&self) -> (r: Option<&JamPublishSlot>)
        requires
            self.well_formed(),
        ensures
            r is Some <==> self@.publish_keys.contains_key(PUBLISH_KEY_MASTER@),
            r matches Some(slot) ==> slot@ == self@.publishes[self@.publish_keys[PUBLISH_KEY_MASTER@] as int]
                && slot.well_formed(),
    {
        match self.master_publish {
            Some(index) => self.publish(index),
            None => None,
        }
    }

    /// The live input pair's publish slot, if it is bound.
    pub fn live_input_publish(&self) -> (r: Option<&JamPublishSlot>)
        requires
            self.well_formed(),
        ensures
            r is Some <==> self@.publish_keys.contains_key(PUBLISH_KEY_LIVE_INPUT@),
            r matches Some(slot) ==> slot@ == self@.publishes[self@.publish_keys[PUBLISH_KEY_LIVE_INPUT@] as int]
                && slot.well_formed(),
    {
        match self.live_input_publish {
            Some(index) => self.publish(index),
            None => None,
        }
    }

    /// The control room's publish slot, if it is bound.
    pub fn monitor_publish(&self) -> (r: Option<&JamPublishSlot>)
        requires
            self.well_formed(),
        ensures
            r is Some <==> self@.publish_keys.contains_key(PUBLISH_KEY_MONITOR@),
            r matches Some(slot) ==> slot@ == self@.publishes[self@.publish_keys[PUBLISH_KEY_MONITOR@] as int]
                && slot.well_formed(),
    {
        match self.monitor_publish {
            Some(index) => self.publish(index),
            None => None,
        }
    }

    /// Whether the published master mix carries the metronome click.
    pub fn master_click_published(&self) -> (r: bool)
        ensures
            r == self@.master_click,
    {
        self.master_click
    }

    /// Put the metronome click into the published master mix, or leave it out.
    pub fn set_master_click_published(&mut self, included: bool)
        requires
            old(self).well_formed(),
        ensures
            final(self).well_formed(),
            final(self)@.consistent(),
            final(self)@ == (JamBusModel { master_click: included, ..old(self)@ }),
    {
        self.master_click = included;
    }

    /// The multitrack publish slot, if the arrangement is being shared.
    pub fn multitrack_publish(&self) -> (r: Option<&JamPublishSlot>)
        requires
            self.well_formed(),
        ensures
            r is Some <==> self@.publishes[MULTITRACK_PUBLISH_SLOT as int].active,
            r matches Some(slot) ==> slot@ == self@.publishes[MULTITRACK_PUBLISH_SLOT as int]
                && slot.well_formed(),
    {
        proof {
            assert(self.publishes@[MULTITRACK_PUBLISH_SLOT as int]@
                == self@.publishes[MULTITRACK_PUBLISH_SLOT as int]);
        }
        if self.publishes[MULTITRACK_PUBLISH_SLOT].is_active() {
            Some(&self.publishes[MULTITRACK_PUBLISH_SLOT])
        } else {
            None
        }
    }

    /// Bind a remote stream to the first free slot, or return the slot that it
    /// already holds. `None` means that every slot is taken.
    pub fn bind_input(&mut self, stream_id: &str) -> (r: Option<usize>)
        requires
            old(self).well_formed(),
        ensures
            final(self).well_formed(),
            final(self)@.consistent(),
            r == old(self)@.input_for(stream_id@),
            final(self)@ == old(self)@.input_bound(stream_id@),
    {
        if let Some(index) = self.input_keys.get(stream_id) {
            return Some(index);
        }
        let mut i: usize = 0;
        while i < self.inputs.len()
            invariant
                i <= self.inputs@.len(),
                *self == *old(self),
                self.well_formed(),
                !self@.input_keys.contains_key(stream_id@),
                self@.free_input(0) == self@.free_input(i as int),
            decreases self.inputs@.len() - i,
        {
            proof {
                assert(self.inputs@[i as int]@ == self@.inputs[i as int]);
            }
            if !self.inputs[i].is_active() {
                let ghost before = *self;
                proof {
                    assert(!slot_bound(before.input_keys@, i as int));
                    assert forall|k: Seq<char>| #[trigger] before.input_keys@.contains_key(
                        k,
                    ) implies before.input_keys@[k] != i by {
                        if before.input_keys@[k] == i {
                            assert(slot_bound(before.input_keys@, i as int));
                        }
                    }
                }
                let slot = &mut self.inputs[i];
                slot.claim();
                self.input_keys.insert(stream_id, i);
                self.any_input = true;
                proof {
                    assert(self@.inputs =~= before@.with_input(stream_id@, i).inputs);
                    assert(self.input_keys@.contains_key(stream_id@));
                    lemma_bound_after_insert(before.input_keys@, stream_id@, i);
                    assert forall|j: int| #![trigger self@.inputs[j]] 0 <= j < MAX_JAM_INPUT_SLOTS implies (
                    self@.inputs[j].active <==> slot_bound(self@.input_keys, j)) by {
                        assert(before@.inputs[j].active <==> slot_bound(before@.input_keys, j));
                    }
                    assert(self@.publishes =~= before@.publishes);
                }
                return Some(i);
            }
            i = i + 1;
        }
        None
    }

    /// The slot that a stream is bound to, if any.
    pub fn input_slot_for(&self, stream_id: &str) -> (r: Option<usize>)
        requires
            self.well_formed(),
        ensures
            r == bound_slot(self@.input_keys, stream_id@),
    {
        self.input_keys.get(stream_id)
    }

    /// Release a stream's slot, which reads as silence from then on.
    pub fn release_input(&mut self, stream_id: &str)
        requires
            old(self).well_formed(),
        ensures
            final(self).well_formed(),
            final(self)@.consistent(),
            final(self)@ == old(self)@.without_input(stream_id@),
    {
        let ghost before = *self;
        if let Some(index) = self.input_keys.remove(stream_id) {
            proof {
                assert(before@.input_keys == before.input_keys@);
                assert(before@.input_keys.contains_key(stream_id@));
                assert(before.inputs@[index as int]@ == before@.inputs[index as int]);
                lemma_bound_after_remove(before.input_keys@, stream_id@);
            }
            let slot = &mut self.inputs[index];
            slot.release();
            proof {
                assert(self@.inputs =~= before@.without_input(stream_id@).inputs);
                assert forall|j: int| #![trigger self@.inputs[j]] 0 <= j < MAX_JAM_INPUT_SLOTS implies (
                self@.inputs[j].active <==> slot_bound(self@.input_keys, j)) by {
                    assert(before@.inputs[j].active <==> slot_bound(before@.input_keys, j));
                }
            }
        } else {
            proof {
                assert(self.input_keys@ =~= before.input_keys@);
            }
        }
        let count: usize = self.input_keys.len();
        self.any_input = count > 0;
        proof {
            lemma_any_bound(self.input_keys@);
            assert(self@.publishes =~= before@.publishes);
            assert(self@ == before@.without_input(stream_id@));
        }
    }

    /// Bind a source to the first free stereo slot, or return the slot that it
    /// already holds. The multitrack stream is bound to the wide slot, and is
    /// refused while it is live.
    pub fn bind_publish(&mut self, key: &str) -> (r: Option<usize>)
        requires
            old(self).well_formed(),
        ensures
            final(self).well_formed(),
            final(self)@.consistent(),
            key@ == PUBLISH_KEY_MULTITRACK@ ==> {
                &&& r is Some <==> !old(self)@.publish_keys.contains_key(key@)
                &&& r matches Some(i) ==> i == MULTITRACK_PUBLISH_SLOT
                &&& final(self)@ == match r {
                    Some(i) => old(self)@.with_publish(key@, i, 2),
                    None => old(self)@,
                }
            },
            key@ != PUBLISH_KEY_MULTITRACK@ && old(self)@.publish_keys.contains_key(key@) ==> r
                == Some(old(self)@.publish_keys[key@]) && final(self)@ == old(self)@,
            key@ != PUBLISH_KEY_MULTITRACK@ && !old(self)@.publish_keys.contains_key(key@) ==> {
                &&& r == old(self)@.free_publish(0)
                &&& final(self)@ == match r {
                    Some(i) => old(self)@.with_publish(key@, i, 2),
                    None => old(self)@,
                }
            },
    {
        if str_eq(key, PUBLISH_KEY_MULTITRACK) {
            return self.bind_multitrack_publish(2);
        }
        if let Some(index) = self.publish_keys.get(key) {
            return Some(index);
        }
        let mut i: usize = 0;
        while i < MAX_JAM_PUBLISH_SLOTS
            invariant
                i <= MAX_JAM_PUBLISH_SLOTS,
                *self == *old(self),
                self.well_formed(),
                key@ != PUBLISH_KEY_MULTITRACK@,
                !self@.publish_keys.contains_key(key@),
                self@.free_publish(0) == self@.free_publish(i as int),
            decreases MAX_JAM_PUBLISH_SLOTS - i,
        {
            proof {
                assert(self.publishes@[i as int]@ == self@.publishes[i as int]);
            }
            if !self.publishes[i].is_active() {
                self.take_publish_slot(key, i, 2);
                return Some(i);
            }
            i = i + 1;
        }
        None
    }

    /// Bind a key to a free slot.
    fn take_publish_slot(&mut self, key: &str, i: usize, channels: usize)
        requires
            old(self).well_formed(),
            i < TOTAL_JAM_PUBLISH_SLOTS,
            key@ == PUBLISH_KEY_MULTITRACK@ <==> i == MULTITRACK_PUBLISH_SLOT,
            !old(self)@.publish_keys.contains_key(key@),
            !old(self)@.publishes[i as int].active,
        ensures
            final(self).well_formed(),
            final(self)@ == old(self)@.with_publish(key@, i, channels as nat),
    {
        let ghost before = *self;
        proof {
            assert(before.publishes@[i as int]@ == before@.publishes[i as int]);
            assert(!slot_bound(before.publish_keys@, i as int));
            assert forall|k: Seq<char>| #[trigger] before.publish_keys@.contains_key(k) implies before.publish_keys@[k]
                != i by {
                if before.publish_keys@[k] == i {
                    assert(slot_bound(before.publish_keys@, i as int));
                }
            }
        }
        let slot = &mut self.publishes[i];
        slot.claim(channels);
        self.publish_keys.insert(key, i);
        if str_eq(key, PUBLISH_KEY_MASTER) {
            self.master_publish = Some(i);
        }
        if str_eq(key, PUBLISH_KEY_LIVE_INPUT) {
            self.live_input_publish = Some(i);
        }
        if str_eq(key, PUBLISH_KEY_MONITOR) {
            self.monitor_publish = Some(i);
        }
        self.any_publish = true;
        proof {
            let after = before@.with_publish(key@, i, channels as nat);
            assert(self@.publishes =~= after.publishes);
            assert(self@.inputs =~= before@.inputs);
            assert(self.publish_keys@.contains_key(key@));
            lemma_bound_after_insert(before.publish_keys@, key@, i);
            assert forall|j: int| #![trigger self@.publishes[j]] 0 <= j < TOTAL_JAM_PUBLISH_SLOTS implies (
            self@.publishes[j].active <==> slot_bound(self@.publish_keys, j)) && 2
                <= self@.publishes[j].channels <= self@.publishes[j].planes.len()
                && self@.publishes[j].planes.len() == if j == MULTITRACK_PUBLISH_SLOT {
                MAX_MULTITRACK_CHANNELS as nat
            } else {
                2
            } by {
                assert(before@.publishes[j].active <==> slot_bound(before@.publish_keys, j));
            }
        }
    }

    /// Claim the wide slot for the multitrack stream with `channels` channels.
    /// `None` means that the stream is live.
    pub fn bind_multitrack_publish(&mut self, channels: usize) -> (r: Option<usize>)
        requires
            old(self).well_formed(),
        ensures
            final(self).well_formed(),
            final(self)@.consistent(),
            r is Some <==> !old(self)@.publish_keys.contains_key(PUBLISH_KEY_MULTITRACK@),
            r matches Some(i) ==> i == MULTITRACK_PUBLISH_SLOT,
            final(self)@ == match r {
                Some(i) => old(self)@.with_publish(PUBLISH_KEY_MULTITRACK@, i, channels as nat),
                None => old(self)@,
            },
    {
        if self.publish_keys.get(PUBLISH_KEY_MULTITRACK).is_some() {
            return None;
        }
        proof {
            let wide = MULTITRACK_PUBLISH_SLOT as int;
            if self@.publishes[wide].active {
                assert(slot_bound(self@.publish_keys, wide));
                let k = choose|k: Seq<char>| #[trigger]
                    self@.publish_keys.contains_key(k) && self@.publish_keys[k] == wide;
                assert(self@.publish_keys.contains_key(k));
            }
        }
        self.take_publish_slot(PUBLISH_KEY_MULTITRACK, MULTITRACK_PUBLISH_SLOT, channels);
        Some(MULTITRACK_PUBLISH_SLOT)
    }

    /// The slot that a source is bound to, if any.
    pub fn publish_slot_for(&self, key: &str) -> (r: Option<usize>)
        requires
            self.well_formed(),
        ensures
            r == bound_slot(self@.publish_keys, key@),
    {
        self.publish_keys.get(key)
    }

    /// Release a source's slot.
    pub fn release_publish(&mut self, key: &str)
        requires
            old(self).well_formed(),
        ensures
            final(self).well_formed(),
            final(self)@.consistent(),
            final(self)@ == old(self)@.without_publish(key@),
    {
        let ghost before = *self;
        if let Some(index) = self.publish_keys.remove(key) {
            proof {
                assert(before@.publish_keys == before.publish_keys@);
                assert(before@.publish_keys.contains_key(key@));
                assert(before.publishes@[index as int]@ == before@.publishes[index as int]);
                lemma_bound_after_remove(before.publish_keys@, key@);
            }
            let slot = &mut self.publishes[index];
            slot.release();
            proof {
                assert(self@.publishes =~= before@.without_publish(key@).publishes);
                assert forall|j: int| #![trigger self@.publishes[j]] 0 <= j < TOTAL_JAM_PUBLISH_SLOTS implies (
                self@.publishes[j].active <==> slot_bound(self@.publish_keys, j)) && 2
                    <= self@.publishes[j].channels <= self@.publishes[j].planes.len()
                    && self@.publishes[j].planes.len() == if j == MULTITRACK_PUBLISH_SLOT {
                    MAX_MULTITRACK_CHANNELS as nat
                } else {
                    2
                } by {
                    assert(before@.publishes[j].active <==> slot_bound(before@.publish_keys, j));
                }
            }
        } else {
            proof {
                assert(self.publish_keys@ =~= before.publish_keys@);
            }
        }
        if str_eq(key, PUBLISH_KEY_MASTER) {
            self.master_publish = None;
        }
        if str_eq(key, PUBLISH_KEY_LIVE_INPUT) {
            self.live_input_publish = None;
        }
        if str_eq(key, PUBLISH_KEY_MONITOR) {
            self.monitor_publish = None;
        }
        let count: usize = self.publish_keys.len();
        self.any_publish = count > 0;
        proof {
            lemma_any_bound(self.publish_keys@);
            assert(self@.inputs =~= before@.inputs);
            assert(self@ == before@.without_publish(key@));
        }
    }

    /// Drop every binding.
    pub fn release_all(&mut self)
        requires
            old(self).well_formed(),
        ensures
            final(self).well_formed(),
            final(self)@.consistent(),
            final(self)@ == old(self)@.emptied(),
    {
        let ghost before = *self;
        let mut i: usize = 0;
        while i < self.inputs.len()
            invariant
                i <= self.inputs@.len(),
                before.well_formed(),
                *self == (JamAudioBus { inputs: self.inputs, ..before }),
                self.inputs@.len() == before.inputs@.len(),
                forall|k: int|
                    #![trigger self.inputs@[k]]
                    0 <= k < self.inputs@.len() ==> self.inputs@[k].well_formed(),
                forall|k: int|
                    #![trigger self.inputs@[k]]
                    0 <= k < i ==> self.inputs@[k]@ == (JamInputModel {
                        active: false,
                        ..before.inputs@[k]@
                    }),
                forall|k: int|
                    #![trigger self.inputs@[k]]
                    i <= k < self.inputs@.len() ==> self.inputs@[k] == before.inputs@[k],
            decreases self.inputs@.len() - i,
        {
            let slot = &mut self.inputs[i];
            slot.release();
            i = i + 1;
        }
        let ghost middle = *self;
        let mut i: usize = 0;
        while i < self.publishes.len()
            invariant
                i <= self.publishes@.len(),
                before.well_formed(),
                *self == (JamAudioBus { publishes: self.publishes, ..middle }),
                middle.publishes@ == before.publishes@,
                self.publishes@.len() == before.publishes@.len(),
                forall|k: int|
                    #![trigger self.publishes@[k]]
                    0 <= k < self.publishes@.len() ==> self.publishes@[k].well_formed(),
                forall|k: int|
                    #![trigger self.publishes@[k]]
                    0 <= k < i ==> self.publishes@[k]@ == (JamPublishModel {
                        active: false,
                        ..before.publishes@[k]@
                    }),
                forall|k: int|
                    #![trigger self.publishes@[k]]
                    i <= k < self.publishes@.len() ==> self.publishes@[k]
                        == before.publishes@[k],
            decreases self.publishes@.len() - i,
        {
            let slot = &mut self.publishes[i];
            slot.release();
            i = i + 1;
        }
        self.input_keys.clear();
        self.publish_keys.clear();
        self.any_input = false;
        self.any_publish = false;
        self.master_publish = None;
        self.live_input_publish = None;
        self.monitor_publish = None;
        proof {
            assert(self@.inputs =~= before@.emptied().inputs);
            assert(self@.publishes =~= before@.emptied().publishes);
            assert forall|j: int| #![trigger self@.publishes[j]] 0 <= j < TOTAL_JAM_PUBLISH_SLOTS implies 2
                <= self@.publishes[j].channels <= self@.publishes[j].planes.len()
                && self@.publishes[j].planes.len() == if j == MULTITRACK_PUBLISH_SLOT {
                MAX_MULTITRACK_CHANNELS as nat
            } else {
                2
            } by {
                assert(before@.publishes[j].planes.len() > 0);
            }
        }
    }

    /// How many streams are bound.
    pub fn bound_input_count(&self) -> (r: usize)
        requires
            self.well_formed(),
        ensures
            r == self@.input_keys.dom().len(),
    {
        self.input_keys.len()
    }

    /// How many sources are bound.
    pub fn bound_publish_count(&self) -> (r: usize)
        requires
            self.well_formed(),
        ensures
            r == self@.publish_keys.dom().len(),
    {
        self.publish_keys.len()
    }

    /// Every bound stream with its slot, in the order of the stream ids.
    pub fn bound_inputs(&self) -> (r: Vec<(String, usize)>)
        requires
            self.well_formed(),
        ensures
            r@.len() == self@.input_keys.dom().len(),
            forall|i: int|
                #![trigger r@[i]]
                0 <= i < r@.len() ==> self@.input_keys.contains_pair(r@[i].0@, r@[i].1),
            forall|k: Seq<char>| #[trigger] self@.input_keys.contains_key(k) ==> listed(r@, k),
            forall|i: int, j: int|
                #![trigger r@[i], r@[j]]
                0 <= i < j < r@.len() ==> text::lex_less(r@[i].0@, r@[j].0@),
    {
        let mut rest: Vec<(String, usize)> = self.input_keys.pairs();
        let mut out: Vec<(String, usize)> = Vec::new();
        let ghost total = rest@.len();
        while rest.len() > 0
            invariant
                out@.len() + rest@.len() == total,
                total == self@.input_keys.dom().len(),
                forall|i: int|
                    #![trigger out@[i]]
                    0 <= i < out@.len() ==> self@.input_keys.contains_pair(out@[i].0@, out@[i].1),
                forall|i: int|
                    #![trigger rest@[i]]
                    0 <= i < rest@.len() ==> self@.input_keys.contains_pair(
                        rest@[i].0@,
                        rest@[i].1,
                    ),
                forall|i: int, j: int|
                    #![trigger out@[i], out@[j]]
                    0 <= i < j < out@.len() ==> text::lex_less(out@[i].0@, out@[j].0@),
                forall|i: int, j: int|
                    #![trigger out@[i], rest@[j]]
                    0 <= i < out@.len() && 0 <= j < rest@.len() ==> text::lex_less(
                        out@[i].0@,
                        rest@[j].0@,
                    ),
                forall|i: int, j: int|
                    #![trigger rest@[i], rest@[j]]
                    0 <= i < j < rest@.len() ==> rest@[i].0@ != rest@[j].0@,
                forall|k: Seq<char>| #[trigger]
                    self@.input_keys.contains_key(k) ==> listed(out@, k) || listed(rest@, k),
            decreases rest@.len(),
        {
            let mut least: usize = 0;
            let mut k: usize = 1;
            while k < rest.len()
                invariant
                    rest@.len() > 0,
                    least < rest@.len(),
                    least < k,
                    1 <= k <= rest@.len(),
                    forall|i: int, j: int|
                        #![trigger rest@[i], rest@[j]]
                        0 <= i < j < rest@.len() ==> rest@[i].0@ != rest@[j].0@,
                    forall|i: int|
                        #![trigger rest@[i]]
                        0 <= i < k && i != least ==> text::lex_less(
                            rest@[least as int].0@,
                            rest@[i].0@,
                        ),
                decreases rest@.len() - k,
            {
                if text::str_less(rest[k].0.as_str(), rest[least].0.as_str()) {
                    proof {
                        assert forall|i: int| #![trigger rest@[i]] 0 <= i < k + 1 && i != k implies text::lex_less(
                            rest@[k as int].0@,
                            rest@[i].0@,
                        ) by {
                            if i != least {
                                text::lemma_lex_less_transitive(
                                    rest@[k as int].0@,
                                    rest@[least as int].0@,
                                    rest@[i].0@,
                                );
                            }
                        }
                    }
                    least = k;
                } else {
                    proof {
                        assert(rest@[least as int].0@ != rest@[k as int].0@);
                        text::lemma_lex_less_total(rest@[least as int].0@, rest@[k as int].0@);
                    }
                }
                k = k + 1;
            }
            let ghost before = rest@;
            let ghost done = out@;
            let next: (String, usize) = rest.remove(least);
            proof {
                let at = least as int;
                assert forall|j: int| #![trigger rest@[j]] 0 <= j < rest@.len() implies text::lex_less(
                    next.0@,
                    rest@[j].0@,
                ) by {
                    let i = if j < at {
                        j
                    } else {
                        j + 1
                    };
                    assert(rest@[j] == before[i]);
                }
                assert forall|i: int, j: int|
                    #![trigger rest@[i], rest@[j]]
                    0 <= i < j < rest@.len() implies rest@[i].0@ != rest@[j].0@ by {
                    let a = if i < at {
                        i
                    } else {
                        i + 1
                    };
                    let b = if j < at {
                        j
                    } else {
                        j + 1
                    };
                    assert(rest@[i] == before[a] && rest@[j] == before[b]);
                }
                assert forall|i: int| #![trigger rest@[i]] 0 <= i < rest@.len() implies self@.input_keys.contains_pair(
                    rest@[i].0@,
                    rest@[i].1,
                ) && (forall|d: int|
                    #![trigger done[d]]
                    0 <= d < done.len() ==> text::lex_less(done[d].0@, rest@[i].0@)) by {
                    let a = if i < at {
                        i
                    } else {
                        i + 1
                    };
                    assert(rest@[i] == before[a]);
                }
                assert(before[at] == next);
            }
            out.push(next);
            proof {
                let at = least as int;
                assert(out@[done.len() as int] == next);
                assert forall|k: Seq<char>| #[trigger] self@.input_keys.contains_key(k) implies listed(
                    out@,
                    k,
                ) || listed(rest@, k) by {
                    if listed(done, k) {
                        let i = choose|i: int| 0 <= i < done.len() && #[trigger] done[i].0@ == k;
                        assert(out@[i].0@ == k);
                    } else {
                        let i = choose|i: int|
                            0 <= i < before.len() && #[trigger] before[i].0@ == k;
                        if i < at {
                            assert(rest@[i].0@ == k);
                        } else if i > at {
                            assert(rest@[i - 1].0@ == k);
                        } else {
                            assert(out@[done.len() as int].0@ == k);
                        }
                    }
                }
            }
        }
        out
    }
}

// ── Laws ────────────────────────────────────────────────────────────────────

/// Binding is idempotent: a stream that was bound holds the slot that it got,
/// binding it again gives that slot and leaves the bus as it is, and no other
/// stream's slot changes.
pub proof fn law_bound_stream_keeps_its_slot(bus: JamBusModel, id: Seq<char>)
    ensures
        ({
            let after = bus.input_bound(id);
            &&& bound_slot(after.input_keys, id) == bus.input_for(id)
            &&& after.input_for(id) == bus.input_for(id)
            &&& after.input_bound(id) == after
            &&& forall|other: Seq<char>|
                other != id ==> #[trigger] bound_slot(after.input_keys, other) == bound_slot(
                    bus.input_keys,
                    other,
                )
        }),
{
}

/// A bus in order has its keys and slots agree, and finitely many keys.
pub proof fn law_bus_is_consistent(bus: JamAudioBus)
    requires
        bus.well_formed(),
    ensures
        bus@.consistent(),
        bus@.input_keys.dom().finite(),
        bus@.publish_keys.dom().finite(),
{
}

/// A stream is refused exactly when every slot is taken, and is given the first
/// one that is not.
pub proof fn law_refused_only_when_full(bus: JamBusModel, i: int)
    requires
        0 <= i <= bus.inputs.len(),
        bus.inputs.len() <= usize::MAX,
    ensures
        bus.free_input(i) is None <==> forall|j: int|
            i <= j < bus.inputs.len() ==> (#[trigger] bus.inputs[j]).active,
        bus.free_input(i) matches Some(f) ==> i <= f < bus.inputs.len()
            && !bus.inputs[f as int].active && forall|j: int|
            i <= j < f ==> (#[trigger] bus.inputs[j]).active,
    decreases bus.inputs.len() - i,
{
    if i < bus.inputs.len() {
        law_refused_only_when_full(bus, i + 1);
        assert(bus.inputs[i].active || !bus.inputs[i].active);
    }
}

/// A source is refused exactly when every stereo slot is taken, and is given the
/// first one that is not.
pub proof fn law_publish_refused_only_when_full(bus: JamBusModel, i: int)
    requires
        0 <= i <= MAX_JAM_PUBLISH_SLOTS,
    ensures
        bus.free_publish(i) is None <==> forall|j: int|
            i <= j < MAX_JAM_PUBLISH_SLOTS ==> (#[trigger] bus.publishes[j]).active,
        bus.free_publish(i) matches Some(f) ==> i <= f < MAX_JAM_PUBLISH_SLOTS
            && !bus.publishes[f as int].active && forall|j: int|
            i <= j < f ==> (#[trigger] bus.publishes[j]).active,
    decreases MAX_JAM_PUBLISH_SLOTS - i,
{
    if i < MAX_JAM_PUBLISH_SLOTS {
        law_publish_refused_only_when_full(bus, i + 1);
        assert(bus.publishes[i].active || !bus.publishes[i].active);
    }
}

/// How many keys are bound to `n` slots, no two of them to one: no more than
/// there are slots, and as many exactly when every slot is bound.
proof fn lemma_keys_counted(keys: Map<Seq<char>, usize>, n: nat)
    requires
        keys.dom().finite(),
        forall|k: Seq<char>| #[trigger] keys.contains_key(k) ==> keys[k] < n,
        forall|a: Seq<char>, b: Seq<char>|
            #![trigger keys.contains_key(a), keys.contains_key(b)]
            keys.contains_key(a) && keys.contains_key(b) && a != b ==> keys[a] != keys[b],
    ensures
        keys.dom().len() <= n,
        keys.dom().len() == n <==> forall|i: int| 0 <= i < n ==> #[trigger] slot_bound(keys, i),
    decreases n,
{
    if n == 0 {
        assert(keys.dom() =~= Set::<Seq<char>>::empty());
    } else {
        let last = n - 1;
        if slot_bound(keys, last) {
            let key = choose|k: Seq<char>| #[trigger] keys.contains_key(k) && keys[k] == last;
            let rest = keys.remove(key);
            assert(rest.dom() =~= keys.dom().remove(key));
            lemma_bound_after_remove(keys, key);
            assert forall|k: Seq<char>| #[trigger] rest.contains_key(k) implies rest[k] < last by {
                assert(keys.contains_key(k) && keys.contains_key(key));
            }
            assert forall|a: Seq<char>, b: Seq<char>|
                #![trigger rest.contains_key(a), rest.contains_key(b)]
                rest.contains_key(a) && rest.contains_key(b) && a != b implies rest[a] != rest[b] by {
                assert(keys.contains_key(a) && keys.contains_key(b));
            }
            lemma_keys_counted(rest, last as nat);
            if keys.dom().len() == n {
                assert forall|i: int| 0 <= i < n implies #[trigger] slot_bound(keys, i) by {
                    if i < last {
                        assert(slot_bound(rest, i));
                    }
                }
            } else {
                let i = choose|i: int| 0 <= i < last && !slot_bound(rest, i);
                assert(!slot_bound(keys, i));
            }
        } else {
            assert forall|k: Seq<char>| #[trigger] keys.contains_key(k) implies keys[k] < last by {
                if keys[k] == last {
                    assert(slot_bound(keys, last));
                }
            }
            lemma_keys_counted(keys, last as nat);
        }
    }
}

/// There is room for another stream exactly while fewer streams are bound than
/// there are slots, and never are more bound.
pub proof fn law_room_while_few_streams_are_bound(bus: JamBusModel)
    requires
        bus.consistent(),
    ensures
        bus.input_keys.dom().len() <= MAX_JAM_INPUT_SLOTS,
        bus.free_input(0) is Some <==> bus.input_keys.dom().len() < MAX_JAM_INPUT_SLOTS,
{
    lemma_keys_counted(bus.input_keys, MAX_JAM_INPUT_SLOTS as nat);
    law_refused_only_when_full(bus, 0);
    assert forall|i: int| 0 <= i < MAX_JAM_INPUT_SLOTS implies (#[trigger] bus.inputs[i]).active
        == slot_bound(bus.input_keys, i) by {}
    if bus.free_input(0) is None {
        assert forall|i: int| 0 <= i < MAX_JAM_INPUT_SLOTS implies #[trigger] slot_bound(
            bus.input_keys,
            i,
        ) by {
            assert(bus.inputs[i].active);
        }
    }
}

/// There is room for another stereo source exactly while fewer of them are bound
/// than there are stereo slots, whether or not the multitrack stream is.
pub proof fn law_room_while_few_sources_are_bound(bus: JamBusModel)
    requires
        bus.consistent(),
    ensures
        ({
            let stereo = bus.publish_keys.remove(PUBLISH_KEY_MULTITRACK@);
            &&& stereo.dom().len() <= MAX_JAM_PUBLISH_SLOTS
            &&& bus.free_publish(0) is Some <==> stereo.dom().len() < MAX_JAM_PUBLISH_SLOTS
        }),
{
    let stereo = bus.publish_keys.remove(PUBLISH_KEY_MULTITRACK@);
    assert(stereo.dom() =~= bus.publish_keys.dom().remove(PUBLISH_KEY_MULTITRACK@));
    assert forall|k: Seq<char>| #[trigger] stereo.contains_key(k) implies stereo[k]
        < MAX_JAM_PUBLISH_SLOTS by {
        assert(bus.publish_keys.contains_key(k));
    }
    assert forall|a: Seq<char>, b: Seq<char>|
        #![trigger stereo.contains_key(a), stereo.contains_key(b)]
        stereo.contains_key(a) && stereo.contains_key(b) && a != b implies stereo[a] != stereo[b] by {
        assert(bus.publish_keys.contains_key(a) && bus.publish_keys.contains_key(b));
    }
    lemma_keys_counted(stereo, MAX_JAM_PUBLISH_SLOTS as nat);
    law_publish_refused_only_when_full(bus, 0);
    assert forall|i: int| 0 <= i < MAX_JAM_PUBLISH_SLOTS implies (#[trigger] bus.publishes[i]).active
        == slot_bound(stereo, i) by {
        if slot_bound(bus.publish_keys, i) {
            let k = choose|k: Seq<char>| #[trigger]
                bus.publish_keys.contains_key(k) && bus.publish_keys[k] == i;
            assert(stereo.contains_key(k) && stereo[k] == i);
        }
        if slot_bound(stereo, i) {
            let k = choose|k: Seq<char>| #[trigger] stereo.contains_key(k) && stereo[k] == i;
            assert(bus.publish_keys.contains_key(k) && bus.publish_keys[k] == i);
        }
    }
    if bus.free_publish(0) is None {
        assert forall|i: int| 0 <= i < MAX_JAM_PUBLISH_SLOTS implies #[trigger] slot_bound(
            stereo,
            i,
        ) by {
            assert(bus.publishes[i].active);
        }
    }
}

/// Keys that are bound at once are bound to different slots.
pub proof fn law_keys_share_no_slot(bus: JamBusModel, a: Seq<char>, b: Seq<char>)
    requires
        bus.consistent(),
        a != b,
    ensures
        bus.input_keys.contains_key(a) && bus.input_keys.contains_key(b) ==> bus.input_keys[a]
            != bus.input_keys[b],
        bus.publish_keys.contains_key(a) && bus.publish_keys.contains_key(b)
            ==> bus.publish_keys[a] != bus.publish_keys[b],
{
}

/// Something is bound exactly when the number of bound keys is not zero, a new
/// binding adds one and a release takes one away.
pub proof fn law_counts_follow_the_bindings(
    keys: Map<Seq<char>, usize>,
    key: Seq<char>,
    slot: usize,
)
    requires
        keys.dom().finite(),
    ensures
        any_bound(keys) <==> keys.dom().len() > 0,
        !keys.contains_key(key) ==> keys.insert(key, slot).dom().len() == keys.dom().len() + 1,
        keys.contains_key(key) ==> keys.remove(key).dom().len() == keys.dom().len() - 1,
{
    lemma_any_bound(keys);
    assert(keys.insert(key, slot).dom() =~= keys.dom().insert(key));
    assert(keys.remove(key).dom() =~= keys.dom().remove(key));
}

/// Every publish slot carries at least a pair and at most what it has room for,
/// claimed or not, and only the multitrack slot has room for more than a pair.
pub proof fn law_publish_slots_carry_what_they_can(bus: JamBusModel, i: int)
    requires
        bus.consistent(),
        0 <= i < bus.publishes.len(),
    ensures
        bus.publishes.len() == TOTAL_JAM_PUBLISH_SLOTS,
        2 <= bus.publishes[i].channels <= bus.publishes[i].planes.len(),
        bus.publishes[i].width() == bus.publishes[i].channels,
        bus.publishes[i].planes.len() == if i == MULTITRACK_PUBLISH_SLOT {
            MAX_MULTITRACK_CHANNELS as nat
        } else {
            2
        },
{
}

/// The multitrack stream gets the channels that it asks for: an even number of
/// them, at least two and at most the widest layout, in an empty slot.
pub proof fn law_multitrack_stream_gets_its_width(bus: JamBusModel, channels: nat)
    requires
        bus.consistent(),
    ensures
        ({
            let slot = bus.with_publish(
                PUBLISH_KEY_MULTITRACK@,
                MULTITRACK_PUBLISH_SLOT,
                channels,
            ).publishes[MULTITRACK_PUBLISH_SLOT as int];
            let even = channels / 2 * 2;
            &&& slot.active
            &&& slot.channels == (if even < 2 {
                2
            } else if even > MAX_MULTITRACK_CHANNELS {
                MAX_MULTITRACK_CHANNELS as nat
            } else {
                even
            })
            &&& slot.width() == slot.channels
            &&& slot.write == 0
            &&& slot.backlog() == 0
        }),
{
    assert(bus.publishes[MULTITRACK_PUBLISH_SLOT as int].planes.len() == MAX_MULTITRACK_CHANNELS);
}

/// The wide slot is never handed out to an ordinary source: whatever is bound
/// to it is the multitrack stream.
pub proof fn law_wide_slot_is_the_multitrack_streams(bus: JamBusModel, key: Seq<char>)
    requires
        bus.consistent(),
        bus.publish_keys.contains_key(key),
        bus.publish_keys[key] == MULTITRACK_PUBLISH_SLOT,
    ensures
        key == PUBLISH_KEY_MULTITRACK@,
{
}

/// A released stream gives nothing more: its slot is inactive, and it is bound
/// to none.
pub proof fn law_released_stream_is_silent(bus: JamBusModel, id: Seq<char>, want: nat)
    requires
        bus.consistent(),
        bus.input_keys.contains_key(id),
    ensures
        ({
            let after = bus.without_input(id);
            let slot = bus.input_keys[id] as int;
            &&& bound_slot(after.input_keys, id) is None
            &&& !after.inputs[slot].active
            &&& !after.inputs[slot].plays(want)
            &&& after.free_input(0) is Some
            &&& after.input_keys.dom().len() == bus.input_keys.dom().len() - 1
            &&& forall|other: Seq<char>|
                other != id ==> #[trigger] bound_slot(after.input_keys, other) == bound_slot(
                    bus.input_keys,
                    other,
                )
        }),
{
    let after = bus.without_input(id);
    let slot = bus.input_keys[id] as int;
    law_refused_only_when_full(after, 0);
    law_counts_follow_the_bindings(bus.input_keys, id, 0);
    assert(!after.inputs[slot].active);
}

/// A released source is published no more: its slot is inactive, it is bound to
/// none, and every other source keeps its slot.
pub proof fn law_released_source_is_unpublished(bus: JamBusModel, key: Seq<char>)
    requires
        bus.consistent(),
        bus.publish_keys.contains_key(key),
    ensures
        ({
            let after = bus.without_publish(key);
            let slot = bus.publish_keys[key] as int;
            &&& bound_slot(after.publish_keys, key) is None
            &&& !after.publishes[slot].active
            &&& after.publish_keys.dom().len() == bus.publish_keys.dom().len() - 1
            &&& forall|other: Seq<char>|
                other != key ==> #[trigger] bound_slot(after.publish_keys, other) == bound_slot(
                    bus.publish_keys,
                    other,
                )
        }),
{
    law_counts_follow_the_bindings(bus.publish_keys, key, 0);
}

/// Dropping every binding leaves no slot claimed and nothing bound.
pub proof fn law_emptied_bus_claims_nothing(bus: JamBusModel)
    requires
        bus.consistent(),
    ensures
        !any_bound(bus.emptied().input_keys),
        !any_bound(bus.emptied().publish_keys),
        forall|i: int|
            0 <= i < bus.inputs.len() ==> !(#[trigger] bus.emptied().inputs[i]).active,
        forall|i: int|
            0 <= i < bus.publishes.len() ==> !(#[trigger] bus.emptied().publishes[i]).active,
{
}

/// Which slots are bound after a new key was bound to a free slot.
proof fn lemma_bound_after_insert(keys: Map<Seq<char>, usize>, key: Seq<char>, slot: usize)
    requires
        !keys.contains_key(key),
    ensures
        forall|j: int| #[trigger]
            slot_bound(keys.insert(key, slot), j) <==> j == slot || slot_bound(keys, j),
{
    let after = keys.insert(key, slot);
    assert forall|j: int| #[trigger] slot_bound(after, j) <==> j == slot || slot_bound(keys, j) by {
        if slot_bound(after, j) {
            let k = choose|k: Seq<char>| #[trigger] after.contains_key(k) && after[k] == j;
            if k != key {
                assert(keys.contains_key(k) && keys[k] == j);
            }
        }
        if slot_bound(keys, j) {
            let k = choose|k: Seq<char>| #[trigger] keys.contains_key(k) && keys[k] == j;
            assert(after.contains_key(k) && after[k] == j);
        }
        if j == slot {
            assert(after.contains_key(key) && after[key] == j);
        }
    }
}

/// Which slots are bound after a key was released.
proof fn lemma_bound_after_remove(keys: Map<Seq<char>, usize>, key: Seq<char>)
    requires
        keys.contains_key(key),
        forall|a: Seq<char>, b: Seq<char>|
            #![trigger keys.contains_key(a), keys.contains_key(b)]
            keys.contains_key(a) && keys.contains_key(b) && a != b ==> keys[a] != keys[b],
    ensures
        forall|j: int| #[trigger]
            slot_bound(keys.remove(key), j) <==> j != keys[key] && slot_bound(keys, j),
{
    let after = keys.remove(key);
    assert forall|j: int| #[trigger] slot_bound(after, j) <==> j != keys[key] && slot_bound(
        keys,
        j,
    ) by {
        if slot_bound(after, j) {
            let k = choose|k: Seq<char>| #[trigger] after.contains_key(k) && after[k] == j;
            assert(keys.contains_key(k) && keys[k] == j);
        }
        if j != keys[key] && slot_bound(keys, j) {
            let k = choose|k: Seq<char>| #[trigger] keys.contains_key(k) && keys[k] == j;
            assert(after.contains_key(k) && after[k] == j);
        }
    }
}

/// Some key is bound exactly when the number of bound keys is not zero.
proof fn lemma_any_bound(keys: Map<Seq<char>, usize>)
    requires
        keys.dom().finite(),
    ensures
        any_bound(keys) <==> keys.dom().len() > 0,
{
    if any_bound(keys) {
        let k = choose|k: Seq<char>| keys.contains_key(k);
        assert(keys.dom().contains(k));
        if keys.dom().len() == 0 {
            assert(keys.dom() =~= Set::empty());
        }
    }
    if keys.dom().len() > 0 {
        let k = keys.dom().choose();
        assert(keys.dom().contains(k)) by {
            if keys.dom() =~= Set::<Seq<char>>::empty() {
                assert(keys.dom().len() == 0);
            }
        }
        assert(keys.contains_key(k));
    }
}

/// Exchanging one input slot for another with the same claim keeps a bus in
/// order.
proof fn lemma_input_update(before: JamAudioBus, after: JamAudioBus, i: int)
    requires
        before.well_formed(),
        0 <= i < before.inputs@.len(),
        after == (JamAudioBus { inputs: after.inputs, ..before }),
        after.inputs@ == before.inputs@.update(i, after.inputs@[i]),
        after.inputs@[i].well_formed(),
        after.inputs@[i]@.active == before.inputs@[i]@.active,
    ensures
        after.well_formed(),
{
    assert forall|j: int| #![trigger after@.inputs[j]] 0 <= j < MAX_JAM_INPUT_SLOTS implies (
    after@.inputs[j].active <==> slot_bound(after@.input_keys, j)) by {
        assert(before@.inputs[j].active <==> slot_bound(before@.input_keys, j));
        assert(before@.inputs[j] == before.inputs@[j]@);
        assert(after@.inputs[j] == after.inputs@[j]@);
    }
    assert(after@.publishes =~= before@.publishes);
    assert(after@.input_keys == before@.input_keys);
    assert(after@.publish_keys == before@.publish_keys);
}

/// Exchanging one publish slot for another with the same claim and width keeps
/// a bus in order.
proof fn lemma_publish_update(before: JamAudioBus, after: JamAudioBus, i: int)
    requires
        before.well_formed(),
        0 <= i < before.publishes@.len(),
        after == (JamAudioBus { publishes: after.publishes, ..before }),
        after.publishes@ == before.publishes@.update(i, after.publishes@[i]),
        after.publishes@[i].well_formed(),
        after.publishes@[i]@.active == before.publishes@[i]@.active,
        after.publishes@[i]@.planes.len() == before.publishes@[i]@.planes.len(),
        2 <= after.publishes@[i]@.channels <= after.publishes@[i]@.planes.len(),
    ensures
        after.well_formed(),
{
    assert forall|j: int| #![trigger after@.publishes[j]] 0 <= j < TOTAL_JAM_PUBLISH_SLOTS implies (
    after@.publishes[j].active <==> slot_bound(after@.publish_keys, j)) && 2
        <= after@.publishes[j].channels <= after@.publishes[j].planes.len()
        && after@.publishes[j].planes.len() == if j == MULTITRACK_PUBLISH_SLOT {
        MAX_MULTITRACK_CHANNELS as nat
    } else {
        2
    } by {
        assert(before@.publishes[j].active <==> slot_bound(before@.publish_keys, j));
        assert(before@.publishes[j] == before.publishes@[j]@);
        assert(after@.publishes[j] == after.publishes@[j]@);
    }
    assert(after@.inputs =~= before@.inputs);
    assert(after@.input_keys == before@.input_keys);
    assert(after@.publish_keys == before@.publish_keys);
}

} // verus!
