//! Insert chains: which processor each insert runs, and the exchange with a
//! bridged plug-in.

use vstd::prelude::*;

use crate::engine::render;
use crate::runtime::RuntimeInsert;
use crate::runtime::RuntimeInsertKind;
use crate::runtime::RuntimePluginParamBinding;
use crate::runtime::RuntimeTrack;

verus! {

/// One step of running a track's chain on a block.
#[derive(Clone, Copy, Debug, PartialEq, Eq, Structural)]
pub enum ChainStep {
    /// Hand a parameter value to a bridged plug-in.
    PushParam { insert: usize, param_id: u32, value_bits: u32 },
    /// Run a processor of the engine.
    Builtin { insert: usize },
    /// Run an in-process plug-in.
    Native { insert: usize, with_midi: bool },
    /// Exchange a block with a bridged plug-in.
    Bridge { insert: usize, with_midi: bool },
}

/// What an insert does to one sample.
#[derive(Clone, Copy, Debug, PartialEq, Eq, Structural)]
pub enum InsertAction {
    /// Leave it as it is.
    Dry,
    /// Run the in-process plug-in; where it fails, leave the sample as it is.
    Native,
    /// Run a processor of the engine, which heeds the insert's enabled flag.
    Builtin,
}

/// One step of the exchange with a bridged plug-in.
#[derive(Clone, Copy, Debug, PartialEq, Eq, Structural)]
pub enum BridgeStep {
    PushMidi,
    WriteInput { frames: usize },
    ReadOutput { frames: usize },
    SetTransport,
    RequestBlock { block_frames: u32 },
}

/// What becomes of a bridged plug-in's output.
#[derive(Clone, Copy, Debug, PartialEq, Eq, Structural)]
pub enum BridgeMix {
    /// Nothing came: the block stays as it is.
    Keep,
    /// An effect's output replaces the block's first frames.
    Replace { frames: usize },
    /// An instrument's output adds to the block's first frames.
    Add { frames: usize },
    /// A multi-out instrument's channel pairs go to its output strips; the
    /// block itself takes none.
    Split { frames: usize },
}

// ── The chain ───────────────────────────────────────────────────────────────

/// Whether an insert receives the track's MIDI.
pub open spec fn receives_midi(track: RuntimeTrack, ix: int, has_midi: bool) -> bool {
    has_midi && (track.midi_instrument_insert_ix matches Some(i) && i == ix)
}

/// The step of insert `ix` on a block that is run in this process, `None` where
/// the block passes unchanged.
pub open spec fn processor_step(
    insert: RuntimeInsert,
    ix: int,
    frames: int,
    with_midi: bool,
) -> Option<ChainStep> {
    if frames == 0 {
        None
    } else if insert.kind_tag != RuntimeInsertKind::NativePlugin {
        Some(ChainStep::Builtin { insert: ix as usize })
    } else if insert.enabled && (insert.native matches Some(native) && native.valid) {
        Some(ChainStep::Native { insert: ix as usize, with_midi })
    } else {
        None
    }
}

/// The step of insert `ix` of a chain on a block, `None` where the block passes
/// unchanged: a bridged insert exchanges the block with its plug-in, any other
/// is run in this process.
pub open spec fn insert_step(
    insert: RuntimeInsert,
    ix: int,
    frames: int,
    with_midi: bool,
) -> Option<ChainStep> {
    if insert.kind_tag == RuntimeInsertKind::ExternalBridge {
        if bridge_runs(insert, frames) {
            Some(ChainStep::Bridge { insert: ix as usize, with_midi })
        } else {
            None
        }
    } else {
        processor_step(insert, ix, frames, with_midi)
    }
}

/// The steps of the first `n` inserts of a track.
pub open spec fn insert_steps(
    track: RuntimeTrack,
    frames: int,
    has_midi: bool,
    n: nat,
) -> Seq<ChainStep>
    decreases n,
{
    if n == 0 {
        Seq::empty()
    } else {
        let rest = insert_steps(track, frames, has_midi, (n - 1) as nat);
        match insert_step(
            track.inserts@[n - 1],
            n - 1,
            frames,
            receives_midi(track, n - 1, has_midi),
        ) {
            Some(step) => rest.push(step),
            None => rest,
        }
    }
}

/// The value that a binding hands to its plug-in in this block: a live lane's
/// value that differs from the last one handed over, while the transport runs
/// and the plug-in is bound.
pub open spec fn param_due(
    track: RuntimeTrack,
    binding: RuntimePluginParamBinding,
    playing: bool,
) -> Option<u32> {
    match binding.value_bits {
        Some(v) => if playing && binding.insert_ix < track.inserts@.len()
            && track.inserts@[binding.insert_ix as int].kind_tag
            == RuntimeInsertKind::ExternalBridge
            && track.inserts@[binding.insert_ix as int].bridge is Some
            && !render::equal_as_numbers(v, binding.last_value_bits) {
            Some(v)
        } else {
            None
        },
        None => None,
    }
}

/// The steps of the first `n` parameter bindings of a track.
pub open spec fn param_steps(track: RuntimeTrack, playing: bool, n: nat) -> Seq<ChainStep>
    decreases n,
{
    if n == 0 {
        Seq::empty()
    } else {
        let rest = param_steps(track, playing, (n - 1) as nat);
        let binding = track.plugin_param_automation@[n - 1];
        match param_due(track, binding, playing) {
            Some(v) => rest.push(
                ChainStep::PushParam {
                    insert: binding.insert_ix,
                    param_id: binding.param_id,
                    value_bits: v,
                },
            ),
            None => rest,
        }
    }
}

/// A binding after a block: it remembers the value it handed over.
pub open spec fn binding_after(
    track: RuntimeTrack,
    binding: RuntimePluginParamBinding,
    playing: bool,
) -> RuntimePluginParamBinding {
    match param_due(track, binding, playing) {
        Some(v) => RuntimePluginParamBinding { last_value_bits: v, ..binding },
        None => binding,
    }
}

/// The step of one insert on a block that is run in this process: an in-process
/// plug-in runs while enabled and present, anything else is a processor of the
/// engine. A chain does not come here with its bridged inserts.
pub fn apply_insert_block(
    insert: &RuntimeInsert,
    ix: usize,
    frames: usize,
    with_midi: bool,
) -> (r: Option<ChainStep>)
    ensures
        r == processor_step(*insert, ix as int, frames as int, with_midi),
{
    if frames == 0 {
        return None;
    }
    match insert.kind_tag {
        RuntimeInsertKind::NativePlugin => {
            let valid: bool = match insert.native {
                Some(native) => native.valid,
                None => false,
            };
            if insert.enabled && valid {
                Some(ChainStep::Native { insert: ix, with_midi })
            } else {
                None
            }
        },
        _ => Some(ChainStep::Builtin { insert: ix }),
    }
}

/// What an insert does to one sample: an in-process plug-in runs while enabled
/// and present, anything else is a processor of the engine.
pub fn apply_insert(insert: &RuntimeInsert) -> (r: InsertAction)
    ensures
        r == (if insert.kind_tag != RuntimeInsertKind::NativePlugin {
            InsertAction::Builtin
        } else if insert.enabled && insert.native is Some {
            InsertAction::Native
        } else {
            InsertAction::Dry
        }),
{
    match insert.kind_tag {
        RuntimeInsertKind::NativePlugin => if insert.enabled && insert.native.is_some() {
            InsertAction::Native
        } else {
            InsertAction::Dry
        },
        _ => InsertAction::Builtin,
    }
}

/// The steps of running a track's chain on a block: due parameter values first,
/// then every insert in order. The master's chain is run like any other.
pub fn apply_track_chain_block(
    track: &mut RuntimeTrack,
    frames: usize,
    has_midi: bool,
    playing: bool,
) -> (steps: Vec<ChainStep>)
    ensures
        steps@ == param_steps(*old(track), playing, old(track).plugin_param_automation@.len())
            + insert_steps(*old(track), frames as int, has_midi, old(track).inserts@.len()),
        *final(track) == (RuntimeTrack {
            plugin_param_automation: final(track).plugin_param_automation,
            ..*old(track)
        }),
        final(track).plugin_param_automation@ == old(track).plugin_param_automation@.map_values(
            |b: RuntimePluginParamBinding| binding_after(*old(track), b, playing),
        ),
{
    let mut steps: Vec<ChainStep> = Vec::new();
    let ghost first = *track;
    let count: usize = track.plugin_param_automation.len();
    let mut b: usize = 0;
    while b < count
        invariant
            b <= count,
            count == first.plugin_param_automation@.len(),
            track.plugin_param_automation@.len() == count,
            *track == (RuntimeTrack {
                plugin_param_automation: track.plugin_param_automation,
                ..first
            }),
            steps@ == param_steps(first, playing, b as nat),
            forall|k: int|
                #![trigger track.plugin_param_automation@[k]]
                0 <= k < b ==> track.plugin_param_automation@[k] == binding_after(
                    first,
                    first.plugin_param_automation@[k],
                    playing,
                ),
            forall|k: int|
                #![trigger track.plugin_param_automation@[k]]
                b <= k < count ==> track.plugin_param_automation@[k]
                    == first.plugin_param_automation@[k],
        decreases count - b,
    {
        let binding: RuntimePluginParamBinding = track.plugin_param_automation[b];
        if let Some(v) = binding.value_bits {
            if playing && binding.insert_ix < track.inserts.len() {
                let insert = &track.inserts[binding.insert_ix];
                let bound: bool = match insert.kind_tag {
                    RuntimeInsertKind::ExternalBridge => insert.bridge.is_some(),
                    _ => false,
                };
                if bound && !render::numbers_equal(v, binding.last_value_bits) {
                    steps.push(
                        ChainStep::PushParam {
                            insert: binding.insert_ix,
                            param_id: binding.param_id,
                            value_bits: v,
                        },
                    );
                    let slot = &mut track.plugin_param_automation[b];
                    slot.last_value_bits = v;
                }
            }
        }
        b = b + 1;
    }
    proof {
        assert(track.plugin_param_automation@ =~= first.plugin_param_automation@.map_values(
            |b: RuntimePluginParamBinding| binding_after(first, b, playing),
        ));
    }
    let ghost params = steps@;
    let mut ix: usize = 0;
    proof {
        assert(params + Seq::<ChainStep>::empty() =~= params);
    }
    while ix < track.inserts.len()
        invariant
            ix <= track.inserts@.len(),
            *track == (RuntimeTrack {
                plugin_param_automation: track.plugin_param_automation,
                ..first
            }),
            steps@ == params + insert_steps(first, frames as int, has_midi, ix as nat),
        decreases track.inserts@.len() - ix,
    {
        let with_midi: bool = has_midi && match track.midi_instrument_insert_ix {
            Some(i) => i == ix,
            None => false,
        };
        let ghost rest = insert_steps(first, frames as int, has_midi, ix as nat);
        let insert: &RuntimeInsert = &track.inserts[ix];
        let next: Option<ChainStep> = match insert.kind_tag {
            RuntimeInsertKind::ExternalBridge => if frames > 0 && insert.enabled
                && insert.bridge.is_some() {
                Some(ChainStep::Bridge { insert: ix, with_midi })
            } else {
                None
            },
            _ => apply_insert_block(insert, ix, frames, with_midi),
        };
        if let Some(step) = next {
            steps.push(step);
            proof {
                assert((params + rest).push(step) =~= params + rest.push(step));
            }
        }
        ix = ix + 1;
    }
    steps
}

/// An unchanged lane value is handed to a plug-in once: the block after the one
/// that handed it over does not repeat it.
pub proof fn law_unchanged_param_is_not_repeated(
    track: RuntimeTrack,
    binding: RuntimePluginParamBinding,
    playing: bool,
)
    requires
        binding.value_bits matches Some(v) ==> !render::is_nan_bits(v),
    ensures
        param_due(track, binding_after(track, binding, playing), playing) is None,
{
}

/// A stopped transport hands no parameter value to a plug-in.
pub proof fn law_stopped_transport_pushes_no_param(track: RuntimeTrack, n: nat)
    ensures
        param_steps(track, false, n).len() == 0,
    decreases n,
{
    if n > 0 {
        law_stopped_transport_pushes_no_param(track, (n - 1) as nat);
    }
}

// ── The exchange with a bridged plug-in ─────────────────────────────────────

/// Whether a bridged insert takes part in a block.
pub open spec fn bridge_runs(insert: RuntimeInsert, frames: int) -> bool {
    frames > 0 && insert.enabled && insert.bridge is Some
}

/// The steps up to reading the plug-in's output: its MIDI, the dry signal where
/// it is an effect, and the read.
pub open spec fn bridge_request(
    insert: RuntimeInsert,
    frames: usize,
    with_midi: bool,
) -> Seq<BridgeStep> {
    if !bridge_runs(insert, frames as int) {
        Seq::empty()
    } else {
        (if with_midi {
            seq![BridgeStep::PushMidi]
        } else {
            Seq::empty()
        }) + (if insert.bridge_is_effect {
            seq![BridgeStep::WriteInput { frames }]
        } else {
            Seq::empty()
        }) + seq![BridgeStep::ReadOutput { frames }]
    }
}

/// What becomes of `got` frames of a bridged plug-in's output.
pub open spec fn bridge_mix(insert: RuntimeInsert, got: usize) -> BridgeMix {
    if got == 0 {
        BridgeMix::Keep
    } else if insert.bridge_is_effect {
        BridgeMix::Replace { frames: got }
    } else if insert.vsti_output_children@.len() > 0 {
        BridgeMix::Split { frames: got }
    } else {
        BridgeMix::Add { frames: got }
    }
}

/// The run of missed blocks after one that gave `got` frames.
pub open spec fn missed_after(missed: u32, got: usize) -> u32 {
    if got > 0 {
        0
    } else if missed == u32::MAX {
        missed
    } else {
        (missed + 1) as u32
    }
}

/// The steps up to reading a bridged plug-in's output.
pub fn begin_external_bridge_insert_block(
    insert: &RuntimeInsert,
    frames: usize,
    with_midi: bool,
) -> (steps: Vec<BridgeStep>)
    ensures
        steps@ == bridge_request(*insert, frames, with_midi),
{
    let mut steps: Vec<BridgeStep> = Vec::new();
    if frames == 0 || !insert.enabled || insert.bridge.is_none() {
        proof {
            assert(steps@ =~= bridge_request(*insert, frames, with_midi));
        }
        return steps;
    }
    if with_midi {
        steps.push(BridgeStep::PushMidi);
    }
    if insert.bridge_is_effect {
        steps.push(BridgeStep::WriteInput { frames });
    }
    steps.push(BridgeStep::ReadOutput { frames });
    proof {
        assert(steps@ =~= bridge_request(*insert, frames, with_midi));
    }
    steps
}

/// Take in what the read gave. Without a fresh block the insert is bypassed: an
/// effect keeps the dry signal, an instrument adds nothing, and stale output is
/// never replayed. The plug-in is then told the transport and asked for the
/// next block.
pub fn apply_external_bridge_insert_block(
    insert: &mut RuntimeInsert,
    frames: usize,
    got: usize,
) -> (r: (BridgeMix, Vec<BridgeStep>))
    requires
        bridge_runs(*old(insert), frames as int),
        got <= frames <= u32::MAX,
    ensures
        r.0 == bridge_mix(*old(insert), got),
        r.1@ == seq![
            BridgeStep::SetTransport,
            BridgeStep::RequestBlock { block_frames: frames as u32 },
        ],
        *final(insert) == (RuntimeInsert {
            bridge_missed_blocks: missed_after(old(insert).bridge_missed_blocks, got),
            ..*old(insert)
        }),
{
    let mix: BridgeMix = if got == 0 {
        BridgeMix::Keep
    } else if insert.bridge_is_effect {
        BridgeMix::Replace { frames: got }
    } else if insert.vsti_output_children.len() > 0 {
        BridgeMix::Split { frames: got }
    } else {
        BridgeMix::Add { frames: got }
    };
    if got == 0 {
        insert.bridge_missed_blocks = insert.bridge_missed_blocks.saturating_add(1);
    } else {
        insert.bridge_missed_blocks = 0;
    }
    let mut steps: Vec<BridgeStep> = Vec::new();
    steps.push(BridgeStep::SetTransport);
    steps.push(BridgeStep::RequestBlock { block_frames: frames as u32 });
    proof {
        assert(steps@ =~= seq![
            BridgeStep::SetTransport,
            BridgeStep::RequestBlock { block_frames: frames as u32 },
        ]);
    }
    (mix, steps)
}

/// The run of missed blocks after a series of reads, starting from none.
pub open spec fn missed_over(gots: Seq<usize>) -> u32
    decreases gots.len(),
{
    if gots.len() == 0 {
        0
    } else {
        missed_after(missed_over(gots.drop_last()), gots.last())
    }
}

/// The count of missed blocks is the length of the current stall: after a fresh
/// block it is zero, and `n` misses later it is `n`, held at its largest value.
pub proof fn law_missed_blocks_count_the_current_stall(
    before: Seq<usize>,
    fresh: usize,
    stall: Seq<usize>,
)
    requires
        fresh > 0,
        forall|k: int| 0 <= k < stall.len() ==> #[trigger] stall[k] == 0,
    ensures
        missed_over(before.push(fresh) + stall) == if stall.len() > u32::MAX {
            u32::MAX as nat
        } else {
            stall.len()
        },
    decreases stall.len(),
{
    let all = before.push(fresh) + stall;
    if stall.len() == 0 {
        assert(all =~= before.push(fresh));
        assert(all.drop_last() =~= before);
    } else {
        law_missed_blocks_count_the_current_stall(before, fresh, stall.drop_last());
        assert(all.drop_last() =~= before.push(fresh) + stall.drop_last());
        assert(all.last() == stall.last());
        assert(stall.last() == 0);
    }
}

// ── Laws of a chain ─────────────────────────────────────────────────────────

/// The insert that a step runs.
pub open spec fn insert_of(step: ChainStep) -> usize {
    match step {
        ChainStep::PushParam { insert, param_id, value_bits } => insert,
        ChainStep::Builtin { insert } => insert,
        ChainStep::Native { insert, with_midi } => insert,
        ChainStep::Bridge { insert, with_midi } => insert,
    }
}

/// Whether an insert runs on a block: a processor of the engine always does, an
/// in-process plug-in while it is switched on and present, and a bridged one
/// while it is switched on and bound.
pub open spec fn insert_runs(insert: RuntimeInsert) -> bool {
    match insert.kind_tag {
        RuntimeInsertKind::NativePlugin => insert.enabled && (insert.native matches Some(native)
            && native.valid),
        RuntimeInsertKind::ExternalBridge => insert.enabled && insert.bridge is Some,
        _ => true,
    }
}

proof fn lemma_inserts_listed(track: RuntimeTrack, frames: int, has_midi: bool, n: nat)
    requires
        n <= track.inserts@.len() <= usize::MAX,
        frames > 0,
    ensures
        ({
            let list = insert_steps(track, frames, has_midi, n);
            &&& forall|k: int|
                #![trigger list[k]]
                0 <= k < list.len() ==> {
                    let ix = insert_of(list[k]);
                    let insert = track.inserts@[ix as int];
                    let with_midi = has_midi && track.midi_instrument_insert_ix == Some(ix);
                    &&& ix < n
                    &&& insert_runs(insert)
                    &&& list[k] == match insert.kind_tag {
                        RuntimeInsertKind::NativePlugin => ChainStep::Native {
                            insert: ix,
                            with_midi,
                        },
                        RuntimeInsertKind::ExternalBridge => ChainStep::Bridge {
                            insert: ix,
                            with_midi,
                        },
                        _ => ChainStep::Builtin { insert: ix },
                    }
                }
            &&& forall|ix: int|
                #![trigger track.inserts@[ix]]
                0 <= ix < n && insert_runs(track.inserts@[ix]) ==> exists|k: int|
                    0 <= k < list.len() && insert_of(#[trigger] list[k]) == ix
            &&& forall|j: int, k: int|
                #![trigger list[j], list[k]]
                0 <= j < k < list.len() ==> insert_of(list[j]) < insert_of(list[k])
        }),
    decreases n,
{
    if n > 0 {
        lemma_inserts_listed(track, frames, has_midi, (n - 1) as nat);
        let rest = insert_steps(track, frames, has_midi, (n - 1) as nat);
        let list = insert_steps(track, frames, has_midi, n);
        assert forall|ix: int|
            #![trigger track.inserts@[ix]]
            0 <= ix < n && insert_runs(track.inserts@[ix]) implies exists|k: int|
            0 <= k < list.len() && insert_of(#[trigger] list[k]) == ix by {
            if ix < n - 1 {
                let k = choose|k: int| 0 <= k < rest.len() && insert_of(#[trigger] rest[k]) == ix;
                assert(list[k] == rest[k]);
            } else {
                assert(insert_of(list[list.len() - 1]) == ix);
            }
        }
    }
}

/// The inserts of a chain run in their order, each at most once, and exactly
/// those that can: processors of the engine, in-process plug-ins that are
/// switched on and present, and bridged ones that are switched on and bound.
/// The track's notes go to the instrument alone.
pub proof fn law_inserts_run_in_order(
    track: RuntimeTrack,
    frames: int,
    has_midi: bool,
    ix: int,
)
    requires
        0 <= ix < track.inserts@.len() <= usize::MAX,
    ensures
        ({
            let list = insert_steps(track, frames, has_midi, track.inserts@.len());
            &&& frames == 0 ==> list.len() == 0
            &&& frames > 0 ==> {
                &&& forall|k: int|
                    #![trigger list[k]]
                    0 <= k < list.len() ==> {
                        let i = insert_of(list[k]);
                        let insert = track.inserts@[i as int];
                        let with_midi = has_midi && track.midi_instrument_insert_ix == Some(i);
                        &&& i < track.inserts@.len()
                        &&& insert_runs(insert)
                        &&& list[k] == match insert.kind_tag {
                            RuntimeInsertKind::NativePlugin => ChainStep::Native {
                                insert: i,
                                with_midi,
                            },
                            RuntimeInsertKind::ExternalBridge => ChainStep::Bridge {
                                insert: i,
                                with_midi,
                            },
                            _ => ChainStep::Builtin { insert: i },
                        }
                    }
                &&& insert_runs(track.inserts@[ix]) ==> exists|k: int|
                    0 <= k < list.len() && insert_of(#[trigger] list[k]) == ix
                &&& forall|j: int, k: int|
                    #![trigger list[j], list[k]]
                    0 <= j < k < list.len() ==> insert_of(list[j]) < insert_of(list[k])
            }
        }),
    decreases track.inserts@.len(),
{
    if frames > 0 {
        lemma_inserts_listed(track, frames, has_midi, track.inserts@.len());
    } else if frames == 0 {
        lemma_no_frames_no_steps(track, has_midi, track.inserts@.len());
    }
}

proof fn lemma_no_frames_no_steps(track: RuntimeTrack, has_midi: bool, n: nat)
    ensures
        insert_steps(track, 0, has_midi, n).len() == 0,
    decreases n,
{
    if n > 0 {
        lemma_no_frames_no_steps(track, has_midi, (n - 1) as nat);
    }
}

/// A parameter that follows a lane is handed to its plug-in exactly while the
/// transport runs, the lane has a value that differs from the last one handed
/// over, and the plug-in stands behind a bound bridge; the value handed over is
/// then the last one.
pub proof fn law_param_follows_its_lane(
    track: RuntimeTrack,
    binding: RuntimePluginParamBinding,
    playing: bool,
)
    ensures
        ({
            let bound = binding.insert_ix < track.inserts@.len()
                && track.inserts@[binding.insert_ix as int].kind_tag
                == RuntimeInsertKind::ExternalBridge
                && track.inserts@[binding.insert_ix as int].bridge is Some;
            let after = binding_after(track, binding, playing);
            &&& playing && bound && (binding.value_bits matches Some(v) && v
                != binding.last_value_bits && !(render::is_zero_bits(v) && render::is_zero_bits(
                binding.last_value_bits,
            ))) ==> param_due(track, binding, playing) == binding.value_bits && Some(
                after.last_value_bits,
            ) == binding.value_bits
            &&& !playing || !bound || binding.value_bits is None ==> param_due(
                track,
                binding,
                playing,
            ) is None && after == binding
            &&& (binding.value_bits matches Some(v) && v == binding.last_value_bits
                && !render::is_nan_bits(v)) ==> param_due(track, binding, playing) is None
            &&& param_due(track, binding, playing) matches Some(v) ==> binding.value_bits == Some(
                v,
            )
            &&& after.insert_ix == binding.insert_ix && after.param_id == binding.param_id
                && after.value_bits == binding.value_bits
        }),
{
}

proof fn lemma_params_listed(track: RuntimeTrack, playing: bool, n: nat)
    requires
        n <= track.plugin_param_automation@.len(),
    ensures
        ({
            let list = param_steps(track, playing, n);
            &&& forall|k: int|
                #![trigger list[k]]
                0 <= k < list.len() ==> exists|b: int|
                    0 <= b < n && param_due(
                        track,
                        #[trigger] track.plugin_param_automation@[b],
                        playing,
                    ) is Some && list[k] == (ChainStep::PushParam {
                        insert: track.plugin_param_automation@[b].insert_ix,
                        param_id: track.plugin_param_automation@[b].param_id,
                        value_bits: track.plugin_param_automation@[b].value_bits->0,
                    })
            &&& forall|b: int|
                #![trigger track.plugin_param_automation@[b]]
                0 <= b < n && param_due(track, track.plugin_param_automation@[b], playing) is Some
                    ==> list.contains(
                    ChainStep::PushParam {
                        insert: track.plugin_param_automation@[b].insert_ix,
                        param_id: track.plugin_param_automation@[b].param_id,
                        value_bits: track.plugin_param_automation@[b].value_bits->0,
                    },
                )
            &&& list.len() <= n
        }),
    decreases n,
{
    if n > 0 {
        lemma_params_listed(track, playing, (n - 1) as nat);
        let rest = param_steps(track, playing, (n - 1) as nat);
        let list = param_steps(track, playing, n);
        let binding = track.plugin_param_automation@[n - 1];
        assert forall|k: int| #![trigger list[k]] 0 <= k < list.len() implies exists|b: int|
            0 <= b < n && param_due(track, #[trigger] track.plugin_param_automation@[b], playing)
                is Some && list[k] == (ChainStep::PushParam {
                insert: track.plugin_param_automation@[b].insert_ix,
                param_id: track.plugin_param_automation@[b].param_id,
                value_bits: track.plugin_param_automation@[b].value_bits->0,
            }) by {
            if k < rest.len() {
                assert(list[k] == rest[k]);
                let b = choose|b: int|
                    0 <= b < n - 1 && param_due(
                        track,
                        #[trigger] track.plugin_param_automation@[b],
                        playing,
                    ) is Some && rest[k] == (ChainStep::PushParam {
                        insert: track.plugin_param_automation@[b].insert_ix,
                        param_id: track.plugin_param_automation@[b].param_id,
                        value_bits: track.plugin_param_automation@[b].value_bits->0,
                    });
                assert(track.plugin_param_automation@[b] == track.plugin_param_automation@[b]);
            } else {
                assert(track.plugin_param_automation@[n - 1] == binding);
            }
        }
        assert forall|b: int|
            #![trigger track.plugin_param_automation@[b]]
            0 <= b < n && param_due(
                track,
                track.plugin_param_automation@[b],
                playing,
            ) is Some implies list.contains(
            ChainStep::PushParam {
                insert: track.plugin_param_automation@[b].insert_ix,
                param_id: track.plugin_param_automation@[b].param_id,
                value_bits: track.plugin_param_automation@[b].value_bits->0,
            },
        ) by {
            let step = ChainStep::PushParam {
                insert: track.plugin_param_automation@[b].insert_ix,
                param_id: track.plugin_param_automation@[b].param_id,
                value_bits: track.plugin_param_automation@[b].value_bits->0,
            };
            if b < n - 1 {
                assert(rest.contains(step));
                let k = choose|k: int| 0 <= k < rest.len() && rest[k] == step;
                assert(list[k] == step);
            } else {
                assert(list[list.len() - 1] == step);
            }
        }
    }
}

/// Before the inserts of a block run, exactly the parameters that are due are
/// handed over, each with its lane's value.
pub proof fn law_due_params_are_handed_over(track: RuntimeTrack, playing: bool)
    ensures
        ({
            let list = param_steps(track, playing, track.plugin_param_automation@.len());
            &&& forall|b: int|
                #![trigger track.plugin_param_automation@[b]]
                0 <= b < track.plugin_param_automation@.len() && param_due(
                    track,
                    track.plugin_param_automation@[b],
                    playing,
                ) is Some ==> list.contains(
                    ChainStep::PushParam {
                        insert: track.plugin_param_automation@[b].insert_ix,
                        param_id: track.plugin_param_automation@[b].param_id,
                        value_bits: track.plugin_param_automation@[b].value_bits->0,
                    },
                )
            &&& forall|k: int|
                #![trigger list[k]]
                0 <= k < list.len() ==> exists|b: int|
                    0 <= b < track.plugin_param_automation@.len() && param_due(
                        track,
                        #[trigger] track.plugin_param_automation@[b],
                        playing,
                    ) is Some && list[k] == (ChainStep::PushParam {
                        insert: track.plugin_param_automation@[b].insert_ix,
                        param_id: track.plugin_param_automation@[b].param_id,
                        value_bits: track.plugin_param_automation@[b].value_bits->0,
                    })
        }),
{
    lemma_params_listed(track, playing, track.plugin_param_automation@.len());
}

/// The exchange with a bridged plug-in: it is read once, last, for the whole
/// block, exactly where the insert is switched on and bound; its notes come
/// first, and an effect is handed the dry signal before it is read, an
/// instrument is not.
pub proof fn law_bridge_is_fed_before_it_is_read(
    insert: RuntimeInsert,
    frames: usize,
    with_midi: bool,
)
    ensures
        ({
            let list = bridge_request(insert, frames, with_midi);
            let runs = frames > 0 && insert.enabled && insert.bridge is Some;
            &&& !runs ==> list.len() == 0
            &&& runs ==> list.len() > 0 && list[list.len() - 1] == (BridgeStep::ReadOutput {
                frames,
            })
            &&& runs && with_midi ==> list[0] == BridgeStep::PushMidi
            &&& list.contains(BridgeStep::PushMidi) <==> runs && with_midi
            &&& list.contains(BridgeStep::WriteInput { frames }) <==> runs
                && insert.bridge_is_effect
            &&& list.len() <= 3
        }),
{
    let list = bridge_request(insert, frames, with_midi);
    if frames > 0 && insert.enabled && insert.bridge is Some {
        let m: int = if with_midi {
            1
        } else {
            0
        };
        if with_midi {
            assert(list[0] == BridgeStep::PushMidi);
        }
        if insert.bridge_is_effect {
            assert(list[m] == BridgeStep::WriteInput { frames });
        }
    }
}

/// What a bridged plug-in gave is used once: an effect replaces the block, an
/// instrument adds to it, one with separate outputs goes to those, and a plug-in
/// that gave nothing leaves the block as it is.
pub proof fn law_bridge_output_is_mixed_by_its_kind(insert: RuntimeInsert, got: usize)
    ensures
        got == 0 <==> bridge_mix(insert, got) == BridgeMix::Keep,
        got > 0 && insert.bridge_is_effect ==> bridge_mix(insert, got) == (BridgeMix::Replace {
            frames: got,
        }),
        got > 0 && !insert.bridge_is_effect && insert.vsti_output_children@.len() == 0
            ==> bridge_mix(insert, got) == (BridgeMix::Add { frames: got }),
        got > 0 && !insert.bridge_is_effect && insert.vsti_output_children@.len() > 0
            ==> bridge_mix(insert, got) == (BridgeMix::Split { frames: got }),
{
}

} // verus!
