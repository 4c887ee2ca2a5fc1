//! Loop arithmetic of the transport.

use vstd::prelude::*;

verus! {

/// A loop over the samples `start..end`.
#[derive(Clone, Copy, Debug, PartialEq, Eq, Structural)]
pub struct LoopBounds {
    pub start: u64,
    pub end: u64,
}

/// A run of consecutive timeline samples inside one device callback.
#[derive(Clone, Copy, Debug, PartialEq, Eq, Structural)]
pub struct LoopSegment {
    /// Timeline sample of the first frame.
    pub sample: u64,
    pub frames: u64,
    /// Place of the first frame in the callback.
    pub offset: u64,
}

/// A loop has at least one sample.
pub open spec fn loop_valid(bounds: Option<LoopBounds>) -> bool {
    bounds matches Some(b) ==> b.start < b.end
}

/// A position brought into the loop: one at or past the end goes round.
pub open spec fn normalized(position: int, bounds: Option<LoopBounds>) -> int {
    match bounds {
        Some(b) => if position < b.end {
            position
        } else {
            b.start + (position - b.start) % (b.end - b.start)
        },
        None => position,
    }
}

/// The timeline position `f` frames after `position`.
pub open spec fn loop_position(position: int, f: int, bounds: Option<LoopBounds>) -> int {
    normalized(normalized(position, bounds) + f, bounds)
}

/// How many of `remaining` frames fit before the loop's end.
pub open spec fn segment_len(position: int, remaining: int, bounds: Option<LoopBounds>) -> int {
    match bounds {
        Some(b) => if b.end - position < remaining {
            b.end - position
        } else {
            remaining
        },
        None => remaining,
    }
}

/// The runs of consecutive samples that make up `remaining` frames from
/// `position` on, placed from `offset` on.
pub open spec fn segments_from(
    position: int,
    remaining: int,
    offset: int,
    bounds: Option<LoopBounds>,
) -> Seq<LoopSegment>
    decreases remaining,
{
    let n = segment_len(position, remaining, bounds);
    if remaining <= 0 || n <= 0 {
        Seq::empty()
    } else {
        seq![
            LoopSegment { sample: position as u64, frames: n as u64, offset: offset as u64 },
        ] + segments_from(
            normalized(position + n, bounds),
            remaining - n,
            offset + n,
            bounds,
        )
    }
}

/// The runs of consecutive samples that a callback of `frames` frames plays.
pub open spec fn block_segments(
    base: int,
    frames: int,
    bounds: Option<LoopBounds>,
) -> Seq<LoopSegment> {
    segments_from(normalized(base, bounds), frames, 0, bounds)
}

/// Bring a position into the loop.
pub fn normalize_loop_position(position: u64, bounds: Option<LoopBounds>) -> (r: u64)
    requires
        loop_valid(bounds),
    ensures
        r == normalized(position as int, bounds),
        bounds matches Some(b) ==> r < b.end,
{
    match bounds {
        Some(b) => if position < b.end {
            position
        } else {
            b.start + (position - b.start) % (b.end - b.start)
        },
        None => position,
    }
}

/// How many of `remaining` frames fit before the loop's end.
pub fn segment_frames_until_loop_wrap(
    position: u64,
    remaining: u64,
    bounds: Option<LoopBounds>,
) -> (r: u64)
    requires
        bounds matches Some(b) ==> position < b.end,
    ensures
        r == segment_len(position as int, remaining as int, bounds),
        r <= remaining,
        remaining > 0 ==> r > 0,
{
    match bounds {
        Some(b) => if b.end - position < remaining {
            b.end - position
        } else {
            remaining
        },
        None => remaining,
    }
}

/// The position after `frames` frames: brought into the loop, or held at the
/// last sample where there is no loop.
pub open spec fn advanced(position: int, frames: int, bounds: Option<LoopBounds>) -> int {
    if bounds is None && position + frames > u64::MAX {
        u64::MAX as int
    } else {
        normalized(position + frames, bounds)
    }
}

/// The position after `frames` frames, and whether the loop wrapped on the way.
pub fn advance_loop_position(position: u64, frames: u64, bounds: Option<LoopBounds>) -> (r: (
    u64,
    bool,
))
    requires
        loop_valid(bounds),
    ensures
        r.0 == advanced(position as int, frames as int, bounds),
        r.1 == (bounds matches Some(b) && position + frames >= b.end),
        bounds matches Some(b) ==> r.0 < b.end,
{
    let sum: u128 = position as u128 + frames as u128;
    match bounds {
        Some(b) => if sum < b.end as u128 {
            (sum as u64, false)
        } else {
            let into: u128 = (sum - b.start as u128) % (b.end as u128 - b.start as u128);
            (b.start + into as u64, true)
        },
        None => if sum > 0xffff_ffff_ffff_ffff {
            (0xffff_ffff_ffff_ffff, false)
        } else {
            (sum as u64, false)
        },
    }
}

/// The loop that playback follows: none when looping is off or the loop is
/// empty.
pub fn active_loop_bounds(enabled: bool, start: u64, end: u64) -> (r: Option<LoopBounds>)
    ensures
        r == if enabled && start < end {
            Some(LoopBounds { start, end })
        } else {
            None
        },
        loop_valid(r),
{
    if enabled && start < end {
        Some(LoopBounds { start, end })
    } else {
        None
    }
}

/// The runs of consecutive samples that a callback of `frames` frames plays
/// from `base` on.
pub fn loop_segments(base: u64, frames: u64, bounds: Option<LoopBounds>) -> (r: Vec<LoopSegment>)
    requires
        loop_valid(bounds),
    ensures
        r@ == block_segments(base as int, frames as int, bounds),
{
    let mut out: Vec<LoopSegment> = Vec::new();
    let mut position: u64 = normalize_loop_position(base, bounds);
    let mut remaining: u64 = frames;
    let mut offset: u64 = 0;
    let ghost whole = block_segments(base as int, frames as int, bounds);
    proof {
        assert(out@ + whole =~= whole);
    }
    while remaining > 0
        invariant
            loop_valid(bounds),
            remaining <= frames,
            offset + remaining == frames,
            remaining > 0 ==> (bounds matches Some(b) ==> position < b.end),
            remaining > 0 && bounds is None ==> remaining == frames,
            whole == out@ + segments_from(
                position as int,
                remaining as int,
                offset as int,
                bounds,
            ),
        decreases remaining,
    {
        let n: u64 = segment_frames_until_loop_wrap(position, remaining, bounds);
        let segment = LoopSegment { sample: position, frames: n, offset };
        let ghost rest = segments_from(
            normalized(position + n, bounds),
            remaining - n,
            offset + n,
            bounds,
        );
        proof {
            assert(out@ + (seq![segment] + rest) =~= out@.push(segment) + rest);
        }
        out.push(segment);
        remaining = remaining - n;
        offset = offset + n;
        if remaining > 0 {
            position = advance_loop_position(position, n, bounds).0;
        }
    }
    proof {
        assert(segments_from(position as int, 0, offset as int, bounds) =~= Seq::empty());
        assert(out@ + Seq::<LoopSegment>::empty() =~= out@);
    }
    out
}

/// `segments` cover `frames` frames from `offset` on, without a gap or an
/// overlap, and each frame is at its place on the looped timeline.
pub open spec fn tiles(
    segments: Seq<LoopSegment>,
    position: int,
    offset: int,
    frames: int,
    bounds: Option<LoopBounds>,
) -> bool
    decreases segments.len(),
{
    if segments.len() == 0 {
        frames == 0
    } else {
        let s = segments[0];
        &&& s.offset == offset
        &&& 0 < s.frames <= frames
        &&& forall|k: int| 0 <= k < s.frames ==> s.sample + k == #[trigger] loop_position(
            position,
            k,
            bounds,
        )
        &&& tiles(
            segments.drop_first(),
            loop_position(position, s.frames as int, bounds),
            offset + s.frames,
            frames - s.frames,
            bounds,
        )
    }
}

proof fn lemma_segments_tile(
    position: int,
    remaining: int,
    offset: int,
    bounds: Option<LoopBounds>,
)
    requires
        loop_valid(bounds),
        0 <= position,
        bounds matches Some(b) ==> position < b.end,
        bounds is None ==> position + remaining <= u64::MAX,
        0 <= remaining <= u64::MAX,
        0 <= offset,
        offset + remaining <= u64::MAX,
    ensures
        tiles(
            segments_from(position, remaining, offset, bounds),
            position,
            offset,
            remaining,
            bounds,
        ),
    decreases remaining,
{
    if remaining > 0 {
        let n = segment_len(position, remaining, bounds);
        let next = normalized(position + n, bounds);
        let rest = segments_from(next, remaining - n, offset + n, bounds);
        let all = segments_from(position, remaining, offset, bounds);
        assert(all.drop_first() =~= rest);
        assert(loop_position(position, n, bounds) == next);
        if let Some(b) = bounds {
            if position + n == b.end {
                assert((b.end - b.start) % (b.end - b.start) == 0) by (nonlinear_arith)
                    requires
                        b.start < b.end,
                ;
            }
        }
        lemma_normalized_in_loop(position + n, bounds);
        if remaining - n > 0 {
            lemma_segments_tile(next, remaining - n, offset + n, bounds);
        } else {
            assert(rest =~= Seq::empty());
        }
        let s = all[0];
        assert(s.sample == position && s.frames == n && s.offset == offset);
        assert forall|k: int| 0 <= k < s.frames implies s.sample + k == #[trigger] loop_position(
            position,
            k,
            bounds,
        ) by {}
        assert(tiles(all.drop_first(), next, offset + n, remaining - n, bounds));
    }
}

/// The segments of a callback cover it exactly once, in order, and every frame
/// of every segment is at its place on the looped timeline.
pub proof fn law_segments_tile_the_block(base: int, frames: int, bounds: Option<LoopBounds>)
    requires
        loop_valid(bounds),
        0 <= base <= u64::MAX,
        0 <= frames <= u64::MAX,
        bounds is None ==> base + frames <= u64::MAX,
    ensures
        tiles(
            block_segments(base, frames, bounds),
            normalized(base, bounds),
            0,
            frames,
            bounds,
        ),
{
    lemma_normalized_in_loop(base, bounds);
    lemma_segments_tile(normalized(base, bounds), frames, 0, bounds);
}

proof fn lemma_normalized_in_loop(position: int, bounds: Option<LoopBounds>)
    requires
        loop_valid(bounds),
        0 <= position,
    ensures
        0 <= normalized(position, bounds),
        bounds matches Some(b) ==> normalized(position, bounds) < b.end,
{
    if let Some(b) = bounds {
        if position >= b.end {
            assert(0 <= (position - b.start) % (b.end - b.start) < b.end - b.start)
                by (nonlinear_arith)
                requires
                    b.start < b.end,
            ;
        }
    }
}

/// A position in the loop stays in it, however many frames go by.
pub proof fn law_loop_never_leaves_its_bounds(position: int, f: int, bounds: LoopBounds)
    requires
        loop_valid(Some(bounds)),
        bounds.start <= position < bounds.end,
        0 <= f,
    ensures
        bounds.start <= loop_position(position, f, Some(bounds)) < bounds.end,
{
    let p = normalized(position, Some(bounds)) + f;
    if p >= bounds.end {
        assert(0 <= (p - bounds.start) % (bounds.end - bounds.start) < bounds.end - bounds.start)
            by (nonlinear_arith)
            requires
                bounds.start < bounds.end,
        ;
    }
}

/// Going on in two steps arrives where going on in one does.
pub proof fn law_steps_add_up(position: int, first: int, second: int, bounds: Option<LoopBounds>)
    requires
        loop_valid(bounds),
        0 <= position,
        0 <= first,
        0 <= second,
        bounds is None ==> position + first + second <= u64::MAX,
    ensures
        advanced(advanced(position, first, bounds), second, bounds) == advanced(
            position,
            first + second,
            bounds,
        ),
{
    if let Some(b) = bounds {
        let len = b.end - b.start;
        let p = position + first;
        if p >= b.end {
            let x = p - b.start;
            let q = x / len;
            vstd::arithmetic::div_mod::lemma_fundamental_div_mod(x, len);
            let near = x % len + second;
            assert(x + second == len * q + near);
            vstd::arithmetic::div_mod::lemma_mod_multiples_vanish(q, near, len);
            assert((x + second) % len == near % len);
            if near < len {
                vstd::arithmetic::div_mod::lemma_small_mod(near as nat, len as nat);
            }
            assert(0 <= x % len < len) by (nonlinear_arith)
                requires
                    len > 0,
            ;
        }
    }
}

// ── The timeline of a block ─────────────────────────────────────────────────

/// The timeline sample that stands `f` samples after `base`: the plain sum, and
/// in a loop the plain sum until it reaches the loop's end, from where on it
/// goes round.
pub open spec fn timeline_at(base: int, f: int, bounds: Option<LoopBounds>) -> int {
    match bounds {
        None => base + f,
        Some(b) => if base + f < b.end {
            base + f
        } else {
            b.start + (base + f - b.start) % (b.end - b.start)
        },
    }
}

proof fn lemma_timeline(base: int, f: int, bounds: Option<LoopBounds>)
    requires
        loop_valid(bounds),
        0 <= base,
        0 <= f,
    ensures
        loop_position(base, f, bounds) == timeline_at(base, f, bounds),
        normalized(base + f, bounds) == timeline_at(base, f, bounds),
{
    if let Some(b) = bounds {
        if base >= b.end {
            let len = b.end - b.start;
            let x = base - b.start;
            let q = x / len;
            vstd::arithmetic::div_mod::lemma_fundamental_div_mod(x, len);
            let near = x % len + f;
            assert(x + f == len * q + near);
            vstd::arithmetic::div_mod::lemma_mod_multiples_vanish(q, near, len);
            assert((x + f) % len == near % len);
            assert(0 <= x % len < len) by (nonlinear_arith)
                requires
                    len > 0,
            ;
            if near < len {
                vstd::arithmetic::div_mod::lemma_small_mod(near as nat, len as nat);
            }
        }
    }
}

/// Playback moves on by the frames that were played: without a loop the
/// position is the plain sum; in a loop it is the plain sum up to whole rounds,
/// and it is in the loop.
pub proof fn law_position_moves_by_the_frames_played(
    position: int,
    frames: int,
    bounds: Option<LoopBounds>,
)
    requires
        loop_valid(bounds),
        0 <= position <= u64::MAX,
        0 <= frames <= u64::MAX,
    ensures
        bounds is None && position + frames <= u64::MAX ==> advanced(position, frames, bounds)
            == position + frames,
        bounds is None && position + frames > u64::MAX ==> advanced(position, frames, bounds)
            == u64::MAX,
        bounds matches Some(b) ==> {
            let after = advanced(position, frames, bounds);
            &&& 0 <= after < b.end
            &&& position >= b.start ==> after >= b.start
            &&& position + frames < b.end ==> after == position + frames
            &&& position + frames == b.end ==> after == b.start
            &&& exists|rounds: int|
                #![trigger rounds * (b.end - b.start)]
                0 <= rounds && after + rounds * (b.end - b.start) == position + frames
        },
{
    if let Some(b) = bounds {
        let len = b.end - b.start;
        let x = position + frames - b.start;
        if position + frames >= b.end {
            vstd::arithmetic::div_mod::lemma_fundamental_div_mod(x, len);
            assert(0 <= x % len < len) by (nonlinear_arith)
                requires
                    len > 0,
            ;
            assert(0 <= x / len) by (nonlinear_arith)
                requires
                    x >= 0,
                    len > 0,
            ;
            let rounds = x / len;
            assert(rounds * len == len * rounds) by (nonlinear_arith);
            assert(advanced(position, frames, bounds) + rounds * (b.end - b.start) == position
                + frames);
            if x == len {
                assert(x % len == 0) by (nonlinear_arith)
                    requires
                        x == len,
                        len > 0,
                ;
            }
        } else {
            assert(0 * (b.end - b.start) == 0) by (nonlinear_arith);
            assert(advanced(position, frames, bounds) + 0 * (b.end - b.start) == position
                + frames);
        }
    }
}

/// Whether a segment holds frame `f` of its callback.
pub open spec fn holds_frame(s: LoopSegment, f: int) -> bool {
    s.offset <= f < s.offset + s.frames
}

proof fn lemma_frame_place(
    position: int,
    remaining: int,
    offset: int,
    bounds: Option<LoopBounds>,
    f: int,
) -> (k: int)
    requires
        loop_valid(bounds),
        0 <= position,
        bounds matches Some(b) ==> position < b.end,
        bounds is None ==> position + remaining <= u64::MAX,
        0 <= f < remaining <= u64::MAX,
        0 <= offset,
        offset + remaining <= u64::MAX,
    ensures
        ({
            let all = segments_from(position, remaining, offset, bounds);
            &&& 0 <= k < all.len()
            &&& holds_frame(all[k], offset + f)
            &&& all[k].sample + (offset + f - all[k].offset) == timeline_at(position, f, bounds)
            &&& forall|j: int|
                #![trigger all[j]]
                0 <= j < all.len() && holds_frame(all[j], offset + f) ==> j == k
            &&& forall|j: int|
                #![trigger all[j]]
                0 <= j < all.len() ==> offset <= all[j].offset && all[j].offset + all[j].frames
                    <= offset + remaining
        }),
    decreases remaining,
{
    let n = segment_len(position, remaining, bounds);
    let next = normalized(position + n, bounds);
    let rest = segments_from(next, remaining - n, offset + n, bounds);
    let all = segments_from(position, remaining, offset, bounds);
    assert(all == seq![
        LoopSegment { sample: position as u64, frames: n as u64, offset: offset as u64 },
    ] + rest);
    lemma_normalized_in_loop(position + n, bounds);
    if remaining - n > 0 {
        lemma_segments_within(next, remaining - n, offset + n, bounds);
    } else {
        assert(rest =~= Seq::empty());
    }
    assert forall|j: int| #![trigger all[j]] 0 <= j < all.len() implies offset <= all[j].offset
        && all[j].offset + all[j].frames <= offset + remaining by {
        if j > 0 {
            assert(all[j] == rest[j - 1]);
        }
    }
    if f < n {
        assert forall|j: int|
            #![trigger all[j]]
            0 <= j < all.len() && holds_frame(all[j], offset + f) implies j == 0 by {
            if j > 0 {
                assert(all[j] == rest[j - 1]);
            }
        }
        0
    } else {
        let k = lemma_frame_place(next, remaining - n, offset + n, bounds, f - n);
        assert(all[k + 1] == rest[k]);
        assert forall|j: int|
            #![trigger all[j]]
            0 <= j < all.len() && holds_frame(all[j], offset + f) implies j == k + 1 by {
            if j > 0 {
                assert(all[j] == rest[j - 1]);
            }
        }
        assert(timeline_at(next, f - n, bounds) == timeline_at(position, f, bounds)) by {
            lemma_timeline(position, f, bounds);
            lemma_timeline(next, f - n, bounds);
            if let Some(b) = bounds {
                let len = b.end - b.start;
                assert(position + n == b.end);
                assert(len % len == 0) by (nonlinear_arith)
                    requires
                        len > 0,
                ;
                assert(next == b.start);
                let y = f - n;
                // position + f == b.end + y
                assert(position + f - b.start == len + y);
                vstd::arithmetic::div_mod::lemma_mod_add_multiples_vanish(y, len);
                if y < len {
                    vstd::arithmetic::div_mod::lemma_small_mod(y as nat, len as nat);
                }
            }
        }
        k + 1
    }
}

proof fn lemma_segments_within(
    position: int,
    remaining: int,
    offset: int,
    bounds: Option<LoopBounds>,
)
    requires
        loop_valid(bounds),
        0 <= position,
        bounds matches Some(b) ==> position < b.end,
        bounds is None ==> position + remaining <= u64::MAX,
        0 < remaining <= u64::MAX,
        0 <= offset,
        offset + remaining <= u64::MAX,
    ensures
        ({
            let all = segments_from(position, remaining, offset, bounds);
            forall|j: int|
                #![trigger all[j]]
                0 <= j < all.len() ==> offset <= all[j].offset && all[j].offset + all[j].frames
                    <= offset + remaining
        }),
    decreases remaining,
{
    let n = segment_len(position, remaining, bounds);
    let next = normalized(position + n, bounds);
    let rest = segments_from(next, remaining - n, offset + n, bounds);
    let all = segments_from(position, remaining, offset, bounds);
    assert(all == seq![
        LoopSegment { sample: position as u64, frames: n as u64, offset: offset as u64 },
    ] + rest);
    lemma_normalized_in_loop(position + n, bounds);
    if remaining - n > 0 {
        lemma_segments_within(next, remaining - n, offset + n, bounds);
    } else {
        assert(rest =~= Seq::empty());
    }
    assert forall|j: int| #![trigger all[j]] 0 <= j < all.len() implies offset <= all[j].offset
        && all[j].offset + all[j].frames <= offset + remaining by {
        if j > 0 {
            assert(all[j] == rest[j - 1]);
        }
    }
}

/// Frame `f` of a block stands in exactly one of its segments, and there at the
/// timeline sample that is `f` samples after the block's start. The segments
/// hold no other frames.
pub proof fn law_every_frame_has_its_place(
    base: int,
    frames: int,
    bounds: Option<LoopBounds>,
    f: int,
) -> (k: int)
    requires
        loop_valid(bounds),
        0 <= base <= u64::MAX,
        0 <= f < frames <= u64::MAX,
        bounds is None ==> base + frames <= u64::MAX,
    ensures
        ({
            let all = block_segments(base, frames, bounds);
            &&& 0 <= k < all.len()
            &&& holds_frame(all[k], f)
            &&& all[k].sample + (f - all[k].offset) == timeline_at(base, f, bounds)
            &&& forall|j: int|
                #![trigger all[j]]
                0 <= j < all.len() && holds_frame(all[j], f) ==> j == k
            &&& forall|j: int|
                #![trigger all[j]]
                0 <= j < all.len() ==> all[j].offset + all[j].frames <= frames
        }),
{
    lemma_normalized_in_loop(base, bounds);
    let start = normalized(base, bounds);
    lemma_timeline(base, f, bounds);
    lemma_timeline(start, f, bounds);
    assert(normalized(start, bounds) == start);
    lemma_frame_place(start, frames, 0, bounds, f)
}

proof fn lemma_ascend_from(
    position: int,
    remaining: int,
    offset: int,
    bounds: Option<LoopBounds>,
    j: int,
    k: int,
)
    requires
        loop_valid(bounds),
        0 <= position,
        bounds matches Some(b) ==> position < b.end,
        bounds is None ==> position + remaining <= u64::MAX,
        0 <= remaining <= u64::MAX,
        0 <= offset,
        offset + remaining <= u64::MAX,
        0 <= j < k < segments_from(position, remaining, offset, bounds).len(),
    ensures
        ({
            let all = segments_from(position, remaining, offset, bounds);
            all[j].offset + all[j].frames <= all[k].offset && all[k].frames > 0 && all[k].offset
                + all[k].frames <= offset + remaining
        }),
    decreases remaining,
{
    let n = segment_len(position, remaining, bounds);
    let next = normalized(position + n, bounds);
    let rest = segments_from(next, remaining - n, offset + n, bounds);
    let all = segments_from(position, remaining, offset, bounds);
    assert(remaining > 0);
    assert(all == seq![
        LoopSegment { sample: position as u64, frames: n as u64, offset: offset as u64 },
    ] + rest);
    lemma_normalized_in_loop(position + n, bounds);
    assert(all[k] == rest[k - 1]);
    lemma_segments_within(next, remaining - n, offset + n, bounds);
    if j > 0 {
        assert(all[j] == rest[j - 1]);
        lemma_ascend_from(next, remaining - n, offset + n, bounds, j - 1, k - 1);
    } else {
        lemma_segments_filled(next, remaining - n, offset + n, bounds, k - 1);
    }
}

proof fn lemma_segments_filled(
    position: int,
    remaining: int,
    offset: int,
    bounds: Option<LoopBounds>,
    k: int,
)
    requires
        loop_valid(bounds),
        0 <= position,
        bounds matches Some(b) ==> position < b.end,
        0 <= remaining <= u64::MAX,
        0 <= k < segments_from(position, remaining, offset, bounds).len(),
    ensures
        segments_from(position, remaining, offset, bounds)[k].frames > 0,
    decreases remaining,
{
    let n = segment_len(position, remaining, bounds);
    let next = normalized(position + n, bounds);
    lemma_normalized_in_loop(position + n, bounds);
    if remaining > 0 && k > 0 {
        lemma_segments_filled(next, remaining - n, offset + n, bounds, k - 1);
    }
}

/// The segments of a block stand one after the other.
pub(crate) proof fn lemma_segments_ascend(
    base: int,
    frames: int,
    bounds: Option<LoopBounds>,
    j: int,
    k: int,
)
    requires
        loop_valid(bounds),
        0 <= base <= u64::MAX,
        0 <= frames <= u64::MAX,
        bounds is None ==> base + frames <= u64::MAX,
        0 <= j < k < block_segments(base, frames, bounds).len(),
    ensures
        ({
            let all = block_segments(base, frames, bounds);
            all[j].offset + all[j].frames <= all[k].offset && all[k].frames > 0 && all[k].offset
                + all[k].frames <= frames
        }),
{
    lemma_normalized_in_loop(base, bounds);
    lemma_ascend_from(normalized(base, bounds), frames, 0, bounds, j, k);
}

proof fn lemma_fits_from(
    position: int,
    remaining: int,
    offset: int,
    bounds: Option<LoopBounds>,
    k: int,
)
    requires
        loop_valid(bounds),
        0 <= position,
        bounds matches Some(b) ==> position < b.end,
        bounds is None ==> position + remaining <= u64::MAX,
        0 <= remaining <= u64::MAX,
        0 <= offset,
        offset + remaining <= u64::MAX,
        0 <= k < segments_from(position, remaining, offset, bounds).len(),
    ensures
        ({
            let s = segments_from(position, remaining, offset, bounds)[k];
            s.sample + s.frames <= u64::MAX && s.offset + s.frames <= offset + remaining
        }),
    decreases remaining,
{
    let n = segment_len(position, remaining, bounds);
    let next = normalized(position + n, bounds);
    lemma_normalized_in_loop(position + n, bounds);
    if remaining > 0 && k > 0 {
        lemma_fits_from(next, remaining - n, offset + n, bounds, k - 1);
    }
}

/// A segment of a block fits on the timeline and in the block.
pub(crate) proof fn lemma_segment_fits(
    base: int,
    frames: int,
    bounds: Option<LoopBounds>,
    k: int,
)
    requires
        loop_valid(bounds),
        0 <= base <= u64::MAX,
        0 <= frames <= u64::MAX,
        bounds is None ==> base + frames <= u64::MAX,
        0 <= k < block_segments(base, frames, bounds).len(),
    ensures
        ({
            let s = block_segments(base, frames, bounds)[k];
            s.sample + s.frames <= u64::MAX && s.offset + s.frames <= frames
        }),
{
    lemma_normalized_in_loop(base, bounds);
    lemma_fits_from(normalized(base, bounds), frames, 0, bounds, k);
}

} // verus!
