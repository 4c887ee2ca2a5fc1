//! Rings addressed by a running count of frames, and peaks of sample bits.

use vstd::prelude::*;

verus! {

/// A ring after `input` was written to it from count `at` on.
pub open spec fn ring_write(ring: Seq<u32>, at: nat, input: Seq<u32>) -> Seq<u32>
    decreases input.len(),
{
    if input.len() == 0 {
        ring
    } else {
        let rest = ring_write(ring, at, input.drop_last());
        rest.update(((at + input.len() - 1) % ring.len() as int) as int, input.last())
    }
}

/// What a ring holds for count `k`.
pub open spec fn ring_at(ring: Seq<u32>, k: nat) -> u32 {
    ring[(k % ring.len()) as int]
}

/// `n` samples of silence.
pub open spec fn silence(n: nat) -> Seq<u32> {
    Seq::new(n, |i: int| 0u32)
}

/// Writing keeps a ring's size.
pub proof fn lemma_ring_write_len(ring: Seq<u32>, at: nat, input: Seq<u32>)
    requires
        ring.len() > 0,
    ensures
        ring_write(ring, at, input).len() == ring.len(),
    decreases input.len(),
{
    if input.len() > 0 {
        lemma_ring_write_len(ring, at, input.drop_last());
        assert(0 <= (at + input.len() - 1) % ring.len() as int);
        assert((at + input.len() - 1) % (ring.len() as int) < ring.len()) by (nonlinear_arith)
            requires
                ring.len() > 0,
        ;
    }
}

pub(crate) proof fn lemma_distinct_mod(a: int, b: int, m: int)
    requires
        0 < m,
        0 <= a < b,
        b - a < m,
    ensures
        a % m != b % m,
{
    if a % m == b % m {
        vstd::arithmetic::div_mod::lemma_fundamental_div_mod(a, m);
        vstd::arithmetic::div_mod::lemma_fundamental_div_mod(b, m);
        let q = b / m - a / m;
        assert(b - a == m * q) by (nonlinear_arith)
            requires
                a == m * (a / m) + a % m,
                b == m * (b / m) + b % m,
                a % m == b % m,
                q == b / m - a / m,
        ;
        assert(q >= 1) by (nonlinear_arith)
            requires
                b - a == m * q,
                b - a > 0,
                m > 0,
        ;
        assert(m * q >= m) by (nonlinear_arith)
            requires
                q >= 1,
                m > 0,
        ;
    }
}

/// What was written last is read back: of the frames written, those that later
/// ones did not push out of the ring.
pub proof fn law_ring_reads_back(ring: Seq<u32>, at: nat, input: Seq<u32>, i: int)
    requires
        ring.len() > 0,
        0 <= i < input.len(),
        input.len() - i <= ring.len(),
    ensures
        ring_at(ring_write(ring, at, input), (at + i) as nat) == input[i],
    decreases input.len(),
{
    let m = ring.len() as int;
    let shorter = input.drop_last();
    lemma_ring_write_len(ring, at, shorter);
    lemma_ring_write_len(ring, at, input);
    let last = (at + input.len() - 1) % m;
    assert(0 <= last < m) by (nonlinear_arith)
        requires
            m > 0,
            last == (at + input.len() - 1) % m,
    ;
    if i < input.len() - 1 {
        law_ring_reads_back(ring, at, shorter, i);
        lemma_distinct_mod(at + i, at + input.len() - 1, m);
        let place = (at + i) % m;
        assert(0 <= place < m) by (nonlinear_arith)
            requires
                m > 0,
                place == (at + i) % m,
        ;
    }
}

/// Writing leaves the frames before it alone, as long as they are still within
/// the ring's reach.
pub proof fn law_ring_keeps_what_it_does_not_overwrite(
    ring: Seq<u32>,
    at: nat,
    input: Seq<u32>,
    k: nat,
)
    requires
        ring.len() > 0,
        k < at,
        at + input.len() - k <= ring.len(),
    ensures
        ring_at(ring_write(ring, at, input), k) == ring_at(ring, k),
    decreases input.len(),
{
    if input.len() > 0 {
        let m = ring.len() as int;
        let shorter = input.drop_last();
        law_ring_keeps_what_it_does_not_overwrite(ring, at, shorter, k);
        lemma_ring_write_len(ring, at, shorter);
        lemma_ring_write_len(ring, at, input);
        lemma_distinct_mod(k as int, at + input.len() - 1, m);
        let place = k as int % m;
        let last = (at + input.len() - 1) % m;
        assert(0 <= place < m && 0 <= last < m) by (nonlinear_arith)
            requires
                m > 0,
                place == k as int % m,
                last == (at + input.len() - 1) % m,
        ;
    }
}

// ── Peaks ───────────────────────────────────────────────────────────────────

/// The magnitude of a sample as a bit pattern, zero for what is not a number.
/// Among magnitudes the order of the patterns is the order of the numbers.
pub open spec fn magnitude(bits: u32) -> u32 {
    let m = if bits >= 0x8000_0000 {
        (bits - 0x8000_0000) as u32
    } else {
        bits
    };
    if m > 0x7f80_0000 {
        0
    } else {
        m
    }
}

/// The larger of a held peak and a sample's magnitude.
pub open spec fn peak_with(peak: u32, bits: u32) -> u32 {
    if magnitude(bits) > peak {
        magnitude(bits)
    } else {
        peak
    }
}

/// The larger of a held peak and the magnitudes of some samples.
pub open spec fn peak_over(peak: u32, samples: Seq<u32>) -> u32
    decreases samples.len(),
{
    if samples.len() == 0 {
        peak
    } else {
        peak_with(peak_over(peak, samples.drop_last()), samples.last())
    }
}

/// The larger of a held peak and the magnitudes of two runs of samples.
pub open spec fn stereo_peak(peak: u32, left: Seq<u32>, right: Seq<u32>) -> u32
    decreases left.len(),
{
    if left.len() == 0 {
        peak
    } else {
        peak_with(
            peak_with(
                stereo_peak(peak, left.drop_last(), right.take(left.len() - 1)),
                left.last(),
            ),
            right[left.len() - 1],
        )
    }
}

/// The larger of a held peak and a sample's magnitude.
pub fn hold_peak(peak: u32, bits: u32) -> (r: u32)
    ensures
        r == peak_with(peak, bits),
{
    let m: u32 = if bits >= 0x8000_0000 {
        bits - 0x8000_0000
    } else {
        bits
    };
    if m <= 0x7f80_0000 && m > peak {
        m
    } else {
        peak
    }
}

/// A held peak never falls and is never below the magnitude of any sample that
/// went into it.
pub proof fn law_peak_bounds_every_sample(peak: u32, samples: Seq<u32>, i: int)
    requires
        0 <= i < samples.len(),
    ensures
        peak <= peak_over(peak, samples),
        magnitude(samples[i]) <= peak_over(peak, samples),
    decreases samples.len(),
{
    if i < samples.len() - 1 {
        law_peak_bounds_every_sample(peak, samples.drop_last(), i);
    } else if samples.len() > 1 {
        law_peak_bounds_every_sample(peak, samples.drop_last(), 0);
    } else {
        assert(peak_over(peak, samples.drop_last()) == peak);
    }
}

// ── Interleaved blocks ──────────────────────────────────────────────────────

/// The left channel of `n` interleaved frames.
pub open spec fn left_of(interleaved: Seq<u32>, channels: nat, n: nat) -> Seq<u32> {
    Seq::new(n, |f: int| interleaved[f * channels])
}

/// The right channel of `n` interleaved frames; a mono block has one channel
/// for both sides.
pub open spec fn right_of(interleaved: Seq<u32>, channels: nat, n: nat) -> Seq<u32> {
    Seq::new(
        n,
        |f: int|
            if channels >= 2 {
                interleaved[f * channels + 1]
            } else {
                interleaved[f * channels]
            },
    )
}

/// The two sides of frame `f` of an interleaved block.
pub fn frame_sides(interleaved: &[u32], channels: usize, f: usize) -> (r: (u32, u32))
    requires
        channels > 0,
        f < interleaved@.len() as int / channels as int,
    ensures
        r.0 == interleaved@[f * channels],
        r.1 == if channels >= 2 {
            interleaved@[f * channels + 1]
        } else {
            interleaved@[f * channels]
        },
{
    let total: usize = interleaved.len();
    proof {
        let len = total as int;
        let c = channels as int;
        let k = f as int;
        assert(k * c + c <= len && 0 <= k * c) by (nonlinear_arith)
            requires
                0 <= k < len / c,
                c > 0,
                len >= 0,
        ;
    }
    let at: usize = f * channels;
    let left: u32 = interleaved[at];
    let right: u32 = if channels >= 2 {
        interleaved[at + 1]
    } else {
        left
    };
    (left, right)
}

/// A sample's magnitude is that of its negative, is the sample itself where the
/// sample is a level, and what is no number has none.
pub proof fn law_magnitude_has_no_sign(bits: u32)
    ensures
        bits <= 0x7f80_0000 ==> magnitude(bits) == bits,
        bits <= 0x7f80_0000 ==> magnitude((bits + 0x8000_0000) as u32) == bits,
        0x7f80_0000 < bits < 0x8000_0000 || bits > 0xff80_0000 ==> magnitude(bits) == 0,
{
}

/// A peak is what it was, or some sample's magnitude.
pub proof fn law_peak_is_some_samples(peak: u32, samples: Seq<u32>)
    ensures
        peak_over(peak, samples) >= peak,
        peak_over(peak, samples) == peak || exists|i: int|
            0 <= i < samples.len() && magnitude(#[trigger] samples[i]) == peak_over(peak, samples),
    decreases samples.len(),
{
    if samples.len() > 0 {
        let shorter = samples.drop_last();
        law_peak_is_some_samples(peak, shorter);
        if peak_over(peak, samples) != peak {
            if magnitude(samples.last()) > peak_over(peak, shorter) {
                assert(magnitude(samples[samples.len() - 1]) == peak_over(peak, samples));
            } else {
                let i = choose|i: int|
                    0 <= i < shorter.len() && magnitude(#[trigger] shorter[i]) == peak_over(
                        peak,
                        shorter,
                    );
                assert(samples[i] == shorter[i]);
            }
        }
    }
}

/// The peak of two channels bounds both, and is what it was or some sample's of
/// either.
pub proof fn law_stereo_peak_is_that_of_both(peak: u32, left: Seq<u32>, right: Seq<u32>)
    requires
        right.len() == left.len(),
    ensures
        stereo_peak(peak, left, right) >= peak,
        forall|i: int|
            0 <= i < left.len() ==> magnitude(#[trigger] left[i]) <= stereo_peak(
                peak,
                left,
                right,
            ),
        forall|i: int|
            0 <= i < right.len() ==> magnitude(#[trigger] right[i]) <= stereo_peak(
                peak,
                left,
                right,
            ),
        stereo_peak(peak, left, right) == peak || (exists|i: int|
            0 <= i < left.len() && magnitude(#[trigger] left[i]) == stereo_peak(
                peak,
                left,
                right,
            )) || (exists|i: int|
            0 <= i < right.len() && magnitude(#[trigger] right[i]) == stereo_peak(
                peak,
                left,
                right,
            )),
    decreases left.len(),
{
    if left.len() > 0 {
        let l = left.drop_last();
        let r = right.take(left.len() - 1);
        law_stereo_peak_is_that_of_both(peak, l, r);
        let n = left.len() - 1;
        assert forall|i: int| 0 <= i < left.len() implies magnitude(#[trigger] left[i])
            <= stereo_peak(peak, left, right) by {
            if i < n {
                assert(l[i] == left[i]);
            }
        }
        assert forall|i: int| 0 <= i < right.len() implies magnitude(#[trigger] right[i])
            <= stereo_peak(peak, left, right) by {
            if i < n {
                assert(r[i] == right[i]);
            }
        }
        let before = stereo_peak(peak, l, r);
        let now = stereo_peak(peak, left, right);
        if now != peak {
            if now == before {
                if exists|i: int| 0 <= i < l.len() && magnitude(#[trigger] l[i]) == before {
                    let i = choose|i: int|
                        0 <= i < l.len() && magnitude(#[trigger] l[i]) == before;
                    assert(left[i] == l[i]);
                } else {
                    let i = choose|i: int|
                        0 <= i < r.len() && magnitude(#[trigger] r[i]) == before;
                    assert(right[i] == r[i]);
                }
            } else {
                assert(magnitude(left[n]) == now || magnitude(right[n]) == now);
            }
        }
    }
}

/// Interleaved frames are taken apart by their channels: the first goes left and
/// the second right, and a single one goes to both.
pub proof fn law_frames_are_taken_apart(
    interleaved: Seq<u32>,
    channels: nat,
    n: nat,
    f: int,
)
    requires
        0 <= f < n,
    ensures
        left_of(interleaved, channels, n).len() == n,
        right_of(interleaved, channels, n).len() == n,
        left_of(interleaved, channels, n)[f] == interleaved[f * channels],
        channels >= 2 ==> right_of(interleaved, channels, n)[f] == interleaved[f * channels + 1],
        channels < 2 ==> right_of(interleaved, channels, n)[f] == interleaved[f * channels],
{
}

/// A fresh ring holds silence everywhere.
pub proof fn law_fresh_ring_is_silent(n: nat, k: nat)
    requires
        n > 0,
    ensures
        silence(n).len() == n,
        ring_at(silence(n), k) == 0,
{
    assert(0 <= k as int % n as int) by (nonlinear_arith)
        requires
            n > 0,
    ;
    assert(k as int % (n as int) < n) by (nonlinear_arith)
        requires
            n > 0,
    ;
}

} // verus!
