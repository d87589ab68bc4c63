//! The framing engine: sliding-window extraction, a caller-supplied per-frame
//! transform, and weighted-overlap-add reconstruction with runtime
//! normalization.
//!
//! Frame `m` covers the signal indices `m * hop - overlap .. m * hop - overlap
//! + window_size`; indices outside the signal read as zero. After the
//! callback has transformed every frame, each output sample is the sum of the
//! window-weighted frame contributions at that index, divided by the summed
//! squared window weights that touched it.

use vstd::prelude::*;

verus! {

use vstd::arithmetic::div_mod::{lemma_fundamental_div_mod, lemma_mod_bound, lemma_div_is_ordered, lemma_div_is_ordered_by_denominator};
use crate::sample::Sample;
use crate::variables::Q;

/// How many frames `process` lays over a signal of length `len`:
/// `len / hop + 1`, so that the frame starts `m * hop` cover the whole signal
/// even when `len` is not a hop multiple (or is shorter than one window).
pub open spec fn spec_num_frames(q: Q, len: int) -> int {
    len / (q.spec_hop_size() as int) + 1
}

/// The signal index frame `m`'s first slot reads; negative for the early
/// frames, whose left part hangs over the signal's edge.
pub open spec fn frame_start(q: Q, m: int) -> int {
    m * q.spec_hop_size() - q.spec_overlap_size()
}

/// Whether frame `m` touches signal index `i`.
pub open spec fn covers(q: Q, m: int, i: int) -> bool {
    frame_start(q, m) <= i < frame_start(q, m) + q.spec_window_size()
}

/// The slot of frame `m` that lies over signal index `i`.
pub open spec fn frame_slot(q: Q, m: int, i: int) -> int {
    i - frame_start(q, m)
}

/// The signal continued by zeros on both sides.
pub open spec fn padded<T: Sample>(sig: Seq<T>, j: int) -> T {
    if 0 <= j < sig.len() {
        sig[j]
    } else {
        T::sp_zero()
    }
}

/// Frame `m` as the callback sees it: one window of (zero-padded) signal,
/// multiplied elementwise by the analysis window.
pub open spec fn analysis_frame<T: Sample>(q: Q, win: Seq<T>, sig: Seq<T>, m: int) -> Seq<T> {
    Seq::new(
        q.spec_window_size() as nat,
        |iota: int| padded(sig, frame_start(q, m) + iota).sp_times(win[iota]),
    )
}

/// The overlap-add accumulator at signal index `i` after the contributions of
/// frames `0..m`: each covering frame adds its (already transformed) slot
/// value times the window weight of that slot.
pub open spec fn acc_upto<T: Sample>(q: Q, win: Seq<T>, outs: Seq<Seq<T>>, i: int, m: int) -> T
    decreases m,
{
    if m <= 0 {
        T::sp_zero()
    } else if covers(q, m - 1, i) {
        acc_upto(q, win, outs, i, m - 1).sp_plus(
            outs[m - 1][frame_slot(q, m - 1, i)].sp_times(win[frame_slot(q, m - 1, i)]),
        )
    } else {
        acc_upto(q, win, outs, i, m - 1)
    }
}

/// The summed squared window weights at signal index `i` after frames `0..m`:
/// the denominator the normalization pass divides by. It ranges over exactly
/// the frames that contribute to `acc_upto` at `i`.
pub open spec fn weight_upto<T: Sample>(q: Q, win: Seq<T>, i: int, m: int) -> T
    decreases m,
{
    if m <= 0 {
        T::sp_zero()
    } else if covers(q, m - 1, i) {
        weight_upto(q, win, i, m - 1).sp_plus(
            win[frame_slot(q, m - 1, i)].sp_times(win[frame_slot(q, m - 1, i)]),
        )
    } else {
        weight_upto(q, win, i, m - 1)
    }
}

/// Whether `out` is a value the callback `work` may turn frame `m` into.
pub open spec fn frame_transformed<T: Sample, F: Fn(Vec<T>) -> Vec<T>>(
    q: Q,
    win: Seq<T>,
    orig: Seq<T>,
    work: F,
    out: Seq<T>,
    m: int,
) -> bool {
    exists|fv: Vec<T>, ov: Vec<T>|
        fv@ == analysis_frame(q, win, orig, m) && ov@ == out && #[trigger] call_ensures(
            work,
            (fv,),
            ov,
        )
}

/// Whether `outs` is a full per-frame transcript of what `work` made of the
/// frames of `orig`.
pub open spec fn frames_transformed<T: Sample, F: Fn(Vec<T>) -> Vec<T>>(
    q: Q,
    win: Seq<T>,
    orig: Seq<T>,
    work: F,
    outs: Seq<Seq<T>>,
) -> bool {
    &&& outs.len() == spec_num_frames(q, orig.len() as int)
    &&& forall|m: int| 0 <= m < outs.len() ==> (#[trigger] outs[m]).len() == q.spec_window_size()
    &&& forall|m: int|
        0 <= m < outs.len() ==> frame_transformed(q, win, orig, work, #[trigger] outs[m], m)
}

/// The reconstructed sample at index `i`: the overlap-add accumulator,
/// normalized by the summed squared weights wherever those report positive.
pub open spec fn output_sample<T: Sample>(
    q: Q,
    win: Seq<T>,
    outs: Seq<Seq<T>>,
    len: int,
    i: int,
) -> T {
    let acc = acc_upto(q, win, outs, i, spec_num_frames(q, len));
    let den = weight_upto(q, win, i, spec_num_frames(q, len));
    if den.sp_is_positive() {
        acc.sp_over(den)
    } else {
        acc
    }
}

/// Whether `result` is the weighted-overlap-add reconstruction of the
/// transcript `outs` over a signal that originally read `orig`.
pub open spec fn reconstructed<T: Sample>(
    q: Q,
    win: Seq<T>,
    outs: Seq<Seq<T>>,
    orig: Seq<T>,
    result: Seq<T>,
) -> bool {
    &&& result.len() == orig.len()
    &&& forall|i: int|
        0 <= i < result.len() ==> #[trigger] result[i] == output_sample(
            q,
            win,
            outs,
            orig.len() as int,
            i,
        )
}

/// Every signal index is touched by at least one frame, whatever the signal
/// length: even a signal shorter than one window is fully covered, so the
/// overlap-add pass reaches every sample and reconstruction loses none.
pub proof fn lemma_every_sample_covered(q: Q, len: int, i: int)
    requires
        q.wf(),
        0 <= i < len,
    ensures
        exists|m: int| 0 <= m < spec_num_frames(q, len) && #[trigger] covers(q, m, i),
{
    q.lemma_wf();
    let hop = q.spec_hop_size() as int;
    let m = i / hop;
    lemma_fundamental_div_mod(i, hop);
    lemma_mod_bound(i, hop);
    lemma_div_is_ordered(i, len, hop);
    assert(m * hop == hop * m) by (nonlinear_arith);
    assert(covers(q, m, i));
}

/// Two runs of the cycle over the same signal agree exactly, provided the
/// callback is a function of the frame's contents: any two transcripts of
/// callback results over the same original signal, and any two reconstructions
/// from them, coincide. (Order of accumulation is fixed by the engine, so no
/// other source of variation is left.)
pub proof fn lemma_process_deterministic<T: Sample, F: Fn(Vec<T>) -> Vec<T>>(
    q: Q,
    win: Seq<T>,
    orig: Seq<T>,
    work: F,
    outs1: Seq<Seq<T>>,
    outs2: Seq<Seq<T>>,
    r1: Seq<T>,
    r2: Seq<T>,
)
    requires
        forall|v1: Vec<T>, v2: Vec<T>, o1: Vec<T>, o2: Vec<T>|
            v1@ == v2@ && #[trigger] call_ensures(work, (v1,), o1) && #[trigger] call_ensures(
                work,
                (v2,),
                o2,
            ) ==> o1@ == o2@,
        frames_transformed(q, win, orig, work, outs1),
        frames_transformed(q, win, orig, work, outs2),
        reconstructed(q, win, outs1, orig, r1),
        reconstructed(q, win, outs2, orig, r2),
    ensures
        r1 == r2,
{
    assert forall|m: int| 0 <= m < outs1.len() implies outs1[m] == outs2[m] by {
        assert(frame_transformed(q, win, orig, work, outs1[m], m));
        assert(frame_transformed(q, win, orig, work, outs2[m], m));
        let (fv1, ov1): (Vec<T>, Vec<T>) = choose|fv: Vec<T>, ov: Vec<T>|
            fv@ == analysis_frame(q, win, orig, m) && ov@ == outs1[m] && #[trigger] call_ensures(
                work,
                (fv,),
                ov,
            );
        let (fv2, ov2): (Vec<T>, Vec<T>) = choose|fv: Vec<T>, ov: Vec<T>|
            fv@ == analysis_frame(q, win, orig, m) && ov@ == outs2[m] && #[trigger] call_ensures(
                work,
                (fv,),
                ov,
            );
        assert(ov1@ == ov2@);
    }
    assert(outs1 =~= outs2);
    assert forall|i: int| 0 <= i < r1.len() implies r1[i] == r2[i] by {
        assert(r1[i] == output_sample(q, win, outs1, orig.len() as int, i));
        assert(r2[i] == output_sample(q, win, outs2, orig.len() as int, i));
    }
    assert(r1 =~= r2);
}

/// How many of the frames `0..m` cover signal index `i`.
pub open spec fn cover_count(q: Q, i: int, m: int) -> int
    decreases m,
{
    if m <= 0 {
        0
    } else if covers(q, m - 1, i) {
        cover_count(q, i, m - 1) + 1
    } else {
        cover_count(q, i, m - 1)
    }
}

/// The covering count never goes negative.
proof fn lemma_cover_count_nonneg(q: Q, i: int, m: int)
    ensures
        cover_count(q, i, m) >= 0,
    decreases m,
{
    if m > 0 {
        lemma_cover_count_nonneg(q, i, m - 1);
    }
}

/// Once some frame `m0 < m` covers `i`, the count over `0..m` is positive.
proof fn lemma_cover_count_positive(q: Q, i: int, m0: int, m: int)
    requires
        0 <= m0 < m,
        covers(q, m0, i),
    ensures
        cover_count(q, i, m) >= 1,
    decreases m,
{
    if m0 < m - 1 {
        lemma_cover_count_positive(q, i, m0, m - 1);
        lemma_cover_count_nonneg(q, i, m - 1);
    } else {
        lemma_cover_count_nonneg(q, i, m - 1);
    }
}

/// With the all-ones window and a transcript that kept every frame, the two
/// accumulators reduce to `count * sample` and `count`, as long as no step
/// wraps: the engine adds the same untouched sample once per covering frame,
/// and one unit of squared weight beside it.
proof fn lemma_rectangular_folds(
    q: Q,
    win: Seq<u64>,
    orig: Seq<u64>,
    outs: Seq<Seq<u64>>,
    i: int,
    m: int,
    bound: int,
)
    requires
        q.wf(),
        win.len() == q.spec_window_size(),
        forall|t: int| 0 <= t < win.len() ==> win[t] == 1u64,
        forall|k: int|
            0 <= k < outs.len() ==> #[trigger] outs[k] == analysis_frame(q, win, orig, k),
        0 <= i < orig.len(),
        0 <= m <= outs.len() <= bound,
        bound <= usize::MAX,
        orig[i] * bound <= u64::MAX,
    ensures
        weight_upto(q, win, i, m) as int == cover_count(q, i, m),
        acc_upto(q, win, outs, i, m) as int == cover_count(q, i, m) * orig[i],
        cover_count(q, i, m) <= m,
    decreases m,
{
    q.lemma_wf();
    if m > 0 {
        lemma_rectangular_folds(q, win, orig, outs, i, m - 1, bound);
        let cnt = cover_count(q, i, m - 1);
        if covers(q, m - 1, i) {
            let slot = frame_slot(q, m - 1, i);
            assert(0 <= slot < win.len());
            assert(win[slot] == 1u64);
            assert(outs[m - 1][slot] == padded(orig, i).sp_times(1u64));
            assert(padded(orig, i) == orig[i]);
            assert(orig[i].sp_times(1u64) == orig[i]);
            assert((cnt + 1) * orig[i] == cnt * orig[i] + orig[i]) by (nonlinear_arith);
            assert((cnt + 1) * orig[i] <= bound * orig[i]) by (nonlinear_arith)
                requires
                    cnt + 1 <= bound,
                    0 <= orig[i],
            ;
            assert(bound * orig[i] == orig[i] * bound) by (nonlinear_arith);
        }
    }
}

/// Reconstruction identity, stated where it is exact: with the all-ones
/// window, a callback that hands every frame back unchanged, and samples
/// small enough that no accumulation step wraps, the cycle returns every
/// sample of the signal exactly — whatever the signal length, the window
/// order and the hop, signals shorter than one window included.
///
/// The hypotheses are precisely what [`Framing::process`] ensures, so a
/// caller that ran `process` with an identity callback can conclude that the
/// signal is unchanged.
pub proof fn lemma_reconstruction_identity_rectangular<F: Fn(Vec<u64>) -> Vec<u64>>(
    q: Q,
    win: Seq<u64>,
    orig: Seq<u64>,
    work: F,
    outs: Seq<Seq<u64>>,
    result: Seq<u64>,
)
    requires
        q.wf(),
        win.len() == q.spec_window_size(),
        forall|t: int| 0 <= t < win.len() ==> win[t] == 1u64,
        forall|v: Vec<u64>, o: Vec<u64>| #[trigger] call_ensures(work, (v,), o) ==> o@ == v@,
        frames_transformed(q, win, orig, work, outs),
        reconstructed(q, win, outs, orig, result),
        orig.len() + q.spec_window_size() <= usize::MAX,
        forall|j: int|
            0 <= j < orig.len() ==> #[trigger] orig[j] * spec_num_frames(q, orig.len() as int)
                <= u64::MAX,
    ensures
        result == orig,
{
    q.lemma_wf();
    let len = orig.len() as int;
    let hop = q.spec_hop_size() as int;
    let nf = spec_num_frames(q, len);
    lemma_div_is_ordered_by_denominator(len, 1, hop);
    assert(len / 1 == len);
    assert forall|k: int| 0 <= k < outs.len() implies #[trigger] outs[k] == analysis_frame(
        q,
        win,
        orig,
        k,
    ) by {
        assert(frame_transformed(q, win, orig, work, outs[k], k));
        let (fv, ov): (Vec<u64>, Vec<u64>) = choose|fv: Vec<u64>, ov: Vec<u64>|
            fv@ == analysis_frame(q, win, orig, k) && ov@ == outs[k] && #[trigger] call_ensures(
                work,
                (fv,),
                ov,
            );
        assert(ov@ == fv@);
    }
    assert forall|i: int| 0 <= i < len implies result[i] == orig[i] by {
        lemma_rectangular_folds(q, win, orig, outs, i, nf, nf);
        lemma_every_sample_covered(q, len, i);
        let m0 = choose|m: int| 0 <= m < nf && #[trigger] covers(q, m, i);
        lemma_cover_count_positive(q, i, m0, nf);
        let cnt = cover_count(q, i, nf);
        let den = weight_upto(q, win, i, nf);
        let acc = acc_upto(q, win, outs, i, nf);
        assert(den as int == cnt && 1 <= cnt);
        assert(den.sp_is_positive());
        assert(acc as int == cnt * orig[i]);
        vstd::arithmetic::div_mod::lemma_div_multiples_vanish(orig[i] as int, cnt);
        assert(acc as int / den as int == orig[i]);
        assert(acc.sp_over(den) == orig[i]);
    }
    assert(result =~= orig);
}

/// The engine: an analysis window table over fixed framing parameters.
pub struct Framing<T: Sample> {
    q: Q,
    window: Vec<T>,
}

impl<T: Sample> Framing<T> {
    /// The window table always spans exactly one window.
    #[verifier::type_invariant]
    pub closed spec fn wf(self) -> bool {
        self.window@.len() == self.q.spec_window_size()
    }

    pub closed spec fn spec_q(&self) -> Q {
        self.q
    }

    pub closed spec fn spec_window(&self) -> Seq<T> {
        self.window@
    }

    /// Builds an engine for the parameters `q`, with the analysis window
    /// produced by evaluating `window` at the normalized times
    /// `t / window_size` (see [`crate::windows::window`]).
    pub fn with_window<F: Fn(T) -> T>(q: Q, window: F) -> (r: Framing<T>)
        requires
            forall|x: T| #[trigger] call_requires(window, (x,)),
        ensures
            r.spec_q() == q,
            r.spec_window().len() == q.spec_window_size(),
            forall|t: int|
                0 <= t < q.spec_window_size() ==> call_ensures(
                    window,
                    (T::sp_of_ratio(t as usize, q.spec_window_size()),),
                    #[trigger] r.spec_window()[t],
                ),
    {
        let table = crate::windows::window(q, window);
        Framing { q, window: table }
    }

    /// Runs one analysis-synthesis cycle in place.
    ///
    /// Every window of the signal (zero-padded at the edges, weighted by the
    /// analysis window) is handed to `work`; the transformed frames are then
    /// overlap-added, each slot weighted by the analysis window once more,
    /// and every sample is finally divided by the summed squared weights that
    /// touched it, wherever that sum is positive.
    ///
    /// The contract fixes the result exactly, up to what `work` may return:
    /// there is a transcript `outs` of per-frame callback results such that
    /// the signal afterwards is the weighted-overlap-add reconstruction of
    /// that transcript. With a callback that keeps every frame, the numerator
    /// and denominator at each index range over the same covering frames,
    /// which is what makes the cycle an identity in exact arithmetic.
    #[verifier::loop_isolation(false)]
    pub fn process<F: Fn(Vec<T>) -> Vec<T>>(&self, signal: &mut Vec<T>, work: F)
        requires
            forall|v: Vec<T>|
                v@.len() == self.spec_q().spec_window_size() ==> #[trigger] call_requires(
                    work,
                    (v,),
                ),
            forall|v: Vec<T>, ov: Vec<T>|
                #[trigger] call_ensures(work, (v,), ov) ==> ov@.len() == v@.len(),
            old(signal)@.len() + self.spec_q().spec_window_size() <= usize::MAX,
        ensures
            final(signal)@.len() == old(signal)@.len(),
            exists|outs: Seq<Seq<T>>|
                frames_transformed(self.spec_q(), self.spec_window(), old(signal)@, work, outs)
                    && reconstructed(
                    self.spec_q(),
                    self.spec_window(),
                    outs,
                    old(signal)@,
                    final(signal)@,
                ),
    {
        proof {
            use_type_invariant(self);
            use_type_invariant(self.q);
            self.q.lemma_wf();
        }
        let ghost qq = self.q;
        let ghost win = self.window@;
        let ghost orig: Seq<T> = signal@;

        let ws = self.q.window_size();
        let hop = self.q.hop_size();
        let overlap = self.q.overlap_size();
        let len = signal.len();
        let num_frames = len / hop + 1;
        proof {
            lemma_fundamental_div_mod(len as int, hop as int);
            lemma_mod_bound(len as int, hop as int);
        }

        // Fan-out: extract and transform every frame of the untouched signal.
        let mut outs: Vec<Vec<T>> = Vec::new();
        let mut m: usize = 0;
        while m < num_frames
            invariant
                m <= num_frames,
                outs@.len() == m as int,
                signal@ == orig,
                forall|k: int| 0 <= k < m ==> (#[trigger] outs@[k])@.len() == ws,
                forall|k: int|
                    0 <= k < m ==> frame_transformed(qq, win, orig, work, (#[trigger] outs@[k])@, k),
            decreases num_frames - m,
        {
            proof {
                assert(m * hop <= (len / hop) * hop) by (nonlinear_arith)
                    requires
                        m <= len / hop,
                        0 < hop,
                ;
                assert((len / hop) * hop == hop * (len / hop)) by (nonlinear_arith);
            }
            let mut frame: Vec<T> = Vec::new();
            let mut iota: usize = 0;
            while iota < ws
                invariant
                    iota <= ws,
                    m * hop <= len,
                    frame@.len() == iota as int,
                    forall|t: int|
                        0 <= t < iota ==> #[trigger] frame@[t] == analysis_frame(
                            qq,
                            win,
                            orig,
                            m as int,
                        )[t],
                decreases ws - iota,
            {
                let pos = m * hop + iota;
                let x: T = if pos >= overlap {
                    let j = pos - overlap;
                    if j < len {
                        signal[j]
                    } else {
                        T::zero()
                    }
                } else {
                    T::zero()
                };
                let w = self.window[iota];
                frame.push(x.times(w));
                iota = iota + 1;
            }
            proof {
                assert(frame@ =~= analysis_frame(qq, win, orig, m as int));
            }
            let ghost gframe = frame;
            let out = work(frame);
            let ghost gout = out;
            outs.push(out);
            proof {
                assert(gout@.len() == ws);
                assert(frame_transformed(qq, win, orig, work, gout@, m as int));
            }
            m = m + 1;
        }
        let ghost gouts: Seq<Seq<T>> = outs@.map_values(|v: Vec<T>| v@);
        proof {
            assert(frames_transformed(qq, win, orig, work, gouts));
        }

        // Fan-in: overlap-add each transformed frame into a zeroed scratch
        // buffer, accumulating the squared window weights beside it.
        let mut scratch: Vec<T> = Vec::new();
        let mut weight: Vec<T> = Vec::new();
        let mut i: usize = 0;
        while i < len
            invariant
                i <= len,
                scratch@.len() == i as int,
                weight@.len() == i as int,
                forall|k: int| 0 <= k < i ==> #[trigger] scratch@[k] == T::sp_zero(),
                forall|k: int| 0 <= k < i ==> #[trigger] weight@[k] == T::sp_zero(),
            decreases len - i,
        {
            scratch.push(T::zero());
            weight.push(T::zero());
            i = i + 1;
        }

        let mut m: usize = 0;
        while m < num_frames
            invariant
                m <= num_frames,
                scratch@.len() == len as int,
                weight@.len() == len as int,
                forall|k: int|
                    0 <= k < len ==> #[trigger] scratch@[k] == acc_upto(qq, win, gouts, k, m as int),
                forall|k: int|
                    0 <= k < len ==> #[trigger] weight@[k] == weight_upto(qq, win, k, m as int),
            decreases num_frames - m,
        {
            proof {
                assert(m * hop <= (len / hop) * hop) by (nonlinear_arith)
                    requires
                        m <= len / hop,
                        0 < hop,
                ;
                assert((len / hop) * hop == hop * (len / hop)) by (nonlinear_arith);
            }
            let out_m = &outs[m];
            let mut iota: usize = 0;
            while iota < ws
                invariant
                    iota <= ws,
                    m * hop <= len,
                    scratch@.len() == len as int,
                    weight@.len() == len as int,
                    forall|k: int|
                        0 <= k < len ==> #[trigger] scratch@[k] == (if covers(qq, m as int, k)
                            && frame_slot(qq, m as int, k) < iota {
                            acc_upto(qq, win, gouts, k, m as int + 1)
                        } else {
                            acc_upto(qq, win, gouts, k, m as int)
                        }),
                    forall|k: int|
                        0 <= k < len ==> #[trigger] weight@[k] == (if covers(qq, m as int, k)
                            && frame_slot(qq, m as int, k) < iota {
                            weight_upto(qq, win, k, m as int + 1)
                        } else {
                            weight_upto(qq, win, k, m as int)
                        }),
                decreases ws - iota,
            {
                let pos = m * hop + iota;
                if pos >= overlap {
                    let j = pos - overlap;
                    if j < len {
                        proof {
                            assert(covers(qq, m as int, j as int));
                            assert(frame_slot(qq, m as int, j as int) == iota as int);
                        }
                        let w = self.window[iota];
                        let x = out_m[iota].times(w);
                        let s = scratch[j];
                        scratch.set(j, s.plus(x));
                        let wv = weight[j];
                        weight.set(j, wv.plus(w.times(w)));
                    }
                }
                iota = iota + 1;
            }
            m = m + 1;
        }

        // Normalization: divide by the accumulated window energy wherever it
        // reports positive, and write the result back into the signal.
        let mut i: usize = 0;
        while i < len
            invariant
                i <= len,
                signal@.len() == len as int,
                forall|k: int|
                    0 <= k < i ==> #[trigger] signal@[k] == output_sample(
                        qq,
                        win,
                        gouts,
                        len as int,
                        k,
                    ),
            decreases len - i,
        {
            let s = scratch[i];
            let d = weight[i];
            if d.is_positive() {
                signal.set(i, s.over(d));
            } else {
                signal.set(i, s);
            }
            i = i + 1;
        }
        proof {
            assert(frames_transformed(self.spec_q(), self.spec_window(), old(signal)@, work, gouts));
            assert(reconstructed(self.spec_q(), self.spec_window(), gouts, old(signal)@, signal@));
        }
    }
}

} // verus!
