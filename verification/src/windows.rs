//! Window tables: a window shape evaluated over one window of samples, and
//! the optimized synthesis window derived from an analysis table.

use vstd::prelude::*;

verus! {

use crate::sample::Sample;
use crate::variables::Q;

/// Evaluates `shape` at the normalized times `t / window_size` for
/// `t in 0..window_size`, producing the analysis window table.
#[verifier::loop_isolation(false)]
pub fn window<T: Sample, F: Fn(T) -> T>(q: Q, shape: F) -> (r: Vec<T>)
    requires
        forall|x: T| #[trigger] call_requires(shape, (x,)),
    ensures
        r@.len() == q.spec_window_size(),
        forall|t: int|
            0 <= t < r@.len() ==> call_ensures(
                shape,
                (T::sp_of_ratio(t as usize, q.spec_window_size()),),
                #[trigger] r@[t],
            ),
{
    let ws = q.window_size();
    let mut r: Vec<T> = Vec::new();
    let mut t: usize = 0;
    while t < ws
        invariant
            t <= ws,
            r@.len() == t,
            forall|k: int|
                0 <= k < t ==> call_ensures(
                    shape,
                    (T::sp_of_ratio(k as usize, ws),),
                    #[trigger] r@[k],
                ),
        decreases ws - t,
    {
        let x = T::of_ratio(t, ws);
        r.push(shape(x));
        t = t + 1;
    }
    r
}

/// The summed squared analysis weights of every window slot below `bound`
/// that lies a whole number of hops from slot `t`: the terms `win[j]^2` for
/// `j` in `0 .. bound` with `j = t (mod hop_size)` — equivalently, for
/// `bound = window_size`, the terms `win[t + m * hop]^2` over every integer
/// `m` that keeps `t + m * hop` inside the window's bounds.
pub open spec fn synth_den<T: Sample>(win: Seq<T>, q: Q, t: int, bound: int) -> T
    decreases bound,
{
    if bound <= 0 {
        T::sp_zero()
    } else {
        let prev = synth_den(win, q, t, bound - 1);
        if (bound - 1) % (q.spec_hop_size() as int) == t % (q.spec_hop_size() as int) {
            prev.sp_plus(win[bound - 1].sp_times(win[bound - 1]))
        } else {
            prev
        }
    }
}

/// Derives the optimized synthesis window from an analysis window: every
/// slot is divided by the summed squared analysis weights of all the window
/// slots a whole number of hops away (its own included), so that
/// overlap-adding with this table needs no runtime normalization once the
/// analysis window satisfies the constant-overlap-add condition for the hop.
///
/// The caller must pick a window whose overlapping energy is nowhere zero;
/// with a divisor that is not positive, the slot is left to whatever the
/// sample type's division returns there.
#[verifier::loop_isolation(false)]
pub fn synth_window<T: Sample>(analysis_window: &Vec<T>, q: Q) -> (r: Vec<T>)
    requires
        analysis_window@.len() == q.spec_window_size(),
    ensures
        r@.len() == analysis_window@.len(),
        forall|t: int|
            0 <= t < r@.len() ==> #[trigger] r@[t] == analysis_window@[t].sp_over(
                synth_den(analysis_window@, q, t, analysis_window@.len() as int),
            ),
{
    proof {
        use_type_invariant(q);
        q.lemma_wf();
    }
    let ws = q.window_size();
    let hop = q.hop_size();
    let mut r: Vec<T> = Vec::new();
    let mut t: usize = 0;
    while t < ws
        invariant
            t <= ws,
            r@.len() == t as int,
            forall|u: int|
                0 <= u < t ==> #[trigger] r@[u] == analysis_window@[u].sp_over(
                    synth_den(analysis_window@, q, u, analysis_window@.len() as int),
                ),
        decreases ws - t,
    {
        let mut den = T::zero();
        let mut j: usize = 0;
        while j < ws
            invariant
                j <= ws,
                den == synth_den(analysis_window@, q, t as int, j as int),
            decreases ws - j,
        {
            if j % hop == t % hop {
                let w = analysis_window[j];
                den = den.plus(w.times(w));
            }
            j = j + 1;
        }
        r.push(analysis_window[t].over(den));
        t = t + 1;
    }
    r
}

} // verus!
