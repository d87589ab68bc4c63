//! The spectral layer's index logic: the size of the non-redundant
//! half-spectrum of a real signal, and the conjugate mirroring that rebuilds
//! the redundant upper half before the inverse transform.
//!
//! The transforms themselves run on whatever complex type the caller brings;
//! this module fixes which bins are exposed, which are rebuilt, and that the
//! rebuilt half is the exact conjugate mirror of the kept half.

use vstd::prelude::*;

verus! {

use crate::variables::Q;

/// How many spectral bins of a real signal's transform carry information:
/// `window_size / 2 + 1`. The remaining bins are determined by Hermitian
/// symmetry and are rebuilt by [`mirror_spectrum`].
pub fn fft_size(q: Q) -> (r: usize)
    ensures
        r == q.spec_window_size() / 2 + 1,
{
    q.window_size() / 2 + 1
}

/// Rebuilds the redundant upper half of a full-length spectrum from the
/// non-redundant lower half: bin `fft_size - 1 + n` is set to the conjugate
/// of bin `fft_size - 1 - n` for `n` in `1 .. fft_size - 1`, leaving bins
/// `0 .. fft_size` untouched.
///
/// Half-symmetry, as the contract states it: afterwards, for every
/// `1 <= k <= window_size / 2 - 1`, bin `window_size - k` is exactly the
/// `conj`-image of bin `k` — with a complex payload and a conjugation
/// closure, bin `k` and bin `window_size - k` are exact complex conjugates.
/// This holds whether or not a callback changed the lower half first.
#[verifier::loop_isolation(false)]
pub fn mirror_spectrum<T: Copy, F: Fn(T) -> T>(spectrum: &mut Vec<T>, fft_size: usize, conj: F)
    requires
        forall|x: T| #[trigger] call_requires(conj, (x,)),
        2 <= fft_size,
        old(spectrum)@.len() + 2 == 2 * fft_size,
    ensures
        final(spectrum)@.len() == old(spectrum)@.len(),
        forall|j: int| 0 <= j < fft_size ==> #[trigger] final(spectrum)@[j] == old(spectrum)@[j],
        forall|k: int|
            1 <= k <= fft_size - 2 ==> call_ensures(
                conj,
                (final(spectrum)@[k],),
                #[trigger] final(spectrum)@[final(spectrum)@.len() - k],
            ),
{
    let len = spectrum.len();
    let mut dst: usize = fft_size;
    while dst < len
        invariant
            fft_size <= dst <= len,
            spectrum@.len() == old(spectrum)@.len(),
            forall|j: int| 0 <= j < fft_size ==> #[trigger] spectrum@[j] == old(spectrum)@[j],
            forall|nn: int|
                1 <= nn < dst - (fft_size - 1) ==> call_ensures(
                    conj,
                    (spectrum@[fft_size - 1 - nn],),
                    #[trigger] spectrum@[fft_size - 1 + nn],
                ),
        decreases len - dst,
    {
        let src = spectrum[len - dst];
        spectrum.set(dst, conj(src));
        dst = dst + 1;
    }
    proof {
        assert forall|k: int| 1 <= k <= fft_size - 2 implies call_ensures(
            conj,
            (spectrum@[k],),
            #[trigger] spectrum@[spectrum@.len() - k],
        ) by {
            let nn = fft_size - 1 - k;
            assert(call_ensures(conj, (spectrum@[fft_size - 1 - nn],), spectrum@[fft_size - 1 + nn]));
            assert(fft_size - 1 - nn == k);
            assert(fft_size - 1 + nn == spectrum@.len() - k);
        }
    }
}

} // verus!
