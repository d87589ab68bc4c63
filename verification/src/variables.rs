//! Analysis parameters: window size and hop size, derived from the two user
//! knobs (window order and overlap).

use vstd::prelude::*;

verus! {

use vstd::arithmetic::power::pow;
use vstd::arithmetic::power2::{pow2, is_pow2, is_pow2_equiv, lemma_pow2_strictly_increases, lemma2_to64};
use vstd::arithmetic::div_mod::{lemma_div_is_ordered, lemma_div_multiples_vanish, lemma_div_by_self};

/// The framing parameters: a window of `window_size` samples is slid over the
/// signal in steps of `hop_size` samples.
///
/// Invariants: the window size is a power of two of at least 2, and
/// `0 < hop_size <= window_size` (hop equal to the window size means the
/// frames do not overlap at all).
#[derive(Debug, Clone, Copy, PartialEq, Eq, Structural)]
pub struct Q {
    window_size: usize,
    hop_size: usize,
}

impl Q {
    /// Well-formedness of the parameters; every constructed `Q` satisfies it.
    #[verifier::type_invariant]
    pub closed spec fn wf(self) -> bool {
        &&& is_pow2(self.window_size as int)
        &&& 2 <= self.window_size
        &&& 0 < self.hop_size <= self.window_size
    }

    pub closed spec fn spec_window_size(&self) -> usize {
        self.window_size
    }

    pub closed spec fn spec_hop_size(&self) -> usize {
        self.hop_size
    }

    /// Builds the parameters from the window order (the window size is
    /// `2^window_order`) and an explicit hop size.
    pub fn new(window_order: usize, hop_size: usize) -> (r: Q)
        requires
            0 < window_order < 32,
            0 < hop_size < pow2(window_order as nat),
        ensures
            r.spec_window_size() == pow2(window_order as nat),
            r.spec_hop_size() == hop_size,
    {
        let window_size = pow2_usize(window_order);
        proof {
            lemma_window_size_wf(window_order as nat);
        }
        Q { window_size, hop_size }
    }

    /// Builds the parameters from the window order and an overlap ratio given
    /// as the fraction `overlap_num / overlap_den` (with `0 <= ratio < 1`).
    /// The hop size is `window_size * (1 - ratio)`, rounded down.
    pub fn with_overlap(window_order: usize, overlap_num: usize, overlap_den: usize) -> (r: Q)
        requires
            0 < window_order < 32,
            overlap_num < overlap_den,
            pow2(window_order as nat) * (overlap_den - overlap_num) <= usize::MAX,
            overlap_den <= pow2(window_order as nat) * (overlap_den - overlap_num),
        ensures
            r.spec_window_size() == pow2(window_order as nat),
            r.spec_hop_size()
                == pow2(window_order as nat) * (overlap_den - overlap_num) / (overlap_den as int),
    {
        let window_size = pow2_usize(window_order);
        let keep = overlap_den - overlap_num;
        let hop_size = (window_size * keep) / overlap_den;
        proof {
            lemma_window_size_wf(window_order as nat);
            let prod = (window_size * keep) as int;
            let den = overlap_den as int;
            lemma_div_by_self(den);
            lemma_div_is_ordered(den, prod, den);
            assert(prod <= window_size * den) by (nonlinear_arith)
                requires
                    keep <= den,
                    0 <= window_size,
                    prod == window_size * keep,
            ;
            lemma_div_is_ordered(prod, window_size * den, den);
            lemma_div_multiples_vanish(window_size as int, den);
            assert(den * window_size == window_size * den) by (nonlinear_arith);
        }
        Q { window_size, hop_size }
    }

    /// How many frames overlap any one hop-aligned stretch of the signal:
    /// `window_size / hop_size`.
    pub open spec fn spec_as_usize(&self) -> usize {
        (self.spec_window_size() / self.spec_hop_size()) as usize
    }

    #[verifier::when_used_as_spec(spec_as_usize)]
    pub fn as_usize(&self) -> (r: usize)
        ensures
            r == self.spec_as_usize(),
    {
        proof {
            use_type_invariant(self);
        }
        self.window_size / self.hop_size
    }

    #[verifier::when_used_as_spec(spec_window_size)]
    pub fn window_size(&self) -> (r: usize)
        ensures
            r == self.spec_window_size(),
    {
        self.window_size
    }

    #[verifier::when_used_as_spec(spec_hop_size)]
    pub fn hop_size(&self) -> (r: usize)
        ensures
            r == self.spec_hop_size(),
    {
        self.hop_size
    }

    /// The number of samples two consecutive frames share.
    pub open spec fn spec_overlap_size(&self) -> usize {
        (self.spec_window_size() - self.spec_hop_size()) as usize
    }

    #[verifier::when_used_as_spec(spec_overlap_size)]
    pub fn overlap_size(&self) -> (r: usize)
        ensures
            r == self.spec_overlap_size(),
    {
        proof {
            use_type_invariant(self);
        }
        self.window_size - self.hop_size
    }

    /// Spells out what the invariant gives in terms of the spec accessors;
    /// `use_type_invariant` supplies the `wf` hypothesis for any built value.
    pub proof fn lemma_wf(self)
        requires
            self.wf(),
        ensures
            2 <= self.spec_window_size(),
            0 < self.spec_hop_size() <= self.spec_window_size(),
            self.spec_overlap_size() == self.spec_window_size() - self.spec_hop_size(),
    {
    }
}

impl From<Q> for usize {
    /// The overlap factor `window_size / hop_size`, as for `as_usize`.
    fn from(value: Q) -> (r: usize) {
        value.as_usize()
    }
}

impl vstd::std_specs::convert::FromSpecImpl<Q> for usize {
    open spec fn obeys_from_spec() -> bool {
        true
    }

    open spec fn from_spec(value: Q) -> usize {
        value.spec_as_usize()
    }
}

/// `2^e`, computed by doubling.
fn pow2_usize(e: usize) -> (r: usize)
    requires
        e < 32,
    ensures
        r == pow2(e as nat),
{
    proof {
        lemma2_to64();
    }
    let mut i: usize = 0;
    let mut r: usize = 1;
    while i < e
        invariant
            i <= e,
            e < 32,
            r == pow2(i as nat),
        decreases e - i,
    {
        proof {
            lemma2_to64();
            lemma_pow2_strictly_increases((i + 1) as nat, 32);
            vstd::arithmetic::power2::lemma_pow2_unfold((i + 1) as nat);
        }
        r = r * 2;
        i = i + 1;
    }
    r
}

/// A window of order `e > 0` has a power-of-two size of at least 2.
proof fn lemma_window_size_wf(e: nat)
    requires
        0 < e < 32,
    ensures
        is_pow2(pow2(e) as int),
        2 <= pow2(e),
        pow2(e) <= usize::MAX,
{
    lemma2_to64();
    if e > 1 {
        lemma_pow2_strictly_increases(1, e);
    }
    lemma_pow2_strictly_increases(e, 32);
    vstd::arithmetic::power2::lemma_pow2(e);
    assert(pow(2, e) == pow2(e) as int);
    broadcast use is_pow2_equiv;

    assert(vstd::arithmetic::power2::is_pow2_exists(pow2(e) as int));
}

} // verus!
