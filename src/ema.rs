//! Exponential smoothing of a stream of non-negative measurements.
//!
//! The smoothing factor is kept in thousandths: `alpha == 1000` means that
//! every new measurement replaces the old value, and a small `alpha` keeps
//! most of the history. Each push computes
//! `current' = (alpha * new + (1000 - alpha) * current) / 1000`
//! (integer division, rounding down), so a higher factor weighs the newest
//! measurement more.
use vstd::prelude::*;

verus! {

/// Largest smoothing factor, in thousandths (a factor of one).
pub const ALPHA_SCALE: u64 = 1000;

/// One smoothing step: blend `new` into `current` with factor `alpha` (in thousandths).
pub open spec fn blend(alpha: int, current: int, new: int) -> int {
    (alpha * new + (1000 - alpha) * current) / 1000
}

/// What a push returns, given the state before it.
pub open spec fn push_result(alpha: int, current: Option<u64>, new: int) -> int {
    match current {
        Some(c) => blend(alpha, c as int, new),
        None => new,
    }
}

/// Blending a value with itself gives it back unchanged.
pub proof fn lemma_blend_same(alpha: int, v: int)
    requires
        0 <= alpha <= 1000,
    ensures
        blend(alpha, v, v) == v,
{
    assert(alpha * v + (1000 - alpha) * v == 1000 * v) by (nonlinear_arith);
}

/// A blend lies between the two values blended.
pub proof fn lemma_blend_bounds(alpha: int, current: int, new: int)
    requires
        0 <= alpha <= 1000,
        0 <= current,
        0 <= new,
    ensures
        0 <= blend(alpha, current, new),
        blend(alpha, current, new) <= if current < new { new } else { current },
{
    let m = if current < new { new } else { current };
    assert(0 <= alpha * new + (1000 - alpha) * current) by (nonlinear_arith)
        requires
            0 <= alpha <= 1000,
            0 <= current,
            0 <= new,
    ;
    assert(alpha * new + (1000 - alpha) * current <= 1000 * m) by (nonlinear_arith)
        requires
            0 <= alpha <= 1000,
            0 <= current <= m,
            0 <= new <= m,
    ;
}

/// The first output of a smoother is its first input, whatever the factor.
pub proof fn lemma_first_push_is_input(alpha: u64, new: u64)
    requires
        1 <= alpha <= ALPHA_SCALE,
    ensures
        Ema::spec_new(alpha).spec_push(new).spec_current() == Some(new),
{
}

/// Exponential moving average of `u64` measurements.
#[derive(PartialEq, Eq, Structural, Debug, Clone, Copy)]
pub struct Ema {
    current: Option<u64>,
    alpha: u64,
}

impl Ema {
    /// The smoothed value so far; `None` until the first push.
    pub closed spec fn spec_current(&self) -> Option<u64> {
        self.current
    }

    /// The smoothing factor, in thousandths.
    pub closed spec fn spec_alpha(&self) -> u64 {
        self.alpha
    }

    /// A smoother with factor `alpha` that has seen nothing yet.
    pub closed spec fn spec_new(alpha: u64) -> Ema {
        Ema { current: None, alpha }
    }

    /// The smoother after one more measurement `new`.
    pub closed spec fn spec_push(self, new: u64) -> Ema {
        Ema {
            current: Some(push_result(self.alpha as int, self.current, new as int) as u64),
            alpha: self.alpha,
        }
    }

    /// The smoothing factor is in `1..=1000`, that is in (0, 1].
    pub open spec fn wf(&self) -> bool {
        1 <= self.spec_alpha() <= ALPHA_SCALE
    }

    /// A smoother that has seen nothing yet.
    pub fn new(alpha: u64) -> (r: Ema)
        requires
            1 <= alpha <= ALPHA_SCALE,
        ensures
            r.wf(),
            r == Ema::spec_new(alpha),
            r.spec_current() == None::<u64>,
            r.spec_alpha() == alpha,
    {
        Ema { current: None, alpha }
    }

    /// Feeds one measurement and returns the new smoothed value. The first
    /// measurement is returned as it is.
    pub fn push(&mut self, new: u64) -> (r: u64)
        requires
            old(self).wf(),
        ensures
            final(self).wf(),
            final(self).spec_alpha() == old(self).spec_alpha(),
            r == push_result(old(self).spec_alpha() as int, old(self).spec_current(), new as int),
            final(self).spec_current() == Some(r),
            *final(self) == old(self).spec_push(new),
            old(self).spec_current() == None::<u64> ==> r == new,
    {
        let current = match self.current {
            Some(c) => c,
            None => new,
        };
        proof {
            lemma_blend_same(self.alpha as int, new as int);
            lemma_blend_bounds(self.alpha as int, current as int, new as int);
        }
        let a = self.alpha as u128;
        let sum = a * (new as u128) + (1000 - a) * (current as u128);
        let blended = (sum / 1000) as u64;
        self.current = Some(blended);
        blended
    }

    /// The smoothed value so far, if any measurement was pushed.
    pub fn current(&self) -> (r: Option<u64>)
        ensures
            r == self.spec_current(),
    {
        self.current
    }

    /// The smoothing factor, in thousandths.
    pub fn alpha(&self) -> (r: u64)
        ensures
            r == self.spec_alpha(),
    {
        self.alpha
    }
}

} // verus!
