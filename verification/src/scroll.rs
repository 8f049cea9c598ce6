//! Conversion of continuous scroll deltas into discrete steps.

use vstd::prelude::*;

verus! {

/// Direction reported by one call of [`ScrollAccumulator::step`].
#[derive(Clone, Copy, Debug, PartialEq, Eq, Structural)]
pub enum ScrollStep {
    /// At least one step boundary was crossed upwards.
    Forward,
    /// At least one step boundary was crossed downwards.
    Backward,
    /// No step boundary was crossed.
    Stationary,
}

/// Direction that belongs to a signed number of crossed step boundaries.
pub open spec fn direction_of(steps: int) -> ScrollStep {
    if steps > 0 {
        ScrollStep::Forward
    } else if steps < 0 {
        ScrollStep::Backward
    } else {
        ScrollStep::Stationary
    }
}

/// Accumulates scroll deltas, measured in whole scroll units, and keeps what
/// has not yet been consumed by a step.
#[derive(Clone, Copy, Debug, PartialEq, Eq, Structural)]
pub struct ScrollAccumulator {
    residual: u32,
}

impl ScrollAccumulator {
    /// The units accumulated and not yet consumed.
    pub closed spec fn residual_units(&self) -> nat {
        self.residual as nat
    }

    /// An accumulator with nothing accumulated.
    pub fn new() -> (acc: Self)
        ensures
            acc.residual_units() == 0,
    {
        ScrollAccumulator { residual: 0 }
    }

    /// The units accumulated and not yet consumed.
    pub fn residual(&self) -> (r: u32)
        ensures
            r == self.residual_units(),
    {
        self.residual
    }

    /// Feeds one delta. The total of residual and delta is divided by the
    /// step size, rounding towards negative infinity; the sign of the
    /// quotient is reported and the non-negative remainder is kept.
    pub fn step(&mut self, delta: i32, step_size: u32) -> (dir: ScrollStep)
        requires
            step_size > 0,
        ensures
            final(self).residual_units() == (old(self).residual_units() + delta) % (
            step_size as int),
            dir == direction_of((old(self).residual_units() + delta) / (step_size as int)),
            final(self).residual_units() < step_size,
    {
        let total: i64 = self.residual as i64 + delta as i64;
        let size: i64 = step_size as i64;
        if total >= 0 {
            let q: i64 = total / size;
            let r: i64 = total % size;
            proof {
                lemma_quotient_sign(total as int, size as int);
            }
            self.residual = r as u32;
            if q > 0 {
                ScrollStep::Forward
            } else {
                ScrollStep::Stationary
            }
        } else {
            let below: i64 = -total;
            let r: i64 = below % size;
            let kept: i64 = if r == 0 {
                0
            } else {
                size - r
            };
            proof {
                lemma_negative_total(total as int, size as int, r as int);
                lemma_quotient_sign(total as int, size as int);
            }
            self.residual = kept as u32;
            ScrollStep::Backward
        }
    }
}

/// The quotient of a division by a positive divisor is negative exactly for
/// a negative dividend, and positive exactly from the divisor upwards.
pub proof fn lemma_quotient_sign(total: int, size: int)
    requires
        size > 0,
    ensures
        total < 0 <==> total / size < 0,
        total >= size <==> total / size > 0,
        0 <= total % size < size,
{
    vstd::arithmetic::div_mod::lemma_fundamental_div_mod(total, size);
    vstd::arithmetic::div_mod::lemma_mod_bound(total, size);
    assert(total / size < 0 ==> total < 0) by (nonlinear_arith)
        requires
            size > 0,
            total == size * (total / size) + total % size,
            0 <= total % size < size,
    ;
    assert(total < 0 ==> total / size < 0) by (nonlinear_arith)
        requires
            size > 0,
            total == size * (total / size) + total % size,
            0 <= total % size < size,
    ;
    assert(total / size > 0 ==> total >= size) by (nonlinear_arith)
        requires
            size > 0,
            total == size * (total / size) + total % size,
            0 <= total % size < size,
    ;
    assert(total >= size ==> total / size > 0) by (nonlinear_arith)
        requires
            size > 0,
            total == size * (total / size) + total % size,
            0 <= total % size < size,
    ;
}

/// While the residual is below the step size, a delta of zero reports no
/// step and leaves the residual as it is.
pub proof fn lemma_zero_delta_is_idle(residual: nat, step_size: int)
    requires
        residual < step_size,
    ensures
        (residual + 0int) % step_size == residual,
        direction_of((residual + 0int) / step_size) == ScrollStep::Stationary,
{
    vstd::arithmetic::div_mod::lemma_small_mod(residual, step_size as nat);
    vstd::arithmetic::div_mod::lemma_basic_div(residual as int, step_size);
}

/// Nothing is lost: the residual and the delta that went in are the steps
/// that were crossed, each of the step size, and the residual that is kept.
pub proof fn lemma_nothing_lost(residual: nat, delta: int, step_size: int)
    requires
        step_size > 0,
    ensures
        residual + delta == step_size * ((residual + delta) / step_size) + (residual + delta)
            % step_size,
        0 <= (residual + delta) % step_size < step_size,
{
    vstd::arithmetic::div_mod::lemma_fundamental_div_mod(residual + delta, step_size);
    vstd::arithmetic::div_mod::lemma_mod_bound(residual + delta, step_size);
}

/// The remainder of a negative total, from the remainder of its magnitude.
proof fn lemma_negative_total(total: int, size: int, r: int)
    requires
        size > 0,
        total < 0,
        r == (-total) % size,
    ensures
        total % size == (if r == 0 {
            0
        } else {
            size - r
        }),
{
    let below = -total;
    vstd::arithmetic::div_mod::lemma_fundamental_div_mod(below, size);
    vstd::arithmetic::div_mod::lemma_mod_bound(below, size);
    let q = below / size;
    if r == 0 {
        assert(total == size * (-q) + 0) by (nonlinear_arith)
            requires
                below == size * q + r,
                r == 0,
                total == -below,
        ;
        vstd::arithmetic::div_mod::lemma_fundamental_div_mod_converse(total, size, -q, 0);
    } else {
        assert(total == size * (-q - 1) + (size - r)) by (nonlinear_arith)
            requires
                below == size * q + r,
                total == -below,
        ;
        vstd::arithmetic::div_mod::lemma_fundamental_div_mod_converse(
            total,
            size,
            -q - 1,
            size - r,
        );
    }
}

} // verus!
