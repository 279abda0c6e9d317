//! The token-estimation calibrator: a process-wide scaling factor, held in
//! thousandths and clamped to [0.5, 2.0], updated by an exponentially
//! weighted moving average from observed (estimated, actual) pairs.
use vstd::prelude::*;

verus! {

/// Lower clamp of the factor, in thousandths (0.5).
pub const FACTOR_MIN_MILLI: u32 = 500;

/// Upper clamp of the factor, in thousandths (2.0).
pub const FACTOR_MAX_MILLI: u32 = 2000;

/// The calibrator's scaling factor, in thousandths.
#[derive(Debug, Clone, Copy, PartialEq, Eq, Structural)]
pub struct Calibrator {
    pub factor_milli: u32,
}

/// One EWMA step (weight 1/10) from an observed pair, clamped to the factor
/// range. A pair with a zero estimate teaches nothing.
pub open spec fn calibrator_step(factor: u32, estimated: u64, actual: u64) -> u32 {
    if estimated == 0 {
        factor
    } else {
        let ratio = (actual * 1000) / (estimated as int);
        let mixed = (9 * factor + ratio) / 10;
        if mixed < FACTOR_MIN_MILLI as int {
            FACTOR_MIN_MILLI
        } else if mixed > FACTOR_MAX_MILLI as int {
            FACTOR_MAX_MILLI
        } else {
            mixed as u32
        }
    }
}

/// The factor after a whole sequence of observed pairs.
pub open spec fn calibrator_run(factor: u32, pairs: Seq<(u64, u64)>) -> u32
    decreases pairs.len(),
{
    if pairs.len() == 0 {
        factor
    } else {
        calibrator_step(calibrator_run(factor, pairs.drop_last()), pairs.last().0, pairs.last().1)
    }
}

impl Calibrator {
    /// The factor lies in the clamp range.
    pub open spec fn wf(&self) -> bool {
        FACTOR_MIN_MILLI <= self.factor_milli <= FACTOR_MAX_MILLI
    }

    /// A fresh calibrator scales by exactly one.
    pub fn new() -> (r: Self)
        ensures
            r.factor_milli == 1000,
            r.wf(),
    {
        Calibrator { factor_milli: 1000 }
    }

    /// The current factor in thousandths.
    pub fn get_factor_milli(&self) -> (r: u32)
        ensures
            r == self.factor_milli,
    {
        self.factor_milli
    }

    /// Feeds one observed (estimated, actual) pair into the moving average.
    /// The factor stays within its clamp range.
    pub fn update(&mut self, estimated: u64, actual: u64)
        requires
            old(self).wf(),
        ensures
            final(self).factor_milli == calibrator_step(old(self).factor_milli, estimated, actual),
            final(self).wf(),
    {
        if estimated == 0 {
            return ;
        }
        let ratio: u128 = (actual as u128 * 1000) / (estimated as u128);
        let mixed: u128 = (9 * self.factor_milli as u128 + ratio) / 10;
        let clamped: u32 = if mixed < FACTOR_MIN_MILLI as u128 {
            FACTOR_MIN_MILLI
        } else if mixed > FACTOR_MAX_MILLI as u128 {
            FACTOR_MAX_MILLI
        } else {
            mixed as u32
        };
        self.factor_milli = clamped;
    }

    /// Scales a raw estimate by the factor, rounding to the nearest token
    /// and saturating at the integer bound.
    pub fn calibrate(&self, raw: u64) -> (r: u64)
        requires
            self.wf(),
        ensures
            r == if (raw * self.factor_milli + 500) / 1000 <= u64::MAX {
                ((raw * self.factor_milli + 500) / 1000) as u64
            } else {
                u64::MAX
            },
    {
        proof {
            assert(raw as int * self.factor_milli as int <= u64::MAX as int * 2000)
                by (nonlinear_arith)
                requires
                    raw <= u64::MAX,
                    self.factor_milli <= 2000,
            ;
        }
        let scaled: u128 = (raw as u128 * self.factor_milli as u128 + 500) / 1000;
        if scaled > u64::MAX as u128 {
            u64::MAX
        } else {
            scaled as u64
        }
    }
}

impl Default for Calibrator {
    /// The default calibrator scales by exactly one.
    fn default() -> (r: Self)
        ensures
            r.factor_milli == 1000,
            r.wf(),
    {
        Calibrator { factor_milli: 1000 }
    }
}

/// The factor stays in the clamp range under any finite sequence of observed
/// pairs, whatever they hold.
pub proof fn lemma_calibrator_factor_bounded(factor: u32, pairs: Seq<(u64, u64)>)
    requires
        FACTOR_MIN_MILLI <= factor <= FACTOR_MAX_MILLI,
    ensures
        FACTOR_MIN_MILLI <= calibrator_run(factor, pairs) <= FACTOR_MAX_MILLI,
    decreases pairs.len(),
{
    if pairs.len() > 0 {
        lemma_calibrator_factor_bounded(factor, pairs.drop_last());
    }
}

} // verus!
