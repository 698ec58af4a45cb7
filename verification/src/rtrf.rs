//! Reflectance-transmittance ratio functions: the per-channel probability
//! that a photon reflects rather than is absorbed at a hit.

use vstd::prelude::*;
use crate::fixed::{SCALE, vals_in_unit};
use crate::error::ParamError;

verus! {

/// A ratio function that is constant per channel.
pub struct Constant {
    pub ratio: Vec<i64>,
}

impl Constant {
    /// Validates every channel into `[0, 1]`; the first channel out of
    /// range is reported and nothing is constructed.
    pub fn new(ratio: Vec<i64>) -> (r: Result<Constant, ParamError>)
        ensures
            r is Ok <==> vals_in_unit(ratio@),
            (match r {
                Result::Ok(c) => c.ratio@ == ratio@,
                Result::Err(e) => (match e {
                    ParamError::Ratio { channel } => {
                        &&& (channel as int) < ratio@.len()
                        &&& !(0 <= ratio@[channel as int] <= SCALE)
                        &&& forall|j: int| 0 <= j < channel ==> 0 <= #[trigger] ratio@[j] <= SCALE
                    },
                    _ => false,
                }),
            }),
    {
        let mut i: usize = 0;
        while i < ratio.len()
            invariant
                i <= ratio@.len(),
                forall|j: int| 0 <= j < i ==> 0 <= #[trigger] ratio@[j] <= SCALE,
            decreases ratio@.len() - i,
        {
            if ratio[i] < 0 || ratio[i] > SCALE {
                return Result::Err(ParamError::Ratio { channel: i });
            }
            i = i + 1;
        }
        Result::Ok(Constant { ratio })
    }

    pub fn ratio(&self, channel: usize) -> (r: i64)
        requires
            (channel as int) < self.ratio@.len(),
        ensures
            r == self.ratio@[channel as int],
    {
        self.ratio[channel]
    }
}

/// The ratio function of an object, over its implemented variants.
pub enum Rtrf {
    Constant(Constant),
}

/// How many channels the ratio function carries.
pub open spec fn rtrf_channels(r: Rtrf) -> nat {
    match r {
        Rtrf::Constant(c) => c.ratio@.len(),
    }
}

/// The ratio value for one channel.
pub open spec fn rtrf_ratio_s(r: Rtrf, channel: int) -> int {
    match r {
        Rtrf::Constant(c) => c.ratio@[channel] as int,
    }
}

/// All channels lie in `[0, 1]`.
pub open spec fn rtrf_wf(r: Rtrf) -> bool {
    match r {
        Rtrf::Constant(c) => vals_in_unit(c.ratio@),
    }
}

impl Rtrf {
    pub fn ratio(&self, channel: usize) -> (r: i64)
        requires
            (channel as int) < rtrf_channels(*self),
        ensures
            r == rtrf_ratio_s(*self, channel as int),
    {
        match self {
            Rtrf::Constant(constant) => constant.ratio(channel),
        }
    }
}

} // verus!
