//! Materials: a ratio function, a reflection distribution, a transmission
//! placeholder and a per-channel emission vector.

use vstd::prelude::*;
use crate::fixed::EMISSION_LIMIT;
use crate::rtrf::Rtrf;
use crate::rdf::Rdf;
use crate::tdf::Tdf;
use crate::error::ParamError;

verus! {

/// Every emission value is non-negative.
pub open spec fn emissions_valid(s: Seq<i64>) -> bool {
    forall|i: int| 0 <= i < s.len() ==> 0 <= #[trigger] s[i]
}

pub struct Material {
    pub rtrf: Rtrf,
    pub rdf: Rdf,
    pub tdf: Tdf,
    pub emission: Vec<i64>,
}

impl Material {
    /// Validates the emission vector: construction fails at the first
    /// negative channel and succeeds otherwise, storing every argument
    /// unchanged.
    pub fn new(rtrf: Rtrf, rdf: Rdf, tdf: Tdf, emission: Vec<i64>) -> (r: Result<
        Material,
        ParamError,
    >)
        requires
            forall|i: int|
                0 <= i < emission@.len() ==> #[trigger] emission@[i] <= EMISSION_LIMIT,
        ensures
            r is Ok <==> emissions_valid(emission@),
            (match r {
                Result::Ok(m) => {
                    &&& m.rtrf == rtrf
                    &&& m.rdf == rdf
                    &&& m.tdf == tdf
                    &&& m.emission@ == emission@
                },
                Result::Err(e) => (match e {
                    ParamError::Emission { channel } => {
                        &&& (channel as int) < emission@.len()
                        &&& emission@[channel as int] < 0
                        &&& forall|j: int| 0 <= j < channel ==> 0 <= #[trigger] emission@[j]
                    },
                    _ => false,
                }),
            }),
    {
        let mut i: usize = 0;
        while i < emission.len()
            invariant
                i <= emission@.len(),
                forall|j: int| 0 <= j < i ==> 0 <= #[trigger] emission@[j],
            decreases emission@.len() - i,
        {
            if emission[i] < 0 {
                return Result::Err(ParamError::Emission { channel: i });
            }
            i = i + 1;
        }
        Result::Ok(Material { rtrf, rdf, tdf, emission })
    }
}

} // verus!
