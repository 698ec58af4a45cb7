//! Scene objects: one shape paired with one material.

use vstd::prelude::*;
use crate::fixed::EMISSION_LIMIT;
use crate::shape::{Shape, shape_wf};
use crate::material::Material;
use crate::rtrf::{rtrf_channels, rtrf_wf};
use crate::rdf::{rdf_channels, rdf_wf};

verus! {

pub struct Object {
    pub shape: Shape,
    pub material: Material,
}

/// The object can be traced against `channels` spectral channels: its
/// shape is in range, its material's arrays all carry exactly `channels`
/// entries with values in their declared ranges, and its reflection
/// distribution is implemented.
pub open spec fn object_renderable(o: Object, channels: nat) -> bool {
    &&& shape_wf(o.shape)
    &&& rtrf_wf(o.material.rtrf)
    &&& rtrf_channels(o.material.rtrf) == channels
    &&& o.material.rdf is Diffuse
    &&& rdf_wf(o.material.rdf)
    &&& rdf_channels(o.material.rdf) == channels
    &&& o.material.emission@.len() == channels
    &&& forall|i: int|
        0 <= i < channels ==> 0 <= #[trigger] o.material.emission@[i] <= EMISSION_LIMIT
}

impl Object {
    pub fn new(shape: Shape, material: Material) -> (r: Object)
        ensures
            r.shape == shape,
            r.material == material,
    {
        Object { shape, material }
    }
}

} // verus!
