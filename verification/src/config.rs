//! Render-time parameters, immutable once the renderer is constructed.

use vstd::prelude::*;
use crate::fixed::{SCALE, COORD_LIMIT, PATH_LIMIT, vals_in_unit};

verus! {

pub struct Config {
    /// Image width in pixels.
    pub width: usize,
    /// Image height in pixels.
    pub height: usize,
    /// Number of spectral channels.
    pub channels: usize,
    /// Sphere-tracing accuracy threshold.
    pub ray_accuracy: i64,
    /// Travel distance after which a ray counts as escaped.
    pub ray_max: i64,
    /// Step for the finite-difference normal estimate.
    pub normal_epsilon: i64,
    /// Maximum number of bounces per path.
    pub path_length: usize,
    /// Ambient attenuation per unit distance, one value per channel.
    pub attenuation: Vec<i64>,
}

/// The parameter ranges the fixed-point world supports: positive
/// thresholds, coordinates within the representable box, and one
/// attenuation value in `[0, 1]` per channel.
pub open spec fn config_wf(c: Config) -> bool {
    &&& 2 <= c.width <= 1048576
    &&& 2 <= c.height <= 1048576
    &&& 1 <= c.channels <= 1024
    &&& (c.width as int) * (c.height as int) * (c.channels as int) <= usize::MAX as int
    &&& 1 <= c.ray_accuracy <= SCALE
    &&& 0 <= c.ray_max <= COORD_LIMIT
    &&& 1 <= c.normal_epsilon <= SCALE
    &&& c.path_length <= PATH_LIMIT
    &&& c.attenuation@.len() == c.channels
    &&& vals_in_unit(c.attenuation@)
}

} // verus!
