//! Construction-time validation failures.

use vstd::prelude::*;

verus! {

/// A material parameter lay outside its declared range, at the named
/// channel. Construction of the owning entity is refused; no partial
/// value is observable.
#[derive(Clone, Copy, Debug, PartialEq, Eq, Structural)]
pub enum ParamError {
    /// A reflectance-transmittance ratio outside `[0, 1]`.
    Ratio { channel: usize },
    /// A reflectance outside `[0, 1]`.
    Reflection { channel: usize },
    /// A negative emission value.
    Emission { channel: usize },
}

} // verus!
