//! Transmission distribution functions: a placeholder with no implemented
//! variant; no operation may be invoked on it.

use vstd::prelude::*;

verus! {

#[derive(Clone, Copy, Debug)]
pub enum Tdf {
    Inert,
}

} // verus!
