//! Authentication of Galileo navigation data with a TESLA key chain: the
//! chain's one-way function, the screening of incoming INAV words against
//! the subframe clock, and the reading of named fields out of authenticated
//! blocks.

use vstd::prelude::*;

pub mod fields;
pub mod gst;
pub mod pipeline;
pub mod tesla;

verus! {

} // verus!
