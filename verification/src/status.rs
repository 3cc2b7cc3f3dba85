//! Status codes returned to the guest. The values are part of the guest
//! interface and stay fixed.

use vstd::prelude::*;

verus! {

/// The call completed and the response was written to guest memory.
pub const SUCCESS: i32 = 0;

/// The request could not be read or decoded; nothing was submitted.
pub const ERROR_SERDE: i32 = 1;

} // verus!
