//! The kind bytes of HID class descriptors.

use vstd::prelude::*;

verus! {

/// Kind byte of a report descriptor.
pub const REPORT: u8 = 0x22;

/// Kind byte of a physical descriptor.
pub const PHYSICAL: u8 = 0x23;

} // verus!
