//! Well-known character-encoding ids.

use vstd::prelude::*;

verus! {

/// MIBenum value for UTF-8, from IANA's database.
pub const UTF_8: u16 = 0x006a;

} // verus!
