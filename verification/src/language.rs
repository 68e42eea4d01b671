//! Well-known language codes.

use vstd::prelude::*;

use crate::LanguageCode;

verus! {

/// English: ISO 639:1988 (E/F) code `en`, HID language id for English (US).
pub fn english() -> (r: LanguageCode)
    ensures
        r == (LanguageCode { iso_code: 0x656e, hid_code: 0x0409 }),
{
    LanguageCode { iso_code: 0x656e, hid_code: 0x0409 }
}

} // verus!
