//! Verified text formatting for error messages: fixed-width hexadecimal,
//! decimal, and hyphenated UUID rendering.

use vstd::prelude::*;

verus! {

/// The lower-case hexadecimal digit of a value below sixteen.
pub open spec fn hex_digit(n: int) -> Seq<char> {
    if n == 0 { "0"@ }
    else if n == 1 { "1"@ }
    else if n == 2 { "2"@ }
    else if n == 3 { "3"@ }
    else if n == 4 { "4"@ }
    else if n == 5 { "5"@ }
    else if n == 6 { "6"@ }
    else if n == 7 { "7"@ }
    else if n == 8 { "8"@ }
    else if n == 9 { "9"@ }
    else if n == 10 { "a"@ }
    else if n == 11 { "b"@ }
    else if n == 12 { "c"@ }
    else if n == 13 { "d"@ }
    else if n == 14 { "e"@ }
    else { "f"@ }
}

/// The lower-case hexadecimal digit of a value below sixteen.
fn hex_digit_str(n: u8) -> (r: &'static str)
    requires
        n < 16,
    ensures
        r@ == hex_digit(n as int),
{
    if n == 0 { "0" }
    else if n == 1 { "1" }
    else if n == 2 { "2" }
    else if n == 3 { "3" }
    else if n == 4 { "4" }
    else if n == 5 { "5" }
    else if n == 6 { "6" }
    else if n == 7 { "7" }
    else if n == 8 { "8" }
    else if n == 9 { "9" }
    else if n == 10 { "a" }
    else if n == 11 { "b" }
    else if n == 12 { "c" }
    else if n == 13 { "d" }
    else if n == 14 { "e" }
    else { "f" }
}

/// A 16-bit value as four lower-case hexadecimal digits.
pub open spec fn hex4_of(x: u16) -> Seq<char> {
    hex_digit(((x >> 12) & 0xf) as int) + hex_digit(((x >> 8) & 0xf) as int) + hex_digit(
        ((x >> 4) & 0xf) as int,
    ) + hex_digit((x & 0xf) as int)
}

/// A 16-bit value as four lower-case hexadecimal digits.
pub fn hex4(x: u16) -> (r: String)
    ensures
        r@ == hex4_of(x),
{
    proof {
        assert((x >> 12) & 0xf < 16 && (x >> 8) & 0xf < 16 && (x >> 4) & 0xf < 16 && x & 0xf < 16)
            by (bit_vector);
    }
    let mut s = hex_digit_str(((x >> 12) & 0xf) as u8).to_owned();
    s.append(hex_digit_str(((x >> 8) & 0xf) as u8));
    s.append(hex_digit_str(((x >> 4) & 0xf) as u8));
    s.append(hex_digit_str((x & 0xf) as u8));
    s
}

/// One hexadecimal digit of a 128-bit value, counting nibbles from the least
/// significant end.
pub open spec fn nibble_of(u: u128, k: int) -> Seq<char> {
    hex_digit(((u >> (4 * k)) & 0xf) as int)
}

/// A 128-bit UUID in its canonical hyphenated form: five groups of eight,
/// four, four, four and twelve lower-case hexadecimal digits.
pub open spec fn uuid_of(u: u128) -> Seq<char> {
    nibble_of(u, 31) + nibble_of(u, 30) + nibble_of(u, 29) + nibble_of(u, 28) + nibble_of(u, 27) + nibble_of(u, 26) + nibble_of(u, 25) + nibble_of(u, 24) + "-"@ + nibble_of(u, 23) + nibble_of(u, 22) + nibble_of(u, 21) + nibble_of(u, 20) + "-"@ + nibble_of(u, 19) + nibble_of(u, 18) + nibble_of(u, 17) + nibble_of(u, 16) + "-"@ + nibble_of(u, 15) + nibble_of(u, 14) + nibble_of(u, 13) + nibble_of(u, 12) + "-"@ + nibble_of(u, 11) + nibble_of(u, 10) + nibble_of(u, 9) + nibble_of(u, 8) + nibble_of(u, 7) + nibble_of(u, 6) + nibble_of(u, 5) + nibble_of(u, 4) + nibble_of(u, 3) + nibble_of(u, 2) + nibble_of(u, 1) + nibble_of(u, 0)
}

/// A 128-bit UUID in its canonical hyphenated form.
#[verifier::rlimit(100)]
pub fn uuid_string(u: u128) -> (r: String)
    ensures
        r@ == uuid_of(u),
{
    proof {
        assert(forall|k: u128| (u >> k) & 0xf < 16) by (bit_vector);
    }
    let mut s = String::new();
    s.append(hex_digit_str(((u >> 124) & 0xf) as u8));
    s.append(hex_digit_str(((u >> 120) & 0xf) as u8));
    s.append(hex_digit_str(((u >> 116) & 0xf) as u8));
    s.append(hex_digit_str(((u >> 112) & 0xf) as u8));
    s.append(hex_digit_str(((u >> 108) & 0xf) as u8));
    s.append(hex_digit_str(((u >> 104) & 0xf) as u8));
    s.append(hex_digit_str(((u >> 100) & 0xf) as u8));
    s.append(hex_digit_str(((u >> 96) & 0xf) as u8));
    s.append("-");
    s.append(hex_digit_str(((u >> 92) & 0xf) as u8));
    s.append(hex_digit_str(((u >> 88) & 0xf) as u8));
    s.append(hex_digit_str(((u >> 84) & 0xf) as u8));
    s.append(hex_digit_str(((u >> 80) & 0xf) as u8));
    s.append("-");
    s.append(hex_digit_str(((u >> 76) & 0xf) as u8));
    s.append(hex_digit_str(((u >> 72) & 0xf) as u8));
    s.append(hex_digit_str(((u >> 68) & 0xf) as u8));
    s.append(hex_digit_str(((u >> 64) & 0xf) as u8));
    s.append("-");
    s.append(hex_digit_str(((u >> 60) & 0xf) as u8));
    s.append(hex_digit_str(((u >> 56) & 0xf) as u8));
    s.append(hex_digit_str(((u >> 52) & 0xf) as u8));
    s.append(hex_digit_str(((u >> 48) & 0xf) as u8));
    s.append("-");
    s.append(hex_digit_str(((u >> 44) & 0xf) as u8));
    s.append(hex_digit_str(((u >> 40) & 0xf) as u8));
    s.append(hex_digit_str(((u >> 36) & 0xf) as u8));
    s.append(hex_digit_str(((u >> 32) & 0xf) as u8));
    s.append(hex_digit_str(((u >> 28) & 0xf) as u8));
    s.append(hex_digit_str(((u >> 24) & 0xf) as u8));
    s.append(hex_digit_str(((u >> 20) & 0xf) as u8));
    s.append(hex_digit_str(((u >> 16) & 0xf) as u8));
    s.append(hex_digit_str(((u >> 12) & 0xf) as u8));
    s.append(hex_digit_str(((u >> 8) & 0xf) as u8));
    s.append(hex_digit_str(((u >> 4) & 0xf) as u8));
    s.append(hex_digit_str(((u >> 0) & 0xf) as u8));
    proof {
        assert(s@ =~= uuid_of(u));
    }
    s
}

/// The decimal digit of a value below ten.
pub open spec fn dec_digit(n: int) -> Seq<char> {
    if n == 0 { "0"@ }
    else if n == 1 { "1"@ }
    else if n == 2 { "2"@ }
    else if n == 3 { "3"@ }
    else if n == 4 { "4"@ }
    else if n == 5 { "5"@ }
    else if n == 6 { "6"@ }
    else if n == 7 { "7"@ }
    else if n == 8 { "8"@ }
    else { "9"@ }
}

/// The decimal digit of a value below ten.
fn dec_digit_str(n: u8) -> (r: &'static str)
    requires
        n < 10,
    ensures
        r@ == dec_digit(n as int),
{
    if n == 0 { "0" }
    else if n == 1 { "1" }
    else if n == 2 { "2" }
    else if n == 3 { "3" }
    else if n == 4 { "4" }
    else if n == 5 { "5" }
    else if n == 6 { "6" }
    else if n == 7 { "7" }
    else if n == 8 { "8" }
    else { "9" }
}

/// A non-negative value in decimal, most significant digit first, with no
/// leading zeros.
pub open spec fn dec_of(n: int) -> Seq<char>
    decreases n,
{
    if n < 10 {
        dec_digit(n)
    } else {
        dec_of(n / 10) + dec_digit(n % 10)
    }
}

/// A value in decimal, most significant digit first, with no leading zeros.
pub fn decimal(n: usize) -> (r: String)
    ensures
        r@ == dec_of(n as int),
    decreases n,
{
    if n < 10 {
        dec_digit_str(n as u8).to_owned()
    } else {
        let mut s = decimal(n / 10);
        s.append(dec_digit_str((n % 10) as u8));
        s
    }
}

} // verus!
