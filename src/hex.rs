//! Reading the byte value to cut, written in hexadecimal.
use vstd::prelude::*;

verus! {

#[verifier::external_type_specification]
#[verifier::external_body]
pub struct ExParseIntError(std::num::ParseIntError);

/// The value of one hexadecimal digit, upper or lower case; `-1` for any
/// other character.
pub open spec fn hex_digit_value(c: char) -> int {
    let u = c as u32;
    if '0' as u32 <= u <= '9' as u32 {
        u - '0' as u32
    } else if 'a' as u32 <= u <= 'f' as u32 {
        u - 'a' as u32 + 10
    } else if 'A' as u32 <= u <= 'F' as u32 {
        u - 'A' as u32 + 10
    } else {
        -1
    }
}

/// The number that a string of hexadecimal digits denotes.
pub open spec fn hex_digits_value(d: Seq<char>) -> int
    decreases d.len(),
{
    if d.len() == 0 {
        0
    } else {
        hex_digits_value(d.drop_last()) * 16 + hex_digit_value(d.last())
    }
}

/// The digits of an unsigned number's text: all of it after one leading `+`.
pub open spec fn unsigned_digits(s: Seq<char>) -> Seq<char> {
    if s.len() > 0 && s[0] == '+' {
        s.drop_first()
    } else {
        s
    }
}

/// `s` is a hexadecimal number, with an optional leading `+`, that fits a byte.
pub open spec fn is_hex_byte(s: Seq<char>) -> bool {
    let d = unsigned_digits(s);
    &&& d.len() > 0
    &&& forall|i: int| 0 <= i < d.len() ==> hex_digit_value(#[trigger] d[i]) >= 0
    &&& hex_digits_value(d) < 256
}

/// Relies on `u8::from_str_radix` with radix 16: it accepts an optional `+`
/// followed by one or more digits `0-9`, `a-f`, `A-F` whose value fits a
/// `u8`, and returns that value; any other text is an error.
#[verifier::external_body]
fn u8_from_hex_str(s: &str) -> (r: Result<u8, std::num::ParseIntError>)
    ensures
        r is Ok <==> is_hex_byte(s@),
        r is Ok ==> r->Ok_0 == hex_digits_value(unsigned_digits(s@)),
{
    u8::from_str_radix(s, 16)
}

/// The byte value that `s` gives in hexadecimal (`"ff"` is 255).
pub fn parse_hex(s: &str) -> (r: Result<u8, std::num::ParseIntError>)
    ensures
        r is Ok <==> is_hex_byte(s@),
        r is Ok ==> r->Ok_0 == hex_digits_value(unsigned_digits(s@)),
{
    u8_from_hex_str(s)
}

} // verus!
