use vstd::prelude::*;

use crate::hexfmt::{hex_char, hex_char_str, is_lower_hex_digit};

verus! {

/// Relies on rand::random_range: a value drawn from the given
/// non-empty range; on `0..16` every outcome is below sixteen.
#[verifier::external_body]
fn random_hex_value() -> (r: u8)
    ensures
        r < 16,
{
    rand::random_range(0u8..16u8)
}

/// Produces synthetic calldata: a `0x`-prefixed string of total
/// length `max(length, 10)` whose remaining characters are random
/// lower-case hex digits.
pub fn generate_random_calldata(length: usize) -> (r: String)
    ensures
        r@.len() == (if length >= 10 {
            length
        } else {
            10
        }),
        r@[0] == '0' && r@[1] == 'x',
        forall|i: int| 2 <= i < r@.len() ==> is_lower_hex_digit(#[trigger] r@[i]),
{
    let actual_length = if length >= 10 {
        length
    } else {
        10
    };
    let mut calldata = String::from_str("0x");
    proof {
        reveal_strlit("0x");
    }
    let mut i: usize = 2;
    while i < actual_length
        invariant
            2 <= i <= actual_length,
            calldata@.len() == i,
            calldata@[0] == '0' && calldata@[1] == 'x',
            forall|j: int| 2 <= j < i ==> is_lower_hex_digit(#[trigger] calldata@[j]),
        decreases actual_length - i,
    {
        let v = random_hex_value();
        let d = hex_char_str(v);
        proof {
            assert(is_lower_hex_digit(hex_char(v)));
        }
        calldata.append(d);
        i = i + 1;
    }
    calldata
}

} // verus!
