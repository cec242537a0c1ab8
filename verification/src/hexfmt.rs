use vstd::prelude::*;

verus! {

/// A hexadecimal digit, upper or lower case.
pub open spec fn is_hex_digit(c: char) -> bool {
    ('0' <= c && c <= '9') || ('a' <= c && c <= 'f') || ('A' <= c && c <= 'F')
}

/// A lower-case hexadecimal digit.
pub open spec fn is_lower_hex_digit(c: char) -> bool {
    ('0' <= c && c <= '9') || ('a' <= c && c <= 'f')
}

/// The numeric value of a hexadecimal digit.
pub open spec fn hex_val(c: char) -> u8 {
    if '0' <= c && c <= '9' {
        (c as u32 - '0' as u32) as u8
    } else if 'a' <= c && c <= 'f' {
        (c as u32 - 'a' as u32 + 10) as u8
    } else {
        (c as u32 - 'A' as u32 + 10) as u8
    }
}

/// Every character of `s` is a hexadecimal digit.
pub open spec fn all_hex(s: Seq<char>) -> bool {
    forall|i: int| 0 <= i < s.len() ==> is_hex_digit(s[i])
}

/// The bytes spelled by a hex string: each consecutive pair of digits
/// gives one byte, high digit first.
pub open spec fn hex_bytes(s: Seq<char>) -> Seq<u8> {
    Seq::new((s.len() / 2) as nat, |i: int| (hex_val(s[2 * i]) * 16 + hex_val(s[2 * i + 1])) as u8)
}

/// `s` with every leading `0x` removed.
pub open spec fn strip0x(s: Seq<char>) -> Seq<char>
    decreases s.len(),
{
    if s.len() >= 2 && s[0] == '0' && s[1] == 'x' {
        strip0x(s.skip(2))
    } else {
        s
    }
}

/// The lower-case hexadecimal character for a value below sixteen.
pub open spec fn hex_char(v: u8) -> char {
    if v == 0 { '0' }
    else if v == 1 { '1' }
    else if v == 2 { '2' }
    else if v == 3 { '3' }
    else if v == 4 { '4' }
    else if v == 5 { '5' }
    else if v == 6 { '6' }
    else if v == 7 { '7' }
    else if v == 8 { '8' }
    else if v == 9 { '9' }
    else if v == 10 { 'a' }
    else if v == 11 { 'b' }
    else if v == 12 { 'c' }
    else if v == 13 { 'd' }
    else if v == 14 { 'e' }
    else { 'f' }
}

/// Strips every leading `0x` from a hex string.
pub fn strip_hex_prefix(s: &str) -> (r: &str)
    ensures
        r@ == strip0x(s@),
{
    let mut t: &str = s;
    loop
        invariant
            strip0x(t@) == strip0x(s@),
        decreases t@.len(),
    {
        let n = t.unicode_len();
        if n >= 2 && t.get_char(0) == '0' && t.get_char(1) == 'x' {
            let u = t.substring_char(2, n);
            proof {
                assert(u@ =~= t@.skip(2));
            }
            t = u;
        } else {
            proof {
                assert(strip0x(t@) == t@);
            }
            return t;
        }
    }
}

/// Relies on hex::decode: succeeds exactly on strings made of an even
/// number of hex digits, and then returns the bytes those digit pairs
/// spell; upper and lower case are both accepted.
#[verifier::external_body]
pub(crate) fn decode_hex(s: &str) -> (r: Option<Vec<u8>>)
    ensures
        match r {
            Some(v) => s@.len() % 2 == 0 && all_hex(s@) && v@ == hex_bytes(s@),
            None => !(s@.len() % 2 == 0 && all_hex(s@)),
        },
{
    hex::decode(s).ok()
}

/// A one-character string holding the lower-case hex digit of `v`.
pub fn hex_char_str(v: u8) -> (r: &'static str)
    requires
        v < 16,
    ensures
        r@.len() == 1,
        r@[0] == hex_char(v),
{
    if v == 0 { proof { reveal_strlit("0"); } "0" }
    else if v == 1 { proof { reveal_strlit("1"); } "1" }
    else if v == 2 { proof { reveal_strlit("2"); } "2" }
    else if v == 3 { proof { reveal_strlit("3"); } "3" }
    else if v == 4 { proof { reveal_strlit("4"); } "4" }
    else if v == 5 { proof { reveal_strlit("5"); } "5" }
    else if v == 6 { proof { reveal_strlit("6"); } "6" }
    else if v == 7 { proof { reveal_strlit("7"); } "7" }
    else if v == 8 { proof { reveal_strlit("8"); } "8" }
    else if v == 9 { proof { reveal_strlit("9"); } "9" }
    else if v == 10 { proof { reveal_strlit("a"); } "a" }
    else if v == 11 { proof { reveal_strlit("b"); } "b" }
    else if v == 12 { proof { reveal_strlit("c"); } "c" }
    else if v == 13 { proof { reveal_strlit("d"); } "d" }
    else if v == 14 { proof { reveal_strlit("e"); } "e" }
    else { proof { reveal_strlit("f"); } "f" }
}

} // verus!
