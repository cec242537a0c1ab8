use vstd::prelude::*;

use crate::errors::Error;
use crate::hexfmt::{all_hex, hex_char, hex_char_str, hex_val, is_hex_digit};

verus! {

/// Metadata of one fetched outer transaction, whether or not it
/// carries a bundle.
pub struct BundleTxMetadata {
    pub block_number: String,
    pub block_hash: String,
    pub calldata: String,
    pub to: String,
}

/// The raw optional fields of a fetched transaction, as the gateway
/// reports them.
pub struct TxFields {
    pub block_hash: Option<String>,
    pub block_number: Option<String>,
    pub calldata: Option<String>,
    pub to: Option<String>,
}

/// The value of a string of hex digits, most significant first.
pub open spec fn hex_num(s: Seq<char>) -> nat
    decreases s.len(),
{
    if s.len() == 0 {
        0
    } else {
        (16 * hex_num(s.drop_last()) + hex_val(s.last())) as nat
    }
}

/// The decimal digits of a value, most significant first.
pub open spec fn dec_chars(v: nat) -> Seq<char>
    decreases v,
{
    if v < 10 {
        seq![hex_char(v as u8)]
    } else {
        dec_chars(v / 10).push(hex_char((v % 10) as u8))
    }
}

/// The number a gateway block-number string stands for: the value of
/// its `0x`-prefixed hex digits; anything else, or a value beyond 64
/// bits, counts as zero.
pub open spec fn block_number_value(s: Seq<char>) -> nat {
    if s.len() >= 2 && s[0] == '0' && s[1] == 'x' {
        let d = s.skip(2);
        if d.len() > 0 && all_hex(d) && hex_num(d) <= u64::MAX {
            hex_num(d)
        } else {
            0
        }
    } else {
        0
    }
}

/// A prefix of a hex-digit string never exceeds the whole.
proof fn lemma_hex_num_prefix_le(s: Seq<char>, i: int)
    requires
        0 <= i <= s.len(),
    ensures
        hex_num(s.take(i)) <= hex_num(s),
    decreases s.len() - i,
{
    if i < s.len() {
        assert(s.take(i + 1).drop_last() =~= s.take(i));
        assert(s.take(i + 1).last() == s[i]);
        assert(hex_num(s.take(i)) <= hex_num(s.take(i + 1)));
        lemma_hex_num_prefix_le(s, i + 1);
    } else {
        assert(s.take(i) =~= s);
    }
}

/// The numeric value of one hex digit.
fn hex_val_char(c: char) -> (v: u8)
    requires
        is_hex_digit(c),
    ensures
        v == hex_val(c),
{
    let u = c as u32;
    if u >= 'a' as u32 && u <= 'f' as u32 {
        (u - 'a' as u32 + 10) as u8
    } else if u >= 'A' as u32 && u <= 'F' as u32 {
        (u - 'A' as u32 + 10) as u8
    } else {
        (u - '0' as u32) as u8
    }
}

/// Reads a string of hex digits as a 64-bit value; an empty or
/// non-hex string, or one whose value needs more than 64 bits, reads
/// as zero.
fn parse_hex_u64(d: &str) -> (v: u64)
    ensures
        v as nat == (if d@.len() > 0 && all_hex(d@) && hex_num(d@) <= u64::MAX {
            hex_num(d@)
        } else {
            0
        }),
{
    let n = d.unicode_len();
    if n == 0 {
        return 0;
    }
    let mut v: u64 = 0;
    let mut i: usize = 0;
    proof {
        assert(d@.take(0) =~= Seq::<char>::empty());
    }
    while i < n
        invariant
            0 <= i <= n,
            n == d@.len(),
            forall|j: int| 0 <= j < i ==> is_hex_digit(#[trigger] d@[j]),
            v as nat == hex_num(d@.take(i as int)),
        decreases n - i,
    {
        let c = d.get_char(i);
        if !(c as u32 >= '0' as u32 && c as u32 <= '9' as u32 || c as u32 >= 'a' as u32 && c
            as u32 <= 'f' as u32 || c as u32 >= 'A' as u32 && c as u32 <= 'F' as u32) {
            return 0;
        }
        let dv = hex_val_char(c);
        proof {
            assert(d@.take(i + 1).drop_last() =~= d@.take(i as int));
            assert(d@.take(i + 1).last() == d@[i as int]);
        }
        if v > (u64::MAX - dv as u64) / 16 {
            proof {
                assert(16 * (v as nat) + hex_val(c) > u64::MAX);
                lemma_hex_num_prefix_le(d@, i + 1);
            }
            return 0;
        }
        v = v * 16 + dv as u64;
        i = i + 1;
    }
    proof {
        assert(d@.take(n as int) =~= d@);
    }
    v
}

/// The decimal characters of reversed digit values: the digits were
/// collected least significant first.
pub open spec fn rev_chars(ds: Seq<u8>) -> Seq<char> {
    Seq::new(ds.len(), |j: int| hex_char(ds[ds.len() - 1 - j]))
}

/// Renders a 64-bit value in decimal.
fn u64_decimal(v: u64) -> (r: String)
    ensures
        r@ == dec_chars(v as nat),
{
    let mut digits: Vec<u8> = Vec::new();
    let mut x = v;
    proof {
        assert(rev_chars(digits@) =~= Seq::<char>::empty());
        Seq::add_empty_right(dec_chars(v as nat), rev_chars(digits@));
    }
    while x >= 10
        invariant
            dec_chars(v as nat) == dec_chars(x as nat) + rev_chars(digits@),
            forall|j: int| 0 <= j < digits@.len() ==> #[trigger] digits@[j] < 10,
        decreases x,
    {
        let d = (x % 10) as u8;
        proof {
            assert(rev_chars(digits@.push(d)) =~= seq![hex_char(d)] + rev_chars(digits@));
            assert(dec_chars(x as nat / 10).push(hex_char(d)) + rev_chars(digits@) =~= dec_chars(
                x as nat / 10,
            ) + rev_chars(digits@.push(d)));
        }
        digits.push(d);
        x = x / 10;
    }
    let d = x as u8;
    proof {
        assert(rev_chars(digits@.push(d)) =~= seq![hex_char(d)] + rev_chars(digits@));
        assert(dec_chars(x as nat) + rev_chars(digits@) =~= rev_chars(digits@.push(d)));
    }
    digits.push(d);
    let mut out = String::new();
    let mut i: usize = digits.len();
    while i > 0
        invariant
            i <= digits.len(),
            forall|j: int| 0 <= j < digits@.len() ==> #[trigger] digits@[j] < 10,
            out@ =~= rev_chars(digits@).subrange(0, digits@.len() - i),
        decreases i,
    {
        i = i - 1;
        out.append(hex_char_str(digits[i]));
        proof {
            assert(out@ =~= rev_chars(digits@).subrange(0, digits@.len() - i));
        }
    }
    proof {
        assert(rev_chars(digits@).subrange(0, digits@.len() as int) =~= rev_chars(digits@));
    }
    out
}

/// Renders a gateway block-number string as a decimal string.
pub fn block_number_decimal(s: &str) -> (r: String)
    ensures
        r@ == dec_chars(block_number_value(s@)),
{
    let n = s.unicode_len();
    if n >= 2 && s.get_char(0) == '0' && s.get_char(1) == 'x' {
        let d = s.substring_char(2, n);
        proof {
            assert(d@ =~= s@.skip(2));
        }
        let value = parse_hex_u64(d);
        u64_decimal(value)
    } else {
        u64_decimal(0)
    }
}

/// Builds the metadata of a fetched transaction, with the gateway's
/// defaults for absent fields, or reports that the hash did not
/// resolve: an absent transaction is `NotFound`, and nothing of it is
/// decoded.
pub fn metadata_or_not_found(fetched: Option<TxFields>) -> (r: Result<BundleTxMetadata, Error>)
    ensures
        fetched is None ==> r == Err::<BundleTxMetadata, Error>(Error::NotFound),
        fetched matches Some(f) ==> (r matches Ok(m) && m.block_hash@ == (match f.block_hash {
            Some(h) => h@,
            None => "0x"@,
        }) && m.calldata@ == (match f.calldata {
            Some(c) => c@,
            None => "0x"@,
        }) && m.to@ == (match f.to {
            Some(t) => t@,
            None => "0x0000000000000000000000000000000000000000"@,
        }) && m.block_number@ == dec_chars(
            block_number_value(
                match f.block_number {
                    Some(b) => b@,
                    None => "0x"@,
                },
            ),
        )),
{
    match fetched {
        None => Err(Error::NotFound),
        Some(f) => {
            let block_hash = match f.block_hash {
                Some(h) => h,
                None => String::from_str("0x"),
            };
            let calldata = match f.calldata {
                Some(c) => c,
                None => String::from_str("0x"),
            };
            let to = match f.to {
                Some(t) => t,
                None => String::from_str("0x0000000000000000000000000000000000000000"),
            };
            let block_number = match f.block_number {
                Some(b) => block_number_decimal(b.as_str()),
                None => block_number_decimal("0x"),
            };
            Ok(BundleTxMetadata { block_number, block_hash, calldata, to })
        },
    }
}

} // verus!
