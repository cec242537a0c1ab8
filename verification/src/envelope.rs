use vstd::prelude::*;

use crate::errors::Error;
use crate::hexfmt::{all_hex, hex_bytes, is_hex_digit};

verus! {

/// The fixed network identifier every leaf envelope carries.
pub const CHAIN_ID: u64 = 9496;

/// One leaf transaction request: an optional target address and an
/// optional payload. It exists only to produce a signed envelope.
pub struct LeafSpec {
    pub target: Option<String>,
    pub data: Option<Vec<u8>>,
}

/// The canonical zero-fee fields of a leaf envelope, fixed before the
/// envelope is signed.
pub struct EnvelopeDraft {
    pub nonce: u64,
    pub gas_limit: u64,
    pub gas_price: u64,
    pub target: Vec<u8>,
    pub value: u64,
    pub chain_id: u64,
    pub payload: Vec<u8>,
}

/// A signed leaf envelope, immutable once produced.
pub struct SignedEnvelope {
    pub nonce: u64,
    pub gas_limit: u64,
    pub gas_price: u64,
    pub target: Vec<u8>,
    pub value: u64,
    pub chain_id: u64,
    pub payload: Vec<u8>,
    pub signature: Vec<u8>,
}

/// The mathematical content of a signed envelope.
pub ghost struct EnvelopeModel {
    pub nonce: u64,
    pub gas_limit: u64,
    pub gas_price: u64,
    pub target: Seq<u8>,
    pub value: u64,
    pub chain_id: u64,
    pub payload: Seq<u8>,
    pub signature: Seq<u8>,
}

impl EnvelopeModel {
    /// A well-formed envelope carries a twenty-byte target address and
    /// payload and signature lengths a machine can hold.
    pub open spec fn wf(self) -> bool {
        self.target.len() == 20 && self.payload.len() <= u64::MAX && self.signature.len()
            <= u64::MAX
    }
}

impl View for SignedEnvelope {
    type V = EnvelopeModel;

    open spec fn view(&self) -> EnvelopeModel {
        EnvelopeModel {
            nonce: self.nonce,
            gas_limit: self.gas_limit,
            gas_price: self.gas_price,
            target: self.target@,
            value: self.value,
            chain_id: self.chain_id,
            payload: self.payload@,
            signature: self.signature@,
        }
    }
}

/// An ordered bundle of signed leaf envelopes.
pub struct BundleData {
    pub envelopes: Vec<SignedEnvelope>,
}

/// The models of a sequence of signed envelopes, in order.
pub open spec fn models_of(s: Seq<SignedEnvelope>) -> Seq<EnvelopeModel> {
    s.map(|i: int, e: SignedEnvelope| e@)
}

impl View for BundleData {
    type V = Seq<EnvelopeModel>;

    open spec fn view(&self) -> Seq<EnvelopeModel> {
        models_of(self.envelopes@)
    }
}

/// The all-zero twenty-byte address.
pub open spec fn zero_address() -> Seq<u8> {
    Seq::new(20, |i: int| 0u8)
}

/// `s` with one leading `0x` removed, if it has one.
pub open spec fn addr_digits(s: Seq<char>) -> Seq<char> {
    if s.len() >= 2 && s[0] == '0' && s[1] == 'x' {
        s.skip(2)
    } else {
        s
    }
}

/// The address bytes a target string resolves to: forty hex digits,
/// with an optional `0x` prefix; anything else resolves to the zero
/// address, as does an absent target.
pub open spec fn target_address(t: Option<Seq<char>>) -> Seq<u8> {
    match t {
        Option::None => zero_address(),
        Option::Some(s) => {
            let d = addr_digits(s);
            if d.len() == 40 && all_hex(d) {
                hex_bytes(d)
            } else {
                zero_address()
            }
        },
    }
}

/// A well-shaped signing credential: sixty-four hex digits, with an
/// optional `0x` prefix.
pub open spec fn valid_key_shape(s: Seq<char>) -> bool {
    let d = addr_digits(s);
    d.len() == 64 && all_hex(d)
}

/// Whether `c` is a hexadecimal digit.
fn is_hex_digit_char(c: char) -> (b: bool)
    ensures
        b == is_hex_digit(c),
{
    let u = c as u32;
    (u >= '0' as u32 && u <= '9' as u32) || (u >= 'a' as u32 && u <= 'f' as u32) || (u >= 'A'
        as u32 && u <= 'F' as u32)
}

/// `s` with one leading `0x` removed, if it has one.
fn strip_one_hex_prefix(s: &str) -> (r: &str)
    ensures
        r@ == addr_digits(s@),
{
    let n = s.unicode_len();
    if n >= 2 && s.get_char(0) == '0' && s.get_char(1) == 'x' {
        let u = s.substring_char(2, n);
        proof {
            assert(u@ =~= s@.skip(2));
        }
        u
    } else {
        s
    }
}

/// Whether every character of `s` is a hex digit.
fn all_hex_chars(s: &str) -> (b: bool)
    ensures
        b == all_hex(s@),
{
    let n = s.unicode_len();
    let mut i: usize = 0;
    while i < n
        invariant
            i <= n,
            n == s@.len(),
            forall|j: int| 0 <= j < i ==> is_hex_digit(s@[j]),
        decreases n - i,
    {
        if !is_hex_digit_char(s.get_char(i)) {
            return false;
        }
        i = i + 1;
    }
    true
}

/// The twenty-byte zero address.
fn zero_address_bytes() -> (r: Vec<u8>)
    ensures
        r@ == zero_address(),
{
    let mut z: Vec<u8> = Vec::new();
    let mut i: usize = 0;
    while i < 20
        invariant
            i <= 20,
            z@ =~= Seq::new(i as nat, |j: int| 0u8),
        decreases 20 - i,
    {
        z.push(0u8);
        i = i + 1;
    }
    proof {
        assert(z@ =~= zero_address());
    }
    z
}

/// Resolves an optional target string to twenty address bytes.
fn resolve_target(t: &Option<String>) -> (r: Vec<u8>)
    ensures
        r@ == target_address(t.deep_view()),
        r@.len() == 20,
{
    match t {
        Option::None => zero_address_bytes(),
        Option::Some(s) => {
            let d = strip_one_hex_prefix(s.as_str());
            if d.unicode_len() == 40 && all_hex_chars(d) {
                match crate::hexfmt::decode_hex(d) {
                    Option::Some(v) => {
                        proof {
                            assert(v@ == hex_bytes(addr_digits(s@)));
                        }
                        v
                    },
                    Option::None => {
                        // forty hex digits always decode
                        proof {
                            assert(false);
                        }
                        zero_address_bytes()
                    },
                }
            } else {
                zero_address_bytes()
            }
        },
    }
}

/// Whether a credential string has the shape of a signing key.
fn key_shape_ok(s: &str) -> (b: bool)
    ensures
        b == valid_key_shape(s@),
{
    let d = strip_one_hex_prefix(s);
    d.unicode_len() == 64 && all_hex_chars(d)
}

/// Builds the canonical zero-fee draft of one leaf envelope: the
/// sentinel fields are zero, the chain id is the fixed network
/// constant, the target is the resolved address or the zero address,
/// and the payload is the leaf's data. Fails when the credential is
/// absent or ill-shaped, or when the payload is absent.
pub fn create_envelope(private_key: Option<&str>, leaf: LeafSpec) -> (r: Result<
    EnvelopeDraft,
    Error,
>)
    ensures
        private_key is None ==> r matches Err(Error::CredentialRequired),
        (private_key matches Some(k) && !valid_key_shape(k@)) ==> r matches Err(
            Error::CredentialInvalid,
        ),
        (private_key matches Some(k) && valid_key_shape(k@) && leaf.data is None) ==> r matches Err(
            Error::DataRequired,
        ),
        (private_key matches Some(k) && valid_key_shape(k@) && leaf.data is Some) ==> (r matches Ok(
            d,
        ) && d.nonce == 0 && d.gas_limit == 0 && d.gas_price == 0 && d.value == 0 && d.chain_id
            == CHAIN_ID && d.payload@ == leaf.data.unwrap()@ && d.target@ == target_address(
            leaf.target.deep_view(),
        ) && d.target@.len() == 20),
{
    match private_key {
        Option::None => Err(Error::CredentialRequired),
        Option::Some(k) => {
            if !key_shape_ok(k) {
                Err(Error::CredentialInvalid)
            } else {
                match leaf.data {
                    Option::None => Err(Error::DataRequired),
                    Option::Some(payload) => {
                        let target = resolve_target(&leaf.target);
                        Ok(
                            EnvelopeDraft {
                                nonce: 0,
                                gas_limit: 0,
                                gas_price: 0,
                                target,
                                value: 0,
                                chain_id: CHAIN_ID,
                                payload,
                            },
                        )
                    },
                }
            }
        },
    }
}

/// Attaches a signature to a draft, yielding the signed envelope.
pub fn finish_envelope(draft: EnvelopeDraft, signature: Vec<u8>) -> (e: SignedEnvelope)
    ensures
        e@ == (EnvelopeModel {
            nonce: draft.nonce,
            gas_limit: draft.gas_limit,
            gas_price: draft.gas_price,
            target: draft.target@,
            value: draft.value,
            chain_id: draft.chain_id,
            payload: draft.payload@,
            signature: signature@,
        }),
{
    SignedEnvelope {
        nonce: draft.nonce,
        gas_limit: draft.gas_limit,
        gas_price: draft.gas_price,
        target: draft.target,
        value: draft.value,
        chain_id: draft.chain_id,
        payload: draft.payload,
        signature,
    }
}

} // verus!
