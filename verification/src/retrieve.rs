use vstd::prelude::*;

use crate::codec::{bundle_of_bytes, decode_bundle};
use crate::compress::{decompress, rle_decode};
use crate::envelope::{BundleData, EnvelopeModel};
use crate::errors::Error;
use crate::hexfmt::{all_hex, decode_hex, hex_bytes, strip0x, strip_hex_prefix};
use crate::validate::{bundle_ok, validate_bundle, violation_error};

verus! {

/// What retrieving a bundle from calldata must yield: the hex string
/// (with any `0x` prefixes removed) is decoded to bytes, decompressed,
/// decoded and validated; the first step that fails names the error.
pub open spec fn retrieve_outcome(s: Seq<char>) -> Result<Seq<EnvelopeModel>, Error> {
    let d = strip0x(s);
    if !(d.len() % 2 == 0 && all_hex(d)) {
        Err(Error::DecodeError)
    } else {
        match rle_decode(hex_bytes(d)) {
            None => Err(Error::CompressionError),
            Some(raw) => match bundle_of_bytes(raw) {
                None => Err(Error::DecodeError),
                Some(es) => if bundle_ok(es) {
                    Ok(es)
                } else {
                    Err(violation_error(es))
                },
            },
        }
    }
}

/// Recovers a bundle from the calldata of an outer transaction:
/// strips the hex prefix, decodes the hex, decompresses, decodes and
/// validates. Malformed or invalid input earns a typed error, never a
/// crash.
pub fn retrieve_bundle_data(calldata: &str) -> (r: Result<BundleData, Error>)
    ensures
        match r {
            Ok(b) => retrieve_outcome(calldata@) == Ok::<Seq<EnvelopeModel>, Error>(b@),
            Err(e) => retrieve_outcome(calldata@) == Err::<Seq<EnvelopeModel>, Error>(e),
        },
{
    let stripped = strip_hex_prefix(calldata);
    let bytes = match decode_hex(stripped) {
        Some(v) => v,
        None => {
            return Err(Error::DecodeError);
        },
    };
    let raw = match decompress(&bytes) {
        Ok(v) => v,
        Err(_) => {
            return Err(Error::CompressionError);
        },
    };
    let bundle = match decode_bundle(&raw) {
        Ok(b) => b,
        Err(_) => {
            return Err(Error::DecodeError);
        },
    };
    match validate_bundle(&bundle) {
        Ok(_) => Ok(bundle),
        Err(e) => Err(e),
    }
}

} // verus!
