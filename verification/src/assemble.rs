use vstd::prelude::*;

use crate::codec::{bundle_bytes, encode_bundle};
use crate::compress::{compress, rle_encode};
use crate::envelope::{models_of, BundleData, SignedEnvelope, EnvelopeModel};
use crate::errors::Error;

verus! {

/// The envelopes of the successful signing results, in their original
/// order; failed results are dropped and shift nothing.
pub open spec fn ok_envelopes(rs: Seq<Result<SignedEnvelope, Error>>) -> Seq<EnvelopeModel>
    decreases rs.len(),
{
    if rs.len() == 0 {
        Seq::empty()
    } else {
        match rs[0] {
            Ok(e) => seq![e@] + ok_envelopes(rs.skip(1)),
            Err(_) => ok_envelopes(rs.skip(1)),
        }
    }
}

/// How many signing results failed.
pub open spec fn failed_count(rs: Seq<Result<SignedEnvelope, Error>>) -> nat
    decreases rs.len(),
{
    if rs.len() == 0 {
        0
    } else {
        (if rs[0] is Err {
            1nat
        } else {
            0nat
        }) + failed_count(rs.skip(1))
    }
}

/// Of `K` signing results with `M` failures, exactly `K - M`
/// envelopes enter the bundle.
pub proof fn lemma_assembled_len(rs: Seq<Result<SignedEnvelope, Error>>)
    ensures
        ok_envelopes(rs).len() + failed_count(rs) == rs.len(),
    decreases rs.len(),
{
    if rs.len() > 0 {
        lemma_assembled_len(rs.skip(1));
    }
}

/// Collects the envelopes whose signing succeeded, in input order,
/// into a bundle; failures shrink the bundle and raise no error.
pub fn assemble_bundle(results: Vec<Result<SignedEnvelope, Error>>) -> (b: BundleData)
    ensures
        b@ == ok_envelopes(results@),
{
    let mut rs = results;
    let mut out: Vec<SignedEnvelope> = Vec::new();
    proof {
        Seq::add_empty_left(models_of(out@), ok_envelopes(rs@));
    }
    while rs.len() > 0
        invariant
            ok_envelopes(results@) == models_of(out@) + ok_envelopes(rs@),
        decreases rs.len(),
    {
        let ghost rs0 = rs@;
        let r = rs.remove(0);
        proof {
            assert(rs@ =~= rs0.skip(1));
            assert(rs0[0] == r);
        }
        match r {
            Ok(e) => {
                proof {
                    assert(models_of(out@.push(e)) =~= models_of(out@) + seq![e@]);
                    vstd::seq_lib::lemma_concat_associative(
                        models_of(out@),
                        seq![e@],
                        ok_envelopes(rs@),
                    );
                }
                out.push(e);
            },
            Err(_) => {},
        }
    }
    proof {
        Seq::add_empty_right(models_of(out@), ok_envelopes(rs@));
    }
    let b = BundleData { envelopes: out };
    b
}

/// Serializes and compresses a bundle into the calldata bytes of one
/// outer transaction.
pub fn pack_bundle(b: &BundleData) -> (r: Vec<u8>)
    ensures
        r@ == rle_encode(bundle_bytes(b@)),
{
    let encoded = encode_bundle(b);
    compress(&encoded)
}

} // verus!
