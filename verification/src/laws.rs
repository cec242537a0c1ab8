use vstd::prelude::*;

use crate::codec::{bundle_bytes, bundle_of_bytes, lemma_codec_round_trip};
use crate::compress::{lemma_rle_round_trip, rle_decode, rle_encode};
use crate::envelope::EnvelopeModel;

verus! {

/// A bundle that is encoded and compressed, then decompressed and
/// decoded, comes back field for field — for every bundle of
/// well-formed envelopes, the empty one included.
pub proof fn lemma_bundle_pipeline_round_trip(es: Seq<EnvelopeModel>)
    requires
        forall|i: int| 0 <= i < es.len() ==> (#[trigger] es[i]).wf(),
        es.len() <= u64::MAX,
    ensures
        rle_decode(rle_encode(bundle_bytes(es))) == Some(bundle_bytes(es)),
        bundle_of_bytes(bundle_bytes(es)) == Some(es),
        bundle_of_bytes(rle_decode(rle_encode(bundle_bytes(es))).unwrap()) == Some(es),
{
    lemma_rle_round_trip(bundle_bytes(es));
    lemma_codec_round_trip(es);
}

} // verus!
