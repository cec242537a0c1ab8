use vstd::prelude::*;

use crate::envelope::{BundleData, EnvelopeModel};
use crate::errors::{Error, InvariantField};

verus! {

/// The sentinel invariant of one envelope inside a bundle: zero
/// nonce, gas limit and gas price.
pub open spec fn sentinel_ok(e: EnvelopeModel) -> bool {
    e.nonce == 0 && e.gas_limit == 0 && e.gas_price == 0
}

/// Every envelope of the bundle keeps the sentinel invariant.
pub open spec fn bundle_ok(s: Seq<EnvelopeModel>) -> bool {
    forall|i: int| 0 <= i < s.len() ==> sentinel_ok(#[trigger] s[i])
}

/// The first sentinel field an envelope breaks.
pub open spec fn first_bad_field(e: EnvelopeModel) -> InvariantField {
    if e.nonce != 0 {
        InvariantField::Nonce
    } else if e.gas_limit != 0 {
        InvariantField::GasLimit
    } else {
        InvariantField::GasPrice
    }
}

/// The index of the first envelope that breaks the invariant.
pub open spec fn first_bad_index(s: Seq<EnvelopeModel>) -> int
    decreases s.len(),
{
    if s.len() == 0 {
        0
    } else if !sentinel_ok(s[0]) {
        0
    } else {
        1 + first_bad_index(s.skip(1))
    }
}

/// The validation error a bundle that breaks the invariant earns.
pub open spec fn violation_error(s: Seq<EnvelopeModel>) -> Error {
    Error::BundleInvariantViolation {
        index: first_bad_index(s) as usize,
        field: first_bad_field(s[first_bad_index(s)]),
    }
}

/// A sound prefix and a violation at `i` pin the first bad index.
proof fn lemma_first_bad_index(s: Seq<EnvelopeModel>, i: int)
    requires
        0 <= i < s.len(),
        forall|j: int| 0 <= j < i ==> sentinel_ok(#[trigger] s[j]),
        !sentinel_ok(s[i]),
    ensures
        first_bad_index(s) == i,
    decreases i,
{
    if i > 0 {
        assert forall|j: int| 0 <= j < i - 1 implies sentinel_ok(#[trigger] s.skip(1)[j]) by {
            assert(sentinel_ok(s[j + 1]));
        }
        assert(s.skip(1)[i - 1] == s[i]);
        lemma_first_bad_index(s.skip(1), i - 1);
    }
}

/// Accepts a bundle exactly when every envelope keeps the zero
/// sentinels; otherwise reports the first offending envelope's index
/// and the first field it breaks.
pub fn validate_bundle(b: &BundleData) -> (r: Result<(), Error>)
    ensures
        r is Ok <==> bundle_ok(b@),
        !bundle_ok(b@) ==> r == Err::<(), Error>(violation_error(b@)),
{
    let mut i: usize = 0;
    while i < b.envelopes.len()
        invariant
            i <= b.envelopes.len(),
            b@.len() == b.envelopes.len(),
            forall|j: int| 0 <= j < i ==> sentinel_ok(#[trigger] b@[j]),
        decreases b.envelopes.len() - i,
    {
        let e = &b.envelopes[i];
        proof {
            assert(b@[i as int] == b.envelopes@[i as int]@);
        }
        if e.nonce != 0 || e.gas_limit != 0 || e.gas_price != 0 {
            proof {
                lemma_first_bad_index(b@, i as int);
            }
            let field = if e.nonce != 0 {
                InvariantField::Nonce
            } else if e.gas_limit != 0 {
                InvariantField::GasLimit
            } else {
                InvariantField::GasPrice
            };
            return Err(Error::BundleInvariantViolation { index: i, field });
        }
        i = i + 1;
    }
    Ok(())
}

} // verus!
