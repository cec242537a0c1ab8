use vstd::prelude::*;

use crate::envelope::{models_of, BundleData, EnvelopeModel, SignedEnvelope};
use crate::errors::Error;

verus! {

/// The eight little-endian bytes of a 64-bit value.
#[verifier::opaque]
pub open spec fn u64_le(v: u64) -> Seq<u8> {
    seq![
        (v % 256) as u8,
        ((v / 0x100) % 256) as u8,
        ((v / 0x10000) % 256) as u8,
        ((v / 0x1000000) % 256) as u8,
        ((v / 0x100000000) % 256) as u8,
        ((v / 0x10000000000) % 256) as u8,
        ((v / 0x1000000000000) % 256) as u8,
        ((v / 0x100000000000000) % 256) as u8,
    ]
}

/// The 64-bit value of eight little-endian bytes.
pub open spec fn le_u64(s: Seq<u8>) -> u64
    recommends
        s.len() == 8,
{
    (s[0] + s[1] * 0x100 + s[2] * 0x10000 + s[3] * 0x1000000 + s[4] * 0x100000000 + s[5]
        * 0x10000000000 + s[6] * 0x1000000000000 + s[7] * 0x100000000000000) as u64
}

/// A value's little-endian form has eight bytes.
pub proof fn lemma_u64_le_len(v: u64)
    ensures
        u64_le(v).len() == 8,
{
    reveal(u64_le);
}

/// Reading back the eight bytes of a value gives the value.
pub proof fn lemma_u64_le_round(v: u64)
    ensures
        le_u64(u64_le(v)) == v,
{
    reveal(u64_le);
    assert(v % 256 + (v / 0x100) % 256 * 0x100 + (v / 0x10000) % 256 * 0x10000 + (v / 0x1000000)
        % 256 * 0x1000000 + (v / 0x100000000) % 256 * 0x100000000 + (v / 0x10000000000) % 256
        * 0x10000000000 + (v / 0x1000000000000) % 256 * 0x1000000000000 + (v / 0x100000000000000)
        % 256 * 0x100000000000000 == v) by (bit_vector);
}

/// The wire record of one envelope: nonce, gas limit, gas price, the
/// twenty target bytes, value, chain id, then the length-prefixed
/// payload and the length-prefixed signature.
pub open spec fn envelope_bytes(e: EnvelopeModel) -> Seq<u8> {
    u64_le(e.nonce) + u64_le(e.gas_limit) + u64_le(e.gas_price) + e.target + u64_le(e.value)
        + u64_le(e.chain_id) + u64_le(e.payload.len() as u64) + e.payload + u64_le(
        e.signature.len() as u64,
    ) + e.signature
}

/// The concatenated records of a sequence of envelopes.
pub open spec fn envelopes_bytes(s: Seq<EnvelopeModel>) -> Seq<u8>
    decreases s.len(),
{
    if s.len() == 0 {
        Seq::empty()
    } else {
        envelope_bytes(s[0]) + envelopes_bytes(s.skip(1))
    }
}

/// The wire form of a bundle: the envelope count, then each record.
pub open spec fn bundle_bytes(s: Seq<EnvelopeModel>) -> Seq<u8> {
    u64_le(s.len() as u64) + envelopes_bytes(s)
}

/// A 64-bit value read at `pos`, with the position after it.
pub open spec fn parse_u64(s: Seq<u8>, pos: int) -> Option<(u64, int)> {
    if 0 <= pos && pos + 8 <= s.len() {
        Some((le_u64(s.subrange(pos, pos + 8)), pos + 8))
    } else {
        None
    }
}

/// `n` raw bytes read at `pos`, with the position after them.
pub open spec fn parse_bytes(s: Seq<u8>, pos: int, n: int) -> Option<(Seq<u8>, int)> {
    if 0 <= pos && 0 <= n && pos + n <= s.len() {
        Some((s.subrange(pos, pos + n), pos + n))
    } else {
        None
    }
}

/// One envelope record read at `pos`, with the position after it.
pub open spec fn parse_envelope(s: Seq<u8>, pos: int) -> Option<(EnvelopeModel, int)> {
    match parse_u64(s, pos) {
        None => None,
        Some((nonce, p1)) => match parse_u64(s, p1) {
            None => None,
            Some((gas_limit, p2)) => match parse_u64(s, p2) {
                None => None,
                Some((gas_price, p3)) => match parse_bytes(s, p3, 20) {
                    None => None,
                    Some((target, p4)) => match parse_u64(s, p4) {
                        None => None,
                        Some((value, p5)) => match parse_u64(s, p5) {
                            None => None,
                            Some((chain_id, p6)) => match parse_u64(s, p6) {
                                None => None,
                                Some((plen, p7)) => match parse_bytes(s, p7, plen as int) {
                                    None => None,
                                    Some((payload, p8)) => match parse_u64(s, p8) {
                                        None => None,
                                        Some((slen, p9)) => match parse_bytes(s, p9, slen as int) {
                                            None => None,
                                            Some((signature, p10)) => Some(
                                                (
                                                    EnvelopeModel {
                                                        nonce,
                                                        gas_limit,
                                                        gas_price,
                                                        target,
                                                        value,
                                                        chain_id,
                                                        payload,
                                                        signature,
                                                    },
                                                    p10,
                                                ),
                                            ),
                                        },
                                    },
                                },
                            },
                        },
                    },
                },
            },
        },
    }
}

/// `n` envelope records read at `pos`, with the position after them.
pub open spec fn parse_envelopes(s: Seq<u8>, pos: int, n: nat) -> Option<(Seq<EnvelopeModel>, int)>
    decreases n,
{
    if n == 0 {
        Some((Seq::empty(), pos))
    } else {
        match parse_envelope(s, pos) {
            None => None,
            Some((e, p)) => match parse_envelopes(s, p, (n - 1) as nat) {
                None => None,
                Some((rest, q)) => Some((seq![e] + rest, q)),
            },
        }
    }
}

/// The bundle a byte string decodes to, if it is exactly the wire form
/// of one.
pub open spec fn bundle_of_bytes(s: Seq<u8>) -> Option<Seq<EnvelopeModel>> {
    match parse_u64(s, 0) {
        None => None,
        Some((n, p)) => match parse_envelopes(s, p, n as nat) {
            None => None,
            Some((es, q)) => if q == s.len() {
                Some(es)
            } else {
                None
            },
        },
    }
}

/// Appends the eight little-endian bytes of `v`.
fn push_u64_le(out: &mut Vec<u8>, v: u64)
    ensures
        final(out)@ == old(out)@ + u64_le(v),
{
    out.push((v % 256) as u8);
    out.push(((v / 0x100) % 256) as u8);
    out.push(((v / 0x10000) % 256) as u8);
    out.push(((v / 0x1000000) % 256) as u8);
    out.push(((v / 0x100000000) % 256) as u8);
    out.push(((v / 0x10000000000) % 256) as u8);
    out.push(((v / 0x1000000000000) % 256) as u8);
    out.push(((v / 0x100000000000000) % 256) as u8);
    proof {
        reveal(u64_le);
        assert(out@ =~= old(out)@ + u64_le(v));
    }
}

/// Appends the bytes of `b`.
fn push_bytes(out: &mut Vec<u8>, b: &Vec<u8>)
    ensures
        final(out)@ == old(out)@ + b@,
{
    let ghost out0 = out@;
    let mut i: usize = 0;
    while i < b.len()
        invariant
            i <= b.len(),
            out@ =~= out0 + b@.subrange(0, i as int),
        decreases b.len() - i,
    {
        out.push(b[i]);
        i = i + 1;
    }
    proof {
        assert(out@ =~= out0 + b@);
    }
}

/// Appends the wire record of one envelope.
#[verifier::rlimit(50)]
fn push_envelope(out: &mut Vec<u8>, e: &SignedEnvelope)
    ensures
        final(out)@ == old(out)@ + envelope_bytes(e@),
{
    let ghost out0 = out@;
    push_u64_le(out, e.nonce);
    push_u64_le(out, e.gas_limit);
    push_u64_le(out, e.gas_price);
    push_bytes(out, &e.target);
    push_u64_le(out, e.value);
    push_u64_le(out, e.chain_id);
    push_u64_le(out, e.payload.len() as u64);
    push_bytes(out, &e.payload);
    push_u64_le(out, e.signature.len() as u64);
    push_bytes(out, &e.signature);
    proof {
        lemma_u64_le_len(e@.nonce);
        lemma_u64_le_len(e@.gas_limit);
        lemma_u64_le_len(e@.gas_price);
        lemma_u64_le_len(e@.value);
        lemma_u64_le_len(e@.chain_id);
        lemma_u64_le_len(e@.payload.len() as u64);
        lemma_u64_le_len(e@.signature.len() as u64);
        assert(out@ =~= out0 + envelope_bytes(e@));
    }
}

/// A record appended at the back of a sequence extends its bytes at
/// the back.
proof fn lemma_envelopes_bytes_snoc(s: Seq<EnvelopeModel>, e: EnvelopeModel)
    ensures
        envelopes_bytes(s.push(e)) == envelopes_bytes(s) + envelope_bytes(e),
    decreases s.len(),
{
    if s.len() == 0 {
        assert(s.push(e)[0] == e);
        assert(s.push(e).skip(1) =~= Seq::<EnvelopeModel>::empty());
        Seq::add_empty_right(envelope_bytes(e), envelopes_bytes(Seq::empty()));
        Seq::add_empty_left(envelopes_bytes(s), envelope_bytes(e));
    } else {
        assert(s.push(e)[0] == s[0]);
        assert(s.push(e).skip(1) =~= s.skip(1).push(e));
        lemma_envelopes_bytes_snoc(s.skip(1), e);
        vstd::seq_lib::lemma_concat_associative(
            envelope_bytes(s[0]),
            envelopes_bytes(s.skip(1)),
            envelope_bytes(e),
        );
    }
}

/// Serializes a bundle into its wire form.
pub fn encode_bundle(b: &BundleData) -> (r: Vec<u8>)
    ensures
        r@ == bundle_bytes(b@),
{
    let mut out: Vec<u8> = Vec::new();
    push_u64_le(&mut out, b.envelopes.len() as u64);
    let mut i: usize = 0;
    while i < b.envelopes.len()
        invariant
            i <= b.envelopes.len(),
            out@ =~= u64_le(b.envelopes.len() as u64) + envelopes_bytes(
                models_of(b.envelopes@).subrange(0, i as int),
            ),
        decreases b.envelopes.len() - i,
    {
        proof {
            let ms = models_of(b.envelopes@);
            assert(ms.subrange(0, i + 1) =~= ms.subrange(0, i as int).push(ms[i as int]));
            lemma_envelopes_bytes_snoc(ms.subrange(0, i as int), ms[i as int]);
        }
        push_envelope(&mut out, &b.envelopes[i]);
        i = i + 1;
    }
    proof {
        assert(models_of(b.envelopes@).subrange(0, b.envelopes@.len() as int) =~= b@);
        assert(out@ =~= bundle_bytes(b@));
    }
    out
}

/// Reads a 64-bit little-endian value at `pos`.
fn read_u64(s: &Vec<u8>, pos: usize) -> (r: Option<(u64, usize)>)
    ensures
        match r {
            Some((v, p)) => parse_u64(s@, pos as int) == Some((v, p as int)) && p == pos + 8 && p
                <= s.len(),
            None => parse_u64(s@, pos as int) is None,
        },
{
    if pos > s.len() || s.len() - pos < 8 {
        return None;
    }
    let v = s[pos] as u64 + s[pos + 1] as u64 * 0x100 + s[pos + 2] as u64 * 0x10000 + s[pos + 3]
        as u64 * 0x1000000 + s[pos + 4] as u64 * 0x100000000 + s[pos + 5] as u64 * 0x10000000000
        + s[pos + 6] as u64 * 0x1000000000000 + s[pos + 7] as u64 * 0x100000000000000;
    proof {
        assert(v == le_u64(s@.subrange(pos as int, pos as int + 8)));
    }
    Some((v, pos + 8))
}

/// Reads `n` raw bytes at `pos`.
fn read_bytes(s: &Vec<u8>, pos: usize, n: usize) -> (r: Option<(Vec<u8>, usize)>)
    ensures
        match r {
            Some((v, p)) => parse_bytes(s@, pos as int, n as int) == Some((v@, p as int)) && p == pos
                + n && p <= s.len(),
            None => parse_bytes(s@, pos as int, n as int) is None,
        },
{
    if pos > s.len() || s.len() - pos < n {
        return None;
    }
    let mut v: Vec<u8> = Vec::new();
    let mut i: usize = 0;
    while i < n
        invariant
            i <= n,
            pos + n <= s.len(),
            v@ =~= s@.subrange(pos as int, pos as int + i as int),
        decreases n - i,
    {
        v.push(s[pos + i]);
        i = i + 1;
    }
    proof {
        assert(v@ =~= s@.subrange(pos as int, pos as int + n as int));
    }
    Some((v, pos + n))
}

/// Reads one envelope record at `pos`.
fn read_envelope(s: &Vec<u8>, pos: usize) -> (r: Option<(SignedEnvelope, usize)>)
    ensures
        match r {
            Some((e, p)) => parse_envelope(s@, pos as int) == Some((e@, p as int)) && pos < p && p
                <= s.len(),
            None => parse_envelope(s@, pos as int) is None,
        },
{
    let (nonce, p1) = match read_u64(s, pos) {
        Some(x) => x,
        None => { return None },
    };
    let (gas_limit, p2) = match read_u64(s, p1) {
        Some(x) => x,
        None => { return None },
    };
    let (gas_price, p3) = match read_u64(s, p2) {
        Some(x) => x,
        None => { return None },
    };
    let (target, p4) = match read_bytes(s, p3, 20) {
        Some(x) => x,
        None => { return None },
    };
    let (value, p5) = match read_u64(s, p4) {
        Some(x) => x,
        None => { return None },
    };
    let (chain_id, p6) = match read_u64(s, p5) {
        Some(x) => x,
        None => { return None },
    };
    let (plen, p7) = match read_u64(s, p6) {
        Some(x) => x,
        None => { return None },
    };
    if plen > (s.len() - p7) as u64 {
        return None;
    }
    let (payload, p8) = match read_bytes(s, p7, plen as usize) {
        Some(x) => x,
        None => { return None },
    };
    let (slen, p9) = match read_u64(s, p8) {
        Some(x) => x,
        None => { return None },
    };
    if slen > (s.len() - p9) as u64 {
        return None;
    }
    let (signature, p10) = match read_bytes(s, p9, slen as usize) {
        Some(x) => x,
        None => { return None },
    };
    Some(
        (
            SignedEnvelope {
                nonce,
                gas_limit,
                gas_price,
                target,
                value,
                chain_id,
                payload,
                signature,
            },
            p10,
        ),
    )
}

/// Deserializes a byte string that holds the wire form of a bundle.
/// Fails with `DecodeError` exactly when the bytes are not such a
/// form: truncated, oversized, or carrying trailing bytes.
pub fn decode_bundle(bytes: &Vec<u8>) -> (r: Result<BundleData, Error>)
    ensures
        match r {
            Ok(b) => bundle_of_bytes(bytes@) == Some(b@),
            Err(e) => bundle_of_bytes(bytes@) is None && e matches Error::DecodeError,
        },
{
    let (n, p0) = match read_u64(bytes, 0) {
        Some(x) => x,
        None => { return Err(Error::DecodeError) },
    };
    let mut out: Vec<SignedEnvelope> = Vec::new();
    let mut pos: usize = p0;
    let mut k: u64 = 0;
    while k < n
        invariant
            k <= n,
            pos <= bytes.len(),
            parse_u64(bytes@, 0) == Some((n, p0 as int)),
            (match parse_envelopes(bytes@, pos as int, (n - k) as nat) {
                Some((rest, e)) => parse_envelopes(bytes@, p0 as int, n as nat) == Some(
                    (models_of(out@) + rest, e),
                ),
                None => parse_envelopes(bytes@, p0 as int, n as nat) is None,
            }),
        decreases n - k,
    {
        let (e, p) = match read_envelope(bytes, pos) {
            Some(x) => x,
            None => { return Err(Error::DecodeError) },
        };
        proof {
            let rest0 = parse_envelopes(bytes@, p as int, (n - k - 1) as nat);
            if rest0 is Some {
                assert(models_of(out@.push(e)) =~= models_of(out@) + seq![e@]);
                assert(models_of(out@) + (seq![e@] + rest0.unwrap().0) =~= models_of(out@.push(e))
                    + rest0.unwrap().0);
            }
        }
        out.push(e);
        pos = p;
        k = k + 1;
    }
    proof {
        assert(parse_envelopes(bytes@, pos as int, 0) == Some(
            (Seq::<EnvelopeModel>::empty(), pos as int),
        ));
        assert(models_of(out@) + Seq::<EnvelopeModel>::empty() =~= models_of(out@));
    }
    if pos != bytes.len() {
        return Err(Error::DecodeError);
    }
    let b = BundleData { envelopes: out };
    Ok(b)
}

/// The bytes of `v` embedded at `pos` parse back to `v`.
proof fn lemma_parse_u64_at(s: Seq<u8>, pos: int, v: u64)
    requires
        0 <= pos,
        pos + 8 <= s.len(),
        s.subrange(pos, pos + 8) == u64_le(v),
    ensures
        parse_u64(s, pos) == Some((v, pos + 8)),
{
    lemma_u64_le_round(v);
}

/// A slice of an embedded string is the matching slice of the string.
proof fn lemma_slice_of_slice(s: Seq<u8>, pos: int, t: Seq<u8>, a: int, b: int)
    requires
        0 <= pos,
        pos + t.len() <= s.len(),
        s.subrange(pos, pos + t.len() as int) == t,
        0 <= a <= b <= t.len(),
    ensures
        s.subrange(pos + a, pos + b) == t.subrange(a, b),
{
    assert forall|j: int| 0 <= j < b - a implies s.subrange(pos + a, pos + b)[j] == t.subrange(
        a,
        b,
    )[j] by {
        assert(s.subrange(pos, pos + t.len() as int)[a + j] == t[a + j]);
    }
    assert(s.subrange(pos + a, pos + b) =~= t.subrange(a, b));
}

/// An encoded record embedded at `pos` parses back to the envelope.
#[verifier::rlimit(100)]
proof fn lemma_parse_envelope_of_bytes(s: Seq<u8>, pos: int, e: EnvelopeModel)
    requires
        e.wf(),
        0 <= pos,
        pos + envelope_bytes(e).len() <= s.len(),
        s.subrange(pos, pos + envelope_bytes(e).len() as int) == envelope_bytes(e),
    ensures
        parse_envelope(s, pos) == Some((e, pos + envelope_bytes(e).len())),
{
    let eb = envelope_bytes(e);
    let pl = e.payload.len() as int;
    let sl = e.signature.len() as int;
    lemma_u64_le_len(e.nonce);
    lemma_u64_le_len(e.gas_limit);
    lemma_u64_le_len(e.gas_price);
    lemma_u64_le_len(e.value);
    lemma_u64_le_len(e.chain_id);
    lemma_u64_le_len(e.payload.len() as u64);
    lemma_u64_le_len(e.signature.len() as u64);
    assert(eb.len() == 76 + pl + sl);
    assert(eb.subrange(0, 8) =~= u64_le(e.nonce));
    assert(eb.subrange(8, 16) =~= u64_le(e.gas_limit));
    assert(eb.subrange(16, 24) =~= u64_le(e.gas_price));
    assert(eb.subrange(24, 44) =~= e.target);
    assert(eb.subrange(44, 52) =~= u64_le(e.value));
    assert(eb.subrange(52, 60) =~= u64_le(e.chain_id));
    assert(eb.subrange(60, 68) =~= u64_le(e.payload.len() as u64));
    assert(eb.subrange(68, 68 + pl) =~= e.payload);
    assert(eb.subrange(68 + pl, 76 + pl) =~= u64_le(e.signature.len() as u64));
    assert(eb.subrange(76 + pl, 76 + pl + sl) =~= e.signature);
    lemma_slice_of_slice(s, pos, eb, 0, 8);
    lemma_slice_of_slice(s, pos, eb, 8, 16);
    lemma_slice_of_slice(s, pos, eb, 16, 24);
    lemma_slice_of_slice(s, pos, eb, 24, 44);
    lemma_slice_of_slice(s, pos, eb, 44, 52);
    lemma_slice_of_slice(s, pos, eb, 52, 60);
    lemma_slice_of_slice(s, pos, eb, 60, 68);
    lemma_slice_of_slice(s, pos, eb, 68, 68 + pl);
    lemma_slice_of_slice(s, pos, eb, 68 + pl, 76 + pl);
    lemma_slice_of_slice(s, pos, eb, 76 + pl, 76 + pl + sl);
    assert(eb.subrange(0, eb.len() as int) =~= eb);
    lemma_parse_u64_at(s, pos, e.nonce);
    lemma_parse_u64_at(s, pos + 8, e.gas_limit);
    lemma_parse_u64_at(s, pos + 16, e.gas_price);
    lemma_parse_u64_at(s, pos + 44, e.value);
    lemma_parse_u64_at(s, pos + 52, e.chain_id);
    lemma_parse_u64_at(s, pos + 60, e.payload.len() as u64);
    lemma_parse_u64_at(s, pos + 68 + pl, e.signature.len() as u64);
    assert(parse_bytes(s, pos + 24, 20) == Some((e.target, pos + 44)));
    assert(parse_bytes(s, pos + 68, pl) == Some((e.payload, pos + 68 + pl)));
    assert(parse_bytes(s, pos + 76 + pl, sl) == Some((e.signature, pos + 76 + pl + sl)));
}

/// Encoded records embedded at `pos` parse back to the envelopes.
proof fn lemma_parse_envelopes_of_bytes(s: Seq<u8>, pos: int, es: Seq<EnvelopeModel>)
    requires
        forall|i: int| 0 <= i < es.len() ==> es[i].wf(),
        0 <= pos,
        pos + envelopes_bytes(es).len() <= s.len(),
        s.subrange(pos, pos + envelopes_bytes(es).len() as int) == envelopes_bytes(es),
    ensures
        parse_envelopes(s, pos, es.len()) == Some((es, pos + envelopes_bytes(es).len())),
    decreases es.len(),
{
    if es.len() == 0 {
        assert(es =~= Seq::<EnvelopeModel>::empty());
    } else {
        let e0 = es[0];
        let eb0 = envelope_bytes(e0);
        let rest = envelopes_bytes(es.skip(1));
        let eb = envelopes_bytes(es);
        assert(eb == eb0 + rest);
        assert(eb.subrange(0, eb0.len() as int) =~= eb0);
        assert(eb.subrange(eb0.len() as int, eb.len() as int) =~= rest);
        lemma_slice_of_slice(s, pos, eb, 0, eb0.len() as int);
        lemma_slice_of_slice(s, pos, eb, eb0.len() as int, eb.len() as int);
        lemma_parse_envelope_of_bytes(s, pos, e0);
        lemma_parse_envelopes_of_bytes(s, pos + eb0.len() as int, es.skip(1));
        assert(seq![e0] + es.skip(1) =~= es);
    }
}

/// Decoding the wire form of a well-formed bundle yields the bundle
/// itself: the codec is a structural mirror.
pub proof fn lemma_codec_round_trip(es: Seq<EnvelopeModel>)
    requires
        forall|i: int| 0 <= i < es.len() ==> es[i].wf(),
        es.len() <= u64::MAX,
    ensures
        bundle_of_bytes(bundle_bytes(es)) == Some(es),
{
    let s = bundle_bytes(es);
    let rest = envelopes_bytes(es);
    lemma_u64_le_len(es.len() as u64);
    assert(s.subrange(0, 8) =~= u64_le(es.len() as u64));
    lemma_parse_u64_at(s, 0, es.len() as u64);
    assert(s.subrange(8, 8 + rest.len() as int) =~= rest);
    lemma_parse_envelopes_of_bytes(s, 8, es);
}

} // verus!
