use bundler::assemble::{assemble_bundle, pack_bundle};
use bundler::codec::{decode_bundle, encode_bundle};
use bundler::compress::{compress, decompress};
use bundler::envelope::{create_envelope, finish_envelope, BundleData, LeafSpec, CHAIN_ID};
use bundler::errors::Error;
use bundler::retrieve::retrieve_bundle_data;

fn key() -> String {
    let mut k = String::from("0x");
    for _ in 0..32 {
        k.push_str("11");
    }
    k
}

fn hex_target(byte: &str) -> String {
    let mut t = String::from("0x");
    for _ in 0..20 {
        t.push_str(byte);
    }
    t
}

fn signed(target: Option<String>, payload: Vec<u8>, sig: Vec<u8>) -> bundler::envelope::SignedEnvelope {
    let draft = create_envelope(Some(key().as_str()), LeafSpec { target, data: Some(payload) })
        .expect("draft");
    finish_envelope(draft, sig)
}

#[test]
fn round_trip_empty_bundle() {
    let bundle = assemble_bundle(Vec::new());
    let packed = pack_bundle(&bundle);
    let calldata = format!("0x{}", hex::encode(&packed));
    let back = retrieve_bundle_data(&calldata).expect("retrieve");
    assert_eq!(back.envelopes.len(), 0);
}

#[test]
fn round_trip_three_envelopes() {
    let e1 = signed(Some(hex_target("aa")), vec![1, 2, 3], vec![9, 9]);
    let e2 = signed(Some(hex_target("bb")), vec![4, 5], vec![8]);
    let e3 = signed(Some(hex_target("cc")), vec![6], vec![7, 7, 7]);
    let bundle = assemble_bundle(vec![Ok(e1), Ok(e2), Ok(e3)]);
    let packed = pack_bundle(&bundle);
    let calldata = format!("0x{}", hex::encode(&packed));
    let back = retrieve_bundle_data(&calldata).expect("retrieve");
    assert_eq!(back.envelopes.len(), 3);
    let expected = [
        (vec![0xaau8; 20], vec![1u8, 2, 3], vec![9u8, 9]),
        (vec![0xbbu8; 20], vec![4u8, 5], vec![8u8]),
        (vec![0xccu8; 20], vec![6u8], vec![7u8, 7, 7]),
    ];
    for (env, (target, payload, sig)) in back.envelopes.iter().zip(expected.iter()) {
        assert_eq!(env.nonce, 0);
        assert_eq!(env.gas_limit, 0);
        assert_eq!(env.gas_price, 0);
        assert_eq!(env.value, 0);
        assert_eq!(env.chain_id, CHAIN_ID);
        assert_eq!(&env.target, target);
        assert_eq!(&env.payload, payload);
        assert_eq!(&env.signature, sig);
    }
}

#[test]
fn compress_round_trip_cases() {
    let cases: Vec<Vec<u8>> = vec![
        vec![],
        vec![0],
        vec![5; 1000],
        vec![1, 1, 2, 2, 2, 3, 0, 0],
        (0..=255u8).collect(),
    ];
    for case in cases {
        let compressed = compress(&case);
        let restored = decompress(&compressed).expect("decompress");
        assert_eq!(restored, case);
    }
}

#[test]
fn compress_shrinks_runs() {
    let compressed = compress(&vec![7u8; 512]);
    assert_eq!(compressed, vec![255, 7, 255, 7]);
}

#[test]
fn decompress_rejects_odd_stream() {
    assert_eq!(decompress(&vec![1]), Err(Error::CompressionError));
    assert_eq!(decompress(&vec![0, 1, 2]), Err(Error::CompressionError));
}

#[test]
fn decode_rejects_malformed_bytes() {
    let e = signed(None, vec![1], vec![2]);
    let bundle = assemble_bundle(vec![Ok(e)]);
    let mut encoded = encode_bundle(&bundle);
    assert!(decode_bundle(&encoded).is_ok());
    encoded.pop();
    assert!(matches!(decode_bundle(&encoded), Err(Error::DecodeError)));
    let bundle2 = assemble_bundle(Vec::new());
    let mut encoded2 = encode_bundle(&bundle2);
    encoded2.push(0);
    assert!(matches!(decode_bundle(&encoded2), Err(Error::DecodeError)));
}

#[test]
fn retrieve_rejects_bad_hex() {
    assert!(matches!(retrieve_bundle_data("0xzz"), Err(Error::DecodeError)));
    assert!(matches!(retrieve_bundle_data("0xabc"), Err(Error::DecodeError)));
}

#[test]
fn retrieve_rejects_violating_bundle() {
    let mut e = signed(None, vec![1], vec![2]);
    e.nonce = 3;
    let bundle = BundleData { envelopes: vec![e] };
    let packed = pack_bundle(&bundle);
    let calldata = format!("0x{}", hex::encode(&packed));
    let r = retrieve_bundle_data(&calldata);
    assert!(matches!(
        r,
        Err(Error::BundleInvariantViolation { index: 0, field: bundler::errors::InvariantField::Nonce })
    ));
}

#[test]
fn round_trip_empty_payload_and_signature() {
    let draft = create_envelope(
        Some(key().as_str()),
        LeafSpec { target: None, data: Some(Vec::new()) },
    )
    .expect("draft");
    let e = finish_envelope(draft, Vec::new());
    let bundle = assemble_bundle(vec![Ok(e)]);
    let encoded = encode_bundle(&bundle);
    let back = decode_bundle(&encoded).expect("decode");
    assert_eq!(back.envelopes.len(), 1);
    assert_eq!(back.envelopes[0].payload, Vec::<u8>::new());
    assert_eq!(back.envelopes[0].signature, Vec::<u8>::new());
    assert_eq!(back.envelopes[0].target, vec![0u8; 20]);
}

#[test]
fn retrieve_accepts_upper_case_hex() {
    let e = signed(None, vec![10, 11], vec![1]);
    let bundle = assemble_bundle(vec![Ok(e)]);
    let packed = pack_bundle(&bundle);
    let calldata = format!("0x{}", hex::encode_upper(&packed));
    let back = retrieve_bundle_data(&calldata).expect("retrieve");
    assert_eq!(back.envelopes[0].payload, vec![10, 11]);
}

#[test]
fn retrieve_strips_repeated_prefix() {
    let bundle = assemble_bundle(Vec::new());
    let packed = pack_bundle(&bundle);
    let calldata = format!("0x0x{}", hex::encode(&packed));
    let back = retrieve_bundle_data(&calldata).expect("retrieve");
    assert_eq!(back.envelopes.len(), 0);
}
