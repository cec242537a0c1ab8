use bundler::assemble::assemble_bundle;
use bundler::calldata::generate_random_calldata;
use bundler::envelope::{create_envelope, finish_envelope, LeafSpec, SignedEnvelope, CHAIN_ID};
use bundler::errors::{Error, InvariantField};
use bundler::metadata::{block_number_decimal, metadata_or_not_found, BundleTxMetadata, TxFields};
use bundler::validate::validate_bundle;

fn key() -> String {
    let mut k = String::new();
    for _ in 0..32 {
        k.push_str("2a");
    }
    k
}

fn plain_envelope(marker: u8) -> SignedEnvelope {
    let draft = create_envelope(
        Some(key().as_str()),
        LeafSpec { target: None, data: Some(vec![marker]) },
    )
    .expect("draft");
    finish_envelope(draft, vec![marker, marker])
}

#[test]
fn create_envelope_requires_credential() {
    let r = create_envelope(None, LeafSpec { target: None, data: Some(vec![1]) });
    assert!(matches!(r, Err(Error::CredentialRequired)));
}

#[test]
fn create_envelope_rejects_bad_credential() {
    let r = create_envelope(Some("not a key"), LeafSpec { target: None, data: Some(vec![1]) });
    assert!(matches!(r, Err(Error::CredentialInvalid)));
    let short = "0x1234";
    let r = create_envelope(Some(short), LeafSpec { target: None, data: Some(vec![1]) });
    assert!(matches!(r, Err(Error::CredentialInvalid)));
}

#[test]
fn create_envelope_requires_data() {
    let r = create_envelope(Some(key().as_str()), LeafSpec { target: None, data: None });
    assert!(matches!(r, Err(Error::DataRequired)));
}

#[test]
fn create_envelope_sets_sentinels_and_defaults() {
    let d = create_envelope(
        Some(key().as_str()),
        LeafSpec { target: None, data: Some(vec![1, 2]) },
    )
    .expect("draft");
    assert_eq!(d.nonce, 0);
    assert_eq!(d.gas_limit, 0);
    assert_eq!(d.gas_price, 0);
    assert_eq!(d.value, 0);
    assert_eq!(d.chain_id, CHAIN_ID);
    assert_eq!(d.target, vec![0u8; 20]);
    assert_eq!(d.payload, vec![1, 2]);
}

#[test]
fn create_envelope_resolves_target() {
    let mut t = String::from("0x");
    for _ in 0..20 {
        t.push_str("Ff");
    }
    let d = create_envelope(
        Some(key().as_str()),
        LeafSpec { target: Some(t), data: Some(vec![0]) },
    )
    .expect("draft");
    assert_eq!(d.target, vec![0xffu8; 20]);
    let d = create_envelope(
        Some(key().as_str()),
        LeafSpec { target: Some(String::from("0xnot-an-address")), data: Some(vec![0]) },
    )
    .expect("draft");
    assert_eq!(d.target, vec![0u8; 20]);
}

#[test]
fn assemble_keeps_order_and_drops_failures() {
    let results = vec![
        Ok(plain_envelope(1)),
        Err(Error::DataRequired),
        Ok(plain_envelope(2)),
        Err(Error::CredentialInvalid),
        Ok(plain_envelope(3)),
    ];
    let bundle = assemble_bundle(results);
    assert_eq!(bundle.envelopes.len(), 3);
    assert_eq!(bundle.envelopes[0].payload, vec![1]);
    assert_eq!(bundle.envelopes[1].payload, vec![2]);
    assert_eq!(bundle.envelopes[2].payload, vec![3]);
}

#[test]
fn assemble_of_all_failures_is_empty() {
    let bundle = assemble_bundle(vec![Err(Error::DataRequired), Err(Error::DataRequired)]);
    assert_eq!(bundle.envelopes.len(), 0);
}

#[test]
fn validator_accepts_zero_sentinels() {
    let bundle = assemble_bundle(vec![Ok(plain_envelope(1)), Ok(plain_envelope(2))]);
    assert!(validate_bundle(&bundle).is_ok());
}

#[test]
fn validator_names_first_violation() {
    let mut bad = plain_envelope(2);
    bad.gas_limit = 77;
    let bundle = assemble_bundle(vec![Ok(plain_envelope(1)), Ok(bad)]);
    let r = validate_bundle(&bundle);
    assert_eq!(
        r,
        Err(Error::BundleInvariantViolation { index: 1, field: InvariantField::GasLimit })
    );
}

#[test]
fn validator_orders_fields() {
    let mut bad = plain_envelope(1);
    bad.nonce = 1;
    bad.gas_price = 5;
    let bundle = assemble_bundle(vec![Ok(bad)]);
    let r = validate_bundle(&bundle);
    assert_eq!(
        r,
        Err(Error::BundleInvariantViolation { index: 0, field: InvariantField::Nonce })
    );
    let mut bad = plain_envelope(1);
    bad.gas_price = 5;
    let bundle = assemble_bundle(vec![Ok(bad)]);
    let r = validate_bundle(&bundle);
    assert_eq!(
        r,
        Err(Error::BundleInvariantViolation { index: 0, field: InvariantField::GasPrice })
    );
}

#[test]
fn calldata_has_prefix_and_length() {
    for &(requested, expected) in &[(0usize, 10usize), (9, 10), (10, 10), (11, 11), (64, 64)] {
        let s = generate_random_calldata(requested);
        assert_eq!(s.len(), expected);
        assert!(s.starts_with("0x"));
        for c in s.chars().skip(2) {
            assert!(c.is_ascii_hexdigit() && !c.is_ascii_uppercase());
        }
    }
}

#[test]
fn metadata_of_missing_transaction_is_not_found() {
    assert!(matches!(metadata_or_not_found(None), Err(Error::NotFound)));
}

#[test]
fn metadata_fills_defaults() {
    let m: BundleTxMetadata = metadata_or_not_found(Some(TxFields {
        block_hash: None,
        block_number: None,
        calldata: None,
        to: None,
    }))
    .expect("metadata");
    assert_eq!(m.block_hash, "0x");
    assert_eq!(m.calldata, "0x");
    assert_eq!(m.to, "0x0000000000000000000000000000000000000000");
    assert_eq!(m.block_number, "0");
}

#[test]
fn metadata_converts_block_number() {
    let m = metadata_or_not_found(Some(TxFields {
        block_hash: Some(String::from("0xabc")),
        block_number: Some(String::from("0x1a")),
        calldata: Some(String::from("0x00")),
        to: Some(String::from("0x1111111111111111111111111111111111111111")),
    }))
    .expect("metadata");
    assert_eq!(m.block_hash, "0xabc");
    assert_eq!(m.calldata, "0x00");
    assert_eq!(m.to, "0x1111111111111111111111111111111111111111");
    assert_eq!(m.block_number, "26");
}

#[test]
fn block_number_rendering() {
    assert_eq!(block_number_decimal("0x"), "0");
    assert_eq!(block_number_decimal("0x0"), "0");
    assert_eq!(block_number_decimal("0xff"), "255");
    assert_eq!(block_number_decimal("0xffffffffffffffff"), "18446744073709551615");
    assert_eq!(block_number_decimal("0x10000000000000000"), "0");
    assert_eq!(block_number_decimal("26"), "0");
    assert_eq!(block_number_decimal("0xg1"), "0");
}
