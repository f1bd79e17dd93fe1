use latest_bls::error::ErrorCode;
use latest_bls::registry::Registry;
use latest_bls::utils::BlsUtils;
use latest_bls::verify::verify_aggregated_signature;
use solana_alt_bn128_bls::{G1CompressedPoint, G1Point, G2Point, PrivKey, Sha256Normalized};

const FIXED_KEY: [u8; 32] = [
    0x21, 0x6f, 0x05, 0xb4, 0x64, 0xd2, 0xca, 0xb2, 0x72, 0x95, 0x4c, 0x66, 0x0d, 0xd4, 0x5c,
    0xf8, 0xab, 0x0b, 0x26, 0x13, 0x65, 0x4d, 0xcc, 0xc7, 0x4c, 0x11, 0x55, 0xfe, 0xba, 0xaf,
    0xb5, 0xc9,
];

fn fixed_key(first: u8) -> PrivKey {
    let mut bytes = FIXED_KEY;
    bytes[0] = first;
    PrivKey(bytes)
}

fn public_key(key: &PrivKey) -> G2Point {
    G2Point::try_from(key).expect("Failed to derive G2 point from private key")
}

fn sign(key: &PrivKey, message: &[u8]) -> G1Point {
    key.sign::<Sha256Normalized, &[u8]>(message)
        .expect("Failed to sign message with private key")
}

#[test]
fn test_initialize_and_verify_signature_locally() {
    let private_key_1 = PrivKey::from_random();
    let private_key_2 = PrivKey::from_random();
    let g2_point_1 = public_key(&private_key_1);
    let g2_point_2 = public_key(&private_key_2);

    let message = b"Test message".to_vec();
    let g1_signature_1 = sign(&private_key_1, &message);
    let g1_signature_2 = sign(&private_key_2, &message);

    let compressed_g1_agg_sig =
        BlsUtils::aggregate_and_compress_g1_points(&[g1_signature_1, g1_signature_2])
            .expect("Failed to compress aggregated G1 signature");
    let aggregated_g2_compressed = BlsUtils::aggregate_and_compress_g2_points(&[g2_point_1, g2_point_2])
        .expect("Failed to compress aggregated G2 point");

    match verify_aggregated_signature(aggregated_g2_compressed, compressed_g1_agg_sig, message) {
        Ok(_) => println!("Signature verified successfully!"),
        Err(err) => panic!("Signature verification failed: {:?}", err),
    }
}

#[test]
fn test_initialize_and_verify_signature() {
    let private_key_1 = PrivKey::from_random();
    let private_key_2 = PrivKey::from_random();
    let g2_point_key_2 = public_key(&private_key_2);
    let g2_point_key_1 = public_key(&private_key_1);

    let mut registry = Registry::new();
    let oracle_1: u64 = 1;
    let oracle_2: u64 = 2;

    assert_eq!(registry.initialize_oracle(oracle_1, g2_point_key_1.0), Ok(()));
    assert_eq!(registry.get(oracle_1), Some(g2_point_key_1.0));
    assert_eq!(registry.initialize_oracle(oracle_2, g2_point_key_2.0), Ok(()));
    assert_eq!(registry.get(oracle_2), Some(g2_point_key_2.0));

    let message = b"Test message".to_vec();
    let g1_signature_1 = sign(&private_key_1, &message);
    let g1_signature_2 = sign(&private_key_2, &message);
    let aggregated_compressed_signature =
        BlsUtils::aggregate_and_compress_g1_points(&[g1_signature_1, g1_signature_2])
            .expect("Failed to compress aggregated G1 signature");

    match registry.verify_signature(&[oracle_1, oracle_2], aggregated_compressed_signature, message) {
        Ok(_) => println!("Signature verified successfully!"),
        Err(err) => panic!("Signature verification failed: {:?}", err),
    }
}

#[test]
fn test_aggregated_verification_off_chain() {
    let private_keys: Vec<PrivKey> = (0..5).map(|_| PrivKey::from_random()).collect();
    let g2_points: Vec<G2Point> = private_keys.iter().map(public_key).collect();
    let aggregated_compressed_pubkey = BlsUtils::aggregate_and_compress_g2_points(&g2_points)
        .expect("Failed to aggregate and compress G2 points");

    let message = b"500000.23456".to_vec();
    let g1_signatures: Vec<G1Point> = private_keys.iter().map(|k| sign(k, &message)).collect();
    let aggregated_compressed_signature = BlsUtils::aggregate_and_compress_g1_points(&g1_signatures)
        .expect("Failed to aggregate and compress G1 points");

    match verify_aggregated_signature(
        aggregated_compressed_pubkey,
        aggregated_compressed_signature,
        message.clone(),
    ) {
        Ok(_) => println!("Signature verified successfully!"),
        Err(err) => panic!("Signature verification failed: {:?}", err),
    }
}

#[test]
fn compresses_known_public_key() {
    let uncompressed = G1Point::try_from(fixed_key(0x21)).expect("Invalid private key");
    let compressed = BlsUtils::aggregate_and_compress_g1_points(&[uncompressed]).unwrap();
    assert_eq!(
        compressed,
        [
            0x1d, 0xc6, 0x38, 0x33, 0x8a, 0xa8, 0xdf, 0xf2, 0xfd, 0x75, 0xdf, 0x80, 0x9e, 0x9f,
            0x33, 0x5d, 0x1b, 0x97, 0x96, 0x90, 0xe7, 0xe0, 0x2f, 0x49, 0x8f, 0x10, 0xbb, 0x7d,
            0x2c, 0x4a, 0x50, 0xeb
        ]
    );
}

#[test]
fn compresses_known_signature() {
    let signature = sign(&fixed_key(0x21), b"sample");
    let compressed = BlsUtils::aggregate_and_compress_g1_points(&[signature]).unwrap();
    assert_eq!(
        compressed,
        [
            0x82, 0x6e, 0x58, 0x71, 0x6e, 0xd0, 0x10, 0x01, 0x81, 0x14, 0x8b, 0x56, 0x47, 0xe8,
            0xf0, 0x79, 0x99, 0xa3, 0x63, 0x99, 0x11, 0x70, 0x95, 0x9e, 0x71, 0x82, 0x80, 0x14,
            0x48, 0x5a, 0xa4, 0x2c
        ]
    );
}

#[test]
fn aggregation_is_the_sum_of_two_points() {
    let a = sign(&fixed_key(0x21), b"sample");
    let b = sign(&fixed_key(0x22), b"sample");
    let sum = BlsUtils::aggregate_g1_points(&[a.clone(), b.clone()]).unwrap();
    assert_eq!(sum.0, (a.clone() + b).0);
    assert_ne!(sum.0, a.0);
    let single = BlsUtils::aggregate_g1_points(&[a.clone()]).unwrap();
    assert_eq!(single.0, a.0);
}

#[test]
fn aggregation_order_does_not_matter() {
    let keys: Vec<PrivKey> = (0x21..0x25).map(fixed_key).collect();
    let sigs: Vec<G1Point> = keys.iter().map(|k| sign(k, b"order")).collect();
    let pubs: Vec<G2Point> = keys.iter().map(public_key).collect();
    let sig_forward = BlsUtils::aggregate_and_compress_g1_points(&sigs).unwrap();
    let pub_forward = BlsUtils::aggregate_and_compress_g2_points(&pubs).unwrap();
    let sigs_shuffled = vec![sigs[2].clone(), sigs[0].clone(), sigs[3].clone(), sigs[1].clone()];
    let pubs_shuffled = vec![pubs[3].clone(), pubs[1].clone(), pubs[0].clone(), pubs[2].clone()];
    assert_eq!(BlsUtils::aggregate_and_compress_g1_points(&sigs_shuffled).unwrap(), sig_forward);
    assert_eq!(BlsUtils::aggregate_and_compress_g2_points(&pubs_shuffled).unwrap(), pub_forward);
}

#[test]
fn compression_round_trip() {
    let point = sign(&fixed_key(0x23), b"round trip");
    let compressed = BlsUtils::aggregate_and_compress_g1_points(&[point]).unwrap();
    let decompressed = G1Point::try_from(&G1CompressedPoint(compressed)).unwrap();
    let again = BlsUtils::aggregate_and_compress_g1_points(&[decompressed]).unwrap();
    assert_eq!(again, compressed);

    let key = public_key(&fixed_key(0x24));
    let compressed_key = BlsUtils::aggregate_and_compress_g2_points(&[key]).unwrap();
    let decompressed_key =
        G2Point::try_from(solana_alt_bn128_bls::G2CompressedPoint(compressed_key)).unwrap();
    let again_key = BlsUtils::aggregate_and_compress_g2_points(&[decompressed_key]).unwrap();
    assert_eq!(again_key, compressed_key);
}

#[test]
fn aggregate_of_three_signers_verifies() {
    let keys: Vec<PrivKey> = (0x21..0x24).map(fixed_key).collect();
    let message = [&50_000u64.to_le_bytes()[..], b"BTCUSD<"].concat();
    let pubs: Vec<G2Point> = keys.iter().map(public_key).collect();
    let sigs: Vec<G1Point> = keys.iter().map(|k| sign(k, &message)).collect();
    let key = BlsUtils::aggregate_and_compress_g2_points(&pubs).unwrap();
    let sig = BlsUtils::aggregate_and_compress_g1_points(&sigs).unwrap();
    assert_eq!(verify_aggregated_signature(key, sig, message), Ok(()));
}

#[test]
fn tampered_message_is_rejected() {
    let keys: Vec<PrivKey> = (0x21..0x24).map(fixed_key).collect();
    let message = b"attested value".to_vec();
    let pubs: Vec<G2Point> = keys.iter().map(public_key).collect();
    let sigs: Vec<G1Point> = keys.iter().map(|k| sign(k, &message)).collect();
    let key = BlsUtils::aggregate_and_compress_g2_points(&pubs).unwrap();
    let sig = BlsUtils::aggregate_and_compress_g1_points(&sigs).unwrap();
    assert_eq!(verify_aggregated_signature(key, sig, message.clone()), Ok(()));
    for i in 0..message.len() {
        let mut flipped = message.clone();
        flipped[i] ^= 0x01;
        assert_eq!(
            verify_aggregated_signature(key, sig, flipped),
            Err(ErrorCode::SignatureInvalid)
        );
    }
    let other: Vec<G1Point> = keys.iter().map(|k| sign(k, b"another value")).collect();
    let other_sig = BlsUtils::aggregate_and_compress_g1_points(&other).unwrap();
    assert_eq!(
        verify_aggregated_signature(key, other_sig, message),
        Err(ErrorCode::SignatureInvalid)
    );
}

#[test]
fn empty_sets_are_rejected() {
    assert!(matches!(BlsUtils::aggregate_g1_points(&[]), Err(ErrorCode::EmptyAggregationSet)));
    assert!(matches!(BlsUtils::aggregate_g2_points(&[]), Err(ErrorCode::EmptyAggregationSet)));
    assert_eq!(
        BlsUtils::aggregate_and_compress_g1_points(&[]),
        Err(ErrorCode::EmptyAggregationSet)
    );
    assert_eq!(
        BlsUtils::aggregate_and_compress_g2_points(&[]),
        Err(ErrorCode::EmptyAggregationSet)
    );
    let registry = Registry::new();
    assert_eq!(
        registry.verify_signature(&[], [0u8; 32], b"msg".to_vec()),
        Err(ErrorCode::EmptyAggregationSet)
    );
}

#[test]
fn first_registration_wins() {
    let key_a = fixed_key(0x21);
    let key_b = fixed_key(0x22);
    let pub_a = public_key(&key_a);
    let pub_b = public_key(&key_b);
    let mut registry = Registry::new();
    assert_eq!(registry.initialize_oracle(7, pub_a.0), Ok(()));
    assert_eq!(registry.initialize_oracle(7, pub_b.0), Err(ErrorCode::AlreadyExists));
    assert_eq!(registry.get(7), Some(pub_a.0));

    let message = b"registry".to_vec();
    let sig_a = BlsUtils::aggregate_and_compress_g1_points(&[sign(&key_a, &message)]).unwrap();
    let sig_b = BlsUtils::aggregate_and_compress_g1_points(&[sign(&key_b, &message)]).unwrap();
    assert_eq!(registry.verify_signature(&[7], sig_a, message.clone()), Ok(()));
    assert_eq!(
        registry.verify_signature(&[7], sig_b, message),
        Err(ErrorCode::SignatureInvalid)
    );
}

#[test]
fn five_signers_scenario() {
    let keys: Vec<PrivKey> = (0x21..0x26).map(fixed_key).collect();
    let message = b"500000.23456".to_vec();
    let pubs: Vec<G2Point> = keys.iter().map(public_key).collect();
    let mut sigs: Vec<G1Point> = keys.iter().map(|k| sign(k, &message)).collect();
    let key = BlsUtils::aggregate_and_compress_g2_points(&pubs).unwrap();
    let sig = BlsUtils::aggregate_and_compress_g1_points(&sigs).unwrap();
    assert_eq!(verify_aggregated_signature(key, sig, message.clone()), Ok(()));

    sigs[2] = sign(&keys[2], b"500000.23457");
    let bad_sig = BlsUtils::aggregate_and_compress_g1_points(&sigs).unwrap();
    assert_eq!(
        verify_aggregated_signature(key, bad_sig, message),
        Err(ErrorCode::SignatureInvalid)
    );
}

#[test]
fn stateful_verification_matches_stateless() {
    let keys: Vec<PrivKey> = (0x21..0x24).map(fixed_key).collect();
    let message = b"both paths".to_vec();
    let mut registry = Registry::new();
    for (i, k) in keys.iter().enumerate() {
        assert_eq!(registry.initialize_oracle(i as u64, public_key(k).0), Ok(()));
    }
    let sigs: Vec<G1Point> = keys.iter().map(|k| sign(k, &message)).collect();
    let sig = BlsUtils::aggregate_and_compress_g1_points(&sigs).unwrap();
    assert_eq!(registry.verify_signature(&[2, 0, 1], sig, message.clone()), Ok(()));
    assert_eq!(
        registry.verify_signature(&[0, 1], sig, message.clone()),
        Err(ErrorCode::SignatureInvalid)
    );
    let read = registry.read_many(&[1, 2]).unwrap();
    assert_eq!(read.len(), 2);
    assert_eq!(read[0].0, public_key(&keys[1]).0);
    assert_eq!(read[1].0, public_key(&keys[2]).0);
}

#[test]
fn unknown_identity_is_an_invalid_record() {
    let mut registry = Registry::new();
    assert_eq!(registry.initialize_oracle(1, public_key(&fixed_key(0x21)).0), Ok(()));
    assert!(matches!(registry.read_many(&[1, 9]), Err(ErrorCode::InvalidRecord)));
    assert_eq!(
        registry.verify_signature(&[1, 9], [0u8; 32], b"m".to_vec()),
        Err(ErrorCode::InvalidRecord)
    );
    assert_eq!(registry.get(9), None);
}

#[test]
fn malformed_compressed_values_fail_to_decompress() {
    let key = BlsUtils::aggregate_and_compress_g2_points(&[public_key(&fixed_key(0x21))]).unwrap();
    let sig = BlsUtils::aggregate_and_compress_g1_points(&[sign(&fixed_key(0x21), b"m")]).unwrap();
    assert_eq!(verify_aggregated_signature(key, sig, b"m".to_vec()), Ok(()));
    assert_eq!(
        verify_aggregated_signature([0xff; 64], sig, b"m".to_vec()),
        Err(ErrorCode::DecompressionFailed)
    );
    assert_eq!(
        verify_aggregated_signature(key, [0xff; 32], b"m".to_vec()),
        Err(ErrorCode::DecompressionFailed)
    );
}

#[test]
fn invalid_points_fail_to_aggregate_or_compress() {
    let valid = sign(&fixed_key(0x21), b"m");
    assert!(matches!(
        BlsUtils::aggregate_g1_points(&[valid, G1Point([0xff; 64])]),
        Err(ErrorCode::AggregationFailed)
    ));
    assert_eq!(
        BlsUtils::aggregate_and_compress_g1_points(&[G1Point([0xff; 64])]),
        Err(ErrorCode::CompressionFailed)
    );
}

#[test]
fn key_aggregation_is_the_sum_of_two_keys() {
    let a = public_key(&fixed_key(0x21));
    let b = public_key(&fixed_key(0x22));
    let sum = BlsUtils::aggregate_g2_points(&[a.clone(), b.clone()]).unwrap();
    assert_eq!(sum.0.to_vec(), (a.clone() + b).0.to_vec());
    assert_ne!(sum.0.to_vec(), a.0.to_vec());
    let compressed = BlsUtils::aggregate_and_compress_g2_points(&[a]).unwrap();
    let expected = solana_alt_bn128_bls::G2CompressedPoint::try_from(&fixed_key(0x21)).unwrap();
    assert_eq!(compressed.to_vec(), expected.0.to_vec());
}

fn record_of(key: &[u8; 128]) -> Vec<u8> {
    let mut data = vec![0u8; 8];
    data.extend_from_slice(key);
    data
}

#[test]
fn records_with_malformed_keys_are_invalid() {
    let signer = fixed_key(0x21);
    let key = public_key(&signer);
    let message = b"records".to_vec();
    let sig = BlsUtils::aggregate_and_compress_g1_points(&[sign(&signer, &message)]).unwrap();

    assert_eq!(latest_bls::records::parse_record(&record_of(&key.0)), Ok(key.0));
    assert!(latest_bls::records::check_key(&key.0));
    assert_eq!(
        latest_bls::records::verify_signature(&[record_of(&key.0)], sig, message.clone()),
        Ok(())
    );

    let garbage = [0xffu8; 128];
    assert!(!latest_bls::records::check_key(&garbage));
    assert_eq!(
        latest_bls::records::parse_record(&record_of(&garbage)),
        Err(ErrorCode::InvalidRecord)
    );
    assert_eq!(
        latest_bls::records::verify_signature(
            &[record_of(&key.0), record_of(&garbage)],
            sig,
            message.clone()
        ),
        Err(ErrorCode::InvalidRecord)
    );
    assert_eq!(
        latest_bls::records::parse_record(&key.0[..100]),
        Err(ErrorCode::InvalidRecord)
    );
    assert_eq!(
        latest_bls::records::verify_signature(&[], sig, message),
        Err(ErrorCode::EmptyAggregationSet)
    );
}

#[test]
fn registered_malformed_key_is_an_invalid_record() {
    let mut registry = Registry::new();
    assert_eq!(registry.initialize_oracle(3, [0xffu8; 128]), Ok(()));
    assert!(matches!(registry.read_many(&[3]), Err(ErrorCode::InvalidRecord)));
    assert_eq!(
        registry.verify_signature(&[3], [0u8; 32], b"m".to_vec()),
        Err(ErrorCode::InvalidRecord)
    );
}
