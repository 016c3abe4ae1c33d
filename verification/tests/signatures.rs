use accensa_contracts::error::Error;
use accensa_contracts::signatures;

use ed25519_dalek::{Signer, SigningKey};
use soroban_sdk::testutils::{Address as _, EnvTestConfig};
use soroban_sdk::{Address, Bytes, BytesN, Env, TryFromVal};

fn setup() -> Env {
    Env::new_with_config(EnvTestConfig {
        capture_snapshot_at_drop: false,
    })
}

/// Build `n` signer keypairs and their public keys in mask order.
fn keys(env: &Env, n: u32) -> (soroban_sdk::Vec<BytesN<32>>, Vec<SigningKey>) {
    let mut pubkeys = soroban_sdk::Vec::new(env);
    let mut sks = Vec::new();
    for i in 0..n {
        let sk = SigningKey::from_bytes(&[(i + 1) as u8; 32]);
        pubkeys.push_back(BytesN::from_array(env, &sk.verifying_key().to_bytes()));
        sks.push(sk);
    }
    (pubkeys, sks)
}

fn payload(env: &Env) -> Bytes {
    Bytes::from_slice(env, &[42u8; 64])
}

/// The canonical message, rebuilt byte for byte.
fn msg_bytes(
    domain: &Bytes,
    payload: &Bytes,
    signer_pubkeys: &soroban_sdk::Vec<BytesN<32>>,
    signer_mask: u32,
) -> Vec<u8> {
    let mut m = Vec::new();
    m.extend_from_slice(&domain.len().to_be_bytes());
    for b in domain.iter() {
        m.push(b);
    }
    m.extend_from_slice(&payload.len().to_be_bytes());
    for b in payload.iter() {
        m.push(b);
    }
    m.extend_from_slice(&signer_pubkeys.len().to_be_bytes());
    for pk in signer_pubkeys.iter() {
        m.extend_from_slice(&pk.to_array());
    }
    m.extend_from_slice(&signer_mask.to_be_bytes());
    m
}

/// A fixed domain string (a contract would pass its own strkey bytes here).
fn test_domain(env: &Env) -> Bytes {
    Bytes::from_slice(
        env,
        b"CAAAAAAAAAAAAAAAAAAAAAAAAAAAAAAAAAAAAAAAAAAAAAAAAAAAD2KM",
    )
}

fn sign_to_env(env: &Env, sk: &SigningKey, raw: &[u8]) -> BytesN<64> {
    let sig = sk.sign(raw);
    BytesN::from_array(env, &sig.to_bytes())
}

/// A list whose second position holds a number where a key should be.
fn broken_keys(env: &Env) -> soroban_sdk::Vec<BytesN<32>> {
    let mut raw: soroban_sdk::Vec<soroban_sdk::Val> = soroban_sdk::Vec::new(env);
    let sk = SigningKey::from_bytes(&[1u8; 32]);
    raw.push_back(BytesN::from_array(env, &sk.verifying_key().to_bytes()).to_val());
    raw.push_back(soroban_sdk::Val::from_u32(7).into());
    soroban_sdk::Vec::try_from_val(env, &raw.to_val()).unwrap()
}

// Mask validation

#[test]
fn zero_mask_rejected() {
    let env = setup();
    let (pubkeys, _sks) = keys(&env, 2);
    assert_eq!(
        signatures::validate_mask(&pubkeys, 0),
        Err(Error::InvalidSignature)
    );
}

#[test]
fn mask_bits_beyond_key_list_rejected() {
    let env = setup();
    let (pubkeys, _sks) = keys(&env, 2);
    // Bit 2 set but only 2 keys (bits 0..=1) exist.
    assert_eq!(
        signatures::validate_mask(&pubkeys, 0b100),
        Err(Error::InvalidSignature)
    );
    assert_eq!(
        signatures::validate_mask(&pubkeys, 0b111),
        Err(Error::InvalidSignature)
    );
}

#[test]
fn toomany_signers_rejected() {
    let env = setup();
    let mut long = soroban_sdk::Vec::new(&env);
    // 33 keys: one beyond `MAX_SIGNERS`.
    for i in 0..=32u8 {
        let sk = SigningKey::from_bytes(&[i.wrapping_add(1); 32]);
        long.push_back(BytesN::from_array(&env, &sk.verifying_key().to_bytes()));
    }
    assert_eq!(
        signatures::validate_mask(&long, 1),
        Err(Error::InvalidSignature)
    );
}

#[test]
fn well_formed_mask_accepted() {
    let env = setup();
    let (pubkeys, _sks) = keys(&env, 3);
    assert_eq!(signatures::validate_mask(&pubkeys, 0b101), Ok(()));
    assert_eq!(signatures::validate_mask(&pubkeys, 0b111), Ok(()));
}

#[test]
fn full_list_admits_every_mask() {
    let env = setup();
    let (pubkeys, _sks) = keys(&env, signatures::MAX_SIGNERS);
    assert_eq!(signatures::validate_mask(&pubkeys, u32::MAX), Ok(()));
    assert_eq!(signatures::validate_mask(&pubkeys, 1 << 31), Ok(()));
    let (shorter, _sks) = keys(&env, 31);
    assert_eq!(
        signatures::validate_mask(&shorter, 1 << 31),
        Err(Error::InvalidSignature)
    );
    let (none, _sks) = keys(&env, 0);
    assert_eq!(
        signatures::validate_mask(&none, 1),
        Err(Error::InvalidSignature)
    );
}

// The canonical message

#[test]
fn canonical_message_has_the_documented_layout() {
    let env = setup();
    let (pubkeys, _sks) = keys(&env, 3);
    let msg = signatures::canonical_message(
        &env,
        &test_domain(&env),
        &payload(&env),
        &pubkeys,
        0x8000_0105,
    );
    let expected = msg_bytes(&test_domain(&env), &payload(&env), &pubkeys, 0x8000_0105);
    assert_eq!(expected.len(), 16 + 56 + 64 + 3 * 32);
    assert_eq!(msg, Bytes::from_slice(&env, &expected));
    assert_eq!(&expected[..4], &[0, 0, 0, 56]);
    assert_eq!(&expected[expected.len() - 4..], &[0x80, 0, 1, 5]);
}

#[test]
fn empty_parts_still_frame() {
    let env = setup();
    let (none, _sks) = keys(&env, 0);
    let empty = Bytes::new(&env);
    let msg = signatures::canonical_message(&env, &empty, &empty, &none, 3);
    assert_eq!(
        msg,
        Bytes::from_slice(&env, &[0, 0, 0, 0, 0, 0, 0, 0, 0, 0, 0, 0, 0, 0, 0, 3])
    );
}

#[test]
fn message_binds_every_part() {
    let env = setup();
    let (two, _sks) = keys(&env, 2);
    let (three, _sks) = keys(&env, 3);
    let a = Bytes::from_slice(&env, b"a");
    let ab = Bytes::from_slice(&env, b"ab");
    let b = Bytes::from_slice(&env, b"b");
    let empty = Bytes::new(&env);
    let base = signatures::canonical_message(&env, &ab, &empty, &two, 3);
    assert_eq!(base, signatures::canonical_message(&env, &ab, &empty, &two, 3));
    for other in [
        signatures::canonical_message(&env, &a, &b, &two, 3),
        signatures::canonical_message(&env, &empty, &ab, &two, 3),
        signatures::canonical_message(&env, &ab, &empty, &three, 3),
        signatures::canonical_message(&env, &ab, &empty, &two, 1),
    ] {
        assert_ne!(base, other);
    }
}

#[test]
fn parts_of_another_environment_can_be_read() {
    let env = setup();
    let other = setup();
    let (pubkeys, _sks) = keys(&other, 2);
    let expected = msg_bytes(&test_domain(&other), &payload(&env), &pubkeys, 1);
    let msg =
        signatures::canonical_message(&env, &test_domain(&other), &payload(&env), &pubkeys, 1);
    assert_eq!(msg, Bytes::from_slice(&env, &expected));
}

// Aggregated verification

#[test]
fn aggregate_verifies_for_all_masked_signers() {
    let env = setup();
    let (pubkeys, sks) = keys(&env, 3);
    let mask = 0b111u32;

    let raw = msg_bytes(&test_domain(&env), &payload(&env), &pubkeys, mask);
    let sig = sign_to_env(&env, &sks[0], &raw);

    assert!(signatures::verify_aggregated_signature(
        &env,
        &test_domain(&env),
        &payload(&env),
        &pubkeys,
        mask,
        &sig
    )
    .unwrap());
}

#[test]
fn aggregate_rejects_forged_sub_signature() {
    let env = setup();
    let (pubkeys, _sks) = keys(&env, 3);
    let mask = 0b101u32;

    // A key that is not in the participant list produces a signature that must
    // fail for the designated aggregator key.
    let raw = msg_bytes(&test_domain(&env), &payload(&env), &pubkeys, mask);
    let forged = SigningKey::from_bytes(&[9u8; 32]);
    let wrong = sign_to_env(&env, &forged, &raw);

    let result = signatures::verify_aggregated_signature(
        &env,
        &test_domain(&env),
        &payload(&env),
        &pubkeys,
        mask,
        &wrong,
    );
    assert_eq!(result, Ok(false), "forged aggregate must be rejected");
}

#[test]
fn aggregate_refuses_malformed_masks() {
    let env = setup();
    let (pubkeys, sks) = keys(&env, 2);
    for mask in [0u32, 0b100, 0b111] {
        let raw = msg_bytes(&test_domain(&env), &payload(&env), &pubkeys, mask);
        let sig = sign_to_env(&env, &sks[0], &raw);
        assert_eq!(
            signatures::verify_aggregated_signature(
                &env,
                &test_domain(&env),
                &payload(&env),
                &pubkeys,
                mask,
                &sig
            ),
            Err(Error::InvalidSignature)
        );
    }
}

#[test]
fn aggregate_is_the_first_masked_signers_signature() {
    let env = setup();
    let (pubkeys, sks) = keys(&env, 3);
    let mask = 0b110u32;
    let raw = msg_bytes(&test_domain(&env), &payload(&env), &pubkeys, mask);
    for (i, sk) in sks.iter().enumerate() {
        let sig = sign_to_env(&env, sk, &raw);
        let aggregate = signatures::verify_aggregated_signature(
            &env,
            &test_domain(&env),
            &payload(&env),
            &pubkeys,
            mask,
            &sig,
        );
        let first = signatures::verify_individual_signature(
            &env,
            &test_domain(&env),
            &payload(&env),
            &pubkeys,
            mask,
            1,
            &sig,
        );
        assert_eq!(aggregate, first);
        assert_eq!(aggregate, Ok(i == 1));
    }
}

#[test]
fn malformed_mask_refuses_aggregate_and_audit_alike() {
    let env = setup();
    let (pubkeys, sks) = keys(&env, 2);
    for mask in [0u32, 0b100, 0b110] {
        let raw = msg_bytes(&test_domain(&env), &payload(&env), &pubkeys, mask);
        let sig = sign_to_env(&env, &sks[0], &raw);
        let aggregate = signatures::verify_aggregated_signature(
            &env,
            &test_domain(&env),
            &payload(&env),
            &pubkeys,
            mask,
            &sig,
        );
        let first = signatures::verify_individual_signature(
            &env,
            &test_domain(&env),
            &payload(&env),
            &pubkeys,
            mask,
            mask.trailing_zeros(),
            &sig,
        );
        assert_eq!(aggregate, Err(Error::InvalidSignature));
        assert_eq!(aggregate, first);
    }
}

#[test]
fn key_that_is_no_point_accepts_nothing() {
    let env = setup();
    let (_pubkeys, sks) = keys(&env, 1);
    let mut pubkeys = soroban_sdk::Vec::new(&env);
    // y = 2 is on no point of the curve.
    let mut bytes = [0u8; 32];
    bytes[0] = 2;
    pubkeys.push_back(BytesN::from_array(&env, &bytes));
    let raw = msg_bytes(&test_domain(&env), &payload(&env), &pubkeys, 1);
    let sig = sign_to_env(&env, &sks[0], &raw);
    assert_eq!(
        signatures::verify_aggregated_signature(
            &env,
            &test_domain(&env),
            &payload(&env),
            &pubkeys,
            1,
            &sig
        ),
        Ok(false)
    );
}

#[test]
fn individual_verification_for_each_masked_signer() {
    let env = setup();
    let (pubkeys, sks) = keys(&env, 3);
    let mask = 0b111u32;

    let payload = payload(&env);
    let raw = msg_bytes(&test_domain(&env), &payload, &pubkeys, mask);
    for (i, sk) in sks.iter().enumerate() {
        let sig = sign_to_env(&env, sk, &raw);
        assert!(signatures::verify_individual_signature(
            &env,
            &test_domain(&env),
            &payload,
            &pubkeys,
            mask,
            i as u32,
            &sig
        )
        .unwrap());
    }
}

#[test]
fn individual_verification_rejects_unmasked_signer() {
    let env = setup();
    let (pubkeys, _sks) = keys(&env, 3);
    let payload = payload(&env);
    let mask = 0b001u32; // only participant 0 signed.

    // Participant 1 is not in the mask: auditing it is a spec violation.
    assert_eq!(
        signatures::verify_individual_signature(
            &env,
            &test_domain(&env),
            &payload,
            &pubkeys,
            mask,
            1,
            &BytesN::from_array(&env, &[0u8; 64])
        ),
        Err(Error::InvalidSignature)
    );
}

#[test]
fn individual_verification_of_a_wrong_or_missing_signer() {
    let env = setup();
    let (pubkeys, sks) = keys(&env, 3);
    let mask = 0b111u32;
    let raw = msg_bytes(&test_domain(&env), &payload(&env), &pubkeys, mask);
    let sig = sign_to_env(&env, &sks[0], &raw);
    assert_eq!(
        signatures::verify_individual_signature(
            &env,
            &test_domain(&env),
            &payload(&env),
            &pubkeys,
            mask,
            2,
            &sig
        ),
        Ok(false)
    );
    for index in [3u32, 32, u32::MAX] {
        assert_eq!(
            signatures::verify_individual_signature(
                &env,
                &test_domain(&env),
                &payload(&env),
                &pubkeys,
                mask,
                index,
                &sig
            ),
            Err(Error::InvalidSignature)
        );
    }
}

#[test]
fn aggregator_key_is_first_masked_participant() {
    let env = setup();
    let (pubkeys, _sks) = keys(&env, 4);
    assert_eq!(
        signatures::aggregator_key(&pubkeys, 0b010),
        Ok(pubkeys.get(1).unwrap())
    );
    assert_eq!(
        signatures::aggregator_key(&pubkeys, 0b1000),
        Ok(pubkeys.get(3).unwrap())
    );
}

#[test]
fn aggregator_key_of_mixed_and_malformed_masks() {
    let env = setup();
    let (pubkeys, _sks) = keys(&env, 4);
    assert_eq!(
        signatures::aggregator_key(&pubkeys, 0b1100),
        Ok(pubkeys.get(2).unwrap())
    );
    assert_eq!(
        signatures::aggregator_key(&pubkeys, 0),
        Err(Error::InvalidSignature)
    );
    assert_eq!(
        signatures::aggregator_key(&pubkeys, 0b10000),
        Err(Error::InvalidSignature)
    );
}

// Replay and binding

#[test]
fn signature_binds_the_contract_id() {
    let env = setup();
    let (pubkeys, sks) = keys(&env, 2);
    let mask = 0b11u32;

    // Sign a message bound to a different contract; verifying it for this one
    // must reject it.
    let payload_b = payload(&env);
    let dom1 = test_domain(&env);
    let dom2 = Bytes::from_slice(
        &env,
        b"CAAAAAAAAAAAAAAAAAAAAAAAAAAAAAAAAAAAAAAAAAAAAAAAAAAAD2KMX",
    );
    let raw2 = msg_bytes(&dom2, &payload_b, &pubkeys, mask);
    let sig = sign_to_env(&env, &sks[0], &raw2);

    let result =
        signatures::verify_aggregated_signature(&env, &dom1, &payload_b, &pubkeys, mask, &sig);
    assert_eq!(
        result,
        Ok(false),
        "cross-contract signature must be rejected"
    );
    assert_eq!(
        signatures::verify_aggregated_signature(&env, &dom2, &payload_b, &pubkeys, mask, &sig),
        Ok(true)
    );
}

#[test]
fn aggregate_roundtrip_single_use() {
    let env = setup();
    let (pubkeys, sks) = keys(&env, 1);
    let payload = payload(&env);
    let mask = 1u32;

    let raw = msg_bytes(&test_domain(&env), &payload, &pubkeys, mask);
    let sig = sign_to_env(&env, &sks[0], &raw);
    assert!(signatures::verify_individual_signature(
        &env,
        &test_domain(&env),
        &payload,
        &pubkeys,
        mask,
        0,
        &sig
    )
    .unwrap());
    assert!(signatures::verify_aggregated_signature(
        &env,
        &test_domain(&env),
        &payload,
        &pubkeys,
        mask,
        &sig
    )
    .unwrap());
}

#[test]
fn address_import_available() {
    let env = setup();
    let _addr = Address::generate(&env);
}

// Lists that hold something other than keys

#[test]
fn unreadable_lists_are_recognised() {
    let env = setup();
    let broken = broken_keys(&env);
    let (pubkeys, sks) = keys(&env, 2);
    let domain = test_domain(&env);
    let payload = payload(&env);
    let raw = msg_bytes(&domain, &payload, &pubkeys, 0b11);
    let sig = sign_to_env(&env, &sks[0], &raw);

    assert!(signatures::has_readable_keys(&pubkeys));
    assert!(!signatures::has_readable_keys(&broken));
    assert!(signatures::can_build_message(&domain, &payload, &pubkeys));
    assert!(!signatures::can_build_message(&domain, &payload, &broken));
    assert_eq!(signatures::validate_mask(&broken, 0b11), Ok(()));

    assert_eq!(
        signatures::try_canonical_message(&env, &domain, &payload, &pubkeys, 0b11),
        Some(Bytes::from_slice(&env, &raw))
    );
    assert_eq!(
        signatures::try_canonical_message(&env, &domain, &payload, &broken, 0b11),
        None
    );
    assert_eq!(
        signatures::try_aggregator_key(&pubkeys, 0b10),
        Some(Ok(pubkeys.get(1).unwrap()))
    );
    assert_eq!(
        signatures::try_aggregator_key(&pubkeys, 0b100),
        Some(Err(Error::InvalidSignature))
    );
    assert_eq!(signatures::try_aggregator_key(&broken, 0b10), None);
    assert_eq!(
        signatures::try_verify_aggregated_signature(
            &env, &domain, &payload, &pubkeys, 0b11, &sig
        ),
        Some(Ok(true))
    );
    assert_eq!(
        signatures::try_verify_aggregated_signature(&env, &domain, &payload, &broken, 0b11, &sig),
        None
    );
    assert_eq!(
        signatures::try_verify_individual_signature(
            &env, &domain, &payload, &pubkeys, 0b11, 1, &sig
        ),
        Some(Ok(false))
    );
    assert_eq!(
        signatures::try_verify_individual_signature(
            &env, &domain, &payload, &broken, 0b11, 0, &sig
        ),
        None
    );
}
