//! Public keys and signatures as a token gives them.

use sq_pkcs11::bytes::rsa_modulus_bit_length;
use sq_pkcs11::der::{digest_info_prefix, oid_to_curve, parse_der_length, unwrap_octet_string};
use sq_pkcs11::openpgp::{
    Curve, HashAlgorithm, Key, PublicKey, PublicKeyAlgorithm, UnixTime,
};
use sq_pkcs11::signer::{
    encode_signature, expected_ecdsa_signature_len, find_companion_public_key, read_ec_public,
    read_public_key, read_rsa_public, resolve_companion, validate_uncompressed_ec_point,
    Mechanism, Pkcs11Signer, SignatureMpis,
};
use sq_pkcs11::token::{key_type_name, Attribute, AttributeType, KeyType, ObjectClass};

// ---------------------------------------------------------------------------
// oid_to_curve
// ---------------------------------------------------------------------------

#[test]
fn oid_to_curve_p256() {
    // 1.2.840.10045.3.1.7
    let der = &[0x06, 0x08, 0x2a, 0x86, 0x48, 0xce, 0x3d, 0x03, 0x01, 0x07];
    assert!(matches!(oid_to_curve(der).unwrap(), Curve::NistP256));
}

#[test]
fn oid_to_curve_p384() {
    // 1.3.132.0.34
    let der = &[0x06, 0x05, 0x2b, 0x81, 0x04, 0x00, 0x22];
    assert!(matches!(oid_to_curve(der).unwrap(), Curve::NistP384));
}

#[test]
fn oid_to_curve_p521() {
    // 1.3.132.0.35
    let der = &[0x06, 0x05, 0x2b, 0x81, 0x04, 0x00, 0x23];
    assert!(matches!(oid_to_curve(der).unwrap(), Curve::NistP521));
}

#[test]
fn oid_to_curve_unsupported_curve() {
    // 1.2.840.10045.3.1.1 (P-192): a valid OID, but no supported curve
    let der = &[0x06, 0x08, 0x2a, 0x86, 0x48, 0xce, 0x3d, 0x03, 0x01, 0x01];
    assert!(oid_to_curve(der).is_err());
}

#[test]
fn oid_to_curve_wrong_tag() {
    // OCTET STRING (0x04) instead of OID (0x06)
    let der = &[0x04, 0x05, 0x2b, 0x81, 0x04, 0x00, 0x22];
    assert!(oid_to_curve(der).is_err());
}

#[test]
fn oid_to_curve_truncated() {
    // The length byte says 8, but only 2 bytes follow
    let der = &[0x06, 0x08, 0x2a, 0x86];
    assert!(oid_to_curve(der).is_err());
}

#[test]
fn oid_to_curve_empty() {
    assert!(oid_to_curve(&[]).is_err());
}

#[test]
fn unsupported_oid_is_shown_in_hexadecimal() {
    let der = [0x06, 0x08, 0x2a, 0x86, 0x48, 0xce, 0x3d, 0x03, 0x01, 0x01];
    let err = oid_to_curve(&der).unwrap_err().to_string();
    assert_eq!(err, "unsupported key type on HSM: unsupported EC OID: 2a8648ce3d030101");
}

// ---------------------------------------------------------------------------
// unwrap_octet_string
// ---------------------------------------------------------------------------

#[test]
fn unwrap_octet_string_valid() {
    let der = &[0x04, 0x03, 0xaa, 0xbb, 0xcc];
    assert_eq!(unwrap_octet_string(der).unwrap(), vec![0xaa, 0xbb, 0xcc]);
}

#[test]
fn unwrap_octet_string_empty_payload() {
    let der = &[0x04, 0x00];
    assert_eq!(unwrap_octet_string(der).unwrap(), Vec::<u8>::new());
}

#[test]
fn unwrap_octet_string_wrong_tag() {
    // OID tag instead of OCTET STRING
    let der = &[0x06, 0x03, 0xaa, 0xbb, 0xcc];
    assert!(unwrap_octet_string(der).is_err());
}

#[test]
fn unwrap_octet_string_truncated() {
    // The length byte says 5, but only 2 bytes follow
    let der = &[0x04, 0x05, 0xaa, 0xbb];
    assert!(unwrap_octet_string(der).is_err());
}

#[test]
fn unwrap_octet_string_p384_point_shape() {
    // 97 bytes fit the short form of the length.
    let mut payload = vec![0x04];
    payload.extend(vec![0xaa; 48]);
    payload.extend(vec![0xbb; 48]);
    assert_eq!(payload.len(), 97);

    let mut der = vec![0x04, 0x61];
    der.extend(&payload);
    assert_eq!(unwrap_octet_string(&der).unwrap(), payload);
}

#[test]
fn unwrap_octet_string_p521_long_form_length() {
    // 133 bytes need the long form: one length byte follows 0x81.
    let mut payload = vec![0x04];
    payload.extend(vec![0xaa; 66]);
    payload.extend(vec![0xbb; 66]);
    assert_eq!(payload.len(), 133);

    let mut der = vec![0x04, 0x81, 0x85];
    der.extend(&payload);
    assert_eq!(unwrap_octet_string(&der).unwrap(), payload);
}

#[test]
fn unwrap_octet_string_long_form_two_byte_length() {
    let payload: Vec<u8> = (0..300).map(|i| (i & 0xff) as u8).collect();
    let mut der = vec![0x04, 0x82, 0x01, 0x2c]; // 0x012c = 300
    der.extend(&payload);
    assert_eq!(unwrap_octet_string(&der).unwrap(), payload);
}

#[test]
fn unwrap_octet_string_long_form_truncated_rejected() {
    // 0x81 says that one length byte follows, but none does.
    let der = &[0x04, 0x81];
    assert!(unwrap_octet_string(der).is_err());
}

#[test]
fn bytes_after_the_octet_string_are_left() {
    assert_eq!(unwrap_octet_string(&[0x04, 0x01, 0xaa, 0xbb]).unwrap(), vec![0xaa]);
}

#[test]
fn der_lengths_in_both_forms() {
    let (n, rest) = parse_der_length(&[0x05, 0xaa]).unwrap();
    assert_eq!((n, rest), (5, &[0xaa][..]));
    let (n, rest) = parse_der_length(&[0x82, 0x01, 0x00, 0xbb]).unwrap();
    assert_eq!((n, rest), (256, &[0xbb][..]));
    assert_eq!(
        parse_der_length(&[]).unwrap_err().to_string(),
        "unsupported key type on HSM: DER length missing"
    );
    assert!(parse_der_length(&[0x80]).is_err());
    let err = parse_der_length(&[0x89, 1, 2, 3, 4, 5, 6, 7, 8, 9]).unwrap_err().to_string();
    assert!(err.contains("DER long-form length count 9 unsupported"), "got: {err}");
    assert!(parse_der_length(&[0x82, 0x01]).is_err());
}

// ---------------------------------------------------------------------------
// rsa_modulus_bit_length
// ---------------------------------------------------------------------------

#[test]
fn rsa_modulus_bit_length_basic() {
    // 256 bytes, high bit of the first byte set: 2048 bits.
    let mut m2048 = vec![0xff; 256];
    m2048[0] = 0x80;
    assert_eq!(rsa_modulus_bit_length(&m2048), 2048);

    // 256 bytes, high bit of the first byte clear: 2047 bits.
    let mut m2047 = vec![0xff; 256];
    m2047[0] = 0x7f;
    assert_eq!(rsa_modulus_bit_length(&m2047), 2047);

    let mut m3072 = vec![0u8; 384];
    m3072[0] = 0xc0;
    assert_eq!(rsa_modulus_bit_length(&m3072), 384 * 8);
    assert_eq!(rsa_modulus_bit_length(&m3072), 3072);

    let mut m4096 = vec![0u8; 512];
    m4096[0] = 0x80;
    assert_eq!(rsa_modulus_bit_length(&m4096), 4096);
}

#[test]
fn rsa_modulus_bit_length_skips_leading_zeros() {
    let m = [0x00, 0x00, 0x00, 0x80];
    assert_eq!(rsa_modulus_bit_length(&m), 8);
}

#[test]
fn rsa_modulus_bit_length_all_zero() {
    assert_eq!(rsa_modulus_bit_length(&[0x00, 0x00, 0x00]), 0);
    assert_eq!(rsa_modulus_bit_length(&[]), 0);
}

#[test]
fn rsa_modulus_bit_length_below_2048_rejected() {
    let mut m1024 = vec![0u8; 128];
    m1024[0] = 0x80;
    assert_eq!(rsa_modulus_bit_length(&m1024), 1024);
    assert!(rsa_modulus_bit_length(&m1024) < 2048);
}

// ---------------------------------------------------------------------------
// digest_info_prefix: the values of RFC 8017, section 9.2
// ---------------------------------------------------------------------------

#[test]
fn digest_info_prefix_sha256() {
    let prefix = digest_info_prefix(HashAlgorithm::SHA256).unwrap();
    assert_eq!(
        prefix,
        &[
            0x30, 0x31, 0x30, 0x0d, 0x06, 0x09, 0x60, 0x86, 0x48, 0x01, 0x65, 0x03, 0x04, 0x02,
            0x01, 0x05, 0x00, 0x04, 0x20,
        ]
    );
    assert_eq!(*prefix.last().unwrap(), 32);
}

#[test]
fn digest_info_prefix_sha384() {
    let prefix = digest_info_prefix(HashAlgorithm::SHA384).unwrap();
    assert_eq!(
        prefix,
        &[
            0x30, 0x41, 0x30, 0x0d, 0x06, 0x09, 0x60, 0x86, 0x48, 0x01, 0x65, 0x03, 0x04, 0x02,
            0x02, 0x05, 0x00, 0x04, 0x30,
        ]
    );
    assert_eq!(*prefix.last().unwrap(), 48);
}

#[test]
fn digest_info_prefix_sha512() {
    let prefix = digest_info_prefix(HashAlgorithm::SHA512).unwrap();
    assert_eq!(
        prefix,
        &[
            0x30, 0x51, 0x30, 0x0d, 0x06, 0x09, 0x60, 0x86, 0x48, 0x01, 0x65, 0x03, 0x04, 0x02,
            0x03, 0x05, 0x00, 0x04, 0x40,
        ]
    );
    assert_eq!(*prefix.last().unwrap(), 64);
}

#[test]
fn digest_info_prefix_rejects_sha1() {
    assert!(digest_info_prefix(HashAlgorithm::SHA1).is_err());
}

#[test]
fn digest_info_prefix_rejects_md5() {
    assert!(digest_info_prefix(HashAlgorithm::MD5).is_err());
}

// ---------------------------------------------------------------------------
// encode_signature
// ---------------------------------------------------------------------------

fn rsa_test_key() -> Key {
    Key::new(
        UnixTime::epoch(),
        PublicKeyAlgorithm::RSAEncryptSign,
        PublicKey::RSA {
            e: vec![0x01, 0x00, 0x01],
            n: vec![0xff; 256],
        },
    )
    .unwrap()
}

fn ecdsa_p384_test_key() -> Key {
    let mut q = vec![0x04];
    q.extend(vec![0xaa; 48]);
    q.extend(vec![0xbb; 48]);
    Key::new(
        UnixTime::epoch(),
        PublicKeyAlgorithm::ECDSA,
        PublicKey::ECDSA {
            curve: Curve::NistP384,
            q,
        },
    )
    .unwrap()
}

#[test]
fn encode_signature_rsa_passthrough() {
    let key = rsa_test_key();
    let raw = vec![0x11, 0x22, 0x33, 0x44, 0x55];
    let sig = encode_signature(&key, &raw).unwrap();
    match sig {
        SignatureMpis::RSA { s } => assert_eq!(s.as_slice(), raw.as_slice()),
        _ => panic!("expected RSA signature"),
    }
}

#[test]
fn encode_signature_ecdsa_splits_in_half() {
    // P-384: 96 bytes, 48 of them for r and for s.
    let r_bytes = [0x11u8; 48];
    let s_bytes = [0x22u8; 48];
    let mut raw = Vec::with_capacity(96);
    raw.extend_from_slice(&r_bytes);
    raw.extend_from_slice(&s_bytes);

    let key = ecdsa_p384_test_key();
    let sig = encode_signature(&key, &raw).unwrap();
    match sig {
        SignatureMpis::ECDSA { r, s } => {
            assert_eq!(r.as_slice(), r_bytes.as_slice());
            assert_eq!(s.as_slice(), s_bytes.as_slice());
        }
        _ => panic!("expected ECDSA signature"),
    }
}

#[test]
fn encode_signature_ecdsa_rejects_too_short() {
    let raw = vec![0x11u8; 48];
    let key = ecdsa_p384_test_key();
    let err = encode_signature(&key, &raw).unwrap_err().to_string();
    assert!(
        err.contains("expected 96") && err.contains("48 bytes"),
        "expected curve-mismatch error mentioning both sizes, got: {err}"
    );
}

#[test]
fn encode_signature_ecdsa_rejects_too_long() {
    let raw = vec![0x11u8; 100];
    let key = ecdsa_p384_test_key();
    let err = encode_signature(&key, &raw).unwrap_err().to_string();
    assert!(err.contains("expected 96"), "got: {err}");
}

#[test]
fn encode_signature_ecdsa_rejects_odd_length() {
    let raw = vec![0x11u8; 95];
    let key = ecdsa_p384_test_key();
    assert!(encode_signature(&key, &raw).is_err());
}

#[test]
fn leading_zeros_of_signature_numbers_are_dropped() {
    let mut raw = vec![0u8; 96];
    raw[47] = 0x07;
    raw[49] = 0x01;
    match encode_signature(&ecdsa_p384_test_key(), &raw).unwrap() {
        SignatureMpis::ECDSA { r, s } => {
            assert_eq!(r, vec![0x07]);
            assert_eq!(s.len(), 47);
            assert_eq!(s[0], 0x01);
        }
        _ => panic!("expected ECDSA signature"),
    }
    match encode_signature(&rsa_test_key(), &[0x00, 0x00, 0x80, 0x00]).unwrap() {
        SignatureMpis::RSA { s } => assert_eq!(s, vec![0x80, 0x00]),
        _ => panic!("expected RSA signature"),
    }
}

#[test]
fn other_algorithms_have_no_signature_encoding() {
    let mut key = rsa_test_key();
    key.pk_algo = PublicKeyAlgorithm::DSA;
    let err = encode_signature(&key, &[1, 2]).unwrap_err().to_string();
    assert_eq!(
        err,
        "Invalid argument: unsupported algorithm for signature encoding: DSA"
    );
    key.pk_algo = PublicKeyAlgorithm::ECDSA;
    let err = encode_signature(&key, &[1, 2]).unwrap_err().to_string();
    assert_eq!(
        err,
        "Invalid argument: ECDSA pk_algo but non-ECDSA public-key material"
    );
}

#[test]
fn expected_ecdsa_signature_len_per_curve() {
    assert_eq!(expected_ecdsa_signature_len(&Curve::NistP256).unwrap(), 64);
    assert_eq!(expected_ecdsa_signature_len(&Curve::NistP384).unwrap(), 96);
    assert_eq!(expected_ecdsa_signature_len(&Curve::NistP521).unwrap(), 132);
    // A curve that is not supported has no default size.
    assert!(expected_ecdsa_signature_len(&Curve::Cv25519).is_err());
}

// ---------------------------------------------------------------------------
// validate_uncompressed_ec_point
// ---------------------------------------------------------------------------

fn ec_point(prefix: u8, len: usize) -> Vec<u8> {
    let mut p = Vec::with_capacity(len);
    p.push(prefix);
    p.resize(len, 0x11u8);
    p
}

#[test]
fn ec_point_accepts_well_formed_p256_p384_p521() {
    // P-256: 0x04 + 32 + 32 = 65 bytes
    validate_uncompressed_ec_point(&Curve::NistP256, &ec_point(0x04, 65)).unwrap();
    // P-384: 0x04 + 48 + 48 = 97
    validate_uncompressed_ec_point(&Curve::NistP384, &ec_point(0x04, 97)).unwrap();
    // P-521: 0x04 + 66 + 66 = 133
    validate_uncompressed_ec_point(&Curve::NistP521, &ec_point(0x04, 133)).unwrap();
}

#[test]
fn ec_point_rejects_compressed_prefix() {
    for prefix in [0x02u8, 0x03] {
        let err = validate_uncompressed_ec_point(&Curve::NistP384, &ec_point(prefix, 97))
            .unwrap_err()
            .to_string();
        assert!(
            err.contains("uncompressed") && err.contains("compressed"),
            "expected message naming compressed encoding for prefix {prefix:#04x}, got: {err}"
        );
    }
}

#[test]
fn ec_point_rejects_point_at_infinity() {
    let err = validate_uncompressed_ec_point(&Curve::NistP256, &ec_point(0x00, 1))
        .unwrap_err()
        .to_string();
    assert!(err.contains("infinity"), "got: {err}");
}

#[test]
fn ec_point_rejects_unknown_prefix() {
    let err = validate_uncompressed_ec_point(&Curve::NistP256, &ec_point(0x05, 65))
        .unwrap_err()
        .to_string();
    assert!(
        err.contains("unknown") || err.contains("0x05"),
        "got: {err}"
    );
}

#[test]
fn ec_point_rejects_wrong_length() {
    let err = validate_uncompressed_ec_point(&Curve::NistP256, &ec_point(0x04, 97))
        .unwrap_err()
        .to_string();
    assert!(
        err.contains("expected 65") && err.contains("97"),
        "got: {err}"
    );
}

#[test]
fn ec_point_rejects_empty() {
    assert!(validate_uncompressed_ec_point(&Curve::NistP256, &[]).is_err());
}

#[test]
fn ec_point_rejects_other_curves() {
    assert!(validate_uncompressed_ec_point(&Curve::Ed25519, &ec_point(0x04, 65)).is_err());
}

// ---------------------------------------------------------------------------
// Reading public keys
// ---------------------------------------------------------------------------

fn rsa_attributes(modulus: Vec<u8>) -> Vec<Attribute> {
    vec![
        Attribute::Bytes(AttributeType::Modulus, modulus),
        Attribute::Bytes(AttributeType::PublicExponent, vec![0x01, 0x00, 0x01]),
    ]
}

fn p256_attributes(point: Vec<u8>) -> Vec<Attribute> {
    let mut wrapped = vec![0x04, point.len() as u8];
    wrapped.extend(point);
    vec![
        Attribute::Bytes(
            AttributeType::EcParams,
            vec![0x06, 0x08, 0x2a, 0x86, 0x48, 0xce, 0x3d, 0x03, 0x01, 0x07],
        ),
        Attribute::Bytes(AttributeType::EcPoint, wrapped),
    ]
}

#[test]
fn rsa_key_is_read_from_its_attributes() {
    let mut padded = vec![0x00];
    padded.extend(vec![0xc3; 256]);
    let key = read_rsa_public(&rsa_attributes(padded)).unwrap();
    assert_eq!(key.creation_time, 0);
    assert_eq!(key.pk_algo, PublicKeyAlgorithm::RSAEncryptSign);
    match key.mpis {
        PublicKey::RSA { e, n } => {
            assert_eq!(e, vec![0x01, 0x00, 0x01]);
            assert_eq!(n, vec![0xc3; 256]);
        }
        _ => panic!("expected RSA material"),
    }
}

#[test]
fn small_rsa_keys_are_refused() {
    let err = read_rsa_public(&rsa_attributes(vec![0xff; 128])).unwrap_err().to_string();
    assert!(err.contains("RSA modulus is 1024 bits"), "got: {err}");
    assert!(err.contains("minimum supported is 2048"), "got: {err}");
    let err = read_rsa_public(&vec![]).unwrap_err().to_string();
    assert!(err.contains("RSA key missing modulus"), "got: {err}");
    let only = vec![Attribute::Bytes(AttributeType::Modulus, vec![0xff; 256])];
    let err = read_rsa_public(&only).unwrap_err().to_string();
    assert!(err.contains("RSA key missing exponent"), "got: {err}");
}

#[test]
fn ec_key_is_read_from_its_attributes() {
    let key = read_ec_public(&p256_attributes(ec_point(0x04, 65))).unwrap();
    assert_eq!(key.pk_algo, PublicKeyAlgorithm::ECDSA);
    match key.mpis {
        PublicKey::ECDSA { curve, q } => {
            assert!(matches!(curve, Curve::NistP256));
            assert_eq!(q, ec_point(0x04, 65));
        }
        _ => panic!("expected ECDSA material"),
    }
}

#[test]
fn faulty_ec_keys_are_refused() {
    assert!(read_ec_public(&p256_attributes(ec_point(0x02, 65))).is_err());
    assert!(read_ec_public(&p256_attributes(ec_point(0x04, 64))).is_err());
    let err = read_ec_public(&vec![]).unwrap_err().to_string();
    assert!(err.contains("EC key missing CKA_EC_PARAMS"), "got: {err}");
    let mut attrs = p256_attributes(ec_point(0x04, 65));
    attrs.truncate(1);
    let err = read_ec_public(&attrs).unwrap_err().to_string();
    assert!(err.contains("EC key missing CKA_EC_POINT"), "got: {err}");
}

#[test]
fn other_key_types_are_refused() {
    let err = read_public_key(KeyType::AES, &vec![]).unwrap_err().to_string();
    assert!(err.starts_with("unsupported key type on HSM: "), "got: {err}");
}

// ---------------------------------------------------------------------------
// The public key beside a private one
// ---------------------------------------------------------------------------

#[test]
fn companion_is_found_by_id_and_label() {
    let attrs = vec![
        Attribute::Bytes(AttributeType::Id, vec![0x01]),
        Attribute::Bytes(AttributeType::Label, b"k".to_vec()),
    ];
    let template = find_companion_public_key(&attrs).unwrap();
    assert_eq!(template.len(), 3);
    assert!(matches!(template[0], Attribute::Class(ObjectClass::PublicKey)));
    let ids = template
        .iter()
        .filter(|a| matches!(a, Attribute::Bytes(AttributeType::Id, v) if v == &vec![0x01]))
        .count();
    assert_eq!(ids, 1);
    let labels = template
        .iter()
        .filter(|a| matches!(a, Attribute::Bytes(AttributeType::Label, v) if v == b"k"))
        .count();
    assert_eq!(labels, 1);
}

#[test]
fn companion_needs_an_id_or_a_label() {
    let empty = vec![
        Attribute::Bytes(AttributeType::Id, vec![]),
        Attribute::Bytes(AttributeType::Label, vec![]),
    ];
    let err = find_companion_public_key(&empty).unwrap_err().to_string();
    assert!(err.contains("neither CKA_ID nor CKA_LABEL"), "got: {err}");
}

#[test]
fn companion_must_be_unique() {
    assert_eq!(resolve_companion(&vec![7]).unwrap(), 7);
    assert!(resolve_companion(&vec![]).is_err());
    let err = resolve_companion(&vec![7, 8]).unwrap_err().to_string();
    assert!(err.contains("ambiguous companion public-key lookup: 2"), "got: {err}");
}

// ---------------------------------------------------------------------------
// Signing
// ---------------------------------------------------------------------------

#[test]
fn rsa_token_signs_the_digest_info() {
    let signer = Pkcs11Signer::new(5, KeyType::RSA, &rsa_attributes(vec![0xff; 256])).unwrap();
    let request = signer.sign_request(HashAlgorithm::SHA256, &[0xab; 32]).unwrap();
    assert_eq!(request.mechanism, Mechanism::RsaPkcs);
    assert_eq!(request.handle, 5);
    let mut expected = digest_info_prefix(HashAlgorithm::SHA256).unwrap();
    expected.extend([0xab; 32]);
    assert_eq!(request.input, expected);
    assert!(signer.sign_request(HashAlgorithm::SHA1, &[0xab; 20]).is_err());
}

#[test]
fn ec_token_signs_the_digest() {
    let attrs = p256_attributes(ec_point(0x04, 65));
    let signer = Pkcs11Signer::new(9, KeyType::EC, &attrs).unwrap();
    let request = signer.sign_request(HashAlgorithm::SHA256, &[0xcd; 32]).unwrap();
    assert_eq!(request.mechanism, Mechanism::Ecdsa);
    assert_eq!(request.handle, 9);
    assert_eq!(request.input, vec![0xcd; 32]);
}

#[test]
fn failure_of_the_token_is_reported() {
    let attrs = p256_attributes(ec_point(0x04, 65));
    let signer = Pkcs11Signer::new(9, KeyType::EC, &attrs).unwrap();
    let err = signer.signature(Err("device removed".to_string())).unwrap_err();
    assert_eq!(err.to_string(), "PKCS#11 C_Sign failed: device removed");
    assert!(signer.signature(Ok(vec![0x11; 64])).is_ok());
    assert!(signer.signature(Ok(vec![0x11; 63])).is_err());
}

#[test]
fn creation_time_is_set_on_the_public_key() {
    let attrs = p256_attributes(ec_point(0x04, 65));
    let mut signer = Pkcs11Signer::new(9, KeyType::EC, &attrs).unwrap();
    assert_eq!(signer.public_key().creation_time, 0);
    signer
        .set_creation_time(UnixTime {
            secs: 1_767_225_600,
            nanos: 0,
        })
        .unwrap();
    assert_eq!(signer.public_key().creation_time, 1_767_225_600);
    let far = UnixTime {
        secs: 1 << 32,
        nanos: 0,
    };
    assert!(signer.set_creation_time(far).is_err());
    assert_eq!(signer.public_key().creation_time, 1_767_225_600);
}

#[test]
fn key_types_have_their_codes_and_names() {
    for (code, kt) in [(0, KeyType::RSA), (3, KeyType::EC), (0x1f, KeyType::AES)] {
        assert_eq!(KeyType::from_code(code), kt);
        assert_eq!(kt.code(), code);
    }
    assert_eq!(KeyType::from_code(0x9999), KeyType::Other(0x9999));
    assert_eq!(key_type_name(KeyType::RSA), "RSA");
    assert_eq!(key_type_name(KeyType::EC), "EC (ECDSA/ECDH)");
    assert_eq!(
        key_type_name(KeyType::Other(39321)),
        "unknown (KeyType { val: 39321 })"
    );
}
