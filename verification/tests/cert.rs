//! Certificates, keys and exported packets.

use std::time::{Duration, SystemTime};

use sequoia_openpgp::cert::{CertBuilder, CipherSuite};
use sequoia_openpgp::packet::Packet;
use sequoia_openpgp::parse::{PacketParser, PacketParserResult, Parse};
use sequoia_openpgp::serialize::{MarshalInto, SerializeInto};

use sq_pkcs11::cert::{
    armor_cert, cert_of_keys, export_armored_cert, export_armored_signature, export_binary_cert,
    export_binary_signature, parse_cert, preferred_hash_for, preferred_hashes,
    preferred_symmetric, remove_armor, signers_among, KeyStatus, RawKey, Signature,
};
use sq_pkcs11::openpgp::{
    Curve, Fingerprint, HashAlgorithm, Key, PublicKey, PublicKeyAlgorithm, SymmetricAlgorithm,
    UnixTime,
};

/// The body of a revocation of a software certificate.
fn software_revocation() -> Signature {
    let (_cert, revocation) = CertBuilder::new()
        .set_cipher_suite(CipherSuite::P256)
        .add_userid("Export Test <export@example.com>")
        .generate()
        .expect("software cert generation");
    Signature {
        body: MarshalInto::to_vec(&revocation).expect("body"),
    }
}

fn software_cert(suite: CipherSuite) -> sequoia_openpgp::Cert {
    CertBuilder::new()
        .set_cipher_suite(suite)
        .set_creation_time(SystemTime::UNIX_EPOCH + Duration::from_secs(1_767_225_600))
        .add_userid("Reading Test <reading@example.com>")
        .add_signing_subkey()
        .generate()
        .expect("software cert generation")
        .0
}

fn assert_parses_as_single_signature(bytes: &[u8]) {
    let mut ppr = PacketParser::from_bytes(bytes).expect("PacketParser init");
    let mut count = 0;
    while let PacketParserResult::Some(pp) = ppr {
        let (packet, next) = pp.recurse().expect("packet recurse");
        assert!(
            matches!(packet, Packet::Signature(_)),
            "expected Signature packet, got {packet:?}"
        );
        count += 1;
        ppr = next;
    }
    assert_eq!(count, 1, "expected exactly one packet, got {count}");
}

#[test]
fn export_binary_signature_is_a_framed_packet() {
    let sig = software_revocation();
    let bytes = export_binary_signature(&sig).expect("export_binary_signature");

    // The first byte of any OpenPGP packet has its upper bit set.
    assert!(
        !bytes.is_empty() && bytes[0] & 0x80 != 0,
        "first byte must have MSB set (CTB framing); got 0x{:02x}",
        bytes.first().copied().unwrap_or(0)
    );

    assert_parses_as_single_signature(&bytes);
}

#[test]
fn export_armored_signature_dearmors_to_a_framed_packet() {
    let sig = software_revocation();
    let armored = export_armored_signature(&sig).expect("export_armored_signature");

    assert!(
        armored.starts_with("-----BEGIN PGP PUBLIC KEY BLOCK-----"),
        "missing armor BEGIN line"
    );
    assert!(
        armored.contains("Comment: This is a revocation certificate"),
        "missing revocation Comment header"
    );

    assert_parses_as_single_signature(armored.as_bytes());
}

#[test]
fn packet_lengths_take_one_two_or_five_octets() {
    for (len, head) in [
        (0usize, vec![0xc2, 0x00]),
        (191, vec![0xc2, 191]),
        (192, vec![0xc2, 192, 0]),
        (8383, vec![0xc2, 223, 255]),
        (8384, vec![0xc2, 0xff, 0, 0, 0x20, 0xc0]),
    ] {
        let sig = Signature { body: vec![0x5a; len] };
        let packet = export_binary_signature(&sig).unwrap();
        assert_eq!(&packet[..head.len()], head.as_slice());
        assert_eq!(&packet[head.len()..], sig.body.as_slice());
    }
}

#[test]
fn armor_starts_with_its_header() {
    let sig = Signature { body: vec![0x5a; 20] };
    assert!(export_armored_signature(&sig).unwrap().starts_with(
        "-----BEGIN PGP PUBLIC KEY BLOCK-----\nComment: This is a revocation certificate\n\n"
    ));
}

#[test]
fn read_certificate_has_the_published_keys() {
    for suite in [CipherSuite::P256, CipherSuite::P384, CipherSuite::P521, CipherSuite::RSA2k] {
        let published = software_cert(suite);
        let bytes = SerializeInto::to_vec(&published).unwrap();
        let cert = parse_cert(&bytes).unwrap();
        assert_eq!(
            cert.primary.fingerprint.text(),
            published.fingerprint().to_hex()
        );
        assert_eq!(cert.primary.creation_time, 1_767_225_600);
        assert_eq!(cert.primary.version, 4);
        assert_eq!(cert.subkeys.len(), 1);
        let subkey = published.keys().subkeys().next().unwrap();
        assert_eq!(
            cert.subkeys[0].fingerprint.text(),
            subkey.key().fingerprint().to_hex()
        );
        assert_eq!(cert.data, bytes);
        assert_eq!(export_binary_cert(&cert).unwrap(), bytes);
    }
}

#[test]
fn made_key_has_the_fingerprint_of_the_published_one() {
    for suite in [CipherSuite::P256, CipherSuite::P384, CipherSuite::P521, CipherSuite::RSA2k] {
        let bytes = SerializeInto::to_vec(&software_cert(suite)).unwrap();
        let cert = parse_cert(&bytes).unwrap();
        let algo = if cert.primary.algo == 1 {
            PublicKeyAlgorithm::RSAEncryptSign
        } else {
            PublicKeyAlgorithm::ECDSA
        };
        let time = UnixTime {
            secs: cert.primary.creation_time as u64,
            nanos: 0,
        };
        let key = Key::new(time, algo, cert.primary.material.clone()).unwrap();
        assert!(key.is_usable());
        assert!(key.fingerprint().same(&cert.primary.fingerprint));
        assert!(!key.fingerprint().same(&cert.subkeys[0].fingerprint));
    }
}

fn p256_key(secs: u64) -> Key {
    let mut q = vec![0x04];
    q.extend(vec![0x11; 64]);
    let material = PublicKey::ECDSA {
        curve: Curve::NistP256,
        q,
    };
    let time = UnixTime { secs, nanos: 0 };
    Key::new(time, PublicKeyAlgorithm::ECDSA, material).unwrap()
}

fn rsa_key(secs: u64) -> Key {
    let material = PublicKey::RSA {
        e: vec![0x01, 0x00, 0x01],
        n: vec![0xff; 256],
    };
    let time = UnixTime { secs, nanos: 0 };
    Key::new(time, PublicKeyAlgorithm::RSAEncryptSign, material).unwrap()
}

#[test]
fn fingerprints_have_their_exact_value() {
    assert_eq!(
        p256_key(1_767_225_600).fingerprint().text(),
        "D0578A21A6F5E364F4FCFC1454B47AF1850EF121"
    );
    assert_eq!(
        p256_key(0).fingerprint().text(),
        "5B8DCD2115A36AFDE4B0EDEC96C1375A0537DAA9"
    );
    assert_eq!(
        rsa_key(1_767_225_600).fingerprint().text(),
        "690CE62FF3705E9906ADF4C69ECEAD543D03A83E"
    );
}

#[test]
fn fingerprint_text_is_upper_case_hexadecimal() {
    let f = Fingerprint {
        bytes: vec![0x00, 0x0a, 0xbc, 0xff],
    };
    assert_eq!(f.text(), "000ABCFF");
}

#[test]
fn times_beyond_openpgp_are_refused() {
    let material = rsa_key(0).mpis;
    let time = UnixTime {
        secs: 4_294_967_296,
        nanos: 0,
    };
    let err = Key::new(time, PublicKeyAlgorithm::RSAEncryptSign, material).unwrap_err();
    assert_eq!(
        err.to_string(),
        "Invalid argument: time 4294967296 s after the epoch is not representable in OpenPGP"
    );
}

#[test]
fn oversized_material_is_not_usable() {
    let time = UnixTime::epoch();
    let material = PublicKey::RSA {
        e: vec![0x01, 0x00, 0x01],
        n: vec![0xff; 70_000],
    };
    let key = Key::new(time, PublicKeyAlgorithm::RSAEncryptSign, material).unwrap();
    assert!(!key.is_usable());
}

#[test]
fn garbage_is_no_certificate() {
    let err = parse_cert(b"this is not an OpenPGP cert\n").unwrap_err();
    assert!(err.to_string().starts_with("parsing cert: "));
}

#[test]
fn armored_certificate_is_read_back() {
    let published = software_cert(CipherSuite::P256);
    let bytes = SerializeInto::to_vec(&published).unwrap();
    let cert = parse_cert(&bytes).unwrap();
    let armored = export_armored_cert(&cert).unwrap();
    let fingerprint = published.fingerprint().to_spaced_hex();
    assert_eq!(fingerprint.len(), 50);
    assert!(armored.starts_with(&format!(
        "-----BEGIN PGP PUBLIC KEY BLOCK-----\nComment: {fingerprint}\n"
    )));
    assert!(armored.ends_with("-----END PGP PUBLIC KEY BLOCK-----\n"));
    let again = parse_cert(armored.as_bytes()).unwrap();
    assert!(again.primary.fingerprint.same(&cert.primary.fingerprint));
    assert!(again.subkeys[0].fingerprint.same(&cert.subkeys[0].fingerprint));
    assert_eq!(again.data, armored.as_bytes());
    assert_eq!(export_binary_cert(&again).unwrap(), bytes);
    assert_eq!(remove_armor(armored.as_bytes()).unwrap(), bytes);
}

#[test]
fn revocation_is_the_same_with_and_without_armor() {
    let sig = software_revocation();
    let armored = export_armored_signature(&sig).unwrap();
    let packet = export_binary_signature(&sig).unwrap();
    assert_eq!(remove_armor(armored.as_bytes()).unwrap(), packet);
    assert_parses_as_single_signature(&packet);
    assert!(remove_armor(b"no armor at all\n").is_err());
}

/// A signature packet that can be read, but not written: it names its issuer by a
/// fingerprint of an unknown version.
fn odd_signature() -> Vec<u8> {
    let mut body = vec![0x04, 0x13, 1, 8, 0, 23, 22, 33, 9];
    body.extend(vec![0x5a; 20]);
    body.extend([0, 0, 0xab, 0xcd, 0, 8, 0xff]);
    let mut packet = vec![0xc2, body.len() as u8];
    packet.extend(body);
    packet
}

#[test]
fn certificates_that_cannot_be_written_are_refused() {
    let mut bytes = SerializeInto::to_vec(&software_cert(CipherSuite::P256)).unwrap();
    bytes.extend(odd_signature());
    let cert = parse_cert(&bytes).unwrap();
    assert_eq!(cert.subkeys.len(), 1);
    let err = export_binary_cert(&cert).unwrap_err();
    assert_eq!(err.to_string(), "Invalid argument: Unknown kind of fingerprint");
    let err = export_armored_cert(&cert).unwrap_err();
    assert_eq!(err.to_string(), "Invalid argument: Unknown kind of fingerprint");
}

#[test]
fn all_blocks_of_armor_are_looked_at() {
    let bytes = SerializeInto::to_vec(&software_cert(CipherSuite::P256)).unwrap();
    let none: Vec<String> = vec![];
    let first = armor_cert(&bytes, &none);

    // A second certificate, whose key is too large for a fingerprint.
    let mut large = vec![0xc6, 0xff];
    large.extend(70_006u32.to_be_bytes());
    large.extend([0x04, 0, 0, 0, 0, 100]);
    large.extend(vec![0xff; 70_000]);
    let both = format!("{first}\n{}", armor_cert(&large, &none));
    assert_eq!(
        parse_cert(both.as_bytes()).unwrap_err().to_string(),
        "parsing cert: key material of 70000 bytes is not supported"
    );

    // A signature that cannot be written.
    let both = format!("{first}\n{}", armor_cert(&odd_signature(), &none));
    let cert = parse_cert(both.as_bytes()).unwrap();
    let err = export_binary_cert(&cert).unwrap_err();
    assert_eq!(err.to_string(), "Invalid argument: Unknown kind of fingerprint");

    // A revocation, as it is published: one file behind the other.
    let sig = software_revocation();
    let both = format!("{first}\n{}", export_armored_signature(&sig).unwrap());
    let cert = parse_cert(both.as_bytes()).unwrap();
    let out = export_binary_cert(&cert).unwrap();
    assert_eq!(out.len(), bytes.len() + export_binary_signature(&sig).unwrap().len());
    assert_eq!(parse_cert(&out).unwrap().subkeys.len(), 1);
}

#[test]
fn user_ids_survive_the_export() {
    let published = CertBuilder::new()
        .set_cipher_suite(CipherSuite::P256)
        .add_userid("One <one@example.com>")
        .add_userid("Two <two@example.com>")
        .generate()
        .unwrap()
        .0;
    let cert = parse_cert(&SerializeInto::to_vec(&published).unwrap()).unwrap();
    for bytes in [
        export_binary_cert(&cert).unwrap(),
        export_armored_cert(&cert).unwrap().into_bytes(),
    ] {
        let again = sequoia_openpgp::Cert::from_bytes(&bytes).unwrap();
        let names: Vec<&[u8]> = again.userids().map(|u| u.userid().value()).collect();
        assert_eq!(names, [b"One <one@example.com>", b"Two <two@example.com>"]);
    }
}

#[test]
fn signers_are_alive_unrevoked_and_signing() {
    let status = |n: u8, alive, revoked, cert_revoked, signing| KeyStatus {
        fingerprint: Fingerprint { bytes: vec![n; 20] },
        alive,
        revoked,
        cert_revoked,
        signing,
    };
    let all = vec![
        status(1, true, false, false, true),
        status(2, false, false, false, true),
        status(3, true, true, false, true),
        status(4, true, false, true, true),
        status(5, true, false, false, false),
        status(6, true, false, false, true),
    ];
    let signers: Vec<u8> = signers_among(&all).iter().map(|f| f.bytes[0]).collect();
    assert_eq!(signers, [1, 6]);
}

#[test]
fn armor_carries_the_given_comments() {
    let published = software_cert(CipherSuite::P256);
    let cert = parse_cert(&SerializeInto::to_vec(&published).unwrap()).unwrap();
    let comments = vec!["one".to_string(), "two".to_string()];
    let armored = armor_cert(&cert.data, &comments);
    assert_eq!(remove_armor(armored.as_bytes()).unwrap(), cert.data);
    assert!(armored
        .starts_with("-----BEGIN PGP PUBLIC KEY BLOCK-----\nComment: one\nComment: two\n\n"));
}

#[test]
fn short_key_packets_are_refused() {
    let raw = vec![RawKey {
        body: vec![0x04, 0, 0, 0, 0],
        algo: 1,
        numbers: vec![],
    }];
    let err = cert_of_keys(&raw, vec![]).unwrap_err();
    assert_eq!(
        err.to_string(),
        "parsing cert: key packet of 5 bytes is not supported"
    );
}

#[test]
fn hashes_match_the_strength_of_the_key() {
    let time = UnixTime::epoch();
    for (curve, size, hash) in [
        (Curve::NistP256, 65, HashAlgorithm::SHA256),
        (Curve::NistP384, 97, HashAlgorithm::SHA384),
        (Curve::NistP521, 133, HashAlgorithm::SHA512),
    ] {
        let material = PublicKey::ECDSA {
            curve,
            q: vec![0x04; size],
        };
        let key = Key::new(time, PublicKeyAlgorithm::ECDSA, material).unwrap();
        assert_eq!(preferred_hash_for(&key), hash);
    }
    assert_eq!(preferred_hash_for(&rsa_key(0)), HashAlgorithm::SHA512);
    assert_eq!(
        preferred_hashes(),
        vec![HashAlgorithm::SHA512, HashAlgorithm::SHA384, HashAlgorithm::SHA256]
    );
    assert_eq!(
        preferred_symmetric(),
        vec![SymmetricAlgorithm::AES256, SymmetricAlgorithm::AES128]
    );
}

#[test]
fn oversized_key_packets_are_refused() {
    // A version 4 key of a private algorithm with 70000 bytes of material.
    let mut packet = vec![0xc6, 0xff];
    packet.extend(70_006u32.to_be_bytes());
    packet.extend([0x04, 0, 0, 0, 0, 100]);
    packet.extend(vec![0xff; 70_000]);
    let err = parse_cert(&packet).unwrap_err();
    assert_eq!(
        err.to_string(),
        "parsing cert: key material of 70000 bytes is not supported"
    );
}

#[test]
fn large_version_6_keys_are_read() {
    let mut packet = vec![0xc6, 0xff];
    packet.extend(70_010u32.to_be_bytes());
    packet.extend([0x06, 0, 0, 0, 1, 100]);
    packet.extend(70_000u32.to_be_bytes());
    packet.extend(vec![0xff; 70_000]);
    let cert = parse_cert(&packet).unwrap();
    assert_eq!((cert.primary.version, cert.primary.algo), (6, 100));
    assert_eq!(cert.primary.creation_time, 1);
    assert_eq!(cert.primary.fingerprint.bytes.len(), 32);
}

#[test]
fn joined_signature_numbers_give_the_raw_signature() {
    let raw: Vec<u8> = (1..=64).collect();
    match sq_pkcs11::signer::encode_signature(&p256_key(0), &raw).unwrap() {
        sq_pkcs11::signer::SignatureMpis::ECDSA { r, s } => assert_eq!([r, s].concat(), raw),
        other => panic!("got {other:?}"),
    }
}
