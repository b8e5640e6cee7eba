//! The commands, run against a token that is kept in memory.

use std::time::{Duration, SystemTime};

use sequoia_openpgp::cert::{CertBuilder, CipherSuite, SubkeyRevocationBuilder};
use sequoia_openpgp::packet::Packet;
use sequoia_openpgp::policy::StandardPolicy;
use sequoia_openpgp::serialize::SerializeInto;
use sequoia_openpgp::types::{KeyFlags, ReasonForRevocation as Reason};

use sq_pkcs11::access::{Access, AccessArgs};
use sq_pkcs11::acquire::{Answer, Progress, Question};
use sq_pkcs11::assemble::{
    build_cert_revocation, check_merge, CertPlan, CertRevocationSpec, KeyFlags as Flags, KeySpec,
    ReasonForRevocation, RevocationPlan, RevocationReason, Step,
};
use sq_pkcs11::cert::{parse_cert, Cert, CertKey};
use sq_pkcs11::cli::{KeySelectionArgs, PinFile};
use sq_pkcs11::error::Error;
use sq_pkcs11::export::{cmd_cert_export, CertExportArgs, TierArgs};
use sq_pkcs11::openpgp::{
    Fingerprint, HashAlgorithm, Key, PublicKey, PublicKeyAlgorithm, UnixTime,
};
use sq_pkcs11::revoke::{
    check_primary, cmd_cert_revoke, cmd_subkey_revoke, write_revocation_output, Destination,
    RevokeArgs,
};
use sq_pkcs11::session::{KeySelector, LoginMode, Slot, TokenInfo};
use sq_pkcs11::sign::{
    check_key_algo, cmd_sign, find_published_key, judge_signer, KeyAlgo, SignArgs, SignJob,
    SignOutput, SignatureForm,
};
use sq_pkcs11::signer::Pkcs11Signer;
use sq_pkcs11::token::{Attribute, AttributeType, KeyType, ObjectClass};
use sq_pkcs11::verify::{cmd_verify_signing_key, judge_signing_key, verify_signing_key};

const STABLE_TIME: &str = "2026-01-01T00:00:00Z";
const STABLE_SECS: u64 = 1_767_225_600;

// ---------------------------------------------------------------------------
// A token in memory
// ---------------------------------------------------------------------------

struct TokenKey {
    label: &'static str,
    id: Vec<u8>,
    kind: KeyType,
    /// The modulus of an RSA key, the point of a key on P-256.
    material: Vec<u8>,
}

struct Token {
    keys: Vec<TokenKey>,
}

fn point(fill: u8) -> Vec<u8> {
    let mut p = vec![0x04];
    p.resize(65, fill);
    p
}

/// The token of the tests: an RSA key and four keys on P-256.
fn token() -> Token {
    let ec = |label, id: u8, fill| TokenKey {
        label,
        id: vec![id],
        kind: KeyType::EC,
        material: point(fill),
    };
    Token {
        keys: vec![
            TokenKey {
                label: "rsa",
                id: vec![1],
                kind: KeyType::RSA,
                material: vec![0xff; 256],
            },
            ec("ec", 2, 0x11),
            ec("primary", 3, 0x22),
            ec("subkey", 4, 0x33),
            ec("subkey2", 5, 0x44),
        ],
    }
}

impl Token {
    fn fits(&self, key: &TokenKey, template: &[Attribute], class: ObjectClass) -> bool {
        template.iter().all(|a| match a {
            Attribute::Class(c) => *c == class,
            Attribute::Sign(s) => *s,
            Attribute::Bytes(AttributeType::Label, v) => v.as_slice() == key.label.as_bytes(),
            Attribute::Bytes(AttributeType::Id, v) => *v == key.id,
            _ => panic!("unexpected attribute in a template"),
        })
    }

    /// Private keys have the handles from 100 on, public keys those from 200 on.
    fn objects(&self, template: &[Attribute]) -> Vec<u64> {
        let mut found = Vec::new();
        for (i, key) in self.keys.iter().enumerate() {
            if self.fits(key, template, ObjectClass::PrivateKey) {
                found.push(100 + i as u64);
            }
            if self.fits(key, template, ObjectClass::PublicKey) {
                found.push(200 + i as u64);
            }
        }
        found
    }

    fn attribute(&self, handle: u64, t: AttributeType) -> Attribute {
        let key = &self.keys[(handle % 100) as usize];
        let bytes = match t {
            AttributeType::KeyType => return Attribute::KeyType(key.kind),
            AttributeType::Label => key.label.as_bytes().to_vec(),
            AttributeType::Id => key.id.clone(),
            AttributeType::Modulus => key.material.clone(),
            AttributeType::PublicExponent => vec![0x01, 0x00, 0x01],
            AttributeType::EcParams => {
                vec![0x06, 0x08, 0x2a, 0x86, 0x48, 0xce, 0x3d, 0x03, 0x01, 0x07]
            }
            AttributeType::EcPoint => {
                let mut der = vec![0x04, 0x41];
                der.extend(&key.material);
                der
            }
        };
        Attribute::Bytes(t, bytes)
    }

    fn answer(&self, question: &Question) -> Answer {
        match question {
            Question::Slots => Answer::Slots(vec![Slot {
                id: 7,
                token: Some(TokenInfo {
                    label: "accelerator".to_string(),
                    login_required: false,
                }),
            }]),
            Question::Session { slot, .. } => {
                assert_eq!(*slot, 7);
                Answer::Session
            }
            Question::Objects(template) => Answer::Objects(self.objects(template)),
            Question::Attributes { handle, types } => Answer::Attributes(
                types.iter().map(|t| self.attribute(*handle, *t)).collect(),
            ),
        }
    }

    fn acquire(&self, start: Progress) -> Result<Pkcs11Signer, Error> {
        let mut progress = start;
        loop {
            match progress {
                Progress::Ready(signer) => return Ok(signer),
                Progress::Stuck(e) => return Err(e),
                Progress::Ask(way, question) => {
                    let answer = self.answer(&question);
                    progress = way.step(answer);
                }
            }
        }
    }
}

// ---------------------------------------------------------------------------
// Arguments
// ---------------------------------------------------------------------------

fn access(label: Option<&str>) -> AccessArgs {
    AccessArgs {
        key: KeySelectionArgs {
            key_uri: None,
            key_label: label.map(str::to_string),
            key_id: None,
            auto: false,
        },
        pin_file: None,
        pin_environment: None,
    }
}

fn tier(label: Option<&str>, creation_time: Option<&str>, validity: &str) -> TierArgs {
    TierArgs {
        access: access(label),
        creation_time: creation_time.map(str::to_string),
        validity_period: validity.to_string(),
        no_expiration: false,
    }
}

fn export_args(primary: TierArgs, subkey: TierArgs, user_ids: &[&str]) -> CertExportArgs {
    CertExportArgs {
        primary,
        subkey,
        user_ids: user_ids.iter().map(|u| u.to_string()).collect(),
        output: None,
        force: false,
    }
}

fn export(token: &Token, args: CertExportArgs, merge: Option<Cert>) -> Result<CertPlan, Error> {
    let (progress, rest) = cmd_cert_export(args, "", None)?;
    let primary = token.acquire(progress)?;
    let (progress, rest) = rest.with_primary(primary)?;
    let subkey = match progress {
        Some(p) => Some(token.acquire(p)?),
        None => None,
    };
    rest.with_subkey(subkey, merge)
}

fn fingerprint(signer: &Pkcs11Signer) -> Fingerprint {
    signer.public_key().fingerprint()
}

fn export_one(token: &Token, label: &str, time: &str) -> CertPlan {
    let args = export_args(
        tier(Some(label), Some(time), "5y"),
        tier(None, None, "5y"),
        &["Test <stable@example.com>"],
    );
    export(token, args, None).unwrap()
}

fn export_two_tier(token: &Token, primary: &str, validity: (&str, &str)) -> CertPlan {
    let args = export_args(
        tier(Some(primary), Some(STABLE_TIME), validity.0),
        tier(Some("subkey"), Some(STABLE_TIME), validity.1),
        &["Two Tier <2t@example.com>"],
    );
    export(token, args, None).unwrap()
}

fn cert_key(signer: &Pkcs11Signer) -> CertKey {
    let key = signer.public_key();
    CertKey {
        fingerprint: key.fingerprint(),
        version: 4,
        algo: 19,
        creation_time: key.creation_time,
        material: key.mpis.clone(),
    }
}

/// The certificate that a plan leads to, as far as its keys go.
fn cert_of(plan: &CertPlan) -> Cert {
    Cert {
        primary: cert_key(&plan.primary),
        subkeys: plan.subkey.iter().map(cert_key).collect(),
        data: vec![],
    }
}

fn now() -> UnixTime {
    UnixTime {
        secs: 1_800_000_000,
        nanos: 0,
    }
}

fn revoke_args(label: &str, reason: RevocationReason, message: &str) -> RevokeArgs {
    RevokeArgs {
        access: access(Some(label)),
        creation_time: Some(STABLE_TIME.to_string()),
        reason,
        message: message.to_string(),
        revocation_time: None,
    }
}

fn stdout() -> Destination {
    Destination {
        output: None,
        force: false,
    }
}

fn revoke(token: &Token, args: RevokeArgs) -> Result<RevocationPlan, Error> {
    let (progress, terms) = cmd_cert_revoke(args, &stdout(), now(), "", None)?;
    terms.revoke_cert(token.acquire(progress)?)
}

fn revoke_subkey(token: &Token, args: RevokeArgs, f: &str, c: &Cert) -> Result<RevocationPlan, Error> {
    let target = cmd_subkey_revoke(args, f.to_string(), stdout(), now())?.passed("", None)?;
    let (progress, rest) = target.with_cert(c)?;
    rest.revoke_subkey(token.acquire(progress)?)
}

// ---------------------------------------------------------------------------
// cert-export
// ---------------------------------------------------------------------------

#[test]
fn fingerprint_stable_across_runs() {
    let token = token();
    let a = export_one(&token, "ec", STABLE_TIME);
    let b = export_one(&token, "ec", STABLE_TIME);
    assert_eq!(
        fingerprint(&a.primary).text(),
        fingerprint(&b.primary).text(),
        "same key + same --creation-time must yield the same fingerprint"
    );
    assert_eq!(
        fingerprint(&a.primary).text(),
        "D0578A21A6F5E364F4FCFC1454B47AF1850EF121"
    );
}

#[test]
fn fingerprint_changes_with_creation_time() {
    let token = token();
    let a = export_one(&token, "ec", "2026-01-01T00:00:00Z");
    let b = export_one(&token, "ec", "2030-01-01T00:00:00Z");
    assert_ne!(
        fingerprint(&a.primary).text(),
        fingerprint(&b.primary).text(),
        "different --creation-time values must yield different fingerprints"
    );
}

#[test]
fn validity_period_appears_in_cert() {
    let args = export_args(
        tier(Some("ec"), Some(STABLE_TIME), "1y"),
        tier(None, None, "5y"),
        &["Validity Test <v@example.com>"],
    );
    let plan = export(&token(), args, None).unwrap();
    match &plan.steps[0] {
        Step::DirectKey { validity, .. } => {
            // 2026-01-01 to 2027-01-01
            assert_eq!(validity.unwrap().as_secs(), 31_536_000);
        }
        other => panic!("expected the direct key signature first, got {other:?}"),
    }
}

#[test]
fn two_tier_cert_has_only_certify_primary_and_signing_subkey() {
    let plan = export_two_tier(&token(), "primary", ("10y", "1y"));
    assert_eq!(plan.steps.len(), 3);
    match &plan.steps[0] {
        Step::DirectKey { flags, .. } => {
            assert_eq!(*flags, Flags { certify: true, sign: false });
        }
        other => panic!("got {other:?}"),
    }
    match &plan.steps[1] {
        Step::UserId { user_id, primary, .. } => {
            assert_eq!(user_id, "Two Tier <2t@example.com>");
            assert!(*primary);
        }
        other => panic!("got {other:?}"),
    }
    match &plan.steps[2] {
        Step::Subkey { flags, .. } => {
            assert_eq!(*flags, Flags { certify: false, sign: true });
        }
        other => panic!("got {other:?}"),
    }
}

#[test]
fn validity_periods_are_recorded_in_signatures() {
    let plan = export_two_tier(&token(), "primary", ("10y", "1y"));
    let ten_years = Duration::from_secs((10.0 * 365.25 * 86_400.0) as u64);
    let one_year = Duration::from_secs((365.25 * 86_400.0) as u64);
    let tolerance = Duration::from_secs(86_400);
    match &plan.steps[0] {
        Step::DirectKey { validity, .. } => {
            let secs = validity.unwrap().as_secs();
            assert!(Duration::from_secs(secs).abs_diff(ten_years) <= tolerance);
            // 2026-01-01 to 2036-01-01
            assert_eq!(secs, 2_082_758_400 - STABLE_SECS);
        }
        other => panic!("got {other:?}"),
    }
    match &plan.steps[2] {
        Step::Subkey { validity, .. } => {
            let secs = validity.unwrap().as_secs();
            assert!(Duration::from_secs(secs).abs_diff(one_year) <= tolerance);
            assert_eq!(secs, 31_536_000);
        }
        other => panic!("got {other:?}"),
    }
}

#[test]
fn single_key_certifies_and_signs() {
    let plan = export_one(&token(), "rsa", STABLE_TIME);
    assert!(plan.subkey.is_none());
    match &plan.steps[0] {
        Step::DirectKey { hash, flags, .. } => {
            assert_eq!(*flags, Flags { certify: true, sign: true });
            assert_eq!(*hash, HashAlgorithm::SHA512);
        }
        other => panic!("got {other:?}"),
    }
}

#[test]
fn only_the_first_user_id_is_primary() {
    let args = export_args(
        tier(Some("ec"), Some(STABLE_TIME), "5y"),
        tier(None, None, "5y"),
        &["A <a@example.com>", "B <b@example.com>"],
    );
    let plan = export(&token(), args, None).unwrap();
    let marks: Vec<bool> = plan
        .steps
        .iter()
        .filter_map(|s| match s {
            Step::UserId { primary, .. } => Some(*primary),
            _ => None,
        })
        .collect();
    assert_eq!(marks, vec![true, false]);
}

#[test]
fn merge_cert_refuses_duplicate_subkey() {
    let token = token();
    let v1 = cert_of(&export_two_tier(&token, "primary", ("5y", "5y")));
    let args = export_args(
        tier(Some("primary"), Some(STABLE_TIME), "5y"),
        tier(Some("subkey"), Some(STABLE_TIME), "5y"),
        &[],
    );
    let err = export(&token, args, Some(v1)).unwrap_err().to_string();
    assert!(
        err.contains("already bound") || err.contains("no-op"),
        "expected duplicate-subkey rejection, got: {err}"
    );
}

#[test]
fn merge_cert_refuses_wrong_primary_creation_time() {
    let token = token();
    let v1 = cert_of(&export_two_tier(&token, "primary", ("5y", "5y")));
    let args = export_args(
        tier(Some("primary"), Some("2030-01-01T00:00:00Z"), "5y"),
        tier(Some("subkey2"), Some(STABLE_TIME), "5y"),
        &[],
    );
    let err = export(&token, args, Some(v1)).unwrap_err().to_string();
    assert!(
        err.to_lowercase().contains("primary fingerprint mismatch"),
        "expected 'primary fingerprint mismatch', got: {err}"
    );
}

#[test]
fn merge_adds_a_new_subkey_only() {
    let token = token();
    let v1 = cert_of(&export_two_tier(&token, "primary", ("5y", "5y")));
    let args = export_args(
        tier(Some("primary"), Some(STABLE_TIME), "5y"),
        tier(Some("subkey2"), Some(STABLE_TIME), "5y"),
        &[],
    );
    let plan = export(&token, args, Some(v1)).unwrap();
    assert_eq!(plan.steps.len(), 1);
    assert!(matches!(plan.steps[0], Step::Subkey { .. }));
    let kept = plan.merge_into.unwrap();
    assert_eq!(kept.subkeys.len(), 1);
    assert!(check_merge(&kept, &fingerprint(&plan.primary), None).is_ok());
}

#[test]
fn fresh_cert_needs_a_user_id() {
    let args = export_args(
        tier(Some("ec"), Some(STABLE_TIME), "5y"),
        tier(None, None, "5y"),
        &[],
    );
    let err = export(&token(), args, None).unwrap_err();
    assert_eq!(err.to_string(), "fresh cert requires at least one User ID");
}

#[test]
fn creation_times_have_no_default() {
    let args = export_args(tier(Some("ec"), None, "5y"), tier(None, None, "5y"), &["U"]);
    let err = export(&token(), args, None).unwrap_err().to_string();
    assert!(err.starts_with("--creation-time is required"), "got: {err}");
    let args = export_args(
        tier(Some("ec"), Some(STABLE_TIME), "5y"),
        tier(Some("subkey"), None, "5y"),
        &["U"],
    );
    let err = export(&token(), args, None).unwrap_err().to_string();
    assert!(err.starts_with("--subkey-creation-time is required"), "got: {err}");
}

#[test]
fn existing_output_stops_an_export_at_once() {
    let mut args = export_args(
        tier(Some("ec"), Some(STABLE_TIME), "5y"),
        tier(None, None, "5y"),
        &["U"],
    );
    args.output = Some(b"cert.asc".to_vec());
    let err = cmd_cert_export(args, "cert.asc", Some(Ok(true))).unwrap_err();
    assert!(err.to_string().contains("refusing to overwrite"));
}

#[test]
fn no_expiration_means_no_validity() {
    let mut primary = tier(Some("ec"), Some(STABLE_TIME), "5y");
    primary.no_expiration = true;
    let plan = export(&token(), export_args(primary, tier(None, None, "5y"), &["U"]), None).unwrap();
    assert!(matches!(&plan.steps[0], Step::DirectKey { validity: None, .. }));
}

// ---------------------------------------------------------------------------
// Selecting keys
// ---------------------------------------------------------------------------

#[test]
fn key_selector_forms_resolve_same_key() {
    let token = token();
    let mut prints = Vec::new();
    for (uri, label, id) in [
        (None, Some("ec"), None),
        (None, None, Some("02")),
        (Some("pkcs11:object=ec;type=private"), None, None),
    ] {
        let mut primary = tier(None, Some(STABLE_TIME), "5y");
        primary.access.key = KeySelectionArgs {
            key_uri: uri.map(str::to_string),
            key_label: label.map(str::to_string),
            key_id: id.map(str::to_string),
            auto: false,
        };
        let args = export_args(primary, tier(None, None, "5y"), &["Selector <sel@example.com>"]);
        let plan = export(&token, args, None).unwrap();
        prints.push(fingerprint(&plan.primary).text());
    }
    assert_eq!(prints[0], prints[1], "label and id must resolve same key");
    assert_eq!(prints[0], prints[2], "label and uri must resolve same key");
}

#[test]
fn auto_selector_with_multiple_keys_fails() {
    let mut primary = tier(None, Some(STABLE_TIME), "5y");
    primary.access.key.auto = true;
    let args = export_args(primary, tier(None, None, "5y"), &["Ambiguous <amb@example.com>"]);
    let err = export(&token(), args, None).unwrap_err().to_string().to_lowercase();
    assert!(
        err.contains("ambiguous"),
        "expected 'ambiguous' when --auto sees multiple keys, got: {err}"
    );
}

#[test]
fn failure_of_the_token_ends_the_way() {
    let access = Access {
        selector: KeySelector::Auto,
        login: LoginMode::Pin("secret".to_string()),
    };
    let (way, question) = match access.acquire() {
        Progress::Ask(way, question) => (way, question),
        other => panic!("got {other:?}"),
    };
    assert!(matches!(question, Question::Slots));
    let (way, question) = match way.step(token().answer(&question)) {
        Progress::Ask(way, question) => (way, question),
        other => panic!("got {other:?}"),
    };
    match question {
        Question::Session { slot, pin } => {
            assert_eq!(slot, 7);
            assert_eq!(pin.as_deref(), Some("secret"));
        }
        other => panic!("got {other:?}"),
    }
    match way.step(Answer::Failed("wrong passphrase".to_string())) {
        Progress::Stuck(e) => assert_eq!(e.to_string(), "PKCS#11: wrong passphrase"),
        other => panic!("got {other:?}"),
    }
}

#[test]
fn oversized_keys_are_refused() {
    let token = Token {
        keys: vec![TokenKey {
            label: "huge",
            id: vec![1],
            kind: KeyType::RSA,
            material: vec![0xff; 70_000],
        }],
    };
    let start = Access {
        selector: KeySelector::Auto,
        login: LoginMode::NoLogin,
    };
    let err = token.acquire(start.acquire()).unwrap_err().to_string();
    assert!(err.contains("too large for an OpenPGP fingerprint"), "got: {err}");
}

// ---------------------------------------------------------------------------
// cert-revoke and subkey-revoke
// ---------------------------------------------------------------------------

#[test]
fn cert_revoke_marks_primary_revoked() {
    let plan = revoke(
        &token(),
        revoke_args("ec", RevocationReason::Superseded, "test rotation"),
    )
    .unwrap();
    assert!(plan.subkey.is_none());
    assert_eq!(
        fingerprint(&plan.primary).text(),
        "D0578A21A6F5E364F4FCFC1454B47AF1850EF121"
    );
    assert_eq!(plan.hash, HashAlgorithm::SHA256);
    assert_eq!(plan.revocation_time, now());
}

#[test]
fn cert_revoke_revocation_time_round_trips_exactly() {
    for (label, ts, secs) in [
        ("future", "2030-12-31T23:59:59Z", 1_924_991_999),
        ("past_pre_key_creation", "2020-01-01T00:00:00Z", 1_577_836_800),
        ("epoch", "1970-01-01T00:00:00Z", 0),
    ] {
        let mut args = revoke_args("ec", RevocationReason::Superseded, label);
        args.revocation_time = Some(ts.to_string());
        let plan = revoke(&token(), args).unwrap();
        let expected = humantime::parse_rfc3339(ts).unwrap();
        let since = expected.duration_since(SystemTime::UNIX_EPOCH).unwrap();
        assert_eq!(
            plan.revocation_time,
            UnixTime {
                secs: since.as_secs(),
                nanos: 0
            },
            "revocation_time {ts:?} must round-trip exactly (case: {label})"
        );
        assert_eq!(plan.revocation_time.secs, secs);
    }
}

#[test]
fn cert_revoke_rejects_invalid_revocation_time() {
    let mut args = revoke_args("ec", RevocationReason::Superseded, "");
    args.revocation_time = Some("not-a-real-timestamp".to_string());
    let err = revoke(&token(), args).unwrap_err().to_string();
    assert!(
        err.contains("invalid") || err.contains("RFC 3339"),
        "expected RFC 3339 parse error, got: {err}"
    );
}

#[test]
fn revocation_signature_records_reason_message_and_time() {
    let revocation_time = "2026-07-15T12:34:56Z";
    for (cli_reason, expected_code, message) in [
        (RevocationReason::Unspecified, Reason::Unspecified, "no reason"),
        (RevocationReason::Superseded, Reason::KeySuperseded, "rotated to fresh key"),
        (RevocationReason::Compromised, Reason::KeyCompromised, "smartcard lost in transit"),
        (RevocationReason::Retired, Reason::KeyRetired, "service decommissioned"),
    ] {
        let mut args = revoke_args("ec", cli_reason, message);
        args.revocation_time = Some(revocation_time.to_string());
        let plan = revoke(&token(), args).unwrap();
        assert_eq!(plan.reason.code(), u8::from(expected_code));
        assert_eq!(plan.message, message.as_bytes());
        assert_eq!(
            plan.revocation_time,
            UnixTime {
                secs: 1_784_118_896,
                nanos: 0
            }
        );
    }
}

#[test]
fn subkey_revoke_rejects_input_cert_belonging_to_other_primary() {
    let token = token();
    let cert_b = cert_of(&export_two_tier(&token, "primary", ("5y", "5y")));
    let f = cert_b.subkeys[0].fingerprint.text();
    let args = revoke_args("ec", RevocationReason::Compromised, "wrong primary test");
    let err = revoke_subkey(&token, args, &f, &cert_b).unwrap_err().to_string();
    assert!(
        err.contains("primary fingerprint mismatch"),
        "expected 'primary fingerprint mismatch', got: {err}"
    );
}

#[test]
fn subkey_revoke_works_without_subkey_hsm_access() {
    let published = token();
    let cert = cert_of(&export_two_tier(&published, "primary", ("5y", "5y")));
    let f = cert.subkeys[0].fingerprint.text();
    // The subkey is lost.
    let mut left = token();
    left.keys.retain(|k| k.label != "subkey");
    let args = revoke_args(
        "primary",
        RevocationReason::Compromised,
        "compromised; subkey HSM access not needed",
    );
    let plan = revoke_subkey(&left, args, &f, &cert).unwrap();
    assert_eq!(plan.subkey.unwrap().fingerprint.text(), f);
    assert!(fingerprint(&plan.primary).same(&cert.primary.fingerprint));
}

#[test]
fn subkey_revoke_rejects_malformed_inputs() {
    let token = token();
    let cert = cert_of(&export_two_tier(&token, "primary", ("5y", "5y")));
    let args = || revoke_args("primary", RevocationReason::Compromised, "");

    assert!(parse_cert(b"this is not an OpenPGP cert\n").is_err());

    let err = revoke_subkey(&token, args(), "0123456789ABCDEF", &cert).unwrap_err();
    assert!(err.to_string().contains("not a full OpenPGP fingerprint"));

    let bad = "ZZZZZZZZZZZZZZZZZZZZZZZZZZZZZZZZZZZZZZZZ";
    assert!(revoke_subkey(&token, args(), bad, &cert).is_err());

    let primary = cert.primary.fingerprint.text();
    let err = revoke_subkey(&token, args(), &primary, &cert).unwrap_err();
    assert!(err.to_string().contains("no subkey in the input cert matches"));
}

#[test]
fn primaries_are_told_apart() {
    let a = Fingerprint { bytes: vec![1; 20] };
    let b = Fingerprint { bytes: vec![2; 20] };
    assert!(check_primary(&a, &a).is_ok());
    let err = check_primary(&a, &b).unwrap_err().to_string();
    assert!(err.contains(&a.text()) && err.contains(&b.text()));
}

#[test]
fn existing_output_stops_a_revocation_at_once() {
    let destination = || Destination {
        output: Some(b"rev.asc".to_vec()),
        force: false,
    };
    assert!(destination().look());
    assert!(!stdout().look());
    let args = revoke_args("ec", RevocationReason::Superseded, "");
    let err = cmd_cert_revoke(args, &destination(), now(), "rev.asc", Some(Ok(true))).unwrap_err();
    assert!(err.to_string().contains("refusing to overwrite"));
    let args = revoke_args("primary", RevocationReason::Superseded, "");
    let f = "0000000000000000000000000000000000000000".to_string();
    let err = cmd_subkey_revoke(args, f, destination(), now())
        .unwrap()
        .passed("rev.asc", Some(Ok(true)))
        .unwrap_err();
    assert!(err.to_string().contains("refusing to overwrite"));
}

#[test]
fn revocations_are_written_as_packets() {
    let sig = sq_pkcs11::cert::Signature { body: vec![0x5a; 10] };
    let binary = write_revocation_output(&sig, true).unwrap();
    assert_eq!(binary[..2], [0xc2, 10]);
    let armored = String::from_utf8(write_revocation_output(&sig, false).unwrap()).unwrap();
    assert!(armored.starts_with("-----BEGIN PGP PUBLIC KEY BLOCK-----\n"));
}

#[test]
fn revocation_is_by_the_stamped_key() {
    let signer = token().acquire(access_to("ec")).unwrap();
    let spec = CertRevocationSpec {
        primary: KeySpec {
            signer,
            creation_time: UnixTime {
                secs: STABLE_SECS,
                nanos: 0,
            },
            validity_period: None,
        },
        reason: ReasonForRevocation::KeyRetired,
        message: b"done".to_vec(),
        revocation_time: now(),
    };
    let plan = build_cert_revocation(spec).unwrap();
    assert_eq!(plan.primary.public_key().creation_time as u64, STABLE_SECS);
    assert_eq!(plan.reason.code(), 3);
}

fn access_to(label: &str) -> Progress {
    Access {
        selector: KeySelector::Label(label.to_string()),
        login: LoginMode::NoLogin,
    }
    .acquire()
}

// ---------------------------------------------------------------------------
// verify-signing-key
// ---------------------------------------------------------------------------

#[test]
fn verify_signing_key_accepts_current_signing_subkey() {
    let cert = cert_of(&export_two_tier(&token(), "primary", ("5y", "5y")));
    let f = cert.subkeys[0].fingerprint.clone();
    let signers = vec![f.clone()];
    let message = judge_signing_key(&f, &cert, "cert.asc", &signers, now()).unwrap();
    assert!(message.contains("is a current signing key"), "expected success message");
    assert!(judge_signer(&f, &cert, "cert.asc", &signers, now()).is_ok());
}

#[test]
fn verify_signing_key_rejects_unrelated_hsm_key() {
    let token = token();
    let cert = cert_of(&export_two_tier(&token, "primary", ("5y", "5y")));
    let mut other = token.acquire(access_to("rsa")).unwrap();
    other
        .set_creation_time(UnixTime {
            secs: STABLE_SECS,
            nanos: 0,
        })
        .unwrap();
    let err = verify_signing_key(&fingerprint(&other), &cert, "cert.asc", now()).unwrap_err();
    assert!(
        err.to_string().contains("not bound to"),
        "expected 'not bound to ...' for an unrelated HSM key, got: {err:?}"
    );
}

#[test]
fn verify_signing_key_rejects_certify_only_primary() {
    let cert = cert_of(&export_two_tier(&token(), "primary", ("5y", "5y")));
    let signers = vec![cert.subkeys[0].fingerprint.clone()];
    let f = cert.primary.fingerprint.clone();
    let err = judge_signing_key(&f, &cert, "cert.asc", &signers, now()).unwrap_err().to_string();
    assert!(
        err.contains("present in") && err.contains("not currently a valid signer"),
        "expected 'present but not valid signer' for the certify-only primary, got: {err}"
    );
    assert!(err.contains("2027-01-15T08:00:00Z"), "got: {err}");
    let refused = judge_signer(&f, &cert, "cert.asc", &signers, now()).unwrap_err();
    assert!(refused.to_string().starts_with("refusing to sign"));
    assert_eq!(refused.cause(), Some(err.as_str()));
}

#[test]
fn verification_never_takes_the_time_from_the_certificate() {
    let token = token();
    let cert = cert_of(&export_two_tier(&token, "primary", ("5y", "5y")));
    let err = cmd_verify_signing_key(access(Some("subkey")), None).unwrap_err();
    assert!(err.to_string().starts_with("--creation-time is required"));
    let other = Some("2030-01-01T00:00:00Z".to_string());
    let (progress, rest) = cmd_verify_signing_key(access(Some("subkey")), other).unwrap();
    let signer = token.acquire(progress).unwrap();
    let err = rest.with_cert(signer, &cert, "cert.asc", now()).unwrap_err();
    assert!(err.to_string().contains("not bound to cert.asc"));
}

/// A software certificate with a primary key that only certifies and a signing subkey
/// that is valid for a year from 2026-01-01 on.
fn software_cert() -> Cert {
    let start = SystemTime::UNIX_EPOCH + Duration::from_secs(STABLE_SECS);
    let (cert, _) = CertBuilder::new()
        .set_cipher_suite(CipherSuite::P256)
        .set_creation_time(start)
        .add_userid("Software <software@example.com>")
        .set_primary_key_flags(KeyFlags::empty().set_certification())
        .add_subkey(
            KeyFlags::empty().set_signing(),
            Duration::from_secs(31_536_000),
            None,
        )
        .generate()
        .unwrap();
    parse_cert(&SerializeInto::to_vec(&cert).unwrap()).unwrap()
}

#[test]
fn signatures_of_the_certificate_decide() {
    let cert = software_cert();
    let subkey = &cert.subkeys[0].fingerprint;
    let within = UnixTime {
        secs: STABLE_SECS + 86_400,
        nanos: 0,
    };
    let after = UnixTime {
        secs: STABLE_SECS + 2 * 31_536_000,
        nanos: 0,
    };
    let message = verify_signing_key(subkey, &cert, "cert.asc", within).unwrap();
    assert_eq!(
        message,
        format!("HSM key {} is a current signing key of cert.asc", subkey.text())
    );
    let err = verify_signing_key(subkey, &cert, "cert.asc", after).unwrap_err().to_string();
    assert!(err.contains("not currently a valid signer"), "got: {err}");
    let primary = &cert.primary.fingerprint;
    let err = verify_signing_key(primary, &cert, "cert.asc", within).unwrap_err().to_string();
    assert!(err.contains("not currently a valid signer"), "got: {err}");
}

#[test]
fn revoked_subkey_is_no_signer() {
    let policy = StandardPolicy::new();
    let start = SystemTime::UNIX_EPOCH + Duration::from_secs(STABLE_SECS);
    let (cert, _) = CertBuilder::new()
        .set_cipher_suite(CipherSuite::P256)
        .set_creation_time(start)
        .add_userid("Revoked <revoked@example.com>")
        .add_signing_subkey()
        .generate()
        .unwrap();
    let within = UnixTime {
        secs: STABLE_SECS + 86_400,
        nanos: 0,
    };
    let before = parse_cert(&SerializeInto::to_vec(&cert).unwrap()).unwrap();
    let f = before.subkeys[0].fingerprint.clone();
    assert!(verify_signing_key(&f, &before, "cert.asc", within).is_ok());

    let mut primary = cert
        .primary_key()
        .key()
        .clone()
        .parts_into_secret()
        .unwrap()
        .into_keypair()
        .unwrap();
    let subkey = cert
        .keys()
        .subkeys()
        .with_policy(&policy, start)
        .next()
        .unwrap();
    let revocation = SubkeyRevocationBuilder::new()
        .set_signature_creation_time(start + Duration::from_secs(3_600))
        .unwrap()
        .set_reason_for_revocation(Reason::KeyCompromised, b"lost")
        .unwrap()
        .build(&mut primary, &cert, subkey.key(), None)
        .unwrap();
    let (revoked, _) = cert.insert_packets(vec![Packet::from(revocation)]).unwrap();
    let after = parse_cert(&SerializeInto::to_vec(&revoked).unwrap()).unwrap();
    let err = verify_signing_key(&f, &after, "cert.asc", within).unwrap_err().to_string();
    assert!(
        err.contains("not currently a valid signer"),
        "expected 'not currently a valid signer' after revocation, got: {err}"
    );
}

#[test]
fn no_key_of_a_revoked_certificate_is_a_signer() {
    let start = SystemTime::UNIX_EPOCH + Duration::from_secs(STABLE_SECS);
    let (cert, revocation) = CertBuilder::new()
        .set_cipher_suite(CipherSuite::P256)
        .set_creation_time(start)
        .add_userid("Retired <retired@example.com>")
        .add_signing_subkey()
        .generate()
        .unwrap();
    let within = UnixTime {
        secs: STABLE_SECS + 86_400,
        nanos: 0,
    };
    let before = parse_cert(&SerializeInto::to_vec(&cert).unwrap()).unwrap();
    let f = before.subkeys[0].fingerprint.clone();
    assert!(verify_signing_key(&f, &before, "cert.asc", within).is_ok());
    let (revoked, _) = cert.insert_packets(vec![Packet::from(revocation)]).unwrap();
    let after = parse_cert(&SerializeInto::to_vec(&revoked).unwrap()).unwrap();
    let err = verify_signing_key(&f, &after, "cert.asc", within).unwrap_err().to_string();
    assert!(err.contains("not currently a valid signer"), "got: {err}");
}

// ---------------------------------------------------------------------------
// sign
// ---------------------------------------------------------------------------

fn sign_args(label: &str, file: &str) -> SignArgs {
    SignArgs {
        access: access(Some(label)),
        file: file.as_bytes().to_vec(),
        output: None,
        form: SignatureForm::Armored,
        force: false,
        creation_time: Some(STABLE_TIME.to_string()),
        input_cert: false,
        skip_check: false,
        require_key_algo: None,
    }
}

#[test]
fn sign_goes_next_to_the_file() {
    let plan = cmd_sign(sign_args("rsa", "p.txt")).unwrap();
    assert_eq!(plan.look_at(), Some(&b"p.txt.asc".to_vec()));
    let (progress, rest) = plan.set_out("p.txt.asc", Some(Ok(false))).unwrap();
    let signer = token().acquire(progress).unwrap();
    let job = rest.prepare(signer, None).unwrap();
    assert_eq!(job.hash, HashAlgorithm::SHA512);
    assert_eq!(job.signer.public_key().creation_time as u64, STABLE_SECS);
    assert!(matches!(&job.target, SignOutput::File(p) if p == b"p.txt.asc"));
    assert!(job.warning.is_none() && !job.check);
}

#[test]
fn sign_default_output_refuses_overwrite_without_force() {
    let plan = cmd_sign(sign_args("rsa", "p.txt")).unwrap();
    let err = plan.set_out("p.txt.asc", Some(Ok(true))).unwrap_err();
    assert!(
        err.to_string().contains("refusing to overwrite"),
        "expected refuse-to-overwrite for the auto-derived output path"
    );
}

#[test]
fn sign_output_dash_streams_to_stdout() {
    let mut args = sign_args("rsa", "p.txt");
    args.output = Some(b"-".to_vec());
    let plan = cmd_sign(args).unwrap();
    assert!(matches!(plan.target, SignOutput::Stdout));
    assert!(plan.look_at().is_none());
    assert!(plan.set_out("", None).is_ok());
}

#[test]
fn force_needs_no_look_at_the_output() {
    let mut args = sign_args("rsa", "p.txt");
    args.force = true;
    let plan = cmd_sign(args).unwrap();
    assert!(plan.look_at().is_none());
    assert!(plan.set_out("p.txt.asc", None).is_ok());
}

#[test]
fn cleartext_needs_an_output() {
    let mut args = sign_args("rsa", "p.txt");
    args.form = SignatureForm::Cleartext;
    let err = cmd_sign(args).unwrap_err();
    assert_eq!(err.to_string(), "--output is required with --cleartext");
}

#[test]
fn creation_time_comes_from_the_certificate() {
    let token = token();
    let cert = cert_of(&export_two_tier(&token, "primary", ("5y", "5y")));
    let mut args = sign_args("subkey", "p.txt");
    args.creation_time = None;
    args.input_cert = true;
    let plan = cmd_sign(args).unwrap();
    let (progress, rest) = plan.set_out("p.txt.asc", Some(Ok(false))).unwrap();
    let job = rest.prepare(token.acquire(progress).unwrap(), Some(&cert)).unwrap();
    assert!(fingerprint(&job.signer).same(&cert.subkeys[0].fingerprint));
    assert!(job.check && job.warning.is_none());
}

#[test]
fn stated_creation_time_is_compared_with_the_certificate() {
    let token = token();
    let cert = cert_of(&export_two_tier(&token, "primary", ("5y", "5y")));
    let mut args = sign_args("subkey", "p.txt");
    args.creation_time = Some("2030-01-01T00:00:00Z".to_string());
    args.input_cert = true;
    let plan = cmd_sign(args).unwrap();
    let (progress, rest) = plan.set_out("p.txt.asc", Some(Ok(false))).unwrap();
    let job = rest.prepare(token.acquire(progress).unwrap(), Some(&cert)).unwrap();
    assert_eq!(
        job.warning.as_deref(),
        Some(
            "warning: --creation-time is 1893456000 s after the epoch, but the key in \
             --input-cert was created 1767225600 s after the epoch"
        )
    );
    let err = job.check_signer(Some(&cert), "cert.asc", now()).unwrap_err();
    assert!(err.to_string().starts_with("refusing to sign"));
    assert!(err.cause().unwrap().contains("is not bound to cert.asc"));
}

/// A signature by the key `k` of a certificate, before it is checked.
fn job_by(k: &CertKey, form: SignatureForm) -> SignJob {
    let time = UnixTime {
        secs: k.creation_time as u64,
        nanos: 0,
    };
    SignJob {
        signer: Pkcs11Signer {
            priv_handle: 7,
            key_type: KeyType::EC,
            public: Key::new(time, PublicKeyAlgorithm::ECDSA, k.material.clone()).unwrap(),
        },
        hash: HashAlgorithm::SHA256,
        form,
        target: SignOutput::Stdout,
        force: false,
        warning: None,
        check: true,
    }
}

#[test]
fn only_checked_jobs_are_signed() {
    let cert = software_cert();
    let within = UnixTime {
        secs: STABLE_SECS + 86_400,
        nanos: 0,
    };
    let after = UnixTime {
        secs: STABLE_SECS + 2 * 31_536_000,
        nanos: 0,
    };
    let job = || job_by(&cert.subkeys[0], SignatureForm::Armored);
    let checked = job().check_signer(Some(&cert), "cert.asc", within).unwrap();
    assert_eq!(checked.into_job().signer.priv_handle, 7);

    let err = job().check_signer(Some(&cert), "cert.asc", after).unwrap_err();
    assert!(err.to_string().starts_with("refusing to sign"));
    assert!(err.cause().unwrap().contains("not currently a valid signer"));

    let primary = job_by(&cert.primary, SignatureForm::Armored);
    let err = primary.check_signer(Some(&cert), "cert.asc", within).unwrap_err();
    assert!(err.cause().unwrap().contains("not currently a valid signer"));

    // Without a check, no certificate is asked.
    let mut job = job();
    job.check = false;
    assert!(job.check_signer(None, "", after).is_ok());
}

#[test]
fn creation_time_of_a_binary_signature_is_not_critical() {
    let cert = software_cert();
    for (form, critical) in [
        (SignatureForm::Armored, true),
        (SignatureForm::Binary, false),
        (SignatureForm::Cleartext, true),
    ] {
        assert_eq!(job_by(&cert.subkeys[0], form).critical_creation_time(), critical);
    }
}

#[test]
fn unreadable_certificate_is_reported() {
    let mut cert = software_cert();
    let f = cert.subkeys[0].fingerprint.clone();
    cert.data.truncate(20);
    let err = verify_signing_key(&f, &cert, "cert.asc", now()).unwrap_err().to_string();
    assert!(err.starts_with("parsing cert: "), "got: {err}");
}

#[test]
fn sign_without_any_creation_time_is_refused() {
    let mut args = sign_args("rsa", "p.txt");
    args.creation_time = None;
    let err = cmd_sign(args).unwrap_err().to_string();
    assert!(err.starts_with("--creation-time is required"), "got: {err}");
}

#[test]
fn unpublished_key_has_no_creation_time() {
    let token = token();
    let cert = cert_of(&export_two_tier(&token, "primary", ("5y", "5y")));
    let mut args = sign_args("subkey2", "p.txt");
    args.creation_time = None;
    args.input_cert = true;
    let (progress, rest) = cmd_sign(args).unwrap().set_out("", Some(Ok(false))).unwrap();
    let err = rest.prepare(token.acquire(progress).unwrap(), Some(&cert)).unwrap_err();
    assert_eq!(
        err.to_string(),
        "no key in --input-cert matches the public material of the selected HSM key"
    );
}

#[test]
fn required_key_algorithm_is_exact() {
    let token = token();
    let rsa = token.acquire(access_to("rsa")).unwrap();
    let ec = token.acquire(access_to("ec")).unwrap();
    let rsa = &rsa.public_key().mpis;
    let ec = &ec.public_key().mpis;
    assert!(check_key_algo(rsa, None).is_ok());
    assert!(check_key_algo(rsa, Some(KeyAlgo::Rsa2048)).is_ok());
    assert!(check_key_algo(rsa, Some(KeyAlgo::Rsa3072)).is_err());
    assert!(check_key_algo(ec, Some(KeyAlgo::P256)).is_ok());
    let err = check_key_algo(ec, Some(KeyAlgo::P384)).unwrap_err();
    assert_eq!(
        err.to_string(),
        "refusing to sign: the selected key is not p384 as --require-key-algo demands"
    );
    assert!(check_key_algo(&PublicKey::Other, Some(KeyAlgo::P521)).is_err());
}

#[test]
fn published_key_is_found_by_its_material() {
    let token = token();
    let cert = cert_of(&export_two_tier(&token, "primary", ("5y", "5y")));
    let subkey = token.acquire(access_to("subkey")).unwrap();
    let found = find_published_key(&cert, &subkey.public_key().mpis).unwrap();
    assert!(found.fingerprint.same(&cert.subkeys[0].fingerprint));
    let other = token.acquire(access_to("ec")).unwrap();
    assert!(find_published_key(&cert, &other.public_key().mpis).is_none());
}

#[test]
fn passphrase_of_a_file_reaches_the_token() {
    let mut args = sign_args("rsa", "p.txt");
    args.access.pin_file = Some(PinFile {
        path: "pin".to_string(),
        contents: Ok("secret\n".to_string()),
    });
    let plan = cmd_sign(args).unwrap();
    assert!(matches!(&plan.access.login, LoginMode::Pin(p) if p == "secret"));
}
