//! Slots, keys on tokens, and the listing of them.

use sq_pkcs11::listing::{cmd_list_keys, key_line, KeyReport, SlotReport, TokenReport};
use sq_pkcs11::nshield::{ck_ok, NshieldQuorumLogin, QuorumStep};
use sq_pkcs11::session::{
    find_private_keys, find_slot_by_uri, get_attribute, key_type, open_session,
    resolve_single_key, smart_slot_selection, KeySelector, LoginMode, Slot, TokenInfo,
};
use sq_pkcs11::token::{find_last, Attribute, AttributeType, KeyType, ObjectClass};
use sq_pkcs11::uri::Pkcs11Uri;

fn slot(id: u64, label: &str, login_required: bool) -> Slot {
    Slot {
        id,
        token: Some(TokenInfo {
            label: label.to_string(),
            login_required,
        }),
    }
}

fn pin() -> LoginMode {
    LoginMode::Pin("1234".to_string())
}

fn uri(s: &str) -> KeySelector {
    KeySelector::Uri(s.parse::<Pkcs11Uri>().unwrap())
}

// ---------------------------------------------------------------------------
// Slots
// ---------------------------------------------------------------------------

#[test]
fn first_slot_without_login_is_chosen() {
    let slots = vec![
        Slot { id: 1, token: None },
        slot(2, "softcard", true),
        slot(3, "accelerator", false),
        slot(4, "accelerator", false),
    ];
    assert_eq!(open_session(&slots, &KeySelector::Auto, &LoginMode::NoLogin).unwrap(), 3);
    assert_eq!(smart_slot_selection(&slots, &LoginMode::NoLogin).unwrap(), 3);
    assert_eq!(open_session(&slots, &uri("pkcs11:object=k"), &LoginMode::NoLogin).unwrap(), 3);
}

#[test]
fn slots_that_need_a_login_are_not_chosen_without_one() {
    let slots = vec![slot(2, "softcard", true)];
    let err = open_session(&slots, &KeySelector::Auto, &LoginMode::NoLogin).unwrap_err();
    assert_eq!(
        err.to_string(),
        "key not found: no module-protected slots found; use --key-uri pkcs11:token=<label>... \
         to address a token slot directly"
    );
}

#[test]
fn login_goes_to_the_only_slot() {
    let one = vec![slot(2, "softcard", true)];
    assert_eq!(open_session(&one, &KeySelector::Auto, &pin()).unwrap(), 2);
    let two = vec![slot(2, "softcard", true), slot(3, "accelerator", false)];
    let err = open_session(&two, &KeySelector::Auto, &pin()).unwrap_err();
    assert!(err.to_string().starts_with("ambiguous slot selection: 2 token slots found"));
}

#[test]
fn token_label_designates_the_slot() {
    let slots = vec![slot(2, "alpha   ", true), slot(3, "beta", true), slot(4, "beta", true)];
    assert_eq!(open_session(&slots, &uri("pkcs11:token=alpha"), &pin()).unwrap(), 2);
    let err = open_session(&slots, &uri("pkcs11:token=beta"), &pin()).unwrap_err();
    assert!(err.to_string().starts_with("ambiguous slot selection: 2 "));
    let gamma: Pkcs11Uri = "pkcs11:token=gamma".parse().unwrap();
    let err = find_slot_by_uri(&slots, &gamma).unwrap_err();
    assert_eq!(err.to_string(), "key not found: no token matched label \"gamma\"");
}

#[test]
fn white_space_around_labels_does_not_count() {
    // A blank, a no-break space and an em space.
    let slots = vec![slot(2, "alpha \u{a0}", true), slot(3, "al pha", true)];
    assert_eq!(open_session(&slots, &uri("pkcs11:token=%E2%80%83alpha"), &pin()).unwrap(), 2);
}

#[test]
fn no_slots_means_no_session() {
    let err = open_session(&vec![], &KeySelector::Auto, &LoginMode::NoLogin).unwrap_err();
    assert_eq!(err.to_string(), "key not found: no initialised PKCS#11 slots found");
}

// ---------------------------------------------------------------------------
// Keys
// ---------------------------------------------------------------------------

fn is_bytes(a: &Attribute, t: AttributeType, v: &[u8]) -> bool {
    matches!(a, Attribute::Bytes(x, y) if *x == t && y.as_slice() == v)
}

#[test]
fn template_finds_private_signing_keys() {
    let base = find_private_keys(&KeySelector::Auto);
    assert_eq!(base.len(), 2);
    assert!(matches!(base[0], Attribute::Class(ObjectClass::PrivateKey)));
    assert!(matches!(base[1], Attribute::Sign(true)));

    let label = find_private_keys(&KeySelector::Label("café".to_string()));
    assert_eq!(label.len(), 3);
    assert!(is_bytes(&label[2], AttributeType::Label, "café".as_bytes()));

    let id = find_private_keys(&KeySelector::Id(vec![1, 2]));
    assert!(is_bytes(&id[2], AttributeType::Id, &[1, 2]));

    let both = find_private_keys(&uri("pkcs11:object=k;id=0102"));
    assert_eq!(both.len(), 4);
    assert!(is_bytes(&both[2], AttributeType::Label, b"k"));
    assert!(is_bytes(&both[3], AttributeType::Id, &[1, 2]));
}

#[test]
fn only_a_unique_key_is_used() {
    let selector = KeySelector::Label("k".to_string());
    assert_eq!(resolve_single_key(&vec![42], &selector).unwrap(), 42);
    let err = resolve_single_key(&vec![], &selector).unwrap_err();
    assert_eq!(
        err.to_string(),
        "key not found: no signing key matched selector Label(\"k\")"
    );
    let err = resolve_single_key(&vec![1, 2, 3], &selector).unwrap_err();
    assert!(err.to_string().contains("3"));
}

#[test]
fn selectors_are_described() {
    assert_eq!(KeySelector::Auto.text(), "Auto");
    assert_eq!(KeySelector::Id(vec![1, 171]).text(), "Id([1, 171])");
    assert_eq!(
        uri("pkcs11:token=t;id=01").text(),
        "Uri(Pkcs11Uri { token_label: Some(\"t\"), object_label: None, key_id: Some([1]) })"
    );
}

#[test]
fn missing_attribute_is_named() {
    let err = get_attribute(&vec![], AttributeType::KeyType).unwrap_err();
    assert_eq!(
        err.to_string(),
        "key not found: attribute KeyType not present on key"
    );
    assert!(key_type(&vec![]).is_err());
    assert_eq!(key_type(&vec![Attribute::KeyType(KeyType::EC)]).unwrap(), KeyType::EC);
}

#[test]
fn last_attribute_counts() {
    let attrs = vec![
        Attribute::Bytes(AttributeType::Id, vec![1]),
        Attribute::Other,
        Attribute::Bytes(AttributeType::Id, vec![2]),
        Attribute::Bytes(AttributeType::Id, vec![]),
    ];
    assert_eq!(find_last(&attrs, AttributeType::Id, false), Some(vec![]));
    assert_eq!(find_last(&attrs, AttributeType::Id, true), Some(vec![2]));
    assert_eq!(find_last(&attrs, AttributeType::Label, false), None);
}

// ---------------------------------------------------------------------------
// Listing
// ---------------------------------------------------------------------------

fn key(label: &str, id: Vec<u8>, kt: KeyType) -> KeyReport {
    KeyReport {
        label: Some(vec![Attribute::Bytes(AttributeType::Label, label.as_bytes().to_vec())]),
        id: Some(vec![Attribute::Bytes(AttributeType::Id, id)]),
        key_type: Some(vec![Attribute::KeyType(kt)]),
    }
}

fn info(label: &str, login_required: bool) -> TokenInfo {
    TokenInfo {
        label: label.to_string(),
        login_required,
    }
}

#[test]
fn list_keys_shows_test_keys() {
    let labels = ["test-rsa", "test-ec", "test-primary", "test-subkey", "test-subkey2"];
    let mut keys = Vec::new();
    for (i, label) in labels.iter().enumerate() {
        keys.push(key(label, vec![i as u8 + 1], KeyType::EC));
    }
    let slots = vec![SlotReport {
        id: 492971157,
        token: Some((info("accelerator     ", false), TokenReport::Keys(keys))),
    }];
    let listing = cmd_list_keys(&slots, false);
    assert!(listing.failure.is_none());
    assert_eq!(
        listing.lines[0],
        "Slot 492971157  token: accelerator  [module-protected]"
    );
    let out = listing.lines.join("\n");
    for label in labels {
        assert!(
            out.contains(&format!("label={label:?}")),
            "expected listing to mention {label:?}, got:\n{out}"
        );
    }
    assert_eq!(
        listing.lines[1],
        "  label=\"test-rsa\"  id=01  type=EC (ECDSA/ECDH)"
    );
}

#[test]
fn unknown_parts_of_a_key_have_a_placeholder() {
    let nothing = KeyReport {
        label: None,
        id: None,
        key_type: None,
    };
    assert_eq!(key_line(&nothing), "  label=\"<no label>\"  id=<no id>  type=?");
    let empty = key("", vec![], KeyType::RSA);
    assert_eq!(key_line(&empty), "  label=\"\"  id=<no id>  type=RSA");
    let mut broken = key("x", vec![0xab, 0x01], KeyType::RSA);
    broken.label = Some(vec![Attribute::Bytes(AttributeType::Label, vec![0xff])]);
    assert_eq!(key_line(&broken), "  label=\"<no label>\"  id=ab01  type=RSA");
}

#[test]
fn empty_slots_are_listed_on_demand() {
    let slots = vec![SlotReport { id: 7, token: None }];
    assert!(cmd_list_keys(&slots, false).lines.is_empty());
    assert_eq!(cmd_list_keys(&slots, true).lines, vec!["Slot 7  [no token present]"]);
    assert_eq!(cmd_list_keys(&vec![], false).lines, vec!["No slots found."]);
}

#[test]
fn trouble_with_a_token_is_listed() {
    let slots = vec![
        SlotReport {
            id: 1,
            token: Some((info("a", true), TokenReport::NoSession("busy".to_string()))),
        },
        SlotReport {
            id: 2,
            token: Some((info("b", false), TokenReport::Keys(vec![]))),
        },
        SlotReport {
            id: 3,
            token: Some((info("c", false), TokenReport::NoSearch("lost".to_string()))),
        },
        SlotReport { id: 4, token: None },
    ];
    let listing = cmd_list_keys(&slots, true);
    assert_eq!(
        listing.lines,
        vec![
            "Slot 1  token: a  [token-protected (OCS or softcard)]",
            "  (could not open session: busy)",
            "Slot 2  token: b  [module-protected]",
            "  (no signing keys)",
            "Slot 3  token: c  [module-protected]",
        ]
    );
    assert_eq!(listing.failure.unwrap().to_string(), "lost");
}

// ---------------------------------------------------------------------------
// Card sets
// ---------------------------------------------------------------------------

#[test]
fn quorum_login_presents_cards_until_no_share_is_missing() {
    let (text, step) = NshieldQuorumLogin::quorum_login(0, 2, 3).unwrap();
    assert_eq!(text, "OCS quorum login: need 2 of 3 cards.");
    let first = match step {
        QuorumStep::Present(login) => login,
        QuorumStep::End => panic!("two cards are missing"),
    };
    assert_eq!((first.card, first.shares_left), (1, 2));
    let second = match first.presented(0, 1).unwrap() {
        QuorumStep::Present(login) => login,
        QuorumStep::End => panic!("one card is missing"),
    };
    assert_eq!((second.card, second.shares_left), (2, 1));
    assert!(matches!(second.presented(0, 0).unwrap(), QuorumStep::End));
    assert!(NshieldQuorumLogin::ended(0).is_ok());
}

#[test]
fn quorum_login_names_the_call_that_failed() {
    assert_eq!(
        NshieldQuorumLogin::quorum_login(0xe0, 0, 0).unwrap_err().to_string(),
        "C_LoginBegin returned 0x000000e0 (CKR_TOKEN_NOT_PRESENT)"
    );
    let login = NshieldQuorumLogin { k: 2, n: 5, card: 2, shares_left: 1 };
    assert_eq!(
        login.presented(0x30, 1).unwrap_err().to_string(),
        "C_LoginNext (card 2) returned 0x00000030 (CKR_PIN_INCORRECT)"
    );
    assert_eq!(
        NshieldQuorumLogin::ended(0x1234).unwrap_err().to_string(),
        "C_LoginEnd returned 0x00001234 (unknown CKR error)"
    );
    assert_eq!(
        ck_ok(0x8000_0001, "C_X").unwrap_err().to_string(),
        "C_X returned 0x80000001 (CKR_FIPS_TOKEN_NOT_PRESENT (nShield))"
    );
    assert!(ck_ok(0, "C_X").is_ok());
}
