//! Selecting a key by a PKCS#11 URI.

use sq_pkcs11::hexcode::hex_digit_value;
use sq_pkcs11::uri::{parse_id_bytes, percent_decode, percent_decode_bytes, Pkcs11Uri};

#[test]
fn uri_full() {
    let uri: Pkcs11Uri = "pkcs11:token=mytoken;object=mykey;type=private"
        .parse()
        .unwrap();
    assert_eq!(uri.token_label.as_deref(), Some("mytoken"));
    assert_eq!(uri.object_label.as_deref(), Some("mykey"));
    assert!(uri.key_id.is_none());
}

#[test]
fn uri_token_only() {
    let uri: Pkcs11Uri = "pkcs11:token=t".parse().unwrap();
    assert_eq!(uri.token_label.as_deref(), Some("t"));
    assert_eq!(uri.object_label, None);
    assert_eq!(uri.key_id, None);
}

#[test]
fn uri_object_only() {
    let uri: Pkcs11Uri = "pkcs11:object=k".parse().unwrap();
    assert_eq!(uri.token_label, None);
    assert_eq!(uri.object_label.as_deref(), Some("k"));
}

#[test]
fn uri_no_prefix_rejected() {
    let res: std::result::Result<Pkcs11Uri, _> = "token=foo".parse();
    assert!(res.is_err());
}

#[test]
fn uri_type_private_accepted() {
    let uri: Pkcs11Uri = "pkcs11:object=k;type=private".parse().unwrap();
    assert_eq!(uri.object_label.as_deref(), Some("k"));
}

#[test]
fn uri_type_other_rejected() {
    // Only private signing keys are selected; another type= contradicts that.
    for bad in [
        "pkcs11:object=k;type=public",
        "pkcs11:object=k;type=cert",
        "pkcs11:object=k;type=data",
        "pkcs11:object=k;type=secret-key",
    ] {
        let res: std::result::Result<Pkcs11Uri, _> = bad.parse();
        let err = res
            .err()
            .unwrap_or_else(|| panic!("parser must reject {bad:?}"))
            .to_string();
        assert!(
            err.contains("type=") && err.contains("private"),
            "expected error to mention type= and private for {bad:?}, got: {err}"
        );
    }
}

#[test]
fn uri_id_hex() {
    let uri: Pkcs11Uri = "pkcs11:id=01ab02".parse().unwrap();
    assert_eq!(uri.key_id.unwrap(), vec![0x01, 0xab, 0x02]);
}

#[test]
fn uri_id_percent_encoded() {
    let uri: Pkcs11Uri = "pkcs11:id=%01%ab%02".parse().unwrap();
    assert_eq!(uri.key_id.unwrap(), vec![0x01, 0xab, 0x02]);
}

#[test]
fn uri_id_percent_encoded_high_bytes_dont_utf8_expand() {
    let uri: Pkcs11Uri = "pkcs11:id=%80%ff%c0".parse().unwrap();
    assert_eq!(uri.key_id.unwrap(), vec![0x80, 0xff, 0xc0]);
}

#[test]
fn uri_label_with_utf8_percent_encoding() {
    let uri: Pkcs11Uri = "pkcs11:object=caf%C3%A9".parse().unwrap();
    assert_eq!(uri.object_label.as_deref(), Some("café"));
}

#[test]
fn uri_token_label_with_utf8_percent_encoding() {
    let lower: Pkcs11Uri = "pkcs11:token=%e2%9c%93-token".parse().unwrap();
    assert_eq!(lower.token_label.as_deref(), Some("\u{2713}-token"));
    let uri: Pkcs11Uri = "pkcs11:token=%E2%9C%93-token".parse().unwrap();
    assert_eq!(uri.token_label.as_deref(), Some("✓-token"));
}

#[test]
fn uri_rejects_malformed_percent_escape() {
    let cases = [
        "pkcs11:object=ba%XY", // non-hex digits
        "pkcs11:object=ba%",   // truncated (no digits)
        "pkcs11:object=ba%2",  // truncated (one digit)
        "pkcs11:id=%XY",       // non-hex digits in id
    ];
    for c in cases {
        let res: std::result::Result<Pkcs11Uri, _> = c.parse();
        assert!(res.is_err(), "expected {c:?} to be rejected");
    }
}

#[test]
fn uri_rejects_invalid_utf8_in_text_field() {
    let res: std::result::Result<Pkcs11Uri, _> = "pkcs11:object=%ff".parse();
    assert!(
        res.is_err(),
        "expected invalid UTF-8 in object= to be rejected"
    );
}

#[test]
fn uri_percent_encoded_label() {
    let uri: Pkcs11Uri = "pkcs11:object=my%20key".parse().unwrap();
    assert_eq!(uri.object_label.as_deref(), Some("my key"));
}

#[test]
fn uri_unknown_attribute_ignored() {
    let uri: Pkcs11Uri = "pkcs11:slot-id=1;token=t;type=private".parse().unwrap();
    assert_eq!(uri.token_label.as_deref(), Some("t"));
}

#[test]
fn uri_empty_after_prefix() {
    let uri: Pkcs11Uri = "pkcs11:".parse().unwrap();
    assert!(uri.token_label.is_none());
    assert!(uri.object_label.is_none());
    assert!(uri.key_id.is_none());
}

#[test]
fn last_attribute_of_a_name_wins() {
    let uri = Pkcs11Uri::parse_text("pkcs11:token=a;token=b;object=x;object=y").unwrap();
    assert_eq!(uri.token_label.as_deref(), Some("b"));
    assert_eq!(uri.object_label.as_deref(), Some("y"));
}

#[test]
fn value_goes_on_after_an_equals_sign() {
    let uri = Pkcs11Uri::parse_text("pkcs11:object=a=b").unwrap();
    assert_eq!(uri.object_label.as_deref(), Some("a=b"));
}

#[test]
fn default_uri_names_nothing() {
    let uri = Pkcs11Uri::default();
    assert!(uri.token_label.is_none() && uri.object_label.is_none() && uri.key_id.is_none());
}

#[test]
fn percent_escapes_decode_to_bytes() {
    assert_eq!(percent_decode_bytes("a%00%fFz").unwrap(), vec![b'a', 0x00, 0xff, b'z']);
    assert_eq!(percent_decode_bytes("").unwrap(), Vec::<u8>::new());
    assert_eq!(percent_decode("caf%C3%A9").unwrap(), "café");
    assert_eq!(percent_decode("plain-text").unwrap(), "plain-text");
}

#[test]
fn percent_escapes_of_every_byte_come_back() {
    let mut escaped = String::new();
    let mut all = Vec::new();
    for b in 0..=255u8 {
        escaped.push_str(&format!("%{b:02x}"));
        all.push(b);
    }
    assert_eq!(percent_decode_bytes(&escaped).unwrap(), all);
}

#[test]
fn id_notations_give_the_same_bytes() {
    assert_eq!(parse_id_bytes("00ff10").unwrap(), parse_id_bytes("%00%ff%10").unwrap());
    assert_eq!(parse_id_bytes("A0b1").unwrap(), vec![0xa0, 0xb1]);
}

#[test]
fn faulty_ids_are_refused_with_the_reason() {
    assert_eq!(
        parse_id_bytes("abc").unwrap_err().to_string(),
        "invalid key id hex: Odd number of digits"
    );
    assert_eq!(
        parse_id_bytes("0g").unwrap_err().to_string(),
        "invalid key id hex: Invalid character 'g' at position 1"
    );
}

#[test]
fn faulty_text_is_refused_with_the_reason() {
    assert_eq!(
        percent_decode("%ff").unwrap_err().to_string(),
        "URI value \"%ff\" is not valid UTF-8: invalid utf-8 sequence of 1 bytes from index 0"
    );
    assert_eq!(
        percent_decode("a%4x").unwrap_err().to_string(),
        "invalid hex digit after '%' in URI value \"a%4x\": 'x'"
    );
}

#[test]
fn hexadecimal_digits_have_their_value() {
    assert_eq!(hex_digit_value(b'0'), Some(0));
    assert_eq!(hex_digit_value(b'9'), Some(9));
    assert_eq!(hex_digit_value(b'a'), Some(10));
    assert_eq!(hex_digit_value(b'F'), Some(15));
    assert_eq!(hex_digit_value(b'g'), None);
    assert_eq!(hex_digit_value(b'/'), None);
}
