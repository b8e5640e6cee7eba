//! Options of the command line, and where output goes.

use sq_pkcs11::cli::{
    login_mode, parse_full_fingerprint, read_pin_file, resolve_module, resolve_subkey_selector,
    KeySelectionArgs, PinFile,
};
use sq_pkcs11::openpgp::Fingerprint;
use sq_pkcs11::output::{
    default_signature_path, names_stdout, open_mode, preflight_needed, preflight_overwrite,
    write_or_refuse, OpenMode, WriteFailure,
};
use sq_pkcs11::session::{KeySelector, LoginMode};

fn args(uri: Option<&str>, label: Option<&str>, id: Option<&str>, auto: bool) -> KeySelectionArgs {
    KeySelectionArgs {
        key_uri: uri.map(str::to_string),
        key_label: label.map(str::to_string),
        key_id: id.map(str::to_string),
        auto,
    }
}

fn pin_file(contents: Result<&str, &str>) -> PinFile {
    PinFile {
        path: "/run/pin".to_string(),
        contents: contents.map(str::to_string).map_err(str::to_string),
    }
}

#[test]
fn options_state_the_selector() {
    assert!(matches!(
        args(None, Some("k"), None, false).resolve().unwrap(),
        KeySelector::Label(l) if l == "k"
    ));
    assert!(matches!(
        args(None, None, Some("0aFF"), false).resolve().unwrap(),
        KeySelector::Id(i) if i == vec![0x0a, 0xff]
    ));
    assert!(matches!(
        args(Some("pkcs11:object=k"), None, None, false).resolve().unwrap(),
        KeySelector::Uri(u) if u.object_label.as_deref() == Some("k")
    ));
    assert!(matches!(
        args(None, None, None, true).resolve().unwrap(),
        KeySelector::Auto
    ));
}

#[test]
fn faulty_selectors_are_refused() {
    let err = args(None, None, None, false).resolve().unwrap_err();
    assert_eq!(
        err.to_string(),
        "specify one of --key-uri, --key-label, --key-id, or --auto"
    );
    let err = args(None, None, Some("xyz0"), false).resolve().unwrap_err();
    assert_eq!(err.to_string(), "invalid hex in --key-id: xyz0");
    assert_eq!(err.cause(), Some("Invalid character 'x' at position 0"));
    assert!(args(Some("http:"), None, None, false).resolve().is_err());
}

#[test]
fn subkey_selector_is_optional() {
    let none = resolve_subkey_selector(&args(None, None, None, false)).unwrap();
    assert!(none.is_none());
    let label = resolve_subkey_selector(&args(None, Some("s"), None, false)).unwrap();
    assert!(matches!(label, Some(KeySelector::Label(l)) if l == "s"));
    let err = resolve_subkey_selector(&args(None, None, Some("1"), false)).unwrap_err();
    assert_eq!(err.to_string(), "invalid hex in --subkey-id: 1");
    assert_eq!(err.cause(), Some("Odd number of digits"));
}

#[test]
fn one_newline_at_the_end_of_a_pin_file_is_removed() {
    for (raw, pin) in [
        ("1234", "1234"),
        ("1234\n", "1234"),
        ("1234\r\n", "1234"),
        ("1234\r", "1234"),
        ("1234\n\n", "1234\n"),
        (" 1234 \n", " 1234 "),
    ] {
        assert_eq!(read_pin_file(pin_file(Ok(raw))).unwrap(), pin);
    }
}

#[test]
fn empty_and_unreadable_pin_files_are_refused() {
    let err = read_pin_file(pin_file(Ok("\n"))).unwrap_err();
    assert_eq!(err.to_string(), "pin file /run/pin is empty");
    let err = read_pin_file(pin_file(Err("no such file"))).unwrap_err();
    assert_eq!(err.to_string(), "reading pin file /run/pin");
    assert_eq!(err.cause(), Some("no such file"));
}

#[test]
fn pin_file_goes_before_the_environment() {
    let env = Some("from-env".to_string());
    assert!(matches!(
        login_mode(Some(pin_file(Ok("from-file\n"))), env.clone()).unwrap(),
        LoginMode::Pin(p) if p == "from-file"
    ));
    assert!(matches!(
        login_mode(None, env).unwrap(),
        LoginMode::Pin(p) if p == "from-env"
    ));
    assert!(matches!(login_mode(None, None).unwrap(), LoginMode::NoLogin));
    assert!(login_mode(Some(pin_file(Ok(""))), None).is_err());
}

#[test]
fn module_of_the_command_line_goes_first() {
    assert_eq!(resolve_module(Some("a"), Some("b")).unwrap(), "a");
    assert_eq!(resolve_module(None, Some("b")).unwrap(), "b");
    let err = resolve_module::<&str>(None, None).unwrap_err();
    assert!(err.to_string().starts_with("PKCS#11 module not specified."));
}

#[test]
fn fingerprints_are_read_in_the_usual_notations() {
    let bytes: Vec<u8> = (1..=20).collect();
    let f = Fingerprint { bytes };
    let text = f.text();
    assert_eq!(text, "0102030405060708090A0B0C0D0E0F1011121314");
    for notation in [
        text.clone(),
        text.to_lowercase(),
        format!("0x{text}"),
        format!("0X{text}"),
        format!("\u{2003}0x{text}\u{a0}"),
        format!("  0102 0304 0506 0708 090A  0B0C 0D0E 0F10 1112 1314\n"),
    ] {
        assert!(parse_full_fingerprint(&notation).unwrap().same(&f), "{notation:?}");
    }
}

#[test]
fn short_key_ids_are_refused() {
    let err = parse_full_fingerprint("0123456789ABCDEF").unwrap_err().to_string();
    assert!(
        err.starts_with("\"0123456789ABCDEF\" is not a full OpenPGP fingerprint (got 16 hex chars"),
        "got: {err}"
    );
    assert!(parse_full_fingerprint("").is_err());
    let err = parse_full_fingerprint("0x0123456789abcdef").unwrap_err().to_string();
    assert!(err.contains("(got 16 hex chars"), "got: {err}");
}

#[test]
fn one_prefix_is_dropped_and_no_more() {
    let digits = "0102030405060708090A0B0C0D0E0F1011121314";
    for twice in [format!("0x0x{digits}"), format!("0x0X{digits}"), format!("0X0x{digits}")] {
        let err = parse_full_fingerprint(&twice).unwrap_err().to_string();
        assert!(err.contains("(got 42 hex chars"), "got: {err}");
    }
    // Forty characters, but with a second prefix among them.
    for twice in [format!("0x0x{}", &digits[2..]), format!("0X0x{}", &digits[2..])] {
        let err = parse_full_fingerprint(&twice).unwrap_err();
        assert!(err.to_string().ends_with(" as a 40-hex-char fingerprint"), "got: {err:?}");
        assert_eq!(err.cause(), Some("Invalid argument: Invalid characters"));
    }
    // Thirty-nine characters in forty bytes.
    let err = parse_full_fingerprint(&format!("{}\u{e9}", &digits[2..])).unwrap_err();
    assert_eq!(err.cause(), Some("Invalid argument: Odd number of nibbles"));
}

#[test]
fn fingerprints_of_other_characters_are_refused() {
    let err = parse_full_fingerprint("ZZZZZZZZZZZZZZZZZZZZZZZZZZZZZZZZZZZZZZZZ").unwrap_err();
    assert_eq!(
        err.to_string(),
        "parsing \"ZZZZZZZZZZZZZZZZZZZZZZZZZZZZZZZZZZZZZZZZ\" as a 40-hex-char fingerprint"
    );
    assert_eq!(err.cause(), Some("Invalid argument: Invalid characters"));
}

#[test]
fn signature_path_is_the_file_and_asc() {
    for (file, signature) in [
        ("p.txt", "p.txt.asc"),
        ("/tmp/release.tar.gz", "/tmp/release.tar.gz.asc"),
        ("README", "README.asc"),
        (".hidden", ".hidden.asc"),
        ("dir/", "dir.asc"),
        ("..", ".."),
    ] {
        let path = default_signature_path(&file.as_bytes().to_vec());
        assert_eq!(String::from_utf8(path).unwrap(), signature);
    }
    // Nor does a name that is not UTF-8 lose its extension.
    assert_eq!(default_signature_path(&b"a.\xff".to_vec()), b"a.\xff.asc".to_vec());
}

#[test]
fn dash_is_the_standard_output() {
    assert!(names_stdout(&b"-".to_vec()));
    assert!(!names_stdout(&b"./-".to_vec()));
    assert!(!names_stdout(&b"a-".to_vec()));
    assert!(!names_stdout(&vec![]));
}

#[test]
fn preflight_is_for_files_without_force() {
    let file = b"out.asc".to_vec();
    let dash = b"-".to_vec();
    assert!(preflight_needed(Some(&file), false));
    assert!(!preflight_needed(Some(&file), true));
    assert!(!preflight_needed(Some(&dash), false));
    assert!(!preflight_needed(None, false));
}

#[test]
fn existing_output_is_refused() {
    assert!(preflight_overwrite("o.asc", Ok(false)).is_ok());
    let err = preflight_overwrite("o.asc", Ok(true)).unwrap_err();
    assert_eq!(
        err.to_string(),
        "refusing to overwrite existing file o.asc; pass --force to overwrite"
    );
    let err = preflight_overwrite("o.asc", Err("denied".to_string())).unwrap_err();
    assert_eq!(err.to_string(), "checking whether o.asc already exists");
    assert_eq!(err.cause(), Some("denied"));
}

#[test]
fn output_is_created_anew_without_force() {
    assert_eq!(open_mode(false), OpenMode::CreateNew);
    assert_eq!(open_mode(true), OpenMode::Truncate);
    assert!(write_or_refuse("o", WriteFailure::AlreadyExists)
        .to_string()
        .starts_with("refusing to overwrite"));
    let err = write_or_refuse("o", WriteFailure::Open("denied".to_string()));
    assert_eq!((err.to_string().as_str(), err.cause()), ("opening o for writing", Some("denied")));
    let err = write_or_refuse("o", WriteFailure::Write("full".to_string()));
    assert_eq!((err.to_string().as_str(), err.cause()), ("writing to o", Some("full")));
}
