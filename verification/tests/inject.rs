use native_mod::inject::{inject_record, str_eq, ArgPair, InjectArgs, InjectArgsError};
use native_mod::record::encode_inject_record;

fn pair(k: &str, v: &str) -> ArgPair {
    ArgPair {
        key: Some(k.to_string()),
        value: Some(v.to_string()),
    }
}

#[test]
fn all_arguments() {
    let a = InjectArgs::from_pairs(&vec![
        pair("target", "Lnet/minecraft/server/MinecraftServer;"),
        pair("method", "runServer"),
        pair("at", "RETURN"),
        pair("class", "hello_Mixin"),
    ])
    .unwrap()
    .unwrap();
    assert_eq!(a.target, "Lnet/minecraft/server/MinecraftServer;");
    assert_eq!(a.method, "runServer");
    assert_eq!(a.at, "RETURN");
    assert_eq!(a.class, "hello_Mixin");
}

#[test]
fn at_defaults_to_head_and_later_values_win() {
    let a = InjectArgs::from_pairs(&vec![
        pair("class", "first"),
        pair("method", "m"),
        pair("target", "t"),
        pair("class", "second"),
    ])
    .unwrap()
    .unwrap();
    assert_eq!(a.at, "HEAD");
    assert_eq!(a.class, "second");
}

#[test]
fn bare_attribute_is_accepted() {
    assert!(matches!(InjectArgs::from_pairs(&vec![]), Ok(None)));
}

#[test]
fn missing_arguments_in_checking_order() {
    assert!(matches!(
        InjectArgs::from_pairs(&vec![pair("target", "t")]),
        Err(InjectArgsError::MissingMethod)
    ));
    assert!(matches!(
        InjectArgs::from_pairs(&vec![pair("target", "t"), pair("method", "m")]),
        Err(InjectArgsError::MissingClass)
    ));
}

#[test]
fn bad_arguments_report_their_position() {
    assert!(matches!(
        InjectArgs::from_pairs(&vec![pair("target", "t"), pair("when", "x")]),
        Err(InjectArgsError::UnknownArgument(1))
    ));
    let no_key = ArgPair {
        key: None,
        value: Some("v".to_string()),
    };
    assert!(matches!(
        InjectArgs::from_pairs(&vec![no_key]),
        Err(InjectArgsError::ExpectedIdentifier(0))
    ));
    let no_lit = ArgPair {
        key: Some("when".to_string()),
        value: None,
    };
    assert!(matches!(
        InjectArgs::from_pairs(&vec![pair("method", "m"), no_lit]),
        Err(InjectArgsError::ExpectedStringLiteral(1))
    ));
}

#[test]
fn record_of_the_attribute() {
    let a = InjectArgs::from_pairs(&vec![
        pair("target", "T"),
        pair("method", "M"),
        pair("class", "C"),
    ])
    .unwrap()
    .unwrap();
    assert_eq!(
        inject_record("hello", &a),
        encode_inject_record("hello", "T", "M", "HEAD", "C")
    );
    assert_eq!(inject_record("f", &a), b"f\x1fT\x1fM\x1fHEAD\x1fC\x1e".to_vec());
}

#[test]
fn string_equality() {
    assert!(str_eq("abc", "abc"));
    assert!(!str_eq("abc", "abd"));
    assert!(!str_eq("ab", "abc"));
    assert!(str_eq("", ""));
}
