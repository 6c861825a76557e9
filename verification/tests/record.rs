use native_mod::objfile::parse_meta_sections;
use native_mod::record::{
    encode_inject_record, parse_inject_records, parse_one_record, split_bytes, InjectMeta,
    InjectMetaError,
};

fn meta(fn_name: &str, target: &str, method: &str, at: &str, class: &str) -> InjectMeta {
    InjectMeta {
        fn_name: fn_name.to_string(),
        target: target.to_string(),
        method: method.to_string(),
        at: at.to_string(),
        class: class.to_string(),
    }
}

fn same(a: &InjectMeta, b: &InjectMeta) -> bool {
    a.fn_name == b.fn_name
        && a.target == b.target
        && a.method == b.method
        && a.at == b.at
        && a.class == b.class
}

#[test]
fn record_layout() {
    let r = encode_inject_record("hello", "Lx;", "run", "HEAD", "hello_Mixin");
    let mut want = b"hello".to_vec();
    want.push(0x1f);
    want.extend_from_slice(b"Lx;");
    want.push(0x1f);
    want.extend_from_slice(b"run");
    want.push(0x1f);
    want.extend_from_slice(b"HEAD");
    want.push(0x1f);
    want.extend_from_slice(b"hello_Mixin");
    want.push(0x1e);
    assert_eq!(r, want);
}

#[test]
fn records_roundtrip_in_order() {
    let a = meta(
        "hello",
        "Lnet/minecraft/server/MinecraftServer;",
        "runServer",
        "HEAD",
        "hello_Mixin",
    );
    let b = meta("goodbye", "Lnet/minecraft/server/MinecraftServer;", "runServer", "RETURN", "bye_Mixin");
    let mut data = encode_inject_record(&a.fn_name, &a.target, &a.method, &a.at, &a.class);
    data.extend(encode_inject_record(&b.fn_name, &b.target, &b.method, &b.at, &b.class));
    let got = parse_inject_records(&data).unwrap();
    assert_eq!(got.len(), 2);
    assert!(same(&got[0], &a));
    assert!(same(&got[1], &b));
}

#[test]
fn non_ascii_fields_roundtrip() {
    let a = meta("あいう", "Lé;", "m", "HEAD", "c");
    let data = encode_inject_record(&a.fn_name, &a.target, &a.method, &a.at, &a.class);
    let got = parse_inject_records(&data).unwrap();
    assert_eq!(got.len(), 1);
    assert!(same(&got[0], &a));
}

#[test]
fn empty_records_are_skipped() {
    let mut data = vec![0x1e, 0x1e];
    data.extend(encode_inject_record("f", "t", "m", "a", "c"));
    data.push(0x1e);
    let got = parse_inject_records(&data).unwrap();
    assert_eq!(got.len(), 1);
    assert_eq!(got[0].fn_name, "f");
    assert!(parse_inject_records(&[]).unwrap().is_empty());
}

#[test]
fn wrong_field_count_is_refused() {
    let data = b"a\x1fb\x1fc\x1e".to_vec();
    assert!(matches!(
        parse_inject_records(&data),
        Err(InjectMetaError::FieldCount(3))
    ));
    let six = b"a\x1fb\x1fc\x1fd\x1fe\x1ff".to_vec();
    assert!(matches!(parse_one_record(&six), Err(InjectMetaError::FieldCount(6))));
}

#[test]
fn invalid_utf8_names_the_field() {
    let data = b"a\x1fb\x1f\xff\x1fd\x1fe\x1e".to_vec();
    assert!(matches!(
        parse_inject_records(&data),
        Err(InjectMetaError::NotUtf8(2))
    ));
}

#[test]
fn first_bad_record_decides() {
    let mut data = encode_inject_record("f", "t", "m", "a", "c");
    data.extend_from_slice(b"x\x1fy\x1e");
    data.extend_from_slice(b"\xff\x1f\x1f\x1f\x1f\x1e");
    assert!(matches!(
        parse_inject_records(&data),
        Err(InjectMetaError::FieldCount(2))
    ));
}

#[test]
fn split_keeps_empty_pieces() {
    let parts = split_bytes(b",a,,b,", b',');
    assert_eq!(
        parts,
        vec![vec![], b"a".to_vec(), vec![], b"b".to_vec(), vec![]]
    );
    assert_eq!(split_bytes(b"", b','), vec![Vec::<u8>::new()]);
}

#[test]
fn sections_are_concatenated() {
    let r1 = encode_inject_record("f", "t", "m", "HEAD", "c");
    let mut half = r1.clone();
    let rest = half.split_off(4);
    let got = parse_meta_sections(&vec![half, rest], "lib.so").unwrap();
    assert_eq!(got.len(), 1);
    assert_eq!(got[0].class, "c");
}

#[test]
fn no_section_data_is_an_error() {
    match parse_meta_sections(&vec![vec![], vec![]], "libx.so") {
        Err(InjectMetaError::NoMetaSection(f)) => assert_eq!(f, "libx.so"),
        _ => panic!("expected NoMetaSection"),
    }
}
