use native_mod::inject::jni_symbol_name;
use native_mod::jni::{encode_utf16, jni_escape};
use native_mod::names::{JNI_NATIVE_OWNER, NATIVE_PAYLOADS_OWNER};

#[test]
fn jni_escape_passthrough() {
    assert_eq!(jni_escape("hello"), "hello");
    assert_eq!(jni_escape("Class123"), "Class123");
}

#[test]
fn jni_escape_underscore_to_underscore_one() {
    assert_eq!(jni_escape("hello_world"), "hello_1world");
    assert_eq!(jni_escape("hello_Mixin"), "hello_1Mixin");
    assert_eq!(jni_escape("__"), "_1_1");
}

#[test]
fn jni_escape_slash_and_dot_to_underscore() {
    assert_eq!(jni_escape("com/example"), "com_example");
    assert_eq!(jni_escape("com.example"), "com_example");
}

#[test]
fn jni_escape_semicolon_and_bracket() {
    assert_eq!(jni_escape("Class;"), "Class_2");
    assert_eq!(jni_escape("[I"), "_3I");
}

#[test]
fn jni_escape_unicode_bmp() {
    // U+3042 HIRAGANA LETTER A
    assert_eq!(jni_escape("あ"), "_03042");
}

#[test]
fn jni_escape_empty() {
    assert_eq!(jni_escape(""), "");
}

#[test]
fn jni_escape_supplementary_plane_uses_surrogates() {
    // U+1F600 is D83D DE00 in UTF-16
    assert_eq!(jni_escape("\u{1F600}"), "_0d83d_0de00");
    assert_eq!(encode_utf16('\u{1F600}'), vec![0xD83D, 0xDE00]);
}

#[test]
fn jni_escape_lowercase_hex_and_other_ascii() {
    assert_eq!(jni_escape("a-b"), "a_0002db");
    assert_eq!(jni_escape("é"), "_000e9");
    assert_eq!(jni_escape("$"), "_00024");
}

#[test]
fn encode_utf16_bmp_is_one_unit() {
    assert_eq!(encode_utf16('A'), vec![0x41]);
    assert_eq!(encode_utf16('あ'), vec![0x3042]);
}

#[test]
fn jni_owner_constant_is_escaped_holder_name() {
    assert_eq!(jni_escape(NATIVE_PAYLOADS_OWNER), JNI_NATIVE_OWNER);
}

#[test]
fn jni_symbol_of_payload_functions() {
    assert_eq!(
        jni_symbol_name("hello"),
        "Java_com_example_runtime_NativePayloads_hello"
    );
    assert_eq!(
        jni_symbol_name("cancel_demo"),
        "Java_com_example_runtime_NativePayloads_cancel_1demo"
    );
}
