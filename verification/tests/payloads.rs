use native_mod::payloads::{goodbye, hello, pack_ptr_len, wasm_greeting};

#[test]
fn payload_strings() {
    assert_eq!(hello(), "Hello from native!");
    assert_eq!(goodbye(), "Goodbye from native!");
    assert_eq!(wasm_greeting(), "Hello from WASM!");
}

#[test]
fn pointer_and_length_packing() {
    assert_eq!(pack_ptr_len(0x1234, 16), 0x0000_1234_0000_0010);
    assert_eq!(pack_ptr_len(u32::MAX, u32::MAX), u64::MAX);
    assert_eq!(pack_ptr_len(0, 0), 0);
}
