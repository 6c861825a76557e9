//! The payload functions the cdylibs export, and the pointer/length packing
//! the Wasm payloads return their strings with.

use vstd::prelude::*;

verus! {

/// Payload run at the head of `MinecraftServer#runServer`.
pub fn hello() -> (r: &'static str)
    ensures
        r@ == "Hello from native!"@,
{
    "Hello from native!"
}

/// Payload run when `MinecraftServer#runServer` returns.
pub fn goodbye() -> (r: &'static str)
    ensures
        r@ == "Goodbye from native!"@,
{
    "Goodbye from native!"
}

/// The string the Wasm payloads hand back.
pub fn wasm_greeting() -> (r: &'static str)
    ensures
        r@ == "Hello from WASM!"@,
{
    "Hello from WASM!"
}

/// A 32-bit address and a 32-bit length in one `u64`: address in the high
/// half, length in the low half.
pub fn pack_ptr_len(ptr: u32, len: u32) -> (r: u64)
    ensures
        r == ptr as int * 0x1_0000_0000 + len as int,
{
    let p = ptr as u64;
    let l = len as u64;
    assert((p << 32) | l == p * 0x1_0000_0000 + l) by (bit_vector)
        requires
            p < 0x1_0000_0000,
            l < 0x1_0000_0000,
    ;
    (p << 32) | l
}

} // verus!
