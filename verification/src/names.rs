//! Names shared by the Rust side (`#[inject]`) and the generated Java side.

use vstd::prelude::*;

verus! {

/// Java package of the generated Mixin classes.
pub const MIXIN_PACKAGE: &'static str = "com.example.mixin";

/// Internal (slash-separated) form of [`MIXIN_PACKAGE`].
pub const MIXIN_PACKAGE_INTERNAL: &'static str = "com/example/mixin";

/// The class that extracts and loads the bundled native library.
pub const NATIVE_LOADER_INTERNAL: &'static str = "com/example/runtime/NativeLoader";

/// Holder class of every `native static` method. Mixin classes cannot host
/// native methods: the Mixin processor merges them into the target class and
/// the JVM would then look for `Java_<target>_<fn>`. A plain class outside the
/// Mixin package keeps the symbols bound to `Java_com_example_runtime_NativePayloads_<fn>`.
pub const NATIVE_PAYLOADS_OWNER: &'static str = "com/example/runtime/NativePayloads";

/// JNI-mangled form of [`NATIVE_PAYLOADS_OWNER`], the prefix of the exported symbols.
pub const JNI_NATIVE_OWNER: &'static str = "com_example_runtime_NativePayloads";

pub const MOD_ID: &'static str = "hello-native-mod";

/// The cargo package whose cdylib holds the payloads.
pub const NATIVES_PACKAGE: &'static str = "native-payloads";

/// File stem of the payload cdylib (`-` of the package name becomes `_`);
/// `System.mapLibraryName` of it gives the file name on each platform.
pub const NATIVE_LIB_BASENAME: &'static str = "native_payloads";

/// Environment variable that switches the build into aggregate mode.
pub const NATIVE_LIB_DIRS_ENV: &'static str = "NATIVE_LIB_DIRS";

pub const MIXIN_ANNOTATION: &'static str = "Lorg/spongepowered/asm/mixin/Mixin;";
pub const INJECT_ANNOTATION: &'static str = "Lorg/spongepowered/asm/mixin/injection/Inject;";
pub const AT_ANNOTATION: &'static str = "Lorg/spongepowered/asm/mixin/injection/At;";

/// Internal name of the Mixin callback object passed to every handler.
pub const CALLBACK_INFO: &'static str = "org/spongepowered/asm/mixin/injection/callback/CallbackInfo";

/// Separates the fields of one `#[inject]` metadata record (ASCII US).
pub const FIELD_SEP: u8 = 0x1f;

/// Ends one `#[inject]` metadata record (ASCII RS).
pub const RECORD_SEP: u8 = 0x1e;

/// The link sections the `#[inject]` records go to: Linux, macOS, Windows.
pub fn inject_meta_sections() -> (v: Vec<&'static str>)
    ensures
        v@.len() == 3,
        v@[0]@ == ".inject_meta"@,
        v@[1]@ == "__injmeta"@,
        v@[2]@ == ".injmta"@,
{
    let mut v = Vec::new();
    v.push(".inject_meta");
    v.push("__injmeta");
    v.push(".injmta");
    v
}

} // verus!
