//! Bodies of the generated Java methods, built with the stack-checking
//! [`Code`] builder: each is stack-safe within its declared `max_stack`.

use vstd::prelude::*;
use crate::bytecode::{
    CallKind, Code, CodeBody, FieldView, Insn, InsnView, MethodView, branch_free, listing,
};
use crate::ensure_run::{ensure_loaded_listing, lemma_ensure_loaded_runs, performs_ensure_loaded};
use crate::loader_run::{
    builder_append, computes_resource_path, lemma_resource_path_runs, resource_path_listing,
};
use crate::descriptor::{JavaType, MethodDesc};
use crate::names::{NATIVE_LIB_BASENAME, NATIVE_LOADER_INTERNAL, NATIVE_PAYLOADS_OWNER};

verus! {

fn string_t() -> (t: JavaType)
    ensures
        t == JavaType::Object("java/lang/String"),
{
    JavaType::Object("java/lang/String")
}

fn builder_t() -> (t: JavaType)
    ensures
        t == JavaType::Object("java/lang/StringBuilder"),
{
    JavaType::Object("java/lang/StringBuilder")
}

/// `()V`
fn void_desc() -> (d: MethodDesc)
    ensures
        crate::descriptor::slots_of(d.args@) == 0,
        d.args@ == Seq::<JavaType>::empty(),
        d.ret is None,
{
    MethodDesc::new0(None)
}

/// `StringBuilder.append(String)`, on the builder and string on the stack.
fn append_string(c: &mut Code)
    requires
        old(c).wf(),
        old(c).room(2, 1),
    ensures
        final(c).wf(),
        final(c).max() == old(c).max(),
        final(c).depth() == old(c).depth() - 1,
        final(c).reachable(),
        final(c).same_labels(old(c)),
        branch_free(final(c).insns()) == branch_free(old(c).insns()),
        listing(final(c).insns()) == listing(old(c).insns()).push(
            InsnView::Invoke(CallKind::Virtual, builder_append()),
        ),
{
    c.invokevirtual(
        "java/lang/StringBuilder",
        "append",
        MethodDesc::new1(string_t(), Some(builder_t())),
    );
}

/// `aload_0; invokespecial java/lang/Object.<init>()V; return`.
pub open spec fn init_listing() -> Seq<InsnView> {
    seq![
        InsnView::Aload(0),
        InsnView::Invoke(
            CallKind::Special,
            MethodView {
                owner: "java/lang/Object"@,
                name: "<init>"@,
                args: Seq::empty(),
                ret: None,
            },
        ),
        InsnView::ReturnVoid,
    ]
}

/// Body of the default constructor: `super()` then `return`.
pub fn init_code() -> (b: CodeBody)
    ensures
        b.is_stack_safe(),
        b.max_stack == 1,
        branch_free(b.insns@),
        listing(b.insns@) == init_listing(),
{
    let mut c = Code::new(1);
    c.aload(0);
    c.invokespecial("java/lang/Object", "<init>", void_desc());
    c.return_void();
    let b = c.finish();
    assert(listing(b.insns@) =~= init_listing());
    b
}

/// `osName = System.getProperty("os.name").toLowerCase()` into local 1 and
/// `os.arch`, with `amd64` read as `x86_64` and `arm64` as `aarch64`, into
/// local 2: the first 22 instructions of `resourcePath(String libBasename)`.
/// The comparisons are `"amd64".equals(arch)`, so an unset `os.arch` (null)
/// stays null.
#[verifier::rlimit(20)]
fn emit_arch_choice(c: &mut Code)
    requires
        old(c).wf(),
        old(c).max() == 3,
        old(c).insns().len() == 0,
        old(c).depth() == 0,
        old(c).reachable(),
        old(c).num_labels() == 0,
    ensures
        final(c).wf(),
        final(c).max() == 3,
        final(c).depth() == 0,
        final(c).reachable(),
        final(c).num_labels() == 2,
        forall|l: int| 0 <= l < 2 ==> (#[trigger] final(c).target(l)) is Some && final(c).is_placed(l),
        listing(final(c).insns()) == resource_path_listing().take(22),
{
    let l_not_amd64 = c.label();
    let l_arch_done = c.label();
    let get_property = "getProperty";

    // osName = System.getProperty("os.name").toLowerCase();
    c.ldc_string("os.name");
    c.invokestatic("java/lang/System", get_property, MethodDesc::new1(string_t(), Some(string_t())));
    c.invokevirtual("java/lang/String", "toLowerCase", MethodDesc::new0(Some(string_t())));
    c.astore(1);

    // arch = System.getProperty("os.arch");
    c.ldc_string("os.arch");
    c.invokestatic("java/lang/System", get_property, MethodDesc::new1(string_t(), Some(string_t())));
    c.astore(2);

    // if ("amd64".equals(arch)) { arch = "x86_64"; goto done; }
    c.ldc_string("amd64");
    c.aload(2);
    c.invokevirtual(
        "java/lang/String",
        "equals",
        MethodDesc::new1(JavaType::Object("java/lang/Object"), Some(JavaType::Boolean)),
    );
    c.ifeq(l_not_amd64);
    c.ldc_string("x86_64");
    c.astore(2);
    c.goto(l_arch_done);

    // else if ("arm64".equals(arch)) { arch = "aarch64"; }
    c.place(l_not_amd64);
    c.ldc_string("arm64");
    c.aload(2);
    c.invokevirtual(
        "java/lang/String",
        "equals",
        MethodDesc::new1(JavaType::Object("java/lang/Object"), Some(JavaType::Boolean)),
    );
    c.ifeq(l_arch_done);
    c.ldc_string("aarch64");
    c.astore(2);
    c.place(l_arch_done);
    assert(listing(c.insns()) =~= resource_path_listing().take(22));
}

/// `os` into local 3: `windows`, `macos` or `linux` by the prefix of the
/// lower-cased `os.name`; instructions 22 to 40 of `resourcePath(String)`.
#[verifier::rlimit(20)]
fn emit_os_choice(c: &mut Code)
    requires
        old(c).wf(),
        old(c).max() == 3,
        old(c).depth() == 0,
        old(c).reachable(),
        old(c).num_labels() == 2,
        forall|l: int| 0 <= l < 2 ==> (#[trigger] old(c).target(l)) is Some && old(c).is_placed(l),
        listing(old(c).insns()) == resource_path_listing().take(22),
    ensures
        final(c).wf(),
        final(c).max() == 3,
        final(c).depth() == 0,
        final(c).reachable(),
        final(c).num_labels() == 5,
        forall|l: int| 0 <= l < 5 ==> (#[trigger] final(c).target(l)) is Some && final(c).is_placed(l),
        listing(final(c).insns()) == resource_path_listing().take(41),
{
    let l_not_win = c.label();
    let l_not_mac = c.label();
    let l_compose = c.label();
    let ghost start = listing(c.insns());

    // if (osName.startsWith("windows")) { os = "windows"; goto compose; }
    c.aload(1);
    c.ldc_string("windows");
    c.invokevirtual(
        "java/lang/String",
        "startsWith",
        MethodDesc::new1(string_t(), Some(JavaType::Boolean)),
    );
    c.ifeq(l_not_win);
    c.ldc_string("windows");
    c.astore(3);
    c.goto(l_compose);

    // else if (osName.startsWith("mac")) { os = "macos"; goto compose; }
    c.place(l_not_win);
    c.aload(1);
    c.ldc_string("mac");
    c.invokevirtual(
        "java/lang/String",
        "startsWith",
        MethodDesc::new1(string_t(), Some(JavaType::Boolean)),
    );
    c.ifeq(l_not_mac);
    c.ldc_string("macos");
    c.astore(3);
    c.goto(l_compose);

    // else { os = "linux"; }
    c.place(l_not_mac);
    c.ldc_string("linux");
    c.astore(3);
    c.place(l_compose);
    assert(listing(c.insns()) =~= start + resource_path_listing().subrange(22, 41));
    assert(resource_path_listing().take(41) =~= start + resource_path_listing().subrange(22, 41));
}

/// `return "/native/" + os + "-" + arch + "/" + System.mapLibraryName(libBasename)`:
/// the last 20 instructions of `resourcePath()`.
#[verifier::rlimit(20)]
fn emit_path_join(c: &mut Code)
    requires
        old(c).wf(),
        old(c).max() == 3,
        old(c).depth() == 0,
        old(c).reachable(),
        old(c).num_labels() == 5,
        forall|l: int| 0 <= l < 5 ==> (#[trigger] old(c).target(l)) is Some && old(c).is_placed(l),
        listing(old(c).insns()) == resource_path_listing().take(41),
    ensures
        final(c).wf(),
        !final(c).reachable(),
        final(c).max() == 3,
        final(c).num_labels() == 5,
        forall|l: int| 0 <= l < 5 ==> (#[trigger] final(c).target(l)) is Some && final(c).is_placed(l),
        listing(final(c).insns()) == resource_path_listing(),
{
    let ghost start = listing(c.insns());

    // libName = System.mapLibraryName(libBasename);
    c.aload(0);
    c.invokestatic(
        "java/lang/System",
        "mapLibraryName",
        MethodDesc::new1(string_t(), Some(string_t())),
    );
    c.astore(4);

    // return "/native/" + os + "-" + arch + "/" + libName;
    c.new_class("java/lang/StringBuilder");
    c.dup();
    c.invokespecial("java/lang/StringBuilder", "<init>", void_desc());
    c.ldc_string("/native/");
    append_string(c);
    c.aload(3);
    append_string(c);
    c.ldc_string("-");
    append_string(c);
    c.aload(2);
    append_string(c);
    c.ldc_string("/");
    append_string(c);
    c.aload(4);
    append_string(c);
    c.invokevirtual("java/lang/StringBuilder", "toString", MethodDesc::new0(Some(string_t())));
    c.areturn();
    assert(listing(c.insns()) =~= start + resource_path_listing().subrange(41, 61));
    assert(resource_path_listing() =~= start + resource_path_listing().subrange(41, 61));
}

/// Body of `NativeLoader.resourcePath(String libBasename)`: the in-jar path
/// of the native library `libBasename` for the running JVM,
/// `"/native/" + os + "-" + arch + "/" + System.mapLibraryName(libBasename)`,
/// where `os` is `windows`, `macos` or `linux` by the prefix of the lower-cased
/// `os.name`, and `arch` is `os.arch` with `amd64` read as `x86_64` and
/// `arm64` as `aarch64` (an unset `os.arch` gives `null` there). The `ensures`
/// states this of the code run on any JVM that answers its calls with strings,
/// `os.arch` with a string or null.
pub fn resource_path_code() -> (b: CodeBody)
    ensures
        b.is_stack_safe(),
        b.max_stack == 3,
        listing(b.insns@) == resource_path_listing(),
        computes_resource_path(listing(b.insns@)),
{
    let mut c = Code::new(3);
    emit_arch_choice(&mut c);
    emit_os_choice(&mut c);
    emit_path_join(&mut c);
    let b = c.finish();
    proof {
        lemma_resource_path_runs(listing(b.insns@));
    }
    b
}

/// `if (loaded_<lib>) return; String path = resourcePath(lib);`, then
/// `File tmp = File.createTempFile(lib + "_", "_" + System.mapLibraryName(lib))`:
/// the first 19 instructions of `ensure_<lib>()`; `flag` is `loaded_<lib>`
/// and `prefix` is `lib + "_"`.
#[verifier::rlimit(20)]
fn emit_temp_file(c: &mut Code, lib: &str, flag: &str, prefix: &str)
    requires
        flag@ == "loaded_"@ + lib@,
        prefix@ == lib@ + "_"@,
        old(c).wf(),
        old(c).max() == 8,
        old(c).insns().len() == 0,
        old(c).depth() == 0,
        old(c).reachable(),
        old(c).num_labels() == 0,
    ensures
        final(c).wf(),
        final(c).max() == 8,
        final(c).depth() == 0,
        final(c).reachable(),
        final(c).num_labels() == 1,
        final(c).target(0) is Some && final(c).is_placed(0),
        listing(final(c).insns()) == ensure_loaded_listing(lib@).take(19),
{
    let l_not_loaded = c.label();

    // if (loaded) return;
    c.getstatic(NATIVE_LOADER_INTERNAL, flag, JavaType::Boolean);
    c.ifeq(l_not_loaded);
    c.return_void();
    c.place(l_not_loaded);

    // String path = resourcePath(lib);
    c.ldc_string(lib);
    c.invokestatic(NATIVE_LOADER_INTERNAL, "resourcePath", MethodDesc::new1(string_t(), Some(string_t())));
    c.astore(0);

    // File tmp = File.createTempFile(lib + "_", "_" + System.mapLibraryName(lib));
    c.ldc_string(prefix);
    c.new_class("java/lang/StringBuilder");
    c.dup();
    c.invokespecial("java/lang/StringBuilder", "<init>", void_desc());
    c.ldc_string("_");
    append_string(c);
    c.ldc_string(lib);
    c.invokestatic(
        "java/lang/System",
        "mapLibraryName",
        MethodDesc::new1(string_t(), Some(string_t())),
    );
    append_string(c);
    c.invokevirtual("java/lang/StringBuilder", "toString", MethodDesc::new0(Some(string_t())));
    c.invokestatic(
        "java/io/File",
        "createTempFile",
        MethodDesc::new2(string_t(), string_t(), Some(JavaType::Object("java/io/File"))),
    );
    c.astore(1);
    assert(listing(c.insns()) =~= ensure_loaded_listing(lib@).take(19));
}

/// `tmp.deleteOnExit(); InputStream is = NativeLoader.class.getResourceAsStream(path);`
/// and `if (is == null) throw new IOException("native lib not found: " + path);`:
/// instructions 19 to 39 of `ensure_<lib>()`.
#[verifier::rlimit(20)]
fn emit_stream_lookup(c: &mut Code, Ghost(lib): Ghost<Seq<char>>)
    requires
        old(c).wf(),
        old(c).max() == 8,
        old(c).depth() == 0,
        old(c).reachable(),
        old(c).num_labels() == 1,
        old(c).target(0) is Some && old(c).is_placed(0),
        listing(old(c).insns()) == ensure_loaded_listing(lib).take(19),
    ensures
        final(c).wf(),
        final(c).max() == 8,
        final(c).depth() == 0,
        final(c).reachable(),
        final(c).num_labels() == 2,
        forall|l: int| 0 <= l < 2 ==> (#[trigger] final(c).target(l)) is Some && final(c).is_placed(l),
        listing(final(c).insns()) == ensure_loaded_listing(lib).take(40),
{
    let l_is_ok = c.label();
    let ghost start = listing(c.insns());

    // tmp.deleteOnExit();
    c.aload(1);
    c.invokevirtual("java/io/File", "deleteOnExit", void_desc());

    // InputStream is = NativeLoader.class.getResourceAsStream(path);
    c.ldc_class(NATIVE_LOADER_INTERNAL);
    c.aload(0);
    c.invokevirtual(
        "java/lang/Class",
        "getResourceAsStream",
        MethodDesc::new1(string_t(), Some(JavaType::Object("java/io/InputStream"))),
    );
    c.astore(2);

    // if (is == null) throw new IOException("native lib not found: " + path);
    c.aload(2);
    c.ifnonnull(l_is_ok);
    c.new_class("java/io/IOException");
    c.dup();
    c.new_class("java/lang/StringBuilder");
    c.dup();
    c.invokespecial("java/lang/StringBuilder", "<init>", void_desc());
    c.ldc_string("native lib not found: ");
    append_string(c);
    c.aload(0);
    append_string(c);
    c.invokevirtual("java/lang/StringBuilder", "toString", MethodDesc::new0(Some(string_t())));
    c.invokespecial("java/io/IOException", "<init>", MethodDesc::new1(string_t(), None));
    c.athrow();
    c.place(l_is_ok);
    assert(listing(c.insns()) =~= start + ensure_loaded_listing(lib).subrange(19, 40));
    assert(ensure_loaded_listing(lib).take(40) =~= start + ensure_loaded_listing(lib).subrange(19, 40));
}

/// `Files.copy(is, tmp.toPath(), new CopyOption[]{ StandardCopyOption.REPLACE_EXISTING });`,
/// `is.close(); System.load(tmp.getAbsolutePath()); loaded_<lib> = true;`: the
/// last 19 instructions of `ensure_<lib>()`.
#[verifier::rlimit(20)]
fn emit_copy_and_load(c: &mut Code, lib: &str, flag: &str)
    requires
        flag@ == "loaded_"@ + lib@,
        old(c).wf(),
        old(c).max() == 8,
        old(c).depth() == 0,
        old(c).reachable(),
        old(c).num_labels() == 2,
        forall|l: int| 0 <= l < 2 ==> (#[trigger] old(c).target(l)) is Some && old(c).is_placed(l),
        listing(old(c).insns()) == ensure_loaded_listing(lib@).take(40),
    ensures
        final(c).wf(),
        !final(c).reachable(),
        final(c).max() == 8,
        final(c).num_labels() == 2,
        forall|l: int| 0 <= l < 2 ==> (#[trigger] final(c).target(l)) is Some && final(c).is_placed(l),
        listing(final(c).insns()) == ensure_loaded_listing(lib@),
{
    let ghost start = listing(c.insns());

    // Files.copy(is, tmp.toPath(), new CopyOption[]{ StandardCopyOption.REPLACE_EXISTING });
    c.aload(2);
    c.aload(1);
    c.invokevirtual(
        "java/io/File",
        "toPath",
        MethodDesc::new0(Some(JavaType::Object("java/nio/file/Path"))),
    );
    c.iconst_1();
    c.anewarray("java/nio/file/CopyOption");
    c.dup();
    c.iconst_0();
    c.getstatic(
        "java/nio/file/StandardCopyOption",
        "REPLACE_EXISTING",
        JavaType::Object("java/nio/file/StandardCopyOption"),
    );
    c.aastore();
    c.invokestatic(
        "java/nio/file/Files",
        "copy",
        MethodDesc::new3(
            JavaType::Object("java/io/InputStream"),
            JavaType::Object("java/nio/file/Path"),
            JavaType::Array("Ljava/nio/file/CopyOption;"),
            Some(JavaType::Long),
        ),
    );
    c.pop2();

    // is.close();
    c.aload(2);
    c.invokevirtual("java/io/InputStream", "close", void_desc());

    // System.load(tmp.getAbsolutePath());
    c.aload(1);
    c.invokevirtual("java/io/File", "getAbsolutePath", MethodDesc::new0(Some(string_t())));
    c.invokestatic("java/lang/System", "load", MethodDesc::new1(string_t(), None));

    // loaded = true;
    c.iconst_1();
    c.putstatic(NATIVE_LOADER_INTERNAL, flag, JavaType::Boolean);
    c.return_void();
    assert(listing(c.insns()) =~= start + ensure_loaded_listing(lib@).subrange(40, 59));
    assert(ensure_loaded_listing(lib@) =~= start + ensure_loaded_listing(lib@).subrange(40, 59));
}

/// Body of `NativeLoader.ensure_<lib>()`:
/// ```java
/// if (loaded_<lib>) return;
/// String path = resourcePath("<lib>");
/// File tmp = File.createTempFile("<lib>_", "_" + System.mapLibraryName("<lib>"));
/// tmp.deleteOnExit();
/// InputStream is = NativeLoader.class.getResourceAsStream(path);
/// if (is == null) throw new IOException("native lib not found: " + path);
/// Files.copy(is, tmp.toPath(), new CopyOption[]{ StandardCopyOption.REPLACE_EXISTING });
/// is.close();
/// System.load(tmp.getAbsolutePath());
/// loaded_<lib> = true;
/// ```
/// The `ensures` states this of the code run on any JVM whose answers are
/// as [`answers_loader`] says, that it returns at once whenever the flag is
/// set, and, on every JVM, that a throw (of a call such as `createTempFile`,
/// `Files.copy` or `System.load`, or the code's own) leaves the flag unwritten.
pub fn ensure_loaded_code(lib: &str) -> (b: CodeBody)
    ensures
        b.is_stack_safe(),
        b.max_stack == 8,
        listing(b.insns@) == ensure_loaded_listing(lib@),
        performs_ensure_loaded(listing(b.insns@), lib@),
{
    let mut flag = "loaded_".to_owned();
    flag.append(lib);
    let mut prefix = lib.to_owned();
    prefix.append("_");
    let mut c = Code::new(8);
    emit_temp_file(&mut c, lib, flag.as_str(), prefix.as_str());
    emit_stream_lookup(&mut c, Ghost(lib@));
    emit_copy_and_load(&mut c, lib, flag.as_str());
    let b = c.finish();
    proof {
        lemma_ensure_loaded_runs(listing(b.insns@), lib@);
    }
    b
}

/// `System.out.println` of the `String` a native payload returns, after
/// calling the loader method `ensure_method` of the native-loader class;
/// the native method's result is kept in local 2.
fn print_native_result(ensure_method: &str, native_fn: &str) -> (b: CodeBody)
    ensures
        b.is_stack_safe(),
        b.max_stack == 2,
        branch_free(b.insns@),
        prints_native_result(b.insns@, ensure_method@, native_fn@),
{
    let mut c = Code::new(2);
    c.invokestatic(NATIVE_LOADER_INTERNAL, ensure_method, void_desc());
    c.invokestatic(NATIVE_PAYLOADS_OWNER, native_fn, MethodDesc::new0(Some(string_t())));
    c.astore(2);
    c.getstatic("java/lang/System", "out", JavaType::Object("java/io/PrintStream"));
    c.aload(2);
    c.invokevirtual("java/io/PrintStream", "println", MethodDesc::new1(string_t(), None));
    c.return_void();
    let b = c.finish();
    assert(listing(b.insns@) =~= print_listing(ensure_method@, native_fn@));
    b
}

/// The seven instructions of a handler that prints a native payload's result:
/// `invokestatic NativeLoader.<ensure_method>()V`,
/// `invokestatic NativePayloads.<native_fn>()Ljava/lang/String;`, `astore 2`,
/// `getstatic System.out`, `aload 2`, `invokevirtual PrintStream.println(String)V`,
/// `return`.
pub open spec fn prints_native_result(
    code: Seq<Insn>,
    ensure_method: Seq<char>,
    native_fn: Seq<char>,
) -> bool {
    listing(code) == print_listing(ensure_method, native_fn)
}

/// Those seven instructions as values.
pub open spec fn print_listing(ensure_method: Seq<char>, native_fn: Seq<char>) -> Seq<InsnView> {
    let string = JavaType::Object("java/lang/String");
    seq![
        InsnView::Invoke(
            CallKind::Static,
            MethodView {
                owner: NATIVE_LOADER_INTERNAL@,
                name: ensure_method,
                args: Seq::empty(),
                ret: None,
            },
        ),
        InsnView::Invoke(
            CallKind::Static,
            MethodView {
                owner: NATIVE_PAYLOADS_OWNER@,
                name: native_fn,
                args: Seq::empty(),
                ret: Some(string),
            },
        ),
        InsnView::Astore(2),
        InsnView::GetStatic(
            FieldView {
                owner: "java/lang/System"@,
                name: "out"@,
                ty: JavaType::Object("java/io/PrintStream"),
            },
        ),
        InsnView::Aload(2),
        InsnView::Invoke(
            CallKind::Virtual,
            MethodView {
                owner: "java/io/PrintStream"@,
                name: "println"@,
                args: seq![string],
                ret: None,
            },
        ),
        InsnView::ReturnVoid,
    ]
}

/// Body of the handler of an `#[inject]` record: make sure the payload
/// library `native_payloads` is loaded (`NativeLoader.ensure_native_payloads()`),
/// call the native payload `fn_name` and print the `String` it returns.
/// Branch-free, so it needs no `StackMapTable` at class-file version 52.
pub fn on_run_code(fn_name: &str) -> (b: CodeBody)
    ensures
        b.is_stack_safe(),
        b.max_stack == 2,
        branch_free(b.insns@),
        prints_native_result(b.insns@, "ensure_"@ + NATIVE_LIB_BASENAME@, fn_name@),
{
    print_via_native_code(NATIVE_LIB_BASENAME, fn_name)
}

/// Body of a handler that prints what native method `native_fn` returns,
/// after `NativeLoader.ensure_<native_lib_name>()`.
pub fn print_via_native_code(native_lib_name: &str, native_fn: &str) -> (b: CodeBody)
    ensures
        b.is_stack_safe(),
        b.max_stack == 2,
        branch_free(b.insns@),
        prints_native_result(b.insns@, "ensure_"@ + native_lib_name@, native_fn@),
{
    let mut ensure = "ensure_".to_owned();
    ensure.append(native_lib_name);
    print_native_result(ensure.as_str(), native_fn)
}

} // verus!
