//! What the generated `NativeLoader.ensure_<lib>()` does, proved on its
//! instruction listing with the semantics of [`crate::jvm`].

use vstd::prelude::*;
use crate::bytecode::{CallKind, FieldView, InsnView, MethodView};
use crate::descriptor::JavaType;
use crate::jvm::{
    Call, HeapObj, JState, JValue, Jvm, Outcome, Stack, entry, has_label, is_builder_append,
    is_builder_init, is_builder_to_string, is_string_equals, is_string_starts_with, label_index,
    lemma_slots_small, lemma_step_frame, pop_n, push, returns_normally, run, run_method, step,
    string_type,
};
use crate::loader_run::{
    at, builder_append, builder_init, builder_to_string, map_library_name, method, one, three, two,
};
use crate::names::NATIVE_LOADER_INTERNAL;

verus! {

/// A stack of four values, the last on top.
pub open spec fn four(a: JValue, b: JValue, c: JValue, d: JValue) -> Stack {
    push(three(a, b, c), d)
}

/// A stack of five values, the last on top.
pub open spec fn five(a: JValue, b: JValue, c: JValue, d: JValue, e: JValue) -> Stack {
    push(four(a, b, c, d), e)
}

/// A stack of six values, the last on top.
pub open spec fn six(a: JValue, b: JValue, c: JValue, d: JValue, e: JValue, f: JValue) -> Stack {
    push(five(a, b, c, d, e), f)
}

/// `java.io.File`.
pub open spec fn file_type() -> JavaType {
    JavaType::Object("java/io/File")
}

/// The `boolean` static field `NativeLoader.loaded`.
pub open spec fn loaded_field(lib: Seq<char>) -> FieldView {
    FieldView { owner: NATIVE_LOADER_INTERNAL@, name: "loaded_"@ + lib, ty: JavaType::Boolean }
}

/// `StandardCopyOption.REPLACE_EXISTING`.
pub open spec fn replace_existing_field() -> FieldView {
    FieldView {
        owner: "java/nio/file/StandardCopyOption"@,
        name: "REPLACE_EXISTING"@,
        ty: JavaType::Object("java/nio/file/StandardCopyOption"),
    }
}

/// `NativeLoader.resourcePath(String)`.
pub open spec fn resource_path_method() -> MethodView {
    method(NATIVE_LOADER_INTERNAL@, "resourcePath"@, seq![string_type()], Some(string_type()))
}

/// `File.createTempFile(String, String)`.
pub open spec fn create_temp_file() -> MethodView {
    method("java/io/File"@, "createTempFile"@, seq![string_type(), string_type()], Some(file_type()))
}

/// `File.deleteOnExit()`.
pub open spec fn delete_on_exit() -> MethodView {
    method("java/io/File"@, "deleteOnExit"@, Seq::empty(), None)
}

/// `Class.getResourceAsStream(String)`.
pub open spec fn get_resource_as_stream() -> MethodView {
    method(
        "java/lang/Class"@,
        "getResourceAsStream"@,
        seq![string_type()],
        Some(JavaType::Object("java/io/InputStream")),
    )
}

/// `IOException(String)`.
pub open spec fn io_exception_init() -> MethodView {
    method("java/io/IOException"@, "<init>"@, seq![string_type()], None)
}

/// `File.toPath()`.
pub open spec fn to_path() -> MethodView {
    method("java/io/File"@, "toPath"@, Seq::empty(), Some(JavaType::Object("java/nio/file/Path")))
}

/// `Files.copy(InputStream, Path, CopyOption...)`.
pub open spec fn files_copy() -> MethodView {
    method(
        "java/nio/file/Files"@,
        "copy"@,
        seq![
            JavaType::Object("java/io/InputStream"),
            JavaType::Object("java/nio/file/Path"),
            JavaType::Array("Ljava/nio/file/CopyOption;"),
        ],
        Some(JavaType::Long),
    )
}

/// `InputStream.close()`.
pub open spec fn stream_close() -> MethodView {
    method("java/io/InputStream"@, "close"@, Seq::empty(), None)
}

/// `File.getAbsolutePath()`.
pub open spec fn get_absolute_path() -> MethodView {
    method("java/io/File"@, "getAbsolutePath"@, Seq::empty(), Some(string_type()))
}

/// `System.load(String)`.
pub open spec fn system_load() -> MethodView {
    method("java/lang/System"@, "load"@, seq![string_type()], None)
}

/// The instructions of `ensure_<lib>()`, by position.
pub open spec fn ensure_loaded_insn(k: int, lib: Seq<char>) -> InsnView {
    if k == 0 { InsnView::GetStatic(loaded_field(lib)) }
    else if k == 1 { InsnView::Ifeq(0) }
    else if k == 2 { InsnView::ReturnVoid }
    else if k == 3 { InsnView::Place(0) }
    else if k == 4 { InsnView::LdcString(lib) }
    else if k == 5 { InsnView::Invoke(CallKind::Static, resource_path_method()) }
    else if k == 6 { InsnView::Astore(0) }
    else if k == 7 { InsnView::LdcString(lib + "_"@) }
    else if k == 8 { InsnView::New("java/lang/StringBuilder"@) }
    else if k == 9 { InsnView::Dup }
    else if k == 10 { InsnView::Invoke(CallKind::Special, builder_init()) }
    else if k == 11 { InsnView::LdcString("_"@) }
    else if k == 12 { InsnView::Invoke(CallKind::Virtual, builder_append()) }
    else if k == 13 { InsnView::LdcString(lib) }
    else if k == 14 { InsnView::Invoke(CallKind::Static, map_library_name()) }
    else if k == 15 { InsnView::Invoke(CallKind::Virtual, builder_append()) }
    else if k == 16 { InsnView::Invoke(CallKind::Virtual, builder_to_string()) }
    else if k == 17 { InsnView::Invoke(CallKind::Static, create_temp_file()) }
    else if k == 18 { InsnView::Astore(1) }
    else if k == 19 { InsnView::Aload(1) }
    else if k == 20 { InsnView::Invoke(CallKind::Virtual, delete_on_exit()) }
    else if k == 21 { InsnView::LdcClass(NATIVE_LOADER_INTERNAL@) }
    else if k == 22 { InsnView::Aload(0) }
    else if k == 23 { InsnView::Invoke(CallKind::Virtual, get_resource_as_stream()) }
    else if k == 24 { InsnView::Astore(2) }
    else if k == 25 { InsnView::Aload(2) }
    else if k == 26 { InsnView::Ifnonnull(1) }
    else if k == 27 { InsnView::New("java/io/IOException"@) }
    else if k == 28 { InsnView::Dup }
    else if k == 29 { InsnView::New("java/lang/StringBuilder"@) }
    else if k == 30 { InsnView::Dup }
    else if k == 31 { InsnView::Invoke(CallKind::Special, builder_init()) }
    else if k == 32 { InsnView::LdcString("native lib not found: "@) }
    else if k == 33 { InsnView::Invoke(CallKind::Virtual, builder_append()) }
    else if k == 34 { InsnView::Aload(0) }
    else if k == 35 { InsnView::Invoke(CallKind::Virtual, builder_append()) }
    else if k == 36 { InsnView::Invoke(CallKind::Virtual, builder_to_string()) }
    else if k == 37 { InsnView::Invoke(CallKind::Special, io_exception_init()) }
    else if k == 38 { InsnView::Athrow }
    else if k == 39 { InsnView::Place(1) }
    else if k == 40 { InsnView::Aload(2) }
    else if k == 41 { InsnView::Aload(1) }
    else if k == 42 { InsnView::Invoke(CallKind::Virtual, to_path()) }
    else if k == 43 { InsnView::Iconst1 }
    else if k == 44 { InsnView::Anewarray("java/nio/file/CopyOption"@) }
    else if k == 45 { InsnView::Dup }
    else if k == 46 { InsnView::Iconst0 }
    else if k == 47 { InsnView::GetStatic(replace_existing_field()) }
    else if k == 48 { InsnView::Aastore }
    else if k == 49 { InsnView::Invoke(CallKind::Static, files_copy()) }
    else if k == 50 { InsnView::Pop2 }
    else if k == 51 { InsnView::Aload(2) }
    else if k == 52 { InsnView::Invoke(CallKind::Virtual, stream_close()) }
    else if k == 53 { InsnView::Aload(1) }
    else if k == 54 { InsnView::Invoke(CallKind::Virtual, get_absolute_path()) }
    else if k == 55 { InsnView::Invoke(CallKind::Static, system_load()) }
    else if k == 56 { InsnView::Iconst1 }
    else if k == 57 { InsnView::PutStatic(loaded_field(lib)) }
    else { InsnView::ReturnVoid }
}

/// The 59 instructions of `ensure_<lib>()`.
pub open spec fn ensure_loaded_listing(lib: Seq<char>) -> Seq<InsnView> {
    Seq::new(59, |k: int| ensure_loaded_insn(k, lib))
}

/// `NativeLoader.loaded` before the call.
pub open spec fn loaded_flag(jvm: Jvm, lib: Seq<char>) -> JValue {
    (jvm.static_value)(NATIVE_LOADER_INTERNAL@, "loaded_"@ + lib)
}

/// `NativeLoader.resourcePath(String)`.
pub open spec fn path_call(lib: Seq<char>) -> Call {
    Call { kind: CallKind::Static, method: resource_path_method(), args: seq![JValue::Str(lib)] }
}

/// What `resourcePath()` returned.
pub open spec fn path_of(jvm: Jvm, lib: Seq<char>) -> JValue {
    (jvm.result)(Seq::empty(), path_call(lib))
}

/// `System.mapLibraryName(lib)`.
pub open spec fn lib_call(lib: Seq<char>) -> Call {
    Call {
        kind: CallKind::Static,
        method: map_library_name(),
        args: seq![JValue::Str(lib)],
    }
}

/// What `System.mapLibraryName(lib)` returned.
pub open spec fn lib_of(jvm: Jvm, lib: Seq<char>) -> JValue {
    (jvm.result)(seq![path_call(lib)], lib_call(lib))
}

/// `File.createTempFile(lib + "_", "_" + libName)`.
pub open spec fn temp_call(jvm: Jvm, lib: Seq<char>) -> Call {
    Call {
        kind: CallKind::Static,
        method: create_temp_file(),
        args: seq![JValue::Str(lib + "_"@), JValue::Str("_"@ + lib_of(jvm, lib)->Str_0)],
    }
}

/// The temporary file `File.createTempFile` made.
pub open spec fn temp_of(jvm: Jvm, lib: Seq<char>) -> JValue {
    (jvm.result)(seq![path_call(lib), lib_call(lib)], temp_call(jvm, lib))
}

/// `tmp.deleteOnExit()`.
pub open spec fn delete_call(jvm: Jvm, lib: Seq<char>) -> Call {
    Call { kind: CallKind::Virtual, method: delete_on_exit(), args: seq![temp_of(jvm, lib)] }
}

/// `NativeLoader.class.getResourceAsStream(path)`.
pub open spec fn stream_call(jvm: Jvm, lib: Seq<char>) -> Call {
    Call {
        kind: CallKind::Virtual,
        method: get_resource_as_stream(),
        args: seq![JValue::Class(NATIVE_LOADER_INTERNAL@), path_of(jvm, lib)],
    }
}

/// The calls up to the look-up of the library in the jar.
pub open spec fn opening_calls(jvm: Jvm, lib: Seq<char>) -> Seq<Call> {
    seq![path_call(lib), lib_call(lib), temp_call(jvm, lib), delete_call(jvm, lib), stream_call(jvm, lib)]
}

/// The stream `getResourceAsStream` returned.
pub open spec fn stream_of(jvm: Jvm, lib: Seq<char>) -> JValue {
    (jvm.result)(opening_calls(jvm, lib).drop_last(), stream_call(jvm, lib))
}

/// `"native lib not found: " + path`.
pub open spec fn not_found_message(jvm: Jvm, lib: Seq<char>) -> Seq<char> {
    "native lib not found: "@ + path_of(jvm, lib)->Str_0
}

/// The constructor `IOException(message)` run on object 1.
pub open spec fn exception_call(jvm: Jvm, lib: Seq<char>) -> Call {
    Call {
        kind: CallKind::Special,
        method: io_exception_init(),
        args: seq![JValue::Ref(1), JValue::Str(not_found_message(jvm, lib))],
    }
}

/// `tmp.toPath()`.
pub open spec fn to_path_call(jvm: Jvm, lib: Seq<char>) -> Call {
    Call { kind: CallKind::Virtual, method: to_path(), args: seq![temp_of(jvm, lib)] }
}

/// `tmp.toPath()`.
pub open spec fn nio_path_of(jvm: Jvm, lib: Seq<char>) -> JValue {
    (jvm.result)(opening_calls(jvm, lib), to_path_call(jvm, lib))
}

/// `Files.copy(is, tmp.toPath(), options)`, the options being array 1.
pub open spec fn copy_call(jvm: Jvm, lib: Seq<char>) -> Call {
    Call {
        kind: CallKind::Static,
        method: files_copy(),
        args: seq![stream_of(jvm, lib), nio_path_of(jvm, lib), JValue::Ref(1)],
    }
}

/// `is.close()`.
pub open spec fn close_call(jvm: Jvm, lib: Seq<char>) -> Call {
    Call { kind: CallKind::Virtual, method: stream_close(), args: seq![stream_of(jvm, lib)] }
}

/// `tmp.getAbsolutePath()`.
pub open spec fn absolute_call(jvm: Jvm, lib: Seq<char>) -> Call {
    Call { kind: CallKind::Virtual, method: get_absolute_path(), args: seq![temp_of(jvm, lib)] }
}

/// `tmp.getAbsolutePath()`.
pub open spec fn absolute_of(jvm: Jvm, lib: Seq<char>) -> JValue {
    (jvm.result)(
        opening_calls(jvm, lib) + seq![to_path_call(jvm, lib), copy_call(jvm, lib), close_call(jvm, lib)],
        absolute_call(jvm, lib),
    )
}

/// `System.load(absolutePath)`.
pub open spec fn load_call(jvm: Jvm, lib: Seq<char>) -> Call {
    Call { kind: CallKind::Static, method: system_load(), args: seq![absolute_of(jvm, lib)] }
}

/// Every call of a load that finds the library.
pub open spec fn loading_calls(jvm: Jvm, lib: Seq<char>) -> Seq<Call> {
    opening_calls(jvm, lib) + seq![
        to_path_call(jvm, lib),
        copy_call(jvm, lib),
        close_call(jvm, lib),
        absolute_call(jvm, lib),
        load_call(jvm, lib),
    ]
}

/// None of the calls of a load that finds the library throws.
pub open spec fn loader_calls_return(jvm: Jvm, lib: Seq<char>) -> bool {
    let k5 = opening_calls(jvm, lib);
    let k6 = k5.push(to_path_call(jvm, lib));
    let k7 = k6.push(copy_call(jvm, lib));
    let k8 = k7.push(close_call(jvm, lib));
    &&& returns_normally(jvm, Seq::empty(), path_call(lib))
    &&& returns_normally(jvm, seq![path_call(lib)], lib_call(lib))
    &&& returns_normally(jvm, seq![path_call(lib), lib_call(lib)], temp_call(jvm, lib))
    &&& returns_normally(
        jvm,
        seq![path_call(lib), lib_call(lib), temp_call(jvm, lib)],
        delete_call(jvm, lib),
    )
    &&& returns_normally(jvm, k5.drop_last(), stream_call(jvm, lib))
    &&& returns_normally(jvm, k5, to_path_call(jvm, lib))
    &&& returns_normally(jvm, k6, copy_call(jvm, lib))
    &&& returns_normally(jvm, k7, close_call(jvm, lib))
    &&& returns_normally(jvm, k8, absolute_call(jvm, lib))
    &&& returns_normally(jvm, k8.push(absolute_call(jvm, lib)), load_call(jvm, lib))
}

/// The JVM's answers that the method uses as strings are strings, the flag
/// is an `int`, the temporary file is not null, and no call throws.
pub open spec fn answers_loader(jvm: Jvm, lib: Seq<char>) -> bool {
    &&& loader_calls_return(jvm, lib)
    &&& loaded_flag(jvm, lib) is Int
    &&& path_of(jvm, lib) is Str
    &&& lib_of(jvm, lib) is Str
    &&& !(temp_of(jvm, lib) is Null)
}

/// What `ensure_<lib>()` does: nothing when the flag is set; otherwise it
/// copies the library found at `resourcePath()` to a temporary file deleted on
/// exit, loads it and sets the flag, or, when the jar has no such resource,
/// throws `IOException("native lib not found: " + path)`.
pub open spec fn ensure_loaded_outcome(jvm: Jvm, lib: Seq<char>, o: Outcome) -> bool {
    if loaded_flag(jvm, lib)->Int_0 != 0 {
        &&& o matches Outcome::Returned(None, st)
        &&& st.calls == Seq::<Call>::empty()
        &&& st.statics == Map::<(Seq<char>, Seq<char>), JValue>::empty()
    } else if stream_of(jvm, lib) is Null {
        &&& o matches Outcome::Threw(JValue::Ref(r), st)
        &&& r == 1 && r < st.heap.len()
        &&& st.heap[1] == HeapObj::Made(
            "java/io/IOException"@,
            seq![JValue::Str(not_found_message(jvm, lib))],
        )
        &&& st.calls == opening_calls(jvm, lib).push(exception_call(jvm, lib))
        &&& st.statics == Map::<(Seq<char>, Seq<char>), JValue>::empty()
    } else {
        &&& o matches Outcome::Returned(None, st)
        &&& st.calls == loading_calls(jvm, lib)
        &&& 1 < st.heap.len()
        &&& st.heap[1] == HeapObj::Array(
            "java/nio/file/CopyOption"@,
            seq![(jvm.static_value)("java/nio/file/StandardCopyOption"@, "REPLACE_EXISTING"@)],
        )
        &&& st.statics == Map::<(Seq<char>, Seq<char>), JValue>::empty().insert(
            (NATIVE_LOADER_INTERNAL@, "loaded_"@ + lib),
            JValue::Int(1),
        )
    }
}

/// Which of the methods `ensure_<lib>()` calls have a built-in meaning.
proof fn lemma_ensure_loaded_methods()
    ensures
        !is_string_equals(delete_on_exit()) && !is_string_starts_with(delete_on_exit())
            && !is_builder_append(delete_on_exit()) && !is_builder_to_string(delete_on_exit()),
        !is_string_equals(get_resource_as_stream()) && !is_string_starts_with(
            get_resource_as_stream(),
        ) && !is_builder_append(get_resource_as_stream()) && !is_builder_to_string(
            get_resource_as_stream(),
        ),
        !is_string_equals(to_path()) && !is_string_starts_with(to_path()) && !is_builder_append(
            to_path(),
        ) && !is_builder_to_string(to_path()),
        !is_string_equals(stream_close()) && !is_string_starts_with(stream_close())
            && !is_builder_append(stream_close()) && !is_builder_to_string(stream_close()),
        !is_string_equals(get_absolute_path()) && !is_string_starts_with(get_absolute_path())
            && !is_builder_append(get_absolute_path()) && !is_builder_to_string(
            get_absolute_path(),
        ),
        !is_string_equals(builder_append()) && !is_string_starts_with(builder_append())
            && is_builder_append(builder_append()),
        !is_string_equals(builder_to_string()) && !is_string_starts_with(builder_to_string())
            && !is_builder_append(builder_to_string()) && is_builder_to_string(
            builder_to_string(),
        ),
        is_builder_init(builder_init()),
        builder_init().name == "<init>"@,
        builder_init().owner == "java/lang/StringBuilder"@,
        io_exception_init().name == "<init>"@,
        !is_builder_init(io_exception_init()),
        delete_on_exit().name != "<init>"@,
        get_resource_as_stream().name != "<init>"@,
        to_path().name != "<init>"@,
        stream_close().name != "<init>"@,
        get_absolute_path().name != "<init>"@,
        builder_append().name != "<init>"@,
        builder_to_string().name != "<init>"@,
{
    reveal_strlit("java/lang/String");
    reveal_strlit("java/lang/StringBuilder");
    reveal_strlit("java/io/File");
    reveal_strlit("java/lang/Class");
    reveal_strlit("java/io/InputStream");
    reveal_strlit("java/io/IOException");
    reveal_strlit("java/nio/file/Path");
    reveal_strlit("deleteOnExit");
    reveal_strlit("getResourceAsStream");
    reveal_strlit("toPath");
    reveal_strlit("close");
    reveal_strlit("getAbsolutePath");
    reveal_strlit("append");
    reveal_strlit("toString");
    reveal_strlit("equals");
    reveal_strlit("startsWith");
    reveal_strlit("<init>");
    assert("java/lang/String"@.len() == 16);
    assert("java/lang/StringBuilder"@.len() == 23);
    assert("java/io/File"@.len() == 12);
    assert("java/lang/Class"@.len() == 15);
    assert("java/io/InputStream"@.len() == 19);
    assert("java/io/IOException"@.len() == 19);
    assert("java/nio/file/Path"@.len() == 18);
    assert("deleteOnExit"@.len() == 12);
    assert("getResourceAsStream"@.len() == 19);
    assert("toPath"@.len() == 6);
    assert("close"@.len() == 5);
    assert("getAbsolutePath"@.len() == 15);
    assert("append"@.len() == 6);
    assert("toString"@.len() == 8);
    assert("equals"@.len() == 6);
    assert("startsWith"@.len() == 10);
    assert("<init>"@.len() == 6);
    assert("append"@[0] != "<init>"@[0]);
}

proof fn lemma_ensure_loaded_labels(lib: Seq<char>)
    ensures
        has_label(ensure_loaded_listing(lib), 0) && label_index(ensure_loaded_listing(lib), 0) == 3,
        has_label(ensure_loaded_listing(lib), 1) && label_index(ensure_loaded_listing(lib), 1) == 39,
{
    let code = ensure_loaded_listing(lib);
    assert(code[3] == InsnView::Place(0));
    assert(code[39] == InsnView::Place(1));
}

/// The locals once the stream is looked up: the path, the temporary file and
/// the stream.
pub open spec fn opened_locals(jvm: Jvm, lib: Seq<char>) -> Map<int, JValue> {
    Map::empty().insert(0, path_of(jvm, lib)).insert(1, temp_of(jvm, lib)).insert(2, stream_of(jvm, lib))
}

/// The builder of the temporary file's suffix, the one object made so far.
pub open spec fn opened_heap(jvm: Jvm, lib: Seq<char>) -> Seq<HeapObj> {
    seq![HeapObj::Builder("_"@ + lib_of(jvm, lib)->Str_0)]
}

/// The state before `System.mapLibraryName(lib)`: the temp
/// file's prefix, the builder and the base name on the stack.
pub open spec fn naming_state(jvm: Jvm, lib: Seq<char>) -> JState {
    at(
        14,
        three(
            JValue::Str(lib + "_"@),
            JValue::Ref(0),
            JValue::Str(lib),
        ),
        Map::empty().insert(0, path_of(jvm, lib)),
        seq![HeapObj::Builder(Seq::<char>::empty() + "_"@)],
        seq![path_call(lib)],
    )
}

#[verifier::rlimit(30)]
#[verifier::spinoff_prover]
proof fn lemma_el_open_a(jvm: Jvm, lib: Seq<char>, fuel: nat)
    requires
        loaded_flag(jvm, lib) == JValue::Int(0),
        returns_normally(jvm, Seq::empty(), path_call(lib)),
        fuel >= 13,
    ensures
        run(jvm, ensure_loaded_listing(lib), entry(Map::empty()), fuel) == run(
            jvm,
            ensure_loaded_listing(lib),
            naming_state(jvm, lib),
            (fuel - 13) as nat,
        ),
{
    lemma_ensure_loaded_methods();
    lemma_ensure_loaded_labels(lib);
    lemma_slots_small(string_type(), string_type(), string_type());
    reveal_with_fuel(pop_n, 3);
    let code = ensure_loaded_listing(lib);
    let e = Stack::Empty;
    let h0 = Seq::<HeapObj>::empty();
    let p = path_of(jvm, lib);
    let m0 = Map::<int, JValue>::empty();
    let m1 = m0.insert(0, p);
    let k0 = Seq::<Call>::empty();
    let k1 = seq![path_call(lib)];
    let pre = JValue::Str(lib + "_"@);
    let r = JValue::Ref(0);
    let b0 = Seq::<char>::empty();
    let b1 = b0 + "_"@;
    let sb = seq![HeapObj::Uninit("java/lang/StringBuilder"@)];
    let s0 = entry(m0);
    let s1 = at(1, one(JValue::Int(0)), m0, h0, k0);
    let s3 = at(3, e, m0, h0, k0);
    let s4 = at(4, e, m0, h0, k0);
    let s5 = at(5, one(JValue::Str(lib)), m0, h0, k0);
    let s6 = at(6, one(p), m0, h0, k1);
    let s7 = at(7, e, m1, h0, k1);
    let s8 = at(8, one(pre), m1, h0, k1);
    let s9 = at(9, two(pre, r), m1, sb, k1);
    let s10 = at(10, three(pre, r, r), m1, sb, k1);
    let s11 = at(11, two(pre, r), m1, seq![HeapObj::Builder(b0)], k1);
    let s12 = at(12, three(pre, r, JValue::Str("_"@)), m1, seq![HeapObj::Builder(b0)], k1);
    let s13 = at(13, two(pre, r), m1, seq![HeapObj::Builder(b1)], k1);
    assert(step(jvm, code, s0) =~~= Outcome::Running(s1));
    assert(step(jvm, code, s1) =~~= Outcome::Running(s3));
    assert(step(jvm, code, s3) =~~= Outcome::Running(s4));
    assert(step(jvm, code, s4) =~~= Outcome::Running(s5));
    assert(crate::jvm::arg_slots(CallKind::Static, resource_path_method()) == 1);
    assert(pop_n(s5.stack, 1) == Some((path_call(lib).args, Stack::Empty)));
    assert(step(jvm, code, s5) =~~= Outcome::Running(s6));
    assert(step(jvm, code, s6) =~~= Outcome::Running(s7));
    assert(step(jvm, code, s7) =~~= Outcome::Running(s8));
    assert(step(jvm, code, s8) =~~= Outcome::Running(s9));
    assert(step(jvm, code, s9) =~~= Outcome::Running(s10));
    assert(step(jvm, code, s10) =~~= Outcome::Running(s11));
    assert(step(jvm, code, s11) =~~= Outcome::Running(s12));
    assert(step(jvm, code, s12) =~~= Outcome::Running(s13));
    assert(step(jvm, code, s13) =~~= Outcome::Running(naming_state(jvm, lib)));
    reveal_with_fuel(run, 14);
}

#[verifier::rlimit(30)]
#[verifier::spinoff_prover]
proof fn lemma_el_open_b(jvm: Jvm, lib: Seq<char>, fuel: nat)
    requires
        answers_loader(jvm, lib),
        fuel >= 11,
    ensures
        run(jvm, ensure_loaded_listing(lib), naming_state(jvm, lib), fuel) == run(
            jvm,
            ensure_loaded_listing(lib),
            at(25, Stack::Empty, opened_locals(jvm, lib), opened_heap(jvm, lib), opening_calls(jvm, lib)),
            (fuel - 11) as nat,
        ),
{
    lemma_ensure_loaded_methods();
    lemma_slots_small(string_type(), string_type(), string_type());
    reveal_with_fuel(pop_n, 3);
    let code = ensure_loaded_listing(lib);
    let e = Stack::Empty;
    let p = path_of(jvm, lib);
    let l = lib_of(jvm, lib);
    let t = temp_of(jvm, lib);
    let is = stream_of(jvm, lib);
    let m1 = Map::<int, JValue>::empty().insert(0, p);
    let m2 = m1.insert(1, t);
    let m3 = m2.insert(2, is);
    let k1 = seq![path_call(lib)];
    let k2 = seq![path_call(lib), lib_call(lib)];
    let k3 = seq![path_call(lib), lib_call(lib), temp_call(jvm, lib)];
    let k4 = seq![path_call(lib), lib_call(lib), temp_call(jvm, lib), delete_call(jvm, lib)];
    let k5 = opening_calls(jvm, lib);
    assert(k5.drop_last() =~= k4);
    let pre = JValue::Str(lib + "_"@);
    let r = JValue::Ref(0);
    let b1 = Seq::<char>::empty() + "_"@;
    let b2 = b1 + l->Str_0;
    assert(b2 =~= "_"@ + l->Str_0);
    let h = seq![HeapObj::Builder(b2)];
    let s14 = naming_state(jvm, lib);
    let s15 = at(15, three(pre, r, l), m1, seq![HeapObj::Builder(b1)], k2);
    let s16 = at(16, two(pre, r), m1, h, k2);
    let s17 = at(17, two(pre, JValue::Str(b2)), m1, h, k2);
    let s18 = at(18, one(t), m1, h, k3);
    let s19 = at(19, e, m2, h, k3);
    let s20 = at(20, one(t), m2, h, k3);
    let s21 = at(21, e, m2, h, k4);
    let s22 = at(22, one(JValue::Class(NATIVE_LOADER_INTERNAL@)), m2, h, k4);
    let s23 = at(23, two(JValue::Class(NATIVE_LOADER_INTERNAL@), p), m2, h, k4);
    let s24 = at(24, one(is), m2, h, k5);
    let s25 = at(25, e, m3, h, k5);
    assert(step(jvm, code, s14) =~~= Outcome::Running(s15));
    assert(step(jvm, code, s15) =~~= Outcome::Running(s16));
    assert(step(jvm, code, s16) =~~= Outcome::Running(s17));
    assert(crate::jvm::arg_slots(CallKind::Static, create_temp_file()) == 2);
    assert(pop_n(s17.stack, 2) == Some((temp_call(jvm, lib).args, Stack::Empty)));
    assert(step(jvm, code, s17) =~~= Outcome::Running(s18));
    assert(step(jvm, code, s18) =~~= Outcome::Running(s19));
    assert(step(jvm, code, s19) =~~= Outcome::Running(s20));
    assert(step(jvm, code, s20) =~~= Outcome::Running(s21));
    assert(step(jvm, code, s21) =~~= Outcome::Running(s22));
    assert(step(jvm, code, s22) =~~= Outcome::Running(s23));
    assert(crate::jvm::arg_slots(CallKind::Virtual, get_resource_as_stream()) == 2);
    assert(pop_n(s23.stack, 2) == Some((stream_call(jvm, lib).args, Stack::Empty)));
    assert(is == (jvm.result)(k4, stream_call(jvm, lib)));
    assert(step(jvm, code, s23) =~~= Outcome::Running(s24));
    assert(step(jvm, code, s24) =~~= Outcome::Running(s25));
    assert(s25 =~~= at(25, Stack::Empty, opened_locals(jvm, lib), opened_heap(jvm, lib), opening_calls(jvm, lib)));
    reveal_with_fuel(run, 12);
}

proof fn lemma_el_open(jvm: Jvm, lib: Seq<char>, fuel: nat)
    requires
        answers_loader(jvm, lib),
        loaded_flag(jvm, lib) == JValue::Int(0),
        fuel >= 24,
    ensures
        run(jvm, ensure_loaded_listing(lib), entry(Map::empty()), fuel) == run(
            jvm,
            ensure_loaded_listing(lib),
            at(25, Stack::Empty, opened_locals(jvm, lib), opened_heap(jvm, lib), opening_calls(jvm, lib)),
            (fuel - 24) as nat,
        ),
{
    lemma_el_open_a(jvm, lib, fuel);
    lemma_el_open_b(jvm, lib, (fuel - 13) as nat);
}

#[verifier::rlimit(30)]
#[verifier::spinoff_prover]
proof fn lemma_el_missing(jvm: Jvm, lib: Seq<char>, fuel: nat)
    requires
        answers_loader(jvm, lib),
        stream_of(jvm, lib) is Null,
        fuel >= 14,
    ensures
        ({
            let o = run(
                jvm,
                ensure_loaded_listing(lib),
                at(25, Stack::Empty, opened_locals(jvm, lib), opened_heap(jvm, lib), opening_calls(jvm, lib)),
                fuel,
            );
            &&& o matches Outcome::Threw(JValue::Ref(r), st)
            &&& r == 1 && r < st.heap.len()
            &&& st.heap[1] == HeapObj::Made(
                "java/io/IOException"@,
                seq![JValue::Str(not_found_message(jvm, lib))],
            )
            &&& st.calls == opening_calls(jvm, lib).push(exception_call(jvm, lib))
            &&& st.statics == Map::<(Seq<char>, Seq<char>), JValue>::empty()
        }),
{
    lemma_ensure_loaded_methods();
    lemma_ensure_loaded_labels(lib);
    lemma_slots_small(string_type(), string_type(), string_type());
    reveal_with_fuel(pop_n, 3);
    let code = ensure_loaded_listing(lib);
    let e = Stack::Empty;
    let p = path_of(jvm, lib);
    let is = stream_of(jvm, lib);
    let m3 = opened_locals(jvm, lib);
    let k5 = opening_calls(jvm, lib);
    let k6 = k5.push(exception_call(jvm, lib));
    let b = HeapObj::Builder("_"@ + lib_of(jvm, lib)->Str_0);
    let ioe = "java/io/IOException"@;
    let sb = "java/lang/StringBuilder"@;
    let r1 = JValue::Ref(1);
    let r2 = JValue::Ref(2);
    let msgp = "native lib not found: "@;
    let c0 = Seq::<char>::empty();
    let c1 = c0 + msgp;
    let c2 = c1 + p->Str_0;
    assert(c2 =~= not_found_message(jvm, lib));
    let s25 = at(25, e, m3, opened_heap(jvm, lib), k5);
    let s26 = at(26, one(is), m3, seq![b], k5);
    let s27 = at(27, e, m3, seq![b], k5);
    let s28 = at(28, one(r1), m3, seq![b, HeapObj::Uninit(ioe)], k5);
    let s29 = at(29, two(r1, r1), m3, seq![b, HeapObj::Uninit(ioe)], k5);
    let s30 = at(30, three(r1, r1, r2), m3, seq![b, HeapObj::Uninit(ioe), HeapObj::Uninit(sb)], k5);
    let s31 = at(31, four(r1, r1, r2, r2), m3, seq![b, HeapObj::Uninit(ioe), HeapObj::Uninit(sb)], k5);
    let s32 = at(32, three(r1, r1, r2), m3, seq![b, HeapObj::Uninit(ioe), HeapObj::Builder(c0)], k5);
    let s33 = at(33, four(r1, r1, r2, JValue::Str(msgp)), m3, seq![b, HeapObj::Uninit(ioe), HeapObj::Builder(c0)], k5);
    let s34 = at(34, three(r1, r1, r2), m3, seq![b, HeapObj::Uninit(ioe), HeapObj::Builder(c1)], k5);
    let s35 = at(35, four(r1, r1, r2, p), m3, seq![b, HeapObj::Uninit(ioe), HeapObj::Builder(c1)], k5);
    let s36 = at(36, three(r1, r1, r2), m3, seq![b, HeapObj::Uninit(ioe), HeapObj::Builder(c2)], k5);
    let s37 = at(37, three(r1, r1, JValue::Str(c2)), m3, seq![b, HeapObj::Uninit(ioe), HeapObj::Builder(c2)], k5);
    let h37 = seq![b, HeapObj::Made(ioe, seq![JValue::Str(c2)]), HeapObj::Builder(c2)];
    let s38 = at(38, one(r1), m3, h37, k6);
    let s39 = at(39, e, m3, h37, k6);
    assert(step(jvm, code, s25) =~~= Outcome::Running(s26));
    assert(step(jvm, code, s26) =~~= Outcome::Running(s27));
    assert(step(jvm, code, s27) =~~= Outcome::Running(s28));
    assert(step(jvm, code, s28) =~~= Outcome::Running(s29));
    assert(step(jvm, code, s29) =~~= Outcome::Running(s30));
    assert(step(jvm, code, s30) =~~= Outcome::Running(s31));
    assert(step(jvm, code, s31) =~~= Outcome::Running(s32));
    assert(step(jvm, code, s32) =~~= Outcome::Running(s33));
    assert(step(jvm, code, s33) =~~= Outcome::Running(s34));
    assert(step(jvm, code, s34) =~~= Outcome::Running(s35));
    assert(step(jvm, code, s35) =~~= Outcome::Running(s36));
    assert(step(jvm, code, s36) =~~= Outcome::Running(s37));
    assert(crate::jvm::arg_slots(CallKind::Special, io_exception_init()) == 2);
    assert(pop_n(s37.stack, 2) == Some((exception_call(jvm, lib).args, one(r1))));
    assert(seq![JValue::Str(c2)] =~= exception_call(jvm, lib).args.subrange(1, 2));
    assert(step(jvm, code, s37) =~~= Outcome::Running(s38));
    assert(step(jvm, code, s38) =~~= Outcome::Threw(r1, s39));
    reveal_with_fuel(run, 15);
}

#[verifier::rlimit(30)]
#[verifier::spinoff_prover]
proof fn lemma_el_found(jvm: Jvm, lib: Seq<char>, fuel: nat)
    requires
        answers_loader(jvm, lib),
        !(stream_of(jvm, lib) is Null),
        fuel >= 22,
    ensures
        ({
            let o = run(
                jvm,
                ensure_loaded_listing(lib),
                at(25, Stack::Empty, opened_locals(jvm, lib), opened_heap(jvm, lib), opening_calls(jvm, lib)),
                fuel,
            );
            &&& o matches Outcome::Returned(None, st)
            &&& st.calls == loading_calls(jvm, lib)
            &&& 1 < st.heap.len()
            &&& st.heap[1] == HeapObj::Array(
                "java/nio/file/CopyOption"@,
                seq![(jvm.static_value)("java/nio/file/StandardCopyOption"@, "REPLACE_EXISTING"@)],
            )
            &&& st.statics == Map::<(Seq<char>, Seq<char>), JValue>::empty().insert(
                (NATIVE_LOADER_INTERNAL@, "loaded_"@ + lib),
                JValue::Int(1),
            )
        }),
{
    lemma_ensure_loaded_methods();
    lemma_ensure_loaded_labels(lib);
    lemma_slots_small(string_type(), string_type(), string_type());
    lemma_slots_small(
        JavaType::Object("java/io/InputStream"),
        JavaType::Object("java/nio/file/Path"),
        JavaType::Array("Ljava/nio/file/CopyOption;"),
    );
    reveal_with_fuel(pop_n, 3);
    let code = ensure_loaded_listing(lib);
    let e = Stack::Empty;
    let t = temp_of(jvm, lib);
    let is = stream_of(jvm, lib);
    let np = nio_path_of(jvm, lib);
    let m3 = opened_locals(jvm, lib);
    let k5 = opening_calls(jvm, lib);
    let k6 = k5.push(to_path_call(jvm, lib));
    let k7 = k6.push(copy_call(jvm, lib));
    let k8 = k7.push(close_call(jvm, lib));
    let k9 = k8.push(absolute_call(jvm, lib));
    let k10 = k9.push(load_call(jvm, lib));
    assert(k8 =~= opening_calls(jvm, lib) + seq![to_path_call(jvm, lib), copy_call(jvm, lib), close_call(jvm, lib)]);
    assert(k10 =~= loading_calls(jvm, lib));
    let b = HeapObj::Builder("_"@ + lib_of(jvm, lib)->Str_0);
    let co = "java/nio/file/CopyOption"@;
    let re = (jvm.static_value)("java/nio/file/StandardCopyOption"@, "REPLACE_EXISTING"@);
    let r1 = JValue::Ref(1);
    let h44 = seq![b, HeapObj::Array(co, seq![JValue::Null])];
    let h48 = seq![b, HeapObj::Array(co, seq![re])];
    let cr = (jvm.result)(k6, copy_call(jvm, lib));
    let abs = absolute_of(jvm, lib);
    let s25 = at(25, e, m3, opened_heap(jvm, lib), k5);
    let s26 = at(26, one(is), m3, seq![b], k5);
    let s39 = at(39, e, m3, seq![b], k5);
    let s40 = at(40, e, m3, seq![b], k5);
    let s41 = at(41, one(is), m3, seq![b], k5);
    let s42 = at(42, two(is, t), m3, seq![b], k5);
    let s43 = at(43, two(is, np), m3, seq![b], k6);
    let s44 = at(44, three(is, np, JValue::Int(1)), m3, seq![b], k6);
    let s45 = at(45, three(is, np, r1), m3, h44, k6);
    let s46 = at(46, four(is, np, r1, r1), m3, h44, k6);
    let s47 = at(47, five(is, np, r1, r1, JValue::Int(0)), m3, h44, k6);
    let s48 = at(48, six(is, np, r1, r1, JValue::Int(0), re), m3, h44, k6);
    let s49 = at(49, three(is, np, r1), m3, h48, k6);
    let s50 = at(50, two(cr, JValue::Top), m3, h48, k7);
    let s51 = at(51, e, m3, h48, k7);
    let s52 = at(52, one(is), m3, h48, k7);
    let s53 = at(53, e, m3, h48, k8);
    let s54 = at(54, one(t), m3, h48, k8);
    let s55 = at(55, one(abs), m3, h48, k9);
    let s56 = at(56, e, m3, h48, k10);
    let s57 = at(57, one(JValue::Int(1)), m3, h48, k10);
    let written = Map::<(Seq<char>, Seq<char>), JValue>::empty().insert(
        (NATIVE_LOADER_INTERNAL@, "loaded_"@ + lib),
        JValue::Int(1),
    );
    let s58 = JState { statics: written, ..at(58, e, m3, h48, k10) };
    let s59 = JState { statics: written, ..at(59, e, m3, h48, k10) };
    assert(step(jvm, code, s25) =~~= Outcome::Running(s26));
    assert(step(jvm, code, s26) =~~= Outcome::Running(s39));
    assert(step(jvm, code, s39) =~~= Outcome::Running(s40));
    assert(step(jvm, code, s40) =~~= Outcome::Running(s41));
    assert(step(jvm, code, s41) =~~= Outcome::Running(s42));
    assert(pop_n(s42.stack, 1) == Some((to_path_call(jvm, lib).args, one(is))));
    assert(step(jvm, code, s42) =~~= Outcome::Running(s43));
    assert(step(jvm, code, s43) =~~= Outcome::Running(s44));
    assert(step(jvm, code, s44) =~~= Outcome::Running(s45));
    assert(step(jvm, code, s45) =~~= Outcome::Running(s46));
    assert(step(jvm, code, s46) =~~= Outcome::Running(s47));
    assert(step(jvm, code, s47) =~~= Outcome::Running(s48));
    assert(step(jvm, code, s48) =~~= Outcome::Running(s49));
    assert(crate::jvm::arg_slots(CallKind::Static, files_copy()) == 3);
    assert(pop_n(s49.stack, 3) == Some((copy_call(jvm, lib).args, Stack::Empty)));
    assert(step(jvm, code, s49) =~~= Outcome::Running(s50));
    assert(step(jvm, code, s50) =~~= Outcome::Running(s51));
    assert(step(jvm, code, s51) =~~= Outcome::Running(s52));
    assert(pop_n(s52.stack, 1) == Some((close_call(jvm, lib).args, Stack::Empty)));
    assert(step(jvm, code, s52) =~~= Outcome::Running(s53));
    assert(step(jvm, code, s53) =~~= Outcome::Running(s54));
    assert(pop_n(s54.stack, 1) == Some((absolute_call(jvm, lib).args, Stack::Empty)));
    assert(step(jvm, code, s54) =~~= Outcome::Running(s55));
    assert(pop_n(s55.stack, 1) == Some((load_call(jvm, lib).args, Stack::Empty)));
    assert(step(jvm, code, s55) =~~= Outcome::Running(s56));
    assert(step(jvm, code, s56) =~~= Outcome::Running(s57));
    assert(step(jvm, code, s57) =~~= Outcome::Running(s58));
    assert(step(jvm, code, s58) =~~= Outcome::Returned(None, s59));
    reveal_with_fuel(run, 23);
}

/// With the flag `loaded_<lib>` set, `ensure_<lib>()` returns at once on any JVM.
pub proof fn lemma_el_skip(jvm: Jvm, lib: Seq<char>)
    requires
        loaded_flag(jvm, lib) is Int,
        loaded_flag(jvm, lib)->Int_0 != 0,
    ensures
        run_method(jvm, ensure_loaded_listing(lib), Map::empty()) matches Outcome::Returned(None, st)
            && st.calls == Seq::<Call>::empty() && st.statics == Map::<
            (Seq<char>, Seq<char>),
            JValue,
        >::empty(),
{
    lemma_ensure_loaded_labels(lib);
    let code = ensure_loaded_listing(lib);
    let v = loaded_flag(jvm, lib)->Int_0;
    let m0 = Map::<int, JValue>::empty();
    let h0 = Seq::<HeapObj>::empty();
    let k0 = Seq::<Call>::empty();
    let s0 = entry(m0);
    let s1 = at(1, one(JValue::Int(v)), m0, h0, k0);
    let s2 = at(2, Stack::Empty, m0, h0, k0);
    let s3 = at(3, Stack::Empty, m0, h0, k0);
    assert(step(jvm, code, s0) =~~= Outcome::Running(s1));
    assert(step(jvm, code, s1) =~~= Outcome::Running(s2));
    assert(step(jvm, code, s2) =~~= Outcome::Returned(None, s3));
    reveal_with_fuel(run, 4);
}

/// Run on any JVM whose answers are as [`answers_loader`] says,
/// `ensure_<lib>()` does what [`ensure_loaded_outcome`] states.
pub proof fn lemma_ensure_loaded_run(jvm: Jvm, lib: Seq<char>)
    requires
        answers_loader(jvm, lib),
    ensures
        ensure_loaded_outcome(jvm, lib, run_method(jvm, ensure_loaded_listing(lib), Map::empty())),
{
    if loaded_flag(jvm, lib)->Int_0 != 0 {
        lemma_el_skip(jvm, lib);
    } else {
        lemma_el_open(jvm, lib, 59);
        if stream_of(jvm, lib) is Null {
            lemma_el_missing(jvm, lib, 35);
        } else {
            lemma_el_found(jvm, lib, 35);
        }
    }
}

/// `jvm` with the static fields that `statics` holds written into it.
pub open spec fn with_statics(jvm: Jvm, statics: Map<(Seq<char>, Seq<char>), JValue>) -> Jvm {
    Jvm {
        result: jvm.result,
        static_value: |owner: Seq<char>, name: Seq<char>|
            if statics.contains_key((owner, name)) {
                statics[(owner, name)]
            } else {
                (jvm.static_value)(owner, name)
            },
        thrown: jvm.thrown,
    }
}

/// The library is loaded once: on any JVM, after a call of `ensure_<lib>()`
/// that returned, a next call, seeing the static fields the first one wrote,
/// returns at once without calling anything.
pub proof fn lemma_ensure_loaded_once(jvm: Jvm, lib: Seq<char>, next: Jvm)
    requires
        run_method(jvm, ensure_loaded_listing(lib), Map::empty()) is Returned,
        next == with_statics(
            jvm,
            run_method(jvm, ensure_loaded_listing(lib), Map::empty())->Returned_1.statics,
        ),
    ensures
        run_method(next, ensure_loaded_listing(lib), Map::empty()) matches Outcome::Returned(None, st)
            && st.calls == Seq::<Call>::empty(),
{
    lemma_ensure_loaded_flag(jvm, lib);
    let st = run_method(jvm, ensure_loaded_listing(lib), Map::empty())->Returned_1;
    if st.statics == Map::<(Seq<char>, Seq<char>), JValue>::empty().insert(flag_key(lib), JValue::Int(1)) {
        assert(st.statics.contains_key(flag_key(lib)));
        assert(loaded_flag(next, lib) == JValue::Int(1));
    } else {
        assert(!st.statics.contains_key(flag_key(lib)));
        assert(loaded_flag(next, lib) == loaded_flag(jvm, lib));
    }
    lemma_el_skip(next, lib);
}

/// `(NativeLoader, loaded_<lib>)`, the key of the flag among static fields.
pub open spec fn flag_key(lib: Seq<char>) -> (Seq<char>, Seq<char>) {
    (NATIVE_LOADER_INTERNAL@, "loaded_"@ + lib)
}

/// What `ensure_<lib>()` may leave, on any JVM: when it throws (the code's
/// own `IOException` or an exception of a call it makes), no static field is
/// written, so `loaded_<lib>` stays unset and a later call tries again; when
/// it returns, either the flag was set already and nothing was written, or it
/// wrote `loaded_<lib> = true` and nothing else.
pub open spec fn flag_written_only_by_load(jvm: Jvm, lib: Seq<char>, o: Outcome) -> bool {
    match o {
        Outcome::Threw(_, st) => st.statics == Map::<(Seq<char>, Seq<char>), JValue>::empty(),
        Outcome::Returned(_, st) => (st.statics == Map::<(Seq<char>, Seq<char>), JValue>::empty()
            && loaded_flag(jvm, lib) is Int && loaded_flag(jvm, lib)->Int_0 != 0) || st.statics
            == Map::<(Seq<char>, Seq<char>), JValue>::empty().insert(flag_key(lib), JValue::Int(1)),
        _ => true,
    }
}

/// What holds at each state of a run of `ensure_<lib>()`.
spec fn flag_inv(jvm: Jvm, lib: Seq<char>, s: JState) -> bool {
    &&& if s.pc == 58 {
        s.statics == Map::<(Seq<char>, Seq<char>), JValue>::empty().insert(
            flag_key(lib),
            JValue::Int(1),
        )
    } else {
        s.statics == Map::<(Seq<char>, Seq<char>), JValue>::empty()
    }
    &&& s.pc == 1 ==> (s.stack matches Stack::Push(_, v) && v == loaded_flag(jvm, lib))
    &&& s.pc == 2 ==> (loaded_flag(jvm, lib) is Int && loaded_flag(jvm, lib)->Int_0 != 0)
    &&& s.pc == 57 ==> (s.stack matches Stack::Push(_, v) && v == JValue::Int(1))
}

/// Where the listing places labels, returns and writes a static field.
proof fn lemma_el_shape(lib: Seq<char>, k: int)
    requires
        0 <= k < 59,
    ensures
        ensure_loaded_listing(lib)[k] is Place ==> k == 3 || k == 39,
        ensure_loaded_listing(lib)[k] is ReturnVoid ==> k == 2 || k == 58,
        !(ensure_loaded_listing(lib)[k] is Areturn),
        ensure_loaded_listing(lib)[k] is PutStatic ==> k == 57,
{
}

proof fn lemma_el_flag_step(jvm: Jvm, lib: Seq<char>, s: JState)
    requires
        flag_inv(jvm, lib, s),
    ensures
        match step(jvm, ensure_loaded_listing(lib), s) {
            Outcome::Running(t) => flag_inv(jvm, lib, t),
            o => flag_written_only_by_load(jvm, lib, o),
        },
{
    let code = ensure_loaded_listing(lib);
    lemma_ensure_loaded_labels(lib);
    if 0 <= s.pc < 59 {
        lemma_el_shape(lib, s.pc);
        if s.pc == 0 {
        } else if s.pc == 1 {
        } else if s.pc == 2 {
        } else if s.pc == 56 {
        } else if s.pc == 57 {
            reveal_with_fuel(pop_n, 2);
            assert(JavaType::Boolean.spec_slot_size() == 1);
        } else if s.pc == 58 {
        } else {
            lemma_step_frame(jvm, code, s);
            match step(jvm, code, s) {
                Outcome::Running(t) => {
                    if t.pc != s.pc + 1 {
                        lemma_el_shape(lib, t.pc);
                    }
                },
                _ => {},
            }
        }
    }
}

proof fn lemma_el_flag_run(jvm: Jvm, lib: Seq<char>, s: JState, fuel: nat)
    requires
        flag_inv(jvm, lib, s),
    ensures
        flag_written_only_by_load(jvm, lib, run(jvm, ensure_loaded_listing(lib), s, fuel)),
    decreases fuel,
{
    if fuel > 0 {
        lemma_el_flag_step(jvm, lib, s);
        match step(jvm, ensure_loaded_listing(lib), s) {
            Outcome::Running(t) => lemma_el_flag_run(jvm, lib, t, (fuel - 1) as nat),
            _ => {},
        }
    }
}

/// Whatever the JVM answers, a call that throws included, `ensure_<lib>()`
/// writes `loaded_<lib> = true` only on the way to returning, and nothing
/// else: see [`flag_written_only_by_load`].
pub proof fn lemma_ensure_loaded_flag(jvm: Jvm, lib: Seq<char>)
    ensures
        flag_written_only_by_load(
            jvm,
            lib,
            run_method(jvm, ensure_loaded_listing(lib), Map::empty()),
        ),
{
    lemma_el_flag_run(jvm, lib, entry(Map::empty()), 59);
}

/// With its flag set, the code returns at once, calling nothing and writing
/// nothing, on every JVM.
pub open spec fn skips_when_loaded(jvm: Jvm, lib: Seq<char>, o: Outcome) -> bool {
    o matches Outcome::Returned(None, st) && st.calls == Seq::<Call>::empty() && st.statics
        == Map::<(Seq<char>, Seq<char>), JValue>::empty()
}

/// Run on any JVM whose answers are as [`answers_loader`] says, the code
/// does what [`ensure_loaded_outcome`] states for library `lib`; on any JVM
/// whose flag `loaded_<lib>` is set, it returns at once; and on every JVM it
/// writes the flag only as [`flag_written_only_by_load`] states.
pub open spec fn performs_ensure_loaded(code: Seq<InsnView>, lib: Seq<char>) -> bool {
    &&& forall|jvm: Jvm|
        answers_loader(jvm, lib) ==> ensure_loaded_outcome(
            jvm,
            lib,
            #[trigger] run_method(jvm, code, Map::empty()),
        )
    &&& forall|jvm: Jvm|
        loaded_flag(jvm, lib) is Int && loaded_flag(jvm, lib)->Int_0 != 0 ==> skips_when_loaded(
            jvm,
            lib,
            #[trigger] run_method(jvm, code, Map::empty()),
        )
    &&& forall|jvm: Jvm| flag_written_only_by_load(jvm, lib, #[trigger] run_method(jvm, code, Map::empty()))
}

/// [`lemma_ensure_loaded_run`] and [`lemma_el_skip`] for every JVM at once.
pub proof fn lemma_ensure_loaded_runs(code: Seq<InsnView>, lib: Seq<char>)
    requires
        code == ensure_loaded_listing(lib),
    ensures
        performs_ensure_loaded(code, lib),
{
    assert forall|jvm: Jvm| answers_loader(jvm, lib) implies ensure_loaded_outcome(
        jvm,
        lib,
        #[trigger] run_method(jvm, code, Map::empty()),
    ) by {
        lemma_ensure_loaded_run(jvm, lib);
    }
    assert forall|jvm: Jvm|
        loaded_flag(jvm, lib) is Int && loaded_flag(jvm, lib)->Int_0 != 0 implies skips_when_loaded(
        jvm,
        lib,
        #[trigger] run_method(jvm, code, Map::empty()),
    ) by {
        lemma_el_skip(jvm, lib);
    }
    assert forall|jvm: Jvm| flag_written_only_by_load(jvm, lib, #[trigger] run_method(jvm, code, Map::empty())) by {
        lemma_ensure_loaded_flag(jvm, lib);
    }
}

} // verus!
