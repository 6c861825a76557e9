//! What the generated `NativeLoader.resourcePath()` computes, proved on its
//! instruction listing with the semantics of [`crate::jvm`].

use vstd::prelude::*;
use crate::bytecode::{CallKind, InsnView, MethodView};
use crate::descriptor::JavaType;
use crate::native_libs::{lib_entry_of, platform_key_of};
use crate::jvm::{
    Call, HeapObj, JState, JValue, Jvm, Outcome, Stack, builder_type, entry, has_label,
    is_builder_append, is_builder_init, is_builder_to_string, is_string_equals,
    is_string_starts_with, label_index, lemma_slots_small, pop_n, push, run, run_method, step,
    string_type, returns_normally,
};

verus! {

/// A method reference from its parts.
pub open spec fn method(
    owner: Seq<char>,
    name: Seq<char>,
    args: Seq<JavaType>,
    ret: Option<JavaType>,
) -> MethodView {
    MethodView { owner, name, args, ret }
}

/// `System.getProperty(String)`.
pub open spec fn get_property() -> MethodView {
    method("java/lang/System"@, "getProperty"@, seq![string_type()], Some(string_type()))
}

/// `String.toLowerCase()`.
pub open spec fn to_lower_case() -> MethodView {
    method("java/lang/String"@, "toLowerCase"@, Seq::empty(), Some(string_type()))
}

/// `System.mapLibraryName(String)`.
pub open spec fn map_library_name() -> MethodView {
    method("java/lang/System"@, "mapLibraryName"@, seq![string_type()], Some(string_type()))
}

/// `String.equals(Object)`.
pub open spec fn string_equals() -> MethodView {
    method(
        "java/lang/String"@,
        "equals"@,
        seq![JavaType::Object("java/lang/Object")],
        Some(JavaType::Boolean),
    )
}

/// `String.startsWith(String)`.
pub open spec fn string_starts_with() -> MethodView {
    method("java/lang/String"@, "startsWith"@, seq![string_type()], Some(JavaType::Boolean))
}

/// `StringBuilder.append(String)`.
pub open spec fn builder_append() -> MethodView {
    method("java/lang/StringBuilder"@, "append"@, seq![string_type()], Some(builder_type()))
}

/// `StringBuilder.toString()`.
pub open spec fn builder_to_string() -> MethodView {
    method("java/lang/StringBuilder"@, "toString"@, Seq::empty(), Some(string_type()))
}

/// `StringBuilder()`.
pub open spec fn builder_init() -> MethodView {
    method("java/lang/StringBuilder"@, "<init>"@, Seq::empty(), None)
}

/// The instructions of `resourcePath()`, by position.
pub open spec fn resource_path_insn(k: int) -> InsnView {
    if k == 0 { InsnView::LdcString("os.name"@) }
    else if k == 1 { InsnView::Invoke(CallKind::Static, get_property()) }
    else if k == 2 { InsnView::Invoke(CallKind::Virtual, to_lower_case()) }
    else if k == 3 { InsnView::Astore(1) }
    else if k == 4 { InsnView::LdcString("os.arch"@) }
    else if k == 5 { InsnView::Invoke(CallKind::Static, get_property()) }
    else if k == 6 { InsnView::Astore(2) }
    else if k == 7 { InsnView::LdcString("amd64"@) }
    else if k == 8 { InsnView::Aload(2) }
    else if k == 9 { InsnView::Invoke(CallKind::Virtual, string_equals()) }
    else if k == 10 { InsnView::Ifeq(0) }
    else if k == 11 { InsnView::LdcString("x86_64"@) }
    else if k == 12 { InsnView::Astore(2) }
    else if k == 13 { InsnView::Goto(1) }
    else if k == 14 { InsnView::Place(0) }
    else if k == 15 { InsnView::LdcString("arm64"@) }
    else if k == 16 { InsnView::Aload(2) }
    else if k == 17 { InsnView::Invoke(CallKind::Virtual, string_equals()) }
    else if k == 18 { InsnView::Ifeq(1) }
    else if k == 19 { InsnView::LdcString("aarch64"@) }
    else if k == 20 { InsnView::Astore(2) }
    else if k == 21 { InsnView::Place(1) }
    else if k == 22 { InsnView::Aload(1) }
    else if k == 23 { InsnView::LdcString("windows"@) }
    else if k == 24 { InsnView::Invoke(CallKind::Virtual, string_starts_with()) }
    else if k == 25 { InsnView::Ifeq(2) }
    else if k == 26 { InsnView::LdcString("windows"@) }
    else if k == 27 { InsnView::Astore(3) }
    else if k == 28 { InsnView::Goto(4) }
    else if k == 29 { InsnView::Place(2) }
    else if k == 30 { InsnView::Aload(1) }
    else if k == 31 { InsnView::LdcString("mac"@) }
    else if k == 32 { InsnView::Invoke(CallKind::Virtual, string_starts_with()) }
    else if k == 33 { InsnView::Ifeq(3) }
    else if k == 34 { InsnView::LdcString("macos"@) }
    else if k == 35 { InsnView::Astore(3) }
    else if k == 36 { InsnView::Goto(4) }
    else if k == 37 { InsnView::Place(3) }
    else if k == 38 { InsnView::LdcString("linux"@) }
    else if k == 39 { InsnView::Astore(3) }
    else if k == 40 { InsnView::Place(4) }
    else if k == 41 { InsnView::Aload(0) }
    else if k == 42 { InsnView::Invoke(CallKind::Static, map_library_name()) }
    else if k == 43 { InsnView::Astore(4) }
    else if k == 44 { InsnView::New("java/lang/StringBuilder"@) }
    else if k == 45 { InsnView::Dup }
    else if k == 46 { InsnView::Invoke(CallKind::Special, builder_init()) }
    else if k == 47 { InsnView::LdcString("/native/"@) }
    else if k == 48 { InsnView::Invoke(CallKind::Virtual, builder_append()) }
    else if k == 49 { InsnView::Aload(3) }
    else if k == 50 { InsnView::Invoke(CallKind::Virtual, builder_append()) }
    else if k == 51 { InsnView::LdcString("-"@) }
    else if k == 52 { InsnView::Invoke(CallKind::Virtual, builder_append()) }
    else if k == 53 { InsnView::Aload(2) }
    else if k == 54 { InsnView::Invoke(CallKind::Virtual, builder_append()) }
    else if k == 55 { InsnView::LdcString("/"@) }
    else if k == 56 { InsnView::Invoke(CallKind::Virtual, builder_append()) }
    else if k == 57 { InsnView::Aload(4) }
    else if k == 58 { InsnView::Invoke(CallKind::Virtual, builder_append()) }
    else if k == 59 { InsnView::Invoke(CallKind::Virtual, builder_to_string()) }
    else { InsnView::Areturn }
}

/// The 61 instructions of `resourcePath(String libBasename)`.
pub open spec fn resource_path_listing() -> Seq<InsnView> {
    Seq::new(61, |k: int| resource_path_insn(k))
}

/// `arch` as the platform key names it: the JVM's `amd64` is `x86_64` and
/// its `arm64` is `aarch64`; other names stay as they are.
pub open spec fn arch_key(arch: Seq<char>) -> Seq<char> {
    if arch == "amd64"@ {
        "x86_64"@
    } else if arch == "arm64"@ {
        "aarch64"@
    } else {
        arch
    }
}

/// What `resourcePath()` leaves in `arch` for the `os.arch` value `raw`:
/// `"x86_64"` for `"amd64"`, `"aarch64"` for `"arm64"`, else `raw` itself
/// (a null `raw` included).
pub open spec fn arch_value(raw: JValue) -> JValue {
    if raw == JValue::Str("amd64"@) {
        JValue::Str("x86_64"@)
    } else if raw == JValue::Str("arm64"@) {
        JValue::Str("aarch64"@)
    } else {
        raw
    }
}

/// What `StringBuilder.append(String)` appends for `v`: the string, or
/// `null` for a null reference.
pub open spec fn appended_text(v: JValue) -> Seq<char> {
    match v {
        JValue::Str(s) => s,
        _ => "null"@,
    }
}

/// The architecture part of the path for the `os.arch` value `raw`:
/// [`arch_key`] of the string, `null` when `os.arch` is unset.
pub open spec fn arch_name(raw: JValue) -> Seq<char> {
    match raw {
        JValue::Str(a) => arch_key(a),
        _ => "null"@,
    }
}

/// The platform key's operating system for a lower-cased `os.name`.
pub open spec fn os_key(lower_name: Seq<char>) -> Seq<char> {
    if "windows"@.is_prefix_of(lower_name) {
        "windows"@
    } else if "mac"@.is_prefix_of(lower_name) {
        "macos"@
    } else {
        "linux"@
    }
}

/// `System.getProperty("os.name")`.
pub open spec fn os_name_call() -> Call {
    Call { kind: CallKind::Static, method: get_property(), args: seq![JValue::Str("os.name"@)] }
}

/// `System.getProperty("os.arch")`.
pub open spec fn os_arch_call() -> Call {
    Call { kind: CallKind::Static, method: get_property(), args: seq![JValue::Str("os.arch"@)] }
}

/// `System.mapLibraryName(base)`.
pub open spec fn lib_name_call(base: Seq<char>) -> Call {
    Call { kind: CallKind::Static, method: map_library_name(), args: seq![JValue::Str(base)] }
}

/// `System.getProperty("os.name")`.
pub open spec fn os_name(jvm: Jvm) -> JValue {
    (jvm.result)(Seq::empty(), os_name_call())
}

/// `toLowerCase()` on what `System.getProperty("os.name")` returned.
pub open spec fn lower_call(jvm: Jvm) -> Call {
    Call { kind: CallKind::Virtual, method: to_lower_case(), args: seq![os_name(jvm)] }
}

/// `System.getProperty("os.name").toLowerCase()`.
pub open spec fn lower_os_name(jvm: Jvm) -> JValue {
    (jvm.result)(seq![os_name_call()], lower_call(jvm))
}

/// `System.getProperty("os.arch")`.
pub open spec fn os_arch(jvm: Jvm) -> JValue {
    (jvm.result)(seq![os_name_call(), lower_call(jvm)], os_arch_call())
}

/// `System.mapLibraryName(base)`.
pub open spec fn lib_file_name(jvm: Jvm, base: Seq<char>) -> JValue {
    (jvm.result)(seq![os_name_call(), lower_call(jvm), os_arch_call()], lib_name_call(base))
}

/// The calls `resourcePath()` makes, in order.
pub open spec fn resource_path_calls(jvm: Jvm, base: Seq<char>) -> Seq<Call> {
    seq![os_name_call(), lower_call(jvm), os_arch_call(), lib_name_call(base)]
}

/// None of the four calls of `resourcePath(base)` throws.
pub open spec fn resource_path_calls_return(jvm: Jvm, base: Seq<char>) -> bool {
    &&& returns_normally(jvm, Seq::empty(), os_name_call())
    &&& returns_normally(jvm, seq![os_name_call()], lower_call(jvm))
    &&& returns_normally(jvm, seq![os_name_call(), lower_call(jvm)], os_arch_call())
    &&& returns_normally(jvm, first_three_calls(jvm), lib_name_call(base))
}

/// The JVM answers the four calls with strings, save that `os.arch` may be
/// unset and `mapLibraryName` may answer null, and none of them throws.
pub open spec fn answers_strings(jvm: Jvm, base: Seq<char>) -> bool {
    &&& resource_path_calls_return(jvm, base)
    &&& os_name(jvm) is Str
    &&& lower_os_name(jvm) is Str
    &&& (os_arch(jvm) is Str || os_arch(jvm) is Null)
    &&& (lib_file_name(jvm, base) is Str || lib_file_name(jvm, base) is Null)
}

/// `"/native/" + os + "-" + arch + "/" + file`.
pub open spec fn resource_path_of(os: Seq<char>, arch: Seq<char>, file: Seq<char>) -> Seq<char> {
    "/native/"@ + os + "-"@ + arch + "/"@ + file
}

proof fn lemma_resource_path_labels()
    ensures
        has_label(resource_path_listing(), 0) && label_index(resource_path_listing(), 0) == 14,
        has_label(resource_path_listing(), 1) && label_index(resource_path_listing(), 1) == 21,
        has_label(resource_path_listing(), 2) && label_index(resource_path_listing(), 2) == 29,
        has_label(resource_path_listing(), 3) && label_index(resource_path_listing(), 3) == 37,
        has_label(resource_path_listing(), 4) && label_index(resource_path_listing(), 4) == 40,
{
    let code = resource_path_listing();
    assert(code[14] == InsnView::Place(0));
    assert(code[21] == InsnView::Place(1));
    assert(code[29] == InsnView::Place(2));
    assert(code[37] == InsnView::Place(3));
    assert(code[40] == InsnView::Place(4));
}

/// Which of the methods `resourcePath()` calls have a built-in meaning.
proof fn lemma_resource_path_methods()
    ensures
        !is_string_equals(get_property()) && !is_string_starts_with(get_property())
            && !is_builder_append(get_property()) && !is_builder_to_string(get_property()),
        !is_string_equals(to_lower_case()) && !is_string_starts_with(to_lower_case())
            && !is_builder_append(to_lower_case()) && !is_builder_to_string(to_lower_case()),
        !is_string_equals(map_library_name()) && !is_string_starts_with(map_library_name())
            && !is_builder_append(map_library_name()) && !is_builder_to_string(
            map_library_name(),
        ),
        is_string_equals(string_equals()),
        is_string_starts_with(string_starts_with()),
        is_builder_append(builder_append()),
        is_builder_to_string(builder_to_string()),
        is_builder_init(builder_init()),
        !is_string_equals(builder_append()),
        !is_string_starts_with(builder_append()),
        !is_string_equals(builder_to_string()) && !is_string_starts_with(builder_to_string())
            && !is_builder_append(builder_to_string()),
        !is_string_equals(string_starts_with()),
        builder_init().name == "<init>"@,
        builder_init().owner == "java/lang/StringBuilder"@,
{
    reveal_strlit("java/lang/System");
    reveal_strlit("java/lang/String");
    reveal_strlit("java/lang/StringBuilder");
    reveal_strlit("getProperty");
    reveal_strlit("toLowerCase");
    reveal_strlit("mapLibraryName");
    reveal_strlit("equals");
    reveal_strlit("startsWith");
    reveal_strlit("append");
    reveal_strlit("toString");
    assert("java/lang/System"@.len() == 16);
    assert("java/lang/String"@.len() == 16);
    assert("java/lang/StringBuilder"@.len() == 23);
    assert("java/lang/System"@[11] != "java/lang/String"@[11]);
    assert("getProperty"@.len() == 11);
    assert("toLowerCase"@.len() == 11);
    assert("mapLibraryName"@.len() == 14);
    assert("equals"@.len() == 6);
    assert("startsWith"@.len() == 10);
    assert("append"@.len() == 6);
    assert("toString"@.len() == 8);
}

/// A state with no static field written.
pub open spec fn at(
    pc: int,
    stack: Stack,
    locals: Map<int, JValue>,
    heap: Seq<HeapObj>,
    calls: Seq<Call>,
) -> JState {
    JState { pc, stack, locals, heap, calls, statics: Map::empty() }
}

/// A stack holding `a`.
pub open spec fn one(a: JValue) -> Stack {
    push(Stack::Empty, a)
}

/// A stack holding `a`, then `b` on top.
pub open spec fn two(a: JValue, b: JValue) -> Stack {
    push(one(a), b)
}

/// A stack holding `a`, `b`, then `c` on top.
pub open spec fn three(a: JValue, b: JValue, c: JValue) -> Stack {
    push(two(a, b), c)
}

/// The calls before `System.mapLibraryName`.
pub open spec fn first_three_calls(jvm: Jvm) -> Seq<Call> {
    seq![os_name_call(), lower_call(jvm), os_arch_call()]
}

/// Locals once the operating system key is chosen.
pub open spec fn keyed_locals(jvm: Jvm, base: Seq<char>, arch: JValue, os: Seq<char>) -> Map<int, JValue> {
    Map::empty().insert(0, JValue::Str(base)).insert(1, lower_os_name(jvm)).insert(2, arch).insert(
        3,
        JValue::Str(os),
    )
}

#[verifier::rlimit(30)]
#[verifier::spinoff_prover]
proof fn lemma_rp_compose(jvm: Jvm, base: Seq<char>, arch: JValue, os: Seq<char>, fuel: nat)
    requires
        answers_strings(jvm, base),
        arch is Str || arch is Null,
        fuel >= 21,
    ensures
        ({
            let o = run(
                jvm,
                resource_path_listing(),
                at(40, Stack::Empty, keyed_locals(jvm, base, arch, os), Seq::empty(), first_three_calls(jvm)),
                fuel,
            );
            &&& o matches Outcome::Returned(Some(v), st)
            &&& v == JValue::Str(resource_path_of(os, appended_text(arch), appended_text(lib_file_name(jvm, base))))
            &&& st.calls == resource_path_calls(jvm, base)
            &&& st.statics == Map::<(Seq<char>, Seq<char>), JValue>::empty()
        }),
{
    lemma_resource_path_methods();
    lemma_slots_small(string_type(), string_type(), string_type());
    reveal_with_fuel(pop_n, 3);
    let code = resource_path_listing();
    let f = lib_file_name(jvm, base);
    let fs = appended_text(f);
    let l3 = keyed_locals(jvm, base, arch, os);
    let l4 = l3.insert(4, f);
    let c3 = first_three_calls(jvm);
    let c4 = resource_path_calls(jvm, base);
    let sb = "java/lang/StringBuilder"@;
    let r = JValue::Ref(0);
    let e = Stack::Empty;
    let h0 = seq![HeapObj::Uninit(sb)];
    let b0 = Seq::<char>::empty();
    let b1 = b0 + "/native/"@;
    let b2 = b1 + os;
    let b3 = b2 + "-"@;
    let b4 = b3 + appended_text(arch);
    let b5 = b4 + "/"@;
    let b6 = b5 + fs;
    let s40 = at(40, e, l3, Seq::empty(), c3);
    let s41 = at(41, e, l3, Seq::empty(), c3);
    let s42 = at(42, one(JValue::Str(base)), l3, Seq::empty(), c3);
    let s43 = at(43, one(f), l3, Seq::empty(), c4);
    let s44 = at(44, e, l4, Seq::empty(), c4);
    let s45 = at(45, one(r), l4, h0, c4);
    let s46 = at(46, two(r, r), l4, h0, c4);
    let s47 = at(47, one(r), l4, seq![HeapObj::Builder(b0)], c4);
    let s48 = at(48, two(r, JValue::Str("/native/"@)), l4, seq![HeapObj::Builder(b0)], c4);
    let s49 = at(49, one(r), l4, seq![HeapObj::Builder(b1)], c4);
    let s50 = at(50, two(r, JValue::Str(os)), l4, seq![HeapObj::Builder(b1)], c4);
    let s51 = at(51, one(r), l4, seq![HeapObj::Builder(b2)], c4);
    let s52 = at(52, two(r, JValue::Str("-"@)), l4, seq![HeapObj::Builder(b2)], c4);
    let s53 = at(53, one(r), l4, seq![HeapObj::Builder(b3)], c4);
    let s54 = at(54, two(r, arch), l4, seq![HeapObj::Builder(b3)], c4);
    let s55 = at(55, one(r), l4, seq![HeapObj::Builder(b4)], c4);
    let s56 = at(56, two(r, JValue::Str("/"@)), l4, seq![HeapObj::Builder(b4)], c4);
    let s57 = at(57, one(r), l4, seq![HeapObj::Builder(b5)], c4);
    let s58 = at(58, two(r, f), l4, seq![HeapObj::Builder(b5)], c4);
    let s59 = at(59, one(r), l4, seq![HeapObj::Builder(b6)], c4);
    let s60 = at(60, one(JValue::Str(b6)), l4, seq![HeapObj::Builder(b6)], c4);
    assert(step(jvm, code, s40) =~~= Outcome::Running(s41));
    assert(step(jvm, code, s41) =~~= Outcome::Running(s42));
    assert(step(jvm, code, s42) =~~= Outcome::Running(s43));
    assert(step(jvm, code, s43) =~~= Outcome::Running(s44));
    assert(step(jvm, code, s44) =~~= Outcome::Running(s45));
    assert(step(jvm, code, s45) =~~= Outcome::Running(s46));
    assert(step(jvm, code, s46) =~~= Outcome::Running(s47));
    assert(step(jvm, code, s47) =~~= Outcome::Running(s48));
    assert(step(jvm, code, s48) =~~= Outcome::Running(s49));
    assert(step(jvm, code, s49) =~~= Outcome::Running(s50));
    assert(step(jvm, code, s50) =~~= Outcome::Running(s51));
    assert(step(jvm, code, s51) =~~= Outcome::Running(s52));
    assert(step(jvm, code, s52) =~~= Outcome::Running(s53));
    assert(step(jvm, code, s53) =~~= Outcome::Running(s54));
    assert(step(jvm, code, s54) =~~= Outcome::Running(s55));
    assert(step(jvm, code, s55) =~~= Outcome::Running(s56));
    assert(step(jvm, code, s56) =~~= Outcome::Running(s57));
    assert(step(jvm, code, s57) =~~= Outcome::Running(s58));
    assert(step(jvm, code, s58) =~~= Outcome::Running(s59));
    assert(step(jvm, code, s59) =~~= Outcome::Running(s60));
    assert(b6 =~= resource_path_of(os, appended_text(arch), fs));
    reveal_with_fuel(run, 22);
}

/// Steps from entry to the placement of the label after the `arch` choice.
pub open spec fn arch_steps(raw: JValue) -> nat {
    if raw == JValue::Str("amd64"@) {
        14
    } else if raw == JValue::Str("arm64"@) {
        18
    } else {
        16
    }
}

/// Steps from the `arch` label to the `os` one.
pub open spec fn os_steps(lower_name: Seq<char>) -> nat {
    if "windows"@.is_prefix_of(lower_name) {
        8
    } else {
        13
    }
}

#[verifier::rlimit(30)]
#[verifier::spinoff_prover]
proof fn lemma_rp_arch(jvm: Jvm, base: Seq<char>, fuel: nat)
    requires
        answers_strings(jvm, base),
        fuel >= 18,
    ensures
        run(
            jvm,
            resource_path_listing(),
            entry(Map::empty().insert(0, JValue::Str(base))),
            fuel,
        ) == run(
            jvm,
            resource_path_listing(),
            at(
                21,
                Stack::Empty,
                Map::empty().insert(0, JValue::Str(base)).insert(1, lower_os_name(jvm)).insert(
                    2,
                    arch_value(os_arch(jvm)),
                ),
                Seq::empty(),
                first_three_calls(jvm),
            ),
            (fuel - arch_steps(os_arch(jvm))) as nat,
        ),
{
    lemma_resource_path_methods();
    lemma_resource_path_labels();
    lemma_slots_small(string_type(), string_type(), string_type());
    lemma_slots_small(JavaType::Object("java/lang/Object"), string_type(), string_type());
    reveal_with_fuel(pop_n, 3);
    let code = resource_path_listing();
    let e = Stack::Empty;
    let h = Seq::<HeapObj>::empty();
    let n = os_name(jvm);
    let lo = lower_os_name(jvm);
    let av = os_arch(jvm);
    let m0 = Map::<int, JValue>::empty().insert(0, JValue::Str(base));
    let m1 = m0.insert(1, lo);
    let m2 = m1.insert(2, av);
    let c1 = seq![os_name_call()];
    let c2 = seq![os_name_call(), lower_call(jvm)];
    let c3 = first_three_calls(jvm);
    let amd = JValue::Str("amd64"@);
    let arm = JValue::Str("arm64"@);
    let s0 = entry(m0);
    let s1 = at(1, one(JValue::Str("os.name"@)), m0, h, Seq::empty());
    let s2 = at(2, one(n), m0, h, c1);
    let s3 = at(3, one(lo), m0, h, c2);
    let s4 = at(4, e, m1, h, c2);
    let s5 = at(5, one(JValue::Str("os.arch"@)), m1, h, c2);
    let s6 = at(6, one(av), m1, h, c3);
    let s7 = at(7, e, m2, h, c3);
    let s8 = at(8, one(amd), m2, h, c3);
    let s9 = at(9, two(amd, av), m2, h, c3);
    let s10 = at(10, one(JValue::Int(if av == amd { 1 } else { 0 })), m2, h, c3);
    assert(step(jvm, code, s0) =~~= Outcome::Running(s1));
    assert(step(jvm, code, s1) =~~= Outcome::Running(s2));
    assert(step(jvm, code, s2) =~~= Outcome::Running(s3));
    assert(step(jvm, code, s3) =~~= Outcome::Running(s4));
    assert(step(jvm, code, s4) =~~= Outcome::Running(s5));
    assert(step(jvm, code, s5) =~~= Outcome::Running(s6));
    assert(step(jvm, code, s6) =~~= Outcome::Running(s7));
    assert(step(jvm, code, s7) =~~= Outcome::Running(s8));
    assert(step(jvm, code, s8) =~~= Outcome::Running(s9));
    assert(step(jvm, code, s9) =~~= Outcome::Running(s10));
    if av == amd {
        let x = JValue::Str("x86_64"@);
        let s11 = at(11, e, m2, h, c3);
        let s12 = at(12, one(x), m2, h, c3);
        let s13 = at(13, e, m1.insert(2, x), h, c3);
        let s21 = at(21, e, m1.insert(2, x), h, c3);
        assert(step(jvm, code, s10) =~~= Outcome::Running(s11));
        assert(step(jvm, code, s11) =~~= Outcome::Running(s12));
        assert(step(jvm, code, s12) =~~= Outcome::Running(s13));
        assert(step(jvm, code, s13) =~~= Outcome::Running(s21));
        reveal_with_fuel(run, 15);
    } else {
        let s14 = at(14, e, m2, h, c3);
        let s15 = at(15, e, m2, h, c3);
        let s16 = at(16, one(arm), m2, h, c3);
        let s17 = at(17, two(arm, av), m2, h, c3);
        let s18 = at(18, one(JValue::Int(if av == arm { 1 } else { 0 })), m2, h, c3);
        assert(step(jvm, code, s10) =~~= Outcome::Running(s14));
        assert(step(jvm, code, s14) =~~= Outcome::Running(s15));
        assert(step(jvm, code, s15) =~~= Outcome::Running(s16));
        assert(step(jvm, code, s16) =~~= Outcome::Running(s17));
        assert(step(jvm, code, s17) =~~= Outcome::Running(s18));
        if av == arm {
            let x = JValue::Str("aarch64"@);
            let s19 = at(19, e, m2, h, c3);
            let s20 = at(20, one(x), m2, h, c3);
            let s21 = at(21, e, m1.insert(2, x), h, c3);
            assert(step(jvm, code, s18) =~~= Outcome::Running(s19));
            assert(step(jvm, code, s19) =~~= Outcome::Running(s20));
            assert(step(jvm, code, s20) =~~= Outcome::Running(s21));
            reveal_with_fuel(run, 19);
        } else {
            let s21 = at(21, e, m2, h, c3);
            assert(step(jvm, code, s18) =~~= Outcome::Running(s21));
            reveal_with_fuel(run, 17);
        }
    }
}

#[verifier::rlimit(30)]
#[verifier::spinoff_prover]
proof fn lemma_rp_os(jvm: Jvm, base: Seq<char>, arch: JValue, fuel: nat)
    requires
        answers_strings(jvm, base),
        fuel >= 13,
    ensures
        run(
            jvm,
            resource_path_listing(),
            at(
                21,
                Stack::Empty,
                Map::empty().insert(0, JValue::Str(base)).insert(1, lower_os_name(jvm)).insert(
                    2,
                    arch,
                ),
                Seq::empty(),
                first_three_calls(jvm),
            ),
            fuel,
        ) == run(
            jvm,
            resource_path_listing(),
            at(
                40,
                Stack::Empty,
                keyed_locals(jvm, base, arch, os_key(lower_os_name(jvm)->Str_0)),
                Seq::empty(),
                first_three_calls(jvm),
            ),
            (fuel - os_steps(lower_os_name(jvm)->Str_0)) as nat,
        ),
{
    lemma_resource_path_methods();
    lemma_resource_path_labels();
    lemma_slots_small(string_type(), string_type(), string_type());
    reveal_with_fuel(pop_n, 3);
    let code = resource_path_listing();
    let e = Stack::Empty;
    let h = Seq::<HeapObj>::empty();
    let lo = lower_os_name(jvm);
    let name = lo->Str_0;
    let m2 = Map::<int, JValue>::empty().insert(0, JValue::Str(base)).insert(1, lo).insert(2, arch);
    let c3 = first_three_calls(jvm);
    let s21 = at(21, e, m2, h, c3);
    let s22 = at(22, e, m2, h, c3);
    let s23 = at(23, one(lo), m2, h, c3);
    let s24 = at(24, two(lo, JValue::Str("windows"@)), m2, h, c3);
    let s25 = at(25, one(JValue::Int(if "windows"@.is_prefix_of(name) { 1 } else { 0 })), m2, h, c3);
    assert(step(jvm, code, s21) =~~= Outcome::Running(s22));
    assert(step(jvm, code, s22) =~~= Outcome::Running(s23));
    assert(step(jvm, code, s23) =~~= Outcome::Running(s24));
    assert(step(jvm, code, s24) =~~= Outcome::Running(s25));
    if "windows"@.is_prefix_of(name) {
        let o = JValue::Str("windows"@);
        let s26 = at(26, e, m2, h, c3);
        let s27 = at(27, one(o), m2, h, c3);
        let s28 = at(28, e, m2.insert(3, o), h, c3);
        let s40 = at(40, e, m2.insert(3, o), h, c3);
        assert(step(jvm, code, s25) =~~= Outcome::Running(s26));
        assert(step(jvm, code, s26) =~~= Outcome::Running(s27));
        assert(step(jvm, code, s27) =~~= Outcome::Running(s28));
        assert(step(jvm, code, s28) =~~= Outcome::Running(s40));
        reveal_with_fuel(run, 9);
    } else {
        let s29 = at(29, e, m2, h, c3);
        let s30 = at(30, e, m2, h, c3);
        let s31 = at(31, one(lo), m2, h, c3);
        let s32 = at(32, two(lo, JValue::Str("mac"@)), m2, h, c3);
        let s33 = at(33, one(JValue::Int(if "mac"@.is_prefix_of(name) { 1 } else { 0 })), m2, h, c3);
        assert(step(jvm, code, s25) =~~= Outcome::Running(s29));
        assert(step(jvm, code, s29) =~~= Outcome::Running(s30));
        assert(step(jvm, code, s30) =~~= Outcome::Running(s31));
        assert(step(jvm, code, s31) =~~= Outcome::Running(s32));
        assert(step(jvm, code, s32) =~~= Outcome::Running(s33));
        if "mac"@.is_prefix_of(name) {
            let o = JValue::Str("macos"@);
            let s34 = at(34, e, m2, h, c3);
            let s35 = at(35, one(o), m2, h, c3);
            let s36 = at(36, e, m2.insert(3, o), h, c3);
            let s40 = at(40, e, m2.insert(3, o), h, c3);
            assert(step(jvm, code, s33) =~~= Outcome::Running(s34));
            assert(step(jvm, code, s34) =~~= Outcome::Running(s35));
            assert(step(jvm, code, s35) =~~= Outcome::Running(s36));
            assert(step(jvm, code, s36) =~~= Outcome::Running(s40));
            reveal_with_fuel(run, 14);
        } else {
            let o = JValue::Str("linux"@);
            let s37 = at(37, e, m2, h, c3);
            let s38 = at(38, e, m2, h, c3);
            let s39 = at(39, one(o), m2, h, c3);
            let s40 = at(40, e, m2.insert(3, o), h, c3);
            assert(step(jvm, code, s33) =~~= Outcome::Running(s37));
            assert(step(jvm, code, s37) =~~= Outcome::Running(s38));
            assert(step(jvm, code, s38) =~~= Outcome::Running(s39));
            assert(step(jvm, code, s39) =~~= Outcome::Running(s40));
            reveal_with_fuel(run, 14);
        }
    }
}

/// `o` returns the in-jar path of the native library,
/// `"/native/" + os_key(os.name lower-cased) + "-" + arch_name(os.arch) + "/" + mapLibraryName(base)`,
/// after the four calls of [`resource_path_calls`] and without writing a static field.
pub open spec fn returns_resource_path(jvm: Jvm, base: Seq<char>, o: Outcome) -> bool {
    &&& o matches Outcome::Returned(Some(v), st)
    &&& v == JValue::Str(
        resource_path_of(
            os_key(lower_os_name(jvm)->Str_0),
            arch_name(os_arch(jvm)),
            appended_text(lib_file_name(jvm, base)),
        ),
    )
    &&& st.calls == resource_path_calls(jvm, base)
    &&& st.statics == Map::<(Seq<char>, Seq<char>), JValue>::empty()
}

/// Run on any JVM that answers its calls with strings (`os.arch` possibly
/// null), `resourcePath()` returns the library's in-jar path.
pub proof fn lemma_resource_path_run(jvm: Jvm, base: Seq<char>)
    requires
        answers_strings(jvm, base),
    ensures
        returns_resource_path(
            jvm,
            base,
            run_method(jvm, resource_path_listing(), Map::empty().insert(0, JValue::Str(base))),
        ),
{
    let raw = os_arch(jvm);
    let lo = lower_os_name(jvm)->Str_0;
    lemma_rp_arch(jvm, base, 61);
    let f1 = (61 - arch_steps(raw)) as nat;
    lemma_rp_os(jvm, base, arch_value(raw), f1);
    let f2 = (f1 - os_steps(lo)) as nat;
    lemma_rp_compose(jvm, base, arch_value(raw), os_key(lo), f2);
    assert(appended_text(arch_value(raw)) == arch_name(raw)) by {
        reveal_strlit("amd64");
        reveal_strlit("arm64");
    }
}

/// Run on any JVM that answers its calls with strings (`os.arch` possibly
/// null), the code returns the native library's in-jar path.
pub open spec fn computes_resource_path(code: Seq<InsnView>) -> bool {
    forall|jvm: Jvm, base: Seq<char>|
        answers_strings(jvm, base) ==> returns_resource_path(
            jvm,
            base,
            #[trigger] run_method(jvm, code, Map::empty().insert(0, JValue::Str(base))),
        )
}

/// [`lemma_resource_path_run`] for every JVM at once.
pub proof fn lemma_resource_path_runs(code: Seq<InsnView>)
    requires
        code == resource_path_listing(),
    ensures
        computes_resource_path(code),
{
    assert forall|jvm: Jvm, base: Seq<char>| answers_strings(jvm, base) implies returns_resource_path(
        jvm,
        base,
        #[trigger] run_method(jvm, code, Map::empty().insert(0, JValue::Str(base))),
    ) by {
        lemma_resource_path_run(jvm, base);
    }
}

/// The path `resourcePath()` returns is `/` and the jar entry the builder
/// stores a library under, for the platform key made of the JVM's operating
/// system and architecture as the builder names them, and the file name
/// `System.mapLibraryName` gives.
pub proof fn lemma_resource_path_is_jar_entry(jvm: Jvm, base: Seq<char>, o: Outcome)
    requires
        returns_resource_path(jvm, base, o),
    ensures
        o matches Outcome::Returned(Some(JValue::Str(p)), _) && p == seq!['/'] + lib_entry_of(
            platform_key_of(os_key(lower_os_name(jvm)->Str_0), arch_name(os_arch(jvm))),
            appended_text(lib_file_name(jvm, base)),
        ),
{
    let os = os_key(lower_os_name(jvm)->Str_0);
    let arch = arch_name(os_arch(jvm));
    let f = appended_text(lib_file_name(jvm, base));
    reveal_strlit("-");
    reveal_strlit("/");
    reveal_strlit("/native/");
    reveal_strlit("native/");
    assert(resource_path_of(os, arch, f) =~= seq!['/'] + lib_entry_of(platform_key_of(os, arch), f));
}

/// `c` lower-cased if it is an ASCII capital letter.
pub open spec fn ascii_lower(c: char) -> char {
    if 'A' <= c && c <= 'Z' {
        ((c as int) + 32) as char
    } else {
        c
    }
}

/// An ASCII character other than `I` and `J`: the characters whose lower
/// case `String.toLowerCase()` gives alike in every locale (Turkish and
/// Azeri lower `I` otherwise, Lithuanian treats `I` and `J` apart).
pub open spec fn is_plain_ascii(c: char) -> bool {
    (c as int) < 128 && c != 'I' && c != 'J'
}

/// Every character of `s` is [`is_plain_ascii`].
pub open spec fn plain_ascii(s: Seq<char>) -> bool {
    forall|j: int| 0 <= j < s.len() ==> is_plain_ascii(#[trigger] s[j])
}

/// `lower` is a string that `name.toLowerCase()` may give in some locale:
/// on any prefix of `name` made of [`is_plain_ascii`] characters it is the
/// ASCII lower case of that prefix.
pub open spec fn is_lower_case_of(name: Seq<char>, lower: JValue) -> bool {
    &&& lower is Str
    &&& forall|k: int|
        0 <= k <= name.len() && #[trigger] plain_ascii(name.take(k)) ==> k <= lower->Str_0.len()
            && lower->Str_0.take(k) == name.take(k).map_values(|c: char| ascii_lower(c))
}

/// The `os.name` a JVM reports on the operating system that Rust's
/// `env::consts::OS` names `rust_os`: `Linux` on Linux, a name starting
/// `Windows` (`Windows 11`, ...) on Windows, one starting `Mac` (`Mac OS X`)
/// on macOS.
pub open spec fn usual_os_name(rust_os: Seq<char>, name: Seq<char>) -> bool {
    ||| rust_os == "linux"@ && name == "Linux"@
    ||| rust_os == "windows"@ && "Windows"@.is_prefix_of(name)
    ||| rust_os == "macos"@ && "Mac"@.is_prefix_of(name)
}

/// The `os.arch` a JVM reports on the architecture that Rust's
/// `env::consts::ARCH` names `rust_arch`: `amd64` or `x86_64` for `x86_64`,
/// `aarch64` or `arm64` for `aarch64`.
pub open spec fn usual_os_arch(rust_arch: Seq<char>, arch: Seq<char>) -> bool {
    ||| rust_arch == "x86_64"@ && (arch == "amd64"@ || arch == "x86_64"@)
    ||| rust_arch == "aarch64"@ && (arch == "aarch64"@ || arch == "arm64"@)
}

/// The lower case of `name`'s first `k` characters, when they are the plain
/// ASCII `p`, begins `lower`.
proof fn lemma_lower_prefix(name: Seq<char>, lower: JValue, p: Seq<char>)
    requires
        is_lower_case_of(name, lower),
        p.is_prefix_of(name),
        plain_ascii(p),
    ensures
        p.len() <= lower->Str_0.len(),
        lower->Str_0.take(p.len() as int) == p.map_values(|c: char| ascii_lower(c)),
{
    assert(name.take(p.len() as int) =~= p);
}

/// On such a JVM the loader's keys are Rust's names.
pub proof fn lemma_platform_keys_agree(
    rust_os: Seq<char>,
    rust_arch: Seq<char>,
    name: Seq<char>,
    lower: JValue,
    arch: Seq<char>,
)
    requires
        usual_os_name(rust_os, name),
        is_lower_case_of(name, lower),
        usual_os_arch(rust_arch, arch),
    ensures
        os_key(lower->Str_0) == rust_os,
        arch_key(arch) == rust_arch,
{
    reveal_strlit("linux");
    reveal_strlit("Linux");
    reveal_strlit("windows");
    reveal_strlit("Windows");
    reveal_strlit("mac");
    reveal_strlit("Mac");
    reveal_strlit("macos");
    reveal_strlit("amd64");
    reveal_strlit("x86_64");
    reveal_strlit("arm64");
    reveal_strlit("aarch64");
    let l = lower->Str_0;
    if rust_os == "linux"@ && name == "Linux"@ {
        let p = "Linux"@;
        assert(plain_ascii(p));
        lemma_lower_prefix(name, lower, p);
        assert(l.take(5)[0] == ascii_lower('L'));
        assert(l[0] == 'l');
        assert(!"windows"@.is_prefix_of(l)) by {
            if "windows"@.is_prefix_of(l) {
                assert(l.subrange(0, 7)[0] == "windows"@[0]);
            }
        }
        assert(!"mac"@.is_prefix_of(l)) by {
            if "mac"@.is_prefix_of(l) {
                assert(l.subrange(0, 3)[0] == "mac"@[0]);
            }
        }
    } else if rust_os == "windows"@ && "Windows"@.is_prefix_of(name) {
        let p = "Windows"@;
        assert(plain_ascii(p));
        lemma_lower_prefix(name, lower, p);
        assert(p.map_values(|c: char| ascii_lower(c)) =~= "windows"@);
        assert(l.subrange(0, 7) =~= l.take(7));
    } else {
        let p = "Mac"@;
        assert(rust_os == "macos"@ && p.is_prefix_of(name));
        assert(plain_ascii(p));
        lemma_lower_prefix(name, lower, p);
        assert(p.map_values(|c: char| ascii_lower(c)) =~= "mac"@);
        assert(l.subrange(0, 3) =~= l.take(3));
        assert(!"windows"@.is_prefix_of(l)) by {
            if "windows"@.is_prefix_of(l) {
                assert(l.subrange(0, 7)[0] == "windows"@[0]);
                assert(l.take(3)[0] == "mac"@[0]);
            }
        }
    }
    assert("amd64"@.len() == 5);
    assert("arm64"@.len() == 5);
    if arch == "arm64"@ {
        assert(arch[1] != "amd64"@[1]);
    }
}

/// The JVM side and the builder agree on the platform directory: run on a
/// JVM whose `os.name` and `os.arch` are the usual ones for Rust's `rust_os`
/// and `rust_arch`, whose `toLowerCase()` lower-cases as `String` does in
/// some locale, whose `mapLibraryName(base)` answers with a string (or null),
/// and where none of these calls throws (as `System.getProperty` may under a
/// security manager), `resourcePath(base)` returns `/` and the jar entry the builder
/// stores the library under for the host key `<rust_os>-<rust_arch>`.
pub proof fn lemma_resource_path_matches_host(
    jvm: Jvm,
    base: Seq<char>,
    rust_os: Seq<char>,
    rust_arch: Seq<char>,
    name: Seq<char>,
    arch: Seq<char>,
)
    requires
        os_name(jvm) == JValue::Str(name),
        usual_os_name(rust_os, name),
        is_lower_case_of(name, lower_os_name(jvm)),
        os_arch(jvm) == JValue::Str(arch),
        usual_os_arch(rust_arch, arch),
        lib_file_name(jvm, base) is Str || lib_file_name(jvm, base) is Null,
        resource_path_calls_return(jvm, base),
    ensures
        run_method(jvm, resource_path_listing(), Map::empty().insert(0, JValue::Str(base)))
            matches Outcome::Returned(Some(JValue::Str(p)), _) && p == seq!['/'] + lib_entry_of(
            platform_key_of(rust_os, rust_arch),
            appended_text(lib_file_name(jvm, base)),
        ),
{
    lemma_platform_keys_agree(rust_os, rust_arch, name, lower_os_name(jvm), arch);
    lemma_resource_path_run(jvm, base);
    lemma_resource_path_is_jar_entry(
        jvm,
        base,
        run_method(jvm, resource_path_listing(), Map::empty().insert(0, JValue::Str(base))),
    );
}

} // verus!
