//! Mixin classes described from the Rust side: the `@Inject` handlers of
//! each Mixin and the native methods they call.

use vstd::prelude::*;
use crate::bytecode::{Code, CodeBody, Insn, branch_free};
use crate::descriptor::{JavaType, MethodDesc, method_descriptor};
use crate::inject::{clone_str, str_eq};
use crate::javacode::{print_via_native_code, prints_native_result};
use crate::names::CALLBACK_INFO;

verus! {

/// One `native static` method placed on `com.example.runtime.NativePayloads`.
pub struct NativeMethod {
    pub name: String,
    pub descriptor: String,
}

/// Injection point of an `@Inject` handler.
#[derive(Debug, Clone, Copy)]
pub enum MixinAt {
    Head,
    Return,
}

impl MixinAt {
    pub open spec fn spec_name(self) -> Seq<char> {
        match self {
            MixinAt::Head => "HEAD"@,
            MixinAt::Return => "RETURN"@,
        }
    }

    /// The `@At` value: `HEAD` or `RETURN`.
    pub fn to_string(&self) -> (r: String)
        ensures
            r@ == self.spec_name(),
    {
        match self {
            MixinAt::Head => "HEAD".to_owned(),
            MixinAt::Return => "RETURN".to_owned(),
        }
    }
}

/// What a generated handler does.
#[derive(Debug, Clone, Copy)]
pub enum HandlerBody {
    /// Load the Mixin's native library, call the handler's native method and
    /// print the `String` it returns.
    PrintNativeResult,
}

/// One `@Inject` handler method of a generated Mixin class.
pub struct MixinMethod {
    pub name: String,
    pub target_method: String,
    /// Arguments of the target method. With the trailing `CallbackInfo`
    /// they give the descriptor of both the handler and its native method.
    pub target_args: Vec<JavaType>,
    pub at: MixinAt,
    pub cancellable: bool,
    pub exceptions: Vec<String>,
    /// Name of the native static method on `NativePayloads` (the Rust
    /// `#[inject]` function's name).
    pub native_name: String,
    pub code: HandlerBody,
}

/// `target_args` followed by `CallbackInfo`, returning `void`.
pub open spec fn handler_descriptor(target_args: Seq<JavaType>) -> Seq<char> {
    method_descriptor(target_args.push(JavaType::Object(CALLBACK_INFO)), None)
}

impl MixinMethod {
    /// Descriptor shared by the handler and its native static method:
    /// the target method's arguments, then `CallbackInfo`; returns `void`.
    pub fn descriptor(&self) -> (r: String)
        ensures
            r@ == handler_descriptor(self.target_args@),
    {
        let mut args: Vec<JavaType> = Vec::new();
        let mut i: usize = 0;
        while i < self.target_args.len()
            invariant
                i <= self.target_args@.len(),
                args@ == self.target_args@.subrange(0, i as int),
            decreases self.target_args@.len() - i,
        {
            args.push(self.target_args[i]);
            assert(args@ =~= self.target_args@.subrange(0, i + 1));
            i = i + 1;
        }
        assert(args@ =~= self.target_args@);
        args.push(JavaType::Object(CALLBACK_INFO));
        let d = MethodDesc { args, ret: None };
        d.descriptor()
    }

    /// The handler's body, for a Mixin whose native library is `native_lib_name`.
    pub fn handler_code(&self, native_lib_name: &str) -> (b: CodeBody)
        ensures
            b.is_stack_safe(),
            branch_free(b.insns@),
            prints_native_result(b.insns@, "ensure_"@ + native_lib_name@, self.native_name@),
    {
        match self.code {
            HandlerBody::PrintNativeResult => print_via_native_code(
                native_lib_name,
                self.native_name.as_str(),
            ),
        }
    }
}

impl JavaType {
    /// Pushes the local variable in `slot` onto the operand stack with the
    /// load instruction of this type.
    pub fn emit_load(&self, c: &mut Code, slot: u16)
        requires
            old(c).wf(),
            old(c).room(0, self.spec_slot_size()),
        ensures
            final(c).wf(),
            final(c).insns() == old(c).insns().push(load_insn(*self, slot)),
            reads_local(final(c).insns().last(), *self, slot),
            final(c).depth() == old(c).depth() + self.spec_slot_size(),
            final(c).max() == old(c).max(),
            final(c).reachable(),
            final(c).same_labels(old(c)),
    {
        match self {
            JavaType::Long => c.lload(slot),
            JavaType::Double => c.dload(slot),
            JavaType::Float => c.fload(slot),
            JavaType::Object(_) | JavaType::Array(_) => c.aload(slot),
            JavaType::Int | JavaType::Boolean | JavaType::Byte | JavaType::Short | JavaType::Char => c.iload(slot),
        }
        proof {
            lemma_load_insn_reads_slot(*self, slot);
        }
    }
}

/// The load instruction of a type: `lload`, `dload`, `fload`, `aload` for
/// references, `iload` for `int` and the narrower integer types.
pub open spec fn load_insn(t: JavaType, slot: u16) -> Insn {
    match t {
        JavaType::Long => Insn::Lload(slot),
        JavaType::Double => Insn::Dload(slot),
        JavaType::Float => Insn::Fload(slot),
        JavaType::Object(_) | JavaType::Array(_) => Insn::Aload(slot),
        _ => Insn::Iload(slot),
    }
}

/// `i` reads local variable `slot` with the load instruction a value of
/// type `t` needs: `aload` for references, `lload`, `dload`, `fload` for
/// `long`, `double`, `float`, `iload` for `int` and the narrower types.
pub open spec fn reads_local(i: Insn, t: JavaType, slot: u16) -> bool {
    match i {
        Insn::Aload(k) => k == slot && (t is Object || t is Array),
        Insn::Lload(k) => k == slot && t is Long,
        Insn::Dload(k) => k == slot && t is Double,
        Insn::Fload(k) => k == slot && t is Float,
        Insn::Iload(k) => k == slot && (t is Int || t is Boolean || t is Byte || t is Short
            || t is Char),
        _ => false,
    }
}

/// For every type and slot, the load instruction of the type reads that
/// slot, with the instruction that type's values are loaded by.
pub proof fn lemma_load_insn_reads_slot(t: JavaType, slot: u16)
    ensures
        reads_local(load_insn(t, slot), t, slot),
{
}

/// The (name, descriptor) pair a handler needs on `NativePayloads`.
pub open spec fn native_key(m: MixinMethod) -> (Seq<char>, Seq<char>) {
    (m.native_name@, handler_descriptor(m.target_args@))
}

pub open spec fn native_keys(ms: Seq<MixinMethod>) -> Seq<(Seq<char>, Seq<char>)> {
    Seq::new(ms.len(), |i: int| native_key(ms[i]))
}

pub open spec fn native_method_views(ns: Seq<NativeMethod>) -> Seq<(Seq<char>, Seq<char>)> {
    Seq::new(ns.len(), |i: int| (ns[i].name@, ns[i].descriptor@))
}

/// The pairs of `s` without repeats, each kept where it first occurs.
pub open spec fn dedup<A>(s: Seq<A>) -> Seq<A>
    decreases s.len(),
{
    if s.len() == 0 {
        Seq::empty()
    } else {
        let d = dedup(s.drop_last());
        if d.contains(s.last()) {
            d
        } else {
            d.push(s.last())
        }
    }
}

/// `dedup` holds no repeats and exactly the elements of its input.
pub proof fn lemma_dedup<A>(s: Seq<A>)
    ensures
        dedup(s).no_duplicates(),
        forall|x: A| #[trigger] dedup(s).contains(x) <==> s.contains(x),
    decreases s.len(),
{
    if s.len() > 0 {
        let init = s.drop_last();
        lemma_dedup(init);
        let d = dedup(init);
        assert forall|x: A| #[trigger] s.contains(x) <==> init.contains(x) || x == s.last() by {
            if s.contains(x) {
                let k = choose|k: int| 0 <= k < s.len() && s[k] == x;
                if k < s.len() - 1 {
                    assert(init[k] == x);
                }
            }
            if init.contains(x) {
                let k = choose|k: int| 0 <= k < init.len() && init[k] == x;
                assert(s[k] == x);
            }
            if x == s.last() {
                assert(s[s.len() - 1] == x);
            }
        }
        if !d.contains(s.last()) {
            let e = d.push(s.last());
            assert forall|x: A| #[trigger] e.contains(x) <==> d.contains(x) || x == s.last() by {
                if e.contains(x) {
                    let k = choose|k: int| 0 <= k < e.len() && e[k] == x;
                    if k < d.len() {
                        assert(d[k] == x);
                    }
                }
                if d.contains(x) {
                    let k = choose|k: int| 0 <= k < d.len() && d[k] == x;
                    assert(e[k] == x);
                }
                if x == s.last() {
                    assert(e[d.len() as int] == x);
                }
            }
            assert forall|i: int, j: int| 0 <= i < e.len() && 0 <= j < e.len() && i != j implies e[i]
                != e[j] by {
                if i < d.len() && j < d.len() {
                } else if i < d.len() {
                    assert(d.contains(e[i]));
                } else {
                    assert(d.contains(e[j]));
                }
            }
        }
    }
}

fn contains_native(out: &Vec<NativeMethod>, name: &str, desc: &str) -> (r: bool)
    ensures
        r == native_method_views(out@).contains((name@, desc@)),
{
    let mut i: usize = 0;
    while i < out.len()
        invariant
            i <= out@.len(),
            forall|k: int| 0 <= k < i ==> native_method_views(out@)[k] != (name@, desc@),
        decreases out@.len() - i,
    {
        if str_eq(out[i].name.as_str(), name) && str_eq(out[i].descriptor.as_str(), desc) {
            assert(native_method_views(out@)[i as int] == (name@, desc@));
            return true;
        }
        i = i + 1;
    }
    false
}

/// The native methods the handlers `methods` call, by (name, descriptor),
/// each once, in order of first use.
pub fn dedupe_native_methods(methods: &Vec<MixinMethod>) -> (r: Vec<NativeMethod>)
    ensures
        native_method_views(r@) == dedup(native_keys(methods@)),
{
    let mut out: Vec<NativeMethod> = Vec::new();
    let mut i: usize = 0;
    assert(native_keys(methods@).subrange(0, 0) =~= Seq::<(Seq<char>, Seq<char>)>::empty());
    assert(native_method_views(out@) =~= Seq::<(Seq<char>, Seq<char>)>::empty());
    while i < methods.len()
        invariant
            i <= methods@.len(),
            native_method_views(out@) == dedup(native_keys(methods@).subrange(0, i as int)),
        decreases methods@.len() - i,
    {
        let m = &methods[i];
        let desc = m.descriptor();
        let ghost keys = native_keys(methods@);
        proof {
            assert(keys.subrange(0, i + 1).drop_last() =~= keys.subrange(0, i as int));
            assert(keys.subrange(0, i + 1).last() == keys[i as int]);
            assert(keys[i as int] == (m.native_name@, desc@));
        }
        if !contains_native(&out, m.native_name.as_str(), desc.as_str()) {
            let ghost prev = native_method_views(out@);
            out.push(NativeMethod { name: clone_str(m.native_name.as_str()), descriptor: desc });
            assert(native_method_views(out@) =~= prev.push(keys[i as int]));
        }
        i = i + 1;
    }
    assert(native_keys(methods@).subrange(0, methods@.len() as int) =~= native_keys(methods@));
    out
}

/// A Mixin class as the builder sees it: what it targets, its handlers and
/// the native library they call into.
pub trait MixinClass {
    /// Internal name of the target class.
    spec fn spec_target_class(&self) -> Seq<char>;

    /// `ms` is the list of handlers [`MixinClass::methods`] returns.
    spec fn is_handler_list(&self, ms: Seq<MixinMethod>) -> bool;

    /// Simple name of the generated Mixin class.
    spec fn spec_mixin_class_simple_name(&self) -> Seq<char>;

    /// Name of the cdylib the handlers' payloads live in.
    spec fn spec_native_lib_name(&self) -> Seq<char>;

    fn target_class(&self) -> (r: String)
        ensures
            r@ == self.spec_target_class(),
    ;

    /// `L<target_class>;`
    fn target_class_descriptor(&self) -> (r: String)
        ensures
            r@ == seq!['L'] + self.spec_target_class() + seq![';'],
    {
        let mut s = String::new();
        crate::text::push_char(&mut s, 'L');
        let t = self.target_class();
        s.append(t.as_str());
        crate::text::push_char(&mut s, ';');
        s
    }

    fn mixin_class_simple_name(&self) -> (r: String)
        ensures
            r@ == self.spec_mixin_class_simple_name(),
    ;

    /// Name of the cdylib (the `[[example]]` name) this Mixin's payloads live in.
    fn native_lib_name(&self) -> (r: String)
        ensures
            r@ == self.spec_native_lib_name(),
    ;

    fn methods(&self) -> (r: Vec<MixinMethod>)
        ensures
            self.is_handler_list(r@),
    ;

    /// The native methods to declare: by default those the handlers call,
    /// one per (name, descriptor) pair, in order of first use, so several
    /// `@Inject`s on one payload give one `native` declaration.
    fn native_methods(&self) -> (r: Vec<NativeMethod>)
        default_ensures
            exists|ms: Seq<MixinMethod>|
                self.is_handler_list(ms) && native_method_views(r@) == #[trigger] dedup(
                    native_keys(ms),
                ),
    {
        let ms = self.methods();
        dedupe_native_methods(&ms)
    }
}

/// Hooks `MinecraftServer#runServer` at its head and at its return, printing
/// what the payloads `hello` and `goodbye` return.
pub struct MinecraftServerMixin;

pub open spec fn string_ret() -> Option<JavaType> {
    Some(JavaType::Object("java/lang/String"))
}

fn run_server_handler(name: &str, at: MixinAt, native_name: &str) -> (m: MixinMethod)
    ensures
        m.name@ == name@,
        m.target_method@ == "runServer"@,
        m.target_args@.len() == 0,
        m.at == at,
        !m.cancellable,
        m.exceptions@.len() == 1,
        m.exceptions@[0]@ == "java/io/IOException"@,
        m.native_name@ == native_name@,
        m.code == HandlerBody::PrintNativeResult,
{
    let mut exceptions: Vec<String> = Vec::new();
    exceptions.push("java/io/IOException".to_owned());
    MixinMethod {
        name: name.to_owned(),
        target_method: "runServer".to_owned(),
        target_args: Vec::new(),
        at,
        cancellable: false,
        exceptions,
        native_name: native_name.to_owned(),
        code: HandlerBody::PrintNativeResult,
    }
}

fn native_string_method(name: &str) -> (n: NativeMethod)
    ensures
        n.name@ == name@,
        n.descriptor@ == method_descriptor(Seq::empty(), string_ret()),
{
    NativeMethod {
        name: name.to_owned(),
        descriptor: MethodDesc::new0(Some(JavaType::Object("java/lang/String"))).descriptor(),
    }
}

impl MinecraftServerMixin {
    /// `onRun` at `HEAD` calling `hello`, then `onRunReturn` at `RETURN`
    /// calling `goodbye`; both on `runServer()`, throwing `IOException`.
    pub open spec fn spec_handlers(methods: Seq<MixinMethod>) -> bool {
        &&& methods.len() == 2
        &&& methods[0].name@ == "onRun"@
        &&& methods[0].at == MixinAt::Head
        &&& methods[0].native_name@ == "hello"@
        &&& methods[1].name@ == "onRunReturn"@
        &&& methods[1].at == MixinAt::Return
        &&& methods[1].native_name@ == "goodbye"@
        &&& forall|i: int|
            0 <= i < 2 ==> {
                &&& (#[trigger] methods[i]).target_method@ == "runServer"@
                &&& methods[i].target_args@.len() == 0
                &&& !methods[i].cancellable
                &&& methods[i].exceptions@.len() == 1
                &&& methods[i].exceptions@[0]@ == "java/io/IOException"@
                &&& methods[i].code == HandlerBody::PrintNativeResult
            }
    }
}

impl MixinClass for MinecraftServerMixin {
    open spec fn spec_target_class(&self) -> Seq<char> {
        "net/minecraft/server/MinecraftServer"@
    }

    open spec fn is_handler_list(&self, ms: Seq<MixinMethod>) -> bool {
        MinecraftServerMixin::spec_handlers(ms)
    }

    open spec fn spec_mixin_class_simple_name(&self) -> Seq<char> {
        "MinecraftServerMixin"@
    }

    open spec fn spec_native_lib_name(&self) -> Seq<char> {
        "minecraft_server"@
    }

    fn target_class(&self) -> (r: String) {
        "net/minecraft/server/MinecraftServer".to_owned()
    }

    fn mixin_class_simple_name(&self) -> (r: String) {
        "MinecraftServerMixin".to_owned()
    }

    fn native_lib_name(&self) -> (r: String) {
        "minecraft_server".to_owned()
    }

    fn methods(&self) -> (r: Vec<MixinMethod>) {
        let mut v: Vec<MixinMethod> = Vec::new();
        v.push(run_server_handler("onRun", MixinAt::Head, "hello"));
        v.push(run_server_handler("onRunReturn", MixinAt::Return, "goodbye"));
        v
    }

    /// `hello` and `goodbye`, both `()Ljava/lang/String;`: the payloads
    /// return a `String` to print.
    fn native_methods(&self) -> (r: Vec<NativeMethod>)
        ensures
            native_method_views(r@) == seq![
                ("hello"@, method_descriptor(Seq::empty(), string_ret())),
                ("goodbye"@, method_descriptor(Seq::empty(), string_ret())),
            ],
    {
        let mut v: Vec<NativeMethod> = Vec::new();
        v.push(native_string_method("hello"));
        v.push(native_string_method("goodbye"));
        assert(native_method_views(v@) =~= seq![
            ("hello"@, method_descriptor(Seq::empty(), string_ret())),
            ("goodbye"@, method_descriptor(Seq::empty(), string_ret())),
        ]);
        v
    }
}

} // verus!
