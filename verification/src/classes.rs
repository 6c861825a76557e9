//! The classes of the mod jar, as data: each generated Mixin class, the
//! `NativePayloads` holder of the `native` declarations and the
//! `NativeLoader` that extracts and loads the bundled library.

use vstd::prelude::*;
use crate::bytecode::{CodeBody, branch_free, listing};
use crate::ensure_run::performs_ensure_loaded;
use crate::loader_run::computes_resource_path;
use crate::descriptor::{JavaType, MethodDesc, method_descriptor};
use crate::javacode::{
    ensure_loaded_code, init_code, init_listing, on_run_code, prints_native_result,
    resource_path_code,
};
use crate::ensure_run::ensure_loaded_listing;
use crate::loader_run::resource_path_listing;
use crate::names::{
    AT_ANNOTATION, CALLBACK_INFO, INJECT_ANNOTATION, MIXIN_ANNOTATION, MIXIN_PACKAGE_INTERNAL,
    NATIVE_LIB_BASENAME,
    NATIVE_LOADER_INTERNAL, NATIVE_PAYLOADS_OWNER,
};
use crate::record::InjectMeta;
use crate::mixins::{MixinClass, MixinMethod, NativeMethod, handler_descriptor, native_method_views};

verus! {

/// Access flags of a field or method (JVM specification §4.5, §4.6).
#[derive(Clone, Copy)]
pub struct AccessFlags {
    pub is_public: bool,
    pub is_private: bool,
    pub is_static: bool,
    pub is_synchronized: bool,
    pub is_native: bool,
}

impl AccessFlags {
    pub open spec fn spec_bits(self) -> int {
        (if self.is_public { 0x0001int } else { 0 }) + (if self.is_private { 0x0002int } else { 0 })
            + (if self.is_static { 0x0008int } else { 0 }) + (if self.is_synchronized {
            0x0020int
        } else {
            0
        }) + (if self.is_native { 0x0100int } else { 0 })
    }

    /// The `access_flags` word.
    pub fn bits(&self) -> (r: u16)
        ensures
            r == self.spec_bits(),
    {
        let mut r: u16 = 0;
        if self.is_public {
            r = r + 0x0001;
        }
        if self.is_private {
            r = r + 0x0002;
        }
        if self.is_static {
            r = r + 0x0008;
        }
        if self.is_synchronized {
            r = r + 0x0020;
        }
        if self.is_native {
            r = r + 0x0100;
        }
        r
    }
}

pub open spec fn flags(
    public: bool,
    private: bool,
    stat: bool,
    sync: bool,
    native: bool,
) -> AccessFlags {
    AccessFlags {
        is_public: public,
        is_private: private,
        is_static: stat,
        is_synchronized: sync,
        is_native: native,
    }
}

/// An annotation element value.
pub enum ElementValue {
    Str(String),
    /// A class, by its descriptor.
    Class(String),
    Array(Vec<ElementValue>),
    Nested(Annotation),
    Boolean(bool),
}

/// An annotation: its type descriptor, whether it is runtime-visible, and
/// its `name = value` elements.
pub struct Annotation {
    pub type_desc: String,
    pub visible: bool,
    pub elements: Vec<(String, ElementValue)>,
}

pub struct FieldSpec {
    pub name: String,
    pub descriptor: String,
    pub access: AccessFlags,
}

pub struct MethodSpec {
    pub name: String,
    pub descriptor: String,
    pub access: AccessFlags,
    pub exceptions: Vec<String>,
    pub annotations: Vec<Annotation>,
    /// `None` for `native` methods.
    pub code: Option<CodeBody>,
}

/// A class file to write. `version` is `(major, minor)`; `None` leaves the
/// class-file writer's default, Java 5 (49.0).
pub struct ClassSpec {
    pub name: String,
    pub version: Option<(u16, u16)>,
    pub annotations: Vec<Annotation>,
    pub fields: Vec<FieldSpec>,
    pub methods: Vec<MethodSpec>,
}

/// A method has code exactly when it is not `native`, and that code is stack-safe.
pub open spec fn method_wf(m: MethodSpec) -> bool {
    &&& m.access.is_native <==> m.code is None
    &&& m.code matches Some(c) ==> c.is_stack_safe()
}

/// Class files of version 50 and later need a `StackMapTable` for code that
/// branches; this toolchain writes none, so such classes hold branch-free code only.
pub open spec fn needs_no_stack_map(c: ClassSpec) -> bool {
    forall|i: int|
        0 <= i < c.methods@.len() ==> ((#[trigger] c.methods@[i]).code matches Some(b) ==> (
        c.version matches Some(v) && v.0 >= 50 ==> branch_free(b.insns@)))
}

/// Every method is well formed and no `StackMapTable` is needed.
pub open spec fn class_wf(c: ClassSpec) -> bool {
    &&& forall|i: int| 0 <= i < c.methods@.len() ==> method_wf(#[trigger] c.methods@[i])
    &&& needs_no_stack_map(c)
}

/// `MIXIN_PACKAGE_INTERNAL/<class>`
pub open spec fn mixin_internal_name(class: Seq<char>) -> Seq<char> {
    MIXIN_PACKAGE_INTERNAL@ + seq!['/'] + class
}

/// Internal name of the Mixin class a record asks for.
pub fn class_internal_for(meta: &InjectMeta) -> (r: String)
    ensures
        r@ == mixin_internal_name(meta.class@),
{
    let mut s = MIXIN_PACKAGE_INTERNAL.to_owned();
    crate::text::push_char(&mut s, '/');
    s.append(meta.class.as_str());
    s
}

/// The part after the last `/` (all of `s` when there is none).
pub open spec fn last_segment(s: Seq<char>) -> Seq<char>
    decreases s.len(),
{
    if s.len() == 0 {
        Seq::empty()
    } else if s.last() == '/' {
        Seq::empty()
    } else {
        last_segment(s.drop_last()).push(s.last())
    }
}

/// The last segment of `s` holds no `/`, ends `s`, and is all of `s` or
/// comes right after a `/`.
pub proof fn lemma_last_segment(s: Seq<char>)
    ensures
        !last_segment(s).contains('/'),
        last_segment(s).len() <= s.len(),
        s.subrange(s.len() - last_segment(s).len(), s.len() as int) == last_segment(s),
        last_segment(s).len() < s.len() ==> s[s.len() - last_segment(s).len() - 1] == '/',
    decreases s.len(),
{
    if s.len() > 0 {
        let init = s.drop_last();
        lemma_last_segment(init);
        let r0 = last_segment(init);
        if s.last() == '/' {
            assert(s.subrange(s.len() as int, s.len() as int) =~= Seq::<char>::empty());
        } else {
            let r = r0.push(s.last());
            assert(s.subrange(s.len() - r.len(), s.len() as int) =~= init.subrange(
                init.len() - r0.len(),
                init.len() as int,
            ).push(s.last()));
            assert forall|i: int| 0 <= i < r.len() implies r[i] != '/' by {
                if i < r0.len() {
                    assert(r[i] == r0[i]);
                }
            }
            if r.len() < s.len() {
                assert(s[s.len() - r.len() - 1] == init[init.len() - r0.len() - 1]);
            }
        }
    }
}

/// The simple name of a class: its internal name after the last `/`.
pub fn simple_class_name(internal: &str) -> (r: String)
    ensures
        r@ == last_segment(internal@),
{
    let cs = crate::text::chars_of(internal);
    let mut start: usize = cs.len();
    assert(cs@.subrange(0, cs@.len() as int) =~= cs@);
    assert(cs@ + cs@.subrange(cs@.len() as int, cs@.len() as int) =~= cs@);
    while start > 0 && cs[start - 1] != '/'
        invariant
            start <= cs.len(),
            cs@ == internal@,
            last_segment(internal@) == last_segment(cs@.subrange(0, start as int)) + cs@.subrange(
                start as int,
                cs@.len() as int,
            ),
        decreases start,
    {
        proof {
            let p = cs@.subrange(0, start as int);
            assert(p.drop_last() =~= cs@.subrange(0, start - 1));
            assert(p.last() == cs@[start - 1]);
            assert(seq![cs@[start - 1]] + cs@.subrange(start as int, cs@.len() as int) =~= cs@.subrange(
                start - 1,
                cs@.len() as int,
            ));
            assert(last_segment(p) == last_segment(p.drop_last()).push(p.last()));
            assert(last_segment(p.drop_last()).push(p.last()) + cs@.subrange(
                start as int,
                cs@.len() as int,
            ) =~= last_segment(p.drop_last()) + cs@.subrange(start - 1, cs@.len() as int));
        }
        start = start - 1;
    }
    proof {
        let p = cs@.subrange(0, start as int);
        assert(last_segment(p) =~= Seq::<char>::empty());
    }
    let mut out = String::new();
    let mut i = start;
    while i < cs.len()
        invariant
            start <= i <= cs.len(),
            out@ == cs@.subrange(start as int, i as int),
        decreases cs.len() - i,
    {
        crate::text::push_char(&mut out, cs[i]);
        assert(out@ =~= cs@.subrange(start as int, i + 1));
        i = i + 1;
    }
    assert(cs@ == internal@);
    assert(cs@.subrange(0, cs@.len() as int) =~= cs@);
    out
}

/// A name holding no `/` is the simple name of the Mixin class named after it.
pub proof fn lemma_simple_name_of_mixin(class: Seq<char>)
    requires
        forall|i: int| 0 <= i < class.len() ==> class[i] != '/',
    ensures
        last_segment(mixin_internal_name(class)) == class,
    decreases class.len(),
{
    if class.len() == 0 {
        assert(mixin_internal_name(class).last() == '/');
    } else {
        let init = class.drop_last();
        lemma_simple_name_of_mixin(init);
        assert(mixin_internal_name(class).drop_last() =~= mixin_internal_name(init));
        assert(mixin_internal_name(class).last() == class.last());
        assert(init.push(class.last()) =~= class);
    }
}

fn no_flags() -> (f: AccessFlags)
    ensures
        f == flags(false, false, false, false, false),
{
    AccessFlags {
        is_public: false,
        is_private: false,
        is_static: false,
        is_synchronized: false,
        is_native: false,
    }
}

/// The default constructor: `<init>()V`, no exceptions or annotations, and
/// the body `aload_0; invokespecial java/lang/Object.<init>()V; return`.
pub open spec fn is_default_constructor(m: MethodSpec, public: bool) -> bool {
    &&& m.name@ == "<init>"@
    &&& m.descriptor@ == method_descriptor(Seq::empty(), None)
    &&& m.access == flags(public, !public, false, false, false)
    &&& m.exceptions@.len() == 0
    &&& m.annotations@.len() == 0
    &&& m.code matches Some(b) && b.is_stack_safe() && b.max_stack == 1 && branch_free(b.insns@)
        && listing(b.insns@) == init_listing()
}

/// The default constructor `<init>()V`, with the given visibility.
fn init_method(public: bool) -> (m: MethodSpec)
    ensures
        is_default_constructor(m, public),
{
    let mut access = no_flags();
    access.is_public = public;
    access.is_private = !public;
    MethodSpec {
        name: "<init>".to_owned(),
        descriptor: MethodDesc::new0(None).descriptor(),
        access,
        exceptions: Vec::new(),
        annotations: Vec::new(),
        code: Some(init_code()),
    }
}

/// The Mixin class for one `#[inject]` record: `@Mixin(value = {<target>})`,
/// class-file version 52 (`compatibilityLevel: JAVA_8`), a public default
/// constructor and a private handler
/// `@Inject(method = "<method>", at = {@At("<at>")}) void onRun(CallbackInfo)
/// throws IOException` whose body loads the native library and prints what
/// the payload `<fn_name>` returns.
pub open spec fn is_mixin_class_for(name: Seq<char>, c: ClassSpec, meta: InjectMeta) -> bool {
    &&& name == mixin_internal_name(meta.class@)
    &&& c.name@ == name
    &&& c.version == Some((52u16, 0u16))
    &&& c.fields@.len() == 0
    &&& c.annotations@.len() == 1
    &&& c.annotations@[0].type_desc@ == MIXIN_ANNOTATION@
    &&& !c.annotations@[0].visible
    &&& c.annotations@[0].elements@.len() == 1
    &&& c.annotations@[0].elements@[0].0@ == "value"@
    &&& c.annotations@[0].elements@[0].1 matches ElementValue::Array(v) && v@.len() == 1
        && (v@[0] matches ElementValue::Class(t) && t@ == meta.target@)
    &&& c.methods@.len() == 2
    &&& is_default_constructor(c.methods@[0], true)
    &&& c.methods@[1].name@ == "onRun"@
    &&& c.methods@[1].descriptor@ == method_descriptor(seq![JavaType::Object(CALLBACK_INFO)], None)
    &&& c.methods@[1].access == flags(false, true, false, false, false)
    &&& c.methods@[1].exceptions@.len() == 1
    &&& c.methods@[1].exceptions@[0]@ == "java/io/IOException"@
    &&& c.methods@[1].annotations@.len() == 1
    &&& is_inject_annotation(c.methods@[1].annotations@[0], meta.method@, meta.at@)
    &&& c.methods@[1].code matches Some(b) && prints_native_result(
        b.insns@,
        "ensure_"@ + NATIVE_LIB_BASENAME@,
        meta.fn_name@,
    )
}

/// `@Inject(method = "<method>", at = {@At("<at>")})`, runtime-visible.
pub open spec fn is_inject_annotation(a: Annotation, method: Seq<char>, at: Seq<char>) -> bool {
    &&& a.type_desc@ == INJECT_ANNOTATION@
    &&& a.visible
    &&& a.elements@.len() == 2
    &&& a.elements@[0].0@ == "method"@
    &&& a.elements@[0].1 matches ElementValue::Str(s) && s@ == method
    &&& a.elements@[1].0@ == "at"@
    &&& a.elements@[1].1 matches ElementValue::Array(v) && v@.len() == 1 && (v@[0] matches ElementValue::Nested(n)
        && n.type_desc@ == AT_ANNOTATION@ && n.visible && n.elements@.len() == 1
        && n.elements@[0].0@ == "value"@ && (n.elements@[0].1 matches ElementValue::Str(x) && x@ == at))
}

fn inject_annotation(method: &str, at: &str) -> (a: Annotation)
    ensures
        is_inject_annotation(a, method@, at@),
{
    let mut at_elements: Vec<(String, ElementValue)> = Vec::new();
    at_elements.push(("value".to_owned(), ElementValue::Str(at.to_owned())));
    let at_ann = Annotation {
        type_desc: AT_ANNOTATION.to_owned(),
        visible: true,
        elements: at_elements,
    };
    let mut ats: Vec<ElementValue> = Vec::new();
    ats.push(ElementValue::Nested(at_ann));
    let mut elements: Vec<(String, ElementValue)> = Vec::new();
    elements.push(("method".to_owned(), ElementValue::Str(method.to_owned())));
    elements.push(("at".to_owned(), ElementValue::Array(ats)));
    Annotation { type_desc: INJECT_ANNOTATION.to_owned(), visible: true, elements }
}

/// Internal name and contents of the Mixin class for `meta`.
pub fn mixin_class_for(meta: &InjectMeta) -> (r: (String, ClassSpec))
    ensures
        is_mixin_class_for(r.0@, r.1, *meta),
        class_wf(r.1),
{
    let class_internal = class_internal_for(meta);
    let mut targets: Vec<ElementValue> = Vec::new();
    targets.push(ElementValue::Class(crate::inject::clone_str(meta.target.as_str())));
    let mut elements: Vec<(String, ElementValue)> = Vec::new();
    elements.push(("value".to_owned(), ElementValue::Array(targets)));
    let mut annotations: Vec<Annotation> = Vec::new();
    annotations.push(
        Annotation { type_desc: MIXIN_ANNOTATION.to_owned(), visible: false, elements },
    );

    let mut handler_access = no_flags();
    handler_access.is_private = true;
    let mut exceptions: Vec<String> = Vec::new();
    exceptions.push("java/io/IOException".to_owned());
    let mut handler_annotations: Vec<Annotation> = Vec::new();
    handler_annotations.push(inject_annotation(meta.method.as_str(), meta.at.as_str()));
    let handler = MethodSpec {
        name: "onRun".to_owned(),
        descriptor: MethodDesc::new1(JavaType::Object(CALLBACK_INFO), None).descriptor(),
        access: handler_access,
        exceptions,
        annotations: handler_annotations,
        code: Some(on_run_code(meta.fn_name.as_str())),
    };
    let mut methods: Vec<MethodSpec> = Vec::new();
    methods.push(init_method(true));
    methods.push(handler);
    let c = ClassSpec {
        name: crate::inject::clone_str(class_internal.as_str()),
        version: Some((52, 0)),
        annotations,
        fields: Vec::new(),
        methods,
    };
    (class_internal, c)
}

/// `@Inject(method = "<method>", at = {@At("<at>")})`, with
/// `cancellable = true` after them when the handler is cancellable.
pub open spec fn is_handler_annotation(
    a: Annotation,
    method: Seq<char>,
    at: Seq<char>,
    cancellable: bool,
) -> bool {
    if cancellable {
        &&& a.elements@.len() == 3
        &&& a.elements@[2].0@ == "cancellable"@
        &&& a.elements@[2].1 == ElementValue::Boolean(true)
        &&& a.type_desc@ == INJECT_ANNOTATION@
        &&& a.visible
        &&& a.elements@[0].0@ == "method"@
        &&& a.elements@[0].1 matches ElementValue::Str(s) && s@ == method
        &&& a.elements@[1].0@ == "at"@
        &&& is_at_array(a.elements@[1].1, at)
    } else {
        is_inject_annotation(a, method, at)
    }
}

/// `{@At("<at>")}`.
pub open spec fn is_at_array(v: ElementValue, at: Seq<char>) -> bool {
    v matches ElementValue::Array(v) && v@.len() == 1 && (v@[0] matches ElementValue::Nested(n)
        && n.type_desc@ == AT_ANNOTATION@ && n.visible && n.elements@.len() == 1
        && n.elements@[0].0@ == "value"@ && (n.elements@[0].1 matches ElementValue::Str(x) && x@ == at))
}

/// The annotation of a handler.
fn handler_annotation(method: &str, at: &str, cancellable: bool) -> (a: Annotation)
    ensures
        is_handler_annotation(a, method@, at@, cancellable),
{
    let mut a = inject_annotation(method, at);
    if cancellable {
        a.elements.push(("cancellable".to_owned(), ElementValue::Boolean(true)));
    }
    a
}

/// The generated method of handler `h` of a Mixin whose library is `lib`:
/// private, named and typed as `h` says, throwing what `h` lists, with its
/// `@Inject`, and a body that loads `lib` and prints what the native method
/// `h.native_name` returns.
pub open spec fn is_handler_method(m: MethodSpec, h: MixinMethod, lib: Seq<char>) -> bool {
    &&& m.name@ == h.name@
    &&& m.descriptor@ == handler_descriptor(h.target_args@)
    &&& m.access == flags(false, true, false, false, false)
    &&& string_views(m.exceptions@) == string_views(h.exceptions@)
    &&& m.annotations@.len() == 1
    &&& is_handler_annotation(m.annotations@[0], h.target_method@, h.at.spec_name(), h.cancellable)
    &&& m.code matches Some(b) && b.is_stack_safe() && branch_free(b.insns@) && prints_native_result(
        b.insns@,
        "ensure_"@ + lib,
        h.native_name@,
    )
}

/// The Mixin class `com/example/mixin/<simple_name>`: `@Mixin(value =
/// {<target_desc>})`, version 52, a public default constructor and one
/// method per handler of `handlers`, in order.
pub open spec fn is_mixin_class_with(
    c: ClassSpec,
    simple_name: Seq<char>,
    target_desc: Seq<char>,
    lib: Seq<char>,
    handlers: Seq<MixinMethod>,
) -> bool {
    &&& c.name@ == mixin_internal_name(simple_name)
    &&& c.version == Some((52u16, 0u16))
    &&& c.fields@.len() == 0
    &&& c.annotations@.len() == 1
    &&& c.annotations@[0].type_desc@ == MIXIN_ANNOTATION@
    &&& !c.annotations@[0].visible
    &&& c.annotations@[0].elements@.len() == 1
    &&& c.annotations@[0].elements@[0].0@ == "value"@
    &&& c.annotations@[0].elements@[0].1 matches ElementValue::Array(v) && v@.len() == 1
        && (v@[0] matches ElementValue::Class(t) && t@ == target_desc)
    &&& c.methods@.len() == handlers.len() + 1
    &&& is_default_constructor(c.methods@[0], true)
    &&& forall|i: int|
        0 <= i < handlers.len() ==> is_handler_method(#[trigger] c.methods@[i + 1], handlers[i], lib)
}

fn clone_strings(v: &Vec<String>) -> (r: Vec<String>)
    ensures
        string_views(r@) == string_views(v@),
{
    let mut r: Vec<String> = Vec::new();
    let mut i: usize = 0;
    while i < v.len()
        invariant
            i <= v.len(),
            r@.len() == i,
            forall|k: int| 0 <= k < i ==> (#[trigger] r@[k])@ == v@[k]@,
        decreases v.len() - i,
    {
        r.push(crate::inject::clone_str(v[i].as_str()));
        i = i + 1;
    }
    assert(string_views(r@) =~= string_views(v@));
    r
}

/// The Mixin class named `simple_name`, targeting the class of descriptor
/// `target_desc`, holding `handlers` for the native library `lib`.
pub fn mixin_class_with(
    simple_name: &str,
    target_desc: &str,
    lib: &str,
    handlers: &Vec<MixinMethod>,
) -> (c: ClassSpec)
    ensures
        is_mixin_class_with(c, simple_name@, target_desc@, lib@, handlers@),
        class_wf(c),
{
    let mut name = MIXIN_PACKAGE_INTERNAL.to_owned();
    crate::text::push_char(&mut name, '/');
    name.append(simple_name);
    let mut targets: Vec<ElementValue> = Vec::new();
    targets.push(ElementValue::Class(crate::inject::clone_str(target_desc)));
    let mut elements: Vec<(String, ElementValue)> = Vec::new();
    elements.push(("value".to_owned(), ElementValue::Array(targets)));
    let mut annotations: Vec<Annotation> = Vec::new();
    annotations.push(
        Annotation { type_desc: MIXIN_ANNOTATION.to_owned(), visible: false, elements },
    );
    let mut methods: Vec<MethodSpec> = Vec::new();
    methods.push(init_method(true));
    let mut i: usize = 0;
    while i < handlers.len()
        invariant
            i <= handlers.len(),
            methods@.len() == i + 1,
            is_default_constructor(methods@[0], true),
            forall|k: int|
                0 <= k < i ==> is_handler_method(#[trigger] methods@[k + 1], handlers@[k], lib@),
        decreases handlers.len() - i,
    {
        let h = &handlers[i];
        let mut access = no_flags();
        access.is_private = true;
        let at = h.at.to_string();
        let mut hann: Vec<Annotation> = Vec::new();
        hann.push(handler_annotation(h.target_method.as_str(), at.as_str(), h.cancellable));
        methods.push(
            MethodSpec {
                name: crate::inject::clone_str(h.name.as_str()),
                descriptor: h.descriptor(),
                access,
                exceptions: clone_strings(&h.exceptions),
                annotations: hann,
                code: Some(h.handler_code(lib)),
            },
        );
        i = i + 1;
    }
    let c = ClassSpec { name, version: Some((52, 0)), annotations, fields: Vec::new(), methods };
    assert(c.name@ == mixin_internal_name(simple_name@));
    assert(c.annotations@[0].elements@[0].1 matches ElementValue::Array(v) && v@.len() == 1
        && (v@[0] matches ElementValue::Class(t) && t@ == target_desc@));
    assert(forall|i: int|
        0 <= i < handlers@.len() ==> is_handler_method(#[trigger] c.methods@[i + 1], handlers@[i], lib@));
    assert forall|k: int| 0 <= k < c.methods@.len() implies method_wf(#[trigger] c.methods@[k]) by {
        if k >= 1 {
            assert(c.methods@[(k - 1) + 1] == c.methods@[k]);
        }
    }
    assert forall|k: int| 0 <= k < c.methods@.len() implies ((#[trigger] c.methods@[k]).code matches Some(b) ==> (
        c.version matches Some(v) && v.0 >= 50 ==> branch_free(b.insns@))) by {
        if k >= 1 {
            assert(c.methods@[(k - 1) + 1] == c.methods@[k]);
        }
    }
    c
}

/// The Mixin class of the `MixinClass` impl `m`: its simple name, target
/// class and library, and the handlers `m.methods()` gives.
pub fn mixin_class_from<M: MixinClass>(m: &M) -> (r: (String, ClassSpec))
    ensures
        r.0@ == mixin_internal_name(m.spec_mixin_class_simple_name()),
        exists|hs: Seq<MixinMethod>|
            m.is_handler_list(hs) && #[trigger] is_mixin_class_with(
                r.1,
                m.spec_mixin_class_simple_name(),
                seq!['L'] + m.spec_target_class() + seq![';'],
                m.spec_native_lib_name(),
                hs,
            ),
        class_wf(r.1),
{
    let simple = m.mixin_class_simple_name();
    let target = m.target_class_descriptor();
    let lib = m.native_lib_name();
    let handlers = m.methods();
    let c = mixin_class_with(simple.as_str(), target.as_str(), lib.as_str(), &handlers);
    assert(is_mixin_class_with(
        c,
        m.spec_mixin_class_simple_name(),
        seq!['L'] + m.spec_target_class() + seq![';'],
        m.spec_native_lib_name(),
        handlers@,
    ));
    assert(m.is_handler_list(handlers@));
    let name = crate::inject::clone_str(c.name.as_str());
    let r = (name, c);
    assert(m.is_handler_list(handlers@) && is_mixin_class_with(
        r.1,
        m.spec_mixin_class_simple_name(),
        seq!['L'] + m.spec_target_class() + seq![';'],
        m.spec_native_lib_name(),
        handlers@,
    ));
    r
}

/// `NativePayloads` declaring exactly `natives`: a private constructor and,
/// for each, `public static native <name><descriptor>`.
pub open spec fn is_native_holder(c: ClassSpec, natives: Seq<(Seq<char>, Seq<char>)>) -> bool {
    &&& c.name@ == NATIVE_PAYLOADS_OWNER@
    &&& c.version is None
    &&& c.annotations@.len() == 0
    &&& c.fields@.len() == 0
    &&& c.methods@.len() == natives.len() + 1
    &&& is_default_constructor(c.methods@[0], false)
    &&& forall|i: int|
        0 <= i < natives.len() ==> {
            let m = #[trigger] c.methods@[i + 1];
            &&& m.name@ == natives[i].0
            &&& m.descriptor@ == natives[i].1
            &&& m.access == flags(true, false, true, false, true)
            &&& m.code is None
            &&& m.exceptions@.len() == 0
            &&& m.annotations@.len() == 0
        }
}

/// `NativePayloads` for the native methods the Mixin classes declare.
pub fn native_holder_class(natives: &Vec<NativeMethod>) -> (c: ClassSpec)
    ensures
        is_native_holder(c, native_method_views(natives@)),
        class_wf(c),
{
    let mut methods: Vec<MethodSpec> = Vec::new();
    methods.push(init_method(false));
    let ghost nv = native_method_views(natives@);
    let mut i: usize = 0;
    while i < natives.len()
        invariant
            i <= natives.len(),
            nv == native_method_views(natives@),
            methods@.len() == i + 1,
            is_default_constructor(methods@[0], false),
            forall|k: int|
                0 <= k < i ==> {
                    let m = #[trigger] methods@[k + 1];
                    &&& m.name@ == nv[k].0
                    &&& m.descriptor@ == nv[k].1
                    &&& m.access == flags(true, false, true, false, true)
                    &&& m.code is None
                    &&& m.exceptions@.len() == 0
                    &&& m.annotations@.len() == 0
                },
        decreases natives.len() - i,
    {
        let mut access = no_flags();
        access.is_public = true;
        access.is_static = true;
        access.is_native = true;
        methods.push(
            MethodSpec {
                name: crate::inject::clone_str(natives[i].name.as_str()),
                descriptor: crate::inject::clone_str(natives[i].descriptor.as_str()),
                access,
                exceptions: Vec::new(),
                annotations: Vec::new(),
                code: None,
            },
        );
        i = i + 1;
    }
    let c = ClassSpec {
        name: NATIVE_PAYLOADS_OWNER.to_owned(),
        version: None,
        annotations: Vec::new(),
        fields: Vec::new(),
        methods,
    };
    assert forall|k: int| 0 <= k < c.methods@.len() implies method_wf(#[trigger] c.methods@[k]) by {
        if k > 0 {
            assert(c.methods@[(k - 1) + 1] == c.methods@[k]);
        }
    }
    c
}

/// The holder class of every native method: a private constructor and, for
/// each record in order, `public static native String <fn_name>()`.
pub open spec fn is_native_payloads_class(c: ClassSpec, metas: Seq<InjectMeta>) -> bool {
    &&& c.name@ == NATIVE_PAYLOADS_OWNER@
    &&& c.version is None
    &&& c.annotations@.len() == 0
    &&& c.fields@.len() == 0
    &&& c.methods@.len() == metas.len() + 1
    &&& is_default_constructor(c.methods@[0], false)
    &&& forall|i: int|
        0 <= i < metas.len() ==> {
            let m = #[trigger] c.methods@[i + 1];
            &&& m.name@ == metas[i].fn_name@
            &&& m.descriptor@ == method_descriptor(
                Seq::empty(),
                Some(JavaType::Object("java/lang/String")),
            )
            &&& m.access == flags(true, false, true, false, true)
            &&& m.code is None
            &&& m.exceptions@.len() == 0
            &&& m.annotations@.len() == 0
        }
}

/// `NativePayloads`, declaring one native method per record.
pub fn native_payloads_class(metas: &Vec<InjectMeta>) -> (c: ClassSpec)
    ensures
        is_native_payloads_class(c, metas@),
        class_wf(c),
{
    let mut methods: Vec<MethodSpec> = Vec::new();
    methods.push(init_method(false));
    let mut i: usize = 0;
    while i < metas.len()
        invariant
            i <= metas.len(),
            methods@.len() == i + 1,
            is_default_constructor(methods@[0], false),
            forall|k: int|
                0 <= k < i ==> {
                    let m = #[trigger] methods@[k + 1];
                    &&& m.name@ == metas@[k].fn_name@
                    &&& m.descriptor@ == method_descriptor(
                        Seq::empty(),
                        Some(JavaType::Object("java/lang/String")),
                    )
                    &&& m.access == flags(true, false, true, false, true)
                    &&& m.code is None
                    &&& m.exceptions@.len() == 0
                    &&& m.annotations@.len() == 0
                },
        decreases metas.len() - i,
    {
        let mut access = no_flags();
        access.is_public = true;
        access.is_static = true;
        access.is_native = true;
        methods.push(
            MethodSpec {
                name: crate::inject::clone_str(metas[i].fn_name.as_str()),
                descriptor: MethodDesc::new0(Some(JavaType::Object("java/lang/String"))).descriptor(),
                access,
                exceptions: Vec::new(),
                annotations: Vec::new(),
                code: None,
            },
        );
        i = i + 1;
    }
    let c = ClassSpec {
        name: NATIVE_PAYLOADS_OWNER.to_owned(),
        version: None,
        annotations: Vec::new(),
        fields: Vec::new(),
        methods,
    };
    assert forall|k: int| 0 <= k < c.methods@.len() implies method_wf(#[trigger] c.methods@[k]) by {
        if k > 0 {
            assert(c.methods@[(k - 1) + 1] == c.methods@[k]);
        }
    }
    c
}

/// `ensure_<lib>`: `public static synchronized void ensure_<lib>() throws
/// IOException`, whose body loads library `lib` once.
pub open spec fn is_ensure_method(m: MethodSpec, lib: Seq<char>) -> bool {
    &&& m.name@ == "ensure_"@ + lib
    &&& m.descriptor@ == method_descriptor(Seq::empty(), None)
    &&& m.access == flags(true, false, true, true, false)
    &&& m.exceptions@.len() == 1
    &&& m.exceptions@[0]@ == "java/io/IOException"@
    &&& m.annotations@.len() == 0
    &&& m.code matches Some(b) && b.max_stack == 8 && listing(b.insns@) == ensure_loaded_listing(
        lib,
    ) && performs_ensure_loaded(listing(b.insns@), lib)
}

/// `NativeLoader`: for each library `lib` of `libs`, in order, a field
/// `private static boolean loaded_<lib>` and a method `ensure_<lib>()`; a
/// private constructor and the shared
/// `public static String resourcePath(String libBasename)`. Written at the
/// class-file writer's default version (49), whose verifier needs no
/// `StackMapTable` for the branches of these methods.
pub open spec fn is_native_loader_class(c: ClassSpec, libs: Seq<Seq<char>>) -> bool {
    &&& c.name@ == NATIVE_LOADER_INTERNAL@
    &&& c.version is None
    &&& c.annotations@.len() == 0
    &&& c.fields@.len() == libs.len()
    &&& forall|i: int|
        0 <= i < libs.len() ==> {
            let f = #[trigger] c.fields@[i];
            &&& f.name@ == "loaded_"@ + libs[i]
            &&& f.descriptor@ == JavaType::Boolean.spec_descriptor()
            &&& f.access == flags(false, true, true, false, false)
        }
    &&& c.methods@.len() == libs.len() + 2
    &&& is_default_constructor(c.methods@[0], false)
    &&& c.methods@[1].name@ == "resourcePath"@
    &&& c.methods@[1].descriptor@ == method_descriptor(
        seq![JavaType::Object("java/lang/String")],
        Some(JavaType::Object("java/lang/String")),
    )
    &&& c.methods@[1].access == flags(true, false, true, false, false)
    &&& c.methods@[1].exceptions@.len() == 0
    &&& c.methods@[1].annotations@.len() == 0
    &&& c.methods@[1].code matches Some(b) && b.max_stack == 3 && listing(b.insns@)
        == resource_path_listing() && computes_resource_path(listing(b.insns@))
    &&& forall|i: int| 0 <= i < libs.len() ==> is_ensure_method(#[trigger] c.methods@[i + 2], libs[i])
}

pub open spec fn string_views(v: Seq<String>) -> Seq<Seq<char>> {
    Seq::new(v.len(), |i: int| v[i]@)
}

/// The `NativeLoader` class for the native libraries `libs`.
pub fn native_loader_class(libs: &Vec<String>) -> (c: ClassSpec)
    ensures
        is_native_loader_class(c, string_views(libs@)),
        class_wf(c),
{
    let mut path_access = no_flags();
    path_access.is_public = true;
    path_access.is_static = true;
    let resource_path = MethodSpec {
        name: "resourcePath".to_owned(),
        descriptor: MethodDesc::new1(
            JavaType::Object("java/lang/String"),
            Some(JavaType::Object("java/lang/String")),
        ).descriptor(),
        access: path_access,
        exceptions: Vec::new(),
        annotations: Vec::new(),
        code: Some(resource_path_code()),
    };
    let mut fields: Vec<FieldSpec> = Vec::new();
    let mut methods: Vec<MethodSpec> = Vec::new();
    methods.push(init_method(false));
    methods.push(resource_path);
    let ghost names = string_views(libs@);
    let mut i: usize = 0;
    while i < libs.len()
        invariant
            i <= libs.len(),
            names == string_views(libs@),
            fields@.len() == i,
            methods@.len() == i + 2,
            is_default_constructor(methods@[0], false),
            methods@[1].name@ == "resourcePath"@,
            methods@[1].descriptor@ == method_descriptor(
                seq![JavaType::Object("java/lang/String")],
                Some(JavaType::Object("java/lang/String")),
            ),
            methods@[1].access == flags(true, false, true, false, false),
            methods@[1].exceptions@.len() == 0,
            methods@[1].annotations@.len() == 0,
            methods@[1].code matches Some(b) && b.max_stack == 3 && b.is_stack_safe() && listing(
                b.insns@,
            ) == resource_path_listing() && computes_resource_path(listing(b.insns@)),
            forall|k: int|
                0 <= k < i ==> {
                    let f = #[trigger] fields@[k];
                    &&& f.name@ == "loaded_"@ + names[k]
                    &&& f.descriptor@ == JavaType::Boolean.spec_descriptor()
                    &&& f.access == flags(false, true, true, false, false)
                },
            forall|k: int|
                0 <= k < i ==> is_ensure_method(#[trigger] methods@[k + 2], names[k]) && (
                methods@[k + 2].code matches Some(b) && b.is_stack_safe()),
        decreases libs.len() - i,
    {
        let lib = libs[i].as_str();
        let mut field_access = no_flags();
        field_access.is_private = true;
        field_access.is_static = true;
        let mut flag = "loaded_".to_owned();
        flag.append(lib);
        fields.push(
            FieldSpec { name: flag, descriptor: JavaType::Boolean.descriptor(), access: field_access },
        );
        let mut load_access = no_flags();
        load_access.is_public = true;
        load_access.is_static = true;
        load_access.is_synchronized = true;
        let mut exceptions: Vec<String> = Vec::new();
        exceptions.push("java/io/IOException".to_owned());
        let mut name = "ensure_".to_owned();
        name.append(lib);
        methods.push(
            MethodSpec {
                name,
                descriptor: MethodDesc::new0(None).descriptor(),
                access: load_access,
                exceptions,
                annotations: Vec::new(),
                code: Some(ensure_loaded_code(lib)),
            },
        );
        i = i + 1;
    }
    let c = ClassSpec {
        name: NATIVE_LOADER_INTERNAL.to_owned(),
        version: None,
        annotations: Vec::new(),
        fields,
        methods,
    };
    assert forall|k: int| 0 <= k < c.methods@.len() implies method_wf(#[trigger] c.methods@[k]) by {
        if k >= 2 {
            assert(c.methods@[(k - 2) + 2] == c.methods@[k]);
        }
    }
    assert forall|k: int| 0 <= k < libs@.len() implies is_ensure_method(
        #[trigger] c.methods@[k + 2],
        string_views(libs@)[k],
    ) by {}
    c
}

} // verus!
