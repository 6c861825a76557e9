//! A small-step semantics of the JVM instructions this toolchain emits: values
//! in locals and on the operand stack, the objects a method allocates, the
//! static fields it writes, and the calls it makes to code outside itself.
//!
//! A handful of `java.lang` methods are given their documented meaning
//! (`String.equals`, `String.startsWith`, `StringBuilder`); every other call
//! is recorded, and what it returns, or the exception it throws, is chosen by
//! the environment from the calls made so far. The built-in methods and
//! constructors are taken to return normally.

use vstd::prelude::*;
use crate::bytecode::{CallKind, FieldView, InsnView, MethodView};
use crate::descriptor::JavaType;

verus! {

/// A value in a local variable or an operand-stack slot.
pub enum JValue {
    /// An `int` or a `boolean`.
    Int(int),
    /// The second slot of a `long` or `double`.
    Top,
    Null,
    /// A `java.lang.String` with these characters.
    Str(Seq<char>),
    /// The `Class` object of the named class.
    Class(Seq<char>),
    /// Object `n` of the objects this method allocated.
    Ref(nat),
    /// An object made outside the method, by identity.
    Obj(int),
}

/// The operand stack, top first.
pub enum Stack {
    Empty,
    Push(Box<Stack>, JValue),
}

/// `s` with `v` on top.
pub open spec fn push(s: Stack, v: JValue) -> Stack {
    Stack::Push(Box::new(s), v)
}

/// Pops `k` slots: the popped values, deepest first, and the rest.
pub open spec fn pop_n(s: Stack, k: nat) -> Option<(Seq<JValue>, Stack)>
    decreases k,
{
    if k == 0 {
        Some((Seq::empty(), s))
    } else {
        match s {
            Stack::Empty => None,
            Stack::Push(rest, v) => match pop_n(*rest, (k - 1) as nat) {
                Some((vs, r)) => Some((vs.push(v), r)),
                None => None,
            },
        }
    }
}

/// An object the method allocated.
#[verifier::ext_equal]
pub enum HeapObj {
    /// Made by `new`; its constructor has not run yet.
    Uninit(Seq<char>),
    /// A `java.lang.StringBuilder` holding these characters.
    Builder(Seq<char>),
    /// An object of the named class whose constructor ran with these arguments.
    Made(Seq<char>, Seq<JValue>),
    /// An array with the named element class.
    Array(Seq<char>, Seq<JValue>),
}

/// A call to code outside the method; for an instance method the receiver
/// is the first argument.
#[verifier::ext_equal]
pub struct Call {
    pub kind: CallKind,
    pub method: MethodView,
    pub args: Seq<JValue>,
}

/// The world a method runs in.
pub struct Jvm {
    /// What a call outside the method returns, given the calls made before it.
    pub result: spec_fn(Seq<Call>, Call) -> JValue,
    /// The value of a static field (owner, name) the method has not written.
    pub static_value: spec_fn(Seq<char>, Seq<char>) -> JValue,
    /// The exception a call outside the method throws, given the calls made
    /// before it, or `None` when it returns.
    pub thrown: spec_fn(Seq<Call>, Call) -> Option<JValue>,
}

/// The call `c`, made after `calls`, returns rather than throwing.
pub open spec fn returns_normally(jvm: Jvm, calls: Seq<Call>, c: Call) -> bool {
    (jvm.thrown)(calls, c) is None
}

/// The state of a running method.
#[verifier::ext_equal]
pub struct JState {
    pub pc: int,
    pub stack: Stack,
    pub locals: Map<int, JValue>,
    pub heap: Seq<HeapObj>,
    /// The calls made so far, in order.
    pub calls: Seq<Call>,
    /// The static fields written so far, by (owner, name).
    pub statics: Map<(Seq<char>, Seq<char>), JValue>,
}

#[verifier::ext_equal]
pub enum Outcome {
    Running(JState),
    /// The method returned, with a value unless it is `void`.
    Returned(Option<JValue>, JState),
    Threw(JValue, JState),
    /// The instruction cannot run in this state (an operand of the wrong
    /// kind, a missing label, a null receiver), or the steps ran out.
    Stuck,
}

/// A method's state on entry, with its arguments in `locals`.
pub open spec fn entry(locals: Map<int, JValue>) -> JState {
    JState {
        pc: 0,
        stack: Stack::Empty,
        locals,
        heap: Seq::empty(),
        calls: Seq::empty(),
        statics: Map::empty(),
    }
}

/// `java.lang.String`.
pub open spec fn string_type() -> JavaType {
    JavaType::Object("java/lang/String")
}

/// `java.lang.StringBuilder`.
pub open spec fn builder_type() -> JavaType {
    JavaType::Object("java/lang/StringBuilder")
}

/// `java.lang.String.equals(Object)`.
pub open spec fn is_string_equals(m: MethodView) -> bool {
    m == MethodView {
        owner: "java/lang/String"@,
        name: "equals"@,
        args: seq![JavaType::Object("java/lang/Object")],
        ret: Some(JavaType::Boolean),
    }
}

/// `java.lang.String.startsWith(String)`.
pub open spec fn is_string_starts_with(m: MethodView) -> bool {
    m == MethodView {
        owner: "java/lang/String"@,
        name: "startsWith"@,
        args: seq![string_type()],
        ret: Some(JavaType::Boolean),
    }
}

/// `java.lang.StringBuilder.append(String)`.
pub open spec fn is_builder_append(m: MethodView) -> bool {
    m == MethodView {
        owner: "java/lang/StringBuilder"@,
        name: "append"@,
        args: seq![string_type()],
        ret: Some(builder_type()),
    }
}

/// `java.lang.StringBuilder.toString()`.
pub open spec fn is_builder_to_string(m: MethodView) -> bool {
    m == MethodView {
        owner: "java/lang/StringBuilder"@,
        name: "toString"@,
        args: Seq::empty(),
        ret: Some(string_type()),
    }
}

/// `java.lang.StringBuilder()`.
pub open spec fn is_builder_init(m: MethodView) -> bool {
    m == MethodView {
        owner: "java/lang/StringBuilder"@,
        name: "<init>"@,
        args: Seq::empty(),
        ret: None,
    }
}

/// Operand-stack slots the arguments of `m` take, the receiver included.
pub open spec fn arg_slots(kind: CallKind, m: MethodView) -> int {
    crate::descriptor::slots_of(m.args) + if kind is Static {
        0int
    } else {
        1int
    }
}

/// Pushes what a method of return type `ret` returned.
pub open spec fn push_result(stack: Stack, ret: Option<JavaType>, v: JValue) -> Stack {
    match ret {
        None => stack,
        Some(t) => if t.spec_slot_size() == 2 {
            push(push(stack, v), JValue::Top)
        } else {
            push(stack, v)
        },
    }
}

/// The rest of a call: `args` are the popped slots, `s` the state with the
/// program counter already past the call.
pub open spec fn call(
    jvm: Jvm,
    kind: CallKind,
    m: MethodView,
    args: Seq<JValue>,
    s: JState,
) -> Outcome {
    if kind is Virtual && args[0] is Null {
        Outcome::Stuck
    } else if kind is Virtual && is_string_equals(m) {
        match args[0] {
            JValue::Str(a) => Outcome::Running(
                JState {
                    stack: push(s.stack, 
                        JValue::Int(
                            if args[1] == JValue::Str(a) {
                                1int
                            } else {
                                0int
                            },
                        ),
                    ),
                    ..s
                },
            ),
            _ => Outcome::Stuck,
        }
    } else if kind is Virtual && is_string_starts_with(m) {
        match (args[0], args[1]) {
            (JValue::Str(a), JValue::Str(p)) => Outcome::Running(
                JState {
                    stack: push(s.stack, 
                        JValue::Int(
                            if p.is_prefix_of(a) {
                                1int
                            } else {
                                0int
                            },
                        ),
                    ),
                    ..s
                },
            ),
            _ => Outcome::Stuck,
        }
    } else if kind is Virtual && is_builder_append(m) {
        match args[0] {
            JValue::Ref(r) => if r < s.heap.len() && s.heap[r as int] is Builder {
                let b = s.heap[r as int]->Builder_0;
                match args[1] {
                    JValue::Str(t) => Outcome::Running(
                        JState {
                            stack: push(s.stack, JValue::Ref(r)),
                            heap: s.heap.update(r as int, HeapObj::Builder(b + t)),
                            ..s
                        },
                    ),
                    JValue::Null => Outcome::Running(
                        JState {
                            stack: push(s.stack, JValue::Ref(r)),
                            heap: s.heap.update(r as int, HeapObj::Builder(b + "null"@)),
                            ..s
                        },
                    ),
                    _ => Outcome::Stuck,
                }
            } else {
                Outcome::Stuck
            },
            _ => Outcome::Stuck,
        }
    } else if kind is Virtual && is_builder_to_string(m) {
        match args[0] {
            JValue::Ref(r) => if r < s.heap.len() && s.heap[r as int] is Builder {
                Outcome::Running(
                    JState {
                        stack: push(s.stack, JValue::Str(s.heap[r as int]->Builder_0)),
                        ..s
                    },
                )
            } else {
                Outcome::Stuck
            },
            _ => Outcome::Stuck,
        }
    } else if kind is Special && m.name == "<init>"@ {
        match args[0] {
            JValue::Ref(r) => if r < s.heap.len() && s.heap[r as int] is Uninit
                && s.heap[r as int]->Uninit_0 == m.owner {
                if is_builder_init(m) {
                    Outcome::Running(
                        JState {
                            heap: s.heap.update(r as int, HeapObj::Builder(Seq::empty())),
                            ..s
                        },
                    )
                } else {
                    let c = Call { kind, method: m, args };
                    Outcome::Running(
                        JState {
                            heap: s.heap.update(
                                r as int,
                                HeapObj::Made(m.owner, args.subrange(1, args.len() as int)),
                            ),
                            calls: s.calls.push(c),
                            ..s
                        },
                    )
                }
            } else {
                Outcome::Stuck
            },
            _ => Outcome::Stuck,
        }
    } else {
        let c = Call { kind, method: m, args };
        match (jvm.thrown)(s.calls, c) {
            Some(e) => Outcome::Threw(e, JState { calls: s.calls.push(c), ..s }),
            None => Outcome::Running(
                JState {
                    stack: push_result(s.stack, m.ret, (jvm.result)(s.calls, c)),
                    calls: s.calls.push(c),
                    ..s
                },
            ),
        }
    }
}

/// Slot counts of argument lists of up to three types.
pub proof fn lemma_slots_small(a: JavaType, b: JavaType, c: JavaType)
    ensures
        crate::descriptor::slots_of(Seq::empty()) == 0,
        crate::descriptor::slots_of(seq![a]) == a.spec_slot_size(),
        crate::descriptor::slots_of(seq![a, b]) == a.spec_slot_size() + b.spec_slot_size(),
        crate::descriptor::slots_of(seq![a, b, c]) == a.spec_slot_size() + b.spec_slot_size()
            + c.spec_slot_size(),
{
    let s0 = Seq::<JavaType>::empty();
    let s1 = seq![a];
    let s2 = seq![a, b];
    let s3 = seq![a, b, c];
    assert(s1.drop_last() =~= s0);
    assert(s2.drop_last() =~= s1);
    assert(s3.drop_last() =~= s2);
    assert(crate::descriptor::slots_of(s0) == 0);
    assert(crate::descriptor::slots_of(s1) == crate::descriptor::slots_of(s0) + a.spec_slot_size());
    assert(crate::descriptor::slots_of(s2) == crate::descriptor::slots_of(s1) + b.spec_slot_size());
    assert(crate::descriptor::slots_of(s3) == crate::descriptor::slots_of(s2) + c.spec_slot_size());
}

/// Some instruction of `code` places label `l`.
pub open spec fn has_label(code: Seq<InsnView>, l: int) -> bool {
    exists|j: int| 0 <= j < code.len() && code[j] == InsnView::Place(l)
}

/// Where label `l` is placed.
pub open spec fn label_index(code: Seq<InsnView>, l: int) -> int {
    choose|j: int| 0 <= j < code.len() && code[j] == InsnView::Place(l)
}

/// Continues at label `l`.
pub open spec fn jump(code: Seq<InsnView>, s: JState, l: int) -> Outcome {
    if has_label(code, l) {
        Outcome::Running(JState { pc: label_index(code, l), ..s })
    } else {
        Outcome::Stuck
    }
}

/// Pushes the local `n`, or is stuck when it holds nothing.
pub open spec fn load(s: JState, n: int, wide: bool) -> Outcome {
    if s.locals.contains_key(n) {
        let st = push(s.stack, s.locals[n]);
        Outcome::Running(
            JState {
                stack: if wide {
                    push(st, JValue::Top)
                } else {
                    st
                },
                ..s
            },
        )
    } else {
        Outcome::Stuck
    }
}

/// One instruction.
pub open spec fn step(jvm: Jvm, code: Seq<InsnView>, s: JState) -> Outcome {
    if !(0 <= s.pc < code.len()) {
        Outcome::Stuck
    } else {
        let n = JState { pc: s.pc + 1, ..s };
        match code[s.pc] {
            InsnView::Place(_) => Outcome::Running(n),
            InsnView::Aload(k) => load(n, k, false),
            InsnView::Iload(k) => load(n, k, false),
            InsnView::Fload(k) => load(n, k, false),
            InsnView::Lload(k) => load(n, k, true),
            InsnView::Dload(k) => load(n, k, true),
            InsnView::Astore(k) => match s.stack {
                Stack::Push(rest, v) => Outcome::Running(
                    JState { stack: *rest, locals: s.locals.insert(k, v), ..n },
                ),
                Stack::Empty => Outcome::Stuck,
            },
            InsnView::Iconst0 => Outcome::Running(
                JState { stack: push(s.stack, JValue::Int(0)), ..n },
            ),
            InsnView::Iconst1 => Outcome::Running(
                JState { stack: push(s.stack, JValue::Int(1)), ..n },
            ),
            InsnView::Dup => match s.stack {
                Stack::Push(_, v) => Outcome::Running(JState { stack: push(s.stack, v), ..n }),
                Stack::Empty => Outcome::Stuck,
            },
            InsnView::Pop => match s.stack {
                Stack::Push(rest, _) => Outcome::Running(JState { stack: *rest, ..n }),
                Stack::Empty => Outcome::Stuck,
            },
            InsnView::Pop2 => match pop_n(s.stack, 2) {
                Some((_, rest)) => Outcome::Running(JState { stack: rest, ..n }),
                None => Outcome::Stuck,
            },
            InsnView::LdcString(t) => Outcome::Running(
                JState { stack: push(s.stack, JValue::Str(t)), ..n },
            ),
            InsnView::LdcClass(t) => Outcome::Running(
                JState { stack: push(s.stack, JValue::Class(t)), ..n },
            ),
            InsnView::New(c) => Outcome::Running(
                JState {
                    stack: push(s.stack, JValue::Ref(s.heap.len())),
                    heap: s.heap.push(HeapObj::Uninit(c)),
                    ..n
                },
            ),
            InsnView::Anewarray(c) => match s.stack {
                Stack::Push(rest, JValue::Int(size)) => if size >= 0 {
                    Outcome::Running(
                        JState {
                            stack: push(*rest, JValue::Ref(s.heap.len())),
                            heap: s.heap.push(
                                HeapObj::Array(c, Seq::new(size as nat, |i: int| JValue::Null)),
                            ),
                            ..n
                        },
                    )
                } else {
                    Outcome::Stuck
                },
                _ => Outcome::Stuck,
            },
            InsnView::Aastore => match pop_n(s.stack, 3) {
                Some((vs, rest)) => match (vs[0], vs[1]) {
                    (JValue::Ref(r), JValue::Int(i)) => if r < s.heap.len()
                        && s.heap[r as int] is Array && 0 <= i
                        < s.heap[r as int]->Array_1.len() {
                        let c = s.heap[r as int]->Array_0;
                        let es = s.heap[r as int]->Array_1;
                        Outcome::Running(
                            JState {
                                stack: rest,
                                heap: s.heap.update(r as int, HeapObj::Array(c, es.update(i, vs[2]))),
                                ..n
                            },
                        )
                    } else {
                        Outcome::Stuck
                    },
                    _ => Outcome::Stuck,
                },
                None => Outcome::Stuck,
            },
            InsnView::Athrow => match s.stack {
                Stack::Push(rest, v) => if v is Null {
                    Outcome::Stuck
                } else {
                    Outcome::Threw(v, JState { stack: *rest, ..n })
                },
                Stack::Empty => Outcome::Stuck,
            },
            InsnView::GetStatic(f) => {
                let key = (f.owner, f.name);
                let v = if s.statics.contains_key(key) {
                    s.statics[key]
                } else {
                    (jvm.static_value)(f.owner, f.name)
                };
                Outcome::Running(JState { stack: push_result(s.stack, Some(f.ty), v), ..n })
            },
            InsnView::PutStatic(f) => match pop_n(s.stack, f.ty.spec_slot_size() as nat) {
                Some((vs, rest)) => if vs.len() >= 1 {
                    Outcome::Running(
                        JState {
                            stack: rest,
                            statics: s.statics.insert((f.owner, f.name), vs[0]),
                            ..n
                        },
                    )
                } else {
                    Outcome::Stuck
                },
                None => Outcome::Stuck,
            },
            InsnView::Invoke(kind, m) => match pop_n(s.stack, arg_slots(kind, m) as nat) {
                Some((args, rest)) => if kind is Static || args.len() >= 1 {
                    call(jvm, kind, m, args, JState { stack: rest, ..n })
                } else {
                    Outcome::Stuck
                },
                None => Outcome::Stuck,
            },
            InsnView::Ifeq(l) => match s.stack {
                Stack::Push(rest, JValue::Int(v)) => {
                    let t = JState { stack: *rest, ..n };
                    if v == 0 {
                        jump(code, t, l)
                    } else {
                        Outcome::Running(t)
                    }
                },
                _ => Outcome::Stuck,
            },
            InsnView::Ifnonnull(l) => match s.stack {
                Stack::Push(rest, v) => {
                    let t = JState { stack: *rest, ..n };
                    if v is Null {
                        Outcome::Running(t)
                    } else {
                        jump(code, t, l)
                    }
                },
                Stack::Empty => Outcome::Stuck,
            },
            InsnView::Goto(l) => jump(code, n, l),
            InsnView::ReturnVoid => Outcome::Returned(None, n),
            InsnView::Areturn => match s.stack {
                Stack::Push(rest, v) => Outcome::Returned(Some(v), JState { stack: *rest, ..n }),
                Stack::Empty => Outcome::Stuck,
            },
        }
    }
}

/// At most `fuel` instructions from `s`.
pub open spec fn run(jvm: Jvm, code: Seq<InsnView>, s: JState, fuel: nat) -> Outcome
    decreases fuel,
{
    if fuel == 0 {
        Outcome::Stuck
    } else {
        match step(jvm, code, s) {
            Outcome::Running(t) => run(jvm, code, t, (fuel - 1) as nat),
            o => o,
        }
    }
}

/// A whole call of a method whose code only branches forward: it ends within
/// as many steps as it has instructions.
pub open spec fn run_method(jvm: Jvm, code: Seq<InsnView>, locals: Map<int, JValue>) -> Outcome {
    run(jvm, code, entry(locals), code.len())
}

/// An instruction other than `putstatic` writes no static field, and from it
/// the method goes on at the next instruction or at a placed label.
pub proof fn lemma_step_frame(jvm: Jvm, code: Seq<InsnView>, s: JState)
    requires
        0 <= s.pc < code.len(),
        !(code[s.pc] is PutStatic),
    ensures
        match step(jvm, code, s) {
            Outcome::Running(t) => t.statics == s.statics && (t.pc == s.pc + 1 || (0 <= t.pc
                < code.len() && code[t.pc] is Place)),
            Outcome::Returned(_, t) => t.statics == s.statics,
            Outcome::Threw(_, t) => t.statics == s.statics,
            Outcome::Stuck => true,
        },
{
    match code[s.pc] {
        InsnView::Ifeq(l) => {
            if has_label(code, l) {
                let j = label_index(code, l);
                assert(0 <= j < code.len() && code[j] == InsnView::Place(l));
            }
        },
        InsnView::Ifnonnull(l) => {
            if has_label(code, l) {
                let j = label_index(code, l);
                assert(0 <= j < code.len() && code[j] == InsnView::Place(l));
            }
        },
        InsnView::Goto(l) => {
            if has_label(code, l) {
                let j = label_index(code, l);
                assert(0 <= j < code.len() && code[j] == InsnView::Place(l));
            }
        },
        _ => {},
    }
}

} // verus!
