//! Java types and method descriptors (JVM specification §4.3).

use vstd::prelude::*;

verus! {

/// Java-side type of a method argument. The descriptor (one character, or
/// `L...;` / `[...`), the operand-stack / local-variable slot size and the
/// load opcode all derive from it.
#[derive(Debug, Clone, Copy)]
pub enum JavaType {
    Int,
    Long,
    Float,
    Double,
    Boolean,
    Byte,
    Short,
    Char,
    /// Internal class name, e.g. `"java/util/function/BooleanSupplier"`.
    Object(&'static str),
    /// The element descriptor without the leading `'['`: `"I"` for `int[]`,
    /// `"Ljava/lang/String;"` for `String[]`, `"[I"` for `int[][]`.
    Array(&'static str),
}

impl JavaType {
    /// Slots taken on the operand stack and in the local variables.
    pub open spec fn spec_slot_size(self) -> int {
        match self {
            JavaType::Long | JavaType::Double => 2,
            _ => 1,
        }
    }

    /// The field descriptor of the type.
    pub open spec fn spec_descriptor(self) -> Seq<char> {
        match self {
            JavaType::Int => seq!['I'],
            JavaType::Long => seq!['J'],
            JavaType::Float => seq!['F'],
            JavaType::Double => seq!['D'],
            JavaType::Boolean => seq!['Z'],
            JavaType::Byte => seq!['B'],
            JavaType::Short => seq!['S'],
            JavaType::Char => seq!['C'],
            JavaType::Object(name) => seq!['L'] + name@ + seq![';'],
            JavaType::Array(inner) => seq!['['] + inner@,
        }
    }

    pub fn slot_size(&self) -> (r: u16)
        ensures
            r == self.spec_slot_size(),
    {
        match self {
            JavaType::Long | JavaType::Double => 2,
            _ => 1,
        }
    }

    pub fn descriptor(&self) -> (r: String)
        ensures
            r@ == self.spec_descriptor(),
    {
        let mut s = String::new();
        match self {
            JavaType::Int => crate::text::push_char(&mut s, 'I'),
            JavaType::Long => crate::text::push_char(&mut s, 'J'),
            JavaType::Float => crate::text::push_char(&mut s, 'F'),
            JavaType::Double => crate::text::push_char(&mut s, 'D'),
            JavaType::Boolean => crate::text::push_char(&mut s, 'Z'),
            JavaType::Byte => crate::text::push_char(&mut s, 'B'),
            JavaType::Short => crate::text::push_char(&mut s, 'S'),
            JavaType::Char => crate::text::push_char(&mut s, 'C'),
            JavaType::Object(name) => {
                crate::text::push_char(&mut s, 'L');
                s.append(name);
                crate::text::push_char(&mut s, ';');
            },
            JavaType::Array(inner) => {
                crate::text::push_char(&mut s, '[');
                s.append(inner);
            },
        }
        s
    }
}

/// What a field descriptor says of its type: it is never empty, it starts
/// with `L` exactly for class types and with `[` exactly for arrays, two
/// primitive types have the same descriptor only when they are the same
/// type, and the two-slot types are those written `J` and `D`.
pub proof fn lemma_descriptor_kinds(a: JavaType, b: JavaType)
    ensures
        a.spec_descriptor().len() >= 1,
        (a.spec_descriptor()[0] == 'L') <==> a is Object,
        (a.spec_descriptor()[0] == '[') <==> a is Array,
        a.spec_descriptor() == b.spec_descriptor() && !(a is Object) && !(a is Array) ==> a == b,
        a.spec_slot_size() == 2 <==> (a.spec_descriptor() == seq!['J'] || a.spec_descriptor()
            == seq!['D']),
        a.spec_slot_size() == 1 || a.spec_slot_size() == 2,
{
    let da = a.spec_descriptor();
    let db = b.spec_descriptor();
    match a {
        JavaType::Object(n) => {
            assert(da[0] == 'L');
            assert(da.len() >= 2);
        },
        JavaType::Array(n) => {
            assert(da[0] == '[');
        },
        _ => {},
    }
    match b {
        JavaType::Object(n) => {
            assert(db[0] == 'L');
        },
        JavaType::Array(n) => {
            assert(db[0] == '[');
        },
        _ => {},
    }
    if da == db && !(a is Object) && !(a is Array) {
        assert(da[0] == db[0]);
    }
    if da == seq!['J'] || da == seq!['D'] {
        assert(da[0] == 'J' || da[0] == 'D');
    }
}

/// Total slots of a sequence of types.
pub open spec fn slots_of(ts: Seq<JavaType>) -> int
    decreases ts.len(),
{
    if ts.len() == 0 {
        0
    } else {
        slots_of(ts.drop_last()) + ts.last().spec_slot_size()
    }
}

/// Concatenated descriptors of a sequence of types.
pub open spec fn descriptors_of(ts: Seq<JavaType>) -> Seq<char>
    decreases ts.len(),
{
    if ts.len() == 0 {
        Seq::empty()
    } else {
        descriptors_of(ts.drop_last()) + ts.last().spec_descriptor()
    }
}

/// Slot total is at least as large for a sequence as for any of its prefixes.
pub proof fn lemma_slots_prefix(ts: Seq<JavaType>, i: int)
    requires
        0 <= i <= ts.len(),
    ensures
        0 <= slots_of(ts.subrange(0, i)) <= slots_of(ts),
    decreases ts.len() - i,
{
    if i < ts.len() {
        lemma_slots_prefix(ts, i + 1);
        assert(ts.subrange(0, i + 1).drop_last() =~= ts.subrange(0, i));
        lemma_slots_nonneg(ts.subrange(0, i));
    } else {
        assert(ts.subrange(0, i) =~= ts);
        lemma_slots_nonneg(ts);
    }
}

pub proof fn lemma_slots_nonneg(ts: Seq<JavaType>)
    ensures
        slots_of(ts) >= 0,
    decreases ts.len(),
{
    if ts.len() > 0 {
        lemma_slots_nonneg(ts.drop_last());
    }
}

/// Total slots of `ts`, where that total is known to fit in 16 bits.
pub fn slots_total(ts: &Vec<JavaType>) -> (r: u32)
    requires
        slots_of(ts@) <= 0xFFFF,
    ensures
        r == slots_of(ts@),
{
    let mut total: u32 = 0;
    let mut i: usize = 0;
    while i < ts.len()
        invariant
            i <= ts.len(),
            slots_of(ts@) <= 0xFFFF,
            total == slots_of(ts@.subrange(0, i as int)),
        decreases ts.len() - i,
    {
        proof {
            lemma_slots_prefix(ts@, i + 1);
            assert(ts@.subrange(0, i + 1).drop_last() =~= ts@.subrange(0, i as int));
        }
        total = total + ts[i].slot_size() as u32;
        i = i + 1;
    }
    assert(ts@.subrange(0, ts@.len() as int) =~= ts@);
    total
}

/// A method type: argument types and return type (`None` is `void`).
pub struct MethodDesc {
    pub args: Vec<JavaType>,
    pub ret: Option<JavaType>,
}

/// The return-type part of a method descriptor.
pub open spec fn return_descriptor(ret: Option<JavaType>) -> Seq<char> {
    match ret {
        Some(t) => t.spec_descriptor(),
        None => seq!['V'],
    }
}

/// `(` + argument descriptors + `)` + return descriptor.
pub open spec fn method_descriptor(args: Seq<JavaType>, ret: Option<JavaType>) -> Seq<char> {
    seq!['('] + descriptors_of(args) + seq![')'] + return_descriptor(ret)
}

/// Slots a value of the return type takes (0 for `void`).
pub open spec fn return_slots(ret: Option<JavaType>) -> int {
    match ret {
        Some(t) => t.spec_slot_size(),
        None => 0,
    }
}

/// Appends the descriptors of `ts`, in order, to `s`.
pub fn push_descriptors(s: &mut String, ts: &Vec<JavaType>)
    ensures
        final(s)@ == old(s)@ + descriptors_of(ts@),
{
    let ghost start = s@;
    let mut i: usize = 0;
    while i < ts.len()
        invariant
            i <= ts.len(),
            s@ == start + descriptors_of(ts@.subrange(0, i as int)),
        decreases ts.len() - i,
    {
        let d = ts[i].descriptor();
        s.append(d.as_str());
        proof {
            assert(ts@.subrange(0, i + 1).drop_last() =~= ts@.subrange(0, i as int));
            assert(s@ =~= start + descriptors_of(ts@.subrange(0, i + 1)));
        }
        i = i + 1;
    }
    assert(ts@.subrange(0, ts@.len() as int) =~= ts@);
}

impl MethodDesc {
    /// A method type with no arguments.
    pub fn new0(ret: Option<JavaType>) -> (d: MethodDesc)
        ensures
            d.args@ == Seq::<JavaType>::empty(),
            d.ret == ret,
            slots_of(d.args@) == 0,
    {
        MethodDesc { args: Vec::new(), ret }
    }

    /// A method type with one argument.
    pub fn new1(a: JavaType, ret: Option<JavaType>) -> (d: MethodDesc)
        ensures
            d.args@ == seq![a],
            d.ret == ret,
            slots_of(d.args@) == a.spec_slot_size(),
    {
        let mut args = Vec::new();
        args.push(a);
        proof {
            assert(args@.drop_last() =~= Seq::<JavaType>::empty());
            assert(slots_of(Seq::<JavaType>::empty()) == 0);
        }
        MethodDesc { args, ret }
    }

    /// A method type with two arguments.
    pub fn new2(a: JavaType, b: JavaType, ret: Option<JavaType>) -> (d: MethodDesc)
        ensures
            d.args@ == seq![a, b],
            d.ret == ret,
            slots_of(d.args@) == a.spec_slot_size() + b.spec_slot_size(),
    {
        let mut args = Vec::new();
        args.push(a);
        args.push(b);
        proof {
            assert(args@.drop_last() =~= seq![a]);
            assert(seq![a].drop_last() =~= Seq::<JavaType>::empty());
            assert(slots_of(Seq::<JavaType>::empty()) == 0);
            assert(slots_of(seq![a]) == a.spec_slot_size());
        }
        MethodDesc { args, ret }
    }

    /// A method type with three arguments.
    pub fn new3(a: JavaType, b: JavaType, c: JavaType, ret: Option<JavaType>) -> (d: MethodDesc)
        ensures
            d.args@ == seq![a, b, c],
            d.ret == ret,
            slots_of(d.args@) == a.spec_slot_size() + b.spec_slot_size() + c.spec_slot_size(),
    {
        let mut args = Vec::new();
        args.push(a);
        args.push(b);
        args.push(c);
        proof {
            assert(args@.drop_last() =~= seq![a, b]);
            assert(seq![a, b].drop_last() =~= seq![a]);
            assert(seq![a].drop_last() =~= Seq::<JavaType>::empty());
            assert(slots_of(Seq::<JavaType>::empty()) == 0);
            assert(slots_of(seq![a]) == a.spec_slot_size());
            assert(slots_of(seq![a, b]) == a.spec_slot_size() + b.spec_slot_size());
        }
        MethodDesc { args, ret }
    }

    pub open spec fn spec_descriptor(&self) -> Seq<char> {
        method_descriptor(self.args@, self.ret)
    }

    /// The method descriptor string, e.g. `(Ljava/lang/String;)V`.
    pub fn descriptor(&self) -> (r: String)
        ensures
            r@ == self.spec_descriptor(),
    {
        let mut s = String::new();
        crate::text::push_char(&mut s, '(');
        push_descriptors(&mut s, &self.args);
        crate::text::push_char(&mut s, ')');
        match &self.ret {
            Some(t) => {
                let d = t.descriptor();
                s.append(d.as_str());
            },
            None => crate::text::push_char(&mut s, 'V'),
        }
        proof {
            assert(s@ =~= self.spec_descriptor());
        }
        s
    }
}

} // verus!
