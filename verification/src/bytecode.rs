//! A model of the JVM instructions this toolchain emits, an abstract
//! interpretation of their operand-stack depth, and a code builder whose
//! every step keeps the stack within the declared `max_stack`.

use vstd::prelude::*;
use crate::descriptor::{JavaType, MethodDesc, slots_of, return_slots, slots_total};

verus! {

/// A field reference: owner class (internal name), field name, field type.
pub struct FieldRef {
    pub owner: String,
    pub name: String,
    pub ty: JavaType,
}

/// A method reference: owner class (internal name), method name, method type.
pub struct MethodRef {
    pub owner: String,
    pub name: String,
    pub desc: MethodDesc,
}

/// One instruction, or the placement of a branch label.
pub enum Insn {
    Aload(u16),
    Astore(u16),
    Iload(u16),
    Lload(u16),
    Fload(u16),
    Dload(u16),
    Iconst0,
    Iconst1,
    Dup,
    Pop,
    Pop2,
    LdcString(String),
    LdcClass(String),
    New(String),
    Anewarray(String),
    Aastore,
    Athrow,
    GetStatic(FieldRef),
    PutStatic(FieldRef),
    InvokeStatic(MethodRef),
    InvokeVirtual(MethodRef),
    InvokeSpecial(MethodRef),
    Ifeq(usize),
    Ifnonnull(usize),
    Goto(usize),
    Place(usize),
    ReturnVoid,
    Areturn,
}

/// A method reference with its names as characters.
pub struct MethodView {
    pub owner: Seq<char>,
    pub name: Seq<char>,
    pub args: Seq<JavaType>,
    pub ret: Option<JavaType>,
}

/// A field reference with its names as characters.
pub struct FieldView {
    pub owner: Seq<char>,
    pub name: Seq<char>,
    pub ty: JavaType,
}

/// How a method is invoked.
pub enum CallKind {
    Static,
    Virtual,
    Special,
}

/// An instruction as a mathematical value: its strings as characters, its
/// local slots and labels as integers.
pub enum InsnView {
    Aload(int),
    Astore(int),
    Iload(int),
    Lload(int),
    Fload(int),
    Dload(int),
    Iconst0,
    Iconst1,
    Dup,
    Pop,
    Pop2,
    LdcString(Seq<char>),
    LdcClass(Seq<char>),
    New(Seq<char>),
    Anewarray(Seq<char>),
    Aastore,
    Athrow,
    GetStatic(FieldView),
    PutStatic(FieldView),
    Invoke(CallKind, MethodView),
    Ifeq(int),
    Ifnonnull(int),
    Goto(int),
    Place(int),
    ReturnVoid,
    Areturn,
}

pub open spec fn field_view(f: FieldRef) -> FieldView {
    FieldView { owner: f.owner@, name: f.name@, ty: f.ty }
}

pub open spec fn method_view(m: MethodRef) -> MethodView {
    MethodView { owner: m.owner@, name: m.name@, args: m.desc.args@, ret: m.desc.ret }
}

pub open spec fn view_insn(i: Insn) -> InsnView {
    match i {
        Insn::Aload(n) => InsnView::Aload(n as int),
        Insn::Astore(n) => InsnView::Astore(n as int),
        Insn::Iload(n) => InsnView::Iload(n as int),
        Insn::Lload(n) => InsnView::Lload(n as int),
        Insn::Fload(n) => InsnView::Fload(n as int),
        Insn::Dload(n) => InsnView::Dload(n as int),
        Insn::Iconst0 => InsnView::Iconst0,
        Insn::Iconst1 => InsnView::Iconst1,
        Insn::Dup => InsnView::Dup,
        Insn::Pop => InsnView::Pop,
        Insn::Pop2 => InsnView::Pop2,
        Insn::LdcString(s) => InsnView::LdcString(s@),
        Insn::LdcClass(s) => InsnView::LdcClass(s@),
        Insn::New(s) => InsnView::New(s@),
        Insn::Anewarray(s) => InsnView::Anewarray(s@),
        Insn::Aastore => InsnView::Aastore,
        Insn::Athrow => InsnView::Athrow,
        Insn::GetStatic(f) => InsnView::GetStatic(field_view(f)),
        Insn::PutStatic(f) => InsnView::PutStatic(field_view(f)),
        Insn::InvokeStatic(m) => InsnView::Invoke(CallKind::Static, method_view(m)),
        Insn::InvokeVirtual(m) => InsnView::Invoke(CallKind::Virtual, method_view(m)),
        Insn::InvokeSpecial(m) => InsnView::Invoke(CallKind::Special, method_view(m)),
        Insn::Ifeq(l) => InsnView::Ifeq(l as int),
        Insn::Ifnonnull(l) => InsnView::Ifnonnull(l as int),
        Insn::Goto(l) => InsnView::Goto(l as int),
        Insn::Place(l) => InsnView::Place(l as int),
        Insn::ReturnVoid => InsnView::ReturnVoid,
        Insn::Areturn => InsnView::Areturn,
    }
}

/// The instructions of `code` as values.
pub open spec fn listing(code: Seq<Insn>) -> Seq<InsnView> {
    code.map_values(|i: Insn| view_insn(i))
}

pub proof fn lemma_listing_push(code: Seq<Insn>, i: Insn)
    ensures
        listing(code.push(i)) == listing(code).push(view_insn(i)),
{
    assert(listing(code.push(i)) =~= listing(code).push(view_insn(i)));
}

/// Stack slots an instruction pops.
pub open spec fn pops(i: Insn) -> int {
    match i {
        Insn::Astore(_) | Insn::Pop | Insn::Athrow | Insn::Areturn => 1,
        Insn::Ifeq(_) | Insn::Ifnonnull(_) | Insn::Anewarray(_) | Insn::Dup => 1,
        Insn::Pop2 => 2,
        Insn::Aastore => 3,
        Insn::PutStatic(f) => f.ty.spec_slot_size(),
        Insn::InvokeStatic(m) => slots_of(m.desc.args@),
        Insn::InvokeVirtual(m) | Insn::InvokeSpecial(m) => slots_of(m.desc.args@) + 1,
        _ => 0,
    }
}

/// Stack slots an instruction pushes (after its pops).
pub open spec fn pushes(i: Insn) -> int {
    match i {
        Insn::Aload(_) | Insn::Iload(_) | Insn::Fload(_) | Insn::Iconst0 | Insn::Iconst1 => 1,
        Insn::Lload(_) | Insn::Dload(_) => 2,
        Insn::LdcString(_) | Insn::LdcClass(_) | Insn::New(_) | Insn::Anewarray(_) => 1,
        Insn::Dup => 2,
        Insn::GetStatic(f) => f.ty.spec_slot_size(),
        Insn::InvokeStatic(m) | Insn::InvokeVirtual(m) | Insn::InvokeSpecial(m) => return_slots(
            m.desc.ret,
        ),
        _ => 0,
    }
}

/// The label a jump instruction may transfer control to.
pub open spec fn jump_target(i: Insn) -> Option<usize> {
    match i {
        Insn::Ifeq(l) | Insn::Ifnonnull(l) | Insn::Goto(l) => Some(l),
        _ => None,
    }
}

/// Instructions after which control never falls through.
pub open spec fn ends_flow(i: Insn) -> bool {
    match i {
        Insn::Goto(_) | Insn::ReturnVoid | Insn::Areturn | Insn::Athrow => true,
        _ => false,
    }
}

/// Instructions that may transfer control elsewhere than the next one.
pub open spec fn is_branch(i: Insn) -> bool {
    jump_target(i) is Some || i is Place
}

/// No instruction of `code` jumps or places a label.
pub open spec fn branch_free(code: Seq<Insn>) -> bool {
    forall|i: int| 0 <= i < code.len() ==> !is_branch(#[trigger] code[i])
}

/// What the abstract interpretation knows after a prefix of the code: the
/// stack depth, whether the next instruction is reached by fall-through, the
/// depth expected at each label that was jumped to or placed, and the labels
/// already placed.
pub struct StackState {
    pub depth: int,
    pub reachable: bool,
    pub targets: Map<int, int>,
    pub placed: Set<int>,
}

pub open spec fn initial_state() -> StackState {
    StackState { depth: 0, reachable: true, targets: Map::empty(), placed: Set::empty() }
}

/// One step of the abstract interpretation; `None` when the instruction
/// would underflow or overflow the stack, is unreachable, or meets a label
/// at an inconsistent depth.
pub open spec fn step(st: StackState, i: Insn, max: int) -> Option<StackState> {
    match i {
        Insn::Place(l) => {
            let l = l as int;
            if st.placed.contains(l) {
                None
            } else if st.reachable {
                if st.targets.contains_key(l) && st.targets[l] != st.depth {
                    None
                } else {
                    Some(
                        StackState {
                            depth: st.depth,
                            reachable: true,
                            targets: st.targets.insert(l, st.depth),
                            placed: st.placed.insert(l),
                        },
                    )
                }
            } else if st.targets.contains_key(l) {
                Some(
                    StackState {
                        depth: st.targets[l],
                        reachable: true,
                        targets: st.targets,
                        placed: st.placed.insert(l),
                    },
                )
            } else {
                None
            }
        },
        _ => {
            if !st.reachable || st.depth < pops(i) || st.depth - pops(i) + pushes(i) > max {
                None
            } else {
                let d = st.depth - pops(i) + pushes(i);
                match jump_target(i) {
                    Some(l) => {
                        let l = l as int;
                        if st.targets.contains_key(l) && st.targets[l] != d {
                            None
                        } else {
                            Some(
                                StackState {
                                    depth: d,
                                    reachable: !ends_flow(i),
                                    targets: st.targets.insert(l, d),
                                    placed: st.placed,
                                },
                            )
                        }
                    },
                    None => Some(
                        StackState {
                            depth: d,
                            reachable: !ends_flow(i),
                            targets: st.targets,
                            placed: st.placed,
                        },
                    ),
                }
            }
        },
    }
}

/// Abstract interpretation of a whole instruction sequence.
pub open spec fn simulate(code: Seq<Insn>, max: int) -> Option<StackState>
    decreases code.len(),
{
    if code.len() == 0 {
        Some(initial_state())
    } else {
        match simulate(code.drop_last(), max) {
            Some(st) => step(st, code.last(), max),
            None => None,
        }
    }
}

/// The code never underflows the operand stack nor exceeds `max` slots, every
/// label is reached at one consistent depth, every jumped-to label is placed,
/// no instruction is unreachable, and control never runs off the end.
pub open spec fn stack_safe(code: Seq<Insn>, max: int) -> bool {
    &&& simulate(code, max) matches Some(st)
    &&& !st.reachable
    &&& forall|l: int| #[trigger] st.targets.contains_key(l) ==> st.placed.contains(l)
}

/// A finished method body.
pub struct CodeBody {
    pub insns: Vec<Insn>,
    pub max_stack: u16,
}

impl CodeBody {
    pub open spec fn is_stack_safe(&self) -> bool {
        stack_safe(self.insns@, self.max_stack as int)
    }
}

/// Builds a method body one instruction at a time, tracking the operand
/// stack depth; each method's `requires` keeps the stack within bounds.
pub struct Code {
    insns: Vec<Insn>,
    max_stack: u16,
    depth: u16,
    reachable: bool,
    label_depth: Vec<Option<u16>>,
    placed: Vec<bool>,
}

impl Code {
    pub closed spec fn insns(&self) -> Seq<Insn> {
        self.insns@
    }

    pub closed spec fn max(&self) -> int {
        self.max_stack as int
    }

    pub closed spec fn depth(&self) -> int {
        self.depth as int
    }

    pub closed spec fn reachable(&self) -> bool {
        self.reachable
    }

    pub closed spec fn num_labels(&self) -> int {
        self.label_depth@.len() as int
    }

    /// Depth expected at label `l`, once a jump to it or its placement is seen.
    pub closed spec fn target(&self, l: int) -> Option<int> {
        match self.label_depth@[l] {
            Some(d) => Some(d as int),
            None => None,
        }
    }

    pub closed spec fn is_placed(&self, l: int) -> bool {
        self.placed@[l]
    }

    closed spec fn state(&self) -> StackState {
        StackState {
            depth: self.depth as int,
            reachable: self.reachable,
            targets: Map::new(
                |l: int| 0 <= l < self.label_depth@.len() && self.label_depth@[l] is Some,
                |l: int| self.label_depth@[l]->0 as int,
            ),
            placed: Set::new(|l: int| 0 <= l < self.placed@.len() && self.placed@[l]),
        }
    }

    pub closed spec fn wf(&self) -> bool {
        &&& self.placed@.len() == self.label_depth@.len()
        &&& self.depth <= self.max_stack
        &&& forall|l: int|
            0 <= l < self.label_depth@.len() && #[trigger] self.label_depth@[l] is Some
                ==> self.label_depth@[l]->0 <= self.max_stack
        &&& simulate(self.insns@, self.max_stack as int) == Some(self.state())
    }

    /// Labels, their depths and placements are as in `old`.
    pub open spec fn same_labels(&self, old: &Code) -> bool {
        &&& self.num_labels() == old.num_labels()
        &&& forall|l: int|
            0 <= l < self.num_labels() ==> #[trigger] self.target(l) == old.target(l)
                && self.is_placed(l) == old.is_placed(l)
    }

    /// Room to pop `p` slots and then push `q`.
    pub open spec fn room(&self, p: int, q: int) -> bool {
        &&& self.reachable()
        &&& self.depth() >= p
        &&& self.depth() - p + q <= self.max()
    }

    /// An empty body that may use up to `max_stack` operand-stack slots.
    pub fn new(max_stack: u16) -> (c: Code)
        ensures
            c.wf(),
            c.insns() == Seq::<Insn>::empty(),
            c.max() == max_stack,
            c.depth() == 0,
            c.reachable(),
            c.num_labels() == 0,
            branch_free(c.insns()),
    {
        let c = Code {
            insns: Vec::new(),
            max_stack,
            depth: 0,
            reachable: true,
            label_depth: Vec::new(),
            placed: Vec::new(),
        };
        assert(c.state().targets =~= Map::<int, int>::empty());
        assert(c.state().placed =~= Set::<int>::empty());
        c
    }

    /// A fresh label, not yet jumped to nor placed.
    pub fn label(&mut self) -> (l: usize)
        requires
            old(self).wf(),
        ensures
            final(self).wf(),
            l == old(self).num_labels(),
            final(self).num_labels() == old(self).num_labels() + 1,
            final(self).target(l as int) is None,
            !final(self).is_placed(l as int),
            forall|k: int|
                0 <= k < old(self).num_labels() ==> #[trigger] final(self).target(k)
                    == old(self).target(k) && final(self).is_placed(k) == old(self).is_placed(k),
            final(self).insns() == old(self).insns(),
            final(self).max() == old(self).max(),
            final(self).depth() == old(self).depth(),
            final(self).reachable() == old(self).reachable(),
    {
        let l = self.label_depth.len();
        let ghost before = self.state();
        self.label_depth.push(None);
        self.placed.push(false);
        assert(self.state().targets =~= before.targets);
        assert(self.state().placed =~= before.placed);
        l
    }

    /// Appends a non-branching instruction whose stack effect is (`p`, `q`).
    fn emit(&mut self, i: Insn, p: u32, q: u32)
        requires
            old(self).wf(),
            jump_target(i) is None,
            !(i is Place),
            p == pops(i),
            q == pushes(i),
            old(self).room(p as int, q as int),
        ensures
            final(self).wf(),
            final(self).insns() == old(self).insns().push(i),
            listing(final(self).insns()) == listing(old(self).insns()).push(view_insn(i)),
            final(self).max() == old(self).max(),
            final(self).depth() == old(self).depth() - p + q,
            final(self).reachable() == !ends_flow(i),
            final(self).same_labels(old(self)),
            branch_free(final(self).insns()) == branch_free(old(self).insns()),
    {
        let ghost before = self.state();
        let ghost old_insns = self.insns@;
        self.depth = ((self.depth as u32 - p) + q) as u16;
        self.reachable = !ends_flow_exec(&i);
        self.insns.push(i);
        proof {
            assert(self.insns@.drop_last() =~= old_insns);
            lemma_listing_push(old_insns, i);
            assert(self.state().targets =~= before.targets);
            assert(self.state().placed =~= before.placed);
            if branch_free(old_insns) {
                assert forall|k: int| 0 <= k < self.insns@.len() implies !is_branch(
                    #[trigger] self.insns@[k],
                ) by {
                    if k < old_insns.len() {
                        assert(self.insns@[k] == old_insns[k]);
                    }
                }
            }
            if branch_free(self.insns@) {
                assert forall|k: int| 0 <= k < old_insns.len() implies !is_branch(
                    #[trigger] old_insns[k],
                ) by {
                    assert(self.insns@[k] == old_insns[k]);
                }
            }
        }
    }

    /// Appends a jump to label `l`.
    fn emit_jump(&mut self, i: Insn, l: usize, p: u32)
        requires
            old(self).wf(),
            jump_target(i) == Some(l),
            p == pops(i),
            pushes(i) == 0,
            old(self).room(p as int, 0),
            l < old(self).num_labels(),
            old(self).target(l as int) is Some ==> old(self).target(l as int) == Some(
                old(self).depth() - p,
            ),
        ensures
            final(self).wf(),
            final(self).insns() == old(self).insns().push(i),
            listing(final(self).insns()) == listing(old(self).insns()).push(view_insn(i)),
            final(self).max() == old(self).max(),
            final(self).depth() == old(self).depth() - p,
            final(self).reachable() == !ends_flow(i),
            final(self).num_labels() == old(self).num_labels(),
            final(self).target(l as int) == Some(final(self).depth()),
            forall|k: int|
                0 <= k < old(self).num_labels() ==> #[trigger] final(self).is_placed(k)
                    == old(self).is_placed(k),
            forall|k: int|
                0 <= k < old(self).num_labels() && k != l ==> #[trigger] final(self).target(k)
                    == old(self).target(k),
    {
        let ghost before = self.state();
        let ghost old_insns = self.insns@;
        self.depth = (self.depth as u32 - p) as u16;
        self.reachable = !ends_flow_exec(&i);
        self.label_depth.set(l, Some(self.depth));
        self.insns.push(i);
        proof {
            assert(self.insns@.drop_last() =~= old_insns);
            lemma_listing_push(old_insns, i);
            assert(self.state().targets =~= before.targets.insert(l as int, self.depth as int));
            assert(self.state().placed =~= before.placed);
        }
    }

    /// Places label `l` here. When the previous instruction does not fall
    /// through, the depth becomes the one recorded for `l` by a jump to it.
    pub fn place(&mut self, l: usize)
        requires
            old(self).wf(),
            l < old(self).num_labels(),
            !old(self).is_placed(l as int),
            old(self).reachable() ==> (old(self).target(l as int) is None || old(self).target(
                l as int,
            ) == Some(old(self).depth())),
            !old(self).reachable() ==> old(self).target(l as int) is Some,
        ensures
            final(self).wf(),
            final(self).insns() == old(self).insns().push(Insn::Place(l)),
            listing(final(self).insns()) == listing(old(self).insns()).push(view_insn(Insn::Place(l))),
            final(self).max() == old(self).max(),
            final(self).reachable(),
            old(self).reachable() ==> final(self).depth() == old(self).depth(),
            !old(self).reachable() ==> Some(final(self).depth()) == old(self).target(l as int),
            final(self).num_labels() == old(self).num_labels(),
            final(self).target(l as int) == Some(final(self).depth()),
            final(self).is_placed(l as int),
            forall|k: int|
                0 <= k < old(self).num_labels() && k != l ==> #[trigger] final(self).target(k)
                    == old(self).target(k) && final(self).is_placed(k) == old(self).is_placed(k),
    {
        let ghost before = self.state();
        let ghost old_insns = self.insns@;
        if !self.reachable {
            match self.label_depth[l] {
                Some(d) => {
                    self.depth = d;
                },
                None => {},
            }
        }
        proof {
            if !before.reachable {
                assert(before.targets.contains_key(l as int));
            }
        }
        self.reachable = true;
        self.label_depth.set(l, Some(self.depth));
        self.placed.set(l, true);
        self.insns.push(Insn::Place(l));
        proof {
            assert(self.insns@.drop_last() =~= old_insns);
            lemma_listing_push(old_insns, Insn::Place(l));
            if before.reachable {
                assert(self.state().targets =~= before.targets.insert(l as int, before.depth));
            } else {
                assert(self.state().targets =~= before.targets);
            }
            assert(self.state().placed =~= before.placed.insert(l as int));
        }
    }

    /// Pushes a reference from local `slot`.
    pub fn aload(&mut self, slot: u16)
        requires
            old(self).wf(),
            old(self).room(0, 1),
        ensures
            final(self).wf(),
            final(self).insns() == old(self).insns().push(Insn::Aload(slot)),
            listing(final(self).insns()) == listing(old(self).insns()).push(view_insn(Insn::Aload(slot))),
            final(self).max() == old(self).max(),
            final(self).depth() == old(self).depth() - 0 + 1,
            final(self).reachable(),
            final(self).same_labels(old(self)),
            branch_free(final(self).insns()) == branch_free(old(self).insns()),
    {
        self.emit(Insn::Aload(slot), 0, 1);
    }
    /// Pushes an `int` from local `slot`.
    pub fn iload(&mut self, slot: u16)
        requires
            old(self).wf(),
            old(self).room(0, 1),
        ensures
            final(self).wf(),
            final(self).insns() == old(self).insns().push(Insn::Iload(slot)),
            listing(final(self).insns()) == listing(old(self).insns()).push(view_insn(Insn::Iload(slot))),
            final(self).max() == old(self).max(),
            final(self).depth() == old(self).depth() - 0 + 1,
            final(self).reachable(),
            final(self).same_labels(old(self)),
            branch_free(final(self).insns()) == branch_free(old(self).insns()),
    {
        self.emit(Insn::Iload(slot), 0, 1);
    }
    /// Pushes a `float` from local `slot`.
    pub fn fload(&mut self, slot: u16)
        requires
            old(self).wf(),
            old(self).room(0, 1),
        ensures
            final(self).wf(),
            final(self).insns() == old(self).insns().push(Insn::Fload(slot)),
            listing(final(self).insns()) == listing(old(self).insns()).push(view_insn(Insn::Fload(slot))),
            final(self).max() == old(self).max(),
            final(self).depth() == old(self).depth() - 0 + 1,
            final(self).reachable(),
            final(self).same_labels(old(self)),
            branch_free(final(self).insns()) == branch_free(old(self).insns()),
    {
        self.emit(Insn::Fload(slot), 0, 1);
    }
    /// Pushes a `long` (two slots) from locals `slot`, `slot + 1`.
    pub fn lload(&mut self, slot: u16)
        requires
            old(self).wf(),
            old(self).room(0, 2),
        ensures
            final(self).wf(),
            final(self).insns() == old(self).insns().push(Insn::Lload(slot)),
            listing(final(self).insns()) == listing(old(self).insns()).push(view_insn(Insn::Lload(slot))),
            final(self).max() == old(self).max(),
            final(self).depth() == old(self).depth() - 0 + 2,
            final(self).reachable(),
            final(self).same_labels(old(self)),
            branch_free(final(self).insns()) == branch_free(old(self).insns()),
    {
        self.emit(Insn::Lload(slot), 0, 2);
    }
    /// Pushes a `double` (two slots) from locals `slot`, `slot + 1`.
    pub fn dload(&mut self, slot: u16)
        requires
            old(self).wf(),
            old(self).room(0, 2),
        ensures
            final(self).wf(),
            final(self).insns() == old(self).insns().push(Insn::Dload(slot)),
            listing(final(self).insns()) == listing(old(self).insns()).push(view_insn(Insn::Dload(slot))),
            final(self).max() == old(self).max(),
            final(self).depth() == old(self).depth() - 0 + 2,
            final(self).reachable(),
            final(self).same_labels(old(self)),
            branch_free(final(self).insns()) == branch_free(old(self).insns()),
    {
        self.emit(Insn::Dload(slot), 0, 2);
    }
    /// Pops a reference into local `slot`.
    pub fn astore(&mut self, slot: u16)
        requires
            old(self).wf(),
            old(self).room(1, 0),
        ensures
            final(self).wf(),
            final(self).insns() == old(self).insns().push(Insn::Astore(slot)),
            listing(final(self).insns()) == listing(old(self).insns()).push(view_insn(Insn::Astore(slot))),
            final(self).max() == old(self).max(),
            final(self).depth() == old(self).depth() - 1 + 0,
            final(self).reachable(),
            final(self).same_labels(old(self)),
            branch_free(final(self).insns()) == branch_free(old(self).insns()),
    {
        self.emit(Insn::Astore(slot), 1, 0);
    }
    /// Pushes the `int` 0.
    pub fn iconst_0(&mut self)
        requires
            old(self).wf(),
            old(self).room(0, 1),
        ensures
            final(self).wf(),
            final(self).insns() == old(self).insns().push(Insn::Iconst0),
            listing(final(self).insns()) == listing(old(self).insns()).push(view_insn(Insn::Iconst0)),
            final(self).max() == old(self).max(),
            final(self).depth() == old(self).depth() - 0 + 1,
            final(self).reachable(),
            final(self).same_labels(old(self)),
            branch_free(final(self).insns()) == branch_free(old(self).insns()),
    {
        self.emit(Insn::Iconst0, 0, 1);
    }
    /// Pushes the `int` 1.
    pub fn iconst_1(&mut self)
        requires
            old(self).wf(),
            old(self).room(0, 1),
        ensures
            final(self).wf(),
            final(self).insns() == old(self).insns().push(Insn::Iconst1),
            listing(final(self).insns()) == listing(old(self).insns()).push(view_insn(Insn::Iconst1)),
            final(self).max() == old(self).max(),
            final(self).depth() == old(self).depth() - 0 + 1,
            final(self).reachable(),
            final(self).same_labels(old(self)),
            branch_free(final(self).insns()) == branch_free(old(self).insns()),
    {
        self.emit(Insn::Iconst1, 0, 1);
    }
    /// Duplicates the top slot.
    pub fn dup(&mut self)
        requires
            old(self).wf(),
            old(self).room(1, 2),
        ensures
            final(self).wf(),
            final(self).insns() == old(self).insns().push(Insn::Dup),
            listing(final(self).insns()) == listing(old(self).insns()).push(view_insn(Insn::Dup)),
            final(self).max() == old(self).max(),
            final(self).depth() == old(self).depth() - 1 + 2,
            final(self).reachable(),
            final(self).same_labels(old(self)),
            branch_free(final(self).insns()) == branch_free(old(self).insns()),
    {
        self.emit(Insn::Dup, 1, 2);
    }
    /// Discards the top slot.
    pub fn pop(&mut self)
        requires
            old(self).wf(),
            old(self).room(1, 0),
        ensures
            final(self).wf(),
            final(self).insns() == old(self).insns().push(Insn::Pop),
            listing(final(self).insns()) == listing(old(self).insns()).push(view_insn(Insn::Pop)),
            final(self).max() == old(self).max(),
            final(self).depth() == old(self).depth() - 1 + 0,
            final(self).reachable(),
            final(self).same_labels(old(self)),
            branch_free(final(self).insns()) == branch_free(old(self).insns()),
    {
        self.emit(Insn::Pop, 1, 0);
    }
    /// Discards the top two slots.
    pub fn pop2(&mut self)
        requires
            old(self).wf(),
            old(self).room(2, 0),
        ensures
            final(self).wf(),
            final(self).insns() == old(self).insns().push(Insn::Pop2),
            listing(final(self).insns()) == listing(old(self).insns()).push(view_insn(Insn::Pop2)),
            final(self).max() == old(self).max(),
            final(self).depth() == old(self).depth() - 2 + 0,
            final(self).reachable(),
            final(self).same_labels(old(self)),
            branch_free(final(self).insns()) == branch_free(old(self).insns()),
    {
        self.emit(Insn::Pop2, 2, 0);
    }
    /// Stores a reference into an array: pops array, index, value.
    pub fn aastore(&mut self)
        requires
            old(self).wf(),
            old(self).room(3, 0),
        ensures
            final(self).wf(),
            final(self).insns() == old(self).insns().push(Insn::Aastore),
            listing(final(self).insns()) == listing(old(self).insns()).push(view_insn(Insn::Aastore)),
            final(self).max() == old(self).max(),
            final(self).depth() == old(self).depth() - 3 + 0,
            final(self).reachable(),
            final(self).same_labels(old(self)),
            branch_free(final(self).insns()) == branch_free(old(self).insns()),
    {
        self.emit(Insn::Aastore, 3, 0);
    }
    /// Throws the reference on top of the stack.
    pub fn athrow(&mut self)
        requires
            old(self).wf(),
            old(self).room(1, 0),
        ensures
            final(self).wf(),
            final(self).insns() == old(self).insns().push(Insn::Athrow),
            listing(final(self).insns()) == listing(old(self).insns()).push(view_insn(Insn::Athrow)),
            final(self).max() == old(self).max(),
            final(self).depth() == old(self).depth() - 1 + 0,
            !final(self).reachable(),
            final(self).same_labels(old(self)),
            branch_free(final(self).insns()) == branch_free(old(self).insns()),
    {
        self.emit(Insn::Athrow, 1, 0);
    }
    /// Returns from a `void` method.
    pub fn return_void(&mut self)
        requires
            old(self).wf(),
            old(self).room(0, 0),
        ensures
            final(self).wf(),
            final(self).insns() == old(self).insns().push(Insn::ReturnVoid),
            listing(final(self).insns()) == listing(old(self).insns()).push(view_insn(Insn::ReturnVoid)),
            final(self).max() == old(self).max(),
            final(self).depth() == old(self).depth() - 0 + 0,
            !final(self).reachable(),
            final(self).same_labels(old(self)),
            branch_free(final(self).insns()) == branch_free(old(self).insns()),
    {
        self.emit(Insn::ReturnVoid, 0, 0);
    }
    /// Returns the reference on top of the stack.
    pub fn areturn(&mut self)
        requires
            old(self).wf(),
            old(self).room(1, 0),
        ensures
            final(self).wf(),
            final(self).insns() == old(self).insns().push(Insn::Areturn),
            listing(final(self).insns()) == listing(old(self).insns()).push(view_insn(Insn::Areturn)),
            final(self).max() == old(self).max(),
            final(self).depth() == old(self).depth() - 1 + 0,
            !final(self).reachable(),
            final(self).same_labels(old(self)),
            branch_free(final(self).insns()) == branch_free(old(self).insns()),
    {
        self.emit(Insn::Areturn, 1, 0);
    }
    /// Pushes a constant `String`.
    pub fn ldc_string(&mut self, s: &str)
        requires
            old(self).wf(),
            old(self).room(0, 1),
        ensures
            final(self).wf(),
            final(self).insns().len() == old(self).insns().len() + 1,
            final(self).insns().drop_last() == old(self).insns(),
            final(self).insns().last() matches Insn::LdcString(t) && t@ == s@,
            listing(final(self).insns()) == listing(old(self).insns()).push(InsnView::LdcString(s@)),
            final(self).max() == old(self).max(),
            final(self).depth() == old(self).depth() - 0 + 1,
            final(self).reachable(),
            final(self).same_labels(old(self)),
            branch_free(final(self).insns()) == branch_free(old(self).insns()),
    {
        let ghost before = self.insns();
        let t = s.to_owned();
        self.emit(Insn::LdcString(t), 0, 1);
        assert(self.insns().drop_last() =~= before);
    }
    /// Pushes a constant `Class` object of the named class.
    pub fn ldc_class(&mut self, s: &str)
        requires
            old(self).wf(),
            old(self).room(0, 1),
        ensures
            final(self).wf(),
            final(self).insns().len() == old(self).insns().len() + 1,
            final(self).insns().drop_last() == old(self).insns(),
            final(self).insns().last() matches Insn::LdcClass(t) && t@ == s@,
            listing(final(self).insns()) == listing(old(self).insns()).push(InsnView::LdcClass(s@)),
            final(self).max() == old(self).max(),
            final(self).depth() == old(self).depth() - 0 + 1,
            final(self).reachable(),
            final(self).same_labels(old(self)),
            branch_free(final(self).insns()) == branch_free(old(self).insns()),
    {
        let ghost before = self.insns();
        let t = s.to_owned();
        self.emit(Insn::LdcClass(t), 0, 1);
        assert(self.insns().drop_last() =~= before);
    }
    /// Pushes a new, uninitialised instance of the named class.
    pub fn new_class(&mut self, s: &str)
        requires
            old(self).wf(),
            old(self).room(0, 1),
        ensures
            final(self).wf(),
            final(self).insns().len() == old(self).insns().len() + 1,
            final(self).insns().drop_last() == old(self).insns(),
            final(self).insns().last() matches Insn::New(t) && t@ == s@,
            listing(final(self).insns()) == listing(old(self).insns()).push(InsnView::New(s@)),
            final(self).max() == old(self).max(),
            final(self).depth() == old(self).depth() - 0 + 1,
            final(self).reachable(),
            final(self).same_labels(old(self)),
            branch_free(final(self).insns()) == branch_free(old(self).insns()),
    {
        let ghost before = self.insns();
        let t = s.to_owned();
        self.emit(Insn::New(t), 0, 1);
        assert(self.insns().drop_last() =~= before);
    }
    /// Pops a length and pushes a new array of the named reference type.
    pub fn anewarray(&mut self, s: &str)
        requires
            old(self).wf(),
            old(self).room(1, 1),
        ensures
            final(self).wf(),
            final(self).insns().len() == old(self).insns().len() + 1,
            final(self).insns().drop_last() == old(self).insns(),
            final(self).insns().last() matches Insn::Anewarray(t) && t@ == s@,
            listing(final(self).insns()) == listing(old(self).insns()).push(InsnView::Anewarray(s@)),
            final(self).max() == old(self).max(),
            final(self).depth() == old(self).depth() - 1 + 1,
            final(self).reachable(),
            final(self).same_labels(old(self)),
            branch_free(final(self).insns()) == branch_free(old(self).insns()),
    {
        let ghost before = self.insns();
        let t = s.to_owned();
        self.emit(Insn::Anewarray(t), 1, 1);
        assert(self.insns().drop_last() =~= before);
    }
    /// Pushes the value of a static field.
    pub fn getstatic(&mut self, owner: &str, field_name: &str, ty: JavaType)
        requires
            old(self).wf(),
            old(self).room(0, ty.spec_slot_size()),
        ensures
            final(self).wf(),
            final(self).insns().len() == old(self).insns().len() + 1,
            final(self).insns().drop_last() == old(self).insns(),
            final(self).insns().last() matches Insn::GetStatic(f) && f.owner@ == owner@
                && f.name@ == field_name@ && f.ty == ty,
            listing(final(self).insns()) == listing(old(self).insns()).push(InsnView::GetStatic(
                FieldView { owner: owner@, name: field_name@, ty },
            )),
            final(self).max() == old(self).max(),
            final(self).depth() == old(self).depth() - 0 + ty.spec_slot_size(),
            final(self).reachable(),
            final(self).same_labels(old(self)),
            branch_free(final(self).insns()) == branch_free(old(self).insns()),
    {
        let ghost before = self.insns();
        let n = ty.slot_size() as u32;
        let f = FieldRef { owner: owner.to_owned(), name: field_name.to_owned(), ty };
        self.emit(Insn::GetStatic(f), 0, n);
        assert(self.insns().drop_last() =~= before);
    }
    /// Pops a value into a static field.
    pub fn putstatic(&mut self, owner: &str, field_name: &str, ty: JavaType)
        requires
            old(self).wf(),
            old(self).room(ty.spec_slot_size(), 0),
        ensures
            final(self).wf(),
            final(self).insns().len() == old(self).insns().len() + 1,
            final(self).insns().drop_last() == old(self).insns(),
            final(self).insns().last() matches Insn::PutStatic(f) && f.owner@ == owner@
                && f.name@ == field_name@ && f.ty == ty,
            listing(final(self).insns()) == listing(old(self).insns()).push(InsnView::PutStatic(
                FieldView { owner: owner@, name: field_name@, ty },
            )),
            final(self).max() == old(self).max(),
            final(self).depth() == old(self).depth() - ty.spec_slot_size() + 0,
            final(self).reachable(),
            final(self).same_labels(old(self)),
            branch_free(final(self).insns()) == branch_free(old(self).insns()),
    {
        let ghost before = self.insns();
        let n = ty.slot_size() as u32;
        let f = FieldRef { owner: owner.to_owned(), name: field_name.to_owned(), ty };
        self.emit(Insn::PutStatic(f), n, 0);
        assert(self.insns().drop_last() =~= before);
    }
    /// Calls a static method: pops its arguments, pushes its result.
    pub fn invokestatic(&mut self, owner: &str, method_name: &str, desc: MethodDesc)
        requires
            old(self).wf(),
            old(self).room(slots_of(desc.args@), return_slots(desc.ret)),
        ensures
            final(self).wf(),
            final(self).insns().len() == old(self).insns().len() + 1,
            final(self).insns().drop_last() == old(self).insns(),
            final(self).insns().last() matches Insn::InvokeStatic(m) && m.owner@ == owner@
                && m.name@ == method_name@ && m.desc == desc,
            listing(final(self).insns()) == listing(old(self).insns()).push(InsnView::Invoke(
                CallKind::Static,
                MethodView { owner: owner@, name: method_name@, args: desc.args@, ret: desc.ret },
            )),
            final(self).max() == old(self).max(),
            final(self).depth() == old(self).depth() - (slots_of(desc.args@)) + return_slots(desc.ret),
            final(self).reachable(),
            final(self).same_labels(old(self)),
            branch_free(final(self).insns()) == branch_free(old(self).insns()),
    {
        let ghost before = self.insns();
        let a = slots_total(&desc.args);
        let p = a;
        let q: u32 = match &desc.ret {
            Some(t) => t.slot_size() as u32,
            None => 0,
        };
        let m = MethodRef { owner: owner.to_owned(), name: method_name.to_owned(), desc };
        self.emit(Insn::InvokeStatic(m), p, q);
        assert(self.insns().drop_last() =~= before);
    }
    /// Calls an instance method: pops receiver and arguments, pushes its result.
    pub fn invokevirtual(&mut self, owner: &str, method_name: &str, desc: MethodDesc)
        requires
            old(self).wf(),
            old(self).room(slots_of(desc.args@) + 1, return_slots(desc.ret)),
        ensures
            final(self).wf(),
            final(self).insns().len() == old(self).insns().len() + 1,
            final(self).insns().drop_last() == old(self).insns(),
            final(self).insns().last() matches Insn::InvokeVirtual(m) && m.owner@ == owner@
                && m.name@ == method_name@ && m.desc == desc,
            listing(final(self).insns()) == listing(old(self).insns()).push(InsnView::Invoke(
                CallKind::Virtual,
                MethodView { owner: owner@, name: method_name@, args: desc.args@, ret: desc.ret },
            )),
            final(self).max() == old(self).max(),
            final(self).depth() == old(self).depth() - (slots_of(desc.args@) + 1) + return_slots(desc.ret),
            final(self).reachable(),
            final(self).same_labels(old(self)),
            branch_free(final(self).insns()) == branch_free(old(self).insns()),
    {
        let ghost before = self.insns();
        let a = slots_total(&desc.args);
        let p = a + 1;
        let q: u32 = match &desc.ret {
            Some(t) => t.slot_size() as u32,
            None => 0,
        };
        let m = MethodRef { owner: owner.to_owned(), name: method_name.to_owned(), desc };
        self.emit(Insn::InvokeVirtual(m), p, q);
        assert(self.insns().drop_last() =~= before);
    }
    /// Calls a constructor or private method: pops receiver and arguments, pushes its result.
    pub fn invokespecial(&mut self, owner: &str, method_name: &str, desc: MethodDesc)
        requires
            old(self).wf(),
            old(self).room(slots_of(desc.args@) + 1, return_slots(desc.ret)),
        ensures
            final(self).wf(),
            final(self).insns().len() == old(self).insns().len() + 1,
            final(self).insns().drop_last() == old(self).insns(),
            final(self).insns().last() matches Insn::InvokeSpecial(m) && m.owner@ == owner@
                && m.name@ == method_name@ && m.desc == desc,
            listing(final(self).insns()) == listing(old(self).insns()).push(InsnView::Invoke(
                CallKind::Special,
                MethodView { owner: owner@, name: method_name@, args: desc.args@, ret: desc.ret },
            )),
            final(self).max() == old(self).max(),
            final(self).depth() == old(self).depth() - (slots_of(desc.args@) + 1) + return_slots(desc.ret),
            final(self).reachable(),
            final(self).same_labels(old(self)),
            branch_free(final(self).insns()) == branch_free(old(self).insns()),
    {
        let ghost before = self.insns();
        let a = slots_total(&desc.args);
        let p = a + 1;
        let q: u32 = match &desc.ret {
            Some(t) => t.slot_size() as u32,
            None => 0,
        };
        let m = MethodRef { owner: owner.to_owned(), name: method_name.to_owned(), desc };
        self.emit(Insn::InvokeSpecial(m), p, q);
        assert(self.insns().drop_last() =~= before);
    }
    /// Pops an `int`; jumps to `l` when it is zero.
    pub fn ifeq(&mut self, l: usize)
        requires
            old(self).wf(),
            old(self).room(1, 0),
            l < old(self).num_labels(),
            old(self).target(l as int) is Some ==> old(self).target(l as int) == Some(
                old(self).depth() - 1,
            ),
        ensures
            final(self).wf(),
            final(self).insns() == old(self).insns().push(Insn::Ifeq(l)),
            listing(final(self).insns()) == listing(old(self).insns()).push(view_insn(Insn::Ifeq(l))),
            final(self).max() == old(self).max(),
            final(self).depth() == old(self).depth() - 1,
            final(self).reachable(),
            final(self).num_labels() == old(self).num_labels(),
            final(self).target(l as int) == Some(final(self).depth()),
            forall|k: int|
                0 <= k < old(self).num_labels() ==> #[trigger] final(self).is_placed(k)
                    == old(self).is_placed(k),
            forall|k: int|
                0 <= k < old(self).num_labels() && k != l ==> #[trigger] final(self).target(k)
                    == old(self).target(k),
    {
        self.emit_jump(Insn::Ifeq(l), l, 1);
    }
    /// Pops a reference; jumps to `l` when it is not null.
    pub fn ifnonnull(&mut self, l: usize)
        requires
            old(self).wf(),
            old(self).room(1, 0),
            l < old(self).num_labels(),
            old(self).target(l as int) is Some ==> old(self).target(l as int) == Some(
                old(self).depth() - 1,
            ),
        ensures
            final(self).wf(),
            final(self).insns() == old(self).insns().push(Insn::Ifnonnull(l)),
            listing(final(self).insns()) == listing(old(self).insns()).push(view_insn(Insn::Ifnonnull(l))),
            final(self).max() == old(self).max(),
            final(self).depth() == old(self).depth() - 1,
            final(self).reachable(),
            final(self).num_labels() == old(self).num_labels(),
            final(self).target(l as int) == Some(final(self).depth()),
            forall|k: int|
                0 <= k < old(self).num_labels() ==> #[trigger] final(self).is_placed(k)
                    == old(self).is_placed(k),
            forall|k: int|
                0 <= k < old(self).num_labels() && k != l ==> #[trigger] final(self).target(k)
                    == old(self).target(k),
    {
        self.emit_jump(Insn::Ifnonnull(l), l, 1);
    }
    /// Jumps to `l` unconditionally.
    pub fn goto(&mut self, l: usize)
        requires
            old(self).wf(),
            old(self).room(0, 0),
            l < old(self).num_labels(),
            old(self).target(l as int) is Some ==> old(self).target(l as int) == Some(
                old(self).depth() - 0,
            ),
        ensures
            final(self).wf(),
            final(self).insns() == old(self).insns().push(Insn::Goto(l)),
            listing(final(self).insns()) == listing(old(self).insns()).push(view_insn(Insn::Goto(l))),
            final(self).max() == old(self).max(),
            final(self).depth() == old(self).depth() - 0,
            !final(self).reachable(),
            final(self).num_labels() == old(self).num_labels(),
            final(self).target(l as int) == Some(final(self).depth()),
            forall|k: int|
                0 <= k < old(self).num_labels() ==> #[trigger] final(self).is_placed(k)
                    == old(self).is_placed(k),
            forall|k: int|
                0 <= k < old(self).num_labels() && k != l ==> #[trigger] final(self).target(k)
                    == old(self).target(k),
    {
        self.emit_jump(Insn::Goto(l), l, 0);
    }
    /// The finished body; its code is stack-safe within `max_stack`.
    pub fn finish(self) -> (b: CodeBody)
        requires
            self.wf(),
            !self.reachable(),
            forall|l: int|
                0 <= l < self.num_labels() && #[trigger] self.target(l) is Some
                    ==> self.is_placed(l),
        ensures
            b.insns@ == self.insns(),
            b.max_stack == self.max(),
            b.is_stack_safe(),
    {
        let ghost st = self.state();
        assert forall|l: int| #[trigger] st.targets.contains_key(l) implies st.placed.contains(
            l,
        ) by {
            assert(self.target(l) is Some);
        }
        CodeBody { insns: self.insns, max_stack: self.max_stack }
    }
}

fn ends_flow_exec(i: &Insn) -> (b: bool)
    ensures
        b == ends_flow(*i),
{
    match i {
        Insn::Goto(_) | Insn::ReturnVoid | Insn::Areturn | Insn::Athrow => true,
        _ => false,
    }
}

} // verus!
