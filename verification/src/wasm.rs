//! A model of the WebAssembly module under construction: instructions,
//! functions, globals, data segments and exports, together with a static
//! stack-effect discipline for instruction sequences.

use vstd::prelude::*;

use crate::types::WasmValType;

verus! {

/// One target instruction.  Structured control flow carries its body inline;
/// `BrIf` names an enclosing label by relative depth, innermost first.
#[derive(Debug, PartialEq, Eq)]
pub enum Instr {
    I32Const(i32),
    I64Const(i64),
    LocalGet(usize),
    LocalSet(usize),
    LocalTee(usize),
    GlobalGet(usize),
    GlobalSet(usize),
    I32Add,
    I32Sub,
    I32LtU,
    /// Load an `i64` from the popped address plus the constant offset.
    I64Load(u32),
    /// Store the popped `i64` at the popped address plus the constant offset.
    I64Store(u32),
    Call(usize),
    DropValue,
    Return,
    Block { results: Vec<WasmValType>, body: Vec<Instr> },
    Loop { results: Vec<WasmValType>, body: Vec<Instr> },
    BrIf(u32),
}

/// The value-stack signature of a function.
#[derive(Debug, PartialEq, Eq)]
pub struct FuncSig {
    pub params: Vec<WasmValType>,
    pub results: Vec<WasmValType>,
}

/// How a function is realized: provided by the standard library or the host
/// (`External`), or defined by generated instructions.
#[derive(Debug, PartialEq, Eq)]
pub enum FuncBody {
    External,
    Defined(Vec<Instr>),
}

/// A function of the module under construction.
#[derive(Debug, PartialEq, Eq)]
pub struct WasmFunction {
    pub name: String,
    pub sig: FuncSig,
    pub body: FuncBody,
    /// The module-wide locals that receive the arguments, in order.
    pub param_locals: Vec<usize>,
}

/// A named global variable of the module.
#[derive(Debug, PartialEq, Eq)]
pub struct WasmGlobal {
    pub name: String,
    pub ty: WasmValType,
}

/// An active data segment: `bytes` placed at absolute `offset` in the single
/// linear memory.
#[derive(Debug, PartialEq, Eq)]
pub struct DataSegment {
    pub offset: u32,
    pub bytes: Vec<u8>,
}

/// An export of a function under a name.
#[derive(Debug, PartialEq, Eq)]
pub struct WasmExport {
    pub name: String,
    pub func: usize,
}

/// The module under construction.  Locals are a module-wide pool, as in the
/// builder the emitted module is later realized with; each function records
/// which locals hold its parameters.
#[derive(Debug, PartialEq, Eq)]
pub struct WasmModule {
    pub funcs: Vec<WasmFunction>,
    pub local_types: Vec<WasmValType>,
    pub globals: Vec<WasmGlobal>,
    pub data: Vec<DataSegment>,
    pub exports: Vec<WasmExport>,
    pub memories: u32,
}

/// Whether `suffix` is the top of stack `s` (the top is the sequence end).
pub open spec fn stack_has(s: Seq<WasmValType>, suffix: Seq<WasmValType>) -> bool {
    s.len() >= suffix.len() && s.subrange(s.len() - suffix.len(), s.len() as int) == suffix
}

/// The stack `s` with its top `k` values removed.
pub open spec fn stack_pop(s: Seq<WasmValType>, k: int) -> Seq<WasmValType> {
    s.subrange(0, s.len() - k)
}

/// The static effect of one instruction on the value-stack typing: `None` if
/// the instruction is ill-typed on stack `s`, otherwise the resulting stack.
/// `labels` are the result shapes of the enclosing branch targets, innermost
/// first; `ret` is the result shape of the enclosing function.
pub open spec fn instr_effect(
    m: WasmModule,
    labels: Seq<Seq<WasmValType>>,
    ret: Seq<WasmValType>,
    i: Instr,
    s: Seq<WasmValType>,
) -> Option<Seq<WasmValType>>
    decreases i, 0nat,
{
    match i {
        Instr::I32Const(_) => Some(s.push(WasmValType::I32)),
        Instr::I64Const(_) => Some(s.push(WasmValType::I64)),
        Instr::LocalGet(l) => if l < m.local_types@.len() {
            Some(s.push(m.local_types@[l as int]))
        } else {
            None
        },
        Instr::LocalSet(l) => if l < m.local_types@.len() && stack_has(
            s,
            seq![m.local_types@[l as int]],
        ) {
            Some(stack_pop(s, 1))
        } else {
            None
        },
        Instr::LocalTee(l) => if l < m.local_types@.len() && stack_has(
            s,
            seq![m.local_types@[l as int]],
        ) {
            Some(s)
        } else {
            None
        },
        Instr::GlobalGet(g) => if g < m.globals@.len() {
            Some(s.push(m.globals@[g as int].ty))
        } else {
            None
        },
        Instr::GlobalSet(g) => if g < m.globals@.len() && stack_has(
            s,
            seq![m.globals@[g as int].ty],
        ) {
            Some(stack_pop(s, 1))
        } else {
            None
        },
        Instr::I32Add | Instr::I32Sub | Instr::I32LtU => if stack_has(
            s,
            seq![WasmValType::I32, WasmValType::I32],
        ) {
            Some(stack_pop(s, 1))
        } else {
            None
        },
        Instr::I64Load(_) => if stack_has(s, seq![WasmValType::I32]) {
            Some(stack_pop(s, 1).push(WasmValType::I64))
        } else {
            None
        },
        Instr::I64Store(_) => if stack_has(s, seq![WasmValType::I32, WasmValType::I64]) {
            Some(stack_pop(s, 2))
        } else {
            None
        },
        Instr::Call(f) => if f < m.funcs@.len() && stack_has(s, m.funcs@[f as int].sig.params@) {
            Some(stack_pop(s, m.funcs@[f as int].sig.params@.len() as int) + m.funcs@[
                f as int
            ].sig.results@)
        } else {
            None
        },
        Instr::DropValue => if s.len() >= 1 {
            Some(stack_pop(s, 1))
        } else {
            None
        },
        Instr::Return => if stack_has(s, ret) {
            Some(s)
        } else {
            None
        },
        Instr::Block { results, body } => if seq_effect(
            m,
            seq![results@] + labels,
            ret,
            body@,
            Seq::empty(),
        ) == Some(results@) {
            Some(s + results@)
        } else {
            None
        },
        Instr::Loop { results, body } => if seq_effect(
            m,
            seq![results@] + labels,
            ret,
            body@,
            results@,
        ) == Some(results@) && stack_has(s, results@) {
            Some(s)
        } else {
            None
        },
        Instr::BrIf(l) => if l < labels.len() && stack_has(
            s,
            labels[l as int] + seq![WasmValType::I32],
        ) {
            Some(stack_pop(s, 1))
        } else {
            None
        },
    }
}

/// The static effect of an instruction sequence, threaded left to right.
pub open spec fn seq_effect(
    m: WasmModule,
    labels: Seq<Seq<WasmValType>>,
    ret: Seq<WasmValType>,
    code: Seq<Instr>,
    s: Seq<WasmValType>,
) -> Option<Seq<WasmValType>>
    decreases code, 1nat,
{
    if code.len() == 0 {
        Some(s)
    } else {
        match instr_effect(m, labels, ret, code.first(), s) {
            Some(t) => seq_effect(m, labels, ret, code.drop_first(), t),
            None => None,
        }
    }
}

/// Appending `t` to a stack leaves `t` on top, and removing it restores the
/// stack.
pub proof fn lemma_stack_app(s: Seq<WasmValType>, t: Seq<WasmValType>)
    ensures
        stack_has(s + t, t),
        stack_pop(s + t, t.len() as int) == s,
{
    assert((s + t).subrange(s.len() as int, (s + t).len() as int) =~= t);
    assert((s + t).subrange(0, s.len() as int) =~= s);
}

/// The effect of a one-instruction sequence is the instruction's effect.
pub proof fn lemma_seq_effect_one(
    m: WasmModule,
    labels: Seq<Seq<WasmValType>>,
    ret: Seq<WasmValType>,
    i: Instr,
    s: Seq<WasmValType>,
)
    ensures
        seq_effect(m, labels, ret, seq![i], s) == instr_effect(m, labels, ret, i, s),
{
    let code = seq![i];
    assert(code.first() == i);
    assert(code.drop_first() =~= Seq::<Instr>::empty());
    match instr_effect(m, labels, ret, i, s) {
        Some(t) => {
            assert(seq_effect(m, labels, ret, code.drop_first(), t) == Some(t));
        },
        None => {},
    }
}

/// Splits the effect of a concatenation into the effects of its parts.
pub proof fn lemma_seq_effect_app(
    m: WasmModule,
    labels: Seq<Seq<WasmValType>>,
    ret: Seq<WasmValType>,
    a: Seq<Instr>,
    b: Seq<Instr>,
    s: Seq<WasmValType>,
)
    ensures
        seq_effect(m, labels, ret, a + b, s) == (match seq_effect(m, labels, ret, a, s) {
            Some(t) => seq_effect(m, labels, ret, b, t),
            None => None,
        }),
    decreases a.len(),
{
    if a.len() == 0 {
        assert(a + b =~= b);
    } else {
        assert((a + b).len() > 0);
        assert((a + b).first() == a.first());
        assert((a + b).drop_first() =~= a.drop_first() + b);
        match instr_effect(m, labels, ret, a.first(), s) {
            Some(t) => {
                lemma_seq_effect_app(m, labels, ret, a.drop_first(), b, t);
            },
            None => {},
        }
    }
}

/// `code` is well-typed on every stack, under every label context, and
/// pushes exactly `gives` on top of it.
pub open spec fn code_pushes(m: WasmModule, code: Seq<Instr>, gives: Seq<WasmValType>) -> bool {
    forall|labels: Seq<Seq<WasmValType>>, ret: Seq<WasmValType>, s: Seq<WasmValType>|
        #[trigger] seq_effect(m, labels, ret, code, s) == Some(s + gives)
}

/// `code` consumes `takes` from the top of any stack that offers it and
/// leaves `gives` in place of it.
pub open spec fn code_xform(
    m: WasmModule,
    code: Seq<Instr>,
    takes: Seq<WasmValType>,
    gives: Seq<WasmValType>,
) -> bool {
    forall|labels: Seq<Seq<WasmValType>>, ret: Seq<WasmValType>, s: Seq<WasmValType>|
        #[trigger] seq_effect(m, labels, ret, code, s + takes) == Some(s + gives)
}

/// The empty sequence pushes nothing.
pub proof fn lemma_code_empty(m: WasmModule)
    ensures
        code_pushes(m, Seq::empty(), Seq::empty()),
{
    assert forall|labels: Seq<Seq<WasmValType>>, ret: Seq<WasmValType>, s: Seq<WasmValType>|
        #[trigger] seq_effect(m, labels, ret, Seq::empty(), s) == Some(s + Seq::empty()) by {
        assert(s + Seq::<WasmValType>::empty() =~= s);
    }
}

/// Concatenating pushing code pushes the concatenation.
pub proof fn lemma_code_app_pushes(
    m: WasmModule,
    a: Seq<Instr>,
    b: Seq<Instr>,
    o1: Seq<WasmValType>,
    o2: Seq<WasmValType>,
)
    requires
        code_pushes(m, a, o1),
        code_pushes(m, b, o2),
    ensures
        code_pushes(m, a + b, o1 + o2),
{
    assert forall|labels: Seq<Seq<WasmValType>>, ret: Seq<WasmValType>, s: Seq<WasmValType>|
        #[trigger] seq_effect(m, labels, ret, a + b, s) == Some(s + (o1 + o2)) by {
        lemma_seq_effect_app(m, labels, ret, a, b, s);
        assert(seq_effect(m, labels, ret, a, s) == Some(s + o1));
        assert(seq_effect(m, labels, ret, b, s + o1) == Some((s + o1) + o2));
        assert((s + o1) + o2 =~= s + (o1 + o2));
    }
}

/// Pushing code followed by consuming code: the consumed top is replaced.
pub proof fn lemma_code_compose(
    m: WasmModule,
    a: Seq<Instr>,
    b: Seq<Instr>,
    mid: Seq<WasmValType>,
    takes: Seq<WasmValType>,
    gives: Seq<WasmValType>,
)
    requires
        code_pushes(m, a, mid + takes),
        code_xform(m, b, takes, gives),
    ensures
        code_pushes(m, a + b, mid + gives),
{
    assert forall|labels: Seq<Seq<WasmValType>>, ret: Seq<WasmValType>, s: Seq<WasmValType>|
        #[trigger] seq_effect(m, labels, ret, a + b, s) == Some(s + (mid + gives)) by {
        lemma_seq_effect_app(m, labels, ret, a, b, s);
        assert(seq_effect(m, labels, ret, a, s) == Some(s + (mid + takes)));
        assert(s + (mid + takes) =~= (s + mid) + takes);
        assert(seq_effect(m, labels, ret, b, (s + mid) + takes) == Some((s + mid) + gives));
        assert((s + mid) + gives =~= s + (mid + gives));
    }
}

/// Consuming code followed by code that consumes part of what it gave.
pub proof fn lemma_xform_then_consume_own(
    m: WasmModule,
    a: Seq<Instr>,
    b: Seq<Instr>,
    ta: Seq<WasmValType>,
    mid: Seq<WasmValType>,
    tb: Seq<WasmValType>,
    gb: Seq<WasmValType>,
)
    requires
        code_xform(m, a, ta, mid + tb),
        code_xform(m, b, tb, gb),
    ensures
        code_xform(m, a + b, ta, mid + gb),
{
    assert forall|labels: Seq<Seq<WasmValType>>, ret: Seq<WasmValType>, s: Seq<WasmValType>|
        #[trigger] seq_effect(m, labels, ret, a + b, s + ta) == Some(s + (mid + gb)) by {
        lemma_seq_effect_app(m, labels, ret, a, b, s + ta);
        assert(seq_effect(m, labels, ret, a, s + ta) == Some(s + (mid + tb)));
        assert(s + (mid + tb) =~= (s + mid) + tb);
        assert(seq_effect(m, labels, ret, b, (s + mid) + tb) == Some((s + mid) + gb));
        assert((s + mid) + gb =~= s + (mid + gb));
    }
}

/// Consuming code followed by code that consumes all it gave and more.
pub proof fn lemma_xform_then_consume_deeper(
    m: WasmModule,
    a: Seq<Instr>,
    b: Seq<Instr>,
    ta: Seq<WasmValType>,
    ga: Seq<WasmValType>,
    deep: Seq<WasmValType>,
    gb: Seq<WasmValType>,
)
    requires
        code_xform(m, a, ta, ga),
        code_xform(m, b, deep + ga, gb),
    ensures
        code_xform(m, a + b, deep + ta, gb),
{
    assert forall|labels: Seq<Seq<WasmValType>>, ret: Seq<WasmValType>, s: Seq<WasmValType>|
        #[trigger] seq_effect(m, labels, ret, a + b, s + (deep + ta)) == Some(s + gb) by {
        lemma_seq_effect_app(m, labels, ret, a, b, s + (deep + ta));
        assert(s + (deep + ta) =~= (s + deep) + ta);
        assert(seq_effect(m, labels, ret, a, (s + deep) + ta) == Some((s + deep) + ga));
        assert((s + deep) + ga =~= s + (deep + ga));
        assert(seq_effect(m, labels, ret, b, s + (deep + ga)) == Some(s + gb));
    }
}

/// Consuming code followed by pushing code.
pub proof fn lemma_xform_then_push(
    m: WasmModule,
    a: Seq<Instr>,
    b: Seq<Instr>,
    ta: Seq<WasmValType>,
    ga: Seq<WasmValType>,
    gb: Seq<WasmValType>,
)
    requires
        code_xform(m, a, ta, ga),
        code_pushes(m, b, gb),
    ensures
        code_xform(m, a + b, ta, ga + gb),
{
    assert forall|labels: Seq<Seq<WasmValType>>, ret: Seq<WasmValType>, s: Seq<WasmValType>|
        #[trigger] seq_effect(m, labels, ret, a + b, s + ta) == Some(s + (ga + gb)) by {
        lemma_seq_effect_app(m, labels, ret, a, b, s + ta);
        assert(seq_effect(m, labels, ret, a, s + ta) == Some(s + ga));
        assert(seq_effect(m, labels, ret, b, s + ga) == Some((s + ga) + gb));
        assert((s + ga) + gb =~= s + (ga + gb));
    }
}

/// Pushing code is consuming code that takes nothing.
pub proof fn lemma_pushes_as_xform(m: WasmModule, a: Seq<Instr>, ga: Seq<WasmValType>)
    requires
        code_pushes(m, a, ga),
    ensures
        code_xform(m, a, Seq::empty(), ga),
{
    assert forall|labels: Seq<Seq<WasmValType>>, ret: Seq<WasmValType>, s: Seq<WasmValType>|
        #[trigger] seq_effect(m, labels, ret, a, s + Seq::empty()) == Some(s + ga) by {
        assert(s + Seq::<WasmValType>::empty() =~= s);
        assert(seq_effect(m, labels, ret, a, s) == Some(s + ga));
    }
}

/// A 32-bit constant pushes an `i32`.
pub proof fn lemma_code_i32_const(m: WasmModule, v: i32)
    ensures
        code_pushes(m, seq![Instr::I32Const(v)], seq![WasmValType::I32]),
{
    assert forall|labels: Seq<Seq<WasmValType>>, ret: Seq<WasmValType>, s: Seq<WasmValType>|
        #[trigger] seq_effect(m, labels, ret, seq![Instr::I32Const(v)], s) == Some(
            s + seq![WasmValType::I32],
        ) by {
        lemma_seq_effect_one(m, labels, ret, Instr::I32Const(v), s);
        assert(s.push(WasmValType::I32) =~= s + seq![WasmValType::I32]);
    }
}

/// A 64-bit constant pushes an `i64`.
pub proof fn lemma_code_i64_const(m: WasmModule, v: i64)
    ensures
        code_pushes(m, seq![Instr::I64Const(v)], seq![WasmValType::I64]),
{
    assert forall|labels: Seq<Seq<WasmValType>>, ret: Seq<WasmValType>, s: Seq<WasmValType>|
        #[trigger] seq_effect(m, labels, ret, seq![Instr::I64Const(v)], s) == Some(
            s + seq![WasmValType::I64],
        ) by {
        lemma_seq_effect_one(m, labels, ret, Instr::I64Const(v), s);
        assert(s.push(WasmValType::I64) =~= s + seq![WasmValType::I64]);
    }
}

/// Reading a local pushes its type.
pub proof fn lemma_code_local_get(m: WasmModule, l: usize)
    requires
        l < m.local_types@.len(),
    ensures
        code_pushes(m, seq![Instr::LocalGet(l)], seq![m.local_types@[l as int]]),
{
    let ty = m.local_types@[l as int];
    assert forall|labels: Seq<Seq<WasmValType>>, ret: Seq<WasmValType>, s: Seq<WasmValType>|
        #[trigger] seq_effect(m, labels, ret, seq![Instr::LocalGet(l)], s) == Some(s + seq![ty]) by {
        lemma_seq_effect_one(m, labels, ret, Instr::LocalGet(l), s);
        assert(s.push(ty) =~= s + seq![ty]);
    }
}

/// Writing a local consumes a value of its type.
pub proof fn lemma_code_local_set(m: WasmModule, l: usize)
    requires
        l < m.local_types@.len(),
    ensures
        code_xform(m, seq![Instr::LocalSet(l)], seq![m.local_types@[l as int]], Seq::empty()),
{
    let ty = m.local_types@[l as int];
    assert forall|labels: Seq<Seq<WasmValType>>, ret: Seq<WasmValType>, s: Seq<WasmValType>|
        #[trigger] seq_effect(m, labels, ret, seq![Instr::LocalSet(l)], s + seq![ty]) == Some(
            s + Seq::<WasmValType>::empty(),
        ) by {
        lemma_seq_effect_one(m, labels, ret, Instr::LocalSet(l), s + seq![ty]);
        lemma_stack_app(s, seq![ty]);
        assert(s + Seq::<WasmValType>::empty() =~= s);
    }
}

/// Teeing a local leaves the consumed value in place.
pub proof fn lemma_code_local_tee(m: WasmModule, l: usize)
    requires
        l < m.local_types@.len(),
    ensures
        code_xform(
            m,
            seq![Instr::LocalTee(l)],
            seq![m.local_types@[l as int]],
            seq![m.local_types@[l as int]],
        ),
{
    let ty = m.local_types@[l as int];
    assert forall|labels: Seq<Seq<WasmValType>>, ret: Seq<WasmValType>, s: Seq<WasmValType>|
        #[trigger] seq_effect(m, labels, ret, seq![Instr::LocalTee(l)], s + seq![ty]) == Some(
            s + seq![ty],
        ) by {
        lemma_seq_effect_one(m, labels, ret, Instr::LocalTee(l), s + seq![ty]);
        lemma_stack_app(s, seq![ty]);
    }
}

/// Reading a global pushes its type.
pub proof fn lemma_code_global_get(m: WasmModule, g: usize)
    requires
        g < m.globals@.len(),
    ensures
        code_pushes(m, seq![Instr::GlobalGet(g)], seq![m.globals@[g as int].ty]),
{
    let ty = m.globals@[g as int].ty;
    assert forall|labels: Seq<Seq<WasmValType>>, ret: Seq<WasmValType>, s: Seq<WasmValType>|
        #[trigger] seq_effect(m, labels, ret, seq![Instr::GlobalGet(g)], s) == Some(s + seq![ty]) by {
        lemma_seq_effect_one(m, labels, ret, Instr::GlobalGet(g), s);
        assert(s.push(ty) =~= s + seq![ty]);
    }
}

/// Writing a global consumes a value of its type.
pub proof fn lemma_code_global_set(m: WasmModule, g: usize)
    requires
        g < m.globals@.len(),
    ensures
        code_xform(m, seq![Instr::GlobalSet(g)], seq![m.globals@[g as int].ty], Seq::empty()),
{
    let ty = m.globals@[g as int].ty;
    assert forall|labels: Seq<Seq<WasmValType>>, ret: Seq<WasmValType>, s: Seq<WasmValType>|
        #[trigger] seq_effect(m, labels, ret, seq![Instr::GlobalSet(g)], s + seq![ty]) == Some(
            s + Seq::<WasmValType>::empty(),
        ) by {
        lemma_seq_effect_one(m, labels, ret, Instr::GlobalSet(g), s + seq![ty]);
        lemma_stack_app(s, seq![ty]);
        assert(s + Seq::<WasmValType>::empty() =~= s);
    }
}

/// A 32-bit binary operator consumes two `i32` and gives one.
pub proof fn lemma_code_binop32(m: WasmModule, i: Instr)
    requires
        i == Instr::I32Add || i == Instr::I32Sub || i == Instr::I32LtU,
    ensures
        code_xform(m, seq![i], seq![WasmValType::I32, WasmValType::I32], seq![WasmValType::I32]),
{
    let takes = seq![WasmValType::I32, WasmValType::I32];
    assert forall|labels: Seq<Seq<WasmValType>>, ret: Seq<WasmValType>, s: Seq<WasmValType>|
        #[trigger] seq_effect(m, labels, ret, seq![i], s + takes) == Some(
            s + seq![WasmValType::I32],
        ) by {
        lemma_seq_effect_one(m, labels, ret, i, s + takes);
        lemma_stack_app(s, takes);
        assert(stack_pop(s + takes, 1) =~= s + seq![WasmValType::I32]);
    }
}

/// A 64-bit load turns an address into a value.
pub proof fn lemma_code_i64_load(m: WasmModule, off: u32)
    ensures
        code_xform(m, seq![Instr::I64Load(off)], seq![WasmValType::I32], seq![WasmValType::I64]),
{
    assert forall|labels: Seq<Seq<WasmValType>>, ret: Seq<WasmValType>, s: Seq<WasmValType>|
        #[trigger] seq_effect(m, labels, ret, seq![Instr::I64Load(off)], s + seq![WasmValType::I32])
            == Some(s + seq![WasmValType::I64]) by {
        lemma_seq_effect_one(m, labels, ret, Instr::I64Load(off), s + seq![WasmValType::I32]);
        lemma_stack_app(s, seq![WasmValType::I32]);
        assert(stack_pop(s + seq![WasmValType::I32], 1).push(WasmValType::I64) =~= s
            + seq![WasmValType::I64]);
    }
}

/// A 64-bit store consumes an address and a value.
pub proof fn lemma_code_i64_store(m: WasmModule, off: u32)
    ensures
        code_xform(
            m,
            seq![Instr::I64Store(off)],
            seq![WasmValType::I32, WasmValType::I64],
            Seq::empty(),
        ),
{
    let takes = seq![WasmValType::I32, WasmValType::I64];
    assert forall|labels: Seq<Seq<WasmValType>>, ret: Seq<WasmValType>, s: Seq<WasmValType>|
        #[trigger] seq_effect(m, labels, ret, seq![Instr::I64Store(off)], s + takes) == Some(
            s + Seq::<WasmValType>::empty(),
        ) by {
        lemma_seq_effect_one(m, labels, ret, Instr::I64Store(off), s + takes);
        lemma_stack_app(s, takes);
        assert(stack_pop(s + takes, 2) =~= s);
        assert(s + Seq::<WasmValType>::empty() =~= s);
    }
}

/// A call consumes its parameter types and gives its result types.
pub proof fn lemma_code_call(m: WasmModule, f: usize)
    requires
        f < m.funcs@.len(),
    ensures
        code_xform(
            m,
            seq![Instr::Call(f)],
            m.funcs@[f as int].sig.params@,
            m.funcs@[f as int].sig.results@,
        ),
{
    let params = m.funcs@[f as int].sig.params@;
    let results = m.funcs@[f as int].sig.results@;
    assert forall|labels: Seq<Seq<WasmValType>>, ret: Seq<WasmValType>, s: Seq<WasmValType>|
        #[trigger] seq_effect(m, labels, ret, seq![Instr::Call(f)], s + params) == Some(
            s + results,
        ) by {
        lemma_seq_effect_one(m, labels, ret, Instr::Call(f), s + params);
        lemma_stack_app(s, params);
    }
}

/// Dropping consumes one value of any type.
pub proof fn lemma_code_drop(m: WasmModule, t: WasmValType)
    ensures
        code_xform(m, seq![Instr::DropValue], seq![t], Seq::empty()),
{
    assert forall|labels: Seq<Seq<WasmValType>>, ret: Seq<WasmValType>, s: Seq<WasmValType>|
        #[trigger] seq_effect(m, labels, ret, seq![Instr::DropValue], s + seq![t]) == Some(
            s + Seq::<WasmValType>::empty(),
        ) by {
        lemma_seq_effect_one(m, labels, ret, Instr::DropValue, s + seq![t]);
        lemma_stack_app(s, seq![t]);
        assert(s + Seq::<WasmValType>::empty() =~= s);
    }
}

/// A block whose body pushes its results pushes them on any stack.
pub proof fn lemma_code_block(m: WasmModule, results: Vec<WasmValType>, body: Vec<Instr>)
    requires
        code_pushes(m, body@, results@),
    ensures
        code_pushes(m, seq![Instr::Block { results, body }], results@),
{
    assert forall|labels: Seq<Seq<WasmValType>>, ret: Seq<WasmValType>, s: Seq<WasmValType>|
        #[trigger] seq_effect(m, labels, ret, seq![Instr::Block { results, body }], s) == Some(
            s + results@,
        ) by {
        lemma_seq_effect_one(m, labels, ret, Instr::Block { results, body }, s);
        assert(seq_effect(m, seq![results@] + labels, ret, body@, Seq::empty()) == Some(
            Seq::empty() + results@,
        ));
        assert(Seq::empty() + results@ =~= results@);
    }
}

/// A loop whose body maps its results to its results under its own label
/// consumes and reproduces them.
pub proof fn lemma_code_loop(m: WasmModule, results: Vec<WasmValType>, body: Vec<Instr>)
    requires
        forall|labels: Seq<Seq<WasmValType>>, ret: Seq<WasmValType>|
            #[trigger] seq_effect(m, seq![results@] + labels, ret, body@, results@) == Some(
                results@,
            ),
    ensures
        code_xform(m, seq![Instr::Loop { results, body }], results@, results@),
{
    assert forall|labels: Seq<Seq<WasmValType>>, ret: Seq<WasmValType>, s: Seq<WasmValType>|
        #[trigger] seq_effect(m, labels, ret, seq![Instr::Loop { results, body }], s + results@)
            == Some(s + results@) by {
        assert(seq_effect(m, seq![results@] + labels, ret, body@, results@) == Some(results@));
        lemma_seq_effect_one(m, labels, ret, Instr::Loop { results, body }, s + results@);
        lemma_stack_app(s, results@);
    }
}

/// `m2` continues `m1`: everything already in `m1` is still there,
/// unchanged and at the same index; globals and memories never change.
pub open spec fn module_extends(m1: WasmModule, m2: WasmModule) -> bool {
    &&& m1.funcs@.is_prefix_of(m2.funcs@)
    &&& m1.local_types@.is_prefix_of(m2.local_types@)
    &&& m2.globals@ == m1.globals@
    &&& m1.data@.is_prefix_of(m2.data@)
    &&& m1.exports@.is_prefix_of(m2.exports@)
    &&& m2.memories == m1.memories
}

pub proof fn lemma_prefix_refl<T>(a: Seq<T>)
    ensures
        a.is_prefix_of(a),
{
    assert(a =~= a.subrange(0, a.len() as int));
}

pub proof fn lemma_prefix_trans<T>(a: Seq<T>, b: Seq<T>, c: Seq<T>)
    requires
        a.is_prefix_of(b),
        b.is_prefix_of(c),
    ensures
        a.is_prefix_of(c),
{
    assert forall|i: int| 0 <= i < a.len() implies a[i] == c.subrange(0, a.len() as int)[i] by {
        assert(a[i] == b.subrange(0, a.len() as int)[i]);
        assert(b[i] == c.subrange(0, b.len() as int)[i]);
    }
    assert(a =~= c.subrange(0, a.len() as int));
}

pub proof fn lemma_module_extends_refl(m: WasmModule)
    ensures
        module_extends(m, m),
{
    lemma_prefix_refl(m.funcs@);
    lemma_prefix_refl(m.local_types@);
    lemma_prefix_refl(m.data@);
    lemma_prefix_refl(m.exports@);
}

pub proof fn lemma_module_extends_trans(m1: WasmModule, m2: WasmModule, m3: WasmModule)
    requires
        module_extends(m1, m2),
        module_extends(m2, m3),
    ensures
        module_extends(m1, m3),
{
    lemma_prefix_trans(m1.funcs@, m2.funcs@, m3.funcs@);
    lemma_prefix_trans(m1.local_types@, m2.local_types@, m3.local_types@);
    lemma_prefix_trans(m1.data@, m2.data@, m3.data@);
    lemma_prefix_trans(m1.exports@, m2.exports@, m3.exports@);
}

/// An element of a prefix is the same element of the longer sequence.
pub proof fn lemma_prefix_index<T>(a: Seq<T>, b: Seq<T>, i: int)
    requires
        a.is_prefix_of(b),
        0 <= i < a.len(),
    ensures
        a[i] == b[i],
{
    assert(a[i] == b.subrange(0, a.len() as int)[i]);
}

/// Code that is well-typed in a module keeps its effect in any extension.
pub proof fn lemma_instr_effect_extends(
    m1: WasmModule,
    m2: WasmModule,
    labels: Seq<Seq<WasmValType>>,
    ret: Seq<WasmValType>,
    i: Instr,
    s: Seq<WasmValType>,
)
    requires
        module_extends(m1, m2),
        instr_effect(m1, labels, ret, i, s).is_some(),
    ensures
        instr_effect(m2, labels, ret, i, s) == instr_effect(m1, labels, ret, i, s),
    decreases i, 0nat,
{
    match i {
        Instr::LocalGet(l) => {
            lemma_prefix_index(m1.local_types@, m2.local_types@, l as int);
        },
        Instr::LocalSet(l) => {
            lemma_prefix_index(m1.local_types@, m2.local_types@, l as int);
        },
        Instr::LocalTee(l) => {
            lemma_prefix_index(m1.local_types@, m2.local_types@, l as int);
        },
        Instr::Call(f) => {
            lemma_prefix_index(m1.funcs@, m2.funcs@, f as int);
        },
        Instr::Block { results, body } => {
            lemma_seq_effect_extends(m1, m2, seq![results@] + labels, ret, body@, Seq::empty());
        },
        Instr::Loop { results, body } => {
            lemma_seq_effect_extends(m1, m2, seq![results@] + labels, ret, body@, results@);
        },
        _ => {},
    }
}

pub proof fn lemma_seq_effect_extends(
    m1: WasmModule,
    m2: WasmModule,
    labels: Seq<Seq<WasmValType>>,
    ret: Seq<WasmValType>,
    code: Seq<Instr>,
    s: Seq<WasmValType>,
)
    requires
        module_extends(m1, m2),
        seq_effect(m1, labels, ret, code, s).is_some(),
    ensures
        seq_effect(m2, labels, ret, code, s) == seq_effect(m1, labels, ret, code, s),
    decreases code, 1nat,
{
    if code.len() > 0 {
        lemma_instr_effect_extends(m1, m2, labels, ret, code.first(), s);
        match instr_effect(m1, labels, ret, code.first(), s) {
            Some(t) => {
                lemma_seq_effect_extends(m1, m2, labels, ret, code.drop_first(), t);
            },
            None => {},
        }
    }
}

pub proof fn lemma_code_pushes_extends(
    m1: WasmModule,
    m2: WasmModule,
    code: Seq<Instr>,
    gives: Seq<WasmValType>,
)
    requires
        module_extends(m1, m2),
        code_pushes(m1, code, gives),
    ensures
        code_pushes(m2, code, gives),
{
    assert forall|labels: Seq<Seq<WasmValType>>, ret: Seq<WasmValType>, s: Seq<WasmValType>|
        #[trigger] seq_effect(m2, labels, ret, code, s) == Some(s + gives) by {
        assert(seq_effect(m1, labels, ret, code, s) == Some(s + gives));
        lemma_seq_effect_extends(m1, m2, labels, ret, code, s);
    }
}

/// A function body is well-typed for its signature: from an empty stack it
/// ends with exactly the declared results.
pub open spec fn func_wf(m: WasmModule, f: WasmFunction) -> bool {
    match f.body {
        FuncBody::External => true,
        FuncBody::Defined(code) => seq_effect(m, Seq::empty(), f.sig.results@, code@, Seq::empty())
            == Some(f.sig.results@),
    }
}

/// Every function of the module is well-typed.
pub open spec fn funcs_wf(m: WasmModule) -> bool {
    forall|i: int| 0 <= i < m.funcs@.len() ==> func_wf(m, #[trigger] m.funcs@[i])
}

pub proof fn lemma_func_wf_extends(m1: WasmModule, m2: WasmModule, f: WasmFunction)
    requires
        module_extends(m1, m2),
        func_wf(m1, f),
    ensures
        func_wf(m2, f),
{
    match f.body {
        FuncBody::Defined(code) => {
            lemma_seq_effect_extends(m1, m2, Seq::empty(), f.sig.results@, code@, Seq::empty());
        },
        FuncBody::External => {},
    }
}

/// The data segments lie below `literal_end` and do not overlap, in order.
pub open spec fn segments_wf(m: WasmModule, literal_end: u32) -> bool {
    &&& forall|i: int|
        0 <= i < m.data@.len() ==> (#[trigger] m.data@[i]).offset + m.data@[i].bytes@.len()
            <= literal_end
    &&& forall|i: int, j: int|
        0 <= i < j < m.data@.len() ==> (#[trigger] m.data@[i]).offset + m.data@[i].bytes@.len()
            <= (#[trigger] m.data@[j]).offset
}

/// The index of the first entry bearing a name, if any.
pub open spec fn first_named(fs: Seq<WasmFunction>, name: Seq<char>) -> Option<int>
    decreases fs.len(),
{
    if fs.len() == 0 {
        None
    } else if fs.first().name@ == name {
        Some(0)
    } else {
        match first_named(fs.drop_first(), name) {
            Some(i) => Some(i + 1),
            None => None,
        }
    }
}

/// The index of the first function of the module bearing a name, if any.
pub open spec fn first_func_named(m: WasmModule, name: Seq<char>) -> Option<int> {
    first_named(m.funcs@, name)
}

proof fn lemma_first_named_found(fs: Seq<WasmFunction>, name: Seq<char>, j: int)
    requires
        0 <= j < fs.len(),
        fs[j].name@ == name,
        forall|k: int| 0 <= k < j ==> (#[trigger] fs[k]).name@ != name,
    ensures
        first_named(fs, name) == Some(j),
    decreases j,
{
    if j == 0 {
    } else {
        assert(fs.first().name@ != name);
        lemma_first_named_found(fs.drop_first(), name, j - 1);
        assert(fs.drop_first()[j - 1] == fs[j]);
    }
}

proof fn lemma_first_named_none(fs: Seq<WasmFunction>, name: Seq<char>)
    requires
        forall|k: int| 0 <= k < fs.len() ==> (#[trigger] fs[k]).name@ != name,
    ensures
        first_named(fs, name) is None,
    decreases fs.len(),
{
    if fs.len() > 0 {
        lemma_first_named_none(fs.drop_first(), name);
    }
}

impl WasmModule {
    /// Finds the first function with the given name.
    pub fn func_by_name(&self, name: &String) -> (r: Option<usize>)
        ensures
            r matches Some(f) ==> f < self.funcs@.len() && self.funcs@[f as int].name@ == name@
                && (forall|j: int| 0 <= j < f ==> self.funcs@[j].name@ != name@)
                && first_func_named(*self, name@) == Some(f as int),
            r is None ==> (forall|j: int|
                0 <= j < self.funcs@.len() ==> self.funcs@[j].name@ != name@)
                && first_func_named(*self, name@) is None,
    {
        let n = self.funcs.len();
        let mut i: usize = 0;
        while i < n
            invariant
                n == self.funcs@.len(),
                i <= n,
                forall|j: int| 0 <= j < i ==> self.funcs@[j].name@ != name@,
            decreases n - i,
        {
            if self.funcs[i].name == *name {
                proof {
                    lemma_first_named_found(self.funcs@, name@, i as int);
                }
                return Some(i);
            }
            i = i + 1;
        }
        proof {
            lemma_first_named_none(self.funcs@, name@);
        }
        None
    }

    /// Finds the first global with the given name.
    pub fn global_by_name(&self, name: &String) -> (r: Option<usize>)
        ensures
            r matches Some(g) ==> g < self.globals@.len() && self.globals@[g as int].name@
                == name@ && (forall|j: int| 0 <= j < g ==> self.globals@[j].name@ != name@),
            r is None ==> forall|j: int|
                0 <= j < self.globals@.len() ==> self.globals@[j].name@ != name@,
    {
        let n = self.globals.len();
        let mut i: usize = 0;
        while i < n
            invariant
                n == self.globals@.len(),
                i <= n,
                forall|j: int| 0 <= j < i ==> self.globals@[j].name@ != name@,
            decreases n - i,
        {
            if self.globals[i].name == *name {
                return Some(i);
            }
            i = i + 1;
        }
        None
    }

    /// Allocates a fresh local of the given type from the module-wide pool.
    pub fn add_local(&mut self, ty: WasmValType) -> (l: usize)
        ensures
            l == old(self).local_types@.len(),
            final(self).local_types@ == old(self).local_types@.push(ty),
            final(self).funcs == old(self).funcs,
            final(self).globals == old(self).globals,
            final(self).data == old(self).data,
            final(self).exports == old(self).exports,
            final(self).memories == old(self).memories,
            module_extends(*old(self), *final(self)),
    {
        let l = self.local_types.len();
        self.local_types.push(ty);
        proof {
            lemma_module_extends_refl(*old(self));
            assert(old(self).local_types@.is_prefix_of(self.local_types@)) by {
                assert(old(self).local_types@ =~= self.local_types@.subrange(
                    0,
                    old(self).local_types@.len() as int,
                ));
            }
        }
        l
    }

    /// Appends a data segment with the given placement.
    pub fn add_data(&mut self, offset: u32, bytes: Vec<u8>)
        ensures
            final(self).data@ == old(self).data@.push(DataSegment { offset, bytes }),
            final(self).funcs == old(self).funcs,
            final(self).globals == old(self).globals,
            final(self).local_types == old(self).local_types,
            final(self).exports == old(self).exports,
            final(self).memories == old(self).memories,
            module_extends(*old(self), *final(self)),
    {
        self.data.push(DataSegment { offset, bytes });
        proof {
            lemma_module_extends_refl(*old(self));
            assert(old(self).data@.is_prefix_of(self.data@)) by {
                assert(old(self).data@ =~= self.data@.subrange(0, old(self).data@.len() as int));
            }
        }
    }

    /// Appends a function and returns its index.
    pub fn add_func(&mut self, f: WasmFunction) -> (idx: usize)
        ensures
            idx == old(self).funcs@.len(),
            final(self).funcs@ == old(self).funcs@.push(f),
            final(self).globals == old(self).globals,
            final(self).local_types == old(self).local_types,
            final(self).data == old(self).data,
            final(self).exports == old(self).exports,
            final(self).memories == old(self).memories,
            module_extends(*old(self), *final(self)),
    {
        let idx = self.funcs.len();
        self.funcs.push(f);
        proof {
            lemma_module_extends_refl(*old(self));
            assert(old(self).funcs@.is_prefix_of(self.funcs@)) by {
                assert(old(self).funcs@ =~= self.funcs@.subrange(0, old(self).funcs@.len() as int));
            }
        }
        idx
    }

    /// Registers an export of function `f` under `name`.
    pub fn add_export(&mut self, name: String, f: usize)
        ensures
            final(self).exports@ == old(self).exports@.push(WasmExport { name, func: f }),
            final(self).funcs == old(self).funcs,
            final(self).globals == old(self).globals,
            final(self).local_types == old(self).local_types,
            final(self).data == old(self).data,
            final(self).memories == old(self).memories,
            module_extends(*old(self), *final(self)),
    {
        self.exports.push(WasmExport { name, func: f });
        proof {
            lemma_module_extends_refl(*old(self));
            assert(old(self).exports@.is_prefix_of(self.exports@)) by {
                assert(old(self).exports@ =~= self.exports@.subrange(
                    0,
                    old(self).exports@.len() as int,
                ));
            }
        }
    }
}

/// The value-stack signature of a 128-bit arithmetic helper: two operands
/// of two 64-bit halves each, one result of two halves.
pub open spec fn arith_params() -> Seq<WasmValType> {
    seq![WasmValType::I64, WasmValType::I64, WasmValType::I64, WasmValType::I64]
}

pub open spec fn arith_results() -> Seq<WasmValType> {
    seq![WasmValType::I64, WasmValType::I64]
}

/// The name of the `k`-th standard-library function.
pub open spec fn std_name(k: int) -> Seq<char> {
    if k == 0 {
        "add-int"@
    } else if k == 1 {
        "sub-int"@
    } else if k == 2 {
        "mul-int"@
    } else if k == 3 {
        "div-int"@
    } else if k == 4 {
        "mod-int"@
    } else if k == 5 {
        "add-uint"@
    } else if k == 6 {
        "sub-uint"@
    } else if k == 7 {
        "mul-uint"@
    } else if k == 8 {
        "div-uint"@
    } else if k == 9 {
        "mod-uint"@
    } else if k == 10 {
        "memcpy"@
    } else if k == 11 {
        "define_variable"@
    } else if k == 12 {
        "get_variable"@
    } else {
        "set_variable"@
    }
}

/// The parameter shape of the `k`-th standard-library function.
pub open spec fn std_params(k: int) -> Seq<WasmValType> {
    if k < 10 {
        arith_params()
    } else if k == 10 {
        seq![WasmValType::I32, WasmValType::I32, WasmValType::I32]
    } else if k == 11 {
        seq![
            WasmValType::I32,
            WasmValType::I32,
            WasmValType::I32,
            WasmValType::I32,
            WasmValType::I32,
        ]
    } else {
        seq![WasmValType::I32, WasmValType::I32, WasmValType::I32]
    }
}

/// The result shape of the `k`-th standard-library function.
pub open spec fn std_results(k: int) -> Seq<WasmValType> {
    if k < 10 {
        arith_results()
    } else if k == 10 {
        seq![WasmValType::I32]
    } else {
        Seq::empty()
    }
}

/// The module starts with the standard library: fourteen helpers at fixed
/// indices, a single `stack-pointer` global, and one linear memory.
pub open spec fn standard_prefix(m: WasmModule) -> bool {
    &&& m.funcs@.len() >= 14
    &&& forall|k: int|
        0 <= k < 14 ==> (#[trigger] m.funcs@[k]).name@ == std_name(k) && m.funcs@[k].sig.params@
            == std_params(k) && m.funcs@[k].sig.results@ == std_results(k)
    &&& m.globals@.len() == 1
    &&& m.globals@[0].name@ == "stack-pointer"@
    &&& m.globals@[0].ty == WasmValType::I32
    &&& m.memories == 1
}

/// The index of the stack-pointer global in the standard module.
pub open spec fn sp_global() -> int {
    0
}

/// A standard-library function: externally provided, with a known signature.
fn ext_func(name: &str, params: Vec<WasmValType>, results: Vec<WasmValType>) -> (f: WasmFunction)
    ensures
        f.name@ == name@,
        f.sig.params@ == params@,
        f.sig.results@ == results@,
        f.body == FuncBody::External,
{
    WasmFunction {
        name: name.to_owned(),
        sig: FuncSig { params, results },
        body: FuncBody::External,
        param_locals: Vec::new(),
    }
}

pub fn arith_params_vec() -> (v: Vec<WasmValType>)
    ensures
        v@ == arith_params(),
{
    let v = vec![WasmValType::I64, WasmValType::I64, WasmValType::I64, WasmValType::I64];
    proof {
        assert(v@ =~= arith_params());
    }
    v
}

pub fn arith_results_vec() -> (v: Vec<WasmValType>)
    ensures
        v@ == arith_results(),
{
    let v = vec![WasmValType::I64, WasmValType::I64];
    proof {
        assert(v@ =~= arith_results());
    }
    v
}

pub fn i32s_vec(n: usize) -> (v: Vec<WasmValType>)
    ensures
        v@ == Seq::new(n as nat, |i: int| WasmValType::I32),
{
    let mut v: Vec<WasmValType> = Vec::new();
    let mut i: usize = 0;
    while i < n
        invariant
            i <= n,
            v@ == Seq::new(i as nat, |j: int| WasmValType::I32),
        decreases n - i,
    {
        v.push(WasmValType::I32);
        i = i + 1;
        proof {
            assert(v@ =~= Seq::new(i as nat, |j: int| WasmValType::I32));
        }
    }
    v
}

/// Builds the initial module: the prebuilt standard library as the code
/// generator relies on it, with its helpers, its stack-pointer global and
/// its single memory, and nothing generated yet.
pub fn standard_module() -> (m: WasmModule)
    ensures
        standard_prefix(m),
        m.funcs@.len() == 14,
        forall|k: int| 0 <= k < 14 ==> (#[trigger] m.funcs@[k]).body == FuncBody::External,
        m.local_types@.len() == 0,
        m.data@.len() == 0,
        m.exports@.len() == 0,
        funcs_wf(m),
{
    let mut funcs: Vec<WasmFunction> = Vec::new();
    funcs.push(ext_func("add-int", arith_params_vec(), arith_results_vec()));
    funcs.push(ext_func("sub-int", arith_params_vec(), arith_results_vec()));
    funcs.push(ext_func("mul-int", arith_params_vec(), arith_results_vec()));
    funcs.push(ext_func("div-int", arith_params_vec(), arith_results_vec()));
    funcs.push(ext_func("mod-int", arith_params_vec(), arith_results_vec()));
    funcs.push(ext_func("add-uint", arith_params_vec(), arith_results_vec()));
    funcs.push(ext_func("sub-uint", arith_params_vec(), arith_results_vec()));
    funcs.push(ext_func("mul-uint", arith_params_vec(), arith_results_vec()));
    funcs.push(ext_func("div-uint", arith_params_vec(), arith_results_vec()));
    funcs.push(ext_func("mod-uint", arith_params_vec(), arith_results_vec()));
    funcs.push(ext_func("memcpy", i32s_vec(3), i32s_vec(1)));
    funcs.push(ext_func("define_variable", i32s_vec(5), Vec::new()));
    funcs.push(ext_func("get_variable", i32s_vec(3), Vec::new()));
    funcs.push(ext_func("set_variable", i32s_vec(3), Vec::new()));
    let globals = vec![WasmGlobal { name: "stack-pointer".to_owned(), ty: WasmValType::I32 }];
    let m = WasmModule {
        funcs,
        local_types: Vec::new(),
        globals,
        data: Vec::new(),
        exports: Vec::new(),
        memories: 1,
    };
    proof {
        assert forall|k: int| 0 <= k < 14 implies (#[trigger] m.funcs@[k]).name@ == std_name(k)
            && m.funcs@[k].sig.params@ == std_params(k) && m.funcs@[k].sig.results@ == std_results(
            k,
        ) && m.funcs@[k].body == FuncBody::External by {
            assert(std_params(10) =~= Seq::new(3nat, |i: int| WasmValType::I32));
            assert(std_params(11) =~= Seq::new(5nat, |i: int| WasmValType::I32));
            assert(std_params(12) =~= Seq::new(3nat, |i: int| WasmValType::I32));
            assert(std_params(13) =~= Seq::new(3nat, |i: int| WasmValType::I32));
            assert(std_results(10) =~= Seq::new(1nat, |i: int| WasmValType::I32));
            assert(std_results(11) =~= Seq::<WasmValType>::empty());
        }
        assert forall|i: int| 0 <= i < m.funcs@.len() implies func_wf(m, #[trigger] m.funcs@[i]) by {
            assert(m.funcs@[i].body == FuncBody::External);
        }
    }
    m
}

} // verus!
