//! The code generator: walks the typed syntax tree and emits instructions
//! into the module model, maintaining the literal region, the stack-pointer
//! discipline, the identifier registry and the per-function environment.

use vstd::prelude::*;

use crate::ast::{
    assoc, exports_of, exports_of_list, is_statement, out_slots, ArithOp, ContractAnalysis,
    ExprKind, FunctionType, LiteralValue, TypedExpr,
};
use crate::types::{
    clar2wasm_ty, get_type_size, has_size, size_fits, slots_spec, type_size_spec, ClarityType,
    GeneratorError, WasmValType,
};
use crate::wasm::{
    arith_params, arith_params_vec, arith_results, arith_results_vec, first_func_named, i32s_vec, code_pushes, code_xform, funcs_wf, instr_effect,
    lemma_code_app_pushes, lemma_code_binop32, lemma_code_block, lemma_code_call, lemma_code_compose,
    lemma_code_drop, lemma_code_empty, lemma_code_global_get, lemma_code_global_set,
    lemma_code_i32_const, lemma_code_i64_const, lemma_code_i64_load, lemma_code_i64_store,
    lemma_code_local_get, lemma_code_local_set, lemma_code_local_tee, lemma_code_loop,
    lemma_code_pushes_extends, lemma_func_wf_extends, lemma_module_extends_refl,
    lemma_module_extends_trans, lemma_prefix_index, lemma_prefix_refl, lemma_prefix_trans,
    lemma_pushes_as_xform, lemma_seq_effect_app, lemma_seq_effect_one,
    lemma_stack_app, lemma_xform_then_consume_deeper,
    lemma_xform_then_consume_own, lemma_xform_then_push, module_extends, segments_wf, seq_effect,
    sp_global, stack_has, stack_pop, standard_module, standard_prefix, std_name, std_params,
    std_results, DataSegment, FuncBody, FuncSig, Instr, WasmFunction, WasmModule,
};

verus! {

/// A binding of one lowered slot of a named source value to a target local.
#[derive(Debug, PartialEq, Eq)]
pub struct LocalBinding {
    pub name: String,
    pub slot: usize,
    pub local: usize,
}

/// The kind of a function definition.
pub enum FunctionKind {
    Public,
    Private,
    ReadOnly,
}

/// The generator: owns the module under construction and all bookkeeping.
pub struct WasmGenerator {
    /// The analysis delivered by the type checker: expressions and function
    /// type registries.
    pub contract_analysis: ContractAnalysis,
    /// The module under construction.
    pub module: WasmModule,
    /// The first error recorded during generation, if any.
    pub error: Option<GeneratorError>,
    /// Offset of the end of the literal memory region.
    pub literal_memory_end: u32,
    /// Index of the stack-pointer global.
    pub stack_pointer: usize,
    /// Names of persistent identifiers, in order of allocation; the id of a
    /// name is its index here.
    pub identifiers: Vec<(String, i32)>,
    /// The next identifier to hand out.
    pub next_identifier: i32,
    /// The local environment of the function being lowered.
    pub locals: Vec<LocalBinding>,
    /// Bytes of call-stack frame space requested by the current function.
    pub frame_size: u64,
}

/// The identifier registry is dense: the `i`-th allocated name has id `i`,
/// names are never registered twice, and the counter counts them.
pub open spec fn ids_wf(g: WasmGenerator) -> bool {
    &&& g.identifiers@.len() == g.next_identifier
    &&& forall|i: int| 0 <= i < g.identifiers@.len() ==> (#[trigger] g.identifiers@[i]).1 == i
    &&& forall|i: int, j: int|
        #![trigger g.identifiers@[i], g.identifiers@[j]]
        0 <= i < j < g.identifiers@.len() ==> g.identifiers@[i].0@ != g.identifiers@[j].0@
}

/// Every binding of the local environment names an allocated local.
pub open spec fn env_wf(env: Seq<LocalBinding>, m: WasmModule) -> bool {
    forall|i: int| 0 <= i < env.len() ==> (#[trigger] env[i]).local < m.local_types@.len()
}

/// First-match lookup of a (name, slot) binding.
pub open spec fn env_lookup(env: Seq<LocalBinding>, name: Seq<char>, slot: int) -> Option<usize>
    decreases env.len(),
{
    if env.len() == 0 {
        None
    } else if env.first().name@ == name && env.first().slot == slot {
        Some(env.first().local)
    } else {
        env_lookup(env.drop_first(), name, slot)
    }
}

proof fn lemma_env_lookup_found(env: Seq<LocalBinding>, name: Seq<char>, slot: int, j: int)
    requires
        0 <= j < env.len(),
        env[j].name@ == name && env[j].slot == slot,
        forall|k: int|
            0 <= k < j ==> !((#[trigger] env[k]).name@ == name && env[k].slot == slot),
    ensures
        env_lookup(env, name, slot) == Some(env[j].local),
    decreases j,
{
    if j == 0 {
    } else {
        assert(!(env[0].name@ == name && env[0].slot == slot));
        lemma_env_lookup_found(env.drop_first(), name, slot, j - 1);
        assert(env.drop_first()[j - 1] == env[j]);
    }
}

proof fn lemma_env_lookup_none(env: Seq<LocalBinding>, name: Seq<char>, slot: int)
    requires
        forall|k: int|
            0 <= k < env.len() ==> !((#[trigger] env[k]).name@ == name && env[k].slot == slot),
    ensures
        env_lookup(env, name, slot) is None,
    decreases env.len(),
{
    if env.len() > 0 {
        lemma_env_lookup_none(env.drop_first(), name, slot);
    }
}

/// Looks up the local bound to slot `slot` of name `name`.
pub fn env_get(env: &Vec<LocalBinding>, name: &String, slot: usize) -> (r: Option<usize>)
    ensures
        r == env_lookup(env@, name@, slot as int),
{
    let n = env.len();
    let mut i: usize = 0;
    while i < n
        invariant
            n == env@.len(),
            i <= n,
            forall|k: int|
                0 <= k < i ==> !((#[trigger] env@[k]).name@ == name@ && env@[k].slot
                    == slot as int),
        decreases n - i,
    {
        if env[i].name == *name && env[i].slot == slot {
            proof {
                lemma_env_lookup_found(env@, name@, slot as int, i as int);
            }
            return Some(env[i].local);
        }
        i = i + 1;
    }
    proof {
        lemma_env_lookup_none(env@, name@, slot as int);
    }
    None
}

/// The generator's internal consistency: the standard library prefix is in
/// place, every generated function is well-typed, the literal region covers
/// all data segments without overlap, the identifier registry is dense, and
/// the environment names real locals.
pub open spec fn gen_inv(g: WasmGenerator) -> bool {
    &&& standard_prefix(g.module)
    &&& funcs_wf(g.module)
    &&& segments_wf(g.module, g.literal_memory_end)
    &&& g.stack_pointer == sp_global()
    &&& ids_wf(g)
    &&& env_wf(g.locals@, g.module)
}

/// How one generator state may follow another: the module only extends, the
/// literal region only grows, identifiers are only appended, and the input
/// analysis and the stack-pointer handle never change.
pub open spec fn evolves(g1: WasmGenerator, g2: WasmGenerator) -> bool {
    &&& module_extends(g1.module, g2.module)
    &&& g2.literal_memory_end >= g1.literal_memory_end
    &&& g2.contract_analysis == g1.contract_analysis
    &&& g2.stack_pointer == g1.stack_pointer
    &&& g1.identifiers@.is_prefix_of(g2.identifiers@)
    &&& g2.next_identifier >= g1.next_identifier
}

pub proof fn lemma_evolves_refl(g: WasmGenerator)
    ensures
        evolves(g, g),
{
    lemma_module_extends_refl(g.module);
    lemma_prefix_refl(g.identifiers@);
}

pub proof fn lemma_evolves_trans(g1: WasmGenerator, g2: WasmGenerator, g3: WasmGenerator)
    requires
        evolves(g1, g2),
        evolves(g2, g3),
    ensures
        evolves(g1, g3),
{
    lemma_module_extends_trans(g1.module, g2.module, g3.module);
    lemma_prefix_trans(g1.identifiers@, g2.identifiers@, g3.identifiers@);
}

/// The body of the loop a fold emits: read the element at the address in
/// `off2`, fold it into the accumulator through function `f`, advance the
/// address by sixteen, and branch back while it is below `end2`.
pub open spec fn fold_loop_body(f: usize, off2: usize, end2: usize) -> Seq<Instr> {
    (read_i128_code(off2) + seq![Instr::Call(f)]) + seq![
        Instr::LocalGet(off2),
        Instr::I32Const(16),
        Instr::I32Add,
        Instr::LocalSet(off2),
    ] + seq![Instr::LocalGet(off2), Instr::LocalGet(end2), Instr::I32LtU] + seq![Instr::BrIf(0)]
}

/// The instructions that fill the elements of a list whose slot base is in
/// local `off`: for each element in order, its lowered value followed by a
/// sixteen-byte store at byte offset sixteen times its index.
pub open spec fn list_elems_code(m: WasmModule, off: usize, code: Seq<Instr>, k: nat) -> bool
    decreases k,
{
    if k == 0 {
        code == Seq::<Instr>::empty()
    } else {
        exists|pre: Seq<Instr>, d: Seq<Instr>, h: usize, l: usize|
            #![trigger pre + (d + write_i128_code(off, h, l, (((k - 1) * 16) as u32)))]
            code == pre + (d + write_i128_code(off, h, l, (((k - 1) * 16) as u32)))
                && list_elems_code(m, off, pre, (k - 1) as nat) && code_pushes(m, d, i64_pair())
    }
}

/// Element-filling code keeps its reading in any module extension.
pub proof fn lemma_list_elems_code_extends(
    m1: WasmModule,
    m2: WasmModule,
    off: usize,
    code: Seq<Instr>,
    k: nat,
)
    requires
        module_extends(m1, m2),
        list_elems_code(m1, off, code, k),
    ensures
        list_elems_code(m2, off, code, k),
    decreases k,
{
    if k > 0 {
        let (pre, d, h, l) = choose|pre: Seq<Instr>, d: Seq<Instr>, h: usize, l: usize|
            #![trigger pre + (d + write_i128_code(off, h, l, (((k - 1) * 16) as u32)))]
            code == pre + (d + write_i128_code(off, h, l, (((k - 1) * 16) as u32)))
                && list_elems_code(m1, off, pre, (k - 1) as nat) && code_pushes(m1, d, i64_pair());
        lemma_list_elems_code_extends(m1, m2, off, pre, (k - 1) as nat);
        lemma_code_pushes_extends(m1, m2, d, i64_pair());
        assert(list_elems_code(m2, off, code, k));
    }
}

/// The stack shape of a sequence value: memory offset and byte length.
pub open spec fn i32_pair() -> Seq<WasmValType> {
    seq![WasmValType::I32, WasmValType::I32]
}

/// The stack shape of one 128-bit integer: two 64-bit halves.
pub open spec fn i64_pair() -> Seq<WasmValType> {
    seq![WasmValType::I64, WasmValType::I64]
}

/// The zero constant of a scalar kind.
pub open spec fn placeholder_instr(t: WasmValType) -> Instr {
    match t {
        WasmValType::I32 => Instr::I32Const(0),
        WasmValType::I64 => Instr::I64Const(0),
    }
}

/// Zero constants for a whole stack shape.
pub open spec fn placeholder_code(ts: Seq<WasmValType>) -> Seq<Instr> {
    ts.map_values(|t: WasmValType| placeholder_instr(t))
}

/// Placeholder code pushes exactly its shape.
pub proof fn lemma_code_placeholders(m: WasmModule, ts: Seq<WasmValType>)
    ensures
        code_pushes(m, placeholder_code(ts), ts),
    decreases ts.len(),
{
    if ts.len() == 0 {
        lemma_code_empty(m);
        assert(placeholder_code(ts) =~= Seq::<Instr>::empty());
        assert(ts =~= Seq::<WasmValType>::empty());
    } else {
        let ts0 = ts.drop_last();
        let last = ts.last();
        lemma_code_placeholders(m, ts0);
        match last {
            WasmValType::I32 => lemma_code_i32_const(m, 0),
            WasmValType::I64 => lemma_code_i64_const(m, 0),
        }
        lemma_code_app_pushes(m, placeholder_code(ts0), seq![placeholder_instr(last)], ts0, seq![last]);
        assert(placeholder_code(ts) =~= placeholder_code(ts0) + seq![placeholder_instr(last)]);
        assert(ts0 + seq![last] =~= ts);
    }
}

/// The instructions that allocate a frame slot: remember the stack pointer
/// as the slot address and advance it by the slot size.
pub open spec fn frame_alloc_code(sp: usize, off: usize, size: u32) -> Seq<Instr> {
    seq![
        Instr::GlobalGet(sp),
        Instr::LocalTee(off),
        Instr::I32Const(size as i32),
        Instr::I32Add,
        Instr::GlobalSet(sp),
    ]
}

/// The instructions that store a 128-bit value from the stack at the address
/// in `off_local` plus `offset` (high half first, low half at `offset + 8`).
pub open spec fn write_i128_code(off_local: usize, high: usize, low: usize, offset: u32) -> Seq<
    Instr,
> {
    seq![
        Instr::LocalSet(low),
        Instr::LocalSet(high),
        Instr::LocalGet(off_local),
        Instr::LocalGet(high),
        Instr::I64Store(offset),
        Instr::LocalGet(off_local),
        Instr::LocalGet(low),
        Instr::I64Store((offset + 8) as u32),
    ]
}

/// The instructions that push the 128-bit value at the address in
/// `off_local` (high half first).
pub open spec fn read_i128_code(off_local: usize) -> Seq<Instr> {
    seq![
        Instr::LocalGet(off_local),
        Instr::I64Load(0),
        Instr::LocalGet(off_local),
        Instr::I64Load(8),
    ]
}

impl WasmGenerator {
    /// Builds a fresh generator over the standard-library module, resolving
    /// the stack-pointer global by name.
    pub fn new(contract_analysis: ContractAnalysis) -> (g: WasmGenerator)
        ensures
            gen_inv(g),
            g.error is None,
            g.contract_analysis == contract_analysis,
            g.literal_memory_end == 0,
            g.next_identifier == 0,
            g.identifiers@.len() == 0,
            g.locals@.len() == 0,
            g.module.data@.len() == 0,
            g.module.exports@.len() == 0,
            g.module.funcs@.len() == 14,
            g.frame_size == 0,
    {
        let module = standard_module();
        let sp_name = "stack-pointer".to_owned();
        let stack_pointer = match module.global_by_name(&sp_name) {
            Some(g) => g,
            None => {
                proof {
                    assert(module.globals@[0].name@ == "stack-pointer"@);
                    assert(false);
                }
                0
            },
        };
        WasmGenerator {
            contract_analysis,
            module,
            error: None,
            literal_memory_end: 0,
            stack_pointer,
            identifiers: Vec::new(),
            next_identifier: 0,
            locals: Vec::new(),
            frame_size: 0,
        }
    }

    /// Records an error; the caller aborts the walk.
    fn record_error(&mut self, e: GeneratorError)
        ensures
            *final(self) == (WasmGenerator { error: Some(e), ..*old(self) }),
    {
        self.error = Some(e);
    }

    /// The resolved source type of a node.
    pub fn get_expr_type<'a>(&self, expr: &'a TypedExpr) -> (t: &'a ClarityType)
        ensures
            *t == expr.ty,
    {
        &expr.ty
    }

    /// Hands out the next dense identifier.
    fn get_next_identifier(&mut self) -> (id: i32)
        requires
            old(self).next_identifier < i32::MAX,
        ensures
            id == old(self).next_identifier,
            *final(self) == (WasmGenerator {
                next_identifier: (old(self).next_identifier + 1) as i32,
                ..*old(self)
            }),
    {
        let id = self.next_identifier;
        self.next_identifier = self.next_identifier + 1;
        id
    }

    /// Interns bytes at the end of the literal region as a new data segment
    /// and returns its placement.  Fails only when the literal region would
    /// outgrow the 32-bit address space.
    pub fn add_string_literal(&mut self, data: Vec<u8>) -> (r: Result<
        (u32, u32),
        GeneratorError,
    >)
        requires
            segments_wf(old(self).module, old(self).literal_memory_end),
        ensures
            r.is_ok() <==> old(self).literal_memory_end + data@.len() <= u32::MAX,
            r matches Ok((off, len)) ==> off == old(self).literal_memory_end && len == data@.len()
                && final(self).module.data@ == old(self).module.data@.push(
                DataSegment { offset: off, bytes: data },
            ) && final(self).literal_memory_end == off + len && final(self).module == (WasmModule {
                data: final(self).module.data,
                ..old(self).module
            }) && *final(self) == (WasmGenerator {
                module: final(self).module,
                literal_memory_end: final(self).literal_memory_end,
                ..*old(self)
            }) && segments_wf(final(self).module, final(self).literal_memory_end)
                && module_extends(old(self).module, final(self).module),
            r is Err ==> *final(self) == *old(self),
    {
        let remaining = u32::MAX - self.literal_memory_end;
        if data.len() > remaining as usize {
            return Err(GeneratorError::InternalError(
                "literal region outgrew the address space".to_owned(),
            ));
        }
        let offset = self.literal_memory_end;
        let len = data.len() as u32;
        let ghost old_data = self.module.data@;
        self.module.add_data(offset, data);
        self.literal_memory_end = offset + len;
        proof {
            let d = self.module.data@;
            assert forall|i: int| 0 <= i < d.len() implies (#[trigger] d[i]).offset
                + d[i].bytes@.len() <= self.literal_memory_end by {
                if i < d.len() - 1 {
                    assert(d[i] == old_data[i]);
                }
            }
            assert forall|i: int, j: int|
                0 <= i < j < d.len() implies (#[trigger] d[i]).offset + d[i].bytes@.len()
                <= (#[trigger] d[j]).offset by {
                assert(d[i] == old_data[i]);
                if j < d.len() - 1 {
                    assert(d[j] == old_data[j]);
                }
            }
        }
        Ok((offset, len))
    }

    /// Interns the bytes of an identifier's name in the literal region.
    pub fn add_identifier_string_literal(&mut self, name: &String) -> (r: Result<
        (u32, u32),
        GeneratorError,
    >)
        requires
            segments_wf(old(self).module, old(self).literal_memory_end),
        ensures
            r.is_ok() <==> old(self).literal_memory_end + vstd::utf8::encode_utf8(name@).len()
                <= u32::MAX,
            r matches Ok((off, len)) ==> off == old(self).literal_memory_end && len
                == vstd::utf8::encode_utf8(name@).len() && final(self).module.data@.len() == old(self).module.data@.len() + 1 && final(self).module.data@.last().offset == off && final(self).module.data@.last().bytes@ == vstd::utf8::encode_utf8(name@) && final(self).literal_memory_end == off + len && (*final(self) == (WasmGenerator {
                module: final(self).module,
                literal_memory_end: final(self).literal_memory_end,
                ..*old(self)
            })) && (final(self).module == (WasmModule {
                data: final(self).module.data,
                ..old(self).module
            })) && segments_wf(final(self).module, final(self).literal_memory_end)
                && module_extends(old(self).module, final(self).module),
            r is Err ==> *final(self) == *old(self),
    {
        let bytes = vstd::slice::slice_to_vec(name.as_str().as_bytes());
        self.add_string_literal(bytes)
    }

    /// Pushes a placeholder constant of the given scalar kind.
    pub fn add_placeholder_for_type(&self, builder: Vec<Instr>, ty: WasmValType) -> (r: Vec<
        Instr,
    >)
        ensures
            r@ == builder@.push(placeholder_instr(ty)),
    {
        let mut b = builder;
        match ty {
            WasmValType::I32 => b.push(Instr::I32Const(0)),
            WasmValType::I64 => b.push(Instr::I64Const(0)),
        }
        b
    }

    /// Emits the allocation of a frame slot sized for `ty`: the returned
    /// local holds the slot's address, and the stack pointer advances by the
    /// returned size.  The emitted code leaves the value stack unchanged.
    pub fn create_call_stack_local(
        &mut self,
        builder: Vec<Instr>,
        stack_pointer: usize,
        ty: &ClarityType,
    ) -> (r: Result<(Vec<Instr>, usize, u32), Vec<Instr>>)
        requires
            gen_inv(*old(self)),
            stack_pointer == old(self).stack_pointer,
        ensures
            gen_inv(*final(self)),
            evolves(*old(self), *final(self)),
            final(self).locals == old(self).locals,
            final(self).identifiers == old(self).identifiers,
            final(self).next_identifier == old(self).next_identifier,
            final(self).literal_memory_end == old(self).literal_memory_end,
            final(self).module.funcs == old(self).module.funcs,
            final(self).module.data == old(self).module.data,
            final(self).module.exports == old(self).module.exports,
            final(self).contract_analysis == old(self).contract_analysis,
            r.is_ok() <==> has_size(*ty) && size_fits(*ty) && type_size_spec(*ty) <= i32::MAX
                && old(self).frame_size + type_size_spec(*ty) <= u64::MAX,
            r matches Ok((b, off, size)) ==> size == type_size_spec(*ty) && off == old(self).module.local_types@.len() && final(self).module.local_types@ == old(self).module.local_types@.push(WasmValType::I32) && b@ == builder@ + frame_alloc_code(
                stack_pointer,
                off,
                size,
            ) && code_pushes(
                final(self).module,
                frame_alloc_code(stack_pointer, off, size),
                Seq::empty(),
            ) && final(self).error == old(self).error && final(self).frame_size == old(self).frame_size + size,
            r matches Err(b) ==> b@ == builder@ && final(self).error is Some && (*final(self) == (
            WasmGenerator { error: final(self).error, ..*old(self) })),
    {
        let size = match get_type_size(ty) {
            Ok(s) => s,
            Err(e) => {
                self.record_error(e);
                proof {
                    lemma_evolves_refl(*old(self));
                }
                return Err(builder);
            },
        };
        if size > i32::MAX as u32 {
            self.record_error(GeneratorError::InternalError(
                "frame slot exceeds the address space".to_owned(),
            ));
            proof {
                lemma_evolves_refl(*old(self));
            }
            return Err(builder);
        }
        if self.frame_size > u64::MAX - size as u64 {
            self.record_error(GeneratorError::InternalError(
                "the frame size overflows".to_owned(),
            ));
            proof {
                lemma_evolves_refl(*old(self));
            }
            return Err(builder);
        }
        let off = self.module.add_local(WasmValType::I32);
        self.frame_size = self.frame_size + size as u64;
        let mut b = builder;
        b.push(Instr::GlobalGet(stack_pointer));
        b.push(Instr::LocalTee(off));
        b.push(Instr::I32Const(size as i32));
        b.push(Instr::I32Add);
        b.push(Instr::GlobalSet(stack_pointer));
        proof {
            let m = self.module;
            let code = frame_alloc_code(stack_pointer, off, size);
            assert(b@ =~= builder@ + code);
            let i32s = seq![WasmValType::I32];
            let gg = seq![Instr::GlobalGet(stack_pointer)];
            let lt = seq![Instr::LocalTee(off)];
            let ic = seq![Instr::I32Const(size as i32)];
            let ia = seq![Instr::I32Add];
            let gs = seq![Instr::GlobalSet(stack_pointer)];
            lemma_code_global_get(m, stack_pointer);
            lemma_code_local_tee(m, off);
            assert(Seq::<WasmValType>::empty() + i32s =~= i32s);
            lemma_code_compose(m, gg, lt, Seq::empty(), i32s, i32s);
            lemma_code_i32_const(m, size as i32);
            lemma_code_app_pushes(m, gg + lt, ic, Seq::empty() + i32s, i32s);
            lemma_code_binop32(m, Instr::I32Add);
            assert((Seq::empty() + i32s) + i32s =~= Seq::<WasmValType>::empty() + seq![
                WasmValType::I32,
                WasmValType::I32,
            ]);
            lemma_code_compose(
                m,
                (gg + lt) + ic,
                ia,
                Seq::empty(),
                seq![WasmValType::I32, WasmValType::I32],
                i32s,
            );
            lemma_code_global_set(m, stack_pointer);
            lemma_code_compose(
                m,
                ((gg + lt) + ic) + ia,
                gs,
                Seq::empty(),
                i32s,
                Seq::empty(),
            );
            assert((((gg + lt) + ic) + ia) + gs =~= code);
            assert(code_pushes(m, code, Seq::empty() + Seq::empty()));
            assert(Seq::<WasmValType>::empty() + Seq::<WasmValType>::empty()
                =~= Seq::<WasmValType>::empty());
            assert(env_wf(self.locals@, m)) by {
                assert forall|i: int| 0 <= i < self.locals@.len() implies (#[trigger] self.locals@[
                    i
                ]).local < m.local_types@.len() by {
                    assert(self.locals@[i].local < old(self).module.local_types@.len());
                }
            }
            assert forall|i: int| 0 <= i < m.funcs@.len() implies crate::wasm::func_wf(
                m,
                #[trigger] m.funcs@[i],
            ) by {
                lemma_func_wf_extends(old(self).module, m, m.funcs@[i]);
            }
        }
        Ok((b, off, size))
    }

    /// Emits a store of the 128-bit value on top of the value stack to the
    /// address held in `offset_local` plus `offset`; returns the stored
    /// width.  Types other than the integers have no store yet.
    pub fn write_to_memory(
        &mut self,
        builder: &mut Vec<Instr>,
        offset_local: usize,
        offset: u32,
        ty: &ClarityType,
    ) -> (r: Result<u32, GeneratorError>)
        requires
            gen_inv(*old(self)),
            offset_local < old(self).module.local_types@.len(),
            old(self).module.local_types@[offset_local as int] == WasmValType::I32,
            offset + 8 <= u32::MAX,
        ensures
            gen_inv(*final(self)),
            evolves(*old(self), *final(self)),
            final(self).locals == old(self).locals,
            final(self).identifiers == old(self).identifiers,
            final(self).next_identifier == old(self).next_identifier,
            final(self).literal_memory_end == old(self).literal_memory_end,
            final(self).module.funcs == old(self).module.funcs,
            final(self).module.data == old(self).module.data,
            final(self).module.exports == old(self).module.exports,
            final(self).error == old(self).error,
            final(self).contract_analysis == old(self).contract_analysis,
            r.is_ok() <==> (*ty == ClarityType::IntType || *ty == ClarityType::UIntType),
            r matches Err(e) ==> e matches GeneratorError::NotImplemented && *final(self) == *old(self) && *final(builder) == *old(builder),
            r matches Ok(size) ==> size == 16 && final(builder)@ == old(builder)@
                + write_i128_code(
                offset_local,
                old(self).module.local_types@.len() as usize,
                (old(self).module.local_types@.len() + 1) as usize,
                offset,
            ) && code_xform(
                final(self).module,
                write_i128_code(
                    offset_local,
                    old(self).module.local_types@.len() as usize,
                    (old(self).module.local_types@.len() + 1) as usize,
                    offset,
                ),
                seq![WasmValType::I64, WasmValType::I64],
                Seq::empty(),
            ) && final(self).module.local_types@ == old(self).module.local_types@.push(
                WasmValType::I64,
            ).push(WasmValType::I64),
    {
        match ty {
            ClarityType::IntType | ClarityType::UIntType => {
                let high = self.module.add_local(WasmValType::I64);
                let ghost m_mid = self.module;
                let low = self.module.add_local(WasmValType::I64);
                builder.push(Instr::LocalSet(low));
                builder.push(Instr::LocalSet(high));
                builder.push(Instr::LocalGet(offset_local));
                builder.push(Instr::LocalGet(high));
                builder.push(Instr::I64Store(offset));
                builder.push(Instr::LocalGet(offset_local));
                builder.push(Instr::LocalGet(low));
                builder.push(Instr::I64Store(offset + 8));
                proof {
                    let m = self.module;
                    let code = write_i128_code(offset_local, high as usize, low as usize, offset);
                    assert(builder@ =~= old(builder)@ + code);
                    let i64s = seq![WasmValType::I64];
                    let i32s = seq![WasmValType::I32];
                    let both = seq![WasmValType::I64, WasmValType::I64];
                    let adr = seq![WasmValType::I32, WasmValType::I64];
                    let sl = seq![Instr::LocalSet(low)];
                    let sh = seq![Instr::LocalSet(high)];
                    let go = seq![Instr::LocalGet(offset_local)];
                    let gh = seq![Instr::LocalGet(high)];
                    let gl = seq![Instr::LocalGet(low)];
                    let st1 = seq![Instr::I64Store(offset)];
                    let st2 = seq![Instr::I64Store((offset + 8) as u32)];
                    lemma_code_local_set(m, low);
                    lemma_code_local_set(m, high);
                    lemma_xform_then_consume_deeper(
                        m,
                        sl,
                        sh,
                        i64s,
                        Seq::empty(),
                        i64s,
                        Seq::empty(),
                    );
                    // after [set low, set high]: takes [I64, I64] gives []
                    assert(i64s + i64s =~= both);
                    lemma_code_local_get(m, offset_local);
                    lemma_code_local_get(m, high);
                    lemma_code_local_get(m, low);
                    lemma_xform_then_push(m, sl + sh, go, i64s + i64s, Seq::empty(), i32s);
                    lemma_xform_then_push(
                        m,
                        (sl + sh) + go,
                        gh,
                        i64s + i64s,
                        Seq::empty() + i32s,
                        i64s,
                    );
                    lemma_code_i64_store(m, offset);
                    assert((Seq::empty() + i32s) + i64s =~= Seq::<WasmValType>::empty() + adr);
                    lemma_xform_then_consume_own(
                        m,
                        ((sl + sh) + go) + gh,
                        st1,
                        i64s + i64s,
                        Seq::empty(),
                        adr,
                        Seq::empty(),
                    );
                    lemma_xform_then_push(
                        m,
                        (((sl + sh) + go) + gh) + st1,
                        go,
                        i64s + i64s,
                        Seq::empty() + Seq::empty(),
                        i32s,
                    );
                    lemma_xform_then_push(
                        m,
                        ((((sl + sh) + go) + gh) + st1) + go,
                        gl,
                        i64s + i64s,
                        (Seq::empty() + Seq::empty()) + i32s,
                        i64s,
                    );
                    lemma_code_i64_store(m, (offset + 8) as u32);
                    assert(((Seq::empty() + Seq::empty()) + i32s) + i64s
                        =~= Seq::<WasmValType>::empty() + adr);
                    lemma_xform_then_consume_own(
                        m,
                        (((((sl + sh) + go) + gh) + st1) + go) + gl,
                        st2,
                        i64s + i64s,
                        Seq::empty(),
                        adr,
                        Seq::empty(),
                    );
                    assert(((((((sl + sh) + go) + gh) + st1) + go) + gl) + st2 =~= code);
                    assert(code_xform(m, code, i64s + i64s, Seq::empty() + Seq::empty()));
                    assert(Seq::<WasmValType>::empty() + Seq::<WasmValType>::empty()
                        =~= Seq::<WasmValType>::empty());
                    assert(env_wf(self.locals@, m)) by {
                        assert forall|i: int| 0 <= i < self.locals@.len() implies (
                        #[trigger] self.locals@[i]).local < m.local_types@.len() by {
                            assert(self.locals@[i].local < old(self).module.local_types@.len());
                        }
                    }
                    assert forall|i: int| 0 <= i < m.funcs@.len() implies crate::wasm::func_wf(
                        m,
                        #[trigger] m.funcs@[i],
                    ) by {
                        lemma_func_wf_extends(old(self).module, m, m.funcs@[i]);
                    }
                    lemma_module_extends_trans(old(self).module, m_mid, m);
                }
                Ok(16)
            },
            _ => Err(GeneratorError::NotImplemented),
        }
    }

    /// Emits a load of the 128-bit value at the address held in
    /// `offset_local` onto the value stack; returns the loaded width.
    pub fn read_from_memory(
        &mut self,
        builder: &mut Vec<Instr>,
        offset_local: usize,
        ty: &ClarityType,
    ) -> (r: Result<u32, GeneratorError>)
        requires
            gen_inv(*old(self)),
            offset_local < old(self).module.local_types@.len(),
            old(self).module.local_types@[offset_local as int] == WasmValType::I32,
        ensures
            *final(self) == *old(self),
            r.is_ok() <==> (*ty == ClarityType::IntType || *ty == ClarityType::UIntType),
            r matches Err(e) ==> e matches GeneratorError::NotImplemented && *final(builder)
                == *old(builder),
            r matches Ok(size) ==> size == 16 && final(builder)@ == old(builder)@ + read_i128_code(
                offset_local,
            ) && code_pushes(
                final(self).module,
                read_i128_code(offset_local),
                seq![WasmValType::I64, WasmValType::I64],
            ),
    {
        match ty {
            ClarityType::IntType | ClarityType::UIntType => {
                builder.push(Instr::LocalGet(offset_local));
                builder.push(Instr::I64Load(0));
                builder.push(Instr::LocalGet(offset_local));
                builder.push(Instr::I64Load(8));
                proof {
                    let m = self.module;
                    let code = read_i128_code(offset_local);
                    assert(builder@ =~= old(builder)@ + code);
                    let i32s = seq![WasmValType::I32];
                    let i64s = seq![WasmValType::I64];
                    let go = seq![Instr::LocalGet(offset_local)];
                    let l1 = seq![Instr::I64Load(0)];
                    let l2 = seq![Instr::I64Load(8)];
                    lemma_code_local_get(m, offset_local);
                    lemma_code_i64_load(m, 0);
                    lemma_code_i64_load(m, 8);
                    assert(Seq::<WasmValType>::empty() + i32s =~= i32s);
                    lemma_code_compose(m, go, l1, Seq::empty(), i32s, i64s);
                    lemma_code_app_pushes(m, go + l1, go, Seq::empty() + i64s, i32s);
                    assert((Seq::empty() + i64s) + i32s =~= (Seq::<WasmValType>::empty() + i64s)
                        + i32s);
                    lemma_code_compose(m, (go + l1) + go, l2, Seq::empty() + i64s, i32s, i64s);
                    assert(((go + l1) + go) + l2 =~= code);
                    assert((Seq::empty() + i64s) + i64s =~= seq![WasmValType::I64, WasmValType::I64]);
                }
                Ok(16)
            },
            _ => Err(GeneratorError::NotImplemented),
        }
    }
}

/// The names exported by a module, in order of registration.
pub open spec fn export_names(m: WasmModule) -> Seq<Seq<char>> {
    m.exports@.map_values(|e: crate::wasm::WasmExport| e.name@)
}

/// One successful lowering step: the generator stays consistent and only
/// evolves, the environment is untouched, no error is recorded, the builder
/// grows by code that pushes exactly `out`, and exactly `exps` are exported.
pub open spec fn step_ok(
    g1: WasmGenerator,
    g2: WasmGenerator,
    b0: Seq<Instr>,
    b1: Seq<Instr>,
    out: Seq<WasmValType>,
    exps: Seq<Seq<char>>,
) -> bool {
    &&& gen_inv(g2)
    &&& evolves(g1, g2)
    &&& g2.locals@ == g1.locals@
    &&& g2.error is None
    &&& b0.is_prefix_of(b1)
    &&& code_pushes(g2.module, b1.skip(b0.len() as int), out)
    &&& export_names(g2.module) == export_names(g1.module) + exps
}

/// A failed lowering step: the generator stays consistent, only evolves,
/// keeps its environment, and has recorded an error.
pub open spec fn step_err(g1: WasmGenerator, g2: WasmGenerator) -> bool {
    &&& gen_inv(g2)
    &&& evolves(g1, g2)
    &&& g2.locals@ == g1.locals@
    &&& g2.error is Some
}

/// Appending to a sequence makes a prefix, and the appended part is what
/// `skip` recovers.
pub proof fn lemma_app_prefix<T>(a: Seq<T>, d: Seq<T>)
    ensures
        a.is_prefix_of(a + d),
        (a + d).skip(a.len() as int) == d,
{
    assert(a =~= (a + d).subrange(0, a.len() as int));
    assert((a + d).skip(a.len() as int) =~= d);
}

/// Successful steps compose.
pub proof fn lemma_step_ok_trans(
    g1: WasmGenerator,
    g2: WasmGenerator,
    g3: WasmGenerator,
    b0: Seq<Instr>,
    b1: Seq<Instr>,
    b2: Seq<Instr>,
    out1: Seq<WasmValType>,
    out2: Seq<WasmValType>,
    e1: Seq<Seq<char>>,
    e2: Seq<Seq<char>>,
)
    requires
        step_ok(g1, g2, b0, b1, out1, e1),
        step_ok(g2, g3, b1, b2, out2, e2),
    ensures
        step_ok(g1, g3, b0, b2, out1 + out2, e1 + e2),
{
    lemma_evolves_trans(g1, g2, g3);
    lemma_prefix_trans(b0, b1, b2);
    let d1 = b1.skip(b0.len() as int);
    let d2 = b2.skip(b1.len() as int);
    assert(b2.skip(b0.len() as int) =~= d1 + d2) by {
        assert(b1 =~= b2.subrange(0, b1.len() as int));
    }
    lemma_code_pushes_extends(g2.module, g3.module, d1, out1);
    lemma_code_app_pushes(g3.module, d1, d2, out1, out2);
    assert(export_names(g3.module) =~= export_names(g1.module) + (e1 + e2));
}

/// An emission by the generator itself, leaving its state alone.
pub proof fn lemma_step_emit(
    g: WasmGenerator,
    b0: Seq<Instr>,
    b1: Seq<Instr>,
    out: Seq<WasmValType>,
)
    requires
        gen_inv(g),
        g.error is None,
        b0.is_prefix_of(b1),
        code_pushes(g.module, b1.skip(b0.len() as int), out),
    ensures
        step_ok(g, g, b0, b1, out, Seq::empty()),
{
    lemma_evolves_refl(g);
    assert(export_names(g.module) =~= export_names(g.module) + Seq::<Seq<char>>::empty());
}

/// A failure after a successful prefix is still a failure of the whole.
pub proof fn lemma_step_err_after(
    g1: WasmGenerator,
    g2: WasmGenerator,
    g3: WasmGenerator,
    b0: Seq<Instr>,
    b1: Seq<Instr>,
    out: Seq<WasmValType>,
    exps: Seq<Seq<char>>,
)
    requires
        step_ok(g1, g2, b0, b1, out, exps),
        step_err(g2, g3),
    ensures
        step_err(g1, g3),
{
    lemma_evolves_trans(g1, g2, g3);
}

/// A successful lookup hands back the local of some binding.
proof fn lemma_env_lookup_in(env: Seq<LocalBinding>, name: Seq<char>, slot: int)
    requires
        env_lookup(env, name, slot) is Some,
    ensures
        exists|i: int|
            0 <= i < env.len() && (#[trigger] env[i]).local == env_lookup(
                env,
                name,
                slot,
            ).unwrap(),
    decreases env.len(),
{
    if env.len() > 0 {
        if env.first().name@ == name && env.first().slot == slot {
            assert(env[0].local == env_lookup(env, name, slot).unwrap());
        } else {
            lemma_env_lookup_in(env.drop_first(), name, slot);
            let j = choose|i: int|
                0 <= i < env.drop_first().len() && (#[trigger] env.drop_first()[i]).local
                    == env_lookup(env.drop_first(), name, slot).unwrap();
            assert(env[j + 1].local == env_lookup(env, name, slot).unwrap());
        }
    }
}

/// The bytes of a string literal: ASCII bytes as they stand; the
/// per-character groups of a UTF-8 literal flattened in order.
pub open spec fn flat_bytes(gs: Seq<Vec<u8>>) -> Seq<u8>
    decreases gs.len(),
{
    if gs.len() == 0 {
        Seq::empty()
    } else {
        flat_bytes(gs.drop_last()) + gs.last()@
    }
}

pub open spec fn lit_bytes(v: LiteralValue) -> Seq<u8> {
    match v {
        LiteralValue::Ascii(d) => d@,
        LiteralValue::Utf8(gs) => flat_bytes(gs@),
        _ => Seq::empty(),
    }
}

/// The two 64-bit constants that represent a 128-bit integer on the value
/// stack: high half first, then low half.
pub open spec fn uint_literal_code(u: u128) -> Seq<Instr> {
    seq![
        Instr::I64Const(((u / 0x1_0000_0000_0000_0000u128) as u64) as i64),
        Instr::I64Const(((u % 0x1_0000_0000_0000_0000u128) as u64) as i64),
    ]
}

/// A signed literal is emitted through its two's-complement representation.
pub open spec fn int_literal_code(i: i128) -> Seq<Instr> {
    uint_literal_code(i as u128)
}

/// Appends the bytes of `src` to `dst`.
fn append_bytes(dst: &mut Vec<u8>, src: &Vec<u8>)
    ensures
        final(dst)@ == old(dst)@ + src@,
{
    let n = src.len();
    let mut i: usize = 0;
    while i < n
        invariant
            n == src@.len(),
            i <= n,
            dst@ == old(dst)@ + src@.take(i as int),
        decreases n - i,
    {
        dst.push(src[i]);
        i = i + 1;
        proof {
            assert(old(dst)@ + src@.take(i - 1) + seq![src@[i - 1]] =~= old(dst)@ + src@.take(
                i as int,
            ));
        }
    }
    proof {
        assert(old(dst)@ + src@.take(n as int) =~= old(dst)@ + src@);
    }
}

/// Compares two value-stack shapes.
pub fn vt_vec_eq(a: &Vec<WasmValType>, b: &Vec<WasmValType>) -> (r: bool)
    ensures
        r == (a@ == b@),
{
    if a.len() != b.len() {
        return false;
    }
    let n = a.len();
    let mut i: usize = 0;
    while i < n
        invariant
            n == a@.len() == b@.len(),
            i <= n,
            forall|j: int| 0 <= j < i ==> a@[j] == b@[j],
        decreases n - i,
    {
        if a[i] != b[i] {
            return false;
        }
        i = i + 1;
    }
    proof {
        assert(a@ =~= b@);
    }
    true
}

/// Recording an error while touching nothing else is a failed step.
pub proof fn lemma_error_step(g1: WasmGenerator, g2: WasmGenerator)
    requires
        gen_inv(g1),
        g2 == (WasmGenerator { error: g2.error, ..g1 }),
        g2.error is Some,
    ensures
        step_err(g1, g2),
{
    lemma_module_extends_refl(g1.module);
    lemma_prefix_refl(g1.identifiers@);
}

/// Whether every lowered slot of an identifier is bound in the current
/// environment to a local of the right scalar kind.
pub open spec fn atom_lowers(g: WasmGenerator, name: Seq<char>, ty: ClarityType) -> bool {
    forall|n: int|
        0 <= n < slots_spec(ty).len() ==> ((#[trigger] env_lookup(g.locals@, name, n))
            matches Some(l) && l < g.module.local_types@.len() && g.module.local_types@[l as int]
            == slots_spec(ty)[n])
}

/// The instructions an identifier read emits: one local read per lowered
/// slot, in slot order, each from the local its binding names.
pub open spec fn atom_code(g: WasmGenerator, name: Seq<char>, ty: ClarityType) -> Seq<Instr> {
    Seq::new(
        slots_spec(ty).len(),
        |n: int| Instr::LocalGet(env_lookup(g.locals@, name, n).unwrap()),
    )
}

/// The name of the 128-bit helper an arithmetic form calls, by operator
/// and result type.
pub open spec fn arith_helper_name(op: ArithOp, ty: ClarityType) -> Seq<char> {
    if ty == ClarityType::IntType {
        match op {
            ArithOp::Add => "add-int"@,
            ArithOp::Subtract => "sub-int"@,
            ArithOp::Multiply => "mul-int"@,
            ArithOp::Divide => "div-int"@,
            ArithOp::Modulo => "mod-int"@,
        }
    } else {
        match op {
            ArithOp::Add => "add-uint"@,
            ArithOp::Subtract => "sub-uint"@,
            ArithOp::Multiply => "mul-uint"@,
            ArithOp::Divide => "div-uint"@,
            ArithOp::Modulo => "mod-uint"@,
        }
    }
}

/// An integer literal node: one that always lowers at an integer type.
pub open spec fn integer_literal(e: TypedExpr) -> bool {
    &&& (e.ty == ClarityType::IntType || e.ty == ClarityType::UIntType)
    &&& (e.kind matches ExprKind::Literal(v) && (v matches LiteralValue::Int(_) || v
        matches LiteralValue::UInt(_)))
}

/// A response construction whose arm is an integer literal of the arm's
/// declared type.  Such a form always lowers.
pub open spec fn response_literal_arm(ty: ClarityType, value: TypedExpr, ok_arm: bool) -> bool {
    &&& ty matches ClarityType::Response(o, e) && value.ty == (if ok_arm {
        *o
    } else {
        *e
    })
    &&& integer_literal(value)
}

/// A variable write of an integer literal in a state where the name holds
/// an identifier, the host's `set_variable` resolves at its expected
/// signature, and the frame budget has room.  Such a form always lowers.
pub open spec fn var_set_literal_lowers(
    g: WasmGenerator,
    name: Seq<char>,
    value: TypedExpr,
) -> bool {
    &&& crate::ast::assoc(g.identifiers@, name) is Some
    &&& integer_literal(value)
    &&& (crate::wasm::first_func_named(g.module, "set_variable"@) matches Some(sv)
        && g.module.funcs@[sv].sig.params@ == seq![
            WasmValType::I32,
            WasmValType::I32,
            WasmValType::I32,
        ] && g.module.funcs@[sv].sig.results@ == Seq::<WasmValType>::empty())
    &&& g.frame_size + 16 <= u64::MAX
}

/// A variable definition with a fresh name, an integer literal initializer,
/// the host's `define_variable` resolved at its expected signature, room in
/// the identifier counter and in the literal region.  Such a form always
/// lowers.
pub open spec fn define_data_var_literal_lowers(
    g: WasmGenerator,
    name: Seq<char>,
    initial: TypedExpr,
) -> bool {
    &&& crate::ast::assoc(g.identifiers@, name) is None
    &&& g.next_identifier < i32::MAX
    &&& integer_literal(initial)
    &&& (crate::wasm::first_func_named(g.module, "define_variable"@) matches Some(dv)
        && g.module.funcs@[dv].sig.params@ == seq![
            WasmValType::I32,
            WasmValType::I32,
            WasmValType::I32,
            WasmValType::I32,
            WasmValType::I32,
        ] && g.module.funcs@[dv].sig.results@ == Seq::<WasmValType>::empty())
    &&& g.literal_memory_end + vstd::utf8::encode_utf8(name).len() + 16 <= u32::MAX
}

/// A call whose callee resolves at the expected signature and whose
/// arguments are all integer literals.  Such a form always lowers.
pub open spec fn call_literal_args_lowers(
    g: WasmGenerator,
    name: Seq<char>,
    ty: ClarityType,
    args: Seq<TypedExpr>,
) -> bool {
    &&& (crate::wasm::first_func_named(g.module, name) matches Some(f) && g.module.funcs@[
        f
    ].sig.params@ == args_slots(args) && g.module.funcs@[f].sig.results@ == slots_spec(ty))
    &&& forall|k: int| 0 <= k < args.len() ==> integer_literal(#[trigger] args[k])
}

/// A list of integer literals of the declared element type, of exactly the
/// declared length, with room in the frame budget.  Such a form always
/// lowers.
pub open spec fn list_literal_lowers(
    g: WasmGenerator,
    ty: ClarityType,
    elems: Seq<TypedExpr>,
) -> bool {
    ty matches ClarityType::List(e0, cnt) && cnt as int == elems.len() && (*e0
        == ClarityType::IntType || *e0 == ClarityType::UIntType) && (forall|k: int|
        0 <= k < elems.len() ==> (#[trigger] elems[k]).ty == *e0 && integer_literal(elems[k]))
        && cnt * 16 <= i32::MAX && g.frame_size + cnt * 16 <= u64::MAX
}

/// A fully literal arithmetic form in a state where its helper resolves:
/// an integer result type, the helper present at its expected signature,
/// and every operand an integer literal of the result type.  Such a form
/// always lowers.
pub open spec fn arith_literal_operands(
    g: WasmGenerator,
    func: ArithOp,
    ty: ClarityType,
    operands: Seq<TypedExpr>,
) -> bool {
    &&& (ty == ClarityType::IntType || ty == ClarityType::UIntType)
    &&& (crate::wasm::first_func_named(g.module, arith_helper_name(func, ty)) matches Some(f)
        && g.module.funcs@[f].sig.params@ == arith_params() && g.module.funcs@[f].sig.results@
        == arith_results())
    &&& operands.len() > 0
    &&& forall|k: int|
        0 <= k < operands.len() ==> (#[trigger] operands[k]).ty == ty && (operands[k].kind
            matches ExprKind::Literal(v) && (v matches LiteralValue::Int(_) || v
            matches LiteralValue::UInt(_)))
}

/// One further operand folded in: its code, then one helper call.
pub open spec fn arith_step(pre: Seq<Instr>, d: Seq<Instr>, f: usize) -> Seq<Instr> {
    pre + (d + seq![Instr::Call(f)])
}

/// The instructions an arithmetic form over `k` operands emits: the first
/// operand's code, then each further operand's code followed by exactly one
/// call of helper `f` — `k - 1` calls in all, folding left to right.
pub open spec fn arith_chain_code(m: WasmModule, f: usize, code: Seq<Instr>, k: nat) -> bool
    decreases k,
{
    if k == 0 {
        false
    } else if k == 1 {
        code_pushes(m, code, i64_pair())
    } else {
        exists|pre: Seq<Instr>, d: Seq<Instr>|
            code == #[trigger] arith_step(pre, d, f) && arith_chain_code(m, f, pre, (k - 1) as nat)
                && code_pushes(m, d, i64_pair())
    }
}

/// An operand chain keeps its reading in any module extension.
pub proof fn lemma_arith_chain_extends(
    m1: WasmModule,
    m2: WasmModule,
    f: usize,
    code: Seq<Instr>,
    k: nat,
)
    requires
        module_extends(m1, m2),
        arith_chain_code(m1, f, code, k),
    ensures
        arith_chain_code(m2, f, code, k),
    decreases k,
{
    if k == 1 {
        lemma_code_pushes_extends(m1, m2, code, i64_pair());
    } else if k > 1 {
        let (pre, d) = choose|pre: Seq<Instr>, d: Seq<Instr>|
            code == #[trigger] arith_step(pre, d, f) && arith_chain_code(
                m1,
                f,
                pre,
                (k - 1) as nat,
            ) && code_pushes(m1, d, i64_pair());
        lemma_arith_chain_extends(m1, m2, f, pre, (k - 1) as nat);
        lemma_code_pushes_extends(m1, m2, d, i64_pair());
        assert(arith_chain_code(m2, f, code, k));
    }
}

/// The instructions a fold emits before its loop: the sequence's code, a
/// drop of its length, its base address saved to `off2`, the end address
/// `off2 + cnt16` saved to `end2`, then the initial accumulator's code.
pub open spec fn fold_preamble(
    ds: Seq<Instr>,
    di: Seq<Instr>,
    off2: usize,
    end2: usize,
    cnt16: i32,
) -> Seq<Instr> {
    ((ds + seq![Instr::DropValue, Instr::LocalSet(off2)]) + seq![
        Instr::LocalGet(off2),
        Instr::I32Const(cnt16),
        Instr::I32Add,
        Instr::LocalSet(end2),
    ]) + di
}

/// When a variable read lowers: the name holds an identifier, its type is
/// a 128-bit integer, the host's `get_variable` resolves at its expected
/// signature, and the frame budget has room for the slot.
pub open spec fn var_get_lowers(g: WasmGenerator, name: Seq<char>, ty: ClarityType) -> bool {
    &&& crate::ast::assoc(g.identifiers@, name) is Some
    &&& (ty == ClarityType::IntType || ty == ClarityType::UIntType)
    &&& (crate::wasm::first_func_named(g.module, "get_variable"@) matches Some(gv)
        && g.module.funcs@[gv].sig.params@ == seq![
            WasmValType::I32,
            WasmValType::I32,
            WasmValType::I32,
        ] && g.module.funcs@[gv].sig.results@ == Seq::<WasmValType>::empty())
    &&& g.frame_size + 16 <= u64::MAX
}

/// The instructions `(var-get name)` emits: allocate a sixteen-byte frame
/// slot, pass (id, address, size) to `get_variable`, then read the value.
pub open spec fn var_get_code(sp: usize, off: usize, id: i32, gv: usize) -> Seq<Instr> {
    frame_alloc_code(sp, off, 16) + seq![
        Instr::I32Const(id),
        Instr::LocalGet(off),
        Instr::I32Const(16),
    ] + seq![Instr::Call(gv)] + read_i128_code(off)
}

/// Forms that leave the identifier registry, the function table and the
/// export list untouched: everything but a definition.
pub open spec fn non_defining(e: TypedExpr) -> bool {
    match e.kind {
        ExprKind::DefineDataVar(_, _) => false,
        ExprKind::DefinePrivate(_, _) => false,
        ExprKind::DefineReadOnly(_, _) => false,
        ExprKind::DefinePublic(_, _) => false,
        _ => true,
    }
}

/// The identifier registry, the function table and the export list are the
/// same in both states.
pub open spec fn registry_unchanged(g1: WasmGenerator, g2: WasmGenerator) -> bool {
    &&& g2.identifiers@ == g1.identifiers@
    &&& g2.next_identifier == g1.next_identifier
    &&& g2.module.funcs@ == g1.module.funcs@
    &&& g2.module.exports@ == g1.module.exports@
}

/// Whether a literal can be lowered at the given type in the given state.
pub open spec fn literal_lowers(g: WasmGenerator, value: LiteralValue, ty: ClarityType) -> bool {
    match value {
        LiteralValue::Int(_) => ty == ClarityType::IntType || ty == ClarityType::UIntType,
        LiteralValue::UInt(_) => ty == ClarityType::IntType || ty == ClarityType::UIntType,
        LiteralValue::Ascii(_) | LiteralValue::Utf8(_) => (ty matches ClarityType::StringAscii(_)
            || ty matches ClarityType::StringUtf8(_)) && g.literal_memory_end + lit_bytes(
            value,
        ).len() <= u32::MAX,
        LiteralValue::Other => false,
    }
}

impl WasmGenerator {
    /// Lowers one expression, appending its code to the builder.  On
    /// success the appended code pushes exactly the expression's lowered
    /// shape (nothing for a statement form) and registers exactly the
    /// expression's exports.
    pub fn traverse_expr(&mut self, builder: Vec<Instr>, expr: &TypedExpr) -> (r: Result<
        Vec<Instr>,
        Vec<Instr>,
    >)
        requires
            gen_inv(*old(self)),
            old(self).error is None,
        ensures
            r matches Ok(b) ==> step_ok(
                *old(self),
                *final(self),
                builder@,
                b@,
                out_slots(*expr),
                exports_of(*expr),
            ),
            r is Err ==> step_err(*old(self), *final(self)),
            non_defining(*expr) ==> registry_unchanged(*old(self), *final(self)),
            expr.kind matches ExprKind::Literal(v) ==> (r.is_ok() <==> literal_lowers(
                *old(self),
                v,
                expr.ty,
            )),
            expr.kind matches ExprKind::Atom(a) ==> (r.is_ok() <==> atom_lowers(
                *old(self),
                a@,
                expr.ty,
            )),
            expr.kind matches ExprKind::VarGet(nm) ==> (r.is_ok() <==> var_get_lowers(
                *old(self),
                nm@,
                expr.ty,
            )),
            expr.kind matches ExprKind::Unsupported ==> r is Err,
            (expr.kind matches ExprKind::Literal(v) && (v matches LiteralValue::Int(_) || v
                matches LiteralValue::UInt(_))) ==> final(self).literal_memory_end == old(self).literal_memory_end,
        decreases *expr, 1nat,
    {
        match &expr.kind {
            ExprKind::Literal(value) => self.visit_literal_value(builder, expr, value),
            ExprKind::Atom(atom) => self.visit_atom(builder, expr, atom),
            ExprKind::Arith(op, operands) => {
                proof {
                    assert(decreases_to!(*expr => operands@));
                }
                self.traverse_arithmetic(builder, expr, *op, operands)
            },
            ExprKind::VarGet(name) => self.visit_var_get(builder, expr, name),
            ExprKind::Concat(a, b) => self.traverse_concat(builder, expr, a, b),
            ExprKind::Fold(f, s2, i2) => self.traverse_fold(builder, expr, f, s2, i2),
            ExprKind::ListCons(elems) => {
                proof {
                    assert(decreases_to!(*expr => elems@));
                }
                self.traverse_list_cons(builder, expr, elems)
            },
            ExprKind::DefinePrivate(name, v) => {
                proof {
                    assert(decreases_to!(*expr => **v));
                }
                let r = self.traverse_define_private(builder, expr, name, v);
                proof {
                    assert(!non_defining(*expr));
                }
                r
            },
            ExprKind::DefineReadOnly(name, v) => {
                proof {
                    assert(decreases_to!(*expr => **v));
                }
                let r = self.traverse_define_read_only(builder, expr, name, v);
                proof {
                    assert(!non_defining(*expr));
                }
                r
            },
            ExprKind::DefinePublic(name, v) => {
                proof {
                    assert(decreases_to!(*expr => **v));
                }
                let r = self.traverse_define_public(builder, expr, name, v);
                proof {
                    assert(!non_defining(*expr));
                }
                r
            },
            ExprKind::DefineDataVar(name, v) => {
                proof {
                    assert(decreases_to!(*expr => **v));
                }
                let r = self.traverse_define_data_var(builder, expr, name, v);
                proof {
                    assert(!non_defining(*expr));
                }
                r
            },
            ExprKind::VarSet(name, v) => {
                proof {
                    assert(decreases_to!(*expr => **v));
                }
                self.visit_var_set(builder, expr, name, v)
            },
            ExprKind::CallUserDefined(name, args) => {
                proof {
                    assert(decreases_to!(*expr => args@));
                }
                self.visit_call_user_defined(builder, expr, name, args)
            },
            ExprKind::OkCons(v) => {
                proof {
                    assert(decreases_to!(*expr => **v));
                }
                self.traverse_ok(builder, expr, v)
            },
            ExprKind::ErrCons(v) => {
                proof {
                    assert(decreases_to!(*expr => **v));
                }
                self.traverse_err(builder, expr, v)
            },
            _ => {
                let ghost g0 = *self;
                self.record_error(GeneratorError::NotImplemented);
                proof {
                    lemma_error_step(g0, *self);
                    assert(registry_unchanged(g0, *self));
                }
                Err(builder)
            },
        }
    }

    /// Lowers a literal: a 128-bit integer as two 64-bit constants (high
    /// half first), a string by interning its bytes and pushing the
    /// placement.
    pub fn visit_literal_value(
        &mut self,
        builder: Vec<Instr>,
        expr: &TypedExpr,
        value: &LiteralValue,
    ) -> (r: Result<Vec<Instr>, Vec<Instr>>)
        requires
            gen_inv(*old(self)),
            old(self).error is None,
        ensures
            r.is_ok() <==> literal_lowers(*old(self), *value, expr.ty),
            r matches Ok(b) ==> step_ok(
                *old(self),
                *final(self),
                builder@,
                b@,
                slots_spec(expr.ty),
                Seq::empty(),
            ) && (*value matches LiteralValue::Int(i) ==> b@ == builder@ + int_literal_code(i))
                && (*value matches LiteralValue::UInt(u) ==> b@ == builder@ + uint_literal_code(u))
                && ((*value matches LiteralValue::Ascii(_) || *value matches LiteralValue::Utf8(_))
                ==> b@ == builder@ + seq![
                Instr::I32Const(old(self).literal_memory_end as i32),
                Instr::I32Const(lit_bytes(*value).len() as i32),
            ] && final(self).module.data@.len() == old(self).module.data@.len() + 1 && final(self).module.data@.last().bytes@ == lit_bytes(*value) && final(self).module.data@.last().offset == old(self).literal_memory_end && final(self).literal_memory_end == old(self).literal_memory_end + lit_bytes(*value).len()),
            r matches Err(b) ==> step_err(*old(self), *final(self)) && b@ == builder@,
            (*value matches LiteralValue::Int(_) || *value matches LiteralValue::UInt(_))
                ==> final(self).literal_memory_end == old(self).literal_memory_end,
            registry_unchanged(*old(self), *final(self)),
            *value matches LiteralValue::Other ==> (*final(self) == (WasmGenerator {
                error: final(self).error,
                ..*old(self)
            })) && final(self).error matches Some(GeneratorError::NotImplemented),
    {
        let ghost g0 = *self;
        match value {
            LiteralValue::Int(i) => {
                match &expr.ty {
                    ClarityType::IntType | ClarityType::UIntType => {},
                    _ => {
                        self.record_error(GeneratorError::InternalError(
                            "integer literal at a non-integer type".to_owned(),
                        ));
                        proof {
                            lemma_error_step(g0, *self);
                        }
                        return Err(builder);
                    },
                }
                let u: u128 = #[verifier::truncate] (*i as u128);
                let high128: u128 = u >> 64u128;
                proof {
                    assert(high128 == u / 0x1_0000_0000_0000_0000u128 && high128
                        < 0x1_0000_0000_0000_0000u128) by (bit_vector)
                        requires
                            high128 == u >> 64u128,
                    ;
                }
                let high: u64 = high128 as u64;
                let low: u64 = (u % 0x1_0000_0000_0000_0000u128) as u64;
                let mut b = builder;
                b.push(Instr::I64Const(#[verifier::truncate] (high as i64)));
                b.push(Instr::I64Const(#[verifier::truncate] (low as i64)));
                proof {
                    assert(b@ =~= builder@ + int_literal_code(*i));
                    let code = b@.skip(builder@.len() as int);
                    assert(code =~= int_literal_code(*i));
                    let c1 = int_literal_code(*i)[0];
                    let c2 = int_literal_code(*i)[1];
                    lemma_code_i64_const(self.module, ((u / 0x1_0000_0000_0000_0000u128) as u64) as i64);
                    lemma_code_i64_const(self.module, ((u % 0x1_0000_0000_0000_0000u128) as u64) as i64);
                    lemma_code_app_pushes(
                        self.module,
                        seq![c1],
                        seq![c2],
                        seq![WasmValType::I64],
                        seq![WasmValType::I64],
                    );
                    assert(seq![c1] + seq![c2] =~= code);
                    assert(seq![WasmValType::I64] + seq![WasmValType::I64] =~= slots_spec(expr.ty));
                    lemma_app_prefix(builder@, int_literal_code(*i));
                    lemma_step_emit(*self, builder@, b@, slots_spec(expr.ty));
                }
                Ok(b)
            },
            LiteralValue::UInt(u) => {
                match &expr.ty {
                    ClarityType::IntType | ClarityType::UIntType => {},
                    _ => {
                        self.record_error(GeneratorError::InternalError(
                            "integer literal at a non-integer type".to_owned(),
                        ));
                        proof {
                            lemma_error_step(g0, *self);
                        }
                        return Err(builder);
                    },
                }
                let high128: u128 = *u >> 64u128;
                proof {
                    let uu = *u;
                    assert(high128 == uu / 0x1_0000_0000_0000_0000u128 && high128
                        < 0x1_0000_0000_0000_0000u128) by (bit_vector)
                        requires
                            high128 == uu >> 64u128,
                    ;
                }
                let high: u64 = high128 as u64;
                let low: u64 = (*u % 0x1_0000_0000_0000_0000u128) as u64;
                let mut b = builder;
                b.push(Instr::I64Const(#[verifier::truncate] (high as i64)));
                b.push(Instr::I64Const(#[verifier::truncate] (low as i64)));
                proof {
                    assert(b@ =~= builder@ + uint_literal_code(*u));
                    let code = b@.skip(builder@.len() as int);
                    assert(code =~= uint_literal_code(*u));
                    let c1 = uint_literal_code(*u)[0];
                    let c2 = uint_literal_code(*u)[1];
                    lemma_code_i64_const(self.module, ((*u / 0x1_0000_0000_0000_0000u128) as u64) as i64);
                    lemma_code_i64_const(self.module, ((*u % 0x1_0000_0000_0000_0000u128) as u64) as i64);
                    lemma_code_app_pushes(
                        self.module,
                        seq![c1],
                        seq![c2],
                        seq![WasmValType::I64],
                        seq![WasmValType::I64],
                    );
                    assert(seq![c1] + seq![c2] =~= code);
                    assert(seq![WasmValType::I64] + seq![WasmValType::I64] =~= slots_spec(expr.ty));
                    lemma_app_prefix(builder@, uint_literal_code(*u));
                    lemma_step_emit(*self, builder@, b@, slots_spec(expr.ty));
                }
                Ok(b)
            },
            LiteralValue::Ascii(_) | LiteralValue::Utf8(_) => {
                match &expr.ty {
                    ClarityType::StringAscii(_) | ClarityType::StringUtf8(_) => {},
                    _ => {
                        self.record_error(GeneratorError::InternalError(
                            "string literal at a non-string type".to_owned(),
                        ));
                        proof {
                            lemma_error_step(g0, *self);
                        }
                        return Err(builder);
                    },
                }
                let data: Vec<u8> = match value {
                    LiteralValue::Ascii(d) => vstd::slice::slice_to_vec(d.as_slice()),
                    LiteralValue::Utf8(gs) => {
                        let mut flat: Vec<u8> = Vec::new();
                        let n = gs.len();
                        let mut i: usize = 0;
                        while i < n
                            invariant
                                n == gs@.len(),
                                i <= n,
                                flat@ == flat_bytes(gs@.take(i as int)),
                            decreases n - i,
                        {
                            append_bytes(&mut flat, &gs[i]);
                            i = i + 1;
                            proof {
                                assert(gs@.take(i as int).drop_last() =~= gs@.take(i - 1));
                                assert(gs@.take(i as int).last() == gs@[i - 1]);
                            }
                        }
                        proof {
                            assert(gs@.take(n as int) =~= gs@);
                        }
                        flat
                    },
                    _ => Vec::new(),
                };
                proof {
                    assert(data@ == lit_bytes(*value));
                }
                let (offset, len) = match self.add_string_literal(data) {
                    Ok(p) => p,
                    Err(e) => {
                        let ghost g1 = *self;
                        self.record_error(e);
                        proof {
                            lemma_error_step(g1, *self);
                        }
                        return Err(builder);
                    },
                };
                let mut b = builder;
                b.push(Instr::I32Const(#[verifier::truncate] (offset as i32)));
                b.push(Instr::I32Const(#[verifier::truncate] (len as i32)));
                proof {
                    let m = self.module;
                    let c1 = Instr::I32Const(g0.literal_memory_end as i32);
                    let c2 = Instr::I32Const(lit_bytes(*value).len() as i32);
                    assert(b@ =~= builder@ + seq![c1, c2]);
                    let code = b@.skip(builder@.len() as int);
                    assert(code =~= seq![c1, c2]);
                    lemma_code_i32_const(m, g0.literal_memory_end as i32);
                    lemma_code_i32_const(m, lit_bytes(*value).len() as i32);
                    lemma_code_app_pushes(
                        m,
                        seq![c1],
                        seq![c2],
                        seq![WasmValType::I32],
                        seq![WasmValType::I32],
                    );
                    assert(seq![c1] + seq![c2] =~= code);
                    assert(seq![WasmValType::I32] + seq![WasmValType::I32] =~= slots_spec(expr.ty));
                    lemma_app_prefix(builder@, seq![c1, c2]);
                    assert(gen_inv(*self)) by {
                        assert(standard_prefix(m)) by {
                            assert forall|k: int| 0 <= k < 14 implies (#[trigger] m.funcs@[k]).name@
                                == std_name(k) && m.funcs@[k].sig.params@ == std_params(k)
                                && m.funcs@[k].sig.results@ == std_results(k) by {
                                assert(m.funcs@[k] == g0.module.funcs@[k]);
                            }
                        }
                        assert(funcs_wf(m)) by {
                            assert forall|idx: int| 0 <= idx < m.funcs@.len() implies
                                crate::wasm::func_wf(m, #[trigger] m.funcs@[idx]) by {
                                lemma_func_wf_extends(g0.module, m, m.funcs@[idx]);
                            }
                        }
                        assert(env_wf(self.locals@, m)) by {
                            assert forall|idx: int| 0 <= idx < self.locals@.len() implies (
                            #[trigger] self.locals@[idx]).local < m.local_types@.len() by {
                                assert(self.locals@[idx].local < g0.module.local_types@.len());
                            }
                        }
                    }
                    assert(evolves(g0, *self)) by {
                        lemma_prefix_refl(g0.identifiers@);
                    }
                    assert(export_names(m) =~= export_names(g0.module) + Seq::<Seq<char>>::empty());
                    assert(step_ok(g0, *self, builder@, b@, slots_spec(expr.ty), Seq::empty()));
                }
                Ok(b)
            },
            LiteralValue::Other => {
                self.record_error(GeneratorError::NotImplemented);
                proof {
                    lemma_error_step(g0, *self);
                }
                Err(builder)
            },
        }
    }

    /// Lowers an identifier read: one local read per lowered slot of the
    /// identifier's type, in slot order.
    pub fn visit_atom(&mut self, builder: Vec<Instr>, expr: &TypedExpr, atom: &String) -> (r:
        Result<Vec<Instr>, Vec<Instr>>)
        requires
            gen_inv(*old(self)),
            old(self).error is None,
        ensures
            r.is_ok() <==> atom_lowers(*old(self), atom@, expr.ty),
            registry_unchanged(*old(self), *final(self)),
            r is Err ==> final(self).error matches Some(GeneratorError::InternalError(_)),
            r matches Ok(b) ==> step_ok(
                *old(self),
                *final(self),
                builder@,
                b@,
                slots_spec(expr.ty),
                Seq::empty(),
            ) && b@ == builder@ + atom_code(*old(self), atom@, expr.ty),
            r is Err ==> step_err(*old(self), *final(self)),
    {
        let ghost g0 = *self;
        let types = clar2wasm_ty(self.get_expr_type(expr));
        let n = types.len();
        let mut b = builder;
        let mut i: usize = 0;
        while i < n
            invariant
                g0 == *old(self),
                gen_inv(*self),
                *self == g0,
                g0.error is None,
                gen_inv(g0),
                n == types@.len(),
                types@ == slots_spec(expr.ty),
                i <= n,
                builder@.is_prefix_of(b@),
                code_pushes(self.module, b@.skip(builder@.len() as int), types@.take(i as int)),
                b@.skip(builder@.len() as int) == atom_code(g0, atom@, expr.ty).take(i as int),
                forall|k: int|
                    0 <= k < i ==> ((#[trigger] env_lookup(g0.locals@, atom@, k)) matches Some(l)
                        && l < g0.module.local_types@.len() && g0.module.local_types@[l as int]
                        == slots_spec(expr.ty)[k]),
            decreases n - i,
        {
            let local = match env_get(&self.locals, atom, i) {
                Some(l) => l,
                None => {
                    let mut msg = "unable to find local for ".to_owned();
                    crate::types::string_push_str(&mut msg, atom.as_str());
                    self.record_error(GeneratorError::InternalError(msg));
                    proof {
                        lemma_error_step(g0, *self);
                        assert(!atom_lowers(g0, atom@, expr.ty)) by {
                            assert(env_lookup(g0.locals@, atom@, i as int) is None);
                        }
                    }
                    return Err(b);
                },
            };
            proof {
                lemma_env_lookup_in(self.locals@, atom@, i as int);
            }
            assert(local < self.module.local_types@.len());
            if self.module.local_types[local] != types[i] {
                self.record_error(GeneratorError::InternalError(
                    "an identifier slot is bound at the wrong type".to_owned(),
                ));
                proof {
                    lemma_error_step(g0, *self);
                    assert(!atom_lowers(g0, atom@, expr.ty)) by {
                        assert(env_lookup(g0.locals@, atom@, i as int) == Some(local));
                    }
                }
                return Err(b);
            }
            let ghost b_prev = b@;
            b.push(Instr::LocalGet(local));
            i = i + 1;
            proof {
                let m = self.module;
                let d0 = b_prev.skip(builder@.len() as int);
                assert(b@ =~= b_prev + seq![Instr::LocalGet(local)]);
                lemma_code_local_get(m, local);
                lemma_code_app_pushes(
                    m,
                    d0,
                    seq![Instr::LocalGet(local)],
                    types@.take(i - 1),
                    seq![m.local_types@[local as int]],
                );
                assert(builder@.is_prefix_of(b@)) by {
                    assert(builder@ =~= b@.subrange(0, builder@.len() as int));
                }
                assert(b@.skip(builder@.len() as int) =~= d0 + seq![Instr::LocalGet(local)]);
                assert(types@.take(i - 1) + seq![m.local_types@[local as int]] =~= types@.take(
                    i as int,
                ));
                assert(atom_code(g0, atom@, expr.ty)[i - 1] == Instr::LocalGet(local));
                assert(b@.skip(builder@.len() as int) =~= atom_code(g0, atom@, expr.ty).take(
                    i as int,
                ));
            }
        }
        proof {
            assert(types@.take(n as int) =~= types@);
            lemma_step_emit(*self, builder@, b@, slots_spec(expr.ty));
            assert(atom_lowers(g0, atom@, expr.ty));
            assert(atom_code(g0, atom@, expr.ty).take(n as int) =~= atom_code(
                g0,
                atom@,
                expr.ty,
            ));
            assert(b@ =~= builder@ + atom_code(g0, atom@, expr.ty));
        }
        Ok(b)
    }

    /// Lowers an arithmetic form: the first operand, then each further
    /// operand followed by a call to the 128-bit helper for the operator
    /// and the result type, folding left to right.
    pub fn traverse_arithmetic(
        &mut self,
        builder: Vec<Instr>,
        expr: &TypedExpr,
        func: ArithOp,
        operands: &Vec<TypedExpr>,
    ) -> (r: Result<Vec<Instr>, Vec<Instr>>)
        requires
            gen_inv(*old(self)),
            old(self).error is None,
        ensures
            r matches Ok(b) ==> step_ok(
                *old(self),
                *final(self),
                builder@,
                b@,
                slots_spec(expr.ty),
                exports_of_list(operands@),
            ) && (crate::wasm::first_func_named(
                old(self).module,
                arith_helper_name(func, expr.ty),
            ) matches Some(f) && old(self).module.funcs@[f].sig.params@ == arith_params() && old(self).module.funcs@[f].sig.results@ == arith_results() && (operands@.len() >= 2 ==> b@.len()
                > builder@.len() && b@.last() == (Instr::Call(f as usize))) && arith_chain_code(
                final(self).module,
                f as usize,
                b@.skip(builder@.len() as int),
                operands@.len() as nat,
            )),
            r is Err ==> step_err(*old(self), *final(self)),
            registry_unchanged(*old(self), *final(self)),
            !(expr.ty == ClarityType::IntType || expr.ty == ClarityType::UIntType) ==> r is Err
                && (*final(self) == (WasmGenerator { error: final(self).error, ..*old(self) }))
                && final(self).error matches Some(GeneratorError::InternalError(_)),
            arith_literal_operands(*old(self), func, expr.ty, operands@) ==> r.is_ok(),
        decreases operands@, 0nat,
    {
        let ghost g0 = *self;
        let is_int_ty = match self.get_expr_type(expr) {
            ClarityType::IntType => true,
            ClarityType::UIntType => false,
            _ => {
                self.record_error(GeneratorError::InternalError(
                    "invalid type for arithmetic".to_owned(),
                ));
                proof {
                    lemma_error_step(g0, *self);
                }
                return Err(builder);
            },
        };
        let helper_name: &str = match (func, is_int_ty) {
            (ArithOp::Add, true) => "add-int",
            (ArithOp::Subtract, true) => "sub-int",
            (ArithOp::Multiply, true) => "mul-int",
            (ArithOp::Divide, true) => "div-int",
            (ArithOp::Modulo, true) => "mod-int",
            (ArithOp::Add, false) => "add-uint",
            (ArithOp::Subtract, false) => "sub-uint",
            (ArithOp::Multiply, false) => "mul-uint",
            (ArithOp::Divide, false) => "div-uint",
            (ArithOp::Modulo, false) => "mod-uint",
        };
        proof {
            assert(helper_name@ == arith_helper_name(func, expr.ty));
        }
        let helper_func = match self.module.func_by_name(&helper_name.to_owned()) {
            Some(f) => f,
            None => {
                self.record_error(GeneratorError::InternalError(
                    "an arithmetic helper is missing from the standard library".to_owned(),
                ));
                proof {
                    lemma_error_step(g0, *self);
                }
                return Err(builder);
            },
        };
        let expected_params = arith_params_vec();
        let expected_results = arith_results_vec();
        if !vt_vec_eq(&self.module.funcs[helper_func].sig.params, &expected_params) || !vt_vec_eq(
            &self.module.funcs[helper_func].sig.results,
            &expected_results,
        ) {
            self.record_error(GeneratorError::InternalError(
                "an arithmetic helper has an unexpected signature".to_owned(),
            ));
            proof {
                lemma_error_step(g0, *self);
            }
            return Err(builder);
        }
        if operands.len() == 0 {
            self.record_error(GeneratorError::InternalError(
                "arithmetic needs at least one operand".to_owned(),
            ));
            proof {
                lemma_error_step(g0, *self);
            }
            return Err(builder);
        }
        let ok0 = {
            let op = &operands[0];
            let type_ok = match &op.ty {
                ClarityType::IntType => is_int_ty,
                ClarityType::UIntType => !is_int_ty,
                _ => false,
            };
            type_ok && !crate::ast::is_statement_expr(op)
        };
        if !ok0 {
            self.record_error(GeneratorError::InternalError(
                "an arithmetic operand has a non-integer type".to_owned(),
            ));
            proof {
                lemma_error_step(g0, *self);
            }
            return Err(builder);
        }
        proof {
            assert(decreases_to!(operands@ => operands@[0]));
        }
        let mut b = match self.traverse_expr(builder, &operands[0]) {
            Ok(x) => x,
            Err(x) => {
                return Err(x);
            },
        };
        proof {
            assert(operands@.take(1) =~= Seq::<TypedExpr>::empty().push(operands@[0]));
            crate::ast::lemma_exports_of_list_push(Seq::empty(), operands@[0]);
            assert(exports_of_list(Seq::<TypedExpr>::empty()) + exports_of(operands@[0])
                =~= exports_of(operands@[0]));
            assert(exports_of_list(operands@.take(1)) == exports_of(operands@[0]));
            assert(out_slots(operands@[0]) == arith_results());
            assert(arith_chain_code(
                self.module,
                helper_func,
                b@.skip(builder@.len() as int),
                1,
            )) by {
                assert(arith_results() =~= i64_pair());
            }
        }
        let n = operands.len();
        let mut i: usize = 1;
        while i < n
            invariant
                g0 == *old(self),
                gen_inv(g0),
                g0.error is None,
                n == operands@.len(),
                1 <= i <= n,
                step_ok(
                    g0,
                    *self,
                    builder@,
                    b@,
                    arith_results(),
                    exports_of_list(operands@.take(i as int)),
                ),
                registry_unchanged(g0, *self),
                helper_func < self.module.funcs@.len(),
                self.module.funcs@[helper_func as int].sig.params@ == arith_params(),
                self.module.funcs@[helper_func as int].sig.results@ == arith_results(),
                first_func_named(g0.module, arith_helper_name(func, expr.ty)) == Some(
                    helper_func as int,
                ),
                g0.module.funcs@[helper_func as int].sig.params@ == arith_params(),
                g0.module.funcs@[helper_func as int].sig.results@ == arith_results(),
                i >= 2 ==> b@.len() > builder@.len() && b@.last() == (Instr::Call(helper_func)),
                arith_chain_code(
                    self.module,
                    helper_func,
                    b@.skip(builder@.len() as int),
                    i as nat,
                ),
                is_int_ty ==> expr.ty == ClarityType::IntType,
                !is_int_ty ==> expr.ty == ClarityType::UIntType,
            decreases n - i,
        {
            let ghost g_pre = *self;
            let op = &operands[i];
            let type_ok = match &op.ty {
                ClarityType::IntType => is_int_ty,
                ClarityType::UIntType => !is_int_ty,
                _ => false,
            };
            if !(type_ok && !crate::ast::is_statement_expr(op)) {
                let ghost gp = *self;
                self.record_error(GeneratorError::InternalError(
                    "an arithmetic operand has a non-integer type".to_owned(),
                ));
                proof {
                    lemma_error_step(gp, *self);
                    lemma_step_err_after(
                        g0,
                        gp,
                        *self,
                        builder@,
                        b@,
                        arith_results(),
                        exports_of_list(operands@.take(i as int)),
                    );
                }
                return Err(b);
            }
            proof {
                assert(decreases_to!(operands@ => operands@[i as int]));
            }
            let b2 = match self.traverse_expr(b, op) {
                Ok(x) => x,
                Err(x) => {
                    proof {
                        lemma_step_err_after(
                            g0,
                            g_pre,
                            *self,
                            builder@,
                            b@,
                            arith_results(),
                            exports_of_list(operands@.take(i as int)),
                        );
                    }
                    return Err(x);
                },
            };
            let ghost g_child = *self;
            proof {
                lemma_step_ok_trans(
                    g0,
                    g_pre,
                    g_child,
                    builder@,
                    b@,
                    b2@,
                    arith_results(),
                    out_slots(operands@[i as int]),
                    exports_of_list(operands@.take(i as int)),
                    exports_of(operands@[i as int]),
                );
            }
            let mut b3 = b2;
            b3.push(Instr::Call(helper_func));
            i = i + 1;
            proof {
                let m = self.module;
                lemma_prefix_index(g_pre.module.funcs@, m.funcs@, helper_func as int);
                lemma_code_call(m, helper_func);
                let d = b2@.skip(builder@.len() as int);
                let call = seq![Instr::Call(helper_func)];
                assert(arith_results() + out_slots(operands@[i - 1]) =~= Seq::<
                    WasmValType,
                >::empty() + arith_params());
                lemma_code_compose(m, d, call, Seq::empty(), arith_params(), arith_results());
                assert(Seq::<WasmValType>::empty() + arith_results() =~= arith_results());
                lemma_app_prefix(b2@, call);
                lemma_prefix_trans(builder@, b2@, b3@);
                assert(b3@.skip(builder@.len() as int) =~= d + call) by {
                    assert(b3@ =~= b2@ + call);
                }
                assert(operands@.take(i as int) =~= operands@.take(i - 1).push(
                    operands@[i - 1],
                ));
                crate::ast::lemma_exports_of_list_push(operands@.take(i - 1), operands@[i - 1]);
                assert(export_names(m) == export_names(g0.module) + exports_of_list(
                    operands@.take(i as int),
                ));
                assert(step_ok(
                    g0,
                    *self,
                    builder@,
                    b3@,
                    arith_results(),
                    exports_of_list(operands@.take(i as int)),
                ));
                // the operand chain gains one operand and one helper call
                let pre = b@.skip(builder@.len() as int);
                let dch = b2@.skip(b@.len() as int);
                lemma_arith_chain_extends(g_pre.module, m, helper_func, pre, (i - 1) as nat);
                assert(code_pushes(m, dch, i64_pair())) by {
                    assert(out_slots(operands@[i - 1]) =~= i64_pair());
                }
                assert(b3@.skip(builder@.len() as int) =~= arith_step(pre, dch, helper_func)) by {
                    assert(b2@ =~= b@ + dch);
                    assert(b3@ =~= b2@ + seq![Instr::Call(helper_func)]);
                }
                assert(arith_chain_code(
                    m,
                    helper_func,
                    b3@.skip(builder@.len() as int),
                    i as nat,
                ));
            }
            b = b3;
        }
        proof {
            assert(operands@.take(n as int) =~= operands@);
            assert(arith_results() =~= slots_spec(expr.ty));
            assert(arith_chain_code(
                self.module,
                ((helper_func as int) as usize),
                b@.skip(builder@.len() as int),
                operands@.len() as nat,
            ));
        }
        Ok(b)
    }

    /// Lowers `(ok v)`: a one-valued discriminant, the value, then
    /// placeholders for the error arm.
    pub fn traverse_ok(&mut self, builder: Vec<Instr>, expr: &TypedExpr, value: &TypedExpr) -> (r:
        Result<Vec<Instr>, Vec<Instr>>)
        requires
            gen_inv(*old(self)),
            old(self).error is None,
        ensures
            r matches Ok(b) ==> step_ok(
                *old(self),
                *final(self),
                builder@,
                b@,
                slots_spec(expr.ty),
                exports_of(*value),
            ) && (expr.ty matches ClarityType::Response(ok_ty, err_ty) && (exists|d: Seq<Instr>|
                b@ == builder@ + (seq![Instr::I32Const(1)] + d + placeholder_code(
                    slots_spec(*err_ty),
                )) && #[trigger] code_pushes(final(self).module, d, slots_spec(*ok_ty)))),
            response_literal_arm(expr.ty, *value, true) ==> r.is_ok(),
            r is Err ==> step_err(*old(self), *final(self)),
            registry_unchanged(*old(self), *final(self)),
        decreases *value, 2nat,
    {
        let ghost g0 = *self;
        let (ok_slots, err_slots) = match self.get_expr_type(expr) {
            ClarityType::Response(ok_ty, err_ty) => (clar2wasm_ty(ok_ty), clar2wasm_ty(err_ty)),
            _ => {
                self.record_error(GeneratorError::InternalError(
                    "expected a response type".to_owned(),
                ));
                proof {
                    lemma_error_step(g0, *self);
                }
                return Err(builder);
            },
        };
        let value_slots = clar2wasm_ty(self.get_expr_type(value));
        if !vt_vec_eq(&value_slots, &ok_slots) || crate::ast::is_statement_expr(value) {
            self.record_error(GeneratorError::InternalError(
                "the ok arm does not fit the response type".to_owned(),
            ));
            proof {
                lemma_error_step(g0, *self);
            }
            return Err(builder);
        }
        let mut b = builder;
        b.push(Instr::I32Const(1));
        proof {
            lemma_code_i32_const(self.module, 1);
            assert(b@.skip(builder@.len() as int) =~= seq![Instr::I32Const(1)]);
            lemma_app_prefix(builder@, seq![Instr::I32Const(1)]);
            lemma_step_emit(*self, builder@, b@, seq![WasmValType::I32]);
        }
        let ghost b1 = b@;
        let b2 = match self.traverse_expr(b, value) {
            Ok(x) => x,
            Err(x) => {
                proof {
                    lemma_step_err_after(
                        g0,
                        g0,
                        *self,
                        builder@,
                        b1,
                        seq![WasmValType::I32],
                        Seq::empty(),
                    );
                }
                return Err(x);
            },
        };
        let ghost g_child = *self;
        proof {
            lemma_step_ok_trans(
                g0,
                g0,
                g_child,
                builder@,
                b1,
                b2@,
                seq![WasmValType::I32],
                out_slots(*value),
                Seq::empty(),
                exports_of(*value),
            );
        }
        let mut b3 = b2;
        let n = err_slots.len();
        let mut i: usize = 0;
        while i < n
            invariant
                g0 == *old(self),
                *self == g_child,
                gen_inv(g_child),
                n == err_slots@.len(),
                i <= n,
                b2@.is_prefix_of(b3@),
                b3@.skip(b2@.len() as int) == placeholder_code(err_slots@.take(i as int)),
            decreases n - i,
        {
            let ghost b_prev = b3@;
            b3 = self.add_placeholder_for_type(b3, err_slots[i]);
            i = i + 1;
            proof {
                assert(b_prev.is_prefix_of(b3@)) by {
                    assert(b_prev =~= b3@.subrange(0, b_prev.len() as int));
                }
                lemma_prefix_trans(b2@, b_prev, b3@);
                assert(b3@.skip(b2@.len() as int) =~= placeholder_code(err_slots@.take(i - 1))
                    + seq![placeholder_instr(err_slots@[i - 1])]);
                assert(placeholder_code(err_slots@.take(i as int)) =~= placeholder_code(
                    err_slots@.take(i - 1),
                ) + seq![placeholder_instr(err_slots@[i - 1])]);
            }
        }
        proof {
            assert(err_slots@.take(n as int) =~= err_slots@);
            lemma_code_placeholders(g_child.module, err_slots@);
            lemma_step_emit(g_child, b2@, b3@, err_slots@);
            lemma_step_ok_trans(
                g0,
                g_child,
                g_child,
                builder@,
                b2@,
                b3@,
                seq![WasmValType::I32] + out_slots(*value),
                err_slots@,
                exports_of(*value),
                Seq::empty(),
            );
            assert((seq![WasmValType::I32] + out_slots(*value)) + err_slots@ =~= slots_spec(
                expr.ty,
            ));
            assert(exports_of(*value) + Seq::<Seq<char>>::empty() =~= exports_of(*value));
            let d = b2@.skip(b1.len() as int);
            assert(b1 =~= builder@ + seq![Instr::I32Const(1)]);
            assert(b3@.skip(b2@.len() as int) =~= placeholder_code(err_slots@));
            assert(b3@ =~= builder@ + (seq![Instr::I32Const(1)] + d + placeholder_code(
                err_slots@,
            ))) by {
                assert(b2@ =~= b1 + d);
            }
            assert(code_pushes(self.module, d, slots_spec(value.ty)));
        }
        Ok(b3)
    }

    /// Lowers `(err v)`: a zero discriminant, placeholders for the ok arm,
    /// then the value.
    pub fn traverse_err(&mut self, builder: Vec<Instr>, expr: &TypedExpr, value: &TypedExpr) -> (r:
        Result<Vec<Instr>, Vec<Instr>>)
        requires
            gen_inv(*old(self)),
            old(self).error is None,
        ensures
            r matches Ok(b) ==> step_ok(
                *old(self),
                *final(self),
                builder@,
                b@,
                slots_spec(expr.ty),
                exports_of(*value),
            ) && (expr.ty matches ClarityType::Response(ok_ty, err_ty) && (exists|d: Seq<Instr>|
                b@ == builder@ + (seq![Instr::I32Const(0)] + placeholder_code(slots_spec(*ok_ty))
                    + d) && #[trigger] code_pushes(final(self).module, d, slots_spec(*err_ty)))),
            response_literal_arm(expr.ty, *value, false) ==> r.is_ok(),
            r is Err ==> step_err(*old(self), *final(self)),
            registry_unchanged(*old(self), *final(self)),
        decreases *value, 2nat,
    {
        let ghost g0 = *self;
        let (ok_slots, err_slots) = match self.get_expr_type(expr) {
            ClarityType::Response(ok_ty, err_ty) => (clar2wasm_ty(ok_ty), clar2wasm_ty(err_ty)),
            _ => {
                self.record_error(GeneratorError::InternalError(
                    "expected a response type".to_owned(),
                ));
                proof {
                    lemma_error_step(g0, *self);
                }
                return Err(builder);
            },
        };
        let value_slots = clar2wasm_ty(self.get_expr_type(value));
        if !vt_vec_eq(&value_slots, &err_slots) || crate::ast::is_statement_expr(value) {
            self.record_error(GeneratorError::InternalError(
                "the err arm does not fit the response type".to_owned(),
            ));
            proof {
                lemma_error_step(g0, *self);
            }
            return Err(builder);
        }
        let mut b = builder;
        b.push(Instr::I32Const(0));
        let n = ok_slots.len();
        let mut i: usize = 0;
        while i < n
            invariant
                g0 == *old(self),
                *self == g0,
                gen_inv(g0),
                n == ok_slots@.len(),
                i <= n,
                builder@.is_prefix_of(b@),
                b@.skip(builder@.len() as int) == seq![Instr::I32Const(0)] + placeholder_code(
                    ok_slots@.take(i as int),
                ),
            decreases n - i,
        {
            let ghost b_prev = b@;
            b = self.add_placeholder_for_type(b, ok_slots[i]);
            i = i + 1;
            proof {
                assert(b_prev.is_prefix_of(b@)) by {
                    assert(b_prev =~= b@.subrange(0, b_prev.len() as int));
                }
                lemma_prefix_trans(builder@, b_prev, b@);
                assert(b@.skip(builder@.len() as int) =~= (seq![Instr::I32Const(0)]
                    + placeholder_code(ok_slots@.take(i - 1))) + seq![
                    placeholder_instr(ok_slots@[i - 1]),
                ]);
                assert((seq![Instr::I32Const(0)] + placeholder_code(ok_slots@.take(i - 1)))
                    + seq![placeholder_instr(ok_slots@[i - 1])] =~= seq![Instr::I32Const(0)]
                    + placeholder_code(ok_slots@.take(i as int)));
                assert(placeholder_code(ok_slots@.take(i as int)) =~= placeholder_code(
                    ok_slots@.take(i - 1),
                ) + seq![placeholder_instr(ok_slots@[i - 1])]);
            }
        }
        proof {
            assert(ok_slots@.take(n as int) =~= ok_slots@);
            lemma_code_i32_const(self.module, 0);
            lemma_code_placeholders(self.module, ok_slots@);
            lemma_code_app_pushes(
                self.module,
                seq![Instr::I32Const(0)],
                placeholder_code(ok_slots@),
                seq![WasmValType::I32],
                ok_slots@,
            );
            lemma_step_emit(
                *self,
                builder@,
                b@,
                seq![WasmValType::I32] + ok_slots@,
            );
        }
        let ghost b1 = b@;
        let b2 = match self.traverse_expr(b, value) {
            Ok(x) => x,
            Err(x) => {
                proof {
                    lemma_step_err_after(
                        g0,
                        g0,
                        *self,
                        builder@,
                        b1,
                        seq![WasmValType::I32] + ok_slots@,
                        Seq::empty(),
                    );
                }
                return Err(x);
            },
        };
        proof {
            lemma_step_ok_trans(
                g0,
                g0,
                *self,
                builder@,
                b1,
                b2@,
                seq![WasmValType::I32] + ok_slots@,
                out_slots(*value),
                Seq::empty(),
                exports_of(*value),
            );
            assert((seq![WasmValType::I32] + ok_slots@) + out_slots(*value) =~= slots_spec(
                expr.ty,
            ));
            assert(Seq::<Seq<char>>::empty() + exports_of(*value) =~= exports_of(*value));
            let d = b2@.skip(b1.len() as int);
            assert(b1 =~= builder@ + (seq![Instr::I32Const(0)] + placeholder_code(ok_slots@)));
            assert(b2@ =~= builder@ + (seq![Instr::I32Const(0)] + placeholder_code(ok_slots@)
                + d)) by {
                assert(b2@ =~= b1 + d);
            }
            assert(code_pushes(self.module, d, slots_spec(value.ty)));
        }
        Ok(b2)
    }

    /// Lowers a call to a user-defined function: the arguments in order,
    /// then a call to the function resolved by its source name.
    pub fn visit_call_user_defined(
        &mut self,
        builder: Vec<Instr>,
        expr: &TypedExpr,
        name: &String,
        args: &Vec<TypedExpr>,
    ) -> (r: Result<Vec<Instr>, Vec<Instr>>)
        requires
            gen_inv(*old(self)),
            old(self).error is None,
        ensures
            r matches Ok(b) ==> step_ok(
                *old(self),
                *final(self),
                builder@,
                b@,
                slots_spec(expr.ty),
                exports_of_list(args@),
            ) && (crate::wasm::first_func_named(old(self).module, name@) matches Some(f) && old(self).module.funcs@[f].sig.params@ == args_slots(args@) && old(self).module.funcs@[f].sig.results@ == slots_spec(expr.ty) && b@.len() > builder@.len()
                && b@.last() == (Instr::Call(f as usize))),
            call_literal_args_lowers(*old(self), name@, expr.ty, args@) ==> r.is_ok(),
            r is Err ==> step_err(*old(self), *final(self)),
            registry_unchanged(*old(self), *final(self)),
        decreases args@, 0nat,
    {
        let ghost g0 = *self;
        let n = args.len();
        let mut expected_params: Vec<WasmValType> = Vec::new();
        let mut i: usize = 0;
        while i < n
            invariant
                g0 == *old(self),
                *self == g0,
                gen_inv(g0),
                g0.error is None,
                n == args@.len(),
                i <= n,
                expected_params@ == args_slots(args@.take(i as int)),
                forall|k: int| 0 <= k < i ==> !is_statement(#[trigger] args@[k]),
            decreases n - i,
        {
            if crate::ast::is_statement_expr(&args[i]) {
                self.record_error(GeneratorError::InternalError(
                    "a statement form cannot be an argument".to_owned(),
                ));
                proof {
                    lemma_error_step(g0, *self);
                }
                return Err(builder);
            }
            let mut arg_slots = clar2wasm_ty(&args[i].ty);
            expected_params.append(&mut arg_slots);
            i = i + 1;
            proof {
                assert(args@.take(i as int).drop_last() =~= args@.take(i - 1));
                assert(args@.take(i as int).last() == args@[i - 1]);
                assert(expected_params@ =~= args_slots(args@.take(i as int)));
            }
        }
        proof {
            assert(args@.take(n as int) =~= args@);
        }
        let func = match self.module.func_by_name(name) {
            Some(f) => f,
            None => {
                self.record_error(GeneratorError::InternalError(
                    "call to an unknown function".to_owned(),
                ));
                proof {
                    lemma_error_step(g0, *self);
                }
                return Err(builder);
            },
        };
        let expected_results = clar2wasm_ty(self.get_expr_type(expr));
        if !vt_vec_eq(&self.module.funcs[func].sig.params, &expected_params) || !vt_vec_eq(
            &self.module.funcs[func].sig.results,
            &expected_results,
        ) {
            self.record_error(GeneratorError::InternalError(
                "a called function has an unexpected signature".to_owned(),
            ));
            proof {
                lemma_error_step(g0, *self);
            }
            return Err(builder);
        }
        let mut b = builder;
        proof {
            lemma_code_empty(self.module);
            assert(b@.skip(builder@.len() as int) =~= Seq::<Instr>::empty());
            lemma_prefix_refl(builder@);
            lemma_step_emit(*self, builder@, b@, Seq::empty());
            assert(args_slots(args@.take(0)) =~= Seq::<WasmValType>::empty()) by {
                assert(args@.take(0) =~= Seq::<TypedExpr>::empty());
            }
            assert(exports_of_list(args@.take(0)) =~= Seq::<Seq<char>>::empty()) by {
                assert(args@.take(0) =~= Seq::<TypedExpr>::empty());
            }
        }
        let mut i: usize = 0;
        while i < n
            invariant
                g0 == *old(self),
                gen_inv(g0),
                g0.error is None,
                n == args@.len(),
                i <= n,
                step_ok(
                    g0,
                    *self,
                    builder@,
                    b@,
                    args_slots(args@.take(i as int)),
                    exports_of_list(args@.take(i as int)),
                ),
                registry_unchanged(g0, *self),
                func < self.module.funcs@.len(),
                self.module.funcs@[func as int].sig.params@ == args_slots(args@),
                self.module.funcs@[func as int].sig.results@ == slots_spec(expr.ty),
                forall|k: int| 0 <= k < n ==> !is_statement(#[trigger] args@[k]),
            decreases n - i,
        {
            let ghost g_pre = *self;
            let op = &args[i];
            proof {
                assert(decreases_to!(args@ => args@[i as int]));
            }
            let b2 = match self.traverse_expr(b, op) {
                Ok(x) => x,
                Err(x) => {
                    proof {
                        lemma_step_err_after(
                            g0,
                            g_pre,
                            *self,
                            builder@,
                            b@,
                            args_slots(args@.take(i as int)),
                            exports_of_list(args@.take(i as int)),
                        );
                    }
                    return Err(x);
                },
            };
            i = i + 1;
            proof {
                lemma_step_ok_trans(
                    g0,
                    g_pre,
                    *self,
                    builder@,
                    b@,
                    b2@,
                    args_slots(args@.take(i - 1)),
                    out_slots(args@[i - 1]),
                    exports_of_list(args@.take(i - 1)),
                    exports_of(args@[i - 1]),
                );
                assert(args@.take(i as int).drop_last() =~= args@.take(i - 1));
                assert(args@.take(i as int).last() == args@[i - 1]);
                assert(args_slots(args@.take(i - 1)) + out_slots(args@[i - 1]) =~= args_slots(
                    args@.take(i as int),
                ));
                assert(args@.take(i as int) =~= args@.take(i - 1).push(args@[i - 1]));
                crate::ast::lemma_exports_of_list_push(args@.take(i - 1), args@[i - 1]);
                lemma_prefix_index(g_pre.module.funcs@, self.module.funcs@, func as int);
            }
            b = b2;
        }
        proof {
            assert(args@.take(n as int) =~= args@);
        }
        let ghost b_prev = b@;
        b.push(Instr::Call(func));
        proof {
            let m = self.module;
            lemma_code_call(m, func);
            let d = b_prev.skip(builder@.len() as int);
            let call = seq![Instr::Call(func)];
            assert(code_pushes(m, d, Seq::<WasmValType>::empty() + args_slots(args@))) by {
                assert(args_slots(args@) =~= Seq::<WasmValType>::empty() + args_slots(args@));
            }
            lemma_code_compose(m, d, call, Seq::empty(), args_slots(args@), slots_spec(expr.ty));
            assert(Seq::<WasmValType>::empty() + slots_spec(expr.ty) =~= slots_spec(expr.ty));
            lemma_app_prefix(b_prev, call);
            assert(b@ =~= b_prev + call);
            lemma_prefix_trans(builder@, b_prev, b@);
            assert(b@.skip(builder@.len() as int) =~= d + call);
        }
        Ok(b)
    }
}

impl WasmGenerator {
    /// Lowers `(var-get name)`: allocate a frame slot, ask the host to fill
    /// it through `get_variable`, then read the value back onto the stack.
    pub fn visit_var_get(&mut self, builder: Vec<Instr>, expr: &TypedExpr, name: &String) -> (r:
        Result<Vec<Instr>, Vec<Instr>>)
        requires
            gen_inv(*old(self)),
            old(self).error is None,
        ensures
            r.is_ok() <==> var_get_lowers(*old(self), name@, expr.ty),
            r matches Ok(b) ==> step_ok(
                *old(self),
                *final(self),
                builder@,
                b@,
                slots_spec(expr.ty),
                Seq::empty(),
            ) && (crate::ast::assoc(old(self).identifiers@, name@) matches Some(id)
                && (crate::wasm::first_func_named(old(self).module, "get_variable"@)
                matches Some(gv) && b@ == builder@ + var_get_code(
                old(self).stack_pointer,
                old(self).module.local_types@.len() as usize,
                id,
                gv as usize,
            ))),
            r is Err ==> step_err(*old(self), *final(self)),
            registry_unchanged(*old(self), *final(self)),
    {
        let ghost g0 = *self;
        let var_id: i32 = match crate::ast::assoc_get(&self.identifiers, name) {
            Some(id) => *id,
            None => {
                self.record_error(GeneratorError::InternalError(
                    "variable not found".to_owned(),
                ));
                proof {
                    lemma_error_step(g0, *self);
                }
                return Err(builder);
            },
        };
        match self.get_expr_type(expr) {
            ClarityType::IntType | ClarityType::UIntType => {},
            _ => {
                self.record_error(GeneratorError::NotImplemented);
                proof {
                    lemma_error_step(g0, *self);
                }
                return Err(builder);
            },
        }
        let get_variable = match self.module.func_by_name(&"get_variable".to_owned()) {
            Some(f) => f,
            None => {
                self.record_error(GeneratorError::InternalError(
                    "get_variable is missing from the standard library".to_owned(),
                ));
                proof {
                    lemma_error_step(g0, *self);
                }
                return Err(builder);
            },
        };
        if !vt_vec_eq(&self.module.funcs[get_variable].sig.params, &i32s_vec(3))
            || self.module.funcs[get_variable].sig.results.len() != 0 {
            self.record_error(GeneratorError::InternalError(
                "get_variable has an unexpected signature".to_owned(),
            ));
            proof {
                lemma_error_step(g0, *self);
                assert(Seq::new(3nat, |i: int| WasmValType::I32) =~= seq![
                    WasmValType::I32,
                    WasmValType::I32,
                    WasmValType::I32,
                ]);
                assert(!var_get_lowers(g0, name@, expr.ty));
            }
            return Err(builder);
        }
        let sp = self.stack_pointer;
        let (mut b, offset_local, size) = match self.create_call_stack_local(
            builder,
            sp,
            &expr.ty,
        ) {
            Ok(t) => t,
            Err(eb) => {
                proof {
                    lemma_error_step(g0, *self);
                }
                return Err(eb);
            },
        };
        let ghost g1 = *self;
        let ghost b1 = b@;
        b.push(Instr::I32Const(var_id));
        b.push(Instr::LocalGet(offset_local));
        b.push(Instr::I32Const(#[verifier::truncate] (size as i32)));
        b.push(Instr::Call(get_variable));
        let ghost b2 = b@;
        let read_size = match self.read_from_memory(&mut b, offset_local, &expr.ty) {
            Ok(s) => s,
            Err(e) => {
                let ghost gp = *self;
                self.record_error(e);
                proof {
                    lemma_error_step(gp, *self);
                    lemma_evolves_trans(g0, gp, *self);
                }
                return Err(b);
            },
        };
        proof {
            let m = self.module;
            assert(m == g1.module);
            let fa = frame_alloc_code(sp, offset_local, size);
            let i32s3 = seq![WasmValType::I32, WasmValType::I32, WasmValType::I32];
            let c1 = seq![Instr::I32Const(var_id)];
            let c2 = seq![Instr::LocalGet(offset_local)];
            let c3 = seq![Instr::I32Const(size as i32)];
            let call = seq![Instr::Call(get_variable)];
            lemma_code_i32_const(m, var_id);
            lemma_code_local_get(m, offset_local);
            lemma_prefix_index(g0.module.funcs@, m.funcs@, get_variable as int);
            lemma_code_i32_const(m, size as i32);
            lemma_code_app_pushes(m, c1, c2, seq![WasmValType::I32], seq![WasmValType::I32]);
            lemma_code_app_pushes(
                m,
                c1 + c2,
                c3,
                seq![WasmValType::I32] + seq![WasmValType::I32],
                seq![WasmValType::I32],
            );
            lemma_code_call(m, get_variable);
            assert(m.funcs@[get_variable as int].sig.results@ =~= Seq::<WasmValType>::empty());
            assert(code_pushes(
                m,
                (c1 + c2) + c3,
                Seq::<WasmValType>::empty() + m.funcs@[get_variable as int].sig.params@,
            )) by {
                assert((seq![WasmValType::I32] + seq![WasmValType::I32]) + seq![WasmValType::I32]
                    =~= Seq::<WasmValType>::empty() + m.funcs@[get_variable as int].sig.params@);
            }
            lemma_code_compose(
                m,
                (c1 + c2) + c3,
                call,
                Seq::empty(),
                m.funcs@[get_variable as int].sig.params@,
                m.funcs@[get_variable as int].sig.results@,
            );
            lemma_code_app_pushes(
                m,
                fa,
                ((c1 + c2) + c3) + call,
                Seq::empty(),
                Seq::empty() + m.funcs@[get_variable as int].sig.results@,
            );
            lemma_code_app_pushes(
                m,
                fa + (((c1 + c2) + c3) + call),
                read_i128_code(offset_local),
                Seq::empty() + (Seq::empty() + m.funcs@[get_variable as int].sig.results@),
                seq![WasmValType::I64, WasmValType::I64],
            );
            let whole = (fa + (((c1 + c2) + c3) + call)) + read_i128_code(offset_local);
            assert(b@.skip(builder@.len() as int) =~= whole);
            assert((Seq::<WasmValType>::empty() + (Seq::<WasmValType>::empty() + m.funcs@[
                get_variable as int
            ].sig.results@)) + seq![WasmValType::I64, WasmValType::I64] =~= slots_spec(expr.ty));
            assert(builder@.is_prefix_of(b@)) by {
                assert(builder@ =~= b@.subrange(0, builder@.len() as int));
            }
            lemma_step_emit(g1, builder@, b@, slots_spec(expr.ty));
            lemma_evolves_trans(g0, g1, *self);
            assert(export_names(m) =~= export_names(g0.module) + Seq::<Seq<char>>::empty());
            assert(step_ok(g0, *self, builder@, b@, slots_spec(expr.ty), Seq::empty()));
            assert(b@ =~= builder@ + var_get_code(
                g0.stack_pointer,
                g0.module.local_types@.len() as usize,
                var_id,
                get_variable,
            ));
            assert(var_get_lowers(g0, name@, expr.ty)) by {
                assert(Seq::new(3nat, |i: int| WasmValType::I32) =~= seq![
                    WasmValType::I32,
                    WasmValType::I32,
                    WasmValType::I32,
                ]);
                assert(g0.module.funcs@[get_variable as int].sig.results@ =~= Seq::<
                    WasmValType,
                >::empty());
            }
        }
        Ok(b)
    }
}

impl WasmGenerator {
    /// Lowers `(var-set name value)`: write the value into a fresh frame
    /// slot and hand its placement to the host through `set_variable`.  The
    /// boolean result of the source form is not represented.
    pub fn visit_var_set(
        &mut self,
        builder: Vec<Instr>,
        expr: &TypedExpr,
        name: &String,
        value: &TypedExpr,
    ) -> (r: Result<Vec<Instr>, Vec<Instr>>)
        requires
            gen_inv(*old(self)),
            old(self).error is None,
        ensures
            r matches Ok(b) ==> step_ok(
                *old(self),
                *final(self),
                builder@,
                b@,
                Seq::empty(),
                exports_of(*value),
            ) && (crate::ast::assoc(old(self).identifiers@, name@) matches Some(id)
                && (crate::wasm::first_func_named(old(self).module, "set_variable"@)
                matches Some(sv) && (exists|d: Seq<Instr>, h: usize, l: usize|
                #![trigger code_pushes(final(self).module, d, i64_pair()), write_i128_code(
                    old(self).module.local_types@.len() as usize,
                    h,
                    l,
                    0,
                )]
                b@ == builder@ + ((frame_alloc_code(
                    old(self).stack_pointer,
                    old(self).module.local_types@.len() as usize,
                    16,
                ) + d) + write_i128_code(old(self).module.local_types@.len() as usize, h, l, 0)
                    + seq![
                    Instr::I32Const(id),
                    Instr::LocalGet(old(self).module.local_types@.len() as usize),
                    Instr::I32Const(16),
                ] + seq![Instr::Call(sv as usize)]) && code_pushes(
                    final(self).module,
                    d,
                    i64_pair(),
                )))),
            var_set_literal_lowers(*old(self), name@, *value) ==> r.is_ok(),
            r is Err ==> step_err(*old(self), *final(self)),
            registry_unchanged(*old(self), *final(self)),
        decreases *value, 2nat,
    {
        let ghost g0 = *self;
        let var_id: i32 = match crate::ast::assoc_get(&self.identifiers, name) {
            Some(id) => *id,
            None => {
                self.record_error(GeneratorError::InternalError(
                    "variable not found".to_owned(),
                ));
                proof {
                    lemma_error_step(g0, *self);
                }
                return Err(builder);
            },
        };
        let value_ok = match &value.ty {
            ClarityType::IntType | ClarityType::UIntType => !crate::ast::is_statement_expr(value),
            _ => false,
        };
        if !value_ok {
            self.record_error(GeneratorError::NotImplemented);
            proof {
                lemma_error_step(g0, *self);
            }
            return Err(builder);
        }
        let set_variable = match self.module.func_by_name(&"set_variable".to_owned()) {
            Some(f) => f,
            None => {
                self.record_error(GeneratorError::InternalError(
                    "set_variable is missing from the standard library".to_owned(),
                ));
                proof {
                    lemma_error_step(g0, *self);
                }
                return Err(builder);
            },
        };
        if !vt_vec_eq(&self.module.funcs[set_variable].sig.params, &i32s_vec(3))
            || self.module.funcs[set_variable].sig.results.len() != 0 {
            self.record_error(GeneratorError::InternalError(
                "set_variable has an unexpected signature".to_owned(),
            ));
            proof {
                lemma_error_step(g0, *self);
                assert(Seq::new(3nat, |i: int| WasmValType::I32) =~= seq![
                    WasmValType::I32,
                    WasmValType::I32,
                    WasmValType::I32,
                ]);
                assert(!var_set_literal_lowers(g0, name@, *value));
            }
            return Err(builder);
        }
        let sp = self.stack_pointer;
        let (b, offset_local, size) = match self.create_call_stack_local(builder, sp, &value.ty) {
            Ok(t) => t,
            Err(eb) => {
                proof {
                    lemma_error_step(g0, *self);
                }
                return Err(eb);
            },
        };
        let ghost g1 = *self;
        let ghost b1 = b@;
        proof {
            lemma_app_prefix(builder@, frame_alloc_code(sp, offset_local, size));
            lemma_step_emit(g1, builder@, b1, Seq::empty());
        }
        let mut b2 = match self.traverse_expr(b, value) {
            Ok(x) => x,
            Err(x) => {
                proof {
                    lemma_step_err_after(g0, g1, *self, builder@, b1, Seq::empty(), Seq::empty());
                }
                return Err(x);
            },
        };
        let ghost g2 = *self;
        proof {
            lemma_step_ok_trans(
                g0,
                g1,
                g2,
                builder@,
                b1,
                b2@,
                Seq::empty(),
                out_slots(*value),
                Seq::empty(),
                exports_of(*value),
            );
        }
        let ghost b2v = b2@;
        proof {
            lemma_prefix_index(g1.module.local_types@, g2.module.local_types@, offset_local as int);
        }
        let wsize = match self.write_to_memory(&mut b2, offset_local, 0, &value.ty) {
            Ok(s) => s,
            Err(e) => {
                let ghost gp = *self;
                self.record_error(e);
                proof {
                    lemma_error_step(gp, *self);
                    lemma_step_err_after(
                        g0,
                        g2,
                        *self,
                        builder@,
                        b2v,
                        Seq::empty() + out_slots(*value),
                        Seq::empty() + exports_of(*value),
                    );
                }
                return Err(b2);
            },
        };
        let ghost g3 = *self;
        let ghost wcode = b2@.skip(b2v.len() as int);
        proof {
            let m = g3.module;
            let both = seq![WasmValType::I64, WasmValType::I64];
            let wc = write_i128_code(
                offset_local,
                g2.module.local_types@.len() as usize,
                (g2.module.local_types@.len() + 1) as usize,
                0,
            );
            lemma_app_prefix(b2v, wc);
            assert(wcode =~= wc);
            let d02 = b2v.skip(builder@.len() as int);
            lemma_code_pushes_extends(g2.module, m, d02, Seq::empty() + out_slots(*value));
            assert(code_pushes(m, d02, Seq::<WasmValType>::empty() + both)) by {
                assert(Seq::<WasmValType>::empty() + out_slots(*value)
                    =~= Seq::<WasmValType>::empty() + both);
            }
            lemma_code_compose(m, d02, wcode, Seq::empty(), both, Seq::empty());
            assert(b2@.skip(builder@.len() as int) =~= d02 + wcode) by {
                assert(b2v =~= b2@.subrange(0, b2v.len() as int));
            }
            assert(builder@.is_prefix_of(b2@)) by {
                assert(builder@ =~= b2@.subrange(0, builder@.len() as int));
            }
        }
        b2.push(Instr::I32Const(var_id));
        b2.push(Instr::LocalGet(offset_local));
        b2.push(Instr::I32Const(#[verifier::truncate] (size as i32)));
        b2.push(Instr::Call(set_variable));
        proof {
            let m = self.module;
            assert(m == g3.module);
            let d03 = b2v.skip(builder@.len() as int) + wcode;
            let c1 = seq![Instr::I32Const(var_id)];
            let c2 = seq![Instr::LocalGet(offset_local)];
            let c3 = seq![Instr::I32Const(size as i32)];
            let call = seq![Instr::Call(set_variable)];
            lemma_code_i32_const(m, var_id);
            lemma_prefix_index(g1.module.local_types@, g2.module.local_types@, offset_local as int);
            lemma_prefix_index(g2.module.local_types@, m.local_types@, offset_local as int);
            lemma_code_local_get(m, offset_local);
            lemma_code_i32_const(m, size as i32);
            lemma_prefix_index(g0.module.funcs@, g1.module.funcs@, set_variable as int);
            lemma_prefix_index(g1.module.funcs@, g2.module.funcs@, set_variable as int);
            lemma_prefix_index(g2.module.funcs@, m.funcs@, set_variable as int);
            lemma_code_app_pushes(m, c1, c2, seq![WasmValType::I32], seq![WasmValType::I32]);
            lemma_code_app_pushes(
                m,
                c1 + c2,
                c3,
                seq![WasmValType::I32] + seq![WasmValType::I32],
                seq![WasmValType::I32],
            );
            lemma_code_call(m, set_variable);
            assert(code_pushes(
                m,
                (c1 + c2) + c3,
                Seq::<WasmValType>::empty() + m.funcs@[set_variable as int].sig.params@,
            )) by {
                assert((seq![WasmValType::I32] + seq![WasmValType::I32]) + seq![WasmValType::I32]
                    =~= Seq::<WasmValType>::empty() + m.funcs@[set_variable as int].sig.params@);
            }
            lemma_code_compose(
                m,
                (c1 + c2) + c3,
                call,
                Seq::empty(),
                m.funcs@[set_variable as int].sig.params@,
                m.funcs@[set_variable as int].sig.results@,
            );
            assert(code_pushes(m, d03, Seq::empty())) by {
                assert(Seq::<WasmValType>::empty() + Seq::<WasmValType>::empty()
                    =~= Seq::<WasmValType>::empty());
            }
            lemma_code_app_pushes(
                m,
                d03,
                (((c1 + c2) + c3)) + call,
                Seq::empty(),
                Seq::empty() + m.funcs@[set_variable as int].sig.results@,
            );
            assert(b2@.skip(builder@.len() as int) =~= d03 + ((((c1 + c2) + c3)) + call));
            assert(builder@.is_prefix_of(b2@)) by {
                assert(builder@ =~= b2@.subrange(0, builder@.len() as int));
            }
            assert(code_pushes(m, b2@.skip(builder@.len() as int), Seq::empty())) by {
                assert(Seq::<WasmValType>::empty() + (Seq::<WasmValType>::empty() + m.funcs@[
                    set_variable as int
                ].sig.results@) =~= Seq::<WasmValType>::empty());
            }
            lemma_evolves_trans(g0, g2, g3);
            assert(export_names(m) == export_names(g0.module) + exports_of(*value)) by {
                assert(export_names(g2.module) == export_names(g0.module) + (Seq::<
                    Seq<char>,
                >::empty() + exports_of(*value)));
                assert(Seq::<Seq<char>>::empty() + exports_of(*value) =~= exports_of(*value));
            }
            assert(step_ok(g0, *self, builder@, b2@, Seq::empty(), exports_of(*value)));
            let dch = b2v.skip(b1.len() as int);
            let off = g0.module.local_types@.len() as usize;
            let hw = g2.module.local_types@.len() as usize;
            let lw = (g2.module.local_types@.len() + 1) as usize;
            assert(code_pushes(m, dch, i64_pair())) by {
                lemma_code_pushes_extends(
                    g2.module,
                    m,
                    dch,
                    Seq::empty() + out_slots(*value),
                );
                assert(Seq::<WasmValType>::empty() + out_slots(*value) =~= i64_pair());
            }
            assert(b2@ =~= builder@ + ((frame_alloc_code(g0.stack_pointer, off, 16) + dch)
                + write_i128_code(off, hw, lw, 0) + seq![
                Instr::I32Const(var_id),
                Instr::LocalGet(off),
                Instr::I32Const(16),
            ] + seq![Instr::Call(set_variable)])) by {
                assert(b1 =~= builder@ + frame_alloc_code(g0.stack_pointer, off, 16));
                assert(b2v =~= b1 + dch);
            }
        }
        Ok(b2)
    }
}

impl WasmGenerator {
    /// Lowers a top-level `(define-data-var name ty initial)`: allocate the
    /// next dense identifier for the name, intern the name's bytes, place
    /// the initial value in the literal region, and register the variable
    /// with the host through `define_variable`.
    pub fn traverse_define_data_var(
        &mut self,
        builder: Vec<Instr>,
        _expr: &TypedExpr,
        name: &String,
        initial: &TypedExpr,
    ) -> (r: Result<Vec<Instr>, Vec<Instr>>)
        requires
            gen_inv(*old(self)),
            old(self).error is None,
        ensures
            r matches Ok(b) ==> step_ok(
                *old(self),
                *final(self),
                builder@,
                b@,
                Seq::empty(),
                exports_of(*initial),
            ) && final(self).identifiers@.len() == old(self).identifiers@.len() + 1 && final(self).identifiers@.last().0@ == name@ && final(self).identifiers@.last().1 == old(self).next_identifier && final(self).identifiers@.drop_last() == old(self).identifiers@
                && final(self).next_identifier == old(self).next_identifier + 1 && final(self).module.funcs@ == old(self).module.funcs@ && final(self).module.exports@ == old(self).module.exports@ && (crate::wasm::first_func_named(
                old(self).module,
                "define_variable"@,
            ) matches Some(dv) && (exists|d: Seq<Instr>, h: usize, l: usize|
                #![trigger code_pushes(final(self).module, d, i64_pair()), write_i128_code(
                    old(self).module.local_types@.len() as usize,
                    h,
                    l,
                    0,
                )]
                b@ == builder@ + ((seq![
                    Instr::I32Const(((old(self).literal_memory_end
                        + vstd::utf8::encode_utf8(name@).len()) as u32) as i32),
                    Instr::LocalSet(old(self).module.local_types@.len() as usize),
                ] + d) + write_i128_code(old(self).module.local_types@.len() as usize, h, l, 0)
                    + seq![
                    Instr::I32Const(old(self).next_identifier),
                    Instr::I32Const(old(self).literal_memory_end as i32),
                    Instr::I32Const(vstd::utf8::encode_utf8(name@).len() as i32),
                    Instr::LocalGet(old(self).module.local_types@.len() as usize),
                    Instr::I32Const(16),
                ] + seq![Instr::Call(dv as usize)]) && code_pushes(final(self).module, d, i64_pair()))) && final(self).literal_memory_end >= old(self).literal_memory_end + vstd::utf8::encode_utf8(
                name@,
            ).len() + 16,
            define_data_var_literal_lowers(*old(self), name@, *initial) ==> r.is_ok(),
            r is Err ==> step_err(*old(self), *final(self)),
        decreases *initial, 2nat,
    {
        let ghost g0 = *self;
        if crate::ast::assoc_get(&self.identifiers, name).is_some() {
            self.record_error(GeneratorError::InternalError(
                "a persistent name was defined twice".to_owned(),
            ));
            proof {
                lemma_error_step(g0, *self);
            }
            return Err(builder);
        }
        if self.next_identifier == i32::MAX {
            self.record_error(GeneratorError::InternalError(
                "too many persistent names".to_owned(),
            ));
            proof {
                lemma_error_step(g0, *self);
            }
            return Err(builder);
        }
        let value_ok = match &initial.ty {
            ClarityType::IntType | ClarityType::UIntType => !crate::ast::is_statement_expr(
                initial,
            ),
            _ => false,
        };
        if !value_ok {
            self.record_error(GeneratorError::NotImplemented);
            proof {
                lemma_error_step(g0, *self);
            }
            return Err(builder);
        }
        let define_variable = match self.module.func_by_name(&"define_variable".to_owned()) {
            Some(f) => f,
            None => {
                self.record_error(GeneratorError::InternalError(
                    "define_variable is missing from the standard library".to_owned(),
                ));
                proof {
                    lemma_error_step(g0, *self);
                }
                return Err(builder);
            },
        };
        if !vt_vec_eq(&self.module.funcs[define_variable].sig.params, &i32s_vec(5))
            || self.module.funcs[define_variable].sig.results.len() != 0 {
            self.record_error(GeneratorError::InternalError(
                "define_variable has an unexpected signature".to_owned(),
            ));
            proof {
                lemma_error_step(g0, *self);
                assert(Seq::new(5nat, |i: int| WasmValType::I32) =~= seq![
                    WasmValType::I32,
                    WasmValType::I32,
                    WasmValType::I32,
                    WasmValType::I32,
                    WasmValType::I32,
                ]);
                assert(!define_data_var_literal_lowers(g0, name@, *initial));
            }
            return Err(builder);
        }
        let var_id = self.get_next_identifier();
        self.identifiers.push((name.clone(), var_id));
        proof {
            crate::ast::lemma_assoc_none_inv(g0.identifiers@, name@);
            assert(ids_wf(*self)) by {
                assert forall|i: int| 0 <= i < self.identifiers@.len() implies (
                #[trigger] self.identifiers@[i]).1 == i by {
                    if i < self.identifiers@.len() - 1 {
                        assert(self.identifiers@[i] == g0.identifiers@[i]);
                    }
                }
                assert forall|i: int, j: int|
                    #![trigger self.identifiers@[i], self.identifiers@[j]]
                    0 <= i < j < self.identifiers@.len() implies self.identifiers@[i].0@
                    != self.identifiers@[j].0@ by {
                    assert(self.identifiers@[i] == g0.identifiers@[i]);
                    if j < self.identifiers@.len() - 1 {
                        assert(self.identifiers@[j] == g0.identifiers@[j]);
                    }
                }
            }
            assert(g0.identifiers@.is_prefix_of(self.identifiers@)) by {
                assert(g0.identifiers@ =~= self.identifiers@.subrange(
                    0,
                    g0.identifiers@.len() as int,
                ));
            }
        }
        let (name_offset, name_length) = match self.add_identifier_string_literal(name) {
            Ok(p) => p,
            Err(e) => {
                let ghost gp = *self;
                self.record_error(e);
                proof {
                    lemma_error_step(gp, *self);
                }
                return Err(builder);
            },
        };
        let value_offset = self.literal_memory_end;
        let offset = self.module.add_local(WasmValType::I32);
        let mut b = builder;
        b.push(Instr::I32Const(#[verifier::truncate] (value_offset as i32)));
        b.push(Instr::LocalSet(offset));
        let ghost g1 = *self;
        let ghost b1 = b@;
        proof {
            let m = g1.module;
            let c1 = seq![Instr::I32Const(value_offset as i32)];
            let c2 = seq![Instr::LocalSet(offset)];
            lemma_code_i32_const(m, value_offset as i32);
            lemma_code_local_set(m, offset);
            assert(code_pushes(m, c1, Seq::<WasmValType>::empty() + seq![WasmValType::I32])) by {
                assert(seq![WasmValType::I32] =~= Seq::<WasmValType>::empty() + seq![
                    WasmValType::I32,
                ]);
            }
            lemma_code_compose(m, c1, c2, Seq::empty(), seq![WasmValType::I32], Seq::empty());
            assert(code_pushes(m, c1 + c2, Seq::empty())) by {
                assert(Seq::<WasmValType>::empty() + Seq::<WasmValType>::empty()
                    =~= Seq::<WasmValType>::empty());
            }
            assert(b1.skip(builder@.len() as int) =~= c1 + c2);
            assert(builder@.is_prefix_of(b1)) by {
                assert(builder@ =~= b1.subrange(0, builder@.len() as int));
            }
            assert(gen_inv(g1)) by {
                assert(standard_prefix(m)) by {
                    assert forall|k: int| 0 <= k < 14 implies (#[trigger] m.funcs@[k]).name@
                        == std_name(k) && m.funcs@[k].sig.params@ == std_params(k) && m.funcs@[
                        k
                    ].sig.results@ == std_results(k) by {
                        assert(m.funcs@[k] == g0.module.funcs@[k]);
                    }
                }
                assert(funcs_wf(m)) by {
                    assert forall|idx: int| 0 <= idx < m.funcs@.len() implies
                        crate::wasm::func_wf(m, #[trigger] m.funcs@[idx]) by {
                        lemma_func_wf_extends(g0.module, m, m.funcs@[idx]);
                    }
                }
                assert(env_wf(self.locals@, m)) by {
                    assert forall|idx: int| 0 <= idx < self.locals@.len() implies (
                    #[trigger] self.locals@[idx]).local < m.local_types@.len() by {
                        assert(self.locals@[idx].local < g0.module.local_types@.len());
                    }
                }
            }
            assert(evolves(g0, g1)) by {
                lemma_module_extends_trans(g0.module, g0.module, m);
                lemma_module_extends_refl(g0.module);
            }
            assert(export_names(m) =~= export_names(g0.module) + Seq::<Seq<char>>::empty());
            lemma_step_emit(g1, builder@, b1, Seq::empty());
            assert(step_ok(g0, g1, builder@, b1, Seq::empty(), Seq::empty()));
        }
        let mut b2 = match self.traverse_expr(b, initial) {
            Ok(x) => x,
            Err(x) => {
                proof {
                    lemma_step_err_after(g0, g1, *self, builder@, b1, Seq::empty(), Seq::empty());
                }
                return Err(x);
            },
        };
        let ghost g2 = *self;
        proof {
            lemma_step_ok_trans(
                g0,
                g1,
                g2,
                builder@,
                b1,
                b2@,
                Seq::empty(),
                out_slots(*initial),
                Seq::empty(),
                exports_of(*initial),
            );
            lemma_prefix_index(g1.module.local_types@, g2.module.local_types@, offset as int);
        }
        let ghost b2v = b2@;
        let wsize = match self.write_to_memory(&mut b2, offset, 0, &initial.ty) {
            Ok(s) => s,
            Err(e) => {
                let ghost gp = *self;
                self.record_error(e);
                proof {
                    lemma_error_step(gp, *self);
                    lemma_step_err_after(
                        g0,
                        g2,
                        *self,
                        builder@,
                        b2v,
                        Seq::empty() + out_slots(*initial),
                        Seq::empty() + exports_of(*initial),
                    );
                }
                return Err(b2);
            },
        };
        if self.literal_memory_end > u32::MAX - wsize {
            let ghost gp = *self;
            self.record_error(GeneratorError::InternalError(
                "literal region outgrew the address space".to_owned(),
            ));
            proof {
                lemma_error_step(gp, *self);
                lemma_step_err_after(
                    g0,
                    g2,
                    *self,
                    builder@,
                    b2v,
                    Seq::empty() + out_slots(*initial),
                    Seq::empty() + exports_of(*initial),
                );
            }
            return Err(b2);
        }
        self.literal_memory_end = self.literal_memory_end + wsize;
        let ghost g3 = *self;
        let ghost wcode = b2@.skip(b2v.len() as int);
        proof {
            let m = g3.module;
            assert(segments_wf(m, g3.literal_memory_end)) by {
                assert forall|i: int| 0 <= i < m.data@.len() implies (#[trigger] m.data@[i]).offset
                    + m.data@[i].bytes@.len() <= g3.literal_memory_end by {
                    assert(m.data@[i].offset + m.data@[i].bytes@.len()
                        <= g2.literal_memory_end);
                }
            }
            let both = seq![WasmValType::I64, WasmValType::I64];
            let wc = write_i128_code(
                offset,
                g2.module.local_types@.len() as usize,
                (g2.module.local_types@.len() + 1) as usize,
                0,
            );
            lemma_app_prefix(b2v, wc);
            assert(wcode =~= wc);
            let d02 = b2v.skip(builder@.len() as int);
            lemma_code_pushes_extends(g2.module, m, d02, Seq::empty() + out_slots(*initial));
            assert(code_pushes(m, d02, Seq::<WasmValType>::empty() + both)) by {
                assert(Seq::<WasmValType>::empty() + out_slots(*initial)
                    =~= Seq::<WasmValType>::empty() + both);
            }
            lemma_code_compose(m, d02, wcode, Seq::empty(), both, Seq::empty());
            assert(b2@.skip(builder@.len() as int) =~= d02 + wcode) by {
                assert(b2v =~= b2@.subrange(0, b2v.len() as int));
            }
            assert(builder@.is_prefix_of(b2@)) by {
                assert(builder@ =~= b2@.subrange(0, builder@.len() as int));
            }
        }
        b2.push(Instr::I32Const(var_id));
        b2.push(Instr::I32Const(#[verifier::truncate] (name_offset as i32)));
        b2.push(Instr::I32Const(#[verifier::truncate] (name_length as i32)));
        b2.push(Instr::LocalGet(offset));
        b2.push(Instr::I32Const(#[verifier::truncate] (wsize as i32)));
        b2.push(Instr::Call(define_variable));
        proof {
            let m = self.module;
            assert(m == g3.module);
            let d03 = b2v.skip(builder@.len() as int) + wcode;
            let i32one = seq![WasmValType::I32];
            let c1 = seq![Instr::I32Const(var_id)];
            let c2 = seq![Instr::I32Const(name_offset as i32)];
            let c3 = seq![Instr::I32Const(name_length as i32)];
            let c4 = seq![Instr::LocalGet(offset)];
            let c5 = seq![Instr::I32Const(wsize as i32)];
            let call = seq![Instr::Call(define_variable)];
            lemma_code_i32_const(m, var_id);
            lemma_code_i32_const(m, name_offset as i32);
            lemma_code_i32_const(m, name_length as i32);
            lemma_prefix_index(g2.module.local_types@, m.local_types@, offset as int);
            lemma_code_local_get(m, offset);
            lemma_code_i32_const(m, wsize as i32);
            lemma_prefix_index(g0.module.funcs@, g1.module.funcs@, define_variable as int);
            lemma_prefix_index(g1.module.funcs@, g2.module.funcs@, define_variable as int);
            lemma_prefix_index(g2.module.funcs@, m.funcs@, define_variable as int);
            lemma_code_app_pushes(m, c1, c2, i32one, i32one);
            lemma_code_app_pushes(m, c1 + c2, c3, i32one + i32one, i32one);
            lemma_code_app_pushes(m, (c1 + c2) + c3, c4, (i32one + i32one) + i32one, i32one);
            lemma_code_app_pushes(
                m,
                ((c1 + c2) + c3) + c4,
                c5,
                ((i32one + i32one) + i32one) + i32one,
                i32one,
            );
            lemma_code_call(m, define_variable);
            assert(code_pushes(
                m,
                (((c1 + c2) + c3) + c4) + c5,
                Seq::<WasmValType>::empty() + m.funcs@[define_variable as int].sig.params@,
            )) by {
                assert((((i32one + i32one) + i32one) + i32one) + i32one
                    =~= Seq::<WasmValType>::empty() + m.funcs@[
                    define_variable as int
                ].sig.params@);
            }
            lemma_code_compose(
                m,
                (((c1 + c2) + c3) + c4) + c5,
                call,
                Seq::empty(),
                m.funcs@[define_variable as int].sig.params@,
                m.funcs@[define_variable as int].sig.results@,
            );
            assert(code_pushes(m, d03, Seq::empty())) by {
                assert(Seq::<WasmValType>::empty() + Seq::<WasmValType>::empty()
                    =~= Seq::<WasmValType>::empty());
            }
            lemma_code_app_pushes(
                m,
                d03,
                ((((c1 + c2) + c3) + c4) + c5) + call,
                Seq::empty(),
                Seq::empty() + m.funcs@[define_variable as int].sig.results@,
            );
            assert(b2@.skip(builder@.len() as int) =~= d03 + (((((c1 + c2) + c3) + c4) + c5)
                + call));
            assert(builder@.is_prefix_of(b2@)) by {
                assert(builder@ =~= b2@.subrange(0, builder@.len() as int));
            }
            assert(code_pushes(m, b2@.skip(builder@.len() as int), Seq::empty())) by {
                assert(Seq::<WasmValType>::empty() + (Seq::<WasmValType>::empty() + m.funcs@[
                    define_variable as int
                ].sig.results@) =~= Seq::<WasmValType>::empty());
            }
            assert(evolves(g0, *self)) by {
                lemma_evolves_trans(g0, g2, g3);
            }
            assert(export_names(m) == export_names(g0.module) + exports_of(*initial)) by {
                assert(export_names(g2.module) == export_names(g0.module) + (Seq::<
                    Seq<char>,
                >::empty() + exports_of(*initial)));
                assert(Seq::<Seq<char>>::empty() + exports_of(*initial) =~= exports_of(
                    *initial,
                ));
            }
            assert(step_ok(g0, *self, builder@, b2@, Seq::empty(), exports_of(*initial)));
            assert(non_defining(*initial));
            assert(self.identifiers@.drop_last() =~= g0.identifiers@);
            let dch = b2v.skip(b1.len() as int);
            let offv = g0.module.local_types@.len() as usize;
            let hw = g2.module.local_types@.len() as usize;
            let lw = (g2.module.local_types@.len() + 1) as usize;
            assert(offset == offv);
            assert(code_pushes(m, dch, i64_pair())) by {
                lemma_code_pushes_extends(
                    g2.module,
                    m,
                    dch,
                    Seq::empty() + out_slots(*initial),
                );
                assert(Seq::<WasmValType>::empty() + out_slots(*initial) =~= i64_pair());
            }
            assert(value_offset == ((g0.literal_memory_end + vstd::utf8::encode_utf8(
                name@,
            ).len()) as u32));
            assert(b2@ =~= builder@ + ((seq![
                Instr::I32Const(value_offset as i32),
                Instr::LocalSet(offv),
            ] + dch) + write_i128_code(offv, hw, lw, 0) + seq![
                Instr::I32Const(var_id),
                Instr::I32Const(name_offset as i32),
                Instr::I32Const(name_length as i32),
                Instr::LocalGet(offv),
                Instr::I32Const(16),
            ] + seq![Instr::Call(define_variable)])) by {
                assert(b1 =~= builder@ + seq![
                    Instr::I32Const(value_offset as i32),
                    Instr::LocalSet(offv),
                ]);
                assert(b2v =~= b1 + dch);
            }
            assert(name_length as i32 == vstd::utf8::encode_utf8(name@).len() as i32);
        }
        Ok(b2)
    }
}

/// Emitting pushing code extends a successful step.
pub proof fn lemma_step_ok_emit_pushes(
    g1: WasmGenerator,
    g2: WasmGenerator,
    b0: Seq<Instr>,
    b1: Seq<Instr>,
    c: Seq<Instr>,
    out1: Seq<WasmValType>,
    out2: Seq<WasmValType>,
    exps: Seq<Seq<char>>,
)
    requires
        step_ok(g1, g2, b0, b1, out1, exps),
        code_pushes(g2.module, c, out2),
    ensures
        step_ok(g1, g2, b0, b1 + c, out1 + out2, exps),
{
    let d = b1.skip(b0.len() as int);
    lemma_code_app_pushes(g2.module, d, c, out1, out2);
    lemma_app_prefix(b1, c);
    lemma_prefix_trans(b0, b1, b1 + c);
    assert((b1 + c).skip(b0.len() as int) =~= d + c) by {
        assert(b0.is_prefix_of(b1));
    }
}

/// Emitting consuming code extends a successful step, replacing the
/// consumed top of what the step pushed.
pub proof fn lemma_step_ok_emit_xform(
    g1: WasmGenerator,
    g2: WasmGenerator,
    b0: Seq<Instr>,
    b1: Seq<Instr>,
    c: Seq<Instr>,
    mid: Seq<WasmValType>,
    takes: Seq<WasmValType>,
    gives: Seq<WasmValType>,
    exps: Seq<Seq<char>>,
)
    requires
        step_ok(g1, g2, b0, b1, mid + takes, exps),
        code_xform(g2.module, c, takes, gives),
    ensures
        step_ok(g1, g2, b0, b1 + c, mid + gives, exps),
{
    let d = b1.skip(b0.len() as int);
    lemma_code_compose(g2.module, d, c, mid, takes, gives);
    lemma_app_prefix(b1, c);
    lemma_prefix_trans(b0, b1, b1 + c);
    assert((b1 + c).skip(b0.len() as int) =~= d + c) by {
        assert(b0.is_prefix_of(b1));
    }
}

/// A module extension that only allocates locals keeps the generator
/// consistent and counts as evolution.
pub proof fn lemma_gen_inv_grow(g2: WasmGenerator, g3: WasmGenerator)
    requires
        gen_inv(g2),
        module_extends(g2.module, g3.module),
        g3.module.funcs == g2.module.funcs,
        g3.module.data == g2.module.data,
        g3.literal_memory_end == g2.literal_memory_end,
        g3.locals == g2.locals,
        g3.identifiers == g2.identifiers,
        g3.next_identifier == g2.next_identifier,
        g3.stack_pointer == g2.stack_pointer,
        g3.contract_analysis == g2.contract_analysis,
        g3.error == g2.error,
    ensures
        gen_inv(g3),
        evolves(g2, g3),
{
    let m = g3.module;
    assert(funcs_wf(m)) by {
        assert forall|idx: int| 0 <= idx < m.funcs@.len() implies crate::wasm::func_wf(
            m,
            #[trigger] m.funcs@[idx],
        ) by {
            lemma_func_wf_extends(g2.module, m, m.funcs@[idx]);
        }
    }
    assert(env_wf(g3.locals@, m)) by {
        assert forall|idx: int| 0 <= idx < g3.locals@.len() implies (
        #[trigger] g3.locals@[idx]).local < m.local_types@.len() by {
            assert(g3.locals@[idx].local < g2.module.local_types@.len());
        }
    }
    lemma_prefix_refl(g2.identifiers@);
}

/// The state part of a step may advance without emission.
pub proof fn lemma_step_ok_state(
    g1: WasmGenerator,
    g2: WasmGenerator,
    g3: WasmGenerator,
    b0: Seq<Instr>,
    b1: Seq<Instr>,
    out: Seq<WasmValType>,
    exps: Seq<Seq<char>>,
)
    requires
        step_ok(g1, g2, b0, b1, out, exps),
        gen_inv(g3),
        evolves(g2, g3),
        g3.locals@ == g2.locals@,
        g3.error is None,
        export_names(g3.module) == export_names(g2.module),
    ensures
        step_ok(g1, g3, b0, b1, out, exps),
{
    lemma_evolves_trans(g1, g2, g3);
    lemma_code_pushes_extends(g2.module, g3.module, b1.skip(b0.len() as int), out);
}

impl WasmGenerator {
    /// Lowers `(concat a b)`: allocate a frame slot for the result, copy
    /// both sequences into it through `memcpy`, and push the new placement.
    #[verifier::rlimit(60)]
    pub fn traverse_concat(
        &mut self,
        builder: Vec<Instr>,
        expr: &TypedExpr,
        lhs: &TypedExpr,
        rhs: &TypedExpr,
    ) -> (r: Result<Vec<Instr>, Vec<Instr>>)
        requires
            gen_inv(*old(self)),
            old(self).error is None,
            expr.kind matches ExprKind::Concat(a, b) && *a == *lhs && *b == *rhs,
        ensures
            r matches Ok(b) ==> step_ok(
                *old(self),
                *final(self),
                builder@,
                b@,
                slots_spec(expr.ty),
                exports_of(*lhs) + exports_of(*rhs),
            ) && (crate::wasm::first_func_named(old(self).module, "memcpy"@) matches Some(mc)
                && (exists|d1: Seq<Instr>, d2: Seq<Instr>, end: usize, szl: usize|
                #![trigger code_pushes(final(self).module, d1, i32_pair()), code_pushes(
                    final(self).module,
                    d2,
                    i32_pair(),
                ), Seq::<Instr>::empty().push(Instr::LocalSet(end)), Seq::<
                    Instr,
                >::empty().push(Instr::LocalSet(szl))]
                b@ == builder@ + (frame_alloc_code(
                    old(self).stack_pointer,
                    old(self).module.local_types@.len() as usize,
                    type_size_spec(expr.ty) as u32,
                ) + d1 + seq![
                    Instr::LocalGet(old(self).module.local_types@.len() as usize),
                    Instr::Call(mc as usize),
                ] + seq![Instr::LocalSet(end)] + d2 + seq![
                    Instr::LocalGet(end),
                    Instr::Call(mc as usize),
                ] + seq![
                    Instr::LocalGet(old(self).module.local_types@.len() as usize),
                    Instr::I32Sub,
                    Instr::LocalSet(szl),
                ] + seq![
                    Instr::LocalGet(old(self).module.local_types@.len() as usize),
                    Instr::LocalGet(szl),
                ]) && code_pushes(final(self).module, d1, i32_pair()) && code_pushes(
                    final(self).module,
                    d2,
                    i32_pair(),
                ))),
            r is Err ==> step_err(*old(self), *final(self)),
            registry_unchanged(*old(self), *final(self)),
        decreases *expr, 0nat,
    {
        let ghost g0 = *self;
        let ghost pair = seq![WasmValType::I32, WasmValType::I32];
        match &expr.ty {
            ClarityType::StringAscii(_) | ClarityType::StringUtf8(_) | ClarityType::List(_, _) => {
            },
            _ => {
                self.record_error(GeneratorError::InternalError(
                    "concat expects a sequence result type".to_owned(),
                ));
                proof {
                    lemma_error_step(g0, *self);
                }
                return Err(builder);
            },
        }
        let lhs_ok = match &lhs.ty {
            ClarityType::StringAscii(_) | ClarityType::StringUtf8(_) | ClarityType::List(_, _) =>
                !crate::ast::is_statement_expr(lhs),
            _ => false,
        };
        let rhs_ok = match &rhs.ty {
            ClarityType::StringAscii(_) | ClarityType::StringUtf8(_) | ClarityType::List(_, _) =>
                !crate::ast::is_statement_expr(rhs),
            _ => false,
        };
        if !lhs_ok || !rhs_ok {
            self.record_error(GeneratorError::InternalError(
                "concat expects sequence operands".to_owned(),
            ));
            proof {
                lemma_error_step(g0, *self);
            }
            return Err(builder);
        }
        let memcpy = match self.module.func_by_name(&"memcpy".to_owned()) {
            Some(f) => f,
            None => {
                self.record_error(GeneratorError::InternalError(
                    "memcpy is missing from the standard library".to_owned(),
                ));
                proof {
                    lemma_error_step(g0, *self);
                }
                return Err(builder);
            },
        };
        if !vt_vec_eq(&self.module.funcs[memcpy].sig.params, &i32s_vec(3)) || !vt_vec_eq(
            &self.module.funcs[memcpy].sig.results,
            &i32s_vec(1),
        ) {
            self.record_error(GeneratorError::InternalError(
                "memcpy has an unexpected signature".to_owned(),
            ));
            proof {
                lemma_error_step(g0, *self);
            }
            return Err(builder);
        }
        let sp = self.stack_pointer;
        let (b, offset, csl_size) = match self.create_call_stack_local(builder, sp, &expr.ty) {
            Ok(t) => t,
            Err(eb) => {
                return Err(eb);
            },
        };
        let ghost g1 = *self;
        let ghost b1 = b@;
        proof {
            lemma_app_prefix(builder@, frame_alloc_code(sp, offset, csl_size));
            lemma_step_emit(g1, builder@, b1, Seq::empty());
        }
        proof {
            let a = expr.kind->Concat_0;
            assert(decreases_to!(*expr => *a));
        }
        let b2 = match self.traverse_expr(b, lhs) {
            Ok(x) => x,
            Err(x) => {
                proof {
                    lemma_step_err_after(g0, g1, *self, builder@, b1, Seq::empty(), Seq::empty());
                }
                return Err(x);
            },
        };
        let ghost g2 = *self;
        let mut b3 = b2;
        b3.push(Instr::LocalGet(offset));
        b3.push(Instr::Call(memcpy));
        let end_offset = self.module.add_local(WasmValType::I32);
        let ghost g3 = *self;
        let mut b4 = b3;
        b4.push(Instr::LocalSet(end_offset));
        proof {
            lemma_step_ok_trans(
                g0,
                g1,
                g2,
                builder@,
                b1,
                b2@,
                Seq::empty(),
                out_slots(*lhs),
                Seq::empty(),
                exports_of(*lhs),
            );
            assert(step_ok(g0, g2, builder@, b2@, pair, Seq::empty() + exports_of(*lhs))) by {
                assert(Seq::empty() + out_slots(*lhs) =~= pair);
            }
            let m2 = g2.module;
            lemma_prefix_index(g1.module.local_types@, m2.local_types@, offset as int);
            lemma_code_local_get(m2, offset);
            lemma_prefix_index(g0.module.funcs@, g1.module.funcs@, memcpy as int);
            lemma_prefix_index(g1.module.funcs@, m2.funcs@, memcpy as int);
            lemma_code_call(m2, memcpy);
            let lg = seq![Instr::LocalGet(offset)];
            let call = seq![Instr::Call(memcpy)];
            lemma_pushes_as_xform(m2, lg, seq![WasmValType::I32]);
            assert(code_xform(
                m2,
                call,
                pair + seq![WasmValType::I32],
                m2.funcs@[memcpy as int].sig.results@,
            )) by {
                assert(m2.funcs@[memcpy as int].sig.params@ =~= pair + seq![WasmValType::I32]);
            }
            lemma_xform_then_consume_deeper(
                m2,
                lg,
                call,
                Seq::empty(),
                seq![WasmValType::I32],
                pair,
                m2.funcs@[memcpy as int].sig.results@,
            );
            assert(code_xform(m2, lg + call, pair, seq![WasmValType::I32])) by {
                assert(pair + Seq::<WasmValType>::empty() =~= pair);
                assert(m2.funcs@[memcpy as int].sig.results@ =~= seq![WasmValType::I32]);
            }
            assert(step_ok(
                g0,
                g2,
                builder@,
                b2@,
                Seq::empty() + pair,
                Seq::empty() + exports_of(*lhs),
            )) by {
                assert(Seq::<WasmValType>::empty() + pair =~= pair);
            }
            lemma_step_ok_emit_xform(
                g0,
                g2,
                builder@,
                b2@,
                lg + call,
                Seq::empty(),
                pair,
                seq![WasmValType::I32],
                Seq::empty() + exports_of(*lhs),
            );
            assert(b3@ =~= b2@ + (lg + call));
            // the state advanced by one local; carry the step across
            lemma_gen_inv_grow(g2, g3);
            assert(export_names(g3.module) == export_names(g2.module));
            lemma_step_ok_state(
                g0,
                g2,
                g3,
                builder@,
                b3@,
                Seq::empty() + seq![WasmValType::I32],
                Seq::empty() + exports_of(*lhs),
            );
            let m3 = g3.module;
            assert(m3.local_types@[end_offset as int] == WasmValType::I32);
            lemma_code_local_set(m3, end_offset);
            lemma_step_ok_emit_xform(
                g0,
                g3,
                builder@,
                b3@,
                seq![Instr::LocalSet(end_offset)],
                Seq::empty(),
                seq![WasmValType::I32],
                Seq::empty(),
                Seq::empty() + exports_of(*lhs),
            );
            assert(b4@ =~= b3@ + seq![Instr::LocalSet(end_offset)]);
            assert(step_ok(
                g0,
                g3,
                builder@,
                b4@,
                Seq::empty(),
                Seq::empty() + exports_of(*lhs),
            )) by {
                assert(Seq::<WasmValType>::empty() + Seq::<WasmValType>::empty()
                    =~= Seq::<WasmValType>::empty());
            }
        }
        proof {
            let bb = expr.kind->Concat_1;
            assert(decreases_to!(*expr => *bb));
        }
        let b5 = match self.traverse_expr(b4, rhs) {
            Ok(x) => x,
            Err(x) => {
                proof {
                    lemma_step_err_after(
                        g0,
                        g3,
                        *self,
                        builder@,
                        b4@,
                        Seq::empty(),
                        Seq::empty() + exports_of(*lhs),
                    );
                }
                return Err(x);
            },
        };
        let ghost g4 = *self;
        let mut b6 = b5;
        b6.push(Instr::LocalGet(end_offset));
        b6.push(Instr::Call(memcpy));
        let size_local = self.module.add_local(WasmValType::I32);
        let ghost g5 = *self;
        let mut b7 = b6;
        b7.push(Instr::LocalGet(offset));
        b7.push(Instr::I32Sub);
        b7.push(Instr::LocalSet(size_local));
        b7.push(Instr::LocalGet(offset));
        b7.push(Instr::LocalGet(size_local));
        proof {
            lemma_step_ok_trans(
                g0,
                g3,
                g4,
                builder@,
                b4@,
                b5@,
                Seq::empty(),
                out_slots(*rhs),
                Seq::empty() + exports_of(*lhs),
                exports_of(*rhs),
            );
            let exps = (Seq::<Seq<char>>::empty() + exports_of(*lhs)) + exports_of(*rhs);
            assert(step_ok(g0, g4, builder@, b5@, Seq::empty() + pair, exps)) by {
                assert(Seq::empty() + out_slots(*rhs) =~= Seq::<WasmValType>::empty() + pair);
            }
            let m4 = g4.module;
            lemma_prefix_index(g3.module.local_types@, m4.local_types@, end_offset as int);
            lemma_code_local_get(m4, end_offset);
            lemma_prefix_index(g3.module.funcs@, m4.funcs@, memcpy as int);
            lemma_code_call(m4, memcpy);
            let lg = seq![Instr::LocalGet(end_offset)];
            let call = seq![Instr::Call(memcpy)];
            lemma_pushes_as_xform(m4, lg, seq![WasmValType::I32]);
            assert(code_xform(
                m4,
                call,
                pair + seq![WasmValType::I32],
                m4.funcs@[memcpy as int].sig.results@,
            )) by {
                assert(m4.funcs@[memcpy as int].sig.params@ =~= pair + seq![WasmValType::I32]);
            }
            lemma_xform_then_consume_deeper(
                m4,
                lg,
                call,
                Seq::empty(),
                seq![WasmValType::I32],
                pair,
                m4.funcs@[memcpy as int].sig.results@,
            );
            assert(code_xform(m4, lg + call, pair, seq![WasmValType::I32])) by {
                assert(pair + Seq::<WasmValType>::empty() =~= pair);
                assert(m4.funcs@[memcpy as int].sig.results@ =~= seq![WasmValType::I32]);
            }
            lemma_step_ok_emit_xform(
                g0,
                g4,
                builder@,
                b5@,
                lg + call,
                Seq::empty(),
                pair,
                seq![WasmValType::I32],
                exps,
            );
            assert(b6@ =~= b5@ + (lg + call));
            lemma_gen_inv_grow(g4, g5);
            assert(export_names(g5.module) == export_names(g4.module));
            lemma_step_ok_state(
                g0,
                g4,
                g5,
                builder@,
                b6@,
                Seq::empty() + seq![WasmValType::I32],
                exps,
            );
            let m5 = g5.module;
            assert(m5.local_types@[size_local as int] == WasmValType::I32);
            lemma_prefix_index(g1.module.local_types@, g2.module.local_types@, offset as int);
            lemma_prefix_index(g2.module.local_types@, g3.module.local_types@, offset as int);
            lemma_prefix_index(g3.module.local_types@, g4.module.local_types@, offset as int);
            lemma_prefix_index(g4.module.local_types@, m5.local_types@, offset as int);
            lemma_code_local_get(m5, offset);
            lemma_code_binop32(m5, Instr::I32Sub);
            lemma_code_local_set(m5, size_local);
            let lgo = seq![Instr::LocalGet(offset)];
            let sub = seq![Instr::I32Sub];
            let sets = seq![Instr::LocalSet(size_local)];
            lemma_pushes_as_xform(m5, lgo, seq![WasmValType::I32]);
            assert(code_xform(
                m5,
                sub,
                seq![WasmValType::I32] + seq![WasmValType::I32],
                seq![WasmValType::I32],
            )) by {
                assert(seq![WasmValType::I32] + seq![WasmValType::I32] =~= pair);
            }
            lemma_xform_then_consume_deeper(
                m5,
                lgo,
                sub,
                Seq::empty(),
                seq![WasmValType::I32],
                seq![WasmValType::I32],
                seq![WasmValType::I32],
            );
            assert(code_xform(m5, lgo + sub, seq![WasmValType::I32], seq![WasmValType::I32])) by {
                assert(seq![WasmValType::I32] + Seq::<WasmValType>::empty() =~= seq![
                    WasmValType::I32,
                ]);
                assert(seq![WasmValType::I32] + seq![WasmValType::I32] =~= pair);
            }
            lemma_xform_then_consume_own(
                m5,
                lgo + sub,
                sets,
                seq![WasmValType::I32],
                Seq::empty(),
                seq![WasmValType::I32],
                Seq::empty(),
            );
            assert(code_xform(
                m5,
                (lgo + sub) + sets,
                seq![WasmValType::I32],
                Seq::empty(),
            )) by {
                assert(Seq::<WasmValType>::empty() + seq![WasmValType::I32] =~= seq![
                    WasmValType::I32,
                ]);
                assert(Seq::<WasmValType>::empty() + Seq::<WasmValType>::empty()
                    =~= Seq::<WasmValType>::empty());
            }
            lemma_step_ok_emit_xform(
                g0,
                g5,
                builder@,
                b6@,
                (lgo + sub) + sets,
                Seq::empty(),
                seq![WasmValType::I32],
                Seq::empty(),
                exps,
            );
            lemma_code_local_get(m5, size_local);
            lemma_code_app_pushes(
                m5,
                lgo,
                seq![Instr::LocalGet(size_local)],
                seq![WasmValType::I32],
                seq![WasmValType::I32],
            );
            lemma_step_ok_emit_pushes(
                g0,
                g5,
                builder@,
                b6@ + ((lgo + sub) + sets),
                lgo + seq![Instr::LocalGet(size_local)],
                Seq::empty() + Seq::empty(),
                seq![WasmValType::I32] + seq![WasmValType::I32],
                exps,
            );
            assert(b7@ =~= (b6@ + ((lgo + sub) + sets)) + (lgo + seq![
                Instr::LocalGet(size_local),
            ]));
            assert(step_ok(
                g0,
                g5,
                builder@,
                b7@,
                slots_spec(expr.ty),
                exports_of(*lhs) + exports_of(*rhs),
            )) by {
                assert((Seq::<WasmValType>::empty() + Seq::<WasmValType>::empty()) + (seq![
                    WasmValType::I32,
                ] + seq![WasmValType::I32]) =~= slots_spec(expr.ty));
                assert(exps =~= exports_of(*lhs) + exports_of(*rhs));
            }
            let d1 = b2@.skip(b1.len() as int);
            let d2 = b5@.skip(b4@.len() as int);
            let offv = g0.module.local_types@.len() as usize;
            assert(code_pushes(m5, d1, i32_pair())) by {
                lemma_module_extends_trans(g2.module, g3.module, g4.module);
                lemma_module_extends_trans(g2.module, g4.module, m5);
                lemma_code_pushes_extends(g2.module, m5, d1, out_slots(*lhs));
                assert(out_slots(*lhs) =~= i32_pair());
            }
            assert(code_pushes(m5, d2, i32_pair())) by {
                lemma_code_pushes_extends(g4.module, m5, d2, out_slots(*rhs));
                assert(out_slots(*rhs) =~= i32_pair());
            }
            assert(b7@ =~= builder@ + (frame_alloc_code(g0.stack_pointer, offv, csl_size) + d1
                + seq![Instr::LocalGet(offv), Instr::Call(memcpy)] + seq![
                Instr::LocalSet(end_offset),
            ] + d2 + seq![Instr::LocalGet(end_offset), Instr::Call(memcpy)] + seq![
                Instr::LocalGet(offv),
                Instr::I32Sub,
                Instr::LocalSet(size_local),
            ] + seq![Instr::LocalGet(offv), Instr::LocalGet(size_local)])) by {
                assert(b1 =~= builder@ + frame_alloc_code(g0.stack_pointer, offv, csl_size));
                assert(b2@ =~= b1 + d1);
                assert(b5@ =~= b4@ + d2);
            }
            assert(csl_size == type_size_spec(expr.ty) as u32);
        }
        Ok(b7)
    }
}

/// The flattened value-stack shape of a declared parameter list.
pub open spec fn params_slots(args: Seq<crate::ast::FunctionArg>) -> Seq<WasmValType>
    decreases args.len(),
{
    if args.len() == 0 {
        Seq::empty()
    } else {
        params_slots(args.drop_last()) + slots_spec(args.last().signature)
    }
}

/// The stack-pointer discipline of a generated function body: the prelude
/// saves the stack pointer into a frame-pointer local, the whole lowered
/// body sits in one block between them, and the postlude restores the
/// stack pointer from that same local.
pub open spec fn has_frame_discipline(code: Seq<Instr>, sp: usize) -> bool {
    &&& code.len() == 5
    &&& code[0] == Instr::GlobalGet(sp)
    &&& exists|fp: usize|
        code[1] == (Instr::LocalSet(fp)) && code[3] == (Instr::LocalGet(fp)) && code[4] == (
        Instr::GlobalSet(sp))
    &&& code[2] matches Instr::Block { results: _, body: _ }
}

/// The registry a function kind is declared in.
pub open spec fn kind_registry(g: WasmGenerator, kind: FunctionKind) -> Seq<
    (String, crate::ast::FunctionType),
> {
    match kind {
        FunctionKind::Private => g.contract_analysis.private_function_types@,
        FunctionKind::ReadOnly => g.contract_analysis.read_only_function_types@,
        FunctionKind::Public => g.contract_analysis.public_function_types@,
    }
}

impl WasmGenerator {
    /// Lowers a function definition: set up one local per lowered parameter
    /// slot, lower the body into a dangling block under a fresh local
    /// environment, and wrap it in a prelude that saves the stack pointer
    /// and a postlude that restores it.  Returns the new function's index.
    pub fn traverse_define_function(
        &mut self,
        name: &String,
        body: &TypedExpr,
        kind: FunctionKind,
    ) -> (r: Option<usize>)
        requires
            gen_inv(*old(self)),
            old(self).error is None,
        ensures
            gen_inv(*final(self)),
            evolves(*old(self), *final(self)),
            final(self).locals@ == old(self).locals@,
            r matches Some(fid) ==> final(self).error is None && fid < final(self).module.funcs@.len() && fid >= old(self).module.funcs@.len() && final(self).module.funcs@[fid as int].name@ == name@ && (final(self).module.funcs@[
                fid as int
            ].body matches FuncBody::Defined(code) && has_frame_discipline(
                code@,
                old(self).stack_pointer,
            )) && export_names(final(self).module) == export_names(old(self).module)
                + exports_of(*body) && (assoc(kind_registry(*old(self), kind), name@) matches Some(
                ft,
            ) && (ft matches crate::ast::FunctionType::Fixed(fx) && final(self).module.funcs@[
                fid as int
            ].sig.params@ == params_slots(fx.args@) && final(self).module.funcs@[
                fid as int
            ].sig.results@ == slots_spec(fx.returns))),
            r matches Some(fid) ==> fid == old(self).module.funcs@.len() && final(self).module.funcs@.len() == old(self).module.funcs@.len() + 1 && final(self).module.funcs@.drop_last() == old(self).module.funcs@ && final(self).identifiers@
                == old(self).identifiers@ && final(self).next_identifier == old(self).next_identifier && final(self).module.exports@ == old(self).module.exports@,
            r is None ==> final(self).error is Some && registry_unchanged(
                *old(self),
                *final(self),
            ),
            !(assoc(kind_registry(*old(self), kind), name@) matches Some(
                crate::ast::FunctionType::Fixed(_),
            )) ==> r is None && (*final(self) == (WasmGenerator {
                error: final(self).error,
                ..*old(self)
            })) && final(self).error matches Some(GeneratorError::InternalError(_)),
        decreases *body, 2nat,
    {
        let ghost g0 = *self;
        let opt_function_type = match kind {
            FunctionKind::Private => self.contract_analysis.get_private_function(name),
            FunctionKind::ReadOnly => self.contract_analysis.get_read_only_function_type(name),
            FunctionKind::Public => self.contract_analysis.get_public_function_type(name),
        };
        let fixed = match opt_function_type {
            Some(FunctionType::Fixed(fixed)) => fixed,
            _ => {
                self.record_error(GeneratorError::InternalError(
                    "a defined function has no fixed declared type".to_owned(),
                ));
                proof {
                    lemma_error_step(g0, *self);
                }
                return None;
            },
        };
        // set up one local per lowered slot of each parameter
        let mut new_env: Vec<LocalBinding> = Vec::new();
        let mut param_locals: Vec<usize> = Vec::new();
        let mut params_types: Vec<WasmValType> = Vec::new();
        let n_args = fixed.args.len();
        let mut a: usize = 0;
        while a < n_args
            invariant
                g0 == *old(self),
                gen_inv(*self),
                evolves(g0, *self),
                self.error is None,
                self.module.funcs == g0.module.funcs,
                self.module.data == g0.module.data,
                self.module.exports == g0.module.exports,
                self.literal_memory_end == g0.literal_memory_end,
                self.locals == g0.locals,
                self.identifiers == g0.identifiers,
                self.next_identifier == g0.next_identifier,
                self.contract_analysis == g0.contract_analysis,
                n_args == fixed.args@.len(),
                a <= n_args,
                params_types@ == params_slots(fixed.args@.take(a as int)),
                env_wf(new_env@, self.module),
            decreases n_args - a,
        {
            let param_types = clar2wasm_ty(&fixed.args[a].signature);
            let k = param_types.len();
            let mut n: usize = 0;
            while n < k
                invariant
                    g0 == *old(self),
                    gen_inv(*self),
                    evolves(g0, *self),
                    self.error is None,
                    self.module.funcs == g0.module.funcs,
                    self.module.data == g0.module.data,
                    self.module.exports == g0.module.exports,
                    self.literal_memory_end == g0.literal_memory_end,
                    self.locals == g0.locals,
                    self.identifiers == g0.identifiers,
                    self.next_identifier == g0.next_identifier,
                    self.contract_analysis == g0.contract_analysis,
                    n_args == fixed.args@.len(),
                    a < n_args,
                    n <= k,
                    k == param_types@.len(),
                    param_types@ == slots_spec(fixed.args@[a as int].signature),
                    params_types@ == params_slots(fixed.args@.take(a as int)) + param_types@.take(
                        n as int,
                    ),
                    env_wf(new_env@, self.module),
                decreases k - n,
            {
                let ghost g_pre = *self;
                let local = self.module.add_local(param_types[n]);
                new_env.push(
                    LocalBinding { name: fixed.args[a].name.clone(), slot: n, local },
                );
                param_locals.push(local);
                params_types.push(param_types[n]);
                n = n + 1;
                proof {
                    lemma_gen_inv_grow(g_pre, *self);
                    lemma_evolves_trans(g0, g_pre, *self);
                    assert(params_types@ =~= params_slots(fixed.args@.take(a as int))
                        + param_types@.take(n as int));
                    assert(env_wf(new_env@, self.module)) by {
                        assert forall|idx: int| 0 <= idx < new_env@.len() implies (
                        #[trigger] new_env@[idx]).local < self.module.local_types@.len() by {
                            if idx < new_env@.len() - 1 {
                                assert(new_env@[idx].local
                                    < g_pre.module.local_types@.len());
                            }
                        }
                    }
                }
            }
            a = a + 1;
            proof {
                assert(fixed.args@.take(a as int).drop_last() =~= fixed.args@.take(a - 1));
                assert(fixed.args@.take(a as int).last() == fixed.args@[a - 1]);
                assert(param_types@.take(k as int) =~= param_types@);
                assert(params_types@ =~= params_slots(fixed.args@.take(a as int)));
            }
        }
        proof {
            assert(fixed.args@.take(n_args as int) =~= fixed.args@);
        }
        let results_types = clar2wasm_ty(&fixed.returns);
        let block_results = clar2wasm_ty(&fixed.returns);
        let body_ok = !crate::ast::is_statement_expr(body) && vt_vec_eq(
            &clar2wasm_ty(&body.ty),
            &results_types,
        );
        if !body_ok {
            let ghost gp = *self;
            self.record_error(GeneratorError::InternalError(
                "a function body does not fit its declared return type".to_owned(),
            ));
            proof {
                lemma_error_step(gp, *self);
                lemma_evolves_trans(g0, gp, *self);
            }
            return None;
        }
        // prelude: save the stack pointer as the frame pointer
        let ghost g_params = *self;
        let frame_pointer = self.module.add_local(WasmValType::I32);
        proof {
            lemma_gen_inv_grow(g_params, *self);
            lemma_evolves_trans(g0, g_params, *self);
        }
        // install the fresh environment, saving the enclosing one
        let mut saved_locals = new_env;
        core::mem::swap(&mut self.locals, &mut saved_locals);
        let ghost g_env = *self;
        proof {
            assert(gen_inv(g_env));
        }
        // lower the body into a dangling block
        let block_builder: Vec<Instr> = Vec::new();
        let block_code = match self.traverse_expr(block_builder, body) {
            Ok(x) => x,
            Err(_) => {
                self.locals = saved_locals;
                proof {
                    assert(gen_inv(*self)) by {
                        assert(env_wf(g0.locals@, self.module)) by {
                            assert forall|idx: int| 0 <= idx < g0.locals@.len() implies (
                            #[trigger] g0.locals@[idx]).local
                                < self.module.local_types@.len() by {
                                assert(g0.locals@[idx].local
                                    < g0.module.local_types@.len());
                                lemma_prefix_index(
                                    g0.module.local_types@,
                                    g_env.module.local_types@,
                                    g0.locals@[idx].local as int,
                                );
                                assert(g_env.module.local_types@.is_prefix_of(
                                    self.module.local_types@,
                                ));
                            }
                        }
                    }
                    lemma_evolves_trans(g0, g_env, *self);
                }
                return None;
            },
        };
        let ghost g_body = *self;
        // the block's results are the function's lowered return shape
        let block_instr = Instr::Block { results: block_results, body: block_code };
        let mut func_code: Vec<Instr> = Vec::new();
        func_code.push(Instr::GlobalGet(self.stack_pointer));
        func_code.push(Instr::LocalSet(frame_pointer));
        func_code.push(block_instr);
        func_code.push(Instr::LocalGet(frame_pointer));
        func_code.push(Instr::GlobalSet(self.stack_pointer));
        let new_func = WasmFunction {
            name: name.clone(),
            sig: FuncSig { params: params_types, results: results_types },
            body: FuncBody::Defined(func_code),
            param_locals,
        };
        let ghost nf = new_func;
        let fid = self.module.add_func(new_func);
        // restore the enclosing environment
        self.locals = saved_locals;
        proof {
            let m = self.module;
            let sp = g0.stack_pointer;
            // the new function is well-typed: its body pushes exactly its
            // declared results from an empty stack
            assert(step_ok(
                g_env,
                g_body,
                Seq::empty(),
                block_code@,
                out_slots(*body),
                exports_of(*body),
            ));
            assert(block_code@.skip(0) =~= block_code@);
            lemma_code_pushes_extends(g_body.module, m, block_code@, out_slots(*body));
            assert(code_pushes(m, block_code@, nf.sig.results@)) by {
                assert(out_slots(*body) == slots_spec(body.ty));
            }
            lemma_code_block(m, nf.body->Defined_0@[2]->Block_results, nf.body->Defined_0@[2]->Block_body);
            assert(standard_prefix(m)) by {
                assert forall|k: int| 0 <= k < 14 implies (#[trigger] m.funcs@[k]).name@
                    == std_name(k) && m.funcs@[k].sig.params@ == std_params(k) && m.funcs@[
                    k
                ].sig.results@ == std_results(k) by {
                    lemma_prefix_index(g_body.module.funcs@, m.funcs@, k);
                    assert(g_body.module.funcs@[k] == g0.module.funcs@[k]);
                }
            }
            assert(sp < m.globals@.len() && m.globals@[sp as int].ty == WasmValType::I32);
            let gg = seq![Instr::GlobalGet(sp)];
            let sf = seq![Instr::LocalSet(frame_pointer)];
            let bk = seq![nf.body->Defined_0@[2]];
            let lf = seq![Instr::LocalGet(frame_pointer)];
            let gs = seq![Instr::GlobalSet(sp)];
            assert(frame_pointer < m.local_types@.len() && m.local_types@[frame_pointer as int]
                == WasmValType::I32) by {
                lemma_prefix_index(
                    g_env.module.local_types@,
                    g_body.module.local_types@,
                    frame_pointer as int,
                );
                lemma_prefix_index(
                    g_body.module.local_types@,
                    m.local_types@,
                    frame_pointer as int,
                );
            }
            lemma_code_global_get(m, sp);
            lemma_code_local_set(m, frame_pointer);
            lemma_code_local_get(m, frame_pointer);
            lemma_code_global_set(m, sp);
            assert(code_pushes(m, gg, Seq::<WasmValType>::empty() + seq![WasmValType::I32])) by {
                assert(seq![WasmValType::I32] =~= Seq::<WasmValType>::empty() + seq![
                    WasmValType::I32,
                ]);
            }
            lemma_code_compose(m, gg, sf, Seq::empty(), seq![WasmValType::I32], Seq::empty());
            lemma_code_app_pushes(
                m,
                gg + sf,
                bk,
                Seq::empty() + Seq::empty(),
                nf.sig.results@,
            );
            lemma_code_app_pushes(
                m,
                (gg + sf) + bk,
                lf,
                (Seq::empty() + Seq::empty()) + nf.sig.results@,
                seq![WasmValType::I32],
            );
            assert(code_pushes(
                m,
                ((gg + sf) + bk) + lf,
                (Seq::empty() + nf.sig.results@) + seq![WasmValType::I32],
            )) by {
                assert(((Seq::<WasmValType>::empty() + Seq::<WasmValType>::empty())
                    + nf.sig.results@) + seq![WasmValType::I32] =~= (Seq::<
                    WasmValType,
                >::empty() + nf.sig.results@) + seq![WasmValType::I32]);
            }
            lemma_code_compose(
                m,
                ((gg + sf) + bk) + lf,
                gs,
                Seq::empty() + nf.sig.results@,
                seq![WasmValType::I32],
                Seq::empty(),
            );
            let whole = (((gg + sf) + bk) + lf) + gs;
            assert(whole =~= nf.body->Defined_0@);
            assert(code_pushes(m, nf.body->Defined_0@, nf.sig.results@)) by {
                assert((Seq::<WasmValType>::empty() + nf.sig.results@) + Seq::<
                    WasmValType,
                >::empty() =~= nf.sig.results@);
            }
            assert(crate::wasm::func_wf(m, nf)) by {
                assert(seq_effect(
                    m,
                    Seq::empty(),
                    nf.sig.results@,
                    nf.body->Defined_0@,
                    Seq::empty(),
                ) == Some(Seq::<WasmValType>::empty() + nf.sig.results@));
                assert(Seq::<WasmValType>::empty() + nf.sig.results@ =~= nf.sig.results@);
            }
            assert(funcs_wf(m)) by {
                assert forall|idx: int| 0 <= idx < m.funcs@.len() implies crate::wasm::func_wf(
                    m,
                    #[trigger] m.funcs@[idx],
                ) by {
                    if idx < m.funcs@.len() - 1 {
                        lemma_func_wf_extends(g_body.module, m, m.funcs@[idx]);
                    } else {
                        assert(m.funcs@[idx] == nf);
                    }
                }
            }
            assert(gen_inv(*self)) by {
                assert(env_wf(g0.locals@, m)) by {
                    assert forall|idx: int| 0 <= idx < g0.locals@.len() implies (
                    #[trigger] g0.locals@[idx]).local < m.local_types@.len() by {
                        assert(g0.locals@[idx].local < g0.module.local_types@.len());
                        lemma_prefix_index(
                            g0.module.local_types@,
                            g_env.module.local_types@,
                            g0.locals@[idx].local as int,
                        );
                        lemma_prefix_index(
                            g_env.module.local_types@,
                            g_body.module.local_types@,
                            g0.locals@[idx].local as int,
                        );
                        assert(g_body.module.local_types@.is_prefix_of(m.local_types@));
                    }
                }
            }
            assert(evolves(g0, *self)) by {
                lemma_evolves_trans(g0, g_env, g_body);
                assert(evolves(g_body, *self)) by {
                    lemma_prefix_refl(g_body.identifiers@);
                }
                lemma_evolves_trans(g0, g_body, *self);
            }
            assert(export_names(m) == export_names(g0.module) + exports_of(*body)) by {
                assert(export_names(g_body.module) == export_names(g0.module) + exports_of(
                    *body,
                ));
                assert(m.exports == g_body.module.exports);
            }
            assert(has_frame_discipline(nf.body->Defined_0@, sp)) by {
                assert(nf.body->Defined_0@[1] == (Instr::LocalSet(frame_pointer))
                    && nf.body->Defined_0@[3] == (Instr::LocalGet(frame_pointer))
                    && nf.body->Defined_0@[4] == (Instr::GlobalSet(sp)));
            }
        }
        Some(fid)
    }

    /// Lowers `(define-private ...)`: the function is compiled, not
    /// exported.
    pub fn traverse_define_private(
        &mut self,
        builder: Vec<Instr>,
        _expr: &TypedExpr,
        name: &String,
        body: &TypedExpr,
    ) -> (r: Result<Vec<Instr>, Vec<Instr>>)
        requires
            gen_inv(*old(self)),
            old(self).error is None,
        ensures
            r matches Ok(b) ==> step_ok(
                *old(self),
                *final(self),
                builder@,
                b@,
                Seq::empty(),
                exports_of(*body),
            ) && final(self).module.exports@ == old(self).module.exports@ && final(self).module.funcs@.len() == old(self).module.funcs@.len() + 1 && final(self).module.funcs@.last().name@ == name@ && (assoc(
                old(self).contract_analysis.private_function_types@,
                name@,
            ) matches Some(ft) && (ft matches FunctionType::Fixed(fx) && final(self).module.funcs@[old(self).module.funcs@.len() as int].sig.params@ == params_slots(fx.args@) && final(self).module.funcs@[old(self).module.funcs@.len() as int].sig.results@ == slots_spec(fx.returns))),
            r is Err ==> step_err(*old(self), *final(self)) && registry_unchanged(
                *old(self),
                *final(self),
            ),
        decreases *body, 3nat,
    {
        let ghost g0 = *self;
        if self.traverse_define_function(name, body, FunctionKind::Private).is_some() {
            proof {
                lemma_prefix_refl(builder@);
                assert(builder@.skip(builder@.len() as int) =~= Seq::<Instr>::empty());
                lemma_code_empty(self.module);
            }
            Ok(builder)
        } else {
            Err(builder)
        }
    }

    /// Lowers `(define-read-only ...)`: the function is compiled and
    /// exported under its source name.
    pub fn traverse_define_read_only(
        &mut self,
        builder: Vec<Instr>,
        _expr: &TypedExpr,
        name: &String,
        body: &TypedExpr,
    ) -> (r: Result<Vec<Instr>, Vec<Instr>>)
        requires
            gen_inv(*old(self)),
            old(self).error is None,
        ensures
            r matches Ok(b) ==> step_ok(
                *old(self),
                *final(self),
                builder@,
                b@,
                Seq::empty(),
                exports_of(*body) + seq![name@],
            ) && final(self).module.exports@.len() == old(self).module.exports@.len() + 1 && final(self).module.exports@.drop_last() == old(self).module.exports@ && final(self).module.exports@.last().name@ == name@ && final(self).module.exports@.last().func
                == old(self).module.funcs@.len() && final(self).module.funcs@.len() == old(self).module.funcs@.len() + 1 && final(self).module.funcs@[old(self).module.funcs@.len() as int].name@ == name@ && (assoc(
                old(self).contract_analysis.read_only_function_types@,
                name@,
            ) matches Some(ft) && (ft matches FunctionType::Fixed(fx) && final(self).module.funcs@[old(self).module.funcs@.len() as int].sig.params@ == params_slots(fx.args@) && final(self).module.funcs@[old(self).module.funcs@.len() as int].sig.results@ == slots_spec(fx.returns))),
            r is Err ==> step_err(*old(self), *final(self)) && registry_unchanged(
                *old(self),
                *final(self),
            ),
        decreases *body, 3nat,
    {
        let ghost g0 = *self;
        match self.traverse_define_function(name, body, FunctionKind::ReadOnly) {
            Some(function_id) => {
                let ghost g1 = *self;
                self.module.add_export(name.clone(), function_id);
                proof {
                    lemma_gen_inv_grow_exports(g1, *self, name@);
                    lemma_evolves_trans(g0, g1, *self);
                    lemma_prefix_refl(builder@);
                    assert(builder@.skip(builder@.len() as int) =~= Seq::<Instr>::empty());
                    lemma_code_empty(self.module);
                    assert(self.module.exports@.drop_last() =~= g1.module.exports@);
                    assert(export_names(self.module) =~= export_names(g0.module) + (exports_of(
                        *body,
                    ) + seq![name@]));
                }
                Ok(builder)
            },
            None => Err(builder),
        }
    }

    /// Lowers `(define-public ...)`: the function is compiled and exported
    /// under its source name.
    pub fn traverse_define_public(
        &mut self,
        builder: Vec<Instr>,
        _expr: &TypedExpr,
        name: &String,
        body: &TypedExpr,
    ) -> (r: Result<Vec<Instr>, Vec<Instr>>)
        requires
            gen_inv(*old(self)),
            old(self).error is None,
        ensures
            r matches Ok(b) ==> step_ok(
                *old(self),
                *final(self),
                builder@,
                b@,
                Seq::empty(),
                exports_of(*body) + seq![name@],
            ) && final(self).module.exports@.len() == old(self).module.exports@.len() + 1 && final(self).module.exports@.drop_last() == old(self).module.exports@ && final(self).module.exports@.last().name@ == name@ && final(self).module.exports@.last().func
                == old(self).module.funcs@.len() && final(self).module.funcs@.len() == old(self).module.funcs@.len() + 1 && final(self).module.funcs@[old(self).module.funcs@.len() as int].name@ == name@ && (assoc(
                old(self).contract_analysis.public_function_types@,
                name@,
            ) matches Some(ft) && (ft matches FunctionType::Fixed(fx) && final(self).module.funcs@[old(self).module.funcs@.len() as int].sig.params@ == params_slots(fx.args@) && final(self).module.funcs@[old(self).module.funcs@.len() as int].sig.results@ == slots_spec(fx.returns))),
            r is Err ==> step_err(*old(self), *final(self)) && registry_unchanged(
                *old(self),
                *final(self),
            ),
        decreases *body, 3nat,
    {
        let ghost g0 = *self;
        match self.traverse_define_function(name, body, FunctionKind::Public) {
            Some(function_id) => {
                let ghost g1 = *self;
                self.module.add_export(name.clone(), function_id);
                proof {
                    lemma_gen_inv_grow_exports(g1, *self, name@);
                    lemma_evolves_trans(g0, g1, *self);
                    lemma_prefix_refl(builder@);
                    assert(builder@.skip(builder@.len() as int) =~= Seq::<Instr>::empty());
                    lemma_code_empty(self.module);
                    assert(self.module.exports@.drop_last() =~= g1.module.exports@);
                    assert(export_names(self.module) =~= export_names(g0.module) + (exports_of(
                        *body,
                    ) + seq![name@]));
                }
                Ok(builder)
            },
            None => Err(builder),
        }
    }
}

/// Adding an export keeps the generator consistent and counts as
/// evolution; the export list gains exactly the new name.
pub proof fn lemma_gen_inv_grow_exports(g2: WasmGenerator, g3: WasmGenerator, name: Seq<char>)
    requires
        gen_inv(g2),
        module_extends(g2.module, g3.module),
        g3.module.funcs == g2.module.funcs,
        g3.module.data == g2.module.data,
        g3.module.local_types == g2.module.local_types,
        g3.module.exports@.len() == g2.module.exports@.len() + 1,
        g3.module.exports@.last().name@ == name,
        g3.literal_memory_end == g2.literal_memory_end,
        g3.locals == g2.locals,
        g3.identifiers == g2.identifiers,
        g3.next_identifier == g2.next_identifier,
        g3.stack_pointer == g2.stack_pointer,
        g3.contract_analysis == g2.contract_analysis,
        g3.error == g2.error,
    ensures
        gen_inv(g3),
        evolves(g2, g3),
        export_names(g3.module) == export_names(g2.module) + seq![name],
{
    let m = g3.module;
    assert(funcs_wf(m)) by {
        assert forall|idx: int| 0 <= idx < m.funcs@.len() implies crate::wasm::func_wf(
            m,
            #[trigger] m.funcs@[idx],
        ) by {
            lemma_func_wf_extends(g2.module, m, m.funcs@[idx]);
        }
    }
    assert(env_wf(g3.locals@, m)) by {
        assert forall|idx: int| 0 <= idx < g3.locals@.len() implies (
        #[trigger] g3.locals@[idx]).local < m.local_types@.len() by {
            assert(g3.locals@[idx].local < g2.module.local_types@.len());
        }
    }
    lemma_prefix_refl(g2.identifiers@);
    assert(export_names(g3.module) =~= export_names(g2.module) + seq![name]) by {
        assert forall|i: int| 0 <= i < g2.module.exports@.len() implies g3.module.exports@[i]
            == g2.module.exports@[i] by {
            lemma_prefix_index(g2.module.exports@, g3.module.exports@, i);
        }
    }
}

impl WasmGenerator {
    /// Lowers `(list e1 ... en)`: allocate one frame slot sized for the
    /// whole list, store each element into it in order, and push the
    /// placement.
    pub fn traverse_list_cons(
        &mut self,
        builder: Vec<Instr>,
        expr: &TypedExpr,
        list: &Vec<TypedExpr>,
    ) -> (r: Result<Vec<Instr>, Vec<Instr>>)
        requires
            gen_inv(*old(self)),
            old(self).error is None,
        ensures
            r matches Ok(b) ==> step_ok(
                *old(self),
                *final(self),
                builder@,
                b@,
                slots_spec(expr.ty),
                exports_of_list(list@),
            ) && (exists|ecode: Seq<Instr>|
                #![trigger list_elems_code(
                    final(self).module,
                    old(self).module.local_types@.len() as usize,
                    ecode,
                    list@.len() as nat,
                )]
                b@ == builder@ + (frame_alloc_code(
                    old(self).stack_pointer,
                    old(self).module.local_types@.len() as usize,
                    (type_size_spec(expr.ty) as u32),
                ) + ecode + seq![
                    Instr::LocalGet(old(self).module.local_types@.len() as usize),
                    Instr::I32Const((type_size_spec(expr.ty) as u32) as i32),
                ]) && list_elems_code(
                    final(self).module,
                    old(self).module.local_types@.len() as usize,
                    ecode,
                    list@.len() as nat,
                )),
            r is Err ==> step_err(*old(self), *final(self)),
            registry_unchanged(*old(self), *final(self)),
            !(expr.ty matches ClarityType::List(_, _)) ==> r is Err && (*final(self) == (
            WasmGenerator { error: final(self).error, ..*old(self) })) && final(self).error
                matches Some(GeneratorError::InternalError(_)),
            (expr.ty matches ClarityType::List(_, cnt) && cnt as int != list@.len()) ==> r is Err
                && (*final(self) == (WasmGenerator { error: final(self).error, ..*old(self) }))
                && final(self).error matches Some(GeneratorError::InternalError(_)),
            (expr.ty matches ClarityType::List(e0, cnt) && cnt as int == list@.len() && !(*e0
                == ClarityType::IntType || *e0 == ClarityType::UIntType)) ==> r is Err && (*final(self) == (WasmGenerator { error: final(self).error, ..*old(self) })) && final(self).error matches Some(GeneratorError::NotImplemented),
            list_literal_lowers(*old(self), expr.ty, list@) ==> r.is_ok(),
        decreases list@, 0nat,
    {
        let ghost g0 = *self;
        let elem_is_int = match &expr.ty {
            ClarityType::List(elem_ty, num_elem) => {
                let eok = match &**elem_ty {
                    ClarityType::IntType => Some(true),
                    ClarityType::UIntType => Some(false),
                    _ => None,
                };
                if *num_elem as usize != list.len() {
                    self.record_error(GeneratorError::InternalError(
                        "list length does not match its type".to_owned(),
                    ));
                    proof {
                        lemma_error_step(g0, *self);
                    }
                    return Err(builder);
                }
                match eok {
                    Some(b) => {
                        proof {
                            assert(expr.ty matches ClarityType::List(e2, cnt2) && cnt2 as int
                                == list@.len() && (*e2 == ClarityType::IntType || *e2
                                == ClarityType::UIntType) && (b <==> *e2
                                == ClarityType::IntType));
                        }
                        b
                    },
                    None => {
                        self.record_error(GeneratorError::NotImplemented);
                        proof {
                            lemma_error_step(g0, *self);
                        }
                        return Err(builder);
                    },
                }
            },
            _ => {
                self.record_error(GeneratorError::InternalError(
                    "expected a list type for a list expression".to_owned(),
                ));
                proof {
                    lemma_error_step(g0, *self);
                }
                return Err(builder);
            },
        };
        let n = list.len();
        let mut i: usize = 0;
        while i < n
            invariant
                g0 == *old(self),
                *self == g0,
                gen_inv(g0),
                g0.error is None,
                n == list@.len(),
                i <= n,
                (expr.ty matches ClarityType::List(e2, cnt2) && cnt2 as int == list@.len() && (
                *e2 == ClarityType::IntType || *e2 == ClarityType::UIntType) && (elem_is_int
                    <==> *e2 == ClarityType::IntType)),
                forall|k: int|
                    0 <= k < i ==> !is_statement(#[trigger] list@[k]) && (elem_is_int
                        ==> list@[k].ty == ClarityType::IntType) && (!elem_is_int ==> list@[k].ty
                        == ClarityType::UIntType),
            decreases n - i,
        {
            let elem_ok = match &list[i].ty {
                ClarityType::IntType => elem_is_int,
                ClarityType::UIntType => !elem_is_int,
                _ => false,
            };
            if !(elem_ok && !crate::ast::is_statement_expr(&list[i])) {
                self.record_error(GeneratorError::InternalError(
                    "a list element does not fit the element type".to_owned(),
                ));
                proof {
                    lemma_error_step(g0, *self);
                }
                return Err(builder);
            }
            i = i + 1;
        }
        let sp = self.stack_pointer;
        let (b, offset, size) = match self.create_call_stack_local(builder, sp, &expr.ty) {
            Ok(t) => t,
            Err(eb) => {
                proof {
                    if list_literal_lowers(g0, expr.ty, list@) {
                        assert(*(expr.ty->List_0) == ClarityType::IntType || *(expr.ty->List_0)
                            == ClarityType::UIntType);
                        assert(type_size_spec(*(expr.ty->List_0)) == 16);
                        assert(has_size(*(expr.ty->List_0)));
                        assert(has_size(expr.ty));
                        assert(size_fits(*(expr.ty->List_0)));
                        assert(size_fits(expr.ty));
                        assert(type_size_spec(expr.ty) == ((expr.ty->List_1) * 16) as nat);
                        assert(false);
                    }
                }
                return Err(eb);
            },
        };
        let ghost g1 = *self;
        proof {
            lemma_app_prefix(builder@, frame_alloc_code(sp, offset, size));
            lemma_step_emit(g1, builder@, b@, Seq::empty());
            assert(size == 16 * (n as nat)) by {
                assert(type_size_spec(expr.ty) == ((expr.ty->List_1) * 16) as nat);
            }
        }
        let mut b = b;
        let ghost b_base = b@;
        proof {
            assert(offset == g0.module.local_types@.len());
            assert(list_elems_code(self.module, offset, b@.skip(b_base.len() as int), 0)) by {
                assert(b@.skip(b_base.len() as int) =~= Seq::<Instr>::empty());
            }
        }
        let mut total_size: u32 = 0;
        let mut i: usize = 0;
        while i < n
            invariant
                g0 == *old(self),
                gen_inv(g0),
                g0.error is None,
                n == list@.len(),
                i <= n,
                total_size == 16 * (i as int),
                size == 16 * (n as int),
                size <= i32::MAX,
                (expr.ty matches ClarityType::List(e2, cnt2) && cnt2 as int == list@.len() && (
                *e2 == ClarityType::IntType || *e2 == ClarityType::UIntType) && (elem_is_int
                    <==> *e2 == ClarityType::IntType)),
                step_ok(
                    g0,
                    *self,
                    builder@,
                    b@,
                    Seq::empty(),
                    exports_of_list(list@.take(i as int)),
                ),
                registry_unchanged(g0, *self),
                b_base == builder@ + frame_alloc_code(sp, offset, size),
                sp == g0.stack_pointer,
                offset == g0.module.local_types@.len(),
                size == type_size_spec(expr.ty) as u32,
                b_base.is_prefix_of(b@),
                list_elems_code(self.module, offset, b@.skip(b_base.len() as int), i as nat),
                offset < self.module.local_types@.len(),
                self.module.local_types@[offset as int] == WasmValType::I32,
                forall|k: int|
                    0 <= k < n ==> !is_statement(#[trigger] list@[k]) && (elem_is_int
                        ==> list@[k].ty == ClarityType::IntType) && (!elem_is_int ==> list@[k].ty
                        == ClarityType::UIntType),
            decreases n - i,
        {
            let ghost g_pre = *self;
            let ghost b_in = b@;
            proof {
                assert(decreases_to!(list@ => list@[i as int]));
            }
            let b2 = match self.traverse_expr(b, &list[i]) {
                Ok(x) => x,
                Err(x) => {
                    proof {
                        lemma_step_err_after(
                            g0,
                            g_pre,
                            *self,
                            builder@,
                            b@,
                            Seq::empty(),
                            exports_of_list(list@.take(i as int)),
                        );
                    }
                    return Err(x);
                },
            };
            let ghost g_child = *self;
            proof {
                lemma_step_ok_trans(
                    g0,
                    g_pre,
                    g_child,
                    builder@,
                    b@,
                    b2@,
                    Seq::empty(),
                    out_slots(list@[i as int]),
                    exports_of_list(list@.take(i as int)),
                    exports_of(list@[i as int]),
                );
                lemma_prefix_index(
                    g_pre.module.local_types@,
                    g_child.module.local_types@,
                    offset as int,
                );
            }
            let mut b3 = b2;
            let ghost b2v = b2@;
            let elem_size = match self.write_to_memory(&mut b3, offset, total_size, &list[i].ty) {
                Ok(s) => s,
                Err(e) => {
                    let ghost gp = *self;
                    self.record_error(e);
                    proof {
                        lemma_error_step(gp, *self);
                        lemma_step_err_after(
                            g0,
                            g_child,
                            *self,
                            builder@,
                            b2v,
                            Seq::empty() + out_slots(list@[i as int]),
                            exports_of_list(list@.take(i as int)) + exports_of(
                                list@[i as int],
                            ),
                        );
                    }
                    return Err(b3);
                },
            };
            let ghost g_w = *self;
            total_size = total_size + elem_size;
            i = i + 1;
            proof {
                let m = g_w.module;
                let both = seq![WasmValType::I64, WasmValType::I64];
                let wc = write_i128_code(
                    offset,
                    g_child.module.local_types@.len() as usize,
                    (g_child.module.local_types@.len() + 1) as usize,
                    (total_size - elem_size) as u32,
                );
                lemma_app_prefix(b2v, wc);
                let d = b2v.skip(builder@.len() as int);
                lemma_code_pushes_extends(
                    g_child.module,
                    m,
                    d,
                    Seq::empty() + out_slots(list@[i - 1]),
                );
                assert(code_pushes(m, d, Seq::<WasmValType>::empty() + both)) by {
                    assert(Seq::empty() + out_slots(list@[i - 1])
                        =~= Seq::<WasmValType>::empty() + both);
                }
                lemma_code_compose(m, d, wc, Seq::empty(), both, Seq::empty());
                assert(b3@.skip(builder@.len() as int) =~= d + wc) by {
                    assert(b2v =~= b3@.subrange(0, b2v.len() as int));
                }
                assert(builder@.is_prefix_of(b3@)) by {
                    assert(builder@ =~= b3@.subrange(0, builder@.len() as int));
                }
                assert(code_pushes(m, b3@.skip(builder@.len() as int), Seq::empty())) by {
                    assert(Seq::<WasmValType>::empty() + Seq::<WasmValType>::empty()
                        =~= Seq::<WasmValType>::empty());
                }
                lemma_evolves_trans(g0, g_child, g_w);
                assert(export_names(m) == export_names(g0.module) + exports_of_list(
                    list@.take(i as int),
                )) by {
                    assert(list@.take(i as int) =~= list@.take(i - 1).push(list@[i - 1]));
                    crate::ast::lemma_exports_of_list_push(list@.take(i - 1), list@[i - 1]);
                }
                assert(step_ok(
                    g0,
                    *self,
                    builder@,
                    b3@,
                    Seq::empty(),
                    exports_of_list(list@.take(i as int)),
                ));
                lemma_prefix_index(g_child.module.local_types@, m.local_types@, offset as int);
                // one more element stored: extend the element-filling code
                let pre = b_in.skip(b_base.len() as int);
                let dch = b2v.skip(b_in.len() as int);
                lemma_list_elems_code_extends(g_pre.module, m, offset, pre, (i - 1) as nat);
                assert(code_pushes(m, dch, i64_pair())) by {
                    lemma_code_pushes_extends(
                        g_child.module,
                        m,
                        dch,
                        out_slots(list@[i - 1]),
                    );
                    assert(out_slots(list@[i - 1]) =~= i64_pair());
                }
                assert(wc == write_i128_code(
                    offset,
                    g_child.module.local_types@.len() as usize,
                    (g_child.module.local_types@.len() + 1) as usize,
                    (((i - 1) * 16) as u32),
                )) by {
                    assert((total_size - elem_size) as u32 == (((i - 1) * 16) as u32));
                }
                assert(b3@.skip(b_base.len() as int) =~= pre + (dch + wc)) by {
                    assert(b2v =~= b_in + dch);
                    assert(b3@ =~= b2v + wc);
                }
                assert(list_elems_code(m, offset, b3@.skip(b_base.len() as int), i as nat));
                assert(b_base.is_prefix_of(b3@)) by {
                    assert(b_base =~= b3@.subrange(0, b_base.len() as int));
                }
            }
            b = b3;
        }
        let ghost g_end = *self;
        let ghost b_end = b@;
        b.push(Instr::LocalGet(offset));
        b.push(Instr::I32Const(#[verifier::truncate] (size as i32)));
        proof {
            assert(list@.take(n as int) =~= list@);
            let m = g_end.module;
            let c1 = seq![Instr::LocalGet(offset)];
            let c2 = seq![Instr::I32Const(size as i32)];
            lemma_code_local_get(m, offset);
            lemma_code_i32_const(m, size as i32);
            lemma_code_app_pushes(m, c1, c2, seq![WasmValType::I32], seq![WasmValType::I32]);
            lemma_step_ok_emit_pushes(
                g0,
                g_end,
                builder@,
                b_end,
                c1 + c2,
                Seq::empty(),
                seq![WasmValType::I32] + seq![WasmValType::I32],
                exports_of_list(list@),
            );
            assert(b@ =~= b_end + (c1 + c2));
            assert(step_ok(
                g0,
                g_end,
                builder@,
                b@,
                slots_spec(expr.ty),
                exports_of_list(list@),
            )) by {
                assert(Seq::<WasmValType>::empty() + (seq![WasmValType::I32] + seq![
                    WasmValType::I32,
                ]) =~= slots_spec(expr.ty));
            }
            let ecode = b_end.skip(b_base.len() as int);
            assert(list_elems_code(g_end.module, offset, ecode, list@.len() as nat));
            assert(offset == g0.module.local_types@.len() as usize);
            assert(list_elems_code(
                g_end.module,
                g0.module.local_types@.len() as usize,
                ecode,
                list@.len() as nat,
            ));
            assert(b@ =~= builder@ + (frame_alloc_code(
                g0.stack_pointer,
                offset,
                type_size_spec(expr.ty) as u32,
            ) + ecode + seq![
                Instr::LocalGet(offset),
                Instr::I32Const((type_size_spec(expr.ty) as u32) as i32),
            ])) by {
                assert(b_end =~= b_base + ecode);
            }
        }
        Ok(b)
    }
}

impl WasmGenerator {
    /// Lowers `(fold f seq initial)`: load the sequence into the frame,
    /// keep its base address and end address in locals, seed the
    /// accumulator with the initial value, then run a structured loop that
    /// reads one element, calls `f` on accumulator and element, advances
    /// the address, and branches back while elements remain.
    ///
    /// Call convention, fixed by the signature check: `f` takes the
    /// accumulator's slots first and the element's two 64-bit halves
    /// second — the accumulator lies below the element on the value stack
    /// when the call is made.
    pub fn traverse_fold(
        &mut self,
        builder: Vec<Instr>,
        expr: &TypedExpr,
        func: &String,
        sequence: &TypedExpr,
        initial: &TypedExpr,
    ) -> (r: Result<Vec<Instr>, Vec<Instr>>)
        requires
            gen_inv(*old(self)),
            old(self).error is None,
            expr.kind matches ExprKind::Fold(f, s, i) && *s == *sequence && *i == *initial,
        ensures
            r matches Ok(b) ==> step_ok(
                *old(self),
                *final(self),
                builder@,
                b@,
                slots_spec(expr.ty),
                exports_of(*sequence) + exports_of(*initial),
            ) && (sequence.ty matches ClarityType::List(_, cnt)
                ==> (crate::wasm::first_func_named(old(self).module, func@) matches Some(f)
                && old(self).module.funcs@[f].sig.results@ == slots_spec(initial.ty) && (exists|
                    ds: Seq<Instr>,
                    di: Seq<Instr>,
                    off2: usize,
                    end2: usize,
                |
                (if cnt == 0 {
                    b@
                } else {
                    b@.drop_last()
                }) == builder@ + #[trigger] fold_preamble(
                    ds,
                    di,
                    off2,
                    end2,
                    ((cnt * 16) as u32) as i32,
                ) && code_pushes(final(self).module, ds, i32_pair()) && code_pushes(
                    final(self).module,
                    di,
                    slots_spec(initial.ty),
                ) && (cnt > 0 ==> b@.len() > builder@.len() && (b@.last()
                    matches Instr::Loop { results, body } && results@ == slots_spec(initial.ty)
                    && body@ == fold_loop_body(f as usize, off2, end2)))))),
            r is Err ==> step_err(*old(self), *final(self)),
            registry_unchanged(*old(self), *final(self)),
            !(sequence.ty matches ClarityType::List(e0, _) && (*e0 == ClarityType::IntType || *e0
                == ClarityType::UIntType) && !is_statement(*sequence)) ==> r is Err && (*final(self) == (WasmGenerator { error: final(self).error, ..*old(self) })) && final(self).error matches Some(GeneratorError::InternalError(_)),
        decreases *expr, 0nat,
    {
        let ghost g0 = *self;
        let ghost rs = slots_spec(initial.ty);
        let ghost pair = seq![WasmValType::I32, WasmValType::I32];
        let ghost both = seq![WasmValType::I64, WasmValType::I64];
        // the sequence must be a list of 128-bit integers
        let (seq_ok, seq_len) = match &sequence.ty {
            ClarityType::List(elem_ty, n) => {
                let eok = match &**elem_ty {
                    ClarityType::IntType | ClarityType::UIntType => true,
                    _ => false,
                };
                (eok && !crate::ast::is_statement_expr(sequence), *n)
            },
            _ => (false, 0),
        };
        if !seq_ok {
            self.record_error(GeneratorError::InternalError(
                "fold expects a list of integers".to_owned(),
            ));
            proof {
                lemma_error_step(g0, *self);
            }
            return Err(builder);
        }
        proof {
            assert(sequence.ty matches ClarityType::List(e0, _) && (*e0 == ClarityType::IntType
                || *e0 == ClarityType::UIntType) && !is_statement(*sequence));
        }
        if crate::ast::is_statement_expr(initial) {
            self.record_error(GeneratorError::InternalError(
                "a statement form cannot seed a fold".to_owned(),
            ));
            proof {
                lemma_error_step(g0, *self);
            }
            return Err(builder);
        }
        let result_ty = clar2wasm_ty(&initial.ty);
        if !vt_vec_eq(&clar2wasm_ty(&expr.ty), &result_ty) {
            self.record_error(GeneratorError::InternalError(
                "the fold result type does not match its seed".to_owned(),
            ));
            proof {
                lemma_error_step(g0, *self);
            }
            return Err(builder);
        }
        // the called function folds an element into the accumulator
        let mut expected_params = clar2wasm_ty(&initial.ty);
        let mut elem_pair = vec![WasmValType::I64, WasmValType::I64];
        expected_params.append(&mut elem_pair);
        let fold_func = match self.module.func_by_name(func) {
            Some(f) => f,
            None => {
                self.record_error(GeneratorError::InternalError(
                    "fold calls an unknown function".to_owned(),
                ));
                proof {
                    lemma_error_step(g0, *self);
                }
                return Err(builder);
            },
        };
        if !vt_vec_eq(&self.module.funcs[fold_func].sig.params, &expected_params) || !vt_vec_eq(
            &self.module.funcs[fold_func].sig.results,
            &result_ty,
        ) {
            self.record_error(GeneratorError::InternalError(
                "a folded function has an unexpected signature".to_owned(),
            ));
            proof {
                lemma_error_step(g0, *self);
            }
            return Err(builder);
        }
        let total_size = match get_type_size(&sequence.ty) {
            Ok(s) => s,
            Err(e) => {
                self.record_error(e);
                proof {
                    lemma_error_step(g0, *self);
                }
                return Err(builder);
            },
        };
        if total_size > i32::MAX as u32 {
            self.record_error(GeneratorError::InternalError(
                "a folded sequence exceeds the address space".to_owned(),
            ));
            proof {
                lemma_error_step(g0, *self);
            }
            return Err(builder);
        }
        proof {
            assert(expected_params@ =~= rs + both);
            lemma_prefix_refl(builder@);
            assert(builder@.skip(builder@.len() as int) =~= Seq::<Instr>::empty());
            lemma_code_empty(self.module);
            lemma_step_emit(g0, builder@, builder@, Seq::empty());
        }
        // load the sequence, leaving (offset, size) on the stack
        proof {
            let s = expr.kind->Fold_1;
            assert(decreases_to!(*expr => *s));
        }
        let b1 = match self.traverse_expr(builder, sequence) {
            Ok(x) => x,
            Err(x) => {
                return Err(x);
            },
        };
        let ghost g1 = *self;
        // drop the size and keep the base address in a local
        let offset = self.module.add_local(WasmValType::I32);
        let ghost g2 = *self;
        let mut b2 = b1;
        b2.push(Instr::DropValue);
        b2.push(Instr::LocalSet(offset));
        // keep the end address in another local
        let end_offset = self.module.add_local(WasmValType::I32);
        let ghost g3 = *self;
        let mut b3 = b2;
        b3.push(Instr::LocalGet(offset));
        b3.push(Instr::I32Const(#[verifier::truncate] (total_size as i32)));
        b3.push(Instr::I32Add);
        b3.push(Instr::LocalSet(end_offset));
        proof {
            assert(step_ok(g0, g1, builder@, b1@, pair, exports_of(*sequence))) by {
                assert(Seq::empty() + out_slots(*sequence) =~= pair);
                assert(Seq::<Seq<char>>::empty() + exports_of(*sequence) =~= exports_of(
                    *sequence,
                ));
            }
            lemma_gen_inv_grow(g1, g2);
            lemma_step_ok_state(g0, g1, g2, builder@, b1@, pair, exports_of(*sequence));
            let m2 = g2.module;
            lemma_code_drop(m2, WasmValType::I32);
            assert(step_ok(
                g0,
                g2,
                builder@,
                b1@,
                seq![WasmValType::I32] + seq![WasmValType::I32],
                exports_of(*sequence),
            )) by {
                assert(seq![WasmValType::I32] + seq![WasmValType::I32] =~= pair);
            }
            lemma_step_ok_emit_xform(
                g0,
                g2,
                builder@,
                b1@,
                seq![Instr::DropValue],
                seq![WasmValType::I32],
                seq![WasmValType::I32],
                Seq::empty(),
                exports_of(*sequence),
            );
            assert(m2.local_types@[offset as int] == WasmValType::I32);
            lemma_code_local_set(m2, offset);
            assert(step_ok(
                g0,
                g2,
                builder@,
                b1@ + seq![Instr::DropValue],
                Seq::empty() + seq![WasmValType::I32],
                exports_of(*sequence),
            )) by {
                assert(seq![WasmValType::I32] + Seq::<WasmValType>::empty() =~= Seq::<
                    WasmValType,
                >::empty() + seq![WasmValType::I32]);
            }
            lemma_step_ok_emit_xform(
                g0,
                g2,
                builder@,
                b1@ + seq![Instr::DropValue],
                seq![Instr::LocalSet(offset)],
                Seq::empty(),
                seq![WasmValType::I32],
                Seq::empty(),
                exports_of(*sequence),
            );
            assert(b2@ =~= (b1@ + seq![Instr::DropValue]) + seq![Instr::LocalSet(offset)]);
            assert(step_ok(g0, g2, builder@, b2@, Seq::empty(), exports_of(*sequence))) by {
                assert(Seq::<WasmValType>::empty() + Seq::<WasmValType>::empty()
                    =~= Seq::<WasmValType>::empty());
            }
            lemma_gen_inv_grow(g2, g3);
            lemma_step_ok_state(g0, g2, g3, builder@, b2@, Seq::empty(), exports_of(*sequence));
            let m3 = g3.module;
            lemma_prefix_index(g2.module.local_types@, m3.local_types@, offset as int);
            assert(m3.local_types@[end_offset as int] == WasmValType::I32);
            lemma_code_local_get(m3, offset);
            lemma_code_i32_const(m3, total_size as i32);
            lemma_code_binop32(m3, Instr::I32Add);
            lemma_code_local_set(m3, end_offset);
            let e1 = seq![Instr::LocalGet(offset)];
            let e2 = seq![Instr::I32Const(total_size as i32)];
            let e3 = seq![Instr::I32Add];
            let e4 = seq![Instr::LocalSet(end_offset)];
            lemma_code_app_pushes(m3, e1, e2, seq![WasmValType::I32], seq![WasmValType::I32]);
            assert(code_pushes(
                m3,
                e1 + e2,
                Seq::<WasmValType>::empty() + seq![WasmValType::I32, WasmValType::I32],
            )) by {
                assert(seq![WasmValType::I32] + seq![WasmValType::I32]
                    =~= Seq::<WasmValType>::empty() + seq![WasmValType::I32, WasmValType::I32]);
            }
            lemma_code_compose(
                m3,
                e1 + e2,
                e3,
                Seq::empty(),
                seq![WasmValType::I32, WasmValType::I32],
                seq![WasmValType::I32],
            );
            lemma_code_compose(
                m3,
                (e1 + e2) + e3,
                e4,
                Seq::empty(),
                seq![WasmValType::I32],
                Seq::empty(),
            );
            assert(code_pushes(m3, ((e1 + e2) + e3) + e4, Seq::empty())) by {
                assert(Seq::<WasmValType>::empty() + Seq::<WasmValType>::empty()
                    =~= Seq::<WasmValType>::empty());
            }
            lemma_step_ok_emit_pushes(
                g0,
                g3,
                builder@,
                b2@,
                ((e1 + e2) + e3) + e4,
                Seq::empty(),
                Seq::empty(),
                exports_of(*sequence),
            );
            assert(b3@ =~= b2@ + (((e1 + e2) + e3) + e4));
            assert(step_ok(g0, g3, builder@, b3@, Seq::empty(), exports_of(*sequence))) by {
                assert(Seq::<WasmValType>::empty() + Seq::<WasmValType>::empty()
                    =~= Seq::<WasmValType>::empty());
            }
        }
        // seed the accumulator
        proof {
            let ii = expr.kind->Fold_2;
            assert(decreases_to!(*expr => *ii));
        }
        let b4 = match self.traverse_expr(b3, initial) {
            Ok(x) => x,
            Err(x) => {
                proof {
                    lemma_step_err_after(
                        g0,
                        g3,
                        *self,
                        builder@,
                        b3@,
                        Seq::empty(),
                        exports_of(*sequence),
                    );
                }
                return Err(x);
            },
        };
        let ghost g4 = *self;
        let ghost exps = exports_of(*sequence) + exports_of(*initial);
        proof {
            lemma_step_ok_trans(
                g0,
                g3,
                g4,
                builder@,
                b3@,
                b4@,
                Seq::empty(),
                out_slots(*initial),
                exports_of(*sequence),
                exports_of(*initial),
            );
            assert(step_ok(g0, g4, builder@, b4@, rs, exps)) by {
                assert(Seq::empty() + out_slots(*initial) =~= rs);
            }
        }
        if seq_len == 0 {
            // an empty sequence folds to the initial value
            proof {
                assert(sequence.ty->List_1 == seq_len);
                let ds = b1@.skip(builder@.len() as int);
                let di = b4@.skip(b3@.len() as int);
                assert(code_pushes(self.module, ds, i32_pair())) by {
                    lemma_module_extends_trans(g1.module, g2.module, g3.module);
                    lemma_module_extends_trans(g1.module, g3.module, self.module);
                    lemma_code_pushes_extends(g1.module, self.module, ds, pair);
                    assert(pair =~= i32_pair());
                }
                assert(code_pushes(self.module, di, slots_spec(initial.ty))) by {
                    assert(out_slots(*initial) == rs);
                }
                assert((total_size as i32) == (((sequence.ty->List_1 * 16) as u32) as i32)) by {
                    assert(total_size == type_size_spec(sequence.ty));
                }
                assert(b4@ == builder@ + fold_preamble(
                    ds,
                    di,
                    offset,
                    end_offset,
                    ((sequence.ty->List_1 * 16) as u32) as i32,
                )) by {
                    assert(b1@ =~= builder@ + ds);
                    assert(b4@ =~= b3@ + di);
                    assert(b4@ =~= builder@ + fold_preamble(
                        ds,
                        di,
                        offset,
                        end_offset,
                        total_size as i32,
                    ));
                }
            }
            return Ok(b4);
        }
        // the loop body: read an element, fold it in, advance, repeat
        let mut loop_body: Vec<Instr> = Vec::new();
        let elem_is_int = match &sequence.ty {
            ClarityType::List(e, _) => match &**e {
                ClarityType::IntType => true,
                _ => false,
            },
            _ => false,
        };
        let elem_ty = if elem_is_int {
            ClarityType::IntType
        } else {
            ClarityType::UIntType
        };
        proof {
            lemma_prefix_index(g3.module.local_types@, g4.module.local_types@, offset as int);
        }
        let _elem_size = match self.read_from_memory(&mut loop_body, offset, &elem_ty) {
            Ok(s) => s,
            Err(e) => {
                let ghost gp = *self;
                self.record_error(e);
                proof {
                    lemma_error_step(gp, *self);
                    lemma_step_err_after(g0, g4, *self, builder@, b4@, rs, exps);
                }
                return Err(b4);
            },
        };
        loop_body.push(Instr::Call(fold_func));
        loop_body.push(Instr::LocalGet(offset));
        loop_body.push(Instr::I32Const(16));
        loop_body.push(Instr::I32Add);
        loop_body.push(Instr::LocalSet(offset));
        loop_body.push(Instr::LocalGet(offset));
        loop_body.push(Instr::LocalGet(end_offset));
        loop_body.push(Instr::I32LtU);
        loop_body.push(Instr::BrIf(0));
        let loop_results = clar2wasm_ty(&initial.ty);
        let loop_instr = Instr::Loop { results: loop_results, body: loop_body };
        let ghost li = loop_instr;
        let mut b5 = b4;
        b5.push(loop_instr);
        proof {
            let m = self.module;
            assert(m == g4.module);
            let rd = read_i128_code(offset);
            let call = seq![Instr::Call(fold_func)];
            let a1 = seq![Instr::LocalGet(offset)];
            let a2 = seq![Instr::I32Const(16)];
            let a3 = seq![Instr::I32Add];
            let a4 = seq![Instr::LocalSet(offset)];
            let c1 = seq![Instr::LocalGet(offset)];
            let c2 = seq![Instr::LocalGet(end_offset)];
            let c3 = seq![Instr::I32LtU];
            let brf = seq![Instr::BrIf(0)];
            let lb = li->Loop_body@;
            assert(lb =~= ((((((((rd + call) + a1) + a2) + a3) + a4) + c1) + c2) + c3) + brf);
            // the helper facts, all label-independent
            lemma_pushes_as_xform(m, rd, both);
            lemma_prefix_index(g0.module.funcs@, g1.module.funcs@, fold_func as int);
            lemma_prefix_index(g1.module.funcs@, g4.module.funcs@, fold_func as int);
            lemma_code_call(m, fold_func);
            assert(code_xform(m, call, rs + both, rs)) by {
                assert(m.funcs@[fold_func as int].sig.params@ =~= rs + both);
            }
            lemma_xform_then_consume_deeper(m, rd, call, Seq::empty(), both, rs, rs);
            assert(code_xform(m, rd + call, rs, rs)) by {
                assert(rs + Seq::<WasmValType>::empty() =~= rs);
            }
            lemma_prefix_index(g4.module.local_types@, m.local_types@, offset as int);
            lemma_prefix_index(g3.module.local_types@, g4.module.local_types@, end_offset as int);
            lemma_code_local_get(m, offset);
            lemma_code_i32_const(m, 16);
            lemma_code_binop32(m, Instr::I32Add);
            lemma_code_local_set(m, offset);
            lemma_code_local_get(m, end_offset);
            lemma_code_binop32(m, Instr::I32LtU);
            lemma_xform_then_push(m, rd + call, a1, rs, rs, seq![WasmValType::I32]);
            lemma_xform_then_push(
                m,
                (rd + call) + a1,
                a2,
                rs,
                rs + seq![WasmValType::I32],
                seq![WasmValType::I32],
            );
            assert(code_xform(
                m,
                ((rd + call) + a1) + a2,
                rs,
                rs + seq![WasmValType::I32, WasmValType::I32],
            )) by {
                assert((rs + seq![WasmValType::I32]) + seq![WasmValType::I32] =~= rs + seq![
                    WasmValType::I32,
                    WasmValType::I32,
                ]);
            }
            lemma_xform_then_consume_own(
                m,
                ((rd + call) + a1) + a2,
                a3,
                rs,
                rs,
                seq![WasmValType::I32, WasmValType::I32],
                seq![WasmValType::I32],
            );
            lemma_xform_then_consume_own(
                m,
                (((rd + call) + a1) + a2) + a3,
                a4,
                rs,
                rs,
                seq![WasmValType::I32],
                Seq::empty(),
            );
            assert(code_xform(m, ((((rd + call) + a1) + a2) + a3) + a4, rs, rs)) by {
                assert(rs + Seq::<WasmValType>::empty() =~= rs);
            }
            lemma_xform_then_push(
                m,
                ((((rd + call) + a1) + a2) + a3) + a4,
                c1,
                rs,
                rs,
                seq![WasmValType::I32],
            );
            lemma_xform_then_push(
                m,
                (((((rd + call) + a1) + a2) + a3) + a4) + c1,
                c2,
                rs,
                rs + seq![WasmValType::I32],
                seq![WasmValType::I32],
            );
            assert(code_xform(
                m,
                ((((((rd + call) + a1) + a2) + a3) + a4) + c1) + c2,
                rs,
                rs + seq![WasmValType::I32, WasmValType::I32],
            )) by {
                assert((rs + seq![WasmValType::I32]) + seq![WasmValType::I32] =~= rs + seq![
                    WasmValType::I32,
                    WasmValType::I32,
                ]);
            }
            lemma_xform_then_consume_own(
                m,
                ((((((rd + call) + a1) + a2) + a3) + a4) + c1) + c2,
                c3,
                rs,
                rs,
                seq![WasmValType::I32, WasmValType::I32],
                seq![WasmValType::I32],
            );
            let a_part = (((((((rd + call) + a1) + a2) + a3) + a4) + c1) + c2) + c3;
            assert(code_xform(m, a_part, rs, rs + seq![WasmValType::I32]));
            // the whole body maps the accumulator to itself under the
            // loop's own label
            assert forall|labels: Seq<Seq<WasmValType>>, ret: Seq<WasmValType>|
                #[trigger] seq_effect(m, seq![li->Loop_results@] + labels, ret, lb, li->Loop_results@)
                    == Some(li->Loop_results@) by {
                let lbl = seq![rs] + labels;
                assert(li->Loop_results@ == rs);
                lemma_seq_effect_app(m, lbl, ret, a_part, brf, rs);
                assert(seq_effect(m, lbl, ret, a_part, Seq::empty() + rs) == Some(
                    Seq::empty() + (rs + seq![WasmValType::I32]),
                ));
                assert(Seq::<WasmValType>::empty() + rs =~= rs);
                assert(Seq::<WasmValType>::empty() + (rs + seq![WasmValType::I32]) =~= rs
                    + seq![WasmValType::I32]);
                lemma_seq_effect_one(m, lbl, ret, Instr::BrIf(0), rs + seq![WasmValType::I32]);
                assert(lbl[0] == rs);
                assert(stack_has(rs + seq![WasmValType::I32], lbl[0] + seq![WasmValType::I32]))
                    by {
                    lemma_stack_app(Seq::empty(), rs + seq![WasmValType::I32]);
                    assert(Seq::<WasmValType>::empty() + (rs + seq![WasmValType::I32]) =~= rs
                        + seq![WasmValType::I32]);
                }
                assert(stack_pop(rs + seq![WasmValType::I32], 1) =~= rs) by {
                    lemma_stack_app(rs, seq![WasmValType::I32]);
                }
            }
            lemma_code_loop(m, li->Loop_results, li->Loop_body);
            assert(code_xform(m, seq![li], rs, rs));
            assert(step_ok(g0, g4, builder@, b4@, Seq::empty() + rs, exps)) by {
                assert(Seq::<WasmValType>::empty() + rs =~= rs);
            }
            lemma_step_ok_emit_xform(g0, g4, builder@, b4@, seq![li], Seq::empty(), rs, rs, exps);
            assert(b5@ =~= b4@ + seq![li]);
            assert(step_ok(g0, g4, builder@, b5@, rs, exps)) by {
                assert(Seq::<WasmValType>::empty() + rs =~= rs);
            }
            assert(b5@.last() == li);
            assert(li->Loop_body@ =~= fold_loop_body(fold_func, offset, end_offset));
            assert(li->Loop_body@ == fold_loop_body(
                ((fold_func as int) as usize),
                offset,
                end_offset,
            ));
            assert(crate::wasm::first_func_named(g0.module, func@) == Some(fold_func as int));
            assert(g0.module.funcs@[fold_func as int].sig.results@ == slots_spec(initial.ty));
            assert(li->Loop_results@ == slots_spec(initial.ty));
            let ds = b1@.skip(builder@.len() as int);
            let di = b4@.skip(b3@.len() as int);
            assert(code_pushes(m, ds, i32_pair())) by {
                lemma_module_extends_trans(g1.module, g2.module, g3.module);
                lemma_module_extends_trans(g1.module, g3.module, m);
                lemma_code_pushes_extends(g1.module, m, ds, pair);
                assert(pair =~= i32_pair());
            }
            assert(code_pushes(m, di, slots_spec(initial.ty))) by {
                assert(out_slots(*initial) == rs);
            }
            assert(sequence.ty->List_1 == seq_len);
            assert((total_size as i32) == (((sequence.ty->List_1 * 16) as u32) as i32)) by {
                assert(total_size == type_size_spec(sequence.ty));
            }
            assert(b5@.drop_last() == builder@ + fold_preamble(
                ds,
                di,
                offset,
                end_offset,
                ((sequence.ty->List_1 * 16) as u32) as i32,
            )) by {
                assert(b1@ =~= builder@ + ds);
                assert(b4@ =~= b3@ + di);
                assert(b5@.drop_last() =~= b4@);
                assert(b4@ =~= builder@ + fold_preamble(
                    ds,
                    di,
                    offset,
                    end_offset,
                    total_size as i32,
                ));
            }
        }
        Ok(b5)
    }
}

/// Every data segment of the module ends at or below `e`.
pub open spec fn covers_segments(m: WasmModule, e: u32) -> bool {
    forall|i: int|
        0 <= i < m.data@.len() ==> (#[trigger] m.data@[i]).offset + m.data@[i].bytes@.len() <= e
}

/// The concatenated value-stack shapes a sequence of top-level forms
/// leaves behind.
pub open spec fn outs_concat(es: Seq<TypedExpr>) -> Seq<WasmValType>
    decreases es.len(),
{
    if es.len() == 0 {
        Seq::empty()
    } else {
        outs_concat(es.drop_last()) + out_slots(es.last())
    }
}

/// Statement forms leave nothing behind.
pub proof fn lemma_outs_concat_stmts(es: Seq<TypedExpr>)
    requires
        forall|k: int| 0 <= k < es.len() ==> is_statement(#[trigger] es[k]),
    ensures
        outs_concat(es) == Seq::<WasmValType>::empty(),
    decreases es.len(),
{
    if es.len() > 0 {
        lemma_outs_concat_stmts(es.drop_last());
        assert(is_statement(es[es.len() - 1]));
        assert(Seq::<WasmValType>::empty() + Seq::<WasmValType>::empty() =~= Seq::<
            WasmValType,
        >::empty());
    }
}

impl WasmGenerator {
    /// Runs the generator over the whole program: a synthesized top-level
    /// function lowers every top-level form in order, then sets the stack
    /// pointer past the literal region and returns; it is exported under
    /// `.top-level`.  The first recorded error aborts generation.
    pub fn generate(self) -> (r: Result<WasmModule, GeneratorError>)
        requires
            gen_inv(self),
            self.error is None,
        ensures
            r matches Ok(m) ==> standard_prefix(m) && export_names(m) == export_names(self.module)
                + exports_of_list(self.contract_analysis.expressions@) + seq![".top-level"@] && (
            forall|i: int, j: int|
                0 <= i < j < m.data@.len() ==> (#[trigger] m.data@[i]).offset
                    + m.data@[i].bytes@.len() <= (#[trigger] m.data@[j]).offset) && (forall|i: int|
                0 <= i < m.funcs@.len() - 1 ==> crate::wasm::func_wf(m, #[trigger] m.funcs@[i]))
                && ((forall|k: int|
                0 <= k < self.contract_analysis.expressions@.len() ==> is_statement(
                    #[trigger] self.contract_analysis.expressions@[k],
                )) ==> funcs_wf(m)) && m.exports@.len() > 0 && m.exports@.last().name@
                == ".top-level"@ && m.exports@.last().func == m.funcs@.len() - 1
                && m.funcs@.len() > 0 && m.funcs@.last().name@ == ".top-level"@
                && m.funcs@.last().sig.params@ == Seq::<WasmValType>::empty()
                && m.funcs@.last().sig.results@ == Seq::<WasmValType>::empty() && (
            m.funcs@.last().body matches FuncBody::Defined(code) && code@.len() >= 3
                && code@[code@.len() - 1] == Instr::Return && code@[code@.len() - 2] == (
            Instr::GlobalSet(self.stack_pointer)) && (code@[code@.len() - 3]
                matches Instr::I32Const(c) && (exists|e: u32|
                #[trigger] covers_segments(m, e) && c == e as i32))),
            self.contract_analysis.expressions@.len() == 0 ==> r is Ok,
    {
        let mut g = self;
        let ghost g0 = g;
        let mut expressions: Vec<TypedExpr> = Vec::new();
        core::mem::swap(&mut g.contract_analysis.expressions, &mut expressions);
        let ghost g_swap = g;
        let mut current_function: Vec<Instr> = Vec::new();
        let n = expressions.len();
        let mut i: usize = 0;
        proof {
            lemma_prefix_refl(current_function@);
            lemma_code_empty(g.module);
            assert(current_function@.skip(0) =~= Seq::<Instr>::empty());
            lemma_step_emit(g_swap, current_function@, current_function@, Seq::empty());
            assert(expressions@.take(0) =~= Seq::<TypedExpr>::empty());
            assert(outs_concat(expressions@.take(0)) == Seq::<WasmValType>::empty());
            assert(exports_of_list(expressions@.take(0)) == Seq::<Seq<char>>::empty());
            assert(Seq::<WasmValType>::empty() =~= outs_concat(expressions@.take(0)));
        }
        while i < n
            invariant
                g0 == self,
                gen_inv(g_swap),
                g_swap.error is None,
                g_swap.module == g0.module,
                g_swap.stack_pointer == g0.stack_pointer,
                n == expressions@.len(),
                expressions@ == self.contract_analysis.expressions@,
                i <= n,
                step_ok(
                    g_swap,
                    g,
                    Seq::empty(),
                    current_function@,
                    outs_concat(expressions@.take(i as int)),
                    exports_of_list(expressions@.take(i as int)),
                ),
            decreases n - i,
        {
            let ghost g_pre = g;
            let cf = current_function;
            current_function = match g.traverse_expr(cf, &expressions[i]) {
                Ok(x) => x,
                Err(_) => {
                    return match g.error {
                        Some(err) => Err(err),
                        None => Err(GeneratorError::InternalError(
                            "ast traversal failed".to_owned(),
                        )),
                    };
                },
            };
            i = i + 1;
            proof {
                lemma_step_ok_trans(
                    g_swap,
                    g_pre,
                    g,
                    Seq::empty(),
                    cf@,
                    current_function@,
                    outs_concat(expressions@.take(i - 1)),
                    out_slots(expressions@[i - 1]),
                    exports_of_list(expressions@.take(i - 1)),
                    exports_of(expressions@[i - 1]),
                );
                assert(expressions@.take(i as int).drop_last() =~= expressions@.take(i - 1));
                assert(expressions@.take(i as int).last() == expressions@[i - 1]);
                assert(expressions@.take(i as int) =~= expressions@.take(i - 1).push(
                    expressions@[i - 1],
                ));
                crate::ast::lemma_exports_of_list_push(
                    expressions@.take(i - 1),
                    expressions@[i - 1],
                );
            }
        }
        proof {
            assert(expressions@.take(n as int) =~= expressions@);
        }
        core::mem::swap(&mut g.contract_analysis.expressions, &mut expressions);
        if g.error.is_some() {
            return match g.error {
                Some(err) => Err(err),
                None => Err(GeneratorError::InternalError("ast traversal failed".to_owned())),
            };
        }
        // set the stack pointer past the literals, and return with nothing
        let ghost g_end = g;
        let ghost cf_end = current_function@;
        current_function.push(Instr::I32Const(#[verifier::truncate] (g.literal_memory_end as i32)));
        current_function.push(Instr::GlobalSet(g.stack_pointer));
        current_function.push(Instr::Return);
        let top_level = WasmFunction {
            name: ".top-level".to_owned(),
            sig: FuncSig { params: Vec::new(), results: Vec::new() },
            body: FuncBody::Defined(current_function),
            param_locals: Vec::new(),
        };
        let ghost tf = top_level;
        let fid = g.module.add_func(top_level);
        let ghost g_f = g;
        g.module.add_export(".top-level".to_owned(), fid);
        let m = g.module;
        proof {
            let exprs = self.contract_analysis.expressions@;
            let outs = outs_concat(exprs);
            let tcode = tf.body->Defined_0@;
            assert(tcode =~= cf_end + seq![
                Instr::I32Const(g_end.literal_memory_end as i32),
                Instr::GlobalSet(g_end.stack_pointer),
                Instr::Return,
            ]);
            assert(tcode.len() >= 3 && tcode[tcode.len() - 1] == Instr::Return && tcode[
                tcode.len() - 2
            ] == (Instr::GlobalSet(g_end.stack_pointer)) && (tcode[tcode.len() - 3]
                matches Instr::I32Const(_)));
            assert(g_end.stack_pointer == self.stack_pointer);
            assert(covers_segments(m, g_end.literal_memory_end)) by {
                assert forall|i2: int| 0 <= i2 < m.data@.len() implies (#[trigger] m.data@[
                    i2
                ]).offset + m.data@[i2].bytes@.len() <= g_end.literal_memory_end by {
                    assert(m.data == g_end.module.data);
                }
            }
            assert(tf.sig.params@ =~= Seq::<WasmValType>::empty());
            assert(tf.sig.results@ =~= Seq::<WasmValType>::empty());
            assert(m.funcs@.last() == tf);
            assert(standard_prefix(m)) by {
                assert forall|k: int| 0 <= k < 14 implies (#[trigger] m.funcs@[k]).name@
                    == std_name(k) && m.funcs@[k].sig.params@ == std_params(k) && m.funcs@[
                    k
                ].sig.results@ == std_results(k) by {
                    lemma_prefix_index(g_end.module.funcs@, g_f.module.funcs@, k);
                    lemma_prefix_index(g_f.module.funcs@, m.funcs@, k);
                    assert(g_end.module.funcs@[k] == g0.module.funcs@[k]);
                }
            }
            assert(export_names(m) == export_names(self.module) + exports_of_list(exprs) + seq![
                ".top-level"@,
            ]) by {
                assert(export_names(g_end.module) == export_names(g0.module) + exports_of_list(
                    exprs,
                ));
                assert(g_f.module.exports == g_end.module.exports);
                assert(export_names(m) =~= export_names(g_f.module) + seq![".top-level"@]) by {
                    assert forall|k: int| 0 <= k < g_f.module.exports@.len() implies
                        m.exports@[k] == g_f.module.exports@[k] by {
                        lemma_prefix_index(g_f.module.exports@, m.exports@, k);
                    }
                }
                assert((export_names(g0.module) + exports_of_list(exprs)) + seq![".top-level"@]
                    =~= export_names(self.module) + exports_of_list(exprs) + seq![
                    ".top-level"@,
                ]);
            }
            assert(forall|i2: int, j2: int|
                0 <= i2 < j2 < m.data@.len() ==> (#[trigger] m.data@[i2]).offset
                    + m.data@[i2].bytes@.len() <= (#[trigger] m.data@[j2]).offset) by {
                assert(m.data == g_end.module.data);
            }
            // every previously generated function stays well-typed
            assert forall|i2: int| 0 <= i2 < m.funcs@.len() - 1 implies crate::wasm::func_wf(
                m,
                #[trigger] m.funcs@[i2],
            ) by {
                lemma_prefix_index(g_end.module.funcs@, g_f.module.funcs@, i2);
                lemma_func_wf_extends(g_end.module, g_f.module, g_end.module.funcs@[i2]);
                lemma_func_wf_extends(g_f.module, m, g_f.module.funcs@[i2]);
                lemma_module_extends_trans(g_end.module, g_f.module, m);
            }
            // when every top-level form is a statement, the synthesized
            // top-level function is well-typed too
            if forall|k: int| 0 <= k < exprs.len() ==> is_statement(#[trigger] exprs[k]) {
                lemma_outs_concat_stmts(exprs);
                let code = tf.body->Defined_0@;
                assert(code =~= cf_end + seq![
                    Instr::I32Const(g_end.literal_memory_end as i32),
                    Instr::GlobalSet(g_end.stack_pointer),
                    Instr::Return,
                ]);
                let tail = seq![
                    Instr::I32Const(g_end.literal_memory_end as i32),
                    Instr::GlobalSet(g_end.stack_pointer),
                    Instr::Return,
                ];
                assert(cf_end.skip(0) =~= cf_end);
                lemma_code_pushes_extends(g_end.module, m, cf_end, outs);
                let labels = Seq::<Seq<WasmValType>>::empty();
                let ret = Seq::<WasmValType>::empty();
                lemma_seq_effect_app(m, labels, ret, cf_end, tail, Seq::empty());
                assert(seq_effect(m, labels, ret, cf_end, Seq::empty()) == Some(
                    Seq::empty() + outs,
                ));
                assert(Seq::<WasmValType>::empty() + outs =~= Seq::<WasmValType>::empty());
                // the three tail instructions, from the empty stack
                assert(tail.first() == Instr::I32Const(g_end.literal_memory_end as i32));
                assert(tail.drop_first() =~= seq![
                    Instr::GlobalSet(g_end.stack_pointer),
                    Instr::Return,
                ]);
                let s1 = Seq::<WasmValType>::empty().push(WasmValType::I32);
                assert(g_end.stack_pointer < m.globals@.len() && m.globals@[
                    g_end.stack_pointer as int
                ].ty == WasmValType::I32);
                assert(stack_has(s1, seq![m.globals@[g_end.stack_pointer as int].ty])) by {
                    lemma_stack_app(Seq::empty(), seq![WasmValType::I32]);
                    assert(Seq::<WasmValType>::empty() + seq![WasmValType::I32] =~= s1);
                }
                let s2 = stack_pop(s1, 1);
                assert(s2 =~= Seq::<WasmValType>::empty());
                let t2 = seq![Instr::GlobalSet(g_end.stack_pointer), Instr::Return];
                assert(t2.drop_first() =~= seq![Instr::Return]);
                assert(stack_has(Seq::<WasmValType>::empty(), ret)) by {
                    assert(Seq::<WasmValType>::empty().subrange(0, 0) =~= ret);
                }
                assert(seq![Instr::Return].drop_first() =~= Seq::<Instr>::empty());
                let c0 = Instr::I32Const(g_end.literal_memory_end as i32);
                let gsi = Instr::GlobalSet(g_end.stack_pointer);
                assert(instr_effect(m, labels, ret, c0, Seq::empty()) == Some(s1));
                assert(tail.first() == c0);
                assert(seq_effect(m, labels, ret, tail, Seq::empty()) == seq_effect(
                    m,
                    labels,
                    ret,
                    tail.drop_first(),
                    s1,
                ));
                assert(tail.drop_first() =~= t2);
                assert(instr_effect(m, labels, ret, gsi, s1) == Some(stack_pop(s1, 1)));
                assert(t2.first() == gsi);
                assert(seq_effect(m, labels, ret, t2, s1) == seq_effect(
                    m,
                    labels,
                    ret,
                    t2.drop_first(),
                    stack_pop(s1, 1),
                ));
                assert(stack_pop(s1, 1) == Seq::<WasmValType>::empty()) by {
                    assert(stack_pop(s1, 1) =~= Seq::<WasmValType>::empty());
                }
                assert(instr_effect(m, labels, ret, Instr::Return, Seq::empty()) == Some(
                    Seq::<WasmValType>::empty(),
                ));
                lemma_seq_effect_one(m, labels, ret, Instr::Return, Seq::empty());
                assert(seq_effect(m, labels, ret, t2.drop_first(), Seq::empty()) == Some(
                    Seq::<WasmValType>::empty(),
                )) by {
                    assert(t2.drop_first() =~= seq![Instr::Return]);
                }
                assert(seq_effect(m, labels, ret, tf.body->Defined_0@, Seq::empty()) == Some(
                    Seq::<WasmValType>::empty(),
                ));
                assert(crate::wasm::func_wf(m, tf)) by {
                    assert(tf.sig.results@ =~= Seq::<WasmValType>::empty());
                }
                assert(funcs_wf(m)) by {
                    assert forall|i2: int| 0 <= i2 < m.funcs@.len() implies crate::wasm::func_wf(
                        m,
                        #[trigger] m.funcs@[i2],
                    ) by {
                        if i2 == m.funcs@.len() - 1 {
                            assert(m.funcs@[i2] == tf);
                        }
                    }
                }
            }
        }
        Ok(m)
    }
}

/// The flattened value-stack shape of an argument list.
pub open spec fn args_slots(es: Seq<TypedExpr>) -> Seq<WasmValType>
    decreases es.len(),
{
    if es.len() == 0 {
        Seq::empty()
    } else {
        args_slots(es.drop_last()) + slots_spec(es.last().ty)
    }
}

} // verus!
