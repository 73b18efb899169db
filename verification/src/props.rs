//! The library's stated laws, each proved over the specs that the
//! generator's own contracts use.

use vstd::prelude::*;

use crate::ast::{exports_of, exports_of_list, out_slots, ExprKind, TypedExpr};
use crate::generator::{
    evolves, has_frame_discipline, ids_wf, int_literal_code, step_ok, uint_literal_code,
    WasmGenerator,
};
use crate::types::WasmValType;
use crate::wasm::{code_pushes, segments_wf, seq_effect, Instr, WasmModule};

verus! {

/// Stack-pointer balance: a frame-disciplined function body opens by saving
/// the stack pointer into a frame-pointer local, keeps its whole lowered
/// body inside a single block between prelude and postlude, and closes by
/// restoring the stack pointer from that same local, so every allocation
/// made between them is released at exit.
pub proof fn lemma_frame_discipline_balanced(code: Seq<Instr>, sp: usize)
    requires
        has_frame_discipline(code, sp),
    ensures
        code[0] == Instr::GlobalGet(sp),
        code[code.len() - 1] == (Instr::GlobalSet(sp)),
        exists|fp: usize|
            code[1] == (Instr::LocalSet(fp)) && code[code.len() - 2] == (Instr::LocalGet(fp)),
{
    let fp = choose|fp: usize|
        code[1] == (Instr::LocalSet(fp)) && code[3] == (Instr::LocalGet(fp)) && code[4] == (
        Instr::GlobalSet(sp));
    assert(code[1] == (Instr::LocalSet(fp)) && code[code.len() - 2] == (Instr::LocalGet(fp)));
}

/// Literal-region monotonicity: across any step the generator takes, the
/// end of the literal region never moves backwards.
pub proof fn lemma_literal_region_monotone(g1: WasmGenerator, g2: WasmGenerator)
    requires
        evolves(g1, g2),
    ensures
        g2.literal_memory_end >= g1.literal_memory_end,
{
}

/// Literal-region layout: under the generator's segment discipline, no two
/// data segments overlap, and all lie below the literal cursor.
pub proof fn lemma_data_segments_disjoint(m: WasmModule, literal_end: u32)
    requires
        segments_wf(m, literal_end),
    ensures
        forall|i: int, j: int|
            0 <= i < j < m.data@.len() ==> (#[trigger] m.data@[i]).offset
                + m.data@[i].bytes@.len() <= (#[trigger] m.data@[j]).offset,
        forall|i: int|
            0 <= i < m.data@.len() ==> (#[trigger] m.data@[i]).offset + m.data@[i].bytes@.len()
                <= literal_end,
{
}

/// Slot-shape preservation: the code a successful lowering step appends is
/// well-typed on every value stack, under every label context, and leaves
/// exactly the lowered shape of the expression's type on top (nothing for a
/// statement form).
pub proof fn lemma_lowering_preserves_slot_shape(
    g1: WasmGenerator,
    g2: WasmGenerator,
    b0: Seq<Instr>,
    b1: Seq<Instr>,
    e: TypedExpr,
)
    requires
        step_ok(g1, g2, b0, b1, out_slots(e), exports_of(e)),
    ensures
        forall|labels: Seq<Seq<WasmValType>>, ret: Seq<WasmValType>, s: Seq<WasmValType>|
            #[trigger] seq_effect(g2.module, labels, ret, b1.skip(b0.len() as int), s) == Some(
                s + out_slots(e),
            ),
{
    assert(code_pushes(g2.module, b1.skip(b0.len() as int), out_slots(e)));
}

/// Identifier uniqueness and density: every persistent name holds exactly
/// one identifier, identifiers are pairwise distinct, and they are exactly
/// the integers from zero up to the counter.
///
/// This holds of every reachable generator state: `ids_wf` is part of the
/// generator's invariant, a fresh generator starts with an empty registry
/// and a zero counter, and `traverse_define_data_var` — the one operation
/// that allocates — appends exactly one entry carrying the old counter and
/// advances the counter by exactly one, so over a whole generation the
/// allocated identifiers are exactly 0, 1, 2, …, each handed out once.
pub proof fn lemma_identifiers_dense(g: WasmGenerator)
    requires
        ids_wf(g),
    ensures
        forall|i: int, j: int|
            0 <= i < g.identifiers@.len() && 0 <= j < g.identifiers@.len() && i != j
                ==> (#[trigger] g.identifiers@[i]).0@ != (#[trigger] g.identifiers@[j]).0@
                    && g.identifiers@[i].1 != g.identifiers@[j].1,
        forall|i: int| 0 <= i < g.identifiers@.len() ==> 0 <= (#[trigger] g.identifiers@[i]).1
            < g.next_identifier,
        g.identifiers@.len() == g.next_identifier,
        forall|v: int| 0 <= v < g.identifiers@.len() ==> (#[trigger] g.identifiers@[v]).1 == v,
{
}

/// Export completeness, one half: a public or read-only definition among
/// the lowered forms contributes its source name to the exports.
pub proof fn lemma_export_completeness(es: Seq<TypedExpr>, k: int)
    requires
        0 <= k < es.len(),
        (es[k].kind matches ExprKind::DefinePublic(_, _)) || (es[k].kind
            matches ExprKind::DefineReadOnly(_, _)),
    ensures
        es[k].kind matches ExprKind::DefinePublic(name, _) ==> exports_of_list(es).contains(
            name@,
        ),
        es[k].kind matches ExprKind::DefineReadOnly(name, _) ==> exports_of_list(es).contains(
            name@,
        ),
    decreases es.len(),
{
    let e = es[k];
    if k == 0 {
        match e.kind {
            ExprKind::DefinePublic(name, body) => {
                assert(exports_of(e).last() == name@);
                assert(exports_of(e).contains(name@));
                lemma_concat_contains(exports_of(es.first()), exports_of_list(es.drop_first()), name@);
            },
            ExprKind::DefineReadOnly(name, body) => {
                assert(exports_of(e).last() == name@);
                assert(exports_of(e).contains(name@));
                lemma_concat_contains(exports_of(es.first()), exports_of_list(es.drop_first()), name@);
            },
            _ => {},
        }
    } else {
        lemma_export_completeness(es.drop_first(), k - 1);
        assert(es.drop_first()[k - 1] == es[k]);
        match e.kind {
            ExprKind::DefinePublic(name, _) => {
                lemma_concat_contains_right(
                    exports_of(es.first()),
                    exports_of_list(es.drop_first()),
                    name@,
                );
            },
            ExprKind::DefineReadOnly(name, _) => {
                lemma_concat_contains_right(
                    exports_of(es.first()),
                    exports_of_list(es.drop_first()),
                    name@,
                );
            },
            _ => {},
        }
    }
}

/// Export completeness, the other half: a private definition contributes
/// only what its own body contributes, never its name.
pub proof fn lemma_private_not_exported(e: TypedExpr)
    requires
        e.kind matches ExprKind::DefinePrivate(_, _),
    ensures
        e.kind matches ExprKind::DefinePrivate(_, body) ==> exports_of(e) == exports_of(*body),
{
}

proof fn lemma_concat_contains<T>(a: Seq<T>, b: Seq<T>, x: T)
    requires
        a.contains(x),
    ensures
        (a + b).contains(x),
{
    let i = choose|i: int| 0 <= i < a.len() && a[i] == x;
    assert((a + b)[i] == x);
}

proof fn lemma_concat_contains_right<T>(a: Seq<T>, b: Seq<T>, x: T)
    requires
        b.contains(x),
    ensures
        (a + b).contains(x),
{
    let i = choose|i: int| 0 <= i < b.len() && b[i] == x;
    assert((a + b)[a.len() + i] == x);
}

/// Recombines the two emitted 64-bit halves into the 128-bit value they
/// stand for.
pub open spec fn recombine(high: i64, low: i64) -> u128 {
    (((high as u64) as u128) * 0x1_0000_0000_0000_0000 + ((low as u64) as u128)) as u128
}

/// Integer round trip: the two constants emitted for an unsigned literal
/// recombine to the literal.
pub proof fn lemma_uint_literal_roundtrip(u: u128)
    ensures
        recombine(
            uint_literal_code(u)[0]->I64Const_0,
            uint_literal_code(u)[1]->I64Const_0,
        ) == u,
{
    let k: u128 = 0x1_0000_0000_0000_0000;
    let h64: u64 = (u / k) as u64;
    let l64: u64 = (u % k) as u64;
    assert(u / 0x1_0000_0000_0000_0000u128 < 0x1_0000_0000_0000_0000u128) by (bit_vector);
    assert((h64 as i64) as u64 == h64) by (bit_vector);
    assert((l64 as i64) as u64 == l64) by (bit_vector);
    assert(u / k <= u64::MAX);
    assert(u % k <= u64::MAX);
    vstd::arithmetic::div_mod::lemma_fundamental_div_mod(u as int, k as int);
}

/// Integer round trip, signed: the two constants emitted for a signed
/// literal recombine to its two's-complement representation, which reads
/// back as the literal.
pub proof fn lemma_int_literal_roundtrip(i: i128)
    ensures
        recombine(
            int_literal_code(i)[0]->I64Const_0,
            int_literal_code(i)[1]->I64Const_0,
        ) == i as u128,
        (i as u128) as i128 == i,
{
    lemma_uint_literal_roundtrip(i as u128);
    assert((i as u128) as i128 == i) by (bit_vector);
}

} // verus!
