//! The typed syntax tree the generator consumes, and the analysis object
//! that accompanies it: type registries for declared functions.

use vstd::prelude::*;

use crate::types::{slots_spec, ClarityType, WasmValType};

verus! {

/// A literal value carried by a literal node.
#[derive(Debug, PartialEq, Eq)]
pub enum LiteralValue {
    Int(i128),
    UInt(u128),
    /// The bytes of an ASCII string literal.
    Ascii(Vec<u8>),
    /// The per-character byte groups of a UTF-8 string literal.
    Utf8(Vec<Vec<u8>>),
    /// A literal kind with no lowering yet.
    Other,
}

/// An arithmetic form.
#[derive(Clone, Copy, PartialEq, Eq, Structural, Debug)]
pub enum ArithOp {
    Add,
    Subtract,
    Multiply,
    Divide,
    Modulo,
}

/// One node of the typed syntax tree.  Every node carries the source type
/// the type checker resolved for it.
#[derive(Debug, PartialEq, Eq)]
pub struct TypedExpr {
    pub ty: ClarityType,
    pub kind: ExprKind,
}

/// The form of a node.
#[derive(Debug, PartialEq, Eq)]
pub enum ExprKind {
    Literal(LiteralValue),
    Atom(String),
    Arith(ArithOp, Vec<TypedExpr>),
    OkCons(Box<TypedExpr>),
    ErrCons(Box<TypedExpr>),
    Concat(Box<TypedExpr>, Box<TypedExpr>),
    ListCons(Vec<TypedExpr>),
    /// `(fold f seq initial)`: the function name, the sequence, the initial
    /// accumulator.
    Fold(String, Box<TypedExpr>, Box<TypedExpr>),
    VarGet(String),
    VarSet(String, Box<TypedExpr>),
    /// `(define-data-var name ty initial)`: the declared type is the type of
    /// the initial value node.
    DefineDataVar(String, Box<TypedExpr>),
    DefinePrivate(String, Box<TypedExpr>),
    DefineReadOnly(String, Box<TypedExpr>),
    DefinePublic(String, Box<TypedExpr>),
    CallUserDefined(String, Vec<TypedExpr>),
    /// A recognized construct with no lowering yet.
    Unsupported,
}

/// Statement forms leave nothing on the value stack.
pub open spec fn is_statement(e: TypedExpr) -> bool {
    match e.kind {
        ExprKind::VarSet(_, _) => true,
        ExprKind::DefineDataVar(_, _) => true,
        ExprKind::DefinePrivate(_, _) => true,
        ExprKind::DefineReadOnly(_, _) => true,
        ExprKind::DefinePublic(_, _) => true,
        _ => false,
    }
}

/// What lowering an expression leaves on the value stack: the slots of its
/// type, or nothing for a statement form.
pub open spec fn out_slots(e: TypedExpr) -> Seq<WasmValType> {
    if is_statement(e) {
        Seq::empty()
    } else {
        slots_spec(e.ty)
    }
}

/// The names that lowering this expression exports, in order of
/// registration: a public or read-only definition exports its name after
/// its body is lowered.
pub open spec fn exports_of(e: TypedExpr) -> Seq<Seq<char>>
    decreases e, 0nat,
{
    match e.kind {
        ExprKind::Literal(_) => Seq::empty(),
        ExprKind::Atom(_) => Seq::empty(),
        ExprKind::Arith(_, operands) => exports_of_list(operands@),
        ExprKind::OkCons(v) => exports_of(*v),
        ExprKind::ErrCons(v) => exports_of(*v),
        ExprKind::Concat(a, b) => exports_of(*a) + exports_of(*b),
        ExprKind::ListCons(elems) => exports_of_list(elems@),
        ExprKind::Fold(_, sequence, initial) => exports_of(*sequence) + exports_of(*initial),
        ExprKind::VarGet(_) => Seq::empty(),
        ExprKind::VarSet(_, v) => exports_of(*v),
        ExprKind::DefineDataVar(_, v) => exports_of(*v),
        ExprKind::DefinePrivate(_, body) => exports_of(*body),
        ExprKind::DefineReadOnly(name, body) => exports_of(*body) + seq![name@],
        ExprKind::DefinePublic(name, body) => exports_of(*body) + seq![name@],
        ExprKind::CallUserDefined(_, args) => exports_of_list(args@),
        ExprKind::Unsupported => Seq::empty(),
    }
}

pub open spec fn exports_of_list(es: Seq<TypedExpr>) -> Seq<Seq<char>>
    decreases es, 1nat,
{
    if es.len() == 0 {
        Seq::empty()
    } else {
        exports_of(es.first()) + exports_of_list(es.drop_first())
    }
}

/// Lowering one more expression appends its exports.
pub proof fn lemma_exports_of_list_push(s: Seq<TypedExpr>, e: TypedExpr)
    ensures
        exports_of_list(s.push(e)) == exports_of_list(s) + exports_of(e),
    decreases s.len(),
{
    let t = s.push(e);
    assert(exports_of_list(t) == exports_of(t.first()) + exports_of_list(t.drop_first()));
    if s.len() == 0 {
        assert(t.first() == e);
        assert(t.drop_first() =~= Seq::<TypedExpr>::empty());
        assert(exports_of_list(t.drop_first()) == Seq::<Seq<char>>::empty());
        assert(exports_of(e) + Seq::<Seq<char>>::empty() =~= exports_of(e));
        assert(exports_of_list(s) + exports_of(e) =~= exports_of(e));
    } else {
        assert(t.first() == s.first());
        assert(t.drop_first() =~= s.drop_first().push(e));
        lemma_exports_of_list_push(s.drop_first(), e);
        assert(exports_of_list(s) == exports_of(s.first()) + exports_of_list(s.drop_first()));
        assert((exports_of(s.first()) + exports_of_list(s.drop_first())) + exports_of(e)
            =~= exports_of(s.first()) + (exports_of_list(s.drop_first()) + exports_of(e)));
    }
}

/// Whether a node is a statement form.
pub fn is_statement_expr(e: &TypedExpr) -> (r: bool)
    ensures
        r == is_statement(*e),
{
    match &e.kind {
        ExprKind::VarSet(_, _) => true,
        ExprKind::DefineDataVar(_, _) => true,
        ExprKind::DefinePrivate(_, _) => true,
        ExprKind::DefineReadOnly(_, _) => true,
        ExprKind::DefinePublic(_, _) => true,
        _ => false,
    }
}

/// One declared parameter of a defined function.
#[derive(Debug, PartialEq, Eq)]
pub struct FunctionArg {
    pub name: String,
    pub signature: ClarityType,
}

/// A function type with enumerated parameters and a single return type.
#[derive(Debug, PartialEq, Eq)]
pub struct FixedFunction {
    pub args: Vec<FunctionArg>,
    pub returns: ClarityType,
}

/// A declared function type; only the fixed shape has a lowering.
#[derive(Debug, PartialEq, Eq)]
pub enum FunctionType {
    Fixed(FixedFunction),
    /// A shape (variadic, overloaded) the generator does not lower.
    Irregular,
}

/// The analysis the type checker delivers: the program and the registries
/// of declared function types, keyed by name.
#[derive(Debug, PartialEq, Eq)]
pub struct ContractAnalysis {
    pub expressions: Vec<TypedExpr>,
    pub private_function_types: Vec<(String, FunctionType)>,
    pub read_only_function_types: Vec<(String, FunctionType)>,
    pub public_function_types: Vec<(String, FunctionType)>,
}

/// First-match lookup in a name-keyed table.
pub open spec fn assoc<V>(entries: Seq<(String, V)>, name: Seq<char>) -> Option<V>
    decreases entries.len(),
{
    if entries.len() == 0 {
        None
    } else if entries.first().0@ == name {
        Some(entries.first().1)
    } else {
        assoc(entries.drop_first(), name)
    }
}

/// A first match at index `j` determines the lookup result.
proof fn lemma_assoc_found<V>(entries: Seq<(String, V)>, name: Seq<char>, j: int)
    requires
        0 <= j < entries.len(),
        entries[j].0@ == name,
        forall|k: int| 0 <= k < j ==> (#[trigger] entries[k]).0@ != name,
    ensures
        assoc(entries, name) == Some(entries[j].1),
    decreases j,
{
    if j == 0 {
    } else {
        assert(entries.first().0@ != name);
        lemma_assoc_found(entries.drop_first(), name, j - 1);
        assert(entries.drop_first()[j - 1] == entries[j]);
    }
}

/// No match anywhere determines the lookup result.
proof fn lemma_assoc_none<V>(entries: Seq<(String, V)>, name: Seq<char>)
    requires
        forall|k: int| 0 <= k < entries.len() ==> (#[trigger] entries[k]).0@ != name,
    ensures
        assoc(entries, name) is None,
    decreases entries.len(),
{
    if entries.len() > 0 {
        lemma_assoc_none(entries.drop_first(), name);
    }
}

/// A lookup that found nothing means no entry bears the name.
pub proof fn lemma_assoc_none_inv<V>(entries: Seq<(String, V)>, name: Seq<char>)
    requires
        assoc(entries, name) is None,
    ensures
        forall|k: int| 0 <= k < entries.len() ==> (#[trigger] entries[k]).0@ != name,
    decreases entries.len(),
{
    if entries.len() > 0 {
        lemma_assoc_none_inv(entries.drop_first(), name);
        assert forall|k: int| 0 <= k < entries.len() implies (#[trigger] entries[k]).0@
            != name by {
            if k > 0 {
                assert(entries.drop_first()[k - 1] == entries[k]);
            }
        }
    }
}

/// Looks a name up in a name-keyed table, first match wins.
pub fn assoc_get<'a, V>(entries: &'a Vec<(String, V)>, name: &String) -> (r: Option<&'a V>)
    ensures
        match r {
            Some(v) => assoc(entries@, name@) == Some(*v),
            None => assoc(entries@, name@) is None,
        },
{
    let n = entries.len();
    let mut i: usize = 0;
    while i < n
        invariant
            n == entries@.len(),
            i <= n,
            forall|k: int| 0 <= k < i ==> (#[trigger] entries@[k]).0@ != name@,
        decreases n - i,
    {
        if entries[i].0 == *name {
            proof {
                lemma_assoc_found(entries@, name@, i as int);
            }
            return Some(&entries[i].1);
        }
        i = i + 1;
    }
    proof {
        lemma_assoc_none(entries@, name@);
    }
    None
}

impl ContractAnalysis {
    /// The declared type of a private function, if any.
    pub fn get_private_function(&self, name: &String) -> (r: Option<&FunctionType>)
        ensures
            match r {
                Some(ft) => assoc(self.private_function_types@, name@) == Some(*ft),
                None => assoc(self.private_function_types@, name@) is None,
            },
    {
        assoc_get(&self.private_function_types, name)
    }

    /// The declared type of a read-only function, if any.
    pub fn get_read_only_function_type(&self, name: &String) -> (r: Option<&FunctionType>)
        ensures
            match r {
                Some(ft) => assoc(self.read_only_function_types@, name@) == Some(*ft),
                None => assoc(self.read_only_function_types@, name@) is None,
            },
    {
        assoc_get(&self.read_only_function_types, name)
    }

    /// The declared type of a public function, if any.
    pub fn get_public_function_type(&self, name: &String) -> (r: Option<&FunctionType>)
        ensures
            match r {
                Some(ft) => assoc(self.public_function_types@, name@) == Some(*ft),
                None => assoc(self.public_function_types@, name@) is None,
            },
    {
        assoc_get(&self.public_function_types, name)
    }
}

} // verus!
