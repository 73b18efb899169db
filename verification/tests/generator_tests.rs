//! End-to-end tests: build typed programs, generate a module, and execute
//! it on a small interpreter of the module model that implements the
//! standard-library helpers and the host's persistent-state functions.

use std::collections::HashMap;

use clar2wasm::ast::{
    ContractAnalysis, ExprKind, FixedFunction, FunctionArg, FunctionType, LiteralValue, TypedExpr,
};
use clar2wasm::generator::WasmGenerator;
use clar2wasm::types::{clar2wasm_ty, get_type_size, ClarityType, GeneratorError, WasmValType};
use clar2wasm::wasm::{FuncBody, Instr, WasmModule};

// ---------------------------------------------------------------------
// a small interpreter for the module model

enum Flow {
    Normal,
    Branch(u32),
    Return,
}

struct Machine<'a> {
    module: &'a WasmModule,
    memory: Vec<u8>,
    globals: Vec<i64>,
    locals: HashMap<usize, i64>,
    vars: HashMap<i32, Vec<u8>>,
}

impl<'a> Machine<'a> {
    fn new(module: &'a WasmModule) -> Machine<'a> {
        let mut memory = vec![0u8; 1 << 20];
        for seg in module.data.iter() {
            let off = seg.offset as usize;
            memory[off..off + seg.bytes.len()].copy_from_slice(&seg.bytes);
        }
        Machine {
            module,
            memory,
            globals: vec![0; module.globals.len()],
            locals: HashMap::new(),
            vars: HashMap::new(),
        }
    }

    fn run_top_level(&mut self) {
        let fid = self.find_export(".top-level");
        let mut stack = Vec::new();
        self.call_function(fid, &mut stack);
        assert!(stack.is_empty(), "the top level must leave an empty stack");
    }

    fn find_export(&self, name: &str) -> usize {
        self.module
            .exports
            .iter()
            .find(|e| e.name == name)
            .unwrap_or_else(|| panic!("export not found: {name}"))
            .func
    }

    fn call_export(&mut self, name: &str, args: Vec<i64>) -> Vec<i64> {
        let fid = self.find_export(name);
        let mut stack = args;
        self.call_function(fid, &mut stack);
        stack
    }

    fn call_function(&mut self, fid: usize, stack: &mut Vec<i64>) {
        let func = &self.module.funcs[fid];
        match &func.body {
            FuncBody::External => self.call_external(&func.name.clone(), stack),
            FuncBody::Defined(code) => {
                for pl in func.param_locals.iter().rev() {
                    let v = stack.pop().expect("missing argument");
                    self.locals.insert(*pl, v);
                }
                let mut inner = Vec::new();
                self.exec_seq(code, &mut inner);
                stack.append(&mut inner);
            }
        }
    }

    fn exec_seq(&mut self, code: &[Instr], stack: &mut Vec<i64>) -> Flow {
        for instr in code {
            match self.exec_instr(instr, stack) {
                Flow::Normal => {}
                f => return f,
            }
        }
        Flow::Normal
    }

    fn exec_instr(&mut self, instr: &Instr, stack: &mut Vec<i64>) -> Flow {
        match instr {
            Instr::I32Const(v) => stack.push(*v as i64),
            Instr::I64Const(v) => stack.push(*v),
            Instr::LocalGet(l) => stack.push(*self.locals.get(l).unwrap_or(&0)),
            Instr::LocalSet(l) => {
                let v = stack.pop().unwrap();
                self.locals.insert(*l, v);
            }
            Instr::LocalTee(l) => {
                let v = *stack.last().unwrap();
                self.locals.insert(*l, v);
            }
            Instr::GlobalGet(g) => stack.push(self.globals[*g]),
            Instr::GlobalSet(g) => {
                let v = stack.pop().unwrap();
                self.globals[*g] = v;
            }
            Instr::I32Add => {
                let b = stack.pop().unwrap() as i32;
                let a = stack.pop().unwrap() as i32;
                stack.push(a.wrapping_add(b) as i64);
            }
            Instr::I32Sub => {
                let b = stack.pop().unwrap() as i32;
                let a = stack.pop().unwrap() as i32;
                stack.push(a.wrapping_sub(b) as i64);
            }
            Instr::I32LtU => {
                let b = stack.pop().unwrap() as u32;
                let a = stack.pop().unwrap() as u32;
                stack.push(if a < b { 1 } else { 0 });
            }
            Instr::I64Load(off) => {
                let addr = (stack.pop().unwrap() as u32).wrapping_add(*off) as usize;
                let mut bytes = [0u8; 8];
                bytes.copy_from_slice(&self.memory[addr..addr + 8]);
                stack.push(i64::from_le_bytes(bytes));
            }
            Instr::I64Store(off) => {
                let v = stack.pop().unwrap();
                let addr = (stack.pop().unwrap() as u32).wrapping_add(*off) as usize;
                self.memory[addr..addr + 8].copy_from_slice(&v.to_le_bytes());
            }
            Instr::Call(f) => self.call_function(*f, stack),
            Instr::DropValue => {
                stack.pop().unwrap();
            }
            Instr::Return => return Flow::Return,
            Instr::Block { results: _, body } => match self.exec_seq(body, stack) {
                Flow::Normal | Flow::Branch(0) => {}
                Flow::Branch(n) => return Flow::Branch(n - 1),
                Flow::Return => return Flow::Return,
            },
            Instr::Loop { results: _, body } => loop {
                match self.exec_seq(body, stack) {
                    Flow::Branch(0) => continue,
                    Flow::Normal => break,
                    Flow::Branch(n) => return Flow::Branch(n - 1),
                    Flow::Return => return Flow::Return,
                }
            },
            Instr::BrIf(l) => {
                let c = stack.pop().unwrap() as i32;
                if c != 0 {
                    return Flow::Branch(*l);
                }
            }
        }
        Flow::Normal
    }

    fn call_external(&mut self, name: &str, stack: &mut Vec<i64>) {
        match name {
            "add-int" | "sub-int" | "mul-int" | "div-int" | "mod-int" => {
                let (a, b) = pop_two_i128(stack);
                let r = match name {
                    "add-int" => a.wrapping_add(b),
                    "sub-int" => a.wrapping_sub(b),
                    "mul-int" => a.wrapping_mul(b),
                    "div-int" => a.wrapping_div(b),
                    _ => a.wrapping_rem(b),
                };
                push_i128(stack, r);
            }
            "add-uint" | "sub-uint" | "mul-uint" | "div-uint" | "mod-uint" => {
                let (a, b) = pop_two_i128(stack);
                let (a, b) = (a as u128, b as u128);
                let r = match name {
                    "add-uint" => a.wrapping_add(b),
                    "sub-uint" => a.wrapping_sub(b),
                    "mul-uint" => a.wrapping_mul(b),
                    "div-uint" => a.wrapping_div(b),
                    _ => a.wrapping_rem(b),
                };
                push_i128(stack, r as i128);
            }
            "memcpy" => {
                let dst = stack.pop().unwrap() as u32 as usize;
                let len = stack.pop().unwrap() as u32 as usize;
                let src = stack.pop().unwrap() as u32 as usize;
                let bytes = self.memory[src..src + len].to_vec();
                self.memory[dst..dst + len].copy_from_slice(&bytes);
                stack.push((dst + len) as i64);
            }
            "define_variable" => {
                let size = stack.pop().unwrap() as u32 as usize;
                let value_off = stack.pop().unwrap() as u32 as usize;
                let _name_len = stack.pop().unwrap();
                let _name_off = stack.pop().unwrap();
                let id = stack.pop().unwrap() as i32;
                let bytes = self.memory[value_off..value_off + size].to_vec();
                self.vars.insert(id, bytes);
            }
            "get_variable" => {
                let size = stack.pop().unwrap() as u32 as usize;
                let off = stack.pop().unwrap() as u32 as usize;
                let id = stack.pop().unwrap() as i32;
                let bytes = self.vars.get(&id).expect("undefined variable").clone();
                assert_eq!(bytes.len(), size);
                self.memory[off..off + size].copy_from_slice(&bytes);
            }
            "set_variable" => {
                let size = stack.pop().unwrap() as u32 as usize;
                let off = stack.pop().unwrap() as u32 as usize;
                let id = stack.pop().unwrap() as i32;
                let bytes = self.memory[off..off + size].to_vec();
                self.vars.insert(id, bytes);
            }
            other => panic!("unknown external function: {other}"),
        }
    }
}

fn pop_two_i128(stack: &mut Vec<i64>) -> (i128, i128) {
    let b_low = stack.pop().unwrap();
    let b_high = stack.pop().unwrap();
    let a_low = stack.pop().unwrap();
    let a_high = stack.pop().unwrap();
    (assemble_i128(a_high, a_low), assemble_i128(b_high, b_low))
}

fn assemble_i128(high: i64, low: i64) -> i128 {
    (((high as u64 as u128) << 64) | (low as u64 as u128)) as i128
}

fn push_i128(stack: &mut Vec<i64>, v: i128) {
    let u = v as u128;
    stack.push((u >> 64) as u64 as i64);
    stack.push(u as u64 as i64);
}

fn result_i128(stack: &[i64]) -> i128 {
    assert_eq!(stack.len(), 2, "expected one 128-bit result");
    assemble_i128(stack[0], stack[1])
}

fn args_i128(values: &[i128]) -> Vec<i64> {
    let mut out = Vec::new();
    for v in values {
        let u = *v as u128;
        out.push((u >> 64) as u64 as i64);
        out.push(u as u64 as i64);
    }
    out
}

// ---------------------------------------------------------------------
// helpers for building typed programs

fn int_lit(i: i128) -> TypedExpr {
    TypedExpr { ty: ClarityType::IntType, kind: ExprKind::Literal(LiteralValue::Int(i)) }
}

fn uint_lit(u: u128) -> TypedExpr {
    TypedExpr { ty: ClarityType::UIntType, kind: ExprKind::Literal(LiteralValue::UInt(u)) }
}

fn ascii_lit(s: &str) -> TypedExpr {
    TypedExpr {
        ty: ClarityType::StringAscii(s.len() as u32),
        kind: ExprKind::Literal(LiteralValue::Ascii(s.as_bytes().to_vec())),
    }
}

fn int_atom(name: &str) -> TypedExpr {
    TypedExpr { ty: ClarityType::IntType, kind: ExprKind::Atom(name.to_string()) }
}

fn int_arg(name: &str) -> FunctionArg {
    FunctionArg { name: name.to_string(), signature: ClarityType::IntType }
}

fn fixed(args: Vec<FunctionArg>, returns: ClarityType) -> FunctionType {
    FunctionType::Fixed(FixedFunction { args, returns })
}

fn analysis(
    expressions: Vec<TypedExpr>,
    private: Vec<(String, FunctionType)>,
    read_only: Vec<(String, FunctionType)>,
    public: Vec<(String, FunctionType)>,
) -> ContractAnalysis {
    ContractAnalysis {
        expressions,
        private_function_types: private,
        read_only_function_types: read_only,
        public_function_types: public,
    }
}

fn generate(a: ContractAnalysis) -> Result<WasmModule, GeneratorError> {
    WasmGenerator::new(a).generate()
}

fn int_list(values: &[i128]) -> TypedExpr {
    TypedExpr {
        ty: ClarityType::List(Box::new(ClarityType::IntType), values.len() as u32),
        kind: ExprKind::ListCons(values.iter().map(|v| int_lit(*v)).collect()),
    }
}

// ---------------------------------------------------------------------
// type lowering and widths

#[test]
fn lowered_slots_follow_the_table() {
    assert_eq!(clar2wasm_ty(&ClarityType::NoType), vec![WasmValType::I32]);
    assert_eq!(
        clar2wasm_ty(&ClarityType::IntType),
        vec![WasmValType::I64, WasmValType::I64]
    );
    assert_eq!(
        clar2wasm_ty(&ClarityType::UIntType),
        vec![WasmValType::I64, WasmValType::I64]
    );
    assert_eq!(
        clar2wasm_ty(&ClarityType::StringAscii(12)),
        vec![WasmValType::I32, WasmValType::I32]
    );
    assert_eq!(
        clar2wasm_ty(&ClarityType::Response(
            Box::new(ClarityType::IntType),
            Box::new(ClarityType::NoType)
        )),
        vec![
            WasmValType::I32,
            WasmValType::I64,
            WasmValType::I64,
            WasmValType::I32
        ]
    );
}

#[test]
fn type_sizes_follow_the_table() {
    assert_eq!(get_type_size(&ClarityType::IntType).unwrap(), 16);
    assert_eq!(get_type_size(&ClarityType::UIntType).unwrap(), 16);
    assert_eq!(get_type_size(&ClarityType::StringAscii(12)).unwrap(), 12);
    assert_eq!(
        get_type_size(&ClarityType::List(Box::new(ClarityType::IntType), 5)).unwrap(),
        80
    );
    assert!(matches!(
        get_type_size(&ClarityType::StringUtf8(4)),
        Err(GeneratorError::NotImplemented)
    ));
    assert!(matches!(
        get_type_size(&ClarityType::NoType),
        Err(GeneratorError::NotImplemented)
    ));
}

// ---------------------------------------------------------------------
// end-to-end scenarios

#[test]
fn add_four_numbers() {
    // (+ 1 2 3 4) => int 10
    let body = TypedExpr {
        ty: ClarityType::IntType,
        kind: ExprKind::Arith(
            clar2wasm::ast::ArithOp::Add,
            vec![int_lit(1), int_lit(2), int_lit(3), int_lit(4)],
        ),
    };
    let go = TypedExpr {
        ty: ClarityType::IntType,
        kind: ExprKind::DefineReadOnly("go".to_string(), Box::new(body)),
    };
    let m = generate(analysis(
        vec![go],
        vec![],
        vec![("go".to_string(), fixed(vec![], ClarityType::IntType))],
        vec![],
    ))
    .unwrap();
    let mut machine = Machine::new(&m);
    machine.run_top_level();
    let out = machine.call_export("go", vec![]);
    assert_eq!(result_i128(&out), 10);
}

#[test]
fn multiply_through_exported_function() {
    // (define-read-only (f (a int) (b int)) (* a b)); f(3, 5) => int 15
    let body = TypedExpr {
        ty: ClarityType::IntType,
        kind: ExprKind::Arith(
            clar2wasm::ast::ArithOp::Multiply,
            vec![int_atom("a"), int_atom("b")],
        ),
    };
    let f = TypedExpr {
        ty: ClarityType::IntType,
        kind: ExprKind::DefineReadOnly("f".to_string(), Box::new(body)),
    };
    let m = generate(analysis(
        vec![f],
        vec![],
        vec![(
            "f".to_string(),
            fixed(vec![int_arg("a"), int_arg("b")], ClarityType::IntType),
        )],
        vec![],
    ))
    .unwrap();
    let mut machine = Machine::new(&m);
    machine.run_top_level();
    let out = machine.call_export("f", args_i128(&[3, 5]));
    assert_eq!(result_i128(&out), 15);
}

#[test]
fn subtraction_and_division_fold_left() {
    // (- 20 5 3) => 12 and (/ 100 5 2) => 10
    for (op, operands, expected) in [
        (clar2wasm::ast::ArithOp::Subtract, vec![20, 5, 3], 12),
        (clar2wasm::ast::ArithOp::Divide, vec![100, 5, 2], 10),
        (clar2wasm::ast::ArithOp::Modulo, vec![17, 5], 2),
    ] {
        let body = TypedExpr {
            ty: ClarityType::IntType,
            kind: ExprKind::Arith(op, operands.into_iter().map(int_lit).collect()),
        };
        let go = TypedExpr {
            ty: ClarityType::IntType,
            kind: ExprKind::DefineReadOnly("go".to_string(), Box::new(body)),
        };
        let m = generate(analysis(
            vec![go],
            vec![],
            vec![("go".to_string(), fixed(vec![], ClarityType::IntType))],
            vec![],
        ))
        .unwrap();
        let mut machine = Machine::new(&m);
        machine.run_top_level();
        let out = machine.call_export("go", vec![]);
        assert_eq!(result_i128(&out), expected);
    }
}

#[test]
fn unsigned_arithmetic_uses_uint_helpers() {
    // (+ u7 u8) => uint 15
    let body = TypedExpr {
        ty: ClarityType::UIntType,
        kind: ExprKind::Arith(clar2wasm::ast::ArithOp::Add, vec![uint_lit(7), uint_lit(8)]),
    };
    let go = TypedExpr {
        ty: ClarityType::UIntType,
        kind: ExprKind::DefineReadOnly("go".to_string(), Box::new(body)),
    };
    let m = generate(analysis(
        vec![go],
        vec![],
        vec![("go".to_string(), fixed(vec![], ClarityType::UIntType))],
        vec![],
    ))
    .unwrap();
    let mut machine = Machine::new(&m);
    machine.run_top_level();
    let out = machine.call_export("go", vec![]);
    assert_eq!(result_i128(&out) as u128, 15);
}

fn roundtrip_via_add_zero(n: i128) -> i128 {
    // lowering (+ n 0) then executing yields n
    let body = TypedExpr {
        ty: ClarityType::IntType,
        kind: ExprKind::Arith(clar2wasm::ast::ArithOp::Add, vec![int_lit(n), int_lit(0)]),
    };
    let go = TypedExpr {
        ty: ClarityType::IntType,
        kind: ExprKind::DefineReadOnly("go".to_string(), Box::new(body)),
    };
    let m = generate(analysis(
        vec![go],
        vec![],
        vec![("go".to_string(), fixed(vec![], ClarityType::IntType))],
        vec![],
    ))
    .unwrap();
    let mut machine = Machine::new(&m);
    machine.run_top_level();
    let out = machine.call_export("go", vec![]);
    result_i128(&out)
}

#[test]
fn integer_literals_roundtrip() {
    for n in [
        0,
        1,
        -1,
        42,
        i128::MIN,
        i128::MAX,
        (1i128 << 64) + 17,
        -(1i128 << 100),
    ] {
        assert_eq!(roundtrip_via_add_zero(n), n);
    }
}

#[test]
fn fold_sums_a_list() {
    // (fold + (list 1 2 3 4 5) 0) => int 15
    let sum_body = TypedExpr {
        ty: ClarityType::IntType,
        kind: ExprKind::Arith(
            clar2wasm::ast::ArithOp::Add,
            vec![int_atom("a"), int_atom("b")],
        ),
    };
    let sum = TypedExpr {
        ty: ClarityType::IntType,
        kind: ExprKind::DefinePrivate("sum".to_string(), Box::new(sum_body)),
    };
    let go_body = TypedExpr {
        ty: ClarityType::IntType,
        kind: ExprKind::Fold(
            "sum".to_string(),
            Box::new(int_list(&[1, 2, 3, 4, 5])),
            Box::new(int_lit(0)),
        ),
    };
    let go = TypedExpr {
        ty: ClarityType::IntType,
        kind: ExprKind::DefineReadOnly("go".to_string(), Box::new(go_body)),
    };
    let m = generate(analysis(
        vec![sum, go],
        vec![(
            "sum".to_string(),
            fixed(vec![int_arg("a"), int_arg("b")], ClarityType::IntType),
        )],
        vec![("go".to_string(), fixed(vec![], ClarityType::IntType))],
        vec![],
    ))
    .unwrap();
    let mut machine = Machine::new(&m);
    machine.run_top_level();
    let out = machine.call_export("go", vec![]);
    assert_eq!(result_i128(&out), 15);
}

#[test]
fn fold_of_empty_list_returns_initial() {
    // (fold + (list) 7) => int 7
    let sum_body = TypedExpr {
        ty: ClarityType::IntType,
        kind: ExprKind::Arith(
            clar2wasm::ast::ArithOp::Add,
            vec![int_atom("a"), int_atom("b")],
        ),
    };
    let sum = TypedExpr {
        ty: ClarityType::IntType,
        kind: ExprKind::DefinePrivate("sum".to_string(), Box::new(sum_body)),
    };
    let go_body = TypedExpr {
        ty: ClarityType::IntType,
        kind: ExprKind::Fold(
            "sum".to_string(),
            Box::new(int_list(&[])),
            Box::new(int_lit(7)),
        ),
    };
    let go = TypedExpr {
        ty: ClarityType::IntType,
        kind: ExprKind::DefineReadOnly("go".to_string(), Box::new(go_body)),
    };
    let m = generate(analysis(
        vec![sum, go],
        vec![(
            "sum".to_string(),
            fixed(vec![int_arg("a"), int_arg("b")], ClarityType::IntType),
        )],
        vec![("go".to_string(), fixed(vec![], ClarityType::IntType))],
        vec![],
    ))
    .unwrap();
    let mut machine = Machine::new(&m);
    machine.run_top_level();
    let out = machine.call_export("go", vec![]);
    assert_eq!(result_i128(&out), 7);
}

#[test]
fn concat_joins_strings_in_memory() {
    // (concat "abc" "de") => "abcde"
    let body = TypedExpr {
        ty: ClarityType::StringAscii(5),
        kind: ExprKind::Concat(Box::new(ascii_lit("abc")), Box::new(ascii_lit("de"))),
    };
    let go = TypedExpr {
        ty: ClarityType::StringAscii(5),
        kind: ExprKind::DefineReadOnly("go".to_string(), Box::new(body)),
    };
    let m = generate(analysis(
        vec![go],
        vec![],
        vec![("go".to_string(), fixed(vec![], ClarityType::StringAscii(5)))],
        vec![],
    ))
    .unwrap();
    let mut machine = Machine::new(&m);
    machine.run_top_level();
    let out = machine.call_export("go", vec![]);
    assert_eq!(out.len(), 2);
    let (offset, len) = (out[0] as u32 as usize, out[1] as u32 as usize);
    assert_eq!(len, 5);
    assert_eq!(&machine.memory[offset..offset + 5], b"abcde");
}

#[test]
fn concat_with_empty_string_reads_back_unchanged() {
    // (concat s "") reads back equal to s
    let s = "hello there";
    let body = TypedExpr {
        ty: ClarityType::StringAscii(s.len() as u32),
        kind: ExprKind::Concat(Box::new(ascii_lit(s)), Box::new(ascii_lit(""))),
    };
    let go = TypedExpr {
        ty: ClarityType::StringAscii(s.len() as u32),
        kind: ExprKind::DefineReadOnly("go".to_string(), Box::new(body)),
    };
    let m = generate(analysis(
        vec![go],
        vec![],
        vec![(
            "go".to_string(),
            fixed(vec![], ClarityType::StringAscii(s.len() as u32)),
        )],
        vec![],
    ))
    .unwrap();
    let mut machine = Machine::new(&m);
    machine.run_top_level();
    let out = machine.call_export("go", vec![]);
    let (offset, len) = (out[0] as u32 as usize, out[1] as u32 as usize);
    assert_eq!(len, s.len());
    assert_eq!(&machine.memory[offset..offset + len], s.as_bytes());
}

fn var_program(initial: u128, update: Option<u128>) -> Vec<TypedExpr> {
    let mut exprs = vec![TypedExpr {
        ty: ClarityType::NoType,
        kind: ExprKind::DefineDataVar("x".to_string(), Box::new(uint_lit(initial))),
    }];
    if let Some(w) = update {
        exprs.push(TypedExpr {
            ty: ClarityType::NoType,
            kind: ExprKind::VarSet("x".to_string(), Box::new(uint_lit(w))),
        });
    }
    exprs.push(TypedExpr {
        ty: ClarityType::UIntType,
        kind: ExprKind::DefineReadOnly(
            "get-x".to_string(),
            Box::new(TypedExpr {
                ty: ClarityType::UIntType,
                kind: ExprKind::VarGet("x".to_string()),
            }),
        ),
    });
    exprs
}

fn run_var_program(initial: u128, update: Option<u128>) -> u128 {
    let m = generate(analysis(
        var_program(initial, update),
        vec![],
        vec![("get-x".to_string(), fixed(vec![], ClarityType::UIntType))],
        vec![],
    ))
    .unwrap();
    let mut machine = Machine::new(&m);
    machine.run_top_level();
    let out = machine.call_export("get-x", vec![]);
    result_i128(&out) as u128
}

#[test]
fn define_data_var_then_get() {
    // (define-data-var x uint u100) then (var-get x) => u100
    assert_eq!(run_var_program(100, None), 100);
}

#[test]
fn var_set_overwrites_the_value() {
    // after (var-set x u250), (var-get x) => u250
    assert_eq!(run_var_program(100, Some(250)), 250);
}

#[test]
fn var_roundtrip_of_arbitrary_values() {
    // define v, read it back; then overwrite with a distinct w and read w
    for (v, w) in [(0u128, 1u128), (u128::MAX, 7), (123456789, 987654321)] {
        assert_eq!(run_var_program(v, None), v);
        assert_eq!(run_var_program(v, Some(w)), w);
    }
}

// ---------------------------------------------------------------------
// structural properties of the emitted module

#[test]
fn identifiers_are_dense_and_distinct() {
    // two data variables receive ids 0 and 1, in order
    let exprs = vec![
        TypedExpr {
            ty: ClarityType::NoType,
            kind: ExprKind::DefineDataVar("x".to_string(), Box::new(uint_lit(1))),
        },
        TypedExpr {
            ty: ClarityType::NoType,
            kind: ExprKind::DefineDataVar("y".to_string(), Box::new(uint_lit(2))),
        },
    ];
    let m = generate(analysis(exprs, vec![], vec![], vec![])).unwrap();
    let mut machine = Machine::new(&m);
    machine.run_top_level();
    let mut ids: Vec<i32> = machine.vars.keys().copied().collect();
    ids.sort();
    assert_eq!(ids, vec![0, 1]);
    assert_eq!(machine.vars[&0], u128_mem_bytes(1));
    assert_eq!(machine.vars[&1], u128_mem_bytes(2));
}

// the value as it lies in linear memory: high half first, each half
// little-endian
fn u128_mem_bytes(v: u128) -> Vec<u8> {
    let mut out = Vec::new();
    out.extend_from_slice(&((v >> 64) as u64).to_le_bytes());
    out.extend_from_slice(&(v as u64).to_le_bytes());
    out
}

#[test]
fn exports_cover_public_and_read_only_only() {
    let private = TypedExpr {
        ty: ClarityType::IntType,
        kind: ExprKind::DefinePrivate("hidden".to_string(), Box::new(int_lit(1))),
    };
    let ro = TypedExpr {
        ty: ClarityType::IntType,
        kind: ExprKind::DefineReadOnly("seen".to_string(), Box::new(int_lit(2))),
    };
    let public = TypedExpr {
        ty: ClarityType::IntType,
        kind: ExprKind::DefinePublic("also-seen".to_string(), Box::new(int_lit(3))),
    };
    let m = generate(analysis(
        vec![private, ro, public],
        vec![("hidden".to_string(), fixed(vec![], ClarityType::IntType))],
        vec![("seen".to_string(), fixed(vec![], ClarityType::IntType))],
        vec![("also-seen".to_string(), fixed(vec![], ClarityType::IntType))],
    ))
    .unwrap();
    let names: Vec<&str> = m.exports.iter().map(|e| e.name.as_str()).collect();
    assert!(names.contains(&"seen"));
    assert!(names.contains(&"also-seen"));
    assert!(names.contains(&".top-level"));
    assert!(!names.contains(&"hidden"));
}

#[test]
fn data_segments_do_not_overlap() {
    let body = TypedExpr {
        ty: ClarityType::StringAscii(8),
        kind: ExprKind::Concat(Box::new(ascii_lit("abcd")), Box::new(ascii_lit("efgh"))),
    };
    let go = TypedExpr {
        ty: ClarityType::StringAscii(8),
        kind: ExprKind::DefineReadOnly("go".to_string(), Box::new(body)),
    };
    let var = TypedExpr {
        ty: ClarityType::NoType,
        kind: ExprKind::DefineDataVar("x".to_string(), Box::new(uint_lit(9))),
    };
    let m = generate(analysis(
        vec![var, go],
        vec![],
        vec![("go".to_string(), fixed(vec![], ClarityType::StringAscii(8)))],
        vec![],
    ))
    .unwrap();
    let mut segs: Vec<(u32, u32)> =
        m.data.iter().map(|d| (d.offset, d.bytes.len() as u32)).collect();
    segs.sort();
    for w in segs.windows(2) {
        assert!(w[0].0 + w[0].1 <= w[1].0, "segments overlap: {:?}", segs);
    }
}

#[test]
fn generated_functions_save_and_restore_the_stack_pointer() {
    let body = TypedExpr {
        ty: ClarityType::IntType,
        kind: ExprKind::Arith(clar2wasm::ast::ArithOp::Add, vec![int_lit(1), int_lit(2)]),
    };
    let go = TypedExpr {
        ty: ClarityType::IntType,
        kind: ExprKind::DefineReadOnly("go".to_string(), Box::new(body)),
    };
    let m = generate(analysis(
        vec![go],
        vec![],
        vec![("go".to_string(), fixed(vec![], ClarityType::IntType))],
        vec![],
    ))
    .unwrap();
    let fid = m.exports.iter().find(|e| e.name == "go").unwrap().func;
    match &m.funcs[fid].body {
        FuncBody::Defined(code) => {
            assert_eq!(code.len(), 5);
            assert!(matches!(code[0], Instr::GlobalGet(0)));
            let fp = match code[1] {
                Instr::LocalSet(fp) => fp,
                ref other => panic!("expected the frame pointer save, found {other:?}"),
            };
            assert!(matches!(code[2], Instr::Block { .. }));
            assert!(matches!(code[3], Instr::LocalGet(p) if p == fp));
            assert!(matches!(code[4], Instr::GlobalSet(0)));
        }
        FuncBody::External => panic!("expected a defined function"),
    }
}

#[test]
fn ok_and_err_responses_carry_discriminant_and_placeholders() {
    // (ok 5) at (response int int): [1, 5, 0]; (err 9): [0, 0, 9]
    let resp = ClarityType::Response(
        Box::new(ClarityType::IntType),
        Box::new(ClarityType::IntType),
    );
    for (make_err, expected_flag, expected_ok, expected_err) in
        [(false, 1i64, 5i128, 0i128), (true, 0i64, 0i128, 9i128)]
    {
        let inner = int_lit(if make_err { 9 } else { 5 });
        let body = TypedExpr {
            ty: clone_type(&resp),
            kind: if make_err {
                ExprKind::ErrCons(Box::new(inner))
            } else {
                ExprKind::OkCons(Box::new(inner))
            },
        };
        let go = TypedExpr {
            ty: clone_type(&resp),
            kind: ExprKind::DefineReadOnly("go".to_string(), Box::new(body)),
        };
        let m = generate(analysis(
            vec![go],
            vec![],
            vec![("go".to_string(), fixed(vec![], clone_type(&resp)))],
            vec![],
        ))
        .unwrap();
        let mut machine = Machine::new(&m);
        machine.run_top_level();
        let out = machine.call_export("go", vec![]);
        assert_eq!(out.len(), 5);
        assert_eq!(out[0], expected_flag);
        assert_eq!(assemble_i128(out[1], out[2]), expected_ok);
        assert_eq!(assemble_i128(out[3], out[4]), expected_err);
    }
}

fn clone_type(t: &ClarityType) -> ClarityType {
    match t {
        ClarityType::Response(a, b) => {
            ClarityType::Response(Box::new(clone_type(a)), Box::new(clone_type(b)))
        }
        ClarityType::IntType => ClarityType::IntType,
        ClarityType::UIntType => ClarityType::UIntType,
        ClarityType::NoType => ClarityType::NoType,
        ClarityType::StringAscii(n) => ClarityType::StringAscii(*n),
        ClarityType::StringUtf8(n) => ClarityType::StringUtf8(*n),
        ClarityType::List(e, n) => ClarityType::List(Box::new(clone_type(e)), *n),
    }
}

#[test]
fn calling_a_user_defined_function_passes_arguments() {
    // (define-private (dbl (a int)) (* a 2)); (define-read-only (go) (dbl 21)) => 42
    let dbl_body = TypedExpr {
        ty: ClarityType::IntType,
        kind: ExprKind::Arith(
            clar2wasm::ast::ArithOp::Multiply,
            vec![int_atom("a"), int_lit(2)],
        ),
    };
    let dbl = TypedExpr {
        ty: ClarityType::IntType,
        kind: ExprKind::DefinePrivate("dbl".to_string(), Box::new(dbl_body)),
    };
    let go_body = TypedExpr {
        ty: ClarityType::IntType,
        kind: ExprKind::CallUserDefined("dbl".to_string(), vec![int_lit(21)]),
    };
    let go = TypedExpr {
        ty: ClarityType::IntType,
        kind: ExprKind::DefineReadOnly("go".to_string(), Box::new(go_body)),
    };
    let m = generate(analysis(
        vec![dbl, go],
        vec![("dbl".to_string(), fixed(vec![int_arg("a")], ClarityType::IntType))],
        vec![("go".to_string(), fixed(vec![], ClarityType::IntType))],
        vec![],
    ))
    .unwrap();
    let mut machine = Machine::new(&m);
    machine.run_top_level();
    let out = machine.call_export("go", vec![]);
    assert_eq!(result_i128(&out), 42);
}

#[test]
fn utf8_literals_flatten_their_character_groups() {
    // the per-character byte groups land contiguously, in order
    let groups: Vec<Vec<u8>> = vec![vec![0x61], vec![0xC3, 0xA9], vec![0x62]];
    let lit = TypedExpr {
        ty: ClarityType::StringUtf8(4),
        kind: ExprKind::Literal(LiteralValue::Utf8(groups)),
    };
    let go = TypedExpr {
        ty: ClarityType::StringUtf8(4),
        kind: ExprKind::DefineReadOnly("go".to_string(), Box::new(lit)),
    };
    let m = generate(analysis(
        vec![go],
        vec![],
        vec![("go".to_string(), fixed(vec![], ClarityType::StringUtf8(4)))],
        vec![],
    ))
    .unwrap();
    let mut machine = Machine::new(&m);
    machine.run_top_level();
    let out = machine.call_export("go", vec![]);
    let (offset, len) = (out[0] as u32 as usize, out[1] as u32 as usize);
    assert_eq!(len, 4);
    assert_eq!(&machine.memory[offset..offset + 4], &[0x61, 0xC3, 0xA9, 0x62]);
}

// ---------------------------------------------------------------------
// errors

#[test]
fn unsupported_forms_are_not_implemented() {
    let e = TypedExpr { ty: ClarityType::NoType, kind: ExprKind::Unsupported };
    match generate(analysis(vec![e], vec![], vec![], vec![])) {
        Err(GeneratorError::NotImplemented) => {}
        other => panic!("expected NotImplemented, found {other:?}"),
    }
}

#[test]
fn unknown_variable_is_an_internal_error() {
    let e = TypedExpr {
        ty: ClarityType::UIntType,
        kind: ExprKind::VarGet("missing".to_string()),
    };
    let go = TypedExpr {
        ty: ClarityType::UIntType,
        kind: ExprKind::DefineReadOnly("go".to_string(), Box::new(e)),
    };
    match generate(analysis(
        vec![go],
        vec![],
        vec![("go".to_string(), fixed(vec![], ClarityType::UIntType))],
        vec![],
    )) {
        Err(GeneratorError::InternalError(_)) => {}
        other => panic!("expected an internal error, found {other:?}"),
    }
}

#[test]
fn missing_function_type_is_an_internal_error() {
    let go = TypedExpr {
        ty: ClarityType::IntType,
        kind: ExprKind::DefineReadOnly("go".to_string(), Box::new(int_lit(1))),
    };
    match generate(analysis(vec![go], vec![], vec![], vec![])) {
        Err(GeneratorError::InternalError(_)) => {}
        other => panic!("expected an internal error, found {other:?}"),
    }
}

#[test]
fn error_messages_name_their_kind() {
    assert_eq!(GeneratorError::NotImplemented.message(), "Not implemented");
    assert_eq!(
        GeneratorError::InternalError("variable not found".to_string()).message(),
        "Internal error: variable not found"
    );
    assert!(GeneratorError::NotImplemented.suggestion().is_none());
}
