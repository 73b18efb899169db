//! Source types, their lowered value-stack shapes and byte widths, and the
//! generation error type.

use vstd::prelude::*;

verus! {

/// Scalar kinds of the target value stack.
#[derive(Clone, Copy, PartialEq, Eq, Structural, Debug)]
pub enum WasmValType {
    I32,
    I64,
}

/// The source-language types that the generator recognizes.
///
/// Lengths are element or byte counts: `StringAscii(n)` holds at most `n`
/// bytes, `List(t, n)` holds exactly `n` elements of type `t` once built.
#[derive(Debug, PartialEq, Eq)]
pub enum ClarityType {
    NoType,
    IntType,
    UIntType,
    StringAscii(u32),
    StringUtf8(u32),
    List(Box<ClarityType>, u32),
    Response(Box<ClarityType>, Box<ClarityType>),
}

/// An error recorded during generation: either a recognized construct that
/// has no lowering yet, or a broken internal invariant (a type-checker bug,
/// a missing helper or local).
#[derive(Debug)]
pub enum GeneratorError {
    NotImplemented,
    InternalError(String),
}

/// The value-stack shape of a source type: the ordered scalar kinds that
/// represent one value of that type on the target value stack.
pub open spec fn slots_spec(t: ClarityType) -> Seq<WasmValType>
    decreases t,
{
    match t {
        ClarityType::NoType => seq![WasmValType::I32],
        ClarityType::IntType => seq![WasmValType::I64, WasmValType::I64],
        ClarityType::UIntType => seq![WasmValType::I64, WasmValType::I64],
        ClarityType::Response(ok_ty, err_ty) => seq![WasmValType::I32] + slots_spec(*ok_ty)
            + slots_spec(*err_ty),
        ClarityType::StringAscii(_) => seq![WasmValType::I32, WasmValType::I32],
        ClarityType::StringUtf8(_) => seq![WasmValType::I32, WasmValType::I32],
        ClarityType::List(_, _) => seq![WasmValType::I32, WasmValType::I32],
    }
}

/// Maps a source type to the sequence of target value types needed to
/// represent one value of it on the value stack.
pub fn clar2wasm_ty(t: &ClarityType) -> (r: Vec<WasmValType>)
    ensures
        r@ == slots_spec(*t),
    decreases *t,
{
    match t {
        ClarityType::NoType => {
            let r = vec![WasmValType::I32];
            proof {
                assert(r@ =~= slots_spec(*t));
            }
            r
        },
        ClarityType::IntType | ClarityType::UIntType => {
            let r = vec![WasmValType::I64, WasmValType::I64];
            proof {
                assert(r@ =~= slots_spec(*t));
            }
            r
        },
        ClarityType::Response(ok_ty, err_ty) => {
            let mut r = vec![WasmValType::I32];
            let mut ok_slots = clar2wasm_ty(ok_ty);
            let mut err_slots = clar2wasm_ty(err_ty);
            r.append(&mut ok_slots);
            r.append(&mut err_slots);
            proof {
                assert(r@ =~= slots_spec(*t));
            }
            r
        },
        ClarityType::StringAscii(_)
        | ClarityType::StringUtf8(_)
        | ClarityType::List(_, _) => {
            let r = vec![WasmValType::I32, WasmValType::I32];
            proof {
                assert(r@ =~= slots_spec(*t));
            }
            r
        },
    }
}

/// Whether a source type has a defined byte width in linear memory.
pub open spec fn has_size(t: ClarityType) -> bool
    decreases t,
{
    match t {
        ClarityType::IntType => true,
        ClarityType::UIntType => true,
        ClarityType::StringAscii(_) => true,
        ClarityType::List(elem_ty, _) => has_size(*elem_ty),
        _ => false,
    }
}

/// The byte width of a source type in linear memory (meaningful only when
/// `has_size` holds).
pub open spec fn type_size_spec(t: ClarityType) -> nat
    decreases t,
{
    match t {
        ClarityType::IntType => 16,
        ClarityType::UIntType => 16,
        ClarityType::StringAscii(n) => n as nat,
        ClarityType::List(elem_ty, n) => (n * type_size_spec(*elem_ty)) as nat,
        _ => 0,
    }
}

/// Whether a type's byte width, and the widths of all its element types,
/// fit the 32-bit address space.
pub open spec fn size_fits(t: ClarityType) -> bool
    decreases t,
{
    match t {
        ClarityType::List(elem_ty, n) => size_fits(*elem_ty) && n * type_size_spec(*elem_ty)
            <= u32::MAX,
        _ => true,
    }
}

/// Computes the byte width of a source type.  Types without a width yield
/// `NotImplemented`; a width beyond the 32-bit address space yields an
/// internal error.
pub fn get_type_size(t: &ClarityType) -> (r: Result<u32, GeneratorError>)
    ensures
        r.is_ok() <==> has_size(*t) && size_fits(*t),
        r.is_ok() ==> r->Ok_0 == type_size_spec(*t),
        !has_size(*t) ==> r matches Err(GeneratorError::NotImplemented),
    decreases *t,
{
    match t {
        ClarityType::IntType | ClarityType::UIntType => Ok(16),
        ClarityType::StringAscii(n) => Ok(*n),
        ClarityType::List(elem_ty, n) => {
            match get_type_size(elem_ty) {
                Ok(elem_size) => {
                    match n.checked_mul(elem_size) {
                        Some(total) => {
                            proof {
                                assert(total == type_size_spec(*t));
                            }
                            Ok(total)
                        },
                        None => Err(GeneratorError::InternalError(
                            "type size exceeds the address space".to_owned(),
                        )),
                    }
                },
                Err(e) => Err(e),
            }
        },
        _ => Err(GeneratorError::NotImplemented),
    }
}

/// Relies on `String::push_str`: appends the bytes of `s` to `dst`.
#[verifier::external_body]
pub(crate) fn string_push_str(dst: &mut String, s: &str)
    ensures
        final(dst)@ == old(dst)@ + s@,
{
    dst.push_str(s);
}

/// The text of a generation error.
pub open spec fn message_spec(e: GeneratorError) -> Seq<char> {
    match e {
        GeneratorError::NotImplemented => "Not implemented"@,
        GeneratorError::InternalError(msg) => "Internal error: "@ + msg@,
    }
}

impl GeneratorError {
    /// A human-readable description of the error.
    pub fn message(&self) -> (r: String)
        ensures
            r@ == message_spec(*self),
    {
        match self {
            GeneratorError::NotImplemented => "Not implemented".to_owned(),
            GeneratorError::InternalError(msg) => {
                let mut s = "Internal error: ".to_owned();
                string_push_str(&mut s, msg.as_str());
                s
            },
        }
    }

    /// A suggested fix; generation errors carry none.
    pub fn suggestion(&self) -> (r: Option<String>)
        ensures
            r is None,
    {
        None
    }
}

} // verus!
