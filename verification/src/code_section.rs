//! The code section: one size-prefixed body per function, each holding a
//! run-length-encoded locals declaration and an instruction sequence closed
//! by an explicit `End` marker.

use crate::error::DecodeError;
use crate::instruction::Instruction;
use crate::instruction::InstructionV;
use crate::instruction::instrs_view;
use crate::instruction::parse_block;
use crate::instruction::sp_instr_seq;
use crate::leb128::parse_leb_u32;
use crate::leb128::sp_leb_u32;
use crate::types::ValueType;
use crate::types::parse_value_type;
use crate::types::sp_value_type;
use vstd::prelude::*;

verus! {

/// A run-length-encoded group of same-typed locals: `count` locals of one
/// value type, not one record per local.
#[derive(Debug, Clone, Copy, PartialEq, Eq, Structural)]
pub struct FunctionLocal {
    pub count: u32,
    pub value_type: ValueType,
}

/// One decoded function body: its declared locals and its instructions.
#[derive(Debug, PartialEq, Eq)]
pub struct Function {
    pub locals: Vec<FunctionLocal>,
    pub code: Vec<Instruction>,
}

/// The mathematical model of a [`Function`].
#[verifier::ext_equal]
pub struct FunctionV {
    pub locals: Seq<FunctionLocal>,
    pub code: Seq<InstructionV>,
}

impl View for Function {
    type V = FunctionV;

    open spec fn view(&self) -> FunctionV {
        FunctionV { locals: self.locals@, code: instrs_view(self.code@) }
    }
}

/// The models of a sequence of function bodies, element by element.
pub open spec fn functions_view(s: Seq<Function>) -> Seq<FunctionV> {
    Seq::new(s.len(), |i: int| s[i]@)
}

/// The decoded code section: the function bodies, in positional
/// correspondence with the function section's type indices.
#[derive(Debug, PartialEq, Eq)]
pub struct CodeSection {
    pub functions: Vec<Function>,
}

/// The mathematical model of a [`CodeSection`].
#[verifier::ext_equal]
pub struct CodeSectionV {
    pub functions: Seq<FunctionV>,
}

impl View for CodeSection {
    type V = CodeSectionV;

    open spec fn view(&self) -> CodeSectionV {
        CodeSectionV { functions: functions_view(self.functions@) }
    }
}

/// One locals group at `pos`: a count and a value type.
pub open spec fn sp_function_local(s: Seq<u8>, pos: int, end: int) -> Result<
    (FunctionLocal, int),
    DecodeError,
> {
    match sp_leb_u32(s, pos, end) {
        Ok((count, p)) => match sp_value_type(s, p, end) {
            Ok((vt, p2)) => Ok((FunctionLocal { count, value_type: vt }, p2)),
            Err(e) => Err(e),
        },
        Err(e) => Err(e),
    }
}

/// A sequence of exactly `n` locals groups starting at `pos`.
pub open spec fn sp_locals_n(s: Seq<u8>, pos: int, end: int, n: nat) -> Result<
    (Seq<FunctionLocal>, int),
    DecodeError,
>
    decreases n,
{
    if n == 0 {
        Ok((seq![], pos))
    } else {
        match sp_function_local(s, pos, end) {
            Ok((v, p)) => match sp_locals_n(s, p, end, (n - 1) as nat) {
                Ok((vs, p2)) => Ok((seq![v] + vs, p2)),
                Err(e) => Err(e),
            },
            Err(e) => Err(e),
        }
    }
}

/// A counted vector of locals groups.
pub open spec fn sp_locals_vec(s: Seq<u8>, pos: int, end: int) -> Result<
    (Seq<FunctionLocal>, int),
    DecodeError,
> {
    match sp_leb_u32(s, pos, end) {
        Ok((n, p)) => sp_locals_n(s, p, end, n as nat),
        Err(e) => Err(e),
    }
}

/// One code-section entry at `pos`: a byte-size prefix, then, within
/// exactly that many bytes, a locals vector and an instruction sequence
/// closed by `End` at depth zero. Bytes left in the declared range after
/// the terminating `End` are tolerated and skipped — trailing padding does
/// not abort an otherwise well-formed body — so the cursor always advances
/// to the end of the declared range.
pub open spec fn sp_function(s: Seq<u8>, pos: int, end: int) -> Result<
    (FunctionV, int),
    DecodeError,
> {
    match sp_leb_u32(s, pos, end) {
        Ok((size, p)) => if p + size > end {
            Err(DecodeError::TruncatedFunctionBody)
        } else {
            let body_end = p + size;
            match sp_locals_vec(s, p, body_end) {
                Ok((locals, lp)) => match sp_instr_seq(s, lp, body_end) {
                    Ok((code, p2, term)) => if term == 0x0B {
                        Ok((FunctionV { locals, code }, body_end))
                    } else {
                        Err(DecodeError::UnknownOpcode(0x05))
                    },
                    Err(e) => Err(e),
                },
                Err(e) => Err(e),
            }
        },
        Err(e) => Err(e),
    }
}

/// A sequence of exactly `n` code-section entries starting at `pos`.
pub open spec fn sp_functions_n(s: Seq<u8>, pos: int, end: int, n: nat) -> Result<
    (Seq<FunctionV>, int),
    DecodeError,
>
    decreases n,
{
    if n == 0 {
        Ok((seq![], pos))
    } else {
        match sp_function(s, pos, end) {
            Ok((v, p)) => match sp_functions_n(s, p, end, (n - 1) as nat) {
                Ok((vs, p2)) => Ok((seq![v] + vs, p2)),
                Err(e) => Err(e),
            },
            Err(e) => Err(e),
        }
    }
}

/// The content of a code section body at `pos`: a counted vector of
/// function bodies.
pub open spec fn sp_code_section(s: Seq<u8>, pos: int, end: int) -> Result<
    (CodeSectionV, int),
    DecodeError,
> {
    match sp_leb_u32(s, pos, end) {
        Ok((n, p)) => match sp_functions_n(s, p, end, n as nat) {
            Ok((vs, p2)) => Ok((CodeSectionV { functions: vs }, p2)),
            Err(e) => Err(e),
        },
        Err(e) => Err(e),
    }
}

/// Decodes one locals group at `pos`.
pub fn parse_function_local(input: &[u8], pos: usize, end: usize) -> (r: Result<
    (FunctionLocal, usize),
    DecodeError,
>)
    requires
        pos <= end <= input@.len(),
    ensures
        match r {
            Ok((v, p)) => sp_function_local(input@, pos as int, end as int) == Ok::<
                (FunctionLocal, int),
                DecodeError,
            >((v, p as int)) && pos < p <= end,
            Err(e) => sp_function_local(input@, pos as int, end as int) == Err::<
                (FunctionLocal, int),
                DecodeError,
            >(e),
        },
{
    let (count, p) = match parse_leb_u32(input, pos, end) {
        Ok(x) => x,
        Err(e) => {
            return Err(e);
        },
    };
    match parse_value_type(input, p, end) {
        Ok((vt, p2)) => Ok((FunctionLocal { count, value_type: vt }, p2)),
        Err(e) => Err(e),
    }
}

/// Decodes a counted vector of locals groups at `pos`.
#[verifier::loop_isolation(false)]
fn parse_locals_vec(input: &[u8], pos: usize, end: usize) -> (r: Result<
    (Vec<FunctionLocal>, usize),
    DecodeError,
>)
    requires
        pos <= end <= input@.len(),
    ensures
        match r {
            Ok((v, p)) => sp_locals_vec(input@, pos as int, end as int) == Ok::<
                (Seq<FunctionLocal>, int),
                DecodeError,
            >((v@, p as int)) && pos < p <= end,
            Err(e) => sp_locals_vec(input@, pos as int, end as int) == Err::<
                (Seq<FunctionLocal>, int),
                DecodeError,
            >(e),
        },
{
    let (n, mut cur) = match parse_leb_u32(input, pos, end) {
        Ok(x) => x,
        Err(e) => {
            return Err(e);
        },
    };
    let mut out: Vec<FunctionLocal> = Vec::new();
    let mut i: u32 = 0;
    proof {
        match sp_locals_n(input@, cur as int, end as int, n as nat) {
            Ok((vs, p2)) => {
                assert(out@ + vs =~= vs);
            },
            Err(_) => {},
        }
    }
    while i < n
        invariant
            i <= n,
            pos < cur <= end,
            match sp_locals_n(input@, cur as int, end as int, (n - i) as nat) {
                Ok((vs, p2)) => sp_locals_vec(input@, pos as int, end as int) == Ok::<
                    (Seq<FunctionLocal>, int),
                    DecodeError,
                >((out@ + vs, p2)),
                Err(e) => sp_locals_vec(input@, pos as int, end as int) == Err::<
                    (Seq<FunctionLocal>, int),
                    DecodeError,
                >(e),
            },
        decreases n - i,
    {
        match parse_function_local(input, cur, end) {
            Ok((v, p)) => {
                proof {
                    match sp_locals_n(input@, p as int, end as int, (n - i - 1) as nat) {
                        Ok((vs, p2)) => {
                            assert(out@ + (seq![v] + vs) =~= out@.push(v) + vs);
                        },
                        Err(_) => {},
                    }
                }
                out.push(v);
                cur = p;
                i = i + 1;
            },
            Err(e) => {
                return Err(e);
            },
        }
    }
    proof {
        assert(out@ + seq![] =~= out@);
    }
    Ok((out, cur))
}

/// Decodes one code-section entry at `pos`: its declared byte size, its
/// locals, and its instructions up to the `End` that closes the body.
pub fn parse_function(input: &[u8], pos: usize, end: usize) -> (r: Result<
    (Function, usize),
    DecodeError,
>)
    requires
        pos <= end <= input@.len(),
    ensures
        match r {
            Ok((v, p)) => sp_function(input@, pos as int, end as int) == Ok::<
                (FunctionV, int),
                DecodeError,
            >((v@, p as int)) && pos < p <= end,
            Err(e) => sp_function(input@, pos as int, end as int) == Err::<
                (FunctionV, int),
                DecodeError,
            >(e),
        },
{
    let (size, p) = match parse_leb_u32(input, pos, end) {
        Ok(x) => x,
        Err(e) => {
            return Err(e);
        },
    };
    if (size as usize) > end - p {
        return Err(DecodeError::TruncatedFunctionBody);
    }
    let body_end = p + (size as usize);
    let (locals, lp) = match parse_locals_vec(input, p, body_end) {
        Ok(x) => x,
        Err(e) => {
            return Err(e);
        },
    };
    match parse_block(input, lp, body_end) {
        Ok((code, p2, term)) => {
            if term == 0x0B {
                Ok((Function { locals, code }, body_end))
            } else {
                Err(DecodeError::UnknownOpcode(0x05))
            }
        },
        Err(e) => Err(e),
    }
}

/// Decodes a code section body: a counted vector of function bodies.
#[verifier::loop_isolation(false)]
pub fn parse_code_section(input: &[u8], pos: usize, end: usize) -> (r: Result<
    (CodeSection, usize),
    DecodeError,
>)
    requires
        pos <= end <= input@.len(),
    ensures
        match r {
            Ok((v, p)) => sp_code_section(input@, pos as int, end as int) == Ok::<
                (CodeSectionV, int),
                DecodeError,
            >((v@, p as int)) && pos < p <= end,
            Err(e) => sp_code_section(input@, pos as int, end as int) == Err::<
                (CodeSectionV, int),
                DecodeError,
            >(e),
        },
{
    let (n, mut cur) = match parse_leb_u32(input, pos, end) {
        Ok(x) => x,
        Err(e) => {
            return Err(e);
        },
    };
    let mut out: Vec<Function> = Vec::new();
    let mut i: u32 = 0;
    proof {
        match sp_functions_n(input@, cur as int, end as int, n as nat) {
            Ok((vs, p2)) => {
                assert(functions_view(out@) + vs =~= vs);
            },
            Err(_) => {},
        }
    }
    while i < n
        invariant
            i <= n,
            pos < cur <= end,
            match sp_functions_n(input@, cur as int, end as int, (n - i) as nat) {
                Ok((vs, p2)) => sp_code_section(input@, pos as int, end as int) == Ok::<
                    (CodeSectionV, int),
                    DecodeError,
                >((CodeSectionV { functions: functions_view(out@) + vs }, p2)),
                Err(e) => sp_code_section(input@, pos as int, end as int) == Err::<
                    (CodeSectionV, int),
                    DecodeError,
                >(e),
            },
        decreases n - i,
    {
        match parse_function(input, cur, end) {
            Ok((v, p)) => {
                proof {
                    match sp_functions_n(input@, p as int, end as int, (n - i - 1) as nat) {
                        Ok((vs, p2)) => {
                            assert(functions_view(out@) + (seq![v@] + vs) =~= functions_view(
                                out@.push(v),
                            ) + vs);
                        },
                        Err(_) => {},
                    }
                }
                out.push(v);
                cur = p;
                i = i + 1;
            },
            Err(e) => {
                return Err(e);
            },
        }
    }
    proof {
        assert(functions_view(out@) + seq![] =~= functions_view(out@));
    }
    Ok((CodeSection { functions: out }, cur))
}

} // verus!
