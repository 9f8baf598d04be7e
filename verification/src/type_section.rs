//! The type section: an ordered vector of function signatures.

use crate::error::DecodeError;
use crate::leb128::sp_leb_u32;
use crate::leb128::parse_leb_u32;
use crate::types::ValueType;
use crate::types::parse_value_type_vec;
use crate::types::sp_value_type_vec;
use vstd::prelude::*;

verus! {

/// A function signature: ordered parameter and result value-type sequences.
/// Arbitrary arity is permitted; empty sequences are valid and common.
#[derive(Debug, Clone, PartialEq, Eq)]
pub struct FuncType {
    pub params: Vec<ValueType>,
    pub results: Vec<ValueType>,
}

/// The mathematical model of a [`FuncType`].
#[verifier::ext_equal]
pub struct FuncTypeV {
    pub params: Seq<ValueType>,
    pub results: Seq<ValueType>,
}

impl View for FuncType {
    type V = FuncTypeV;

    open spec fn view(&self) -> FuncTypeV {
        FuncTypeV { params: self.params@, results: self.results@ }
    }
}

/// The models of a sequence of function signatures, element by element.
pub open spec fn func_types_view(s: Seq<FuncType>) -> Seq<FuncTypeV> {
    Seq::new(s.len(), |i: int| s[i]@)
}

/// The decoded type section: the module's function signatures, in insertion
/// order. Order is semantically significant, since later references go by
/// index into this sequence.
#[derive(Debug, Clone, PartialEq, Eq)]
pub struct TypeSection {
    pub function_types: Vec<FuncType>,
}

/// The mathematical model of a [`TypeSection`].
#[verifier::ext_equal]
pub struct TypeSectionV {
    pub function_types: Seq<FuncTypeV>,
}

impl View for TypeSection {
    type V = TypeSectionV;

    open spec fn view(&self) -> TypeSectionV {
        TypeSectionV { function_types: func_types_view(self.function_types@) }
    }
}

/// One function-type record at `pos`: the fixed tag byte `0x60`, then a
/// parameter vector and a result vector.
pub open spec fn sp_func_type(s: Seq<u8>, pos: int, end: int) -> Result<
    (FuncTypeV, int),
    DecodeError,
> {
    if pos >= end {
        Err(DecodeError::TruncatedInput)
    } else if s[pos] != 0x60 {
        Err(DecodeError::InvalidFuncTypeTag(s[pos]))
    } else {
        match sp_value_type_vec(s, pos + 1, end) {
            Ok((params, p)) => match sp_value_type_vec(s, p, end) {
                Ok((results, p2)) => Ok((FuncTypeV { params, results }, p2)),
                Err(e) => Err(e),
            },
            Err(e) => Err(e),
        }
    }
}

/// A sequence of exactly `n` function-type records starting at `pos`.
pub open spec fn sp_func_types_n(s: Seq<u8>, pos: int, end: int, n: nat) -> Result<
    (Seq<FuncTypeV>, int),
    DecodeError,
>
    decreases n,
{
    if n == 0 {
        Ok((seq![], pos))
    } else {
        match sp_func_type(s, pos, end) {
            Ok((v, p)) => match sp_func_types_n(s, p, end, (n - 1) as nat) {
                Ok((vs, p2)) => Ok((seq![v] + vs, p2)),
                Err(e) => Err(e),
            },
            Err(e) => Err(e),
        }
    }
}

/// The content of a type section body at `pos`: a counted vector of
/// function-type records.
pub open spec fn sp_type_section(s: Seq<u8>, pos: int, end: int) -> Result<
    (TypeSectionV, int),
    DecodeError,
> {
    match sp_leb_u32(s, pos, end) {
        Ok((n, p)) => match sp_func_types_n(s, p, end, n as nat) {
            Ok((vs, p2)) => Ok((TypeSectionV { function_types: vs }, p2)),
            Err(e) => Err(e),
        },
        Err(e) => Err(e),
    }
}

/// Decodes one function-type record at `pos`.
fn parse_function_type(input: &[u8], pos: usize, end: usize) -> (r: Result<
    (FuncType, usize),
    DecodeError,
>)
    requires
        pos <= end <= input@.len(),
    ensures
        match r {
            Ok((v, p)) => sp_func_type(input@, pos as int, end as int) == Ok::<
                (FuncTypeV, int),
                DecodeError,
            >((v@, p as int)) && pos < p <= end,
            Err(e) => sp_func_type(input@, pos as int, end as int) == Err::<
                (FuncTypeV, int),
                DecodeError,
            >(e),
        },
{
    if pos >= end {
        return Err(DecodeError::TruncatedInput);
    }
    let b = input[pos];
    if b != 0x60 {
        return Err(DecodeError::InvalidFuncTypeTag(b));
    }
    let (params, p) = match parse_value_type_vec(input, pos + 1, end) {
        Ok(x) => x,
        Err(e) => {
            return Err(e);
        },
    };
    let (results, p2) = match parse_value_type_vec(input, p, end) {
        Ok(x) => x,
        Err(e) => {
            return Err(e);
        },
    };
    Ok((FuncType { params, results }, p2))
}

/// Decodes a type section body: a counted vector of function signatures.
#[verifier::loop_isolation(false)]
pub fn parse_type_section(input: &[u8], pos: usize, end: usize) -> (r: Result<
    (TypeSection, usize),
    DecodeError,
>)
    requires
        pos <= end <= input@.len(),
    ensures
        match r {
            Ok((v, p)) => sp_type_section(input@, pos as int, end as int) == Ok::<
                (TypeSectionV, int),
                DecodeError,
            >((v@, p as int)) && pos <= p <= end,
            Err(e) => sp_type_section(input@, pos as int, end as int) == Err::<
                (TypeSectionV, int),
                DecodeError,
            >(e),
        },
{
    let (n, mut cur) = match parse_leb_u32(input, pos, end) {
        Ok(x) => x,
        Err(e) => {
            return Err(e);
        },
    };
    let mut out: Vec<FuncType> = Vec::new();
    let mut i: u32 = 0;
    proof {
        match sp_func_types_n(input@, cur as int, end as int, n as nat) {
            Ok((vs, p2)) => {
                assert(func_types_view(out@) + vs =~= vs);
            },
            Err(_) => {},
        }
    }
    while i < n
        invariant
            i <= n,
            pos < cur <= end,
            match sp_func_types_n(input@, cur as int, end as int, (n - i) as nat) {
                Ok((vs, p2)) => sp_type_section(input@, pos as int, end as int) == Ok::<
                    (TypeSectionV, int),
                    DecodeError,
                >((TypeSectionV { function_types: func_types_view(out@) + vs }, p2)),
                Err(e) => sp_type_section(input@, pos as int, end as int) == Err::<
                    (TypeSectionV, int),
                    DecodeError,
                >(e),
            },
        decreases n - i,
    {
        match parse_function_type(input, cur, end) {
            Ok((v, p)) => {
                proof {
                    match sp_func_types_n(input@, p as int, end as int, (n - i - 1) as nat) {
                        Ok((vs, p2)) => {
                            assert(func_types_view(out@) + (seq![v@] + vs) =~= func_types_view(
                                out@.push(v),
                            ) + vs);
                        },
                        Err(_) => {},
                    }
                }
                out.push(v);
                cur = p;
                i = i + 1;
            },
            Err(e) => {
                return Err(e);
            },
        }
    }
    proof {
        assert(func_types_view(out@) + seq![] =~= func_types_view(out@));
    }
    Ok((TypeSection { function_types: out }, cur))
}

} // verus!
