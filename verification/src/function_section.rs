//! The function section: the type index of each function, in the order the
//! code section later gives their bodies.

use crate::error::DecodeError;
use crate::leb128::parse_u32_vec;
use crate::leb128::sp_u32_vec;
use vstd::prelude::*;

verus! {

/// The decoded function section. Each entry is an index into the type
/// section's signatures; the decoder does not range-check the indices,
/// that being the validator's job.
#[derive(Debug, Clone, PartialEq, Eq)]
pub struct FunctionSection {
    pub type_indices: Vec<u32>,
}

/// The mathematical model of a [`FunctionSection`].
#[verifier::ext_equal]
pub struct FunctionSectionV {
    pub type_indices: Seq<u32>,
}

impl View for FunctionSection {
    type V = FunctionSectionV;

    open spec fn view(&self) -> FunctionSectionV {
        FunctionSectionV { type_indices: self.type_indices@ }
    }
}

/// The content of a function section body at `pos`: a counted vector of
/// type indices.
pub open spec fn sp_function_section(s: Seq<u8>, pos: int, end: int) -> Result<
    (FunctionSectionV, int),
    DecodeError,
> {
    match sp_u32_vec(s, pos, end) {
        Ok((vs, p)) => Ok((FunctionSectionV { type_indices: vs }, p)),
        Err(e) => Err(e),
    }
}

/// Decodes a function section body: a counted vector of type indices.
pub fn parse_function_section(input: &[u8], pos: usize, end: usize) -> (r: Result<
    (FunctionSection, usize),
    DecodeError,
>)
    requires
        pos <= end <= input@.len(),
    ensures
        match r {
            Ok((v, p)) => sp_function_section(input@, pos as int, end as int) == Ok::<
                (FunctionSectionV, int),
                DecodeError,
            >((v@, p as int)) && pos < p <= end,
            Err(e) => sp_function_section(input@, pos as int, end as int) == Err::<
                (FunctionSectionV, int),
                DecodeError,
            >(e),
        },
{
    match parse_u32_vec(input, pos, end) {
        Ok((vs, p)) => Ok((FunctionSection { type_indices: vs }, p)),
        Err(e) => Err(e),
    }
}

} // verus!
