//! The value types of the format, and the readers for single tags and for
//! counted vectors of them.

use crate::error::DecodeError;
use crate::leb128::sp_leb_u32;
use crate::leb128::parse_leb_u32;
use vstd::prelude::*;

verus! {

/// One of the four numeric value kinds, a closed set of one-byte tags
/// (`0x7F`, `0x7E`, `0x7D`, `0x7C`). Unrecognized tags are a decode error,
/// never silently defaulted.
#[derive(Debug, Clone, Copy, PartialEq, Eq, Structural)]
pub enum ValueType {
    I32,
    I64,
    F32,
    F64,
}

/// The value kind a tag byte stands for, if any.
pub open spec fn sp_value_type_tag(b: u8) -> Option<ValueType> {
    if b == 0x7F {
        Some(ValueType::I32)
    } else if b == 0x7E {
        Some(ValueType::I64)
    } else if b == 0x7D {
        Some(ValueType::F32)
    } else if b == 0x7C {
        Some(ValueType::F64)
    } else {
        None
    }
}

/// One value-type tag at `pos`.
pub open spec fn sp_value_type(s: Seq<u8>, pos: int, end: int) -> Result<
    (ValueType, int),
    DecodeError,
> {
    if pos >= end {
        Err(DecodeError::TruncatedInput)
    } else {
        match sp_value_type_tag(s[pos]) {
            Some(v) => Ok((v, pos + 1)),
            None => Err(DecodeError::InvalidValueType(s[pos])),
        }
    }
}

/// A sequence of exactly `n` value-type tags starting at `pos`.
pub open spec fn sp_value_types_n(s: Seq<u8>, pos: int, end: int, n: nat) -> Result<
    (Seq<ValueType>, int),
    DecodeError,
>
    decreases n,
{
    if n == 0 {
        Ok((seq![], pos))
    } else {
        match sp_value_type(s, pos, end) {
            Ok((v, p)) => match sp_value_types_n(s, p, end, (n - 1) as nat) {
                Ok((vs, p2)) => Ok((seq![v] + vs, p2)),
                Err(e) => Err(e),
            },
            Err(e) => Err(e),
        }
    }
}

/// A counted vector of value types: a count followed by that many tags.
pub open spec fn sp_value_type_vec(s: Seq<u8>, pos: int, end: int) -> Result<
    (Seq<ValueType>, int),
    DecodeError,
> {
    match sp_leb_u32(s, pos, end) {
        Ok((n, p)) => sp_value_types_n(s, p, end, n as nat),
        Err(e) => Err(e),
    }
}

/// Decodes one value-type tag at `pos`.
pub fn parse_value_type(input: &[u8], pos: usize, end: usize) -> (r: Result<
    (ValueType, usize),
    DecodeError,
>)
    requires
        pos <= end <= input@.len(),
    ensures
        match r {
            Ok((v, p)) => sp_value_type(input@, pos as int, end as int) == Ok::<
                (ValueType, int),
                DecodeError,
            >((v, p as int)) && pos < p <= end,
            Err(e) => sp_value_type(input@, pos as int, end as int) == Err::<
                (ValueType, int),
                DecodeError,
            >(e),
        },
{
    if pos >= end {
        return Err(DecodeError::TruncatedInput);
    }
    let b = input[pos];
    if b == 0x7F {
        Ok((ValueType::I32, pos + 1))
    } else if b == 0x7E {
        Ok((ValueType::I64, pos + 1))
    } else if b == 0x7D {
        Ok((ValueType::F32, pos + 1))
    } else if b == 0x7C {
        Ok((ValueType::F64, pos + 1))
    } else {
        Err(DecodeError::InvalidValueType(b))
    }
}

/// Decodes a counted vector of value types at `pos`.
#[verifier::loop_isolation(false)]
pub fn parse_value_type_vec(input: &[u8], pos: usize, end: usize) -> (r: Result<
    (Vec<ValueType>, usize),
    DecodeError,
>)
    requires
        pos <= end <= input@.len(),
    ensures
        match r {
            Ok((v, p)) => sp_value_type_vec(input@, pos as int, end as int) == Ok::<
                (Seq<ValueType>, int),
                DecodeError,
            >((v@, p as int)) && pos < p <= end,
            Err(e) => sp_value_type_vec(input@, pos as int, end as int) == Err::<
                (Seq<ValueType>, int),
                DecodeError,
            >(e),
        },
{
    let (n, mut cur) = match parse_leb_u32(input, pos, end) {
        Ok(x) => x,
        Err(e) => {
            return Err(e);
        },
    };
    let mut out: Vec<ValueType> = Vec::new();
    let mut i: u32 = 0;
    proof {
        match sp_value_types_n(input@, cur as int, end as int, n as nat) {
            Ok((vs, p2)) => {
                assert(out@ + vs =~= vs);
            },
            Err(_) => {},
        }
    }
    while i < n
        invariant
            i <= n,
            pos < cur <= end,
            match sp_value_types_n(input@, cur as int, end as int, (n - i) as nat) {
                Ok((vs, p2)) => sp_value_type_vec(input@, pos as int, end as int) == Ok::<
                    (Seq<ValueType>, int),
                    DecodeError,
                >((out@ + vs, p2)),
                Err(e) => sp_value_type_vec(input@, pos as int, end as int) == Err::<
                    (Seq<ValueType>, int),
                    DecodeError,
                >(e),
            },
        decreases n - i,
    {
        match parse_value_type(input, cur, end) {
            Ok((v, p)) => {
                proof {
                    match sp_value_types_n(input@, p as int, end as int, (n - i - 1) as nat) {
                        Ok((vs, p2)) => {
                            assert(out@ + (seq![v] + vs) =~= out@.push(v) + vs);
                        },
                        Err(_) => {},
                    }
                }
                out.push(v);
                cur = p;
                i = i + 1;
            },
            Err(e) => {
                return Err(e);
            },
        }
    }
    proof {
        assert(out@ + seq![] =~= out@);
    }
    Ok((out, cur))
}

} // verus!
