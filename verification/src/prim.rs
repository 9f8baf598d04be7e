//! Fixed-width little-endian integer readers.

use crate::error::DecodeError;
use vstd::prelude::*;

verus! {

/// A 4-byte little-endian unsigned integer at `pos`.
pub open spec fn sp_le_u32(s: Seq<u8>, pos: int, end: int) -> Result<(u32, int), DecodeError> {
    if pos + 4 <= end {
        Ok(
            (
                (s[pos] + 0x100 * s[pos + 1] + 0x1_0000 * s[pos + 2] + 0x100_0000 * s[pos
                    + 3]) as u32,
                pos + 4,
            ),
        )
    } else {
        Err(DecodeError::TruncatedInput)
    }
}

/// An 8-byte little-endian unsigned integer at `pos`.
pub open spec fn sp_le_u64(s: Seq<u8>, pos: int, end: int) -> Result<(u64, int), DecodeError> {
    if pos + 8 <= end {
        Ok(
            (
                (s[pos] + 0x100 * s[pos + 1] + 0x1_0000 * s[pos + 2] + 0x100_0000 * s[pos + 3]
                    + 0x1_0000_0000 * s[pos + 4] + 0x100_0000_0000 * s[pos + 5]
                    + 0x1_0000_0000_0000 * s[pos + 6] + 0x100_0000_0000_0000 * s[pos
                    + 7]) as u64,
                pos + 8,
            ),
        )
    } else {
        Err(DecodeError::TruncatedInput)
    }
}

/// Reads a 4-byte little-endian unsigned integer at `pos`.
pub fn parse_le_u32(input: &[u8], pos: usize, end: usize) -> (r: Result<(u32, usize), DecodeError>)
    requires
        pos <= end <= input@.len(),
    ensures
        match r {
            Ok((v, p)) => sp_le_u32(input@, pos as int, end as int) == Ok::<
                (u32, int),
                DecodeError,
            >((v, p as int)) && pos < p <= end,
            Err(e) => sp_le_u32(input@, pos as int, end as int) == Err::<(u32, int), DecodeError>(
                e,
            ),
        },
{
    if end - pos < 4 {
        return Err(DecodeError::TruncatedInput);
    }
    let v = (input[pos] as u32) + 0x100 * (input[pos + 1] as u32) + 0x1_0000 * (input[pos
        + 2] as u32) + 0x100_0000 * (input[pos + 3] as u32);
    Ok((v, pos + 4))
}

/// Reads an 8-byte little-endian unsigned integer at `pos`.
pub fn parse_le_u64(input: &[u8], pos: usize, end: usize) -> (r: Result<(u64, usize), DecodeError>)
    requires
        pos <= end <= input@.len(),
    ensures
        match r {
            Ok((v, p)) => sp_le_u64(input@, pos as int, end as int) == Ok::<
                (u64, int),
                DecodeError,
            >((v, p as int)) && pos < p <= end,
            Err(e) => sp_le_u64(input@, pos as int, end as int) == Err::<(u64, int), DecodeError>(
                e,
            ),
        },
{
    if end - pos < 8 {
        return Err(DecodeError::TruncatedInput);
    }
    let v = (input[pos] as u64) + 0x100 * (input[pos + 1] as u64) + 0x1_0000 * (input[pos
        + 2] as u64) + 0x100_0000 * (input[pos + 3] as u64) + 0x1_0000_0000 * (input[pos
        + 4] as u64) + 0x100_0000_0000 * (input[pos + 5] as u64) + 0x1_0000_0000_0000 * (input[pos
        + 6] as u64) + 0x100_0000_0000_0000 * (input[pos + 7] as u64);
    Ok((v, pos + 8))
}

} // verus!
