//! Variable-length integer (LEB128) readers.
//!
//! Each byte of an encoded integer contributes 7 value bits; the high bit of
//! a byte signals that more bytes follow. The readers fail with
//! [`DecodeError::MalformedVarint`] when the input is exhausted before a
//! terminating byte, when more bytes than the target width allows are
//! consumed, or when the decoded value does not fit the target width.
//!
//! Every reader works on a cursor `pos` into a byte buffer bounded by `end`,
//! and is proved to return exactly what the corresponding `sp_*` spec
//! function assigns to those bytes.

use crate::error::DecodeError;
use vstd::arithmetic::div_mod::{lemma_fundamental_div_mod, lemma_multiply_divide_lt};
use vstd::prelude::*;

verus! {

/// Unsigned LEB128 over the bytes of `s` in `[pos, end)`, allowing at most
/// `max` bytes. The value is unbounded here; width checks come later.
pub open spec fn sp_uleb(s: Seq<u8>, pos: int, end: int, max: nat) -> Result<
    (nat, int),
    DecodeError,
>
    decreases max,
{
    if max == 0 || pos >= end {
        Err(DecodeError::MalformedVarint)
    } else {
        let b = s[pos];
        if b < 0x80 {
            Ok((b as nat, pos + 1))
        } else {
            match sp_uleb(s, pos + 1, end, (max - 1) as nat) {
                Ok((v, p)) => Ok((((b - 0x80) + 128 * v) as nat, p)),
                Err(e) => Err(e),
            }
        }
    }
}

/// Signed LEB128 over the bytes of `s` in `[pos, end)`: as the unsigned
/// form, except that bit `0x40` of the terminating byte extends the sign.
pub open spec fn sp_sleb(s: Seq<u8>, pos: int, end: int, max: nat) -> Result<
    (int, int),
    DecodeError,
>
    decreases max,
{
    if max == 0 || pos >= end {
        Err(DecodeError::MalformedVarint)
    } else {
        let b = s[pos];
        if b < 0x80 {
            if b < 0x40 {
                Ok((b as int, pos + 1))
            } else {
                Ok((b - 0x80, pos + 1))
            }
        } else {
            match sp_sleb(s, pos + 1, end, (max - 1) as nat) {
                Ok((v, p)) => Ok(((b - 0x80) + 128 * v, p)),
                Err(e) => Err(e),
            }
        }
    }
}

/// A 32-bit unsigned variable-length integer: at most 5 bytes, value below
/// `2^32`.
pub open spec fn sp_leb_u32(s: Seq<u8>, pos: int, end: int) -> Result<(u32, int), DecodeError> {
    match sp_uleb(s, pos, end, 5) {
        Ok((v, p)) => if v < 0x1_0000_0000 {
            Ok((v as u32, p))
        } else {
            Err(DecodeError::MalformedVarint)
        },
        Err(e) => Err(e),
    }
}

/// A 64-bit unsigned variable-length integer: at most 10 bytes, value below
/// `2^64`.
pub open spec fn sp_leb_u64(s: Seq<u8>, pos: int, end: int) -> Result<(u64, int), DecodeError> {
    match sp_uleb(s, pos, end, 10) {
        Ok((v, p)) => if v < 0x1_0000_0000_0000_0000 {
            Ok((v as u64, p))
        } else {
            Err(DecodeError::MalformedVarint)
        },
        Err(e) => Err(e),
    }
}

/// A 32-bit signed variable-length integer: at most 5 bytes, value in
/// `[-2^31, 2^31)`.
pub open spec fn sp_leb_i32(s: Seq<u8>, pos: int, end: int) -> Result<(i32, int), DecodeError> {
    match sp_sleb(s, pos, end, 5) {
        Ok((v, p)) => if -0x8000_0000 <= v && v < 0x8000_0000 {
            Ok((v as i32, p))
        } else {
            Err(DecodeError::MalformedVarint)
        },
        Err(e) => Err(e),
    }
}

/// A 64-bit signed variable-length integer: at most 10 bytes, value in
/// `[-2^63, 2^63)`.
pub open spec fn sp_leb_i64(s: Seq<u8>, pos: int, end: int) -> Result<(i64, int), DecodeError> {
    match sp_sleb(s, pos, end, 10) {
        Ok((v, p)) => if -0x8000_0000_0000_0000 <= v && v < 0x8000_0000_0000_0000 {
            Ok((v as i64, p))
        } else {
            Err(DecodeError::MalformedVarint)
        },
        Err(e) => Err(e),
    }
}

/// Reads an unsigned LEB128 integer of at most `max` bytes into a `u64`,
/// failing exactly where the spec value is absent or does not fit 64 bits.
fn parse_uleb(input: &[u8], pos: usize, end: usize, max: u32) -> (r: Result<
    (u64, usize),
    DecodeError,
>)
    requires
        pos <= end <= input@.len(),
    ensures
        match r {
            Ok((v, p)) => sp_uleb(input@, pos as int, end as int, max as nat) == Ok::<
                (nat, int),
                DecodeError,
            >((v as nat, p as int)) && pos < p <= end,
            Err(e) => e == DecodeError::MalformedVarint && match sp_uleb(
                input@,
                pos as int,
                end as int,
                max as nat,
            ) {
                Ok((v, p)) => v >= 0x1_0000_0000_0000_0000,
                Err(e2) => e2 == DecodeError::MalformedVarint,
            },
        },
    decreases max,
{
    if max == 0 || pos >= end {
        return Err(DecodeError::MalformedVarint);
    }
    let b = input[pos];
    if b < 0x80 {
        Ok((b as u64, pos + 1))
    } else {
        match parse_uleb(input, pos + 1, end, max - 1) {
            Ok((v, p)) => {
                if v >= 0x0200_0000_0000_0000 {
                    // 128 * v plus the low bits would not fit 64 bits.
                    Err(DecodeError::MalformedVarint)
                } else {
                    Ok((((b - 0x80) as u64) + 128 * v, p))
                }
            },
            Err(e) => Err(e),
        }
    }
}

/// Reads a signed LEB128 integer of at most `max` bytes into an `i64`,
/// failing exactly where the spec value is absent or does not fit 64 bits.
fn parse_sleb(input: &[u8], pos: usize, end: usize, max: u32) -> (r: Result<
    (i64, usize),
    DecodeError,
>)
    requires
        pos <= end <= input@.len(),
    ensures
        match r {
            Ok((v, p)) => sp_sleb(input@, pos as int, end as int, max as nat) == Ok::<
                (int, int),
                DecodeError,
            >((v as int, p as int)) && pos < p <= end,
            Err(e) => e == DecodeError::MalformedVarint && match sp_sleb(
                input@,
                pos as int,
                end as int,
                max as nat,
            ) {
                Ok((v, p)) => v < -0x8000_0000_0000_0000 || v >= 0x8000_0000_0000_0000,
                Err(e2) => e2 == DecodeError::MalformedVarint,
            },
        },
    decreases max,
{
    if max == 0 || pos >= end {
        return Err(DecodeError::MalformedVarint);
    }
    let b = input[pos];
    if b < 0x80 {
        if b < 0x40 {
            Ok((b as i64, pos + 1))
        } else {
            Ok(((b as i64) - 0x80, pos + 1))
        }
    } else {
        match parse_sleb(input, pos + 1, end, max - 1) {
            Ok((v, p)) => {
                if v < -0x0100_0000_0000_0000 || v >= 0x0100_0000_0000_0000 {
                    // 128 * v plus the low bits would not fit 64 bits.
                    Err(DecodeError::MalformedVarint)
                } else {
                    Ok((((b - 0x80) as i64) + 128 * v, p))
                }
            },
            Err(e) => Err(e),
        }
    }
}

/// Decodes one unsigned 32-bit variable-length integer at `pos`.
pub fn parse_leb_u32(input: &[u8], pos: usize, end: usize) -> (r: Result<
    (u32, usize),
    DecodeError,
>)
    requires
        pos <= end <= input@.len(),
    ensures
        match r {
            Ok((v, p)) => sp_leb_u32(input@, pos as int, end as int) == Ok::<
                (u32, int),
                DecodeError,
            >((v, p as int)) && pos < p <= end,
            Err(e) => sp_leb_u32(input@, pos as int, end as int) == Err::<
                (u32, int),
                DecodeError,
            >(e),
        },
{
    match parse_uleb(input, pos, end, 5) {
        Ok((v, p)) => if v < 0x1_0000_0000 {
            Ok((v as u32, p))
        } else {
            Err(DecodeError::MalformedVarint)
        },
        Err(e) => Err(e),
    }
}

/// Decodes one unsigned 64-bit variable-length integer at `pos`.
pub fn parse_leb_u64(input: &[u8], pos: usize, end: usize) -> (r: Result<
    (u64, usize),
    DecodeError,
>)
    requires
        pos <= end <= input@.len(),
    ensures
        match r {
            Ok((v, p)) => sp_leb_u64(input@, pos as int, end as int) == Ok::<
                (u64, int),
                DecodeError,
            >((v, p as int)) && pos < p <= end,
            Err(e) => sp_leb_u64(input@, pos as int, end as int) == Err::<
                (u64, int),
                DecodeError,
            >(e),
        },
{
    match parse_uleb(input, pos, end, 10) {
        Ok((v, p)) => Ok((v, p)),
        Err(e) => Err(e),
    }
}

/// Decodes one signed 32-bit variable-length integer at `pos`.
pub fn parse_leb_i32(input: &[u8], pos: usize, end: usize) -> (r: Result<
    (i32, usize),
    DecodeError,
>)
    requires
        pos <= end <= input@.len(),
    ensures
        match r {
            Ok((v, p)) => sp_leb_i32(input@, pos as int, end as int) == Ok::<
                (i32, int),
                DecodeError,
            >((v, p as int)) && pos < p <= end,
            Err(e) => sp_leb_i32(input@, pos as int, end as int) == Err::<
                (i32, int),
                DecodeError,
            >(e),
        },
{
    match parse_sleb(input, pos, end, 5) {
        Ok((v, p)) => if -0x8000_0000 <= v && v < 0x8000_0000 {
            Ok((v as i32, p))
        } else {
            Err(DecodeError::MalformedVarint)
        },
        Err(e) => Err(e),
    }
}

/// Decodes one signed 64-bit variable-length integer at `pos`.
pub fn parse_leb_i64(input: &[u8], pos: usize, end: usize) -> (r: Result<
    (i64, usize),
    DecodeError,
>)
    requires
        pos <= end <= input@.len(),
    ensures
        match r {
            Ok((v, p)) => sp_leb_i64(input@, pos as int, end as int) == Ok::<
                (i64, int),
                DecodeError,
            >((v, p as int)) && pos < p <= end,
            Err(e) => sp_leb_i64(input@, pos as int, end as int) == Err::<
                (i64, int),
                DecodeError,
            >(e),
        },
{
    match parse_sleb(input, pos, end, 10) {
        Ok((v, p)) => Ok((v, p)),
        Err(e) => Err(e),
    }
}

/// The canonical (shortest) unsigned LEB128 encoding of `v`.
pub open spec fn uleb_encode(v: nat) -> Seq<u8>
    decreases v,
{
    if v < 0x80 {
        seq![v as u8]
    } else {
        seq![((v % 0x80) + 0x80) as u8] + uleb_encode(v / 0x80)
    }
}

/// The canonical encoding is never empty, has one byte exactly for values
/// below `2^7`, and at most 5 bytes for values below `2^32`.
pub proof fn lemma_uleb_encode_len(v: nat)
    ensures
        1 <= uleb_encode(v).len(),
        v < 0x80 ==> uleb_encode(v).len() == 1,
        v < 0x1_0000_0000 ==> uleb_encode(v).len() <= 5,
    decreases v,
{
    if v >= 0x80 {
        lemma_uleb_encode_len(v / 0x80);
        if v < 0x1_0000_0000 {
            assert(pow128(0) == 1);
            assert(pow128(1) == 128);
            assert(pow128(2) == 0x4000);
            assert(pow128(3) == 0x20_0000);
            assert(pow128(4) == 0x1000_0000);
            lemma_multiply_divide_lt(v as int, 0x80, 0x0200_0000);
            lemma_uleb_encode_len_le(v / 0x80, 4);
        }
    }
}

/// An encoding of a value below `128^k` takes at most `k` bytes.
pub proof fn lemma_uleb_encode_len_le(v: nat, k: nat)
    requires
        1 <= k,
        v < pow128(k),
    ensures
        uleb_encode(v).len() <= k,
    decreases k,
{
    if v >= 0x80 {
        assert(pow128(k) == 128 * pow128((k - 1) as nat));
        assert(k >= 2) by {
            if k == 1 {
                assert(pow128(1) == 128 * pow128(0));
                assert(pow128(0) == 1);
            }
        }
        lemma_multiply_divide_lt(v as int, 0x80, pow128((k - 1) as nat) as int);
        lemma_uleb_encode_len_le(v / 0x80, (k - 1) as nat);
    }
}

/// `128^k`, the number of values a `k`-byte unsigned encoding can carry.
pub open spec fn pow128(k: nat) -> nat
    decreases k,
{
    if k == 0 {
        1nat
    } else {
        128 * pow128((k - 1) as nat)
    }
}

/// Decoding inverts encoding: wherever the canonical encoding of `v` sits in
/// a buffer with at least as many bytes of room, the unsigned reader returns
/// `v` and advances by exactly the encoding's width.
pub proof fn lemma_uleb_decode_encode(s: Seq<u8>, pos: int, end: int, v: nat, max: nat)
    requires
        0 <= pos,
        pos + uleb_encode(v).len() <= end <= s.len(),
        s.subrange(pos, pos + uleb_encode(v).len() as int) == uleb_encode(v),
        uleb_encode(v).len() <= max,
    ensures
        sp_uleb(s, pos, end, max) == Ok::<(nat, int), DecodeError>(
            (v, pos + uleb_encode(v).len()),
        ),
    decreases v,
{
    let enc = uleb_encode(v);
    assert(s[pos] == enc[0]) by {
        assert(s.subrange(pos, pos + enc.len() as int)[0] == s[pos]);
    }
    if v < 0x80 {
        assert(enc[0] == v as u8);
    } else {
        let tail = uleb_encode(v / 0x80);
        assert(enc[0] == ((v % 0x80) + 0x80) as u8);
        assert(s[pos] >= 0x80);
        let hd = ((v % 0x80) + 0x80) as u8;
        assert(enc == seq![hd] + tail);
        assert forall|i: int| 0 <= i < tail.len() implies #[trigger] s.subrange(
            pos + 1,
            pos + 1 + tail.len() as int,
        )[i] == tail[i] by {
            assert(s.subrange(pos, pos + enc.len() as int)[i + 1] == s[pos + 1 + i]);
            assert((seq![hd] + tail)[i + 1] == tail[i]);
        }
        assert(s.subrange(pos + 1, pos + 1 + tail.len() as int) =~= tail);
        lemma_uleb_decode_encode(s, pos + 1, end, v / 0x80, (max - 1) as nat);
        lemma_fundamental_div_mod(v as int, 0x80);
    }
}

/// A buffer slice made only of continuation bytes never terminates, so the
/// unsigned reader fails with `MalformedVarint`; an empty slice does too.
pub proof fn lemma_uleb_all_continuation(s: Seq<u8>, pos: int, end: int, max: nat)
    requires
        forall|i: int| pos <= i < end ==> s[i] >= 0x80,
    ensures
        sp_uleb(s, pos, end, max) == Err::<(nat, int), DecodeError>(DecodeError::MalformedVarint),
    decreases max,
{
    if max > 0 && pos < end {
        lemma_uleb_all_continuation(s, pos + 1, end, (max - 1) as nat);
    }
}

/// The 32-bit unsigned reader on a slice of bare continuation bytes fails
/// with `MalformedVarint`.
pub proof fn lemma_varint_unterminated(s: Seq<u8>, pos: int, end: int)
    requires
        forall|i: int| pos <= i < end ==> s[i] >= 0x80,
    ensures
        sp_leb_u32(s, pos, end) == Err::<(u32, int), DecodeError>(DecodeError::MalformedVarint),
{
    lemma_uleb_all_continuation(s, pos, end, 5);
}

/// A successful unsigned read consumes at least one byte and stays in
/// bounds.
pub proof fn lemma_uleb_bounds(s: Seq<u8>, pos: int, end: int, max: nat)
    ensures
        match sp_uleb(s, pos, end, max) {
            Ok((v, p)) => pos < p <= end,
            Err(_) => true,
        },
    decreases max,
{
    if max > 0 && pos < end && s[pos] >= 0x80 {
        lemma_uleb_bounds(s, pos + 1, end, (max - 1) as nat);
    }
}

/// A successful signed read consumes at least one byte and stays in
/// bounds.
pub proof fn lemma_sleb_bounds(s: Seq<u8>, pos: int, end: int, max: nat)
    ensures
        match sp_sleb(s, pos, end, max) {
            Ok((v, p)) => pos < p <= end,
            Err(_) => true,
        },
    decreases max,
{
    if max > 0 && pos < end && s[pos] >= 0x80 {
        lemma_sleb_bounds(s, pos + 1, end, (max - 1) as nat);
    }
}

/// A successful unsigned read never looks past the bytes it consumed:
/// cutting the buffer anywhere at or beyond the final cursor leaves the
/// result unchanged.
pub proof fn lemma_uleb_local(s: Seq<u8>, pos: int, end: int, end2: int, v: nat, p: int, max: nat)
    requires
        sp_uleb(s, pos, end, max) == Ok::<(nat, int), DecodeError>((v, p)),
        p <= end2 <= end,
    ensures
        sp_uleb(s, pos, end2, max) == Ok::<(nat, int), DecodeError>((v, p)),
    decreases max,
{
    lemma_uleb_bounds(s, pos, end, max);
    if s[pos] >= 0x80 {
        match sp_uleb(s, pos + 1, end, (max - 1) as nat) {
            Ok((v2, p2)) => {
                lemma_uleb_local(s, pos + 1, end, end2, v2, p2, (max - 1) as nat);
            },
            Err(_) => {},
        }
    }
}

/// Locality of the 32-bit unsigned reader, as
/// [`lemma_uleb_local`] states it for the raw form.
pub proof fn lemma_leb_u32_local(s: Seq<u8>, pos: int, end: int, end2: int, v: u32, p: int)
    requires
        sp_leb_u32(s, pos, end) == Ok::<(u32, int), DecodeError>((v, p)),
        p <= end2 <= end,
    ensures
        sp_leb_u32(s, pos, end2) == Ok::<(u32, int), DecodeError>((v, p)),
{
    match sp_uleb(s, pos, end, 5) {
        Ok((w, q)) => {
            lemma_uleb_local(s, pos, end, end2, w, q, 5);
        },
        Err(_) => {},
    }
}

/// Decoding the canonical encoding of a 32-bit value yields that value:
/// completeness of the 32-bit reader on canonically framed input.
pub proof fn lemma_leb_u32_decode_encode(s: Seq<u8>, pos: int, end: int, v: u32)
    requires
        0 <= pos,
        pos + uleb_encode(v as nat).len() <= end <= s.len(),
        s.subrange(pos, pos + uleb_encode(v as nat).len() as int) == uleb_encode(v as nat),
    ensures
        sp_leb_u32(s, pos, end) == Ok::<(u32, int), DecodeError>(
            (v, pos + uleb_encode(v as nat).len()),
        ),
{
    lemma_uleb_encode_len(v as nat);
    lemma_uleb_decode_encode(s, pos, end, v as nat, 5);
}

/// A successful 32-bit unsigned read consumes at least one byte and stays
/// in bounds.
pub proof fn lemma_leb_u32_bounds(s: Seq<u8>, pos: int, end: int)
    ensures
        match sp_leb_u32(s, pos, end) {
            Ok((v, p)) => pos < p <= end,
            Err(_) => true,
        },
{
    lemma_uleb_bounds(s, pos, end, 5);
}

/// A successful fixed-count integer vector read stays in bounds.
pub proof fn lemma_u32s_n_bounds(s: Seq<u8>, pos: int, end: int, n: nat)
    requires
        pos <= end,
    ensures
        match sp_u32s_n(s, pos, end, n) {
            Ok((vs, p)) => pos <= p <= end,
            Err(_) => true,
        },
    decreases n,
{
    if n > 0 {
        lemma_leb_u32_bounds(s, pos, end);
        match sp_leb_u32(s, pos, end) {
            Ok((v, p)) => {
                lemma_u32s_n_bounds(s, p, end, (n - 1) as nat);
            },
            Err(_) => {},
        }
    }
}

/// A successful counted integer vector read consumes at least the count
/// byte and stays in bounds.
pub proof fn lemma_u32_vec_bounds(s: Seq<u8>, pos: int, end: int)
    requires
        pos <= end,
    ensures
        match sp_u32_vec(s, pos, end) {
            Ok((vs, p)) => pos < p <= end,
            Err(_) => true,
        },
{
    lemma_leb_u32_bounds(s, pos, end);
    match sp_leb_u32(s, pos, end) {
        Ok((n, p)) => {
            lemma_u32s_n_bounds(s, p, end, n as nat);
        },
        Err(_) => {},
    }
}

/// A sequence of exactly `n` unsigned 32-bit integers starting at `pos`.
pub open spec fn sp_u32s_n(s: Seq<u8>, pos: int, end: int, n: nat) -> Result<
    (Seq<u32>, int),
    DecodeError,
>
    decreases n,
{
    if n == 0 {
        Ok((seq![], pos))
    } else {
        match sp_leb_u32(s, pos, end) {
            Ok((v, p)) => match sp_u32s_n(s, p, end, (n - 1) as nat) {
                Ok((vs, p2)) => Ok((seq![v] + vs, p2)),
                Err(e) => Err(e),
            },
            Err(e) => Err(e),
        }
    }
}

/// A counted vector of unsigned 32-bit integers: a count followed by that
/// many integers.
pub open spec fn sp_u32_vec(s: Seq<u8>, pos: int, end: int) -> Result<
    (Seq<u32>, int),
    DecodeError,
> {
    match sp_leb_u32(s, pos, end) {
        Ok((n, p)) => sp_u32s_n(s, p, end, n as nat),
        Err(e) => Err(e),
    }
}

/// Decodes a counted vector of unsigned 32-bit integers at `pos`.
#[verifier::loop_isolation(false)]
pub fn parse_u32_vec(input: &[u8], pos: usize, end: usize) -> (r: Result<
    (Vec<u32>, usize),
    DecodeError,
>)
    requires
        pos <= end <= input@.len(),
    ensures
        match r {
            Ok((v, p)) => sp_u32_vec(input@, pos as int, end as int) == Ok::<
                (Seq<u32>, int),
                DecodeError,
            >((v@, p as int)) && pos < p <= end,
            Err(e) => sp_u32_vec(input@, pos as int, end as int) == Err::<
                (Seq<u32>, int),
                DecodeError,
            >(e),
        },
{
    let (n, mut cur) = match parse_leb_u32(input, pos, end) {
        Ok(x) => x,
        Err(e) => {
            return Err(e);
        },
    };
    let mut out: Vec<u32> = Vec::new();
    let mut i: u32 = 0;
    proof {
        match sp_u32s_n(input@, cur as int, end as int, n as nat) {
            Ok((vs, p2)) => {
                assert(out@ + vs =~= vs);
            },
            Err(_) => {},
        }
    }
    while i < n
        invariant
            i <= n,
            pos < cur <= end,
            match sp_u32s_n(input@, cur as int, end as int, (n - i) as nat) {
                Ok((vs, p2)) => sp_u32_vec(input@, pos as int, end as int) == Ok::<
                    (Seq<u32>, int),
                    DecodeError,
                >((out@ + vs, p2)),
                Err(e) => sp_u32_vec(input@, pos as int, end as int) == Err::<
                    (Seq<u32>, int),
                    DecodeError,
                >(e),
            },
        decreases n - i,
    {
        match parse_leb_u32(input, cur, end) {
            Ok((v, p)) => {
                proof {
                    let rest = sp_u32s_n(input@, p as int, end as int, (n - i - 1) as nat);
                    match rest {
                        Ok((vs, p2)) => {
                            assert(out@ + (seq![v] + vs) =~= out@.push(v) + vs);
                        },
                        Err(_) => {},
                    }
                }
                out.push(v);
                cur = p;
                i = i + 1;
            },
            Err(e) => {
                return Err(e);
            },
        }
    }
    proof {
        assert(out@ + seq![] =~= out@);
    }
    Ok((out, cur))
}

} // verus!
