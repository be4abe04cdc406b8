use vstd::prelude::*;
use vstd::bytes::{spec_u32_from_le_bytes, u32_from_le_bytes};
use vstd::slice::slice_subrange;
use crate::error::DecodeError;

verus! {

/// The width in bytes of a length-offset.
pub const BYTES_PER_LENGTH_OFFSET: usize = 4;

/// The offset stored little-endian in the four bytes of `bytes` that start at `pos`.
pub open spec fn offset_at(bytes: Seq<u8>, pos: int) -> nat {
    spec_u32_from_le_bytes(bytes.subrange(pos, pos + 4)) as nat
}

/// What `read_offset` returns on `bytes`.
pub open spec fn spec_read_offset(bytes: Seq<u8>) -> Result<usize, DecodeError> {
    if bytes.len() < 4 {
        Err(DecodeError::InvalidByteLength { len: bytes.len() as usize, expected: 4 })
    } else {
        Ok(offset_at(bytes, 0) as usize)
    }
}

/// Whether `offset` passes the checks of `sanitize_offset`.
pub open spec fn offset_is_sane(
    offset: usize,
    previous_offset: Option<usize>,
    num_bytes: usize,
    first_offset: Option<usize>,
) -> bool {
    &&& (previous_offset matches Some(p) ==> p <= offset)
    &&& offset <= num_bytes
    &&& (first_offset matches Some(f) ==> f <= offset)
}

/// Reads the first four bytes of `bytes` as a little-endian offset.
pub fn read_offset(bytes: &[u8]) -> (r: Result<usize, DecodeError>)
    ensures
        r == spec_read_offset(bytes@),
{
    if bytes.len() < BYTES_PER_LENGTH_OFFSET {
        Err(DecodeError::InvalidByteLength { len: bytes.len(), expected: BYTES_PER_LENGTH_OFFSET })
    } else {
        let head = slice_subrange(bytes, 0, 4);
        let v = u32_from_le_bytes(head);
        Ok(v as usize)
    }
}

/// Checks that `offset` does not go back before `previous_offset`, does not pass the end of a
/// buffer of `num_bytes` bytes, and does not point before `first_offset`.
pub fn sanitize_offset(
    offset: usize,
    previous_offset: Option<usize>,
    num_bytes: usize,
    first_offset: Option<usize>,
) -> (r: Result<usize, DecodeError>)
    ensures
        offset_is_sane(offset, previous_offset, num_bytes, first_offset) ==> r == Ok::<
            usize,
            DecodeError,
        >(offset),
        !offset_is_sane(offset, previous_offset, num_bytes, first_offset) ==> r == Err::<
            usize,
            DecodeError,
        >(DecodeError::OutOfBoundsByte { i: offset }),
{
    let below_previous = match previous_offset {
        Some(p) => offset < p,
        None => false,
    };
    let below_first = match first_offset {
        Some(f) => offset < f,
        None => false,
    };
    if below_previous || offset > num_bytes || below_first {
        Err(DecodeError::OutOfBoundsByte { i: offset })
    } else {
        Ok(offset)
    }
}

} // verus!
