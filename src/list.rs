use vstd::prelude::*;
use vstd::slice::slice_subrange;
use crate::codec::Decode;
use crate::error::DecodeError;
use crate::offset::{offset_at, read_offset, sanitize_offset, BYTES_PER_LENGTH_OFFSET};

verus! {

/// Decodes items `k..n` of a list whose offset table holds `n` offsets, checking before item `k`
/// that the offset after it lies between its own offset and the end of the buffer.
pub open spec fn spec_decode_items<T: Decode>(bytes: Seq<u8>, n: nat, k: nat) -> Result<
    Seq<T>,
    DecodeError,
>
    decreases n - k,
{
    if k >= n {
        Ok(Seq::empty())
    } else {
        let start = offset_at(bytes, 4 * k as int);
        let next = offset_at(bytes, 4 * (k + 1) as int);
        if k + 1 < n && !(start <= next && next <= bytes.len()) {
            Err(DecodeError::OutOfBoundsByte { i: next as usize })
        } else {
            let end = if k + 1 < n {
                next
            } else {
                bytes.len()
            };
            match T::spec_decode(bytes.subrange(start as int, end as int)) {
                Err(e) => Err(e),
                Ok(v) => match spec_decode_items::<T>(bytes, n, k + 1) {
                    Err(e) => Err(e),
                    Ok(rest) => Ok(seq![v] + rest),
                },
            }
        }
    }
}

/// Whether the first offset of a non-empty list buffer is well formed: within the buffer and a
/// positive multiple of the offset width.
pub open spec fn first_offset_ok(bytes: Seq<u8>) -> bool {
    let first = offset_at(bytes, 0);
    &&& bytes.len() >= 4
    &&& first <= bytes.len()
    &&& first % 4 == 0
    &&& first >= 4
}

/// The number of items that a list buffer announces through its first offset.
pub open spec fn list_len(bytes: Seq<u8>) -> nat {
    offset_at(bytes, 0) / 4
}

/// What decoding `bytes` as a list of variable-length items gives.
pub open spec fn spec_decode_list<T: Decode>(bytes: Seq<u8>, max_len: Option<usize>) -> Result<
    Seq<T>,
    DecodeError,
> {
    let first = offset_at(bytes, 0);
    if bytes.len() == 0 {
        Ok(Seq::empty())
    } else if bytes.len() < 4 {
        Err(DecodeError::InvalidByteLength { len: bytes.len() as usize, expected: 4 })
    } else if first > bytes.len() {
        Err(DecodeError::OutOfBoundsByte { i: first as usize })
    } else if first % 4 != 0 || first < 4 {
        Err(DecodeError::InvalidListFixedBytesLen(first as usize))
    } else if max_len matches Some(m) && list_len(bytes) > m {
        Err(DecodeError::BytesInvalid("Variable length list exceeds its maximum length"))
    } else {
        spec_decode_items::<T>(bytes, list_len(bytes), 0)
    }
}

/// Once an offset of the table lies before the offset that precedes it, decoding the items up to
/// that point fails.
proof fn lemma_items_reject_decrease<T: Decode>(bytes: Seq<u8>, n: nat, k: nat, j: nat)
    requires
        k < j < n,
        offset_at(bytes, 4 * j as int) < offset_at(bytes, 4 * (j - 1) as int),
    ensures
        spec_decode_items::<T>(bytes, n, k) is Err,
    decreases j - k,
{
    if k + 1 < j {
        lemma_items_reject_decrease::<T>(bytes, n, k + 1, j);
    } else {
        assert(4 * (k + 1) == 4 * j);
    }
}

/// A list buffer whose offset table goes back somewhere is rejected, whatever the bytes that the
/// offsets point to.
pub proof fn lemma_decreasing_offsets_rejected<T: Decode>(
    bytes: Seq<u8>,
    max_len: Option<usize>,
    j: nat,
)
    requires
        bytes.len() > 0,
        0 < j < list_len(bytes),
        offset_at(bytes, 4 * j as int) < offset_at(bytes, 4 * (j - 1) as int),
    ensures
        spec_decode_list::<T>(bytes, max_len) is Err,
{
    if bytes.len() >= 4 && first_offset_ok(bytes) && !(max_len matches Some(m) && list_len(bytes) > m) {
        lemma_items_reject_decrease::<T>(bytes, list_len(bytes), 0, j);
    }
}

/// Whether an executable result holds what a spec result describes.
pub open spec fn result_is<T>(r: Result<Vec<T>, DecodeError>, s: Result<Seq<T>, DecodeError>) -> bool {
    match (r, s) {
        (Ok(v), Ok(w)) => v@ == w,
        (Err(e), Err(f)) => e == f,
        _ => false,
    }
}

/// `prefix` followed by the items of `rest`, if `rest` succeeded.
pub open spec fn prepend<T>(prefix: Seq<T>, rest: Result<Seq<T>, DecodeError>) -> Result<
    Seq<T>,
    DecodeError,
> {
    match rest {
        Ok(s) => Ok(prefix + s),
        Err(e) => Err(e),
    }
}

/// Decodes `bytes` as a list of variable-length items: an offset table followed by the items.
///
/// This reads same-typed items directly from the offset table, which is faster than the
/// general container decoder that handles fields of differing types.
pub fn decode_list_of_variable_length_items<T: Decode>(
    bytes: &[u8],
    max_len: Option<usize>,
) -> (r: Result<Vec<T>, DecodeError>)
    ensures
        result_is(r, spec_decode_list::<T>(bytes@, max_len)),
        bytes@.len() == 0 ==> (r matches Ok(v) && v@.len() == 0),
        0 < bytes@.len() < 4 ==> r == Err::<Vec<T>, DecodeError>(
            DecodeError::InvalidByteLength { len: bytes@.len() as usize, expected: 4 },
        ),
        first_offset_ok(bytes@) && (max_len matches Some(m) && list_len(bytes@) > m) ==> (r matches Err(
            DecodeError::BytesInvalid(_),
        )),
        r matches Ok(v) ==> v@.len() == (if bytes@.len() == 0 {
            0
        } else {
            list_len(bytes@)
        }),
{
    let len = bytes.len();
    if len == 0 {
        return Ok(Vec::new());
    }
    let first_offset = match read_offset(bytes) {
        Ok(o) => o,
        Err(e) => return Err(e),
    };
    match sanitize_offset(first_offset, None, len, Some(first_offset)) {
        Ok(_) => {},
        Err(e) => return Err(e),
    }
    if first_offset % BYTES_PER_LENGTH_OFFSET != 0 || first_offset < BYTES_PER_LENGTH_OFFSET {
        return Err(DecodeError::InvalidListFixedBytesLen(first_offset));
    }
    let num_items = first_offset / BYTES_PER_LENGTH_OFFSET;
    match max_len {
        Some(max) => {
            if num_items > max {
                return Err(
                    DecodeError::BytesInvalid("Variable length list exceeds its maximum length"),
                );
            }
        },
        None => {},
    }
    let ghost n = num_items as nat;
    let mut items: Vec<T> = Vec::new();
    let mut offset: usize = first_offset;
    let mut k: usize = 0;
    while k < num_items
        invariant
            bytes@.len() == len,
            first_offset == offset_at(bytes@, 0),
            num_items * 4 == first_offset,
            first_offset <= len,
            n == num_items,
            1 <= num_items,
            k <= num_items,
            k < num_items ==> offset == offset_at(bytes@, 4 * k as int),
            first_offset <= offset <= len,
            items@.len() == k,
            spec_decode_list::<T>(bytes@, max_len) == prepend(
                items@,
                spec_decode_items::<T>(bytes@, n, k as nat),
            ),
        decreases num_items - k,
    {
        let ghost kk = k as nat;
        let end: usize;
        if k + 1 < num_items {
            let pos = (k + 1) * BYTES_PER_LENGTH_OFFSET;
            let tail = slice_subrange(bytes, pos, len);
            assert(tail@.subrange(0, 4) =~= bytes@.subrange(pos as int, pos + 4));
            let next = match read_offset(tail) {
                Ok(o) => o,
                Err(e) => return Err(e),
            };
            end = match sanitize_offset(next, Some(offset), len, Some(first_offset)) {
                Ok(o) => o,
                Err(e) => {
                    assert(4 * (kk + 1) == pos);
                    return Err(e);
                },
            };
            assert(4 * (kk + 1) == pos);
        } else {
            end = len;
        }
        let slice = slice_subrange(bytes, offset, end);
        match T::from_ssz_bytes(slice) {
            Ok(v) => {
                proof {
                    let rest = spec_decode_items::<T>(bytes@, n, kk + 1);
                    match rest {
                        Ok(s) => {
                            assert(items@ + (seq![v] + s) =~= items@.push(v) + s);
                        },
                        Err(_) => {},
                    }
                }
                items.push(v);
            },
            Err(e) => return Err(e),
        }
        offset = end;
        k = k + 1;
    }
    proof {
        assert(items@ + Seq::<T>::empty() =~= items@);
    }
    Ok(items)
}

} // verus!
