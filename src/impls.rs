use vstd::prelude::*;
use std::sync::Arc;
use vstd::slice::slice_subrange;
use crate::codec::{wrong_length, Decode, Encode};
use crate::error::DecodeError;

verus! {

broadcast use vstd::array::group_array_axioms;

impl Decode for bool {
    open spec fn spec_is_fixed_len() -> bool {
        true
    }

    open spec fn spec_fixed_len() -> usize {
        1
    }

    open spec fn spec_decode(bytes: Seq<u8>) -> Result<bool, DecodeError> {
        if bytes.len() != 1 {
            wrong_length(bytes.len(), 1)
        } else if bytes[0] == 0 {
            Ok(false)
        } else if bytes[0] == 1 {
            Ok(true)
        } else {
            Err(DecodeError::BytesInvalid("Out-of-range for boolean"))
        }
    }

    fn is_ssz_fixed_len() -> (r: bool) {
        true
    }

    fn ssz_fixed_len() -> (r: usize) {
        1
    }

    fn from_ssz_bytes(bytes: &[u8]) -> (r: Result<bool, DecodeError>) {
        let len = bytes.len();
        if len != 1 {
            Err(DecodeError::InvalidByteLength { len, expected: 1 })
        } else if bytes[0] == 0 {
            Ok(false)
        } else if bytes[0] == 1 {
            Ok(true)
        } else {
            Err(DecodeError::BytesInvalid("Out-of-range for boolean"))
        }
    }

    proof fn lemma_fixed_len_consistency(bytes: Seq<u8>) {
    }
}

impl Encode for bool {
    open spec fn spec_encodable(&self) -> bool {
        true
    }

    open spec fn spec_encode(&self) -> Seq<u8> {
        if *self {
            seq![1u8]
        } else {
            seq![0u8]
        }
    }

    fn ssz_bytes_len(&self) -> (r: usize) {
        1
    }

    fn ssz_append(&self, buf: &mut Vec<u8>) {
        if *self {
            buf.push(1);
        } else {
            buf.push(0);
        }
    }

    proof fn lemma_round_trip(v: &bool) {
    }
}

/// The array whose elements are `bytes`.
pub open spec fn array_of<const N: usize>(bytes: Seq<u8>) -> [u8; N] {
    choose|a: [u8; N]| a@ == bytes
}

impl<const N: usize> Decode for [u8; N] {
    open spec fn spec_is_fixed_len() -> bool {
        true
    }

    open spec fn spec_fixed_len() -> usize {
        N
    }

    open spec fn spec_decode(bytes: Seq<u8>) -> Result<[u8; N], DecodeError> {
        if bytes.len() != N {
            wrong_length(bytes.len(), N)
        } else {
            Ok(array_of::<N>(bytes))
        }
    }

    fn is_ssz_fixed_len() -> (r: bool) {
        true
    }

    fn ssz_fixed_len() -> (r: usize) {
        N
    }

    fn from_ssz_bytes(bytes: &[u8]) -> (r: Result<[u8; N], DecodeError>) {
        let len = bytes.len();
        if len != N {
            return Err(DecodeError::InvalidByteLength { len, expected: N });
        }
        let mut array: [u8; N] = [0u8; N];
        let mut i: usize = 0;
        while i < N
            invariant
                len == N,
                bytes@.len() == N,
                i <= N,
                forall|j: int| 0 <= j < i ==> array@[j] == bytes@[j],
            decreases N - i,
        {
            array[i] = bytes[i];
            i = i + 1;
        }
        proof {
            assert(array@ =~= bytes@);
            let c = array_of::<N>(bytes@);
            assert(c@ == bytes@);
            assert(c =~= array);
        }
        Ok(array)
    }

    proof fn lemma_fixed_len_consistency(bytes: Seq<u8>) {
    }
}

impl<const N: usize> Encode for [u8; N] {
    open spec fn spec_encodable(&self) -> bool {
        N <= u32::MAX
    }

    open spec fn spec_encode(&self) -> Seq<u8> {
        self@
    }

    fn ssz_bytes_len(&self) -> (r: usize) {
        N
    }

    fn ssz_append(&self, buf: &mut Vec<u8>) {
        buf.extend_from_slice(self.as_slice());
        proof {
            assert(buf@ =~= old(buf)@ + self@);
        }
    }

    proof fn lemma_round_trip(v: &[u8; N]) {
        let c = array_of::<N>(v@);
        assert(c@ == v@);
        assert(c =~= *v);
    }
}

/// What `split_union_bytes` returns on `bytes`.
pub open spec fn spec_split_union(bytes: Seq<u8>) -> Result<(u8, Seq<u8>), DecodeError> {
    if bytes.len() == 0 {
        Err(DecodeError::OutOfBoundsByte { i: 0 })
    } else {
        Ok((bytes[0], bytes.subrange(1, bytes.len() as int)))
    }
}

/// Splits a union encoding into its selector byte and its body.
pub fn split_union_bytes(bytes: &[u8]) -> (r: Result<(u8, &[u8]), DecodeError>)
    ensures
        match (r, spec_split_union(bytes@)) {
            (Ok((s, b)), Ok((t, c))) => s == t && b@ == c,
            (Err(e), Err(f)) => e == f,
            _ => false,
        },
{
    if bytes.len() == 0 {
        Err(DecodeError::OutOfBoundsByte { i: 0 })
    } else {
        Ok((bytes[0], slice_subrange(bytes, 1, bytes.len())))
    }
}

impl<T: Decode> Decode for Option<T> {
    open spec fn spec_is_fixed_len() -> bool {
        false
    }

    open spec fn spec_fixed_len() -> usize {
        4
    }

    open spec fn spec_decode(bytes: Seq<u8>) -> Result<Option<T>, DecodeError> {
        match spec_split_union(bytes) {
            Err(e) => Err(e),
            Ok((selector, body)) => if selector == 0 {
                if body.len() == 0 {
                    Ok(None)
                } else {
                    Err(DecodeError::InvalidByteLength { len: body.len() as usize, expected: 0 })
                }
            } else if selector == 1 {
                match T::spec_decode(body) {
                    Ok(v) => Ok(Some(v)),
                    Err(e) => Err(e),
                }
            } else {
                Err(DecodeError::UnionSelectorInvalid(selector))
            },
        }
    }

    fn is_ssz_fixed_len() -> (r: bool) {
        false
    }

    fn ssz_fixed_len() -> (r: usize) {
        4
    }

    fn from_ssz_bytes(bytes: &[u8]) -> (r: Result<Option<T>, DecodeError>) {
        let (selector, body) = match split_union_bytes(bytes) {
            Ok(parts) => parts,
            Err(e) => return Err(e),
        };
        if selector == 0 {
            if body.len() == 0 {
                Ok(None)
            } else {
                Err(DecodeError::InvalidByteLength { len: body.len(), expected: 0 })
            }
        } else if selector == 1 {
            match T::from_ssz_bytes(body) {
                Ok(v) => Ok(Some(v)),
                Err(e) => Err(e),
            }
        } else {
            Err(DecodeError::UnionSelectorInvalid(selector))
        }
    }

    proof fn lemma_fixed_len_consistency(bytes: Seq<u8>) {
    }
}

impl<T: Encode> Encode for Option<T> {
    open spec fn spec_encodable(&self) -> bool {
        match self {
            None => true,
            Some(v) => v.spec_encodable() && v.spec_encode().len() < u32::MAX,
        }
    }

    open spec fn spec_encode(&self) -> Seq<u8> {
        match self {
            None => seq![0u8],
            Some(v) => seq![1u8] + v.spec_encode(),
        }
    }

    fn ssz_bytes_len(&self) -> (r: usize) {
        match self {
            None => 1,
            Some(v) => 1 + v.ssz_bytes_len(),
        }
    }

    fn ssz_append(&self, buf: &mut Vec<u8>) {
        match self {
            None => {
                buf.push(0);
                proof {
                    assert(buf@ =~= old(buf)@ + seq![0u8]);
                }
            },
            Some(v) => {
                buf.push(1);
                v.ssz_append(buf);
                proof {
                    assert(buf@ =~= old(buf)@ + (seq![1u8] + v.spec_encode()));
                }
            },
        }
    }

    proof fn lemma_round_trip(v: &Option<T>) {
        match v {
            None => {},
            Some(inner) => {
                T::lemma_round_trip(inner);
                let e = v.spec_encode();
                assert(e.subrange(1, e.len() as int) =~= inner.spec_encode());
            },
        }
    }
}

impl<T: Decode> Decode for Arc<T> {
    open spec fn spec_is_fixed_len() -> bool {
        T::spec_is_fixed_len()
    }

    open spec fn spec_fixed_len() -> usize {
        T::spec_fixed_len()
    }

    open spec fn spec_decode(bytes: Seq<u8>) -> Result<Arc<T>, DecodeError> {
        match T::spec_decode(bytes) {
            Ok(v) => Ok(Arc::new(v)),
            Err(e) => Err(e),
        }
    }

    fn is_ssz_fixed_len() -> (r: bool) {
        T::is_ssz_fixed_len()
    }

    fn ssz_fixed_len() -> (r: usize) {
        T::ssz_fixed_len()
    }

    fn from_ssz_bytes(bytes: &[u8]) -> (r: Result<Arc<T>, DecodeError>) {
        match T::from_ssz_bytes(bytes) {
            Ok(v) => Ok(Arc::new(v)),
            Err(e) => Err(e),
        }
    }

    proof fn lemma_fixed_len_consistency(bytes: Seq<u8>) {
        T::lemma_fixed_len_consistency(bytes);
    }
}

impl<T: Encode> Encode for Arc<T> {
    open spec fn spec_encodable(&self) -> bool {
        (**self).spec_encodable()
    }

    open spec fn spec_encode(&self) -> Seq<u8> {
        (**self).spec_encode()
    }

    fn ssz_bytes_len(&self) -> (r: usize) {
        (**self).ssz_bytes_len()
    }

    fn ssz_append(&self, buf: &mut Vec<u8>) {
        (**self).ssz_append(buf);
    }

    proof fn lemma_round_trip(v: &Arc<T>) {
        T::lemma_round_trip(&**v);
    }
}

} // verus!
