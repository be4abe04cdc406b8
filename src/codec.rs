use vstd::prelude::*;
use vstd::bytes::*;
use crate::error::DecodeError;

verus! {

/// A type that can be read back from its SSZ encoding.
pub trait Decode: Sized {
    /// Whether every value of the type encodes to the same number of bytes.
    spec fn spec_is_fixed_len() -> bool;

    /// That number of bytes for a fixed-length type; the offset width otherwise.
    spec fn spec_fixed_len() -> usize;

    /// The outcome of decoding `bytes`.
    spec fn spec_decode(bytes: Seq<u8>) -> Result<Self, DecodeError>;

    fn is_ssz_fixed_len() -> (r: bool)
        ensures
            r == Self::spec_is_fixed_len(),
    ;

    fn ssz_fixed_len() -> (r: usize)
        ensures
            r == Self::spec_fixed_len(),
    ;

    fn from_ssz_bytes(bytes: &[u8]) -> (r: Result<Self, DecodeError>)
        ensures
            r == Self::spec_decode(bytes@),
    ;

    /// A fixed-length type decodes only from exactly its fixed number of bytes, and any other
    /// length is reported with both lengths.
    proof fn lemma_fixed_len_consistency(bytes: Seq<u8>)
        requires
            Self::spec_is_fixed_len(),
            bytes.len() <= usize::MAX,
        ensures
            Self::spec_decode(bytes) is Ok ==> bytes.len() == Self::spec_fixed_len(),
            bytes.len() != Self::spec_fixed_len() ==> Self::spec_decode(bytes) == Err::<
                Self,
                DecodeError,
            >(
                DecodeError::InvalidByteLength {
                    len: bytes.len() as usize,
                    expected: Self::spec_fixed_len(),
                },
            ),
    ;
}

/// A type that can be written in its SSZ encoding.
pub trait Encode: Decode {
    /// Whether the value is small enough to encode: every offset in its encoding fits in the
    /// offset width.
    spec fn spec_encodable(&self) -> bool;

    /// The encoding of the value.
    spec fn spec_encode(&self) -> Seq<u8>;

    /// The number of bytes of the encoding.
    fn ssz_bytes_len(&self) -> (r: usize)
        requires
            self.spec_encodable(),
        ensures
            r == self.spec_encode().len(),
    ;

    /// Appends the encoding to `buf`.
    fn ssz_append(&self, buf: &mut Vec<u8>)
        requires
            self.spec_encodable(),
        ensures
            final(buf)@ == old(buf)@ + self.spec_encode(),
    ;

    /// Decoding an encoding gives back the value; a fixed-length type encodes to its fixed
    /// number of bytes.
    proof fn lemma_round_trip(v: &Self)
        requires
            v.spec_encodable(),
        ensures
            Self::spec_decode(v.spec_encode()) == Ok::<Self, DecodeError>(*v),
            v.spec_encode().len() <= u32::MAX,
            Self::spec_is_fixed_len() ==> v.spec_encode().len() == Self::spec_fixed_len(),
    ;
}

/// The encoding of `v` as a fresh byte vector.
pub fn as_ssz_bytes<T: Encode>(v: &T) -> (r: Vec<u8>)
    requires
        v.spec_encodable(),
    ensures
        r@ == v.spec_encode(),
{
    let mut buf: Vec<u8> = Vec::new();
    v.ssz_append(&mut buf);
    proof {
        assert(buf@ =~= v.spec_encode());
    }
    buf
}

/// The error for a fixed-length decode that was handed `len` bytes.
pub open spec fn wrong_length<T>(len: nat, expected: usize) -> Result<T, DecodeError> {
    Err(DecodeError::InvalidByteLength { len: len as usize, expected })
}

impl Decode for u8 {
    open spec fn spec_is_fixed_len() -> bool {
        true
    }

    open spec fn spec_fixed_len() -> usize {
        1
    }

    open spec fn spec_decode(bytes: Seq<u8>) -> Result<u8, DecodeError> {
        if bytes.len() != 1 {
            wrong_length(bytes.len(), 1)
        } else {
            Ok(bytes[0])
        }
    }

    fn is_ssz_fixed_len() -> (r: bool) {
        true
    }

    fn ssz_fixed_len() -> (r: usize) {
        1
    }

    fn from_ssz_bytes(bytes: &[u8]) -> (r: Result<u8, DecodeError>) {
        if bytes.len() != 1 {
            Err(DecodeError::InvalidByteLength { len: bytes.len(), expected: 1 })
        } else {
            Ok(bytes[0])
        }
    }

    proof fn lemma_fixed_len_consistency(bytes: Seq<u8>) {
    }
}

impl Encode for u8 {
    open spec fn spec_encodable(&self) -> bool {
        true
    }

    open spec fn spec_encode(&self) -> Seq<u8> {
        seq![*self]
    }

    fn ssz_bytes_len(&self) -> (r: usize) {
        1
    }

    fn ssz_append(&self, buf: &mut Vec<u8>) {
        buf.push(*self);
    }

    proof fn lemma_round_trip(v: &u8) {
    }
}

impl Decode for u16 {
    open spec fn spec_is_fixed_len() -> bool {
        true
    }

    open spec fn spec_fixed_len() -> usize {
        2
    }

    open spec fn spec_decode(bytes: Seq<u8>) -> Result<u16, DecodeError> {
        if bytes.len() != 2 {
            wrong_length(bytes.len(), 2)
        } else {
            Ok(spec_u16_from_le_bytes(bytes))
        }
    }

    fn is_ssz_fixed_len() -> (r: bool) {
        true
    }

    fn ssz_fixed_len() -> (r: usize) {
        2
    }

    fn from_ssz_bytes(bytes: &[u8]) -> (r: Result<u16, DecodeError>) {
        if bytes.len() != 2 {
            Err(DecodeError::InvalidByteLength { len: bytes.len(), expected: 2 })
        } else {
            Ok(u16_from_le_bytes(bytes))
        }
    }

    proof fn lemma_fixed_len_consistency(bytes: Seq<u8>) {
    }
}

impl Encode for u16 {
    open spec fn spec_encodable(&self) -> bool {
        true
    }

    open spec fn spec_encode(&self) -> Seq<u8> {
        spec_u16_to_le_bytes(*self)
    }

    fn ssz_bytes_len(&self) -> (r: usize) {
        proof {
            lemma_auto_spec_u16_to_from_le_bytes();
        }
        2
    }

    fn ssz_append(&self, buf: &mut Vec<u8>) {
        let mut b = u16_to_le_bytes(*self);
        buf.append(&mut b);
    }

    proof fn lemma_round_trip(v: &u16) {
        lemma_auto_spec_u16_to_from_le_bytes();
    }
}

impl Decode for u32 {
    open spec fn spec_is_fixed_len() -> bool {
        true
    }

    open spec fn spec_fixed_len() -> usize {
        4
    }

    open spec fn spec_decode(bytes: Seq<u8>) -> Result<u32, DecodeError> {
        if bytes.len() != 4 {
            wrong_length(bytes.len(), 4)
        } else {
            Ok(spec_u32_from_le_bytes(bytes))
        }
    }

    fn is_ssz_fixed_len() -> (r: bool) {
        true
    }

    fn ssz_fixed_len() -> (r: usize) {
        4
    }

    fn from_ssz_bytes(bytes: &[u8]) -> (r: Result<u32, DecodeError>) {
        if bytes.len() != 4 {
            Err(DecodeError::InvalidByteLength { len: bytes.len(), expected: 4 })
        } else {
            Ok(u32_from_le_bytes(bytes))
        }
    }

    proof fn lemma_fixed_len_consistency(bytes: Seq<u8>) {
    }
}

impl Encode for u32 {
    open spec fn spec_encodable(&self) -> bool {
        true
    }

    open spec fn spec_encode(&self) -> Seq<u8> {
        spec_u32_to_le_bytes(*self)
    }

    fn ssz_bytes_len(&self) -> (r: usize) {
        proof {
            lemma_auto_spec_u32_to_from_le_bytes();
        }
        4
    }

    fn ssz_append(&self, buf: &mut Vec<u8>) {
        let mut b = u32_to_le_bytes(*self);
        buf.append(&mut b);
    }

    proof fn lemma_round_trip(v: &u32) {
        lemma_auto_spec_u32_to_from_le_bytes();
    }
}

impl Decode for u64 {
    open spec fn spec_is_fixed_len() -> bool {
        true
    }

    open spec fn spec_fixed_len() -> usize {
        8
    }

    open spec fn spec_decode(bytes: Seq<u8>) -> Result<u64, DecodeError> {
        if bytes.len() != 8 {
            wrong_length(bytes.len(), 8)
        } else {
            Ok(spec_u64_from_le_bytes(bytes))
        }
    }

    fn is_ssz_fixed_len() -> (r: bool) {
        true
    }

    fn ssz_fixed_len() -> (r: usize) {
        8
    }

    fn from_ssz_bytes(bytes: &[u8]) -> (r: Result<u64, DecodeError>) {
        if bytes.len() != 8 {
            Err(DecodeError::InvalidByteLength { len: bytes.len(), expected: 8 })
        } else {
            Ok(u64_from_le_bytes(bytes))
        }
    }

    proof fn lemma_fixed_len_consistency(bytes: Seq<u8>) {
    }
}

impl Encode for u64 {
    open spec fn spec_encodable(&self) -> bool {
        true
    }

    open spec fn spec_encode(&self) -> Seq<u8> {
        spec_u64_to_le_bytes(*self)
    }

    fn ssz_bytes_len(&self) -> (r: usize) {
        proof {
            lemma_auto_spec_u64_to_from_le_bytes();
        }
        8
    }

    fn ssz_append(&self, buf: &mut Vec<u8>) {
        let mut b = u64_to_le_bytes(*self);
        buf.append(&mut b);
    }

    proof fn lemma_round_trip(v: &u64) {
        lemma_auto_spec_u64_to_from_le_bytes();
    }
}

impl Decode for usize {
    open spec fn spec_is_fixed_len() -> bool {
        true
    }

    open spec fn spec_fixed_len() -> usize {
        8
    }

    open spec fn spec_decode(bytes: Seq<u8>) -> Result<usize, DecodeError> {
        if bytes.len() != 8 {
            wrong_length(bytes.len(), 8)
        } else if spec_u64_from_le_bytes(bytes) > usize::MAX {
            Err(DecodeError::BytesInvalid("Value does not fit in usize"))
        } else {
            Ok(spec_u64_from_le_bytes(bytes) as usize)
        }
    }

    fn is_ssz_fixed_len() -> (r: bool) {
        true
    }

    fn ssz_fixed_len() -> (r: usize) {
        8
    }

    fn from_ssz_bytes(bytes: &[u8]) -> (r: Result<usize, DecodeError>) {
        if bytes.len() != 8 {
            Err(DecodeError::InvalidByteLength { len: bytes.len(), expected: 8 })
        } else {
            let v = u64_from_le_bytes(bytes);
            if v > usize::MAX as u64 {
                Err(DecodeError::BytesInvalid("Value does not fit in usize"))
            } else {
                Ok(v as usize)
            }
        }
    }

    proof fn lemma_fixed_len_consistency(bytes: Seq<u8>) {
    }
}

impl Encode for usize {
    open spec fn spec_encodable(&self) -> bool {
        true
    }

    open spec fn spec_encode(&self) -> Seq<u8> {
        spec_u64_to_le_bytes(*self as u64)
    }

    fn ssz_bytes_len(&self) -> (r: usize) {
        proof {
            lemma_auto_spec_u64_to_from_le_bytes();
        }
        8
    }

    fn ssz_append(&self, buf: &mut Vec<u8>) {
        let mut b = u64_to_le_bytes(*self as u64);
        buf.append(&mut b);
    }

    proof fn lemma_round_trip(v: &usize) {
        lemma_auto_spec_u64_to_from_le_bytes();
    }
}

/// What decoding a non-zero `usize` gives: the `usize`, unless it is zero.
pub open spec fn spec_decode_non_zero_usize(bytes: Seq<u8>) -> Result<usize, DecodeError> {
    match <usize as Decode>::spec_decode(bytes) {
        Ok(x) => if x == 0 {
            Err(DecodeError::BytesInvalid("NonZeroUsize cannot be zero."))
        } else {
            Ok(x)
        },
        Err(e) => Err(e),
    }
}

/// Decodes the value of a non-zero `usize`: a `usize` that must not be zero.
pub fn non_zero_usize_value_from_ssz_bytes(bytes: &[u8]) -> (r: Result<usize, DecodeError>)
    ensures
        r == spec_decode_non_zero_usize(bytes@),
        r matches Ok(x) ==> x != 0,
{
    match usize::from_ssz_bytes(bytes) {
        Ok(x) => if x == 0 {
            Err(DecodeError::BytesInvalid("NonZeroUsize cannot be zero."))
        } else {
            Ok(x)
        },
        Err(e) => Err(e),
    }
}

} // verus!
