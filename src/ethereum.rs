use vstd::prelude::*;
use ethereum_types::{H160, H256, U128, U256};
use crate::codec::{wrong_length, Decode};
use crate::error::DecodeError;

verus! {

#[verifier::external_type_specification]
#[verifier::external_body]
pub struct ExH160(H160);

#[verifier::external_type_specification]
#[verifier::external_body]
pub struct ExH256(H256);

#[verifier::external_type_specification]
#[verifier::external_body]
pub struct ExU128(U128);

#[verifier::external_type_specification]
#[verifier::external_body]
pub struct ExU256(U256);

/// The 20-byte hash that `H160::from_slice` builds from `b`.
pub uninterp spec fn h160_from_bytes(b: Seq<u8>) -> H160;

/// The 32-byte hash that `H256::from_slice` builds from `b`.
pub uninterp spec fn h256_from_bytes(b: Seq<u8>) -> H256;

/// The integer that `U128::from_little_endian` reads from `b`.
pub uninterp spec fn u128_from_le(b: Seq<u8>) -> U128;

/// The integer that `U256::from_little_endian` reads from `b`.
pub uninterp spec fn u256_from_le(b: Seq<u8>) -> U256;

/// Relies on `H160::from_slice`: copies exactly 20 bytes (it panics on any other length), so the
/// hash depends on the bytes alone.
#[verifier::external_body]
fn h160_from_slice(b: &[u8]) -> (r: H160)
    requires
        b@.len() == 20,
    ensures
        r == h160_from_bytes(b@),
{
    H160::from_slice(b)
}

/// Relies on `H256::from_slice`: copies exactly 32 bytes (it panics on any other length), so the
/// hash depends on the bytes alone.
#[verifier::external_body]
fn h256_from_slice(b: &[u8]) -> (r: H256)
    requires
        b@.len() == 32,
    ensures
        r == h256_from_bytes(b@),
{
    H256::from_slice(b)
}

/// Relies on `U128::from_little_endian`: reads at most 16 bytes (it panics on more) as a
/// little-endian integer, so the value depends on the bytes alone.
#[verifier::external_body]
fn u128_from_little_endian(b: &[u8]) -> (r: U128)
    requires
        b@.len() == 16,
    ensures
        r == u128_from_le(b@),
{
    U128::from_little_endian(b)
}

/// Relies on `U256::from_little_endian`: reads at most 32 bytes (it panics on more) as a
/// little-endian integer, so the value depends on the bytes alone.
#[verifier::external_body]
fn u256_from_little_endian(b: &[u8]) -> (r: U256)
    requires
        b@.len() == 32,
    ensures
        r == u256_from_le(b@),
{
    U256::from_little_endian(b)
}

impl Decode for H160 {
    open spec fn spec_is_fixed_len() -> bool {
        true
    }

    open spec fn spec_fixed_len() -> usize {
        20
    }

    open spec fn spec_decode(bytes: Seq<u8>) -> Result<H160, DecodeError> {
        if bytes.len() != 20 {
            wrong_length(bytes.len(), 20)
        } else {
            Ok(h160_from_bytes(bytes))
        }
    }

    fn is_ssz_fixed_len() -> (r: bool) {
        true
    }

    fn ssz_fixed_len() -> (r: usize) {
        20
    }

    fn from_ssz_bytes(bytes: &[u8]) -> (r: Result<H160, DecodeError>) {
        let len = bytes.len();
        if len != 20 {
            Err(DecodeError::InvalidByteLength { len, expected: 20 })
        } else {
            Ok(h160_from_slice(bytes))
        }
    }

    proof fn lemma_fixed_len_consistency(bytes: Seq<u8>) {
    }
}

impl Decode for H256 {
    open spec fn spec_is_fixed_len() -> bool {
        true
    }

    open spec fn spec_fixed_len() -> usize {
        32
    }

    open spec fn spec_decode(bytes: Seq<u8>) -> Result<H256, DecodeError> {
        if bytes.len() != 32 {
            wrong_length(bytes.len(), 32)
        } else {
            Ok(h256_from_bytes(bytes))
        }
    }

    fn is_ssz_fixed_len() -> (r: bool) {
        true
    }

    fn ssz_fixed_len() -> (r: usize) {
        32
    }

    fn from_ssz_bytes(bytes: &[u8]) -> (r: Result<H256, DecodeError>) {
        let len = bytes.len();
        if len != 32 {
            Err(DecodeError::InvalidByteLength { len, expected: 32 })
        } else {
            Ok(h256_from_slice(bytes))
        }
    }

    proof fn lemma_fixed_len_consistency(bytes: Seq<u8>) {
    }
}

impl Decode for U128 {
    open spec fn spec_is_fixed_len() -> bool {
        true
    }

    open spec fn spec_fixed_len() -> usize {
        16
    }

    open spec fn spec_decode(bytes: Seq<u8>) -> Result<U128, DecodeError> {
        if bytes.len() != 16 {
            wrong_length(bytes.len(), 16)
        } else {
            Ok(u128_from_le(bytes))
        }
    }

    fn is_ssz_fixed_len() -> (r: bool) {
        true
    }

    fn ssz_fixed_len() -> (r: usize) {
        16
    }

    fn from_ssz_bytes(bytes: &[u8]) -> (r: Result<U128, DecodeError>) {
        let len = bytes.len();
        if len != 16 {
            Err(DecodeError::InvalidByteLength { len, expected: 16 })
        } else {
            Ok(u128_from_little_endian(bytes))
        }
    }

    proof fn lemma_fixed_len_consistency(bytes: Seq<u8>) {
    }
}

impl Decode for U256 {
    open spec fn spec_is_fixed_len() -> bool {
        true
    }

    open spec fn spec_fixed_len() -> usize {
        32
    }

    open spec fn spec_decode(bytes: Seq<u8>) -> Result<U256, DecodeError> {
        if bytes.len() != 32 {
            wrong_length(bytes.len(), 32)
        } else {
            Ok(u256_from_le(bytes))
        }
    }

    fn is_ssz_fixed_len() -> (r: bool) {
        true
    }

    fn ssz_fixed_len() -> (r: usize) {
        32
    }

    fn from_ssz_bytes(bytes: &[u8]) -> (r: Result<U256, DecodeError>) {
        let len = bytes.len();
        if len != 32 {
            Err(DecodeError::InvalidByteLength { len, expected: 32 })
        } else {
            Ok(u256_from_little_endian(bytes))
        }
    }

    proof fn lemma_fixed_len_consistency(bytes: Seq<u8>) {
    }
}

} // verus!
