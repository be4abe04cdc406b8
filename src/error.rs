use vstd::prelude::*;

verus! {

/// The ways in which a byte string can fail to decode.
#[derive(Debug, PartialEq)]
pub enum DecodeError {
    /// A fixed-length decode received a slice of the wrong size.
    InvalidByteLength { len: usize, expected: usize },
    /// An offset points outside the buffer or breaks the order of the offset table.
    OutOfBoundsByte { i: usize },
    /// The first offset of a list is not a positive multiple of the offset width.
    InvalidListFixedBytesLen(usize),
    /// A union selector byte is neither 0 nor 1.
    UnionSelectorInvalid(u8),
    /// A value-level violation, described in words.
    BytesInvalid(&'static str),
}

} // verus!
