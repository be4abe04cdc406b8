//! Simple Serialize (SSZ): a schema-driven binary codec with strict decoding.

pub mod codec;
pub mod container;
pub mod encode;
pub mod error;
pub mod ethereum;
pub mod impls;
pub mod list;
pub mod offset;
pub mod record;
pub mod tuples;

pub use codec::{as_ssz_bytes, non_zero_usize_value_from_ssz_bytes, Decode, Encode};
pub use container::{FieldKind, SszDecoder, SszDecoderBuilder};
pub use encode::{encode_list_of_variable_length_items, SszEncoder};
pub use error::DecodeError;
pub use impls::split_union_bytes;
pub use list::decode_list_of_variable_length_items;
pub use offset::{read_offset, sanitize_offset, BYTES_PER_LENGTH_OFFSET};
