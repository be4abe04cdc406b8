use ethereum_types::{H160, U128, U256};
use ssz::{
    as_ssz_bytes, decode_list_of_variable_length_items, encode_list_of_variable_length_items,
    read_offset, sanitize_offset, Decode, DecodeError, Encode, SszDecoderBuilder, SszEncoder,
};
use std::sync::Arc;

#[test]
fn record_with_list_scenario() {
    let mut list_bytes: Vec<u8> = Vec::new();
    for x in [0u16, 1, 2, 3] {
        list_bytes.extend(as_ssz_bytes(&x));
    }
    let list: [u8; 8] = list_bytes.clone().try_into().unwrap();

    let mut encoder = SszEncoder::container(8);
    encoder.append(&42u16);
    encoder.append_parameterized(false, &list);
    encoder.append(&11u16);
    let mut out = Vec::new();
    encoder.finalize(&mut out);
    assert_eq!(out, vec![42, 0, 8, 0, 0, 0, 11, 0, 0, 0, 1, 0, 2, 0, 3, 0]);

    let mut builder = SszDecoderBuilder::new(&out);
    builder.register_type::<u16>();
    builder.register_type_parameterized(false, 4);
    builder.register_type::<u16>();
    let mut decoder = builder.build().unwrap();
    let a = decoder.decode_next::<u16>().unwrap();
    let b = decoder.decode_next::<[u8; 8]>().unwrap();
    let c = decoder.decode_next::<u16>().unwrap();
    let items: Vec<u16> = b.chunks(2).map(|x| u16::from_ssz_bytes(x).unwrap()).collect();
    assert_eq!((a, items, c), (42, vec![0, 1, 2, 3], 11));
}

#[test]
fn uint_encodings() {
    assert_eq!(as_ssz_bytes(&7u8), vec![7]);
    assert_eq!(as_ssz_bytes(&0x0102u16), vec![2, 1]);
    assert_eq!(as_ssz_bytes(&0x01020304u32), vec![4, 3, 2, 1]);
    assert_eq!(as_ssz_bytes(&1u64), vec![1, 0, 0, 0, 0, 0, 0, 0]);
    assert_eq!(as_ssz_bytes(&258usize), vec![2, 1, 0, 0, 0, 0, 0, 0]);
    assert_eq!(usize::from_ssz_bytes(&[2, 1, 0, 0, 0, 0, 0, 0]), Ok(258));
}

#[test]
fn bool_and_option_encodings() {
    assert_eq!(as_ssz_bytes(&true), vec![1]);
    assert_eq!(as_ssz_bytes(&false), vec![0]);
    assert_eq!(as_ssz_bytes(&None::<u16>), vec![0]);
    assert_eq!(as_ssz_bytes(&Some(5u16)), vec![1, 5, 0]);
}

#[test]
fn length_agrees_with_encoding() {
    let v = (7u16, Some(9u32), 3u8);
    assert_eq!(v.ssz_bytes_len(), as_ssz_bytes(&v).len());
    let w = (1u8, 2u64);
    assert_eq!(w.ssz_bytes_len(), 9);
    assert_eq!(Some(3u16).ssz_bytes_len(), 3);
}

#[test]
fn round_trips() {
    let v = (7u16, Some(9u32), 3u8);
    assert_eq!(<(u16, Option<u32>, u8)>::from_ssz_bytes(&as_ssz_bytes(&v)), Ok(v));
    let w = (Some(1u8), None::<u16>);
    assert_eq!(<(Option<u8>, Option<u16>)>::from_ssz_bytes(&as_ssz_bytes(&w)), Ok(w));
    let a = [9u8; 32];
    assert_eq!(<[u8; 32]>::from_ssz_bytes(&as_ssz_bytes(&a)), Ok(a));
    let shared = Arc::new(77u64);
    assert_eq!(<Arc<u64>>::from_ssz_bytes(&as_ssz_bytes(&shared)), Ok(shared));
}

#[test]
fn tuple_with_variable_field_layout() {
    let v = (1u16, Some(2u16));
    assert_eq!(as_ssz_bytes(&v), vec![1, 0, 6, 0, 0, 0, 1, 2, 0]);
}

#[test]
fn list_round_trip() {
    let items = vec![Some(5u16), None, Some(7u16)];
    let bytes = encode_list_of_variable_length_items(&items);
    assert_eq!(
        bytes,
        vec![12, 0, 0, 0, 15, 0, 0, 0, 16, 0, 0, 0, 1, 5, 0, 0, 1, 7, 0]
    );
    let back: Result<Vec<Option<u16>>, DecodeError> =
        decode_list_of_variable_length_items(&bytes, Some(3));
    assert_eq!(back, Ok(items));
    let empty: Vec<Option<u16>> = vec![];
    assert_eq!(encode_list_of_variable_length_items(&empty), Vec::<u8>::new());
}

#[test]
fn offsets() {
    assert_eq!(read_offset(&[1, 2, 0, 0, 9]), Ok(0x0201));
    assert_eq!(
        read_offset(&[1, 2, 0]),
        Err(DecodeError::InvalidByteLength { len: 3, expected: 4 })
    );
    assert_eq!(sanitize_offset(8, Some(4), 10, Some(4)), Ok(8));
    assert_eq!(
        sanitize_offset(3, Some(4), 10, None),
        Err(DecodeError::OutOfBoundsByte { i: 3 })
    );
    assert_eq!(
        sanitize_offset(11, None, 10, None),
        Err(DecodeError::OutOfBoundsByte { i: 11 })
    );
    assert_eq!(
        sanitize_offset(3, None, 10, Some(4)),
        Err(DecodeError::OutOfBoundsByte { i: 3 })
    );
}

#[test]
fn ethereum_values() {
    let mut b = [0u8; 32];
    b[0] = 1;
    assert_eq!(U256::from_ssz_bytes(&b), Ok(U256::from(1u64)));
    let mut c = [0u8; 16];
    c[1] = 1;
    assert_eq!(U128::from_ssz_bytes(&c), Ok(U128::from(256u64)));
    let h: Vec<u8> = (1..=20).collect();
    assert_eq!(H160::from_ssz_bytes(&h).unwrap().as_bytes(), &h[..]);
    assert_eq!(
        H160::from_ssz_bytes(&h[..19]),
        Err(DecodeError::InvalidByteLength { len: 19, expected: 20 })
    );
    assert_eq!(
        U256::from_ssz_bytes(&[0; 33]),
        Err(DecodeError::InvalidByteLength { len: 33, expected: 32 })
    );
}
