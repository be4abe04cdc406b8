use ethereum_types::H256;
use ssz::{
    decode_list_of_variable_length_items, non_zero_usize_value_from_ssz_bytes, Decode, DecodeError,
};

#[test]
fn invalid_u8_array_4() {
    assert_eq!(
        <[u8; 4]>::from_ssz_bytes(&[0; 3]),
        Err(DecodeError::InvalidByteLength {
            len: 3,
            expected: 4
        })
    );

    assert_eq!(
        <[u8; 4]>::from_ssz_bytes(&[0; 5]),
        Err(DecodeError::InvalidByteLength {
            len: 5,
            expected: 4
        })
    );
}

#[test]
fn invalid_bool() {
    assert_eq!(
        bool::from_ssz_bytes(&[0; 2]),
        Err(DecodeError::InvalidByteLength {
            len: 2,
            expected: 1
        })
    );

    assert_eq!(
        bool::from_ssz_bytes(&[]),
        Err(DecodeError::InvalidByteLength {
            len: 0,
            expected: 1
        })
    );

    if let Err(DecodeError::BytesInvalid(_)) = bool::from_ssz_bytes(&[2]) {
        // Success.
    } else {
        panic!("Did not return error on invalid bool val")
    }
}

#[test]
fn invalid_h256() {
    assert_eq!(
        H256::from_ssz_bytes(&[0; 33]),
        Err(DecodeError::InvalidByteLength {
            len: 33,
            expected: 32
        })
    );

    assert_eq!(
        H256::from_ssz_bytes(&[0; 31]),
        Err(DecodeError::InvalidByteLength {
            len: 31,
            expected: 32
        })
    );
}

#[test]
fn u16() {
    assert_eq!(<u16>::from_ssz_bytes(&[0, 0]), Ok(0));
    assert_eq!(<u16>::from_ssz_bytes(&[16, 0]), Ok(16));
    assert_eq!(<u16>::from_ssz_bytes(&[0, 1]), Ok(256));
    assert_eq!(<u16>::from_ssz_bytes(&[255, 255]), Ok(65535));

    assert_eq!(
        <u16>::from_ssz_bytes(&[255]),
        Err(DecodeError::InvalidByteLength {
            len: 1,
            expected: 2
        })
    );

    assert_eq!(
        <u16>::from_ssz_bytes(&[]),
        Err(DecodeError::InvalidByteLength {
            len: 0,
            expected: 2
        })
    );

    assert_eq!(
        <u16>::from_ssz_bytes(&[0, 1, 2]),
        Err(DecodeError::InvalidByteLength {
            len: 3,
            expected: 2
        })
    );
}

#[test]
fn tuple() {
    assert_eq!(<(u16, u16)>::from_ssz_bytes(&[0, 0, 0, 0]), Ok((0, 0)));
    assert_eq!(<(u16, u16)>::from_ssz_bytes(&[16, 0, 17, 0]), Ok((16, 17)));
    assert_eq!(<(u16, u16)>::from_ssz_bytes(&[0, 1, 2, 0]), Ok((256, 2)));
    assert_eq!(
        <(u16, u16)>::from_ssz_bytes(&[255, 255, 0, 0]),
        Ok((65535, 0))
    );
}

#[test]
fn h256_copies_bytes() {
    let bytes: Vec<u8> = (0..32).collect();
    let h = H256::from_ssz_bytes(&bytes).unwrap();
    assert_eq!(h.as_bytes(), &bytes[..]);
}

#[test]
fn bool_values() {
    assert_eq!(bool::from_ssz_bytes(&[0]), Ok(false));
    assert_eq!(bool::from_ssz_bytes(&[1]), Ok(true));
}

#[test]
fn u8_array_copies_bytes() {
    assert_eq!(<[u8; 4]>::from_ssz_bytes(&[1, 2, 3, 4]), Ok([1, 2, 3, 4]));
}

#[test]
fn wider_uints_are_little_endian() {
    assert_eq!(u32::from_ssz_bytes(&[1, 2, 3, 4]), Ok(0x0403_0201));
    assert_eq!(u64::from_ssz_bytes(&[1, 0, 0, 0, 0, 0, 0, 1]), Ok(0x0100_0000_0000_0001));
    assert_eq!(
        u64::from_ssz_bytes(&[1, 0, 0]),
        Err(DecodeError::InvalidByteLength { len: 3, expected: 8 })
    );
}

#[test]
fn option_selector() {
    assert_eq!(<Option<u16>>::from_ssz_bytes(&[0]), Ok(None));
    assert_eq!(<Option<u16>>::from_ssz_bytes(&[1, 5, 0]), Ok(Some(5)));
    assert_eq!(
        <Option<u16>>::from_ssz_bytes(&[2, 5, 0]),
        Err(DecodeError::UnionSelectorInvalid(2))
    );
    assert_eq!(
        <Option<u16>>::from_ssz_bytes(&[]),
        Err(DecodeError::OutOfBoundsByte { i: 0 })
    );
    assert_eq!(
        <Option<u16>>::from_ssz_bytes(&[0, 5, 0]),
        Err(DecodeError::InvalidByteLength { len: 2, expected: 0 })
    );
}

#[test]
fn empty_list_is_empty() {
    let got: Result<Vec<Option<u16>>, DecodeError> =
        decode_list_of_variable_length_items(&[], None);
    assert_eq!(got, Ok(vec![]));
    let capped: Result<Vec<Option<u16>>, DecodeError> =
        decode_list_of_variable_length_items(&[], Some(0));
    assert_eq!(capped, Ok(vec![]));
}

#[test]
fn list_of_options() {
    // Two items: Some(5) and None.
    let bytes = [8, 0, 0, 0, 11, 0, 0, 0, 1, 5, 0, 0];
    let got: Result<Vec<Option<u16>>, DecodeError> =
        decode_list_of_variable_length_items(&bytes, None);
    assert_eq!(got, Ok(vec![Some(5), None]));
}

#[test]
fn list_truncated_offset() {
    let got: Result<Vec<Option<u16>>, DecodeError> =
        decode_list_of_variable_length_items(&[4, 0], None);
    assert_eq!(got, Err(DecodeError::InvalidByteLength { len: 2, expected: 4 }));
}

#[test]
fn list_over_maximum() {
    let bytes = [8, 0, 0, 0, 11, 0, 0, 0, 1, 5, 0, 0];
    let got: Result<Vec<Option<u16>>, DecodeError> =
        decode_list_of_variable_length_items(&bytes, Some(1));
    assert!(matches!(got, Err(DecodeError::BytesInvalid(_))));
    let ok: Result<Vec<Option<u16>>, DecodeError> =
        decode_list_of_variable_length_items(&bytes, Some(2));
    assert!(ok.is_ok());
}

#[test]
fn list_decreasing_offsets() {
    // The second offset points before the first one.
    let bytes = [8, 0, 0, 0, 7, 0, 0, 0, 0, 0, 0];
    let got: Result<Vec<Option<u16>>, DecodeError> =
        decode_list_of_variable_length_items(&bytes, None);
    assert_eq!(got, Err(DecodeError::OutOfBoundsByte { i: 7 }));
}

#[test]
fn list_bad_first_offset() {
    let got: Result<Vec<Option<u16>>, DecodeError> =
        decode_list_of_variable_length_items(&[6, 0, 0, 0, 0, 0, 0, 0], None);
    assert_eq!(got, Err(DecodeError::InvalidListFixedBytesLen(6)));
    let got: Result<Vec<Option<u16>>, DecodeError> =
        decode_list_of_variable_length_items(&[9, 0, 0, 0, 0, 0, 0, 0], None);
    assert_eq!(got, Err(DecodeError::OutOfBoundsByte { i: 9 }));
}

#[test]
fn list_trailing_bytes_belong_to_last_item() {
    // The last item runs to the end of the buffer: no check beyond its own decode.
    let bytes = [4, 0, 0, 0, 1, 7, 0];
    let got: Result<Vec<Option<u16>>, DecodeError> =
        decode_list_of_variable_length_items(&bytes, None);
    assert_eq!(got, Ok(vec![Some(7)]));
}

#[test]
fn record_with_list_field() {
    // Fields u16, Option<u16>, u16: the middle field is reached through an offset.
    let bytes = [42, 0, 8, 0, 0, 0, 11, 0, 1, 3, 0];
    assert_eq!(
        <(u16, Option<u16>, u16)>::from_ssz_bytes(&bytes),
        Ok((42, Some(3), 11))
    );
    // The offset points into the fixed part.
    let bad = [42, 0, 7, 0, 0, 0, 11, 0, 1, 3, 0];
    assert_eq!(
        <(u16, Option<u16>, u16)>::from_ssz_bytes(&bad),
        Err(DecodeError::OutOfBoundsByte { i: 7 })
    );
    // The offset points past the end.
    let far = [42, 0, 12, 0, 0, 0, 11, 0, 1, 3, 0];
    assert_eq!(
        <(u16, Option<u16>, u16)>::from_ssz_bytes(&far),
        Err(DecodeError::OutOfBoundsByte { i: 12 })
    );
}

#[test]
fn fixed_tuple_length_errors() {
    assert_eq!(
        <(u16, u16)>::from_ssz_bytes(&[1, 2, 3]),
        Err(DecodeError::InvalidByteLength { len: 3, expected: 4 })
    );
    assert_eq!(
        <(u16, u16)>::from_ssz_bytes(&[1, 2, 3, 4, 5]),
        Err(DecodeError::InvalidByteLength { len: 5, expected: 4 })
    );
}

#[test]
fn usize_fits() {
    assert_eq!(usize::from_ssz_bytes(&[1, 0, 0, 0, 0, 0, 0, 0]), Ok(1));
    assert_eq!(
        usize::from_ssz_bytes(&[1, 0, 0, 0]),
        Err(DecodeError::InvalidByteLength { len: 4, expected: 8 })
    );
}

#[test]
fn twelve_tuple() {
    let bytes: Vec<u8> = (1..=12).collect();
    assert_eq!(
        <(u8, u8, u8, u8, u8, u8, u8, u8, u8, u8, u8, u8)>::from_ssz_bytes(&bytes),
        Ok((1, 2, 3, 4, 5, 6, 7, 8, 9, 10, 11, 12))
    );
    assert_eq!(
        <(u8, u8, u8, u8, u8, u8, u8, u8, u8, u8, u8, u8)>::from_ssz_bytes(&bytes[..11]),
        Err(DecodeError::InvalidByteLength { len: 11, expected: 12 })
    );
}

#[test]
fn five_tuple_round_trip() {
    let v = (1u8, Some(2u16), 3u32, None::<u8>, true);
    let bytes = ssz::as_ssz_bytes(&v);
    assert_eq!(<(u8, Option<u16>, u32, Option<u8>, bool)>::from_ssz_bytes(&bytes), Ok(v));
}

#[test]
fn non_zero_usize_value() {
    assert_eq!(non_zero_usize_value_from_ssz_bytes(&[3, 0, 0, 0, 0, 0, 0, 0]), Ok(3));
    assert!(matches!(
        non_zero_usize_value_from_ssz_bytes(&[0; 8]),
        Err(DecodeError::BytesInvalid(_))
    ));
    assert_eq!(
        non_zero_usize_value_from_ssz_bytes(&[1, 0]),
        Err(DecodeError::InvalidByteLength { len: 2, expected: 8 })
    );
}
