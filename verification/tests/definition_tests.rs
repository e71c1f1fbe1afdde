use sized_number::new_context;
use sized_number::BinaryOptions;
use sized_number::Context;
use sized_number::Endian;
use sized_number::HexOptions;
use sized_number::ScientificOptions;
use sized_number::SizedDefinition;
use sized_number::SizedDisplay;

#[test]
fn lib_test_hex_u8() {
    let data = b"\x00\x7F\x80\xFF".to_vec();

    let tests = vec![
        // index  uppercase   prefix   padded    expected
        (0, false, false, false, "0"),
        (0, true, false, false, "0"),
        (0, false, true, false, "0x0"),
        (0, false, false, true, "00"),
        (0, true, true, true, "0x00"),
        // index  uppercase   prefix   padded    expected
        (1, false, false, false, "7f"),
        (1, true, false, false, "7F"),
        (1, false, true, false, "0x7f"),
        (1, false, false, true, "7f"),
        (1, true, true, true, "0x7F"),
        // index  uppercase   prefix   padded    expected
        (2, false, false, false, "80"),
        (2, true, false, false, "80"),
        (2, false, true, false, "0x80"),
        (2, false, false, true, "80"),
        (2, true, true, true, "0x80"),
        // index  uppercase   prefix   padded    expected
        (3, false, false, false, "ff"),
        (3, true, false, false, "FF"),
        (3, false, true, false, "0xff"),
        (3, false, false, true, "ff"),
        (3, true, true, true, "0xFF"),
    ];

    for (index, uppercase, prefix, padded, expected) in tests {
        let context = new_context(&data, index);

        assert_eq!(
            expected,
            SizedDefinition::U8
                .to_string(
                    &context,
                    SizedDisplay::Hex(HexOptions { uppercase, prefix, padded }),
                )
                .unwrap()
        );
    }
}

#[test]
fn lib_test_hex_u16() {
    let data = b"\x00\x00\x12\x34\xFF\xFF\xFF\xFF".to_vec();

    let tests = vec![
        // index  uppercase   prefix   padded    expected
        (0, false, false, false, "0"),
        (0, true, false, false, "0"),
        (0, false, true, false, "0x0"),
        (0, false, false, true, "0000"),
        (0, true, true, true, "0x0000"),
        // index  uppercase   prefix   padded    expected
        (2, false, false, false, "1234"),
        (2, true, false, false, "1234"),
        (2, false, true, false, "0x1234"),
        (2, false, false, true, "1234"),
        (2, true, true, true, "0x1234"),
        // index  uppercase   prefix   padded    expected
        (4, false, false, false, "ffff"),
        (4, true, false, false, "FFFF"),
        (4, false, true, false, "0xffff"),
        (4, false, false, true, "ffff"),
        (4, true, true, true, "0xFFFF"),
    ];

    for (index, uppercase, prefix, padded, expected) in tests {
        let context = new_context(&data, index);

        assert_eq!(
            expected,
            SizedDefinition::U16(Endian::Big)
                .to_string(
                    &context,
                    SizedDisplay::Hex(HexOptions { uppercase, prefix, padded }),
                )
                .unwrap()
        );
    }
}

#[test]
fn lib_test_hex_u32() {
    let data = b"\x00\x00\x12\x34\xFF\xFF\xFF\xFF".to_vec();

    let tests = vec![
        // index  uppercase   prefix   padded    expected
        (0, false, false, false, "1234"),
        (0, true, false, false, "1234"),
        (0, false, true, false, "0x1234"),
        (0, false, false, true, "00001234"),
        (0, true, true, true, "0x00001234"),
        // index  uppercase   prefix   padded    expected
        (4, false, false, false, "ffffffff"),
        (4, true, false, false, "FFFFFFFF"),
        (4, false, true, false, "0xffffffff"),
        (4, false, false, true, "ffffffff"),
        (4, true, true, true, "0xFFFFFFFF"),
    ];

    for (index, uppercase, prefix, padded, expected) in tests {
        let context = new_context(&data, index);

        assert_eq!(
            expected,
            SizedDefinition::U32(Endian::Big)
                .to_string(
                    &context,
                    SizedDisplay::Hex(HexOptions { uppercase, prefix, padded }),
                )
                .unwrap()
        );
    }
}

#[test]
fn lib_test_hex_u64_big_endian() {
    let data = b"\x00\x00\x12\x34\xFF\xFF\xFF\xFF".to_vec();

    let tests = vec![
        // index  uppercase   prefix   padded    expected
        (0, false, false, false, "1234ffffffff"),
        (0, true, false, false, "1234FFFFFFFF"),
        (0, false, true, false, "0x1234ffffffff"),
        (0, false, false, true, "00001234ffffffff"),
        (0, true, true, true, "0x00001234FFFFFFFF"),
    ];

    for (index, uppercase, prefix, padded, expected) in tests {
        let context = new_context(&data, index);

        assert_eq!(
            expected,
            SizedDefinition::U64(Endian::Big)
                .to_string(
                    &context,
                    SizedDisplay::Hex(HexOptions { uppercase, prefix, padded }),
                )
                .unwrap()
        );
    }
}

#[test]
fn lib_test_hex_u64_little_endian() {
    let data = b"\x00\x12\x34\xFF\xFF\xFF\xFF\x00".to_vec();

    let tests = vec![
        // index  uppercase   prefix   padded    expected
        (0, false, false, false, "ffffffff341200"),
        (0, true, false, false, "FFFFFFFF341200"),
        (0, false, true, false, "0xffffffff341200"),
        (0, false, false, true, "00ffffffff341200"),
        (0, true, true, true, "0x00FFFFFFFF341200"),
    ];

    for (index, uppercase, prefix, padded, expected) in tests {
        let context = new_context(&data, index);

        assert_eq!(
            expected,
            SizedDefinition::U64(Endian::Little)
                .to_string(
                    &context,
                    SizedDisplay::Hex(HexOptions { uppercase, prefix, padded }),
                )
                .unwrap()
        );
    }
}

#[test]
fn lib_test_hex_u128_big_endian() {
    let data =
        b"\x00\x00\x00\x00\x00\x00\x00\x00\x00\x00\x00\x00\x00\x00\x00\x01\x00\x11\x22\x33\x44\x55\x66\x77\x88\x99\xaa\xbb\xcc\xdd\xee\xff"
        .to_vec();

    let tests = vec![
        // index  uppercase   prefix   padded    expected
        (0, false, false, false, "1"),
        (0, true, false, false, "1"),
        (0, false, true, false, "0x1"),
        (0, false, false, true, "00000000000000000000000000000001"),
        (0, true, true, true, "0x00000000000000000000000000000001"),
        // index  uppercase   prefix   padded    expected
        (16, false, false, false, "112233445566778899aabbccddeeff"),
        (16, true, false, false, "112233445566778899AABBCCDDEEFF"),
        (16, false, true, false, "0x112233445566778899aabbccddeeff"),
        (16, false, false, true, "00112233445566778899aabbccddeeff"),
        (16, true, true, true, "0x00112233445566778899AABBCCDDEEFF"),
    ];

    for (index, uppercase, prefix, padded, expected) in tests {
        let context = new_context(&data, index);

        assert_eq!(
            expected,
            SizedDefinition::U128(Endian::Big)
                .to_string(
                    &context,
                    SizedDisplay::Hex(HexOptions { uppercase, prefix, padded }),
                )
                .unwrap()
        );
    }
}

#[test]
fn lib_test_decimal_u8() {
    let data = b"\x00\x7F\x80\xFF".to_vec();

    let tests = vec![(0, "0"), (1, "127"), (2, "128"), (3, "255")];

    for (index, expected) in tests {
        let context = new_context(&data, index);

        assert_eq!(
            expected,
            SizedDefinition::U8.to_string(&context, SizedDisplay::Decimal).unwrap()
        );
    }
}

#[test]
fn lib_test_decimal_i8() {
    let data = b"\x00\x7F\x80\xFF".to_vec();

    let tests = vec![(0, "0"), (1, "127"), (2, "-128"), (3, "-1")];

    for (index, expected) in tests {
        let context = new_context(&data, index);

        assert_eq!(
            expected,
            SizedDefinition::I8.to_string(&context, SizedDisplay::Decimal).unwrap()
        );
    }
}

#[test]
fn lib_test_decimal_u16() {
    let data = b"\x00\xFF\x00\x01\x00\x00\xFF\xFF".to_vec();

    let tests = vec![(0, "255"), (2, "1"), (4, "0"), (6, "65535")];

    for (index, expected) in tests {
        let context = new_context(&data, index);

        assert_eq!(
            expected,
            SizedDefinition::U16(Endian::Big).to_string(&context, SizedDisplay::Decimal).unwrap()
        );
    }
}

#[test]
fn lib_test_decimal_u32() {
    let data = b"\x00\x00\x00\x00\xff\xff\xff\xff\x7f\xff\xff\xff\x80\x00\x00\x00".to_vec();

    let tests = vec![(0, "0"), (4, "4294967295"), (8, "2147483647"), (12, "2147483648")];

    for (index, expected) in tests {
        let context = new_context(&data, index);

        assert_eq!(
            expected,
            SizedDefinition::U32(Endian::Big).to_string(&context, SizedDisplay::Decimal).unwrap()
        );
    }
}

#[test]
fn lib_test_decimal_i32() {
    let data = b"\x00\x00\x00\x00\xff\xff\xff\xff\x7f\xff\xff\xff\x80\x00\x00\x00".to_vec();

    let tests = vec![(0, "0"), (4, "-1"), (8, "2147483647"), (12, "-2147483648")];

    for (index, expected) in tests {
        let context = new_context(&data, index);

        assert_eq!(
            expected,
            SizedDefinition::I32(Endian::Big).to_string(&context, SizedDisplay::Decimal).unwrap()
        );
    }
}

#[test]
fn test_decimal_i64() {
    let data =
        b"\x00\x00\x00\x00\x00\x00\x00\x00\x7f\xff\xff\xff\xff\xff\xff\xff\x80\x00\x00\x00\x00\x00\x00\x00\xff\xff\xff\xff\xff\xff\xff\xff"
        .to_vec();

    let tests = vec![
        (0, "0"),
        (8, "9223372036854775807"),
        (16, "-9223372036854775808"),
        (24, "-1"),
    ];

    for (index, expected) in tests {
        let context = new_context(&data, index);

        assert_eq!(
            expected,
            SizedDefinition::I64(Endian::Big).to_string(&context, SizedDisplay::Decimal).unwrap()
        );
    }
}

#[test]
fn lib_test_decimal_u128() {
    let data =
        b"\x00\x00\x00\x00\x00\x00\x00\x00\x00\x00\x00\x00\x00\x00\x00\x00\xFF\xFF\xFF\xFF\xFF\xFF\xFF\xFF\xFF\xFF\xFF\xFF\xFF\xFF\xFF\xFF"
        .to_vec();

    let tests = vec![(0, "0"), (16, "340282366920938463463374607431768211455")];

    for (index, expected) in tests {
        let context = new_context(&data, index);

        assert_eq!(
            expected,
            SizedDefinition::U128(Endian::Big).to_string(&context, SizedDisplay::Decimal).unwrap()
        );
    }
}

#[test]
fn lib_test_decimal_i128() {
    let data =
        b"\x00\x00\x00\x00\x00\x00\x00\x00\x00\x00\x00\x00\x00\x00\x00\x00\xFF\xFF\xFF\xFF\xFF\xFF\xFF\xFF\xFF\xFF\xFF\xFF\xFF\xFF\xFF\xFF"
        .to_vec();

    let tests = vec![(0, "0"), (16, "-1")];

    for (index, expected) in tests {
        let context = new_context(&data, index);

        assert_eq!(
            expected,
            SizedDefinition::I128(Endian::Big).to_string(&context, SizedDisplay::Decimal).unwrap()
        );
    }
}

#[test]
fn lib_test_octal_u8() {
    let data = b"\x00\x7F\x80\xFF".to_vec();

    let tests = vec![(0, "0"), (1, "177"), (2, "200"), (3, "377")];

    for (index, expected) in tests {
        let context = new_context(&data, index);

        assert_eq!(
            expected,
            SizedDefinition::U8.to_string(&context, SizedDisplay::Octal).unwrap()
        );
    }
}

#[test]
fn lib_test_octal_u16() {
    let data = b"\x00\x00\x12\x34\xFF\xFF\xFF\xFF".to_vec();

    let tests = vec![(0, "0"), (2, "11064"), (4, "177777")];

    for (index, expected) in tests {
        let context = new_context(&data, index);

        assert_eq!(
            expected,
            SizedDefinition::U16(Endian::Big).to_string(&context, SizedDisplay::Octal).unwrap()
        );
    }
}

#[test]
fn lib_test_octal_u32() {
    let data = b"\x00\x00\x12\x34\xFF\xFF\xFF\xFF".to_vec();

    let tests = vec![(0, "11064"), (2, "2215177777"), (4, "37777777777")];

    for (index, expected) in tests {
        let context = new_context(&data, index);

        assert_eq!(
            expected,
            SizedDefinition::U32(Endian::Big).to_string(&context, SizedDisplay::Octal).unwrap()
        );
    }
}

#[test]
fn lib_test_octal_u64() {
    let data = b"\x00\x00\x12\x34\xFF\xFF\xFF\xFF".to_vec();

    let tests = vec![(0, "443237777777777")];

    for (index, expected) in tests {
        let context = new_context(&data, index);

        assert_eq!(
            expected,
            SizedDefinition::U64(Endian::Big).to_string(&context, SizedDisplay::Octal).unwrap()
        );
    }
}

#[test]
fn lib_test_binary_i8() {
    let data = b"\x00\x00\x12\xab\xFF\xFF\xFF\xFF".to_vec();

    let tests = vec![
        // index   padded   expected
        (0, true, "00000000"),
        (1, true, "00000000"),
        (2, true, "00010010"),
        (3, true, "10101011"),
        (4, true, "11111111"),
        (5, true, "11111111"),
        (0, false, "0"),
        (1, false, "0"),
        (2, false, "10010"),
        (3, false, "10101011"),
        (4, false, "11111111"),
        (5, false, "11111111"),
    ];

    for (index, padded, expected) in tests {
        let context = new_context(&data, index);

        assert_eq!(
            expected,
            SizedDefinition::U8
                .to_string(&context, SizedDisplay::Binary(BinaryOptions { padded }))
                .unwrap()
        );
    }
}

#[test]
fn lib_test_scientific_u32() {
    let data = b"\x00\x00\x00\x00\x7f\xff\xff\xff\x80\x00\x00\x00\xff\xff\xff\xff".to_vec();

    let tests = vec![
        // index  uppercase  expected
        (0, false, "0e0"),
        (4, false, "2.147483647e9"),
        (8, false, "2.147483648e9"),
        (12, false, "4.294967295e9"),
        (0, true, "0E0"),
        (4, true, "2.147483647E9"),
        (8, true, "2.147483648E9"),
        (12, true, "4.294967295E9"),
    ];

    for (index, uppercase, expected) in tests {
        let context = new_context(&data, index);

        assert_eq!(
            expected,
            SizedDefinition::U32(Endian::Big)
                .to_string(&context, SizedDisplay::Scientific(ScientificOptions { uppercase }))
                .unwrap()
        );
    }
}

#[test]
fn lib_test_scientific_i32() {
    let data = b"\x00\x00\x00\x00\x7f\xff\xff\xff\x80\x00\x00\x00\xff\xff\xff\xff".to_vec();

    let tests = vec![
        // index  uppercase  expected
        (0, false, "0e0"),
        (4, false, "2.147483647e9"),
        (8, false, "-2.147483648e9"),
        (12, false, "-1e0"),
        (0, true, "0E0"),
        (4, true, "2.147483647E9"),
        (8, true, "-2.147483648E9"),
        (12, true, "-1E0"),
    ];

    for (index, uppercase, expected) in tests {
        let context = new_context(&data, index);

        assert_eq!(
            expected,
            SizedDefinition::I32(Endian::Big)
                .to_string(&context, SizedDisplay::Scientific(ScientificOptions { uppercase }))
                .unwrap()
        );
    }
}

#[test]
fn lib_test_buffer_too_short() {
    let data = b"".to_vec();
    assert!(SizedDefinition::I8.to_string(&Context::new(&data), SizedDisplay::Decimal).is_err());

    let data = b"A".to_vec();
    assert!(
        SizedDefinition::I16(Endian::Big)
            .to_string(&Context::new(&data), SizedDisplay::Decimal)
            .is_err()
    );

    let data = b"AAA".to_vec();
    assert!(
        SizedDefinition::I32(Endian::Big)
            .to_string(&Context::new(&data), SizedDisplay::Decimal)
            .is_err()
    );

    let data = b"AAAAAAA".to_vec();
    assert!(
        SizedDefinition::I64(Endian::Big)
            .to_string(&Context::new(&data), SizedDisplay::Decimal)
            .is_err()
    );

    let data = b"AAAAAAAAAAAAAAA".to_vec();
    assert!(
        SizedDefinition::I128(Endian::Big)
            .to_string(&Context::new(&data), SizedDisplay::Decimal)
            .is_err()
    );
}

#[test]
fn test_to_u64() {
    let data = b"\x00\x7F\x80\xFF\x00\x01\x02\x03".to_vec();

    assert_eq!(0u64, SizedDefinition::U8.to_u64(&new_context(&data, 0)).unwrap());
    assert_eq!(127u64, SizedDefinition::U8.to_u64(&new_context(&data, 1)).unwrap());
    assert_eq!(128u64, SizedDefinition::U8.to_u64(&new_context(&data, 2)).unwrap());
    assert_eq!(255u64, SizedDefinition::U8.to_u64(&new_context(&data, 3)).unwrap());

    assert_eq!(127u64, SizedDefinition::U16(Endian::Big).to_u64(&new_context(&data, 0)).unwrap());
    assert_eq!(
        8356095u64,
        SizedDefinition::U32(Endian::Big).to_u64(&new_context(&data, 0)).unwrap()
    );
    assert_eq!(
        35889154747335171u64,
        SizedDefinition::U64(Endian::Big).to_u64(&new_context(&data, 0)).unwrap()
    );

    assert!(SizedDefinition::U128(Endian::Big).to_u64(&new_context(&data, 0)).is_err());
    assert!(SizedDefinition::I8.to_u64(&new_context(&data, 0)).is_err());
    assert!(SizedDefinition::I16(Endian::Big).to_u64(&new_context(&data, 0)).is_err());
    assert!(SizedDefinition::I32(Endian::Big).to_u64(&new_context(&data, 0)).is_err());
    assert!(SizedDefinition::I64(Endian::Big).to_u64(&new_context(&data, 0)).is_err());
    assert!(SizedDefinition::F32(Endian::Big).to_u64(&new_context(&data, 0)).is_err());
    assert!(SizedDefinition::F64(Endian::Big).to_u64(&new_context(&data, 0)).is_err());
}

#[test]
fn test_to_i64() {
    let data = b"\x00\x7F\x80\xFF\x00\x01\x02\x03\x80\x00\x00\x00\x00\x00\x00\x00".to_vec();

    assert_eq!(0i64, SizedDefinition::I8.to_i64(&new_context(&data, 0)).unwrap());
    assert_eq!(127i64, SizedDefinition::I8.to_i64(&new_context(&data, 1)).unwrap());
    assert_eq!(-128i64, SizedDefinition::I8.to_i64(&new_context(&data, 2)).unwrap());
    assert_eq!(-1i64, SizedDefinition::I8.to_i64(&new_context(&data, 3)).unwrap());

    assert_eq!(127i64, SizedDefinition::I16(Endian::Big).to_i64(&new_context(&data, 0)).unwrap());
    assert_eq!(
        -32768i64,
        SizedDefinition::I16(Endian::Big).to_i64(&new_context(&data, 8)).unwrap()
    );

    assert_eq!(
        8356095i64,
        SizedDefinition::I32(Endian::Big).to_i64(&new_context(&data, 0)).unwrap()
    );
    assert_eq!(
        -2147483648i64,
        SizedDefinition::I32(Endian::Big).to_i64(&new_context(&data, 8)).unwrap()
    );

    assert_eq!(
        35889154747335171i64,
        SizedDefinition::I64(Endian::Big).to_i64(&new_context(&data, 0)).unwrap()
    );
    assert_eq!(
        -9223372036854775808i64,
        SizedDefinition::I64(Endian::Big).to_i64(&new_context(&data, 8)).unwrap()
    );

    assert!(SizedDefinition::I128(Endian::Big).to_i64(&new_context(&data, 0)).is_err());
    assert!(SizedDefinition::U8.to_i64(&new_context(&data, 0)).is_err());
    assert!(SizedDefinition::U16(Endian::Big).to_i64(&new_context(&data, 0)).is_err());
    assert!(SizedDefinition::U32(Endian::Big).to_i64(&new_context(&data, 0)).is_err());
    assert!(SizedDefinition::U64(Endian::Big).to_i64(&new_context(&data, 0)).is_err());
    assert!(SizedDefinition::F32(Endian::Big).to_i64(&new_context(&data, 0)).is_err());
    assert!(SizedDefinition::F64(Endian::Big).to_i64(&new_context(&data, 0)).is_err());
}
