use ethereum_tx_sign::{EcdsaSig, RawTransaction, H160, U256};

fn hex(text: &str) -> Vec<u8> {
    let digits: Vec<u8> = text
        .bytes()
        .map(|c| match c {
            b'0'..=b'9' => c - b'0',
            b'a'..=b'f' => c - b'a' + 10,
            _ => panic!("not a hex digit"),
        })
        .collect();
    digits.chunks(2).map(|pair| pair[0] * 16 + pair[1]).collect()
}

fn compact(r: &str, s: &str) -> [u8; 64] {
    let mut bytes = [0u8; 64];
    bytes[..32].copy_from_slice(&hex(r));
    bytes[32..].copy_from_slice(&hex(s));
    bytes
}

fn reference_transaction() -> RawTransaction {
    RawTransaction {
        nonce: U256::from_u64(9),
        to: Some(H160([0x35; 20])),
        value: U256::from_u64(1_000_000_000_000_000_000),
        gas_price: U256::from_u64(20_000_000_000),
        gas: U256::from_u64(21_000),
        data: Vec::new(),
    }
}

fn small_transaction(data: Vec<u8>) -> RawTransaction {
    RawTransaction {
        nonce: U256::from_u64(1),
        to: Some(H160([0xab; 20])),
        value: U256::from_u64(4),
        gas_price: U256::from_u64(2),
        gas: U256::from_u64(3),
        data,
    }
}

#[test]
fn unsigned_encoding_of_the_reference_transaction() {
    assert_eq!(
        reference_transaction().encode_unsigned(1),
        hex(
            "ec098504a817c800825208943535353535353535353535353535353535353535880de0b6b3a7640000\
             80018080"
        )
    );
}

#[test]
fn unsigned_encoding_is_the_same_each_time() {
    let tx = reference_transaction();
    assert_eq!(tx.encode_unsigned(3), tx.encode_unsigned(3));
    assert_eq!(tx.clone().encode_unsigned(3), tx.encode_unsigned(3));
    assert_eq!(tx.hash(3), tx.hash(3));
}

#[test]
fn unsigned_encoding_holds_the_chain_id() {
    let tx = reference_transaction();
    let on_one = tx.encode_unsigned(1);
    let on_three = tx.encode_unsigned(3);
    assert_ne!(on_one, on_three);
    assert_eq!(on_one[42..], [0x01, 0x80, 0x80]);
    assert_eq!(on_three[42..], [0x03, 0x80, 0x80]);
}

#[test]
fn chain_id_zero_is_the_empty_string() {
    let bytes = reference_transaction().encode_unsigned(0);
    assert_eq!(bytes[42..], [0x80, 0x80, 0x80]);
    assert_eq!(
        bytes,
        hex(
            "ec098504a817c800825208943535353535353535353535353535353535353535880de0b6b3a7640000\
             80808080"
        )
    );
}

#[test]
fn default_transaction_on_chain_zero_is_nine_empty_strings() {
    let tx = RawTransaction::default();
    assert_eq!(tx.encode_unsigned(0), hex("c9808080808080808080"));
    assert_eq!(
        tx.hash(0),
        hex("c5b2c658f5fa236c598a6e7fbf7f21413dc42e2a41dd982eb772b30707cba2eb")
    );
}

#[test]
fn chain_id_above_127_gets_a_header() {
    assert_eq!(
        reference_transaction().encode_unsigned(200),
        hex(
            "ed098504a817c800825208943535353535353535353535353535353535353535880de0b6b3a7640000\
             8081c88080"
        )
    );
}

#[test]
fn contract_creation_has_an_empty_recipient() {
    let tx = RawTransaction {
        nonce: U256::zero(),
        to: None,
        value: U256::zero(),
        gas_price: U256::from_u64(1_000_000_000),
        gas: U256::from_u64(3_000_000),
        data: hex("6060604052"),
    };
    // nonce, gas price, gas, then the recipient as 0x80 and the value as 0x80.
    assert_eq!(tx.encode_unsigned(3), hex("d580843b9aca00832dc6c08080856060604052038080"));
}

#[test]
fn recipient_of_zero_bytes_is_not_empty() {
    let mut tx = small_transaction(Vec::new());
    tx.to = Some(H160([0; 20]));
    assert_eq!(
        tx.encode_unsigned(3),
        hex("dd0102039400000000000000000000000000000000000000000480038080")
    );
    tx.to = None;
    assert_eq!(tx.encode_unsigned(3), hex("c9010203800480038080"));
}

#[test]
fn default_transaction_is_a_list_of_empty_strings() {
    let tx = RawTransaction::default();
    assert_eq!(tx.encode_unsigned(1), hex("c9808080808080018080"));
}

#[test]
fn single_byte_of_data_below_0x80_stands_for_itself() {
    assert_eq!(
        small_transaction(vec![0x7f]).encode_unsigned(3),
        hex("dd01020394abababababababababababababababababababab047f038080")
    );
}

#[test]
fn single_byte_of_data_from_0x80_gets_a_header() {
    assert_eq!(
        small_transaction(vec![0x80]).encode_unsigned(3),
        hex("de01020394abababababababababababababababababababab048180038080")
    );
}

#[test]
fn data_of_55_and_56_bytes() {
    let short = small_transaction(vec![0x11; 55]).encode_unsigned(3);
    assert_eq!(short.len(), 2 + 3 + 21 + 1 + 56 + 3);
    assert_eq!(short[..2], [0xf8, 84]);
    assert_eq!(short[27], 0x80 + 55);
    let long = small_transaction(vec![0x11; 56]).encode_unsigned(3);
    assert_eq!(long.len(), 2 + 3 + 21 + 1 + 58 + 3);
    assert_eq!(long[..2], [0xf8, 86]);
    assert_eq!(long[27..29], [0xb8, 56]);
}

#[test]
fn data_of_300_bytes_has_two_length_bytes() {
    let data: Vec<u8> = (0..300u32).map(|i| (i % 251) as u8).collect();
    let bytes = small_transaction(data.clone()).encode_unsigned(3);
    assert_eq!(bytes.len(), 334);
    assert_eq!(
        bytes[..40],
        hex("f9014b01020394abababababababababababababababababababab04b9012c000102030405060708")[..]
    );
    assert_eq!(bytes[31..331], data[..]);
    assert_eq!(bytes[331..], [0x03, 0x80, 0x80]);
}

#[test]
fn data_of_70000_bytes_has_three_length_bytes() {
    let data: Vec<u8> = (0..70_000u32).map(|i| (i % 251) as u8).collect();
    let tx = small_transaction(data.clone());
    let bytes = tx.encode_unsigned(3);
    assert_eq!(bytes.len(), 70_036);
    assert_eq!(
        bytes[..36],
        hex("fa01119001020394abababababababababababababababababababab04ba011170000102")[..]
    );
    assert_eq!(bytes[33..70_033], data[..]);
    assert_eq!(bytes[70_033..], [0x03, 0x80, 0x80]);
    assert_eq!(
        tx.hash(3),
        hex("2897312d579a2916492d102330542cf14d74c4f77e46cb3634913845b771d031")
    );
}

#[test]
fn data_of_16_mebibytes_has_four_length_bytes() {
    let data: Vec<u8> = (0..16_777_216u32).map(|i| (i % 251) as u8).collect();
    let tx = small_transaction(data.clone());
    let bytes = tx.encode_unsigned(3);
    assert_eq!(bytes.len(), 16_777_254);
    assert_eq!(
        bytes[..36],
        hex("fb0100002101020394abababababababababababababababababababab04bb0100000000")[..]
    );
    assert!(bytes[35..16_777_251] == data[..]);
    assert_eq!(bytes[16_777_251..], [0x03, 0x80, 0x80]);
    assert_eq!(
        tx.hash(3),
        hex("b0301f77c4a7630b7a4f2002013a76eaf7b9603ff4c11071fabf0f6aa08dfe3f")
    );
}

#[test]
fn numbers_are_encoded_without_leading_zeros() {
    let tx = RawTransaction {
        nonce: U256::from_big_endian(&hex("010000000000000005")).unwrap(),
        to: Some(H160([0x35; 20])),
        value: U256::from_u64(0x80),
        gas_price: U256([0xff; 32]),
        gas: U256::from_u64(0x7f),
        data: Vec::new(),
    };
    assert_eq!(
        tx.encode_unsigned(1),
        hex(
            "f84789010000000000000005a0ffffffffffffffffffffffffffffffffffffffffffffffffffffffff\
             ffffffff7f943535353535353535353535353535353535353535818080018080"
        )
    );
}

#[test]
fn hash_of_the_reference_transaction() {
    assert_eq!(
        reference_transaction().hash(1),
        hex("daf5a779ae972f972197303d7b574746c7ef83eadac0f2791ad23db92e4c8e53")
    );
    assert_eq!(
        reference_transaction().hash(0),
        hex("e73325f4f8ed442d553cd10d40822f73729a5ee65ce44d90c928b986f136a282")
    );
}

#[test]
fn hash_of_data_longer_than_a_block() {
    let data: Vec<u8> = (0..300u32).map(|i| (i % 251) as u8).collect();
    assert_eq!(
        small_transaction(data).hash(3),
        hex("f1cbe7ed8f9c6343917d6d69f3b589baf081a7fea53bed5af73c9fdfc50927e8")
    );
}

#[test]
fn signed_encoding_of_the_reference_transaction() {
    let sig = EcdsaSig::from_recoverable(
        0,
        &compact(
            "28ef61340bd939bc2195fe537567866003e1a15d3c71ff63e1590620aa636276",
            "67cbe9d8997f761aecb703304b3800ccf555c9f3dc64214b297fb1966a3b6d83",
        ),
        1,
    );
    assert_eq!(
        reference_transaction().encode_signed(&sig),
        hex(
            "f86c098504a817c800825208943535353535353535353535353535353535353535880de0b6b3a7640000\
             8025a028ef61340bd939bc2195fe537567866003e1a15d3c71ff63e1590620aa636276a067cbe9d8997f\
             761aecb703304b3800ccf555c9f3dc64214b297fb1966a3b6d83"
        )
    );
}

#[test]
fn signed_encoding_with_short_components() {
    let mut zero_r = [0u8; 64];
    zero_r[63] = 0x05;
    let sig = EcdsaSig::from_recoverable(1, &zero_r, 3);
    // `v` is 42, `r` is zero and so empty, `s` is the single byte 5.
    assert_eq!(
        small_transaction(Vec::new()).encode_signed(&sig),
        hex("dd01020394abababababababababababababababababababab04802a8005")
    );
}
