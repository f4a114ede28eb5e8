use ethereum_tx_sign::{RawTransaction, SignError, H160, H256, U256};

fn hex(text: &str) -> Vec<u8> {
    let digits: Vec<u8> = text
        .bytes()
        .map(|c| match c {
            b'0'..=b'9' => c - b'0',
            b'a'..=b'f' => c - b'a' + 10,
            _ => panic!("not a hex digit"),
        })
        .collect();
    digits.chunks(2).map(|pair| pair[0] * 16 + pair[1]).collect()
}

fn key(text: &str) -> H256 {
    let mut bytes = [0u8; 32];
    bytes.copy_from_slice(&hex(text));
    H256(bytes)
}

fn address(text: &str) -> H160 {
    let mut bytes = [0u8; 20];
    bytes.copy_from_slice(&hex(text));
    H160(bytes)
}

fn reference_transaction() -> RawTransaction {
    RawTransaction {
        nonce: U256::from_u64(9),
        to: Some(H160([0x35; 20])),
        value: U256::from_u64(1_000_000_000_000_000_000),
        gas_price: U256::from_u64(20_000_000_000),
        gas: U256::from_u64(21_000),
        data: Vec::new(),
    }
}

fn contract_creation() -> RawTransaction {
    RawTransaction {
        nonce: U256::zero(),
        to: None,
        value: U256::zero(),
        gas_price: U256::from_u64(1_000_000_000),
        gas: U256::from_u64(3_000_000),
        data: hex("6060604052"),
    }
}

fn wide_transaction() -> RawTransaction {
    RawTransaction {
        nonce: U256::from_big_endian(&hex("010000000000000005")).unwrap(),
        to: Some(address("0000000000000000000000000000000000000001")),
        value: U256::from_u64(0x80),
        gas_price: U256([0xff; 32]),
        gas: U256::from_u64(0x7f),
        data: (0u8..60).collect(),
    }
}

const KEY_A: &str = "4646464646464646464646464646464646464646464646464646464646464646";
const KEY_B: &str = "2a3526dd05ad2ebba87673f711ef8c336115254ef8fcd38c4d8166db9a8120e4";

fn fixtures_eth() -> Vec<(RawTransaction, H256, Vec<u8>)> {
    vec![
        (
            reference_transaction(),
            key(KEY_A),
            hex(
                "f86c098504a817c800825208943535353535353535353535353535353535353535880de0b6b3a764\
                 00008024a0c338da08d52425b2999c68e122f122f0a66150ea8e0befe2c89dc1fdb01d6819a02728\
                 ce0805397fedddcd5fb009cc75807c0e4ea5c46a644b810ad805e8b98316",
            ),
        ),
        (
            contract_creation(),
            key(KEY_B),
            hex(
                "f85580843b9aca00832dc6c0808085606060405224a08d108b8ef9f73b1d40a0b308d1cd4e859c11\
                 294a886c9c2299986630d8544726a004acdd23093a3af6f146c64f891846cf1a4c3542f767acf750\
                 a0e2c6aabf9494",
            ),
        ),
        (
            wide_transaction(),
            key(KEY_B),
            hex(
                "f8c489010000000000000005a0ffffffffffffffffffffffffffffffffffffffffffffffffffffff\
                 ffffffffff7f9400000000000000000000000000000000000000018180b83c000102030405060708\
                 090a0b0c0d0e0f101112131415161718191a1b1c1d1e1f202122232425262728292a2b2c2d2e2f30\
                 3132333435363738393a3b23a047715358f82a6a3d7d27ad4fb997a3c90fd8f99377fc376e068a64\
                 7f7d51bfc2a00488c272d9592cd470fd942ff14c7d7bffcfaeb4ac56dd053622a6d359767f15",
            ),
        ),
    ]
}

fn fixtures_ropsten() -> Vec<(RawTransaction, H256, Vec<u8>)> {
    vec![
        (
            reference_transaction(),
            key(KEY_A),
            hex(
                "f86c098504a817c800825208943535353535353535353535353535353535353535880de0b6b3a764\
                 00008029a008dc50c96429b22397e3d2551b291b52d9b0405ccd0ac3a9425bd5c77c3403c0a05edc\
                 66b3804e964ee6750a0a206cf1321394c606936eaf469d481fd8c1e59773",
            ),
        ),
        (
            contract_creation(),
            key(KEY_B),
            hex(
                "f85580843b9aca00832dc6c080808560606040522aa0d93af007532a7159bdf765cc6d0005d9f525\
                 c3b9291bf74c20956403073c3882a0627367698cec4df9235e0eedc0c9b2caddac5a5c2090e6be5d\
                 1d35557683503f",
            ),
        ),
        (
            wide_transaction(),
            key(KEY_B),
            hex(
                "f8c489010000000000000005a0ffffffffffffffffffffffffffffffffffffffffffffffffffffff\
                 ffffffffff7f9400000000000000000000000000000000000000018180b83c000102030405060708\
                 090a0b0c0d0e0f101112131415161718191a1b1c1d1e1f202122232425262728292a2b2c2d2e2f30\
                 3132333435363738393a3b2aa004e0e35c603d568a8b91e82f745ae210111c6da8cf67b742785a3b\
                 33122b7225a04b8d1418c225c505427b545c1eba8f3b532baf95c39881bdebedbc40fe4252b2",
            ),
        ),
    ]
}

#[test]
fn test_signs_transaction_eth() {
    let chain_id = 0;
    for (tx, private_key, signed) in fixtures_eth().into_iter() {
        assert_eq!(signed, tx.sign(&private_key, &chain_id).unwrap());
    }
}

#[test]
fn test_signs_transaction_ropsten() {
    let chain_id = 3;
    for (tx, private_key, signed) in fixtures_ropsten().into_iter() {
        assert_eq!(signed, tx.sign(&private_key, &chain_id).unwrap());
    }
}

#[test]
fn signs_the_reference_transaction() {
    let signed = reference_transaction().sign(&key(KEY_A), &1).unwrap();
    assert_eq!(
        signed,
        hex(
            "f86c098504a817c800825208943535353535353535353535353535353535353535880de0b6b3a7640000\
             8025a028ef61340bd939bc2195fe537567866003e1a15d3c71ff63e1590620aa636276a067cbe9d8997f\
             761aecb703304b3800ccf555c9f3dc64214b297fb1966a3b6d83"
        )
    );
}

#[test]
fn signing_depends_on_the_key() {
    let one = key("0000000000000000000000000000000000000000000000000000000000000001");
    let signed = reference_transaction().sign(&one, &1).unwrap();
    assert_eq!(
        signed,
        hex(
            "f86c098504a817c800825208943535353535353535353535353535353535353535880de0b6b3a7640000\
             8025a0c44b8c8b4f0b9ac6a006efb6ef7b4726114e1502cef33614b9186709364d1757a0393a09d1679f\
             54c8ad8775a112b524d67cf1760513f99eb0eaee991c9cfe21b9"
        )
    );
}

#[test]
fn signing_twice_gives_the_same_bytes() {
    let tx = wide_transaction();
    assert_eq!(tx.sign(&key(KEY_B), &3), tx.sign(&key(KEY_B), &3));
}

#[test]
fn chain_id_changes_v_and_the_bytes() {
    let tx = reference_transaction();
    let on_one = tx.sign(&key(KEY_A), &1).unwrap();
    let on_three = tx.sign(&key(KEY_A), &3).unwrap();
    assert_ne!(on_one, on_three);
    // `v` follows the 43 bytes of the list header and the six items.
    assert_eq!(on_one[43], 37);
    assert_eq!(on_three[43], 41);
    assert_eq!(on_one[..43], on_three[..43]);
}

#[test]
fn v_of_a_high_chain_id_takes_two_bytes() {
    let tx = reference_transaction();
    assert_eq!(
        tx.sign(&key(KEY_A), &110).unwrap(),
        hex(
            "f86d098504a817c800825208943535353535353535353535353535353535353535880de0b6b3a7640000\
             8081ffa096276da2b8ddf12193973db2de9cc291249139b6f81c8a1b1111ec042f36fedda03721df1eea\
             f858ca655c6c8902b4ba8b09c20941d84e77b4234b04d4a64c6976"
        )
    );
    assert_eq!(
        tx.sign(&key(KEY_A), &200).unwrap(),
        hex(
            "f86e098504a817c800825208943535353535353535353535353535353535353535880de0b6b3a7640000\
             808201b3a0c81363f4d3f006f5a6a2ff9d88fa0d948ee2c345ebc0ababf717a8721159073ca0180f6717\
             e2c2b5ad81da6cf2fa4c38e5ab5e7e21c072449e7fe90b95c39f116b"
        )
    );
    assert_eq!(
        tx.sign(&key(KEY_A), &255).unwrap(),
        hex(
            "f86e098504a817c800825208943535353535353535353535353535353535353535880de0b6b3a7640000\
             80820221a06aa814234067999e3b9d0b83c04076368af3c18ef467cdbb3eded8ce509e4bb2a07883134a\
             69cd3a3367d9005e955fd0a9a961961c3790b9e0fd891380cb92206f"
        )
    );
}

#[test]
fn a_component_with_a_leading_zero_is_shortened() {
    let tx = RawTransaction {
        nonce: U256::from_u64(55),
        to: Some(H160([0x11; 20])),
        value: U256::from_u64(55),
        gas_price: U256::from_u64(1),
        gas: U256::from_u64(21_000),
        data: Vec::new(),
    };
    // `s` has 31 bytes here: its header is 0x9f, not 0xa0 before a zero byte.
    assert_eq!(
        tx.sign(&key(KEY_B), &1).unwrap(),
        hex(
            "f85e3701825208941111111111111111111111111111111111111111378026a0cf4f98fbd8aa34e8dba9\
             00c95b88defd55716a882689630e61f066f5e01e87549fcc1b1e072e0c64a44368db2dcec8a470056005\
             1105ce3163a17393e2e2eb57"
        )
    );
}

#[test]
fn zero_key_is_rejected() {
    let signed = reference_transaction().sign(&H256([0; 32]), &1);
    assert_eq!(signed, Err(SignError::InvalidKey));
}

#[test]
fn key_at_or_above_the_curve_order_is_rejected() {
    let order = "fffffffffffffffffffffffffffffffebaaedce6af48a03bbfd25e8cd0364141";
    let tx = reference_transaction();
    assert_eq!(tx.sign(&key(order), &1), Err(SignError::InvalidKey));
    assert_eq!(tx.sign(&H256([0xff; 32]), &1), Err(SignError::InvalidKey));
}

#[test]
fn key_just_below_the_curve_order_is_accepted() {
    let below = "fffffffffffffffffffffffffffffffebaaedce6af48a03bbfd25e8cd0364140";
    assert!(reference_transaction().sign(&key(below), &1).is_ok());
}
