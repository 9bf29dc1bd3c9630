use mempool_sniper::decoder::{decode_payload, decode_transaction, is_target_transaction};
use mempool_sniper::word::{Address, U256};

fn hex(s: &str) -> Vec<u8> {
    let s: String = s.chars().filter(|c| !c.is_whitespace()).collect();
    (0..s.len() / 2)
        .map(|i| u8::from_str_radix(&s[2 * i..2 * i + 2], 16).unwrap())
        .collect()
}

fn addr(s: &str) -> Address {
    Address { bytes: hex(s.trim_start_matches("0x")) }
}

fn word(v: u128) -> String {
    format!("{:064x}", v)
}

fn addr_word(s: &str) -> String {
    format!("{:0>64}", s.trim_start_matches("0x").to_lowercase())
}

const ETH_FOR_TOKENS: &str = "7ff36ab500000000000000000000000000000000000000000000000000000000000003e8\
     0000000000000000000000000000000000000000000000000000000000000080\
     000000000000000000000000742d35cc6634c0532925a3b844bc9e7595f0beb0\
     000000000000000000000000000000000000000000000000000000006555a3a0\
     0000000000000000000000000000000000000000000000000000000000000002\
     000000000000000000000000c02aaa39b223fe8d0a0e5c4f27ead9083c756cc2\
     000000000000000000000000dac17f958d2ee523a2206206994597c13d831ec7";

const TOKENS_FOR_ETH: &str = "18cbafe5\
     0000000000000000000000000000000000000000000000000000000000001388\
     00000000000000000000000000000000000000000000000000000000000003e8\
     00000000000000000000000000000000000000000000000000000000000000a0\
     000000000000000000000000742d35cc6634c0532925a3b844bc9e7595f0beb0\
     000000000000000000000000000000000000000000000000000000006555a3a0\
     0000000000000000000000000000000000000000000000000000000000000002\
     000000000000000000000000dac17f958d2ee523a2206206994597c13d831ec7\
     000000000000000000000000c02aaa39b223fe8d0a0e5c4f27ead9083c756cc2";

#[test]
fn test_swap_exact_eth_for_tokens() {
    let input = vec![0x7f, 0xf3, 0x6a, 0xb5, 0x00, 0x00, 0x00, 0x00];
    assert!(is_target_transaction(&input));
}

#[test]
fn test_exact_input_single_selector() {
    let input = vec![0x41, 0x4b, 0xf3, 0x89, 0x00, 0x00, 0x00, 0x00];
    assert!(is_target_transaction(&input));
}

#[test]
fn test_multicall_v3_selector() {
    let input = vec![0x5a, 0xe4, 0x01, 0xdc, 0x00, 0x00, 0x00, 0x00];
    assert!(is_target_transaction(&input));
}

#[test]
fn test_decode_v2_with_eth_value() {
    let calldata = hex(ETH_FOR_TOKENS);
    let tx_value = U256::from_u128(1_000_000_000_000_000_000u128);
    let decoded = decode_transaction(&calldata, tx_value).unwrap();

    assert_eq!(decoded.effective_value, tx_value);
    assert_eq!(decoded.amount_out_min, U256::from_u128(1000));
    assert_eq!(decoded.method, "swapExactETHForTokens");
}

#[test]
fn test_decode_v2_tokens_with_amount_in() {
    let calldata = hex(TOKENS_FOR_ETH);
    let tx_value = U256::zero();
    let decoded = decode_transaction(&calldata, tx_value).unwrap();

    assert_eq!(decoded.effective_value, U256::from_u128(5000));
    assert_eq!(decoded.method, "swapExactTokensForETH");
}

#[test]
fn test_decode_fail_open() {
    let invalid_data = vec![0x7f, 0xf3, 0x6a, 0xb5, 0x00, 0x00];
    let tx_value = U256::from_u128(1_000_000_000_000_000_000u128);

    let decoded = decode_transaction(&invalid_data, tx_value);
    assert!(decoded.is_ok());
    let decoded = decoded.unwrap();
    assert_eq!(decoded.effective_value, tx_value);
    assert_eq!(decoded.method, "Unknown");
}

#[test]
fn test_v3_selector_detection() {
    let v3_calldata = hex("414bf389000000000000000000000000");
    assert!(
        is_target_transaction(&v3_calldata),
        "Should detect Uniswap V3 exactInputSingle"
    );

    let multicall_data = hex("5ae401dc000000000000000000000000");
    assert!(
        is_target_transaction(&multicall_data),
        "Should detect Uniswap V3 multicall"
    );
}

#[test]
fn test_native_transfer_handling() {
    let empty_input: Vec<u8> = vec![];
    let tx_value = U256::from_u128(1_000_000_000_000_000_000u128);

    let decoded = decode_transaction(&empty_input, tx_value);
    assert!(decoded.is_ok(), "Native transfer should decode successfully");

    let decoded = decoded.unwrap();
    assert_eq!(decoded.method, "Native Transfer");
    assert_eq!(decoded.effective_value, tx_value);
}

#[test]
fn test_weth_swap_value_calculation() {
    let calldata = hex(TOKENS_FOR_ETH);
    let tx_value = U256::zero();
    let decoded = decode_transaction(&calldata, tx_value).unwrap();

    assert_eq!(decoded.effective_value, U256::from_u128(5000));
    assert_eq!(decoded.method, "swapExactTokensForETH");
}

#[test]
fn test_all_selectors_detected() {
    let selectors = vec![
        ("7ff36ab5", "swapExactETHForTokens"),
        ("18cbafe5", "swapExactTokensForETH"),
        ("38ed1739", "swapExactTokensForTokens"),
        ("fb3bdb41", "swapETHForExactTokens"),
        ("414bf389", "exactInputSingle"),
        ("c04b8d59", "exactInput"),
        ("5ae401dc", "multicall"),
        ("24856229", "execute"),
        ("12aa3caf", "aggregatorSwap"),
        ("bc651e96", "uniswapV3SwapTo"),
    ];

    for (selector_hex, _expected_name) in selectors {
        let calldata = hex(&format!("{}00000000", selector_hex));
        assert!(
            is_target_transaction(&calldata),
            "Selector 0x{} should be detected",
            selector_hex
        );
    }
}

#[test]
fn test_threshold_filtering() {
    let threshold = U256::from_u128(10_000_000_000_000_000u128);

    let below = U256::from_u128(5_000_000_000_000_000u128);
    assert!(below.lt(&threshold), "0.005 ETH should be below 0.01 ETH threshold");

    let at = U256::from_u128(10_000_000_000_000_000u128);
    assert!(!at.lt(&threshold), "0.01 ETH should meet threshold");

    let above = U256::from_u128(50_000_000_000_000_000u128);
    assert!(!above.lt(&threshold), "0.05 ETH should be above threshold");
}

#[test]
fn test_malformed_calldata_fail_open() {
    let malformed_cases = vec![
        vec![0x7f, 0xf3, 0x6a],
        vec![0x7f, 0xf3, 0x6a, 0xb5],
        vec![0x7f, 0xf3, 0x6a, 0xb5, 0x00, 0x00],
    ];

    for malformed_data in malformed_cases {
        let result = decode_transaction(&malformed_data, U256::zero());
        assert!(result.is_ok(), "Malformed data should not panic, should fail open");
    }
}

#[test]
fn eth_for_tokens_decodes_every_field() {
    let decoded = decode_payload(&hex(ETH_FOR_TOKENS), U256::from_u128(77));
    assert_eq!(decoded.method, "swapExactETHForTokens");
    assert_eq!(decoded.amount_out_min, U256::from_u128(1000));
    assert_eq!(
        decoded.path,
        vec![
            addr("C02aaA39b223FE8D0A0e5C4F27eAD9083C756Cc2"),
            addr("dAC17F958D2ee523a2206206994597C13D831ec7"),
        ]
    );
    assert_eq!(decoded.to, addr("742d35Cc6634C0532925a3b844Bc9e7595f0bEb0"));
    assert_eq!(decoded.deadline, U256::from_u128(0x6555a3a0));
    assert_eq!(decoded.effective_value, U256::from_u128(77));
}

#[test]
fn declared_amount_below_observed_keeps_observed() {
    let observed = U256 { hi: 1, lo: 0 };
    let decoded = decode_payload(&hex(TOKENS_FOR_ETH), observed);
    assert_eq!(decoded.effective_value, observed);
    assert_eq!(decoded.path.len(), 2);
    assert_eq!(decoded.path[0], addr("dAC17F958D2ee523a2206206994597C13D831ec7"));
}

#[test]
fn tokens_for_tokens_uses_the_same_layout() {
    let calldata = hex(&format!("38ed1739{}", &TOKENS_FOR_ETH[8..]));
    let decoded = decode_payload(&calldata, U256::from_u128(4999));
    assert_eq!(decoded.method, "swapExactTokensForTokens");
    assert_eq!(decoded.effective_value, U256::from_u128(5000));
    assert_eq!(decoded.amount_out_min, U256::from_u128(1000));
}

#[test]
fn known_selector_without_rule_is_unknown() {
    let calldata = hex(&format!("5ae401dc{}", &ETH_FOR_TOKENS[8..]));
    let decoded = decode_payload(&calldata, U256::from_u128(3));
    assert_eq!(decoded.method, "Unknown");
    assert!(decoded.path.is_empty());
    assert_eq!(decoded.effective_value, U256::from_u128(3));
    assert_eq!(decoded.to, Address { bytes: vec![0; 20] });
    assert_eq!(decoded.amount_out_min, U256::zero());
}

#[test]
fn unknown_selector_and_short_payload_fail_open() {
    for data in [hex("a9059cbb00000000"), hex("ff"), hex("7ff36a")] {
        let decoded = decode_payload(&data, U256::from_u128(9));
        assert_eq!(decoded.method, "Unknown");
        assert!(decoded.path.is_empty());
        assert_eq!(decoded.effective_value, U256::from_u128(9));
    }
}

#[test]
fn unpadded_address_fails_open() {
    let mut calldata = hex(ETH_FOR_TOKENS);
    calldata[4 + 64] = 1;
    let decoded = decode_payload(&calldata, U256::zero());
    assert_eq!(decoded.method, "Unknown");
}

#[test]
fn truncated_path_fails_open() {
    let calldata = hex(ETH_FOR_TOKENS);
    let decoded = decode_payload(&calldata[..calldata.len() - 1], U256::zero());
    assert_eq!(decoded.method, "Unknown");
}

#[test]
fn exact_input_single_decodes() {
    let calldata = hex(&format!(
        "414bf389{}{}{}{}{}{}{}{}",
        addr_word("c02aaa39b223fe8d0a0e5c4f27ead9083c756cc2"),
        addr_word("dac17f958d2ee523a2206206994597c13d831ec7"),
        word(3000),
        addr_word("742d35cc6634c0532925a3b844bc9e7595f0beb0"),
        word(1_700_000_000),
        word(2_000_000),
        word(1_500),
        word(0),
    ));
    let decoded = decode_payload(&calldata, U256::from_u128(10));
    assert_eq!(decoded.method, "exactInputSingle");
    assert_eq!(decoded.amount_out_min, U256::from_u128(1500));
    assert_eq!(decoded.deadline, U256::from_u128(1_700_000_000));
    assert_eq!(decoded.effective_value, U256::from_u128(2_000_000));
    assert_eq!(
        decoded.path,
        vec![
            addr("c02aaa39b223fe8d0a0e5c4f27ead9083c756cc2"),
            addr("dac17f958d2ee523a2206206994597c13d831ec7"),
        ]
    );
    assert_eq!(decoded.to, addr("742d35cc6634c0532925a3b844bc9e7595f0beb0"));
}

#[test]
fn exact_input_single_with_oversized_fee_fails_open() {
    let calldata = hex(&format!(
        "414bf389{}{}{}{}{}{}{}{}",
        addr_word("c02aaa39b223fe8d0a0e5c4f27ead9083c756cc2"),
        addr_word("dac17f958d2ee523a2206206994597c13d831ec7"),
        word(1 << 24),
        addr_word("742d35cc6634c0532925a3b844bc9e7595f0beb0"),
        word(1),
        word(2),
        word(3),
        word(0),
    ));
    assert_eq!(decode_payload(&calldata, U256::zero()).method, "Unknown");
}

#[test]
fn exact_input_decodes_without_path() {
    let path_bytes = format!("{}{}{}", "c02aaa39b223fe8d0a0e5c4f27ead9083c756cc2", "000bb8", "dac17f958d2ee523a2206206994597c13d831ec7");
    let calldata = hex(&format!(
        "c04b8d59{}{}{}{}{}{}{}{:0<128}",
        word(0x20),
        word(0xa0),
        addr_word("742d35cc6634c0532925a3b844bc9e7595f0beb0"),
        word(1_700_000_001),
        word(42),
        word(40),
        word(43),
        path_bytes,
    ));
    let decoded = decode_payload(&calldata, U256::from_u128(100));
    assert_eq!(decoded.method, "exactInput");
    assert!(decoded.path.is_empty());
    assert_eq!(decoded.to, addr("742d35cc6634c0532925a3b844bc9e7595f0beb0"));
    assert_eq!(decoded.deadline, U256::from_u128(1_700_000_001));
    assert_eq!(decoded.amount_out_min, U256::from_u128(40));
    assert_eq!(decoded.effective_value, U256::from_u128(100));
}

#[test]
fn u256_compares_and_picks_the_larger() {
    let small = U256 { hi: 0, lo: u128::MAX };
    let big = U256 { hi: 1, lo: 0 };
    assert!(small.lt(&big));
    assert!(!big.lt(&small));
    assert!(!big.lt(&big));
    assert_eq!(small.max(&big), big);
    assert_eq!(big.max(&small), big);
}

#[test]
fn trailing_bytes_fail_open() {
    let mut calldata = hex(ETH_FOR_TOKENS);
    calldata.push(0);
    assert_eq!(decode_payload(&calldata, U256::zero()).method, "Unknown");
}

#[test]
fn non_standard_path_offset_fails_open() {
    let mut calldata = hex(ETH_FOR_TOKENS);
    calldata[4 + 63] = 0xa0;
    assert_eq!(decode_payload(&calldata, U256::zero()).method, "Unknown");
}

#[test]
fn exact_input_with_dirty_padding_fails_open() {
    let path_bytes = format!("{}{}{}", "c02aaa39b223fe8d0a0e5c4f27ead9083c756cc2", "000bb8", "dac17f958d2ee523a2206206994597c13d831ec7");
    let calldata = hex(&format!(
        "c04b8d59{}{}{}{}{}{}{}{:1<128}",
        word(0x20),
        word(0xa0),
        addr_word("742d35cc6634c0532925a3b844bc9e7595f0beb0"),
        word(1),
        word(2),
        word(3),
        word(43),
        path_bytes,
    ));
    assert_eq!(decode_payload(&calldata, U256::zero()).method, "Unknown");
}

#[test]
fn eth_for_exact_tokens_decodes() {
    let calldata = hex(&format!("fb3bdb41{}", &ETH_FOR_TOKENS[8..]));
    let decoded = decode_payload(&calldata, U256::from_u128(123));
    assert_eq!(decoded.method, "swapETHForExactTokens");
    assert_eq!(decoded.amount_out_min, U256::from_u128(1000));
    assert_eq!(decoded.path.len(), 2);
    assert_eq!(decoded.path[1], addr("dAC17F958D2ee523a2206206994597C13D831ec7"));
    assert_eq!(decoded.to, addr("742d35Cc6634C0532925a3b844Bc9e7595f0bEb0"));
    assert_eq!(decoded.deadline, U256::from_u128(0x6555a3a0));
    assert_eq!(decoded.effective_value, U256::from_u128(123));
}

fn multicall_payload(first_offset: u128) -> Vec<u8> {
    // two inner calls: 4 bytes and 36 bytes
    hex(&format!(
        "5ae401dc{}{}{}{}{}{}{:0<64}{}{:0<128}",
        word(1_700_000_123),
        word(0x40),
        word(2),
        word(first_offset),
        word(0x80),
        word(4),
        "a9059cbb",
        word(36),
        format!("{}{}", "7ff36ab5", word(7)),
    ))
}

#[test]
fn multicall_decodes_its_deadline() {
    let decoded = decode_payload(&multicall_payload(0x40), U256::from_u128(5));
    assert_eq!(decoded.method, "multicall");
    assert_eq!(decoded.deadline, U256::from_u128(1_700_000_123));
    assert!(decoded.path.is_empty());
    assert_eq!(decoded.effective_value, U256::from_u128(5));
    assert_eq!(decoded.amount_out_min, U256::zero());
}

#[test]
fn multicall_with_misplaced_element_fails_open() {
    let decoded = decode_payload(&multicall_payload(0x60), U256::from_u128(5));
    assert_eq!(decoded.method, "Unknown");
    let mut truncated = multicall_payload(0x40);
    truncated.truncate(truncated.len() - 32);
    assert_eq!(decode_payload(&truncated, U256::zero()).method, "Unknown");
}

fn aggregator_payload(amount: u128, data_offset: u128) -> Vec<u8> {
    hex(&format!(
        "12aa3caf{}{}{}{}{}{}{}{}{}{}{}{}{}{:0<64}",
        addr_word("1111111111111111111111111111111111111111"),
        addr_word("c02aaa39b223fe8d0a0e5c4f27ead9083c756cc2"),
        addr_word("dac17f958d2ee523a2206206994597c13d831ec7"),
        addr_word("2222222222222222222222222222222222222222"),
        addr_word("742d35cc6634c0532925a3b844bc9e7595f0beb0"),
        word(amount),
        word(900),
        word(4),
        word(0x140),
        word(data_offset),
        word(0),
        word(3),
        "",
        "abcdef",
    ))
}

#[test]
fn aggregator_swap_decodes() {
    let decoded = decode_payload(&aggregator_payload(7_000, 0x160), U256::from_u128(6_000));
    assert_eq!(decoded.method, "aggregatorSwap");
    assert_eq!(decoded.amount_out_min, U256::from_u128(900));
    assert_eq!(decoded.effective_value, U256::from_u128(7_000));
    assert_eq!(
        decoded.path,
        vec![
            addr("c02aaa39b223fe8d0a0e5c4f27ead9083c756cc2"),
            addr("dac17f958d2ee523a2206206994597c13d831ec7"),
        ]
    );
    assert_eq!(decoded.to, addr("742d35cc6634c0532925a3b844bc9e7595f0beb0"));
    assert_eq!(decoded.deadline, U256::zero());
}

#[test]
fn aggregator_swap_with_wrong_data_offset_fails_open() {
    let decoded = decode_payload(&aggregator_payload(7_000, 0x180), U256::from_u128(6_000));
    assert_eq!(decoded.method, "Unknown");
    assert_eq!(decoded.effective_value, U256::from_u128(6_000));
}

#[test]
fn decoded_addresses_are_twenty_bytes() {
    let decoded = decode_payload(&hex(ETH_FOR_TOKENS), U256::zero());
    assert!(decoded.path.iter().all(|a| a.bytes.len() == 20));
    assert_eq!(decoded.to.bytes.len(), 20);
    let copy = decoded.clone();
    assert_eq!(copy, decoded);
}

#[test]
fn tokens_for_exact_tokens_swaps_the_amount_roles() {
    // amountOut = 5000, amountInMax = 1000
    let calldata = hex(&format!("8803dbee{}", &TOKENS_FOR_ETH[8..]));
    let decoded = decode_payload(&calldata, U256::from_u128(10));
    assert_eq!(decoded.method, "swapTokensForExactTokens");
    assert_eq!(decoded.amount_out_min, U256::from_u128(5000));
    assert_eq!(decoded.effective_value, U256::from_u128(1000));
    assert_eq!(decoded.path.len(), 2);
    assert_eq!(decoded.to, addr("742d35cc6634c0532925a3b844bc9e7595f0beb0"));
    assert_eq!(decoded.deadline, U256::from_u128(0x6555a3a0));
}

#[test]
fn tokens_for_exact_eth_decodes_and_keeps_larger_observed() {
    let calldata = hex(&format!("4a25d94a{}", &TOKENS_FOR_ETH[8..]));
    let decoded = decode_payload(&calldata, U256::from_u128(2000));
    assert_eq!(decoded.method, "swapTokensForExactETH");
    assert_eq!(decoded.amount_out_min, U256::from_u128(5000));
    assert_eq!(decoded.effective_value, U256::from_u128(2000));
    let mut truncated = calldata.clone();
    truncated.pop();
    assert_eq!(decode_payload(&truncated, U256::zero()).method, "Unknown");
}
