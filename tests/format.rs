use mempool_sniper::action::{decimal_string, format_wei_to_eth};
use mempool_sniper::word::{div_rem_u64, U256};

#[test]
fn test_format_wei_to_eth() {
    let one_eth = U256::from_u128(1_000_000_000_000_000_000u128);
    assert_eq!(format_wei_to_eth(one_eth), "1.0000");

    let half_eth = U256::from_u128(500_000_000_000_000_000u128);
    assert_eq!(format_wei_to_eth(half_eth), "0.5000");

    let ten_quarter_eth = U256::from_u128(10_250_000_000_000_000_000u128);
    assert_eq!(format_wei_to_eth(ten_quarter_eth), "10.2500");

    let small_eth = U256::from_u128(100_000_000_000_000u128);
    assert_eq!(format_wei_to_eth(small_eth), "0.0001");
}

#[test]
fn format_wei_truncates_and_handles_zero() {
    assert_eq!(format_wei_to_eth(U256::zero()), "0.0000");
    assert_eq!(format_wei_to_eth(U256::from_u128(99_999_999_999_999)), "0.0000");
    assert_eq!(format_wei_to_eth(U256::from_u128(1_234_567_890_000_000_000)), "1.2345");
}

#[test]
fn decimal_string_of_large_words() {
    assert_eq!(decimal_string(U256::zero()), "0");
    assert_eq!(decimal_string(U256::from_u128(9)), "9");
    assert_eq!(decimal_string(U256::from_u128(10)), "10");
    assert_eq!(decimal_string(U256::from_u128(u128::MAX)), u128::MAX.to_string());
    let max = U256 { hi: u128::MAX, lo: u128::MAX };
    assert_eq!(
        decimal_string(max),
        "115792089237316195423570985008687907853269984665640564039457584007913129639935"
    );
}

#[test]
fn div_rem_u64_across_the_halves() {
    let v = U256 { hi: 1, lo: 5 };
    let (q, r) = div_rem_u64(v, 10);
    // 2^128 + 5 = 34028236692093846346337460743176821146 * 10 + 1
    assert_eq!(q, U256::from_u128(34028236692093846346337460743176821146));
    assert_eq!(r, 1);
    let (q, r) = div_rem_u64(U256 { hi: u128::MAX, lo: u128::MAX }, u64::MAX);
    assert_eq!(r, 0);
    assert_eq!(q.hi, 1u128 + (1u128 << 64));
}
