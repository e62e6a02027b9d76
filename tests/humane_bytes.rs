use iv::humane_bytes::HumaneBytes;

#[test]
fn humane_bytes_format() {
    assert_eq!(&HumaneBytes(139).to_string(), "139B");
    assert_eq!(&HumaneBytes(1390).to_string(), "1.39kB");
    assert_eq!(
        &HumaneBytes(1_390_000_000_000_000_000).to_string(),
        "1390000.00TB"
    );
}

#[test]
fn humane_bytes_small_values() {
    assert_eq!(&HumaneBytes(0).to_string(), "0B");
    assert_eq!(&HumaneBytes(999).to_string(), "999B");
}

#[test]
fn humane_bytes_unit_boundaries() {
    assert_eq!(&HumaneBytes(1000).to_string(), "1.00kB");
    assert_eq!(&HumaneBytes(999_999).to_string(), "1000.00kB");
    assert_eq!(&HumaneBytes(1_000_000).to_string(), "1.00MB");
    assert_eq!(&HumaneBytes(25_000_000).to_string(), "25.00MB");
    assert_eq!(&HumaneBytes(256_000_000).to_string(), "256.00MB");
    assert_eq!(&HumaneBytes(2_000_000_000).to_string(), "2.00GB");
    assert_eq!(&HumaneBytes(1_000_000_000_000).to_string(), "1.00TB");
}

#[test]
fn humane_bytes_rounds_to_nearest() {
    assert_eq!(&HumaneBytes(1234).to_string(), "1.23kB");
    assert_eq!(&HumaneBytes(1236).to_string(), "1.24kB");
    assert_eq!(&HumaneBytes(10_240).to_string(), "10.24kB");
    assert_eq!(&HumaneBytes(1005).to_string(), "1.00kB");
    assert_eq!(&HumaneBytes(1015).to_string(), "1.02kB");
}

#[test]
fn humane_bytes_largest() {
    assert_eq!(&HumaneBytes(u64::MAX).to_string(), "18446744.07TB");
}

#[test]
fn humane_bytes_conversions() {
    assert_eq!(HumaneBytes::from(42_u64), HumaneBytes(42));
    assert_eq!(u64::from(HumaneBytes(7)), 7);
}

#[test]
fn humane_bytes_usize_conversions() {
    assert_eq!(HumaneBytes::from(1390_usize), HumaneBytes(1390));
    assert_eq!(usize::from(HumaneBytes(1390)), 1390_usize);
    assert_eq!(&HumaneBytes::from(1390_usize).to_string(), "1.39kB");
}
