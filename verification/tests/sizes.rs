use pdisks_storage::errors::GeometryError;
use pdisks_storage::model::sizes::{Bytes, Mib};

#[test]
fn mib_bytes_overflow_is_error() {
    // u64::MAX / (1024*1024) + 1 overflows checked_mul.
    let huge = Mib(u64::MAX / (1024 * 1024) + 1);
    assert_eq!(huge.bytes(), Err(GeometryError::Overflow));
}

#[test]
fn bytes_checked_add_overflow_is_error() {
    let a = Bytes::new(u64::MAX);
    let b = Bytes::new(1);
    assert_eq!(a.checked_add(b), Err(GeometryError::Overflow));
}

#[test]
fn range_within_detects_out_of_bounds() {
    let start = Bytes::new(100);
    let size = Bytes::new(50);
    assert!(start.range_within(size, Bytes::new(149)).is_err());
    assert_eq!(start.range_within(size, Bytes::new(150)), Ok(Bytes::new(150)));
}

#[test]
fn sum_checked_accumulates() {
    let Ok(total) = Bytes::sum_checked(&[Bytes::new(1), Bytes::new(2), Bytes::new(3)]) else {
        panic!("overflow")
    };
    assert_eq!(total, Bytes::new(6));
}

#[test]
fn mib_sector_conversions_round_trip() {
    assert_eq!(Mib::new(5).sectors_512(), Ok(10_240));
    assert_eq!(Mib::from_sectors_512(10_240), Mib::new(5));
    assert_eq!(Mib::from_sectors_512(10_241), Mib::new(6));
    assert_eq!(Mib::from_sectors_512(1), Mib::new(1));
    assert_eq!(Mib::from_sectors_512(0), Mib::new(0));
    assert_eq!(Mib::new(u64::MAX).sectors_512(), Err(GeometryError::Overflow));
}

#[test]
fn sizes_display_as_plain_numbers() {
    assert_eq!(Bytes::new(0).to_string(), "0");
    assert_eq!(Bytes::new(1_048_576).to_string(), "1048576");
    assert_eq!(Mib::new(u64::MAX).to_string(), "18446744073709551615");
}
