//! Exact values for the little-endian conversions used in on-media headers,
//! and for the access validators.

use nonvolatile_storage::codec::{
    u32_to_u8_slice, u8_slice_to_u32, u8_slice_to_u64, u8_slice_to_usize, usize_to_u8_slice,
};
use nonvolatile_storage::driver::NonvolatileStorage;
use nonvolatile_storage::types::{ErrorCode, ShortId, BUF_LEN, HEADER_BUF_LEN};

#[test]
fn u32_decodes_little_endian() {
    assert_eq!(u8_slice_to_u32(&[0xB3, 0xA7, 0x2F, 0x00]), 0x2FA7B3);
    assert_eq!(u8_slice_to_u32(&[0xFF, 0xFF, 0xFF, 0xFF]), u32::MAX);
    assert_eq!(u8_slice_to_u32(&[]), 0);
    assert_eq!(u8_slice_to_u32(&[0x01, 0x02]), 0x0201);
}

#[test]
fn u64_decodes_little_endian() {
    assert_eq!(
        u8_slice_to_u64(&[0x01, 0x02, 0x03, 0x04, 0x05, 0x06, 0x07, 0x08]),
        0x0807060504030201
    );
    assert_eq!(u8_slice_to_u64(&[0x2A]), 42);
}

#[test]
fn usize_decodes_little_endian() {
    assert_eq!(
        u8_slice_to_usize(&[0x20, 0x00, 0x00, 0x00, 0x00, 0x00, 0x00, 0x00]),
        32
    );
    assert_eq!(u8_slice_to_usize(&[0x10, 0x27]), 10000);
}

#[test]
fn u32_encodes_little_endian() {
    assert_eq!(u32_to_u8_slice(0x2FA7B3), [0xB3, 0xA7, 0x2F, 0x00]);
    assert_eq!(u32_to_u8_slice(0), [0, 0, 0, 0]);
    assert_eq!(u32_to_u8_slice(u32::MAX), [0xFF; 4]);
}

#[test]
fn usize_encodes_little_endian() {
    assert_eq!(
        usize_to_u8_slice(0x0807060504030201),
        [0x01, 0x02, 0x03, 0x04, 0x05, 0x06, 0x07, 0x08]
    );
    assert_eq!(usize_to_u8_slice(32), [0x20, 0, 0, 0, 0, 0, 0, 0]);
}

#[test]
fn encode_decode_round_trip() {
    for v in [0u32, 1, 0x2FA7B3, 0xFFFF_FFFF, 0x8000_0000] {
        assert_eq!(u8_slice_to_u32(&u32_to_u8_slice(v)), v);
    }
    for v in [0usize, 1, 32, 4096, usize::MAX] {
        assert_eq!(u8_slice_to_usize(&usize_to_u8_slice(v)), v);
    }
}

fn validator() -> NonvolatileStorage {
    NonvolatileStorage::new(
        100,
        200,
        0,
        100,
        32,
        vec![0u8; BUF_LEN],
        vec![0u8; HEADER_BUF_LEN],
        vec![ShortId::Fixed(7)],
    )
}

#[test]
fn header_access_stays_in_user_span() {
    let drv = validator();
    assert!(drv.check_header_access(100, 12).is_ok());
    assert!(drv.check_header_access(287, 12).is_ok());
    assert_eq!(drv.check_header_access(99, 12), Err(ErrorCode::OutOfBounds));
    assert_eq!(
        drv.check_header_access(288, 12),
        Err(ErrorCode::OutOfBounds)
    );
    assert_eq!(
        drv.check_header_access(100, 201),
        Err(ErrorCode::OutOfBounds)
    );
}

#[test]
fn kernel_access_stays_in_kernel_span() {
    let drv = validator();
    assert!(drv.check_kernel_access(0, 100).is_ok());
    assert!(drv.check_kernel_access(99, 1).is_ok());
    assert_eq!(drv.check_kernel_access(99, 2), Err(ErrorCode::OutOfBounds));
    assert_eq!(drv.check_kernel_access(100, 1), Err(ErrorCode::OutOfBounds));
}

#[test]
fn userspace_access_requires_identity_and_region() {
    let drv = validator();
    assert_eq!(
        drv.check_userspace_access(0, 1, None),
        Err(ErrorCode::Fail)
    );
    assert_eq!(
        drv.check_userspace_access(0, 1, Some(3)),
        Err(ErrorCode::Fail)
    );
    assert_eq!(
        drv.check_userspace_access(0, 1, Some(0)),
        Err(ErrorCode::NotReady)
    );
}

#[test]
fn grant_exists_only_for_known_identities() {
    let drv = validator();
    assert!(drv.allocate_grant(0).is_ok());
    assert_eq!(drv.allocate_grant(1), Err(ErrorCode::Fail));
}
