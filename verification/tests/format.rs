use clipee_windows::error::{make_lang_id, Error, WindowsError};
use clipee_windows::format::ClipboardFormat;
use clipee_windows::lock::{GlobalObject, LockedPtr};

fn object(handle: isize, address: usize, bytes: Vec<u8>, code: u32) -> GlobalObject {
    GlobalObject { handle, address, bytes, error: WindowsError(code) }
}

#[test]
fn format_codes_are_the_system_constants() {
    assert_eq!(ClipboardFormat::Text.to_u32(), 1);
    assert_eq!(ClipboardFormat::Bitmap.to_u32(), 2);
    assert_eq!(ClipboardFormat::BitmapInfo.to_u32(), 8);
    assert_eq!(ClipboardFormat::UnicodeText.to_u32(), 13);
    assert_eq!(ClipboardFormat::DropHandle.to_u32(), 15);
    assert_eq!(ClipboardFormat::BitmapV5.to_u32(), 17);
}

#[test]
fn format_lookup_inverts_code() {
    let all = [
        ClipboardFormat::Text,
        ClipboardFormat::Bitmap,
        ClipboardFormat::BitmapInfo,
        ClipboardFormat::BitmapV5,
        ClipboardFormat::DropHandle,
        ClipboardFormat::UnicodeText,
    ];
    for format in all {
        assert_eq!(ClipboardFormat::try_from_u32(format.to_u32()), Some(format));
        assert_eq!(ClipboardFormat::try_from_u32(u32::from(format)), Some(format));
    }
}

#[test]
fn format_lookup_rejects_other_codes() {
    assert_eq!(ClipboardFormat::try_from_u32(0), None);
    assert_eq!(ClipboardFormat::try_from_u32(3), None);
    assert_eq!(ClipboardFormat::try_from_u32(14), None);
    assert_eq!(ClipboardFormat::try_from_u32(16), None);
    assert_eq!(ClipboardFormat::try_from_u32(u32::MAX), None);
    let mut known = 0;
    for code in 0..64u32 {
        if let Some(format) = ClipboardFormat::try_from_u32(code) {
            assert_eq!(format.to_u32(), code);
            known += 1;
        }
    }
    assert_eq!(known, 6);
}

#[test]
fn last_error_zero_is_no_error() {
    assert_eq!(WindowsError::try_from_last_error(0), None);
    assert_eq!(WindowsError::try_from_last_error(5), Some(WindowsError(5)));
    assert_eq!(WindowsError::from_last_error(0), WindowsError(0));
    assert_eq!(WindowsError::from_last_error(1418).raw(), 1418);
    assert!(WindowsError(0).is_ok());
    assert!(!WindowsError(6).is_ok());
}

#[test]
fn lang_id_packs_sublanguage_above_ten_bits() {
    assert_eq!(make_lang_id(0, 1), 0x400);
    assert_eq!(make_lang_id(9, 1), 0x409);
    assert_eq!(make_lang_id(0, 0), 0);
}

#[test]
fn lock_reports_failed_lock() {
    let got = LockedPtr::new(object(7, 0, vec![1, 2], 6), 1);
    assert_eq!(got.unwrap_err(), Error::Locking(WindowsError(6)));
}

#[test]
fn lock_reports_zero_size_as_invalid_object() {
    let got = LockedPtr::new(object(7, 0x1000, vec![], 87), 0);
    assert_eq!(got.unwrap_err(), Error::InvalidObject(WindowsError(87)));
}

#[test]
fn lock_failure_comes_before_invalid_object() {
    let got = LockedPtr::new(object(7, 0, vec![], 6), 0);
    assert_eq!(got.unwrap_err(), Error::Locking(WindowsError(6)));
}

#[test]
fn locked_block_exposes_handle_address_and_size() {
    let block = LockedPtr::new(object(7, 0x1000, vec![1, 2, 3, 4], 0), 2).unwrap();
    assert_eq!(block.as_raw_handle(), 7);
    assert_eq!(block.as_ptr(), 0x1000);
    assert_eq!(block.as_mut_ptr(), 0x1000);
    assert_eq!(block.size(4, WindowsError(0)), Ok(4));
    assert_eq!(block.size(16, WindowsError(0)), Ok(16));
    assert_eq!(block.size(0, WindowsError(6)), Err(Error::InvalidObject(WindowsError(6))));
    assert_eq!(block.as_bytes(), &vec![1, 2, 3, 4]);
    assert_eq!(block.unlock(), 7);
}

#[test]
fn allocate_reports_missing_handle() {
    let got = LockedPtr::allocate(object(0, 0, vec![], 8), 2, 3);
    assert_eq!(got.unwrap_err(), Error::Allocation(WindowsError(8)));
}

#[test]
fn allocate_then_locks_like_any_handle() {
    let got = LockedPtr::allocate(object(9, 0, vec![0; 6], 6), 2, 3);
    assert_eq!(got.unwrap_err(), Error::Locking(WindowsError(6)));
    let got = LockedPtr::allocate(object(9, 0x2000, vec![], 6), 0, 0);
    assert_eq!(got.unwrap_err(), Error::InvalidObject(WindowsError(6)));
    let block = LockedPtr::allocate(object(9, 0x2000, vec![0; 6], 0), 2, 3).unwrap();
    assert_eq!(block.size(6, WindowsError(0)), Ok(6));
    assert_eq!(block.as_raw_handle(), 9);
}
