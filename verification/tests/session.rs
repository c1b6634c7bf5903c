use clipee_windows::error::{Error, WindowsError};
use clipee_windows::format::bitmap::{CopiedBits, RgbImage};
use clipee_windows::format::files::DropHandle;
use clipee_windows::format::ClipboardFormat;
use clipee_windows::lock::GlobalObject;
use clipee_windows::{fetched_whole, ClipboardHandle, ClipboardHandleInner, Registry, Transfer};

fn session() -> ClipboardHandleInner {
    ClipboardHandleInner::new(42, true, WindowsError(0)).unwrap()
}

fn block(bytes: Vec<u8>) -> GlobalObject {
    GlobalObject { handle: 3, address: 0x4000, bytes, error: WindowsError(0) }
}

fn denied(code: u32) -> GlobalObject {
    GlobalObject { handle: 0, address: 0, bytes: vec![], error: WindowsError(code) }
}

fn no_drop() -> DropHandle {
    DropHandle { count: 0, answers: vec![], error: WindowsError(0) }
}

fn no_bits() -> CopiedBits {
    CopiedBits { raw: vec![], scan_lines: 0, error: WindowsError(0) }
}

#[test]
fn session_needs_a_window() {
    let got = ClipboardHandleInner::new(0, false, WindowsError(1400));
    assert_eq!(got, Err(Error::CreateWindow(WindowsError(1400))));
    let got = ClipboardHandleInner::new(0, true, WindowsError(1400));
    assert_eq!(got, Err(Error::CreateWindow(WindowsError(1400))));
}

#[test]
fn session_needs_the_clipboard() {
    let got = ClipboardHandleInner::new(42, false, WindowsError(5));
    assert_eq!(got, Err(Error::OpenClipboard(WindowsError(5))));
}

#[test]
fn session_keeps_its_window() {
    let open = session();
    assert_eq!(open.window(), 42);
}

#[test]
fn unavailable_formats_are_none_never_errors() {
    let open = session();
    assert_eq!(open.string(None), Ok(None));
    assert_eq!(open.string_unicode(None, 0), Ok(None));
    assert_eq!(open.files(None, &no_drop()), Ok(None));
    assert_eq!(open.image(None, None, no_bits()), Ok(None));
    let denied = Some(denied(5));
    assert_eq!(open.image(None, denied.clone(), no_bits()), Ok(None));
    assert_eq!(open.image(denied, None, no_bits()), Ok(None));
    assert_eq!(open.image(Some(block(vec![1])), None, no_bits()), Ok(None));
    // a description too small to read is not read where no bitmap is there
    assert_eq!(open.image(None, Some(block(vec![1])), no_bits()), Ok(None));
}

#[test]
fn denied_data_is_get_clipboard() {
    let open = session();
    let denied = Some(denied(1418));
    let expected = Error::GetClipboard(WindowsError(1418));
    assert_eq!(open.string(denied.clone()), Err(expected.clone()));
    assert_eq!(open.string_unicode(denied.clone(), 0), Err(expected.clone()));
    assert_eq!(open.files(denied.clone(), &no_drop()), Err(expected.clone()));
    let info = Some(block(vec![0; 44]));
    assert_eq!(open.image(denied.clone(), info, no_bits()), Err(expected.clone()));
    assert_eq!(open.image(denied.clone(), Some(block(vec![1])), no_bits()), Err(expected.clone()));
    assert_eq!(open.image(Some(block(vec![1])), denied, no_bits()), Err(expected));
}

#[test]
fn text_is_read_through_the_session() {
    let open = session();
    assert_eq!(open.string(Some(block(b"plain\0".to_vec()))), Ok(Some("plain".to_string())));
    assert_eq!(open.string(Some(block(vec![0xff, 0]))), Err(Error::InvalidString { valid_up_to: 0 }));
    let wide = Some(block(vec![0x6f, 0, 0x6b, 0, 0, 0]));
    assert_eq!(open.string_unicode(wide.clone(), 6), Ok(Some("ok".to_string())));
    assert_eq!(open.string_unicode(wide, 0), Err(Error::InvalidObject(WindowsError(0))));
    let unlocked = GlobalObject { handle: 3, address: 0, bytes: vec![0, 0], error: WindowsError(6) };
    assert_eq!(open.string_unicode(Some(unlocked), 2), Err(Error::Locking(WindowsError(6))));
}

#[test]
fn files_without_paths_are_path_count() {
    let open = session();
    let drop = DropHandle { count: 0, answers: vec![], error: WindowsError(3) };
    assert_eq!(open.files(Some(block(vec![1])), &drop), Err(Error::PathCount(WindowsError(3))));
}

#[test]
fn image_is_decoded_through_the_session() {
    let open = session();
    let mut info = vec![0u8; 44];
    info[4] = 1;
    info[8] = 2;
    info[14] = 24;
    let copied = CopiedBits { raw: vec![1, 2, 3, 0, 4, 5, 6, 0], scan_lines: 2, error: WindowsError(0) };
    let got = open.image(Some(block(vec![1])), Some(block(info.clone())), copied);
    assert_eq!(got, Ok(Some(RgbImage { width: 1, height: 2, data: vec![4, 5, 6, 1, 2, 3] })));
    let copied = CopiedBits { raw: vec![0; 8], scan_lines: 0, error: WindowsError(6) };
    let got = open.image(Some(block(vec![1])), Some(block(info.clone())), copied);
    assert_eq!(got, Err(Error::ImageBits(WindowsError(6))));
    info[14] = 32;
    let copied = CopiedBits { raw: vec![0; 8], scan_lines: 2, error: WindowsError(0) };
    let got = open.image(Some(block(vec![1])), Some(block(info)), copied);
    assert_eq!(got, Err(Error::InvalidImage));
    let unlocked = GlobalObject { handle: 3, address: 0, bytes: vec![0; 44], error: WindowsError(6) };
    let got = open.image(Some(block(vec![1])), Some(unlocked), no_bits());
    assert_eq!(got, Err(Error::Locking(WindowsError(6))));
}

#[test]
fn storing_reports_each_failure_of_the_system() {
    let open = session();
    let transfer = Transfer { format: ClipboardFormat::UnicodeText, bytes: vec![0x61, 0, 0, 0] };
    let none = GlobalObject { handle: 0, address: 0, bytes: vec![], error: WindowsError(8) };
    assert_eq!(open.finish_set(&transfer, none, false), Err(Error::Allocation(WindowsError(8))));
    let unlocked = GlobalObject { handle: 4, address: 0, bytes: vec![0; 4], error: WindowsError(6) };
    assert_eq!(open.finish_set(&transfer, unlocked, false), Err(Error::Locking(WindowsError(6))));
    let invalid = GlobalObject { handle: 4, address: 16, bytes: vec![], error: WindowsError(6) };
    assert_eq!(open.finish_set(&transfer, invalid, false), Err(Error::InvalidObject(WindowsError(6))));
    let refused = GlobalObject { handle: 4, address: 16, bytes: vec![0; 4], error: WindowsError(1418) };
    assert_eq!(open.finish_set(&transfer, refused, false), Err(Error::SetClipboard(WindowsError(1418))));
    assert_eq!(open.finish_set(&transfer, block(vec![0; 8]), true), Ok(()));
}

#[test]
fn emptying_reports_the_refusal() {
    let open = session();
    assert_eq!(open.empty(true, WindowsError(0)), Ok(()));
    assert_eq!(open.empty(false, WindowsError(1418)), Err(Error::GetClipboard(WindowsError(1418))));
}

#[test]
fn listing_keeps_known_formats_in_order() {
    let open = session();
    let reported = vec![13, 16, 1, 7, 49161, 15, 8, 2, 17, 13];
    assert_eq!(
        open.available_formats(&reported, 0),
        Ok(vec![
            ClipboardFormat::UnicodeText,
            ClipboardFormat::Text,
            ClipboardFormat::DropHandle,
            ClipboardFormat::BitmapInfo,
            ClipboardFormat::Bitmap,
            ClipboardFormat::BitmapV5,
            ClipboardFormat::UnicodeText,
        ])
    );
    assert_eq!(open.available_formats(&vec![], 0), Ok(vec![]));
    assert_eq!(open.available_formats(&vec![3, 4, 5], 0), Ok(vec![]));
}

#[test]
fn listing_that_ended_in_an_error_is_enum_clipboard() {
    let open = session();
    assert_eq!(open.available_formats(&vec![13, 1], 1418), Err(Error::EnumClipboard(WindowsError(1418))));
    assert_eq!(open.available_formats(&vec![], 5), Err(Error::EnumClipboard(WindowsError(5))));
}

#[test]
fn second_handle_shares_the_live_session() {
    let mut registry = Registry::new();
    assert!(!registry.live());
    let first = ClipboardHandle::new(&mut registry, Some(Ok(session()))).unwrap();
    assert!(registry.live());
    // no second session is opened: none is handed in
    let second = ClipboardHandle::new(&mut registry, None).unwrap();
    assert_eq!(second.as_ref(), first.as_ref());
    assert_eq!(second.as_ref().window(), 42);
    // nor is one that was opened all the same looked at
    let other = ClipboardHandleInner::new(77, true, WindowsError(0));
    let third = ClipboardHandle::new(&mut registry, Some(other)).unwrap();
    assert_eq!(third.as_ref().window(), 42);
    let failed = Err(Error::OpenClipboard(WindowsError(5)));
    let fourth = ClipboardHandle::new(&mut registry, Some(failed)).unwrap();
    assert_eq!(fourth.as_ref().window(), 42);
}

#[test]
fn session_ends_with_the_last_handle() {
    let mut registry = Registry::new();
    let first = ClipboardHandle::new(&mut registry, Some(Ok(session()))).unwrap();
    let second = ClipboardHandle::new(&mut registry, None).unwrap();
    assert_eq!(first.release(&mut registry), None);
    assert!(registry.live());
    assert_eq!(second.release(&mut registry), Some(42));
    assert!(!registry.live());
    let again = ClipboardHandleInner::new(43, true, WindowsError(0));
    let third = ClipboardHandle::new(&mut registry, Some(again)).unwrap();
    assert_eq!(third.as_ref().window(), 43);
    assert_eq!(third.release(&mut registry), Some(43));
}

#[test]
fn failed_opening_leaves_no_session() {
    let mut registry = Registry::new();
    let failed = ClipboardHandleInner::new(42, false, WindowsError(5));
    let got = ClipboardHandle::new(&mut registry, Some(failed));
    assert_eq!(got.unwrap_err(), Error::OpenClipboard(WindowsError(5)));
    assert!(!registry.live());
}

#[test]
fn a_handle_is_whole_when_given_locked_and_valid() {
    assert!(fetched_whole(&block(vec![1])));
    assert!(!fetched_whole(&denied(5)));
    let unlocked = GlobalObject { handle: 3, address: 0, bytes: vec![1], error: WindowsError(6) };
    assert!(!fetched_whole(&unlocked));
    let invalid = GlobalObject { handle: 3, address: 8, bytes: vec![], error: WindowsError(6) };
    assert!(!fetched_whole(&invalid));
}
