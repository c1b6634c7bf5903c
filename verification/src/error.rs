pub mod windows;

use vstd::prelude::*;

pub use self::windows::{make_lang_id, WindowsError};

verus! {

pub type Result<T> = std::result::Result<T, Error>;

/// Everything that can go wrong between the caller and the clipboard.
#[derive(Debug, Clone, PartialEq, Eq, Structural)]
pub enum Error {
    /// A handle to the clipboard is already opened by this program.
    ClipboardAlreadyOpen,
    /// The system could not allocate a global object.
    Allocation(WindowsError),
    /// The system could not lock a global object.
    Locking(WindowsError),
    /// The global object is invalid or discarded.
    InvalidObject(WindowsError),
    /// The system denied ownership of the clipboard.
    OpenClipboard(WindowsError),
    /// The system failed to hand out clipboard data.
    GetClipboard(WindowsError),
    /// The system failed to accept clipboard data.
    SetClipboard(WindowsError),
    /// The system failed while listing the formats on the clipboard.
    EnumClipboard(WindowsError),
    /// The system copied no pixel rows out of a bitmap.
    ImageBits(WindowsError),
    /// No valid image could be constructed from the clipboard data.
    InvalidImage,
    /// The system reported no file paths in a drop list.
    PathCount(WindowsError),
    /// The system reported no length for the path at `idx`.
    PathLength { idx: usize, err: WindowsError },
    /// The system wrote nothing for the path at `idx`.
    FilePath { idx: usize, err: WindowsError },
    /// The text is not UTF-8; its first `valid_up_to` bytes are, and
    /// no longer prefix of it is.
    InvalidString { valid_up_to: usize },
    /// The hidden window could not be created.
    CreateWindow(WindowsError),
    /// No listener could be set up on the hidden window.
    ListenWindow(WindowsError),
}

} // verus!
