pub mod bitmap;
pub mod files;
pub mod string;

use vstd::prelude::*;
use vstd::std_specs::convert::FromSpecImpl;

verus! {

/// The system's identifier for plain single-byte text.
pub const CF_TEXT: u32 = 1;

/// The system's identifier for a bitmap object.
pub const CF_BITMAP: u32 = 2;

/// The system's identifier for a device-independent bitmap.
pub const CF_DIB: u32 = 8;

/// The system's identifier for UTF-16 text.
pub const CF_UNICODETEXT: u32 = 13;

/// The system's identifier for a list of dropped files.
pub const CF_HDROP: u32 = 15;

/// The system's identifier for a bitmap with the newer, longer header.
pub const CF_DIBV5: u32 = 17;

/// The shapes of data that this library moves through the clipboard.
#[derive(Debug, Copy, Clone, PartialEq, Eq, Structural)]
pub enum ClipboardFormat {
    Text,
    Bitmap,
    BitmapInfo,
    BitmapV5,
    DropHandle,
    UnicodeText,
}

impl ClipboardFormat {
    /// The identifier under which the system knows this format.
    pub open spec fn code(self) -> u32 {
        match self {
            ClipboardFormat::Text => CF_TEXT,
            ClipboardFormat::Bitmap => CF_BITMAP,
            ClipboardFormat::BitmapInfo => CF_DIB,
            ClipboardFormat::BitmapV5 => CF_DIBV5,
            ClipboardFormat::DropHandle => CF_HDROP,
            ClipboardFormat::UnicodeText => CF_UNICODETEXT,
        }
    }

    /// The format that the system knows under `code`, if it is one of
    /// the six.
    pub open spec fn of_code(code: u32) -> Option<ClipboardFormat> {
        if code == CF_TEXT {
            Some(ClipboardFormat::Text)
        } else if code == CF_BITMAP {
            Some(ClipboardFormat::Bitmap)
        } else if code == CF_DIB {
            Some(ClipboardFormat::BitmapInfo)
        } else if code == CF_DIBV5 {
            Some(ClipboardFormat::BitmapV5)
        } else if code == CF_HDROP {
            Some(ClipboardFormat::DropHandle)
        } else if code == CF_UNICODETEXT {
            Some(ClipboardFormat::UnicodeText)
        } else {
            None
        }
    }

    /// Looks a system identifier up. An unsupported identifier is no
    /// failure: it gives `None`.
    pub fn try_from_u32(format: u32) -> (found: Option<ClipboardFormat>)
        ensures
            found == Self::of_code(format),
            found matches Some(f) ==> f.code() == format,
    {
        if format == CF_TEXT {
            Some(ClipboardFormat::Text)
        } else if format == CF_BITMAP {
            Some(ClipboardFormat::Bitmap)
        } else if format == CF_DIB {
            Some(ClipboardFormat::BitmapInfo)
        } else if format == CF_DIBV5 {
            Some(ClipboardFormat::BitmapV5)
        } else if format == CF_HDROP {
            Some(ClipboardFormat::DropHandle)
        } else if format == CF_UNICODETEXT {
            Some(ClipboardFormat::UnicodeText)
        } else {
            None
        }
    }

    /// The identifier under which the system knows this format.
    pub fn to_u32(self) -> (code: u32)
        ensures
            code == self.code(),
            Self::of_code(code) == Some(self),
    {
        match self {
            ClipboardFormat::Text => CF_TEXT,
            ClipboardFormat::Bitmap => CF_BITMAP,
            ClipboardFormat::BitmapInfo => CF_DIB,
            ClipboardFormat::BitmapV5 => CF_DIBV5,
            ClipboardFormat::DropHandle => CF_HDROP,
            ClipboardFormat::UnicodeText => CF_UNICODETEXT,
        }
    }
}

impl From<ClipboardFormat> for u32 {
    fn from(format: ClipboardFormat) -> (code: u32) {
        format.to_u32()
    }
}

impl FromSpecImpl<ClipboardFormat> for u32 {
    open spec fn obeys_from_spec() -> bool {
        true
    }

    open spec fn from_spec(format: ClipboardFormat) -> u32 {
        format.code()
    }
}

/// Every format is found again under its own identifier.
pub proof fn lemma_code_then_lookup(format: ClipboardFormat)
    ensures
        ClipboardFormat::of_code(format.code()) == Some(format),
{
}

/// A lookup that succeeds gives a format with that very identifier, and
/// a lookup fails exactly on the identifiers of none of the six formats.
pub proof fn lemma_lookup_then_code(code: u32)
    ensures
        ClipboardFormat::of_code(code) matches Some(f) ==> f.code() == code,
        ClipboardFormat::of_code(code) is None <==> (forall|f: ClipboardFormat|
            #[trigger] f.code() != code),
{
    if ClipboardFormat::of_code(code) is Some {
        assert(ClipboardFormat::of_code(code).unwrap().code() == code);
    }
}

/// Two formats with one identifier are one format.
pub proof fn lemma_code_injective(a: ClipboardFormat, b: ClipboardFormat)
    requires
        a.code() == b.code(),
    ensures
        a == b,
{
}

} // verus!
