//! Exclusive access to the system clipboard, as verified logic.
//!
//! The system itself is reached from outside this library. Every
//! function here takes what the system answered as plain values and
//! decides what the answer means: which error it is, what a block of
//! memory decodes to, which bytes are to be stored.
//!
//! Sessions are shared and counted: while one is live a further handle
//! joins it, and the system's session ends with the last handle.

pub mod error;
pub mod format;
pub mod lock;

use crate::error::{Error, Result, WindowsError};
use crate::format::bitmap::{header_of, CopiedBits, RgbImage, BITMAP_INFO_SIZE};
use crate::format::files::{decode_back, drop_payload, texts, DropHandle};
use crate::format::string::{
    c_str_bytes, is_valid_up_to, unicode_payload, unicode_text_in, unicode_text_of,
};
use crate::format::ClipboardFormat;
use crate::lock::{alloc_failure, lock_failure, GlobalObject, LockedPtr};
use vstd::prelude::*;
use vstd::utf8::{decode_utf8, valid_utf8};

verus! {

/// What is to be stored on the clipboard: the format, and the bytes of
/// the block to store under it.
#[derive(Debug, Clone, PartialEq, Eq)]
pub struct Transfer {
    pub format: ClipboardFormat,
    pub bytes: Vec<u8>,
}

/// Why nothing can be decoded from the handle that the system gave
/// for a format, if that is so: a handle of zero means that the system
/// handed out none, which is `GetClipboard`; any other handle has to
/// be locked.
pub open spec fn fetch_failure(object: GlobalObject) -> Option<Error> {
    if object.handle == 0 {
        Some(Error::GetClipboard(object.error))
    } else {
        lock_failure(object)
    }
}

/// Whether what the system gave for a format can be decoded: whether
/// a handle was handed out, locked, and found valid.
pub fn fetched_whole(object: &GlobalObject) -> (ok: bool)
    ensures
        ok == (fetch_failure(*object) is None),
{
    object.handle != 0 && object.address != 0 && object.bytes.len() != 0
}

/// The formats among `codes[..n]` that this library supports, in their
/// order.
pub open spec fn known_formats(codes: Seq<u32>, n: int) -> Seq<ClipboardFormat>
    decreases n,
{
    if n <= 0 {
        Seq::<ClipboardFormat>::empty()
    } else {
        match ClipboardFormat::of_code(codes[n - 1]) {
            Some(format) => known_formats(codes, n - 1).push(format),
            None => known_formats(codes, n - 1),
        }
    }
}

/// An open session on the system clipboard, owned through the hidden
/// window that it was opened for.
#[derive(Debug, Copy, Clone, PartialEq, Eq, Structural)]
pub struct ClipboardHandleInner {
    window: isize,
}

impl ClipboardHandleInner {
    /// The window that owns the session.
    pub closed spec fn owner(&self) -> isize {
        self.window
    }

    /// Opens a session from what the system answered: the window it
    /// created, and whether it then granted the clipboard to it.
    ///
    /// A window of zero is `CreateWindow`; a clipboard that was not
    /// granted is `OpenClipboard`.
    pub fn new(window: isize, opened: bool, error: WindowsError) -> (session: Result<
        ClipboardHandleInner,
    >)
        ensures
            match session {
                Ok(s) => window != 0 && opened && s.owner() == window,
                Err(e) => if window == 0 {
                    e == Error::CreateWindow(error)
                } else {
                    !opened && e == Error::OpenClipboard(error)
                },
            },
    {
        if window == 0 {
            return Err(Error::CreateWindow(error));
        }
        if !opened {
            return Err(Error::OpenClipboard(error));
        }
        Ok(ClipboardHandleInner { window })
    }

    /// The window that owns the session.
    pub fn window(&self) -> (window: isize)
        ensures
            window == self.owner(),
    {
        self.window
    }

    /// Prepares text for the clipboard: UTF-16 text whose block decodes
    /// to `string` again.
    pub fn set_string(&self, string: &str) -> (transfer: Transfer)
        ensures
            transfer.format == ClipboardFormat::UnicodeText,
            transfer.bytes@ == unicode_payload(string@),
            unicode_text_of(transfer.bytes@) == string@,
    {
        Transfer { format: ClipboardFormat::UnicodeText, bytes: format::string::encode_unicode(string) }
    }

    /// Prepares a list of paths for the clipboard: a drop list in wide
    /// characters, each of whose paths decodes to itself again.
    pub fn set_files(&self, paths: &Vec<String>) -> (transfer: Transfer)
        ensures
            transfer.format == ClipboardFormat::DropHandle,
            transfer.bytes@ == drop_payload(texts(paths@)),
            decode_back(texts(paths@)),
    {
        Transfer { format: ClipboardFormat::DropHandle, bytes: format::files::encode(paths) }
    }

    /// Says how storing a transfer went, from what the system answered
    /// about the block it allocated for it and about the block's
    /// handover.
    ///
    /// A block that was not allocated, not locked or not valid is the
    /// failure of `alloc_failure`; a handover that the system refused
    /// is `SetClipboard`. A block smaller than the transfer breaks the
    /// system's own promise and is excluded.
    pub fn finish_set(&self, transfer: &Transfer, object: GlobalObject, accepted: bool) -> (done:
        Result<()>)
        requires
            alloc_failure(object) is None ==> transfer.bytes@.len() <= object.bytes@.len(),
        ensures
            done == (match alloc_failure(object) {
                Some(e) => Err::<(), Error>(e),
                None => if accepted {
                    Ok::<(), Error>(())
                } else {
                    Err::<(), Error>(Error::SetClipboard(object.error))
                },
            }),
    {
        let size: usize = transfer.bytes.len();
        let error = object.error;
        assert(1 * size == size) by (nonlinear_arith);
        match LockedPtr::allocate(object, 1, size) {
            Err(e) => Err(e),
            Ok(_block) => {
                if accepted {
                    Ok(())
                } else {
                    Err(Error::SetClipboard(error))
                }
            },
        }
    }

    /// Checks the handle that the system gave for a format: zero is
    /// `GetClipboard`, any other handle is handed on.
    pub fn get_clipboard_data(object: GlobalObject) -> (checked: Result<GlobalObject>)
        ensures
            checked == (if object.handle == 0 {
                Err::<GlobalObject, Error>(Error::GetClipboard(object.error))
            } else {
                Ok::<GlobalObject, Error>(object)
            }),
    {
        if object.handle == 0 {
            return Err(Error::GetClipboard(object.error));
        }
        Ok(object)
    }

    /// The plain text on the clipboard, if there is any. `fetched` is
    /// `None` where the system has no plain text, and else what it
    /// answered about the handle it gave.
    pub fn string(&self, fetched: Option<GlobalObject>) -> (text: Result<Option<String>>)
        ensures
            match fetched {
                None => text == Ok::<Option<String>, Error>(None),
                Some(object) => match fetch_failure(object) {
                    Some(e) => text == Err::<Option<String>, Error>(e),
                    None => match text {
                        Ok(found) => found matches Some(s) && valid_utf8(c_str_bytes(object.bytes@))
                            && s@ == decode_utf8(c_str_bytes(object.bytes@)),
                        Err(e) => !valid_utf8(c_str_bytes(object.bytes@)) && (e matches Error::InvalidString {
                            valid_up_to,
                        } && is_valid_up_to(c_str_bytes(object.bytes@), valid_up_to as int)),
                    },
                },
            },
    {
        match fetched {
            None => Ok(None),
            Some(object) => match Self::get_clipboard_data(object) {
                Err(e) => Err(e),
                Ok(object) => match format::string::get(object) {
                    Ok(s) => Ok(Some(s)),
                    Err(e) => Err(e),
                },
            },
        }
    }

    /// The UTF-16 text on the clipboard, if there is any. `fetched` is
    /// `None` where the system has no such text, and else what it
    /// answered about the handle it gave; `reported` is the size that
    /// it reports for the locked block when it is asked again, and is
    /// read only where the handle was locked.
    ///
    /// A block that cannot hold one code unit, and a reported size
    /// that cannot or that exceeds the block, are excluded.
    pub fn string_unicode(&self, fetched: Option<GlobalObject>, reported: usize) -> (text: Result<
        Option<String>,
    >)
        requires
            fetched is Some && fetch_failure(fetched->0) is None ==> fetched->0.bytes@.len() >= 2,
            fetched is Some && fetch_failure(fetched->0) is None && reported != 0 ==> 2 <= reported
                <= fetched->0.bytes@.len(),
        ensures
            match fetched {
                None => text == Ok::<Option<String>, Error>(None),
                Some(object) => match fetch_failure(object) {
                    Some(e) => text == Err::<Option<String>, Error>(e),
                    None => if reported == 0 {
                        text == Err::<Option<String>, Error>(Error::InvalidObject(object.error))
                    } else {
                        text matches Ok(Some(s)) && s@ == unicode_text_in(
                            object.bytes@,
                            reported as int,
                        )
                    },
                },
            },
    {
        match fetched {
            None => Ok(None),
            Some(object) => match Self::get_clipboard_data(object) {
                Err(e) => Err(e),
                Ok(object) => match format::string::get_unicode(object, reported) {
                    Ok(s) => Ok(Some(s)),
                    Err(e) => Err(e),
                },
            },
        }
    }

    /// The list of files on the clipboard, if there is one. `fetched`
    /// is `None` where the system has no such list, and else what it
    /// answered about the handle it gave; `drop` is read only where
    /// that handle was locked.
    pub fn files(&self, fetched: Option<GlobalObject>, drop: &DropHandle) -> (paths: Result<
        Option<Vec<String>>,
    >)
        ensures
            match fetched {
                None => paths == Ok::<Option<Vec<String>>, Error>(None),
                Some(object) => match fetch_failure(object) {
                    Some(e) => paths == Err::<Option<Vec<String>>, Error>(e),
                    None => match paths {
                        Ok(found) => found matches Some(list) && drop.decodes_to(
                            Ok::<Vec<String>, Error>(list),
                        ),
                        Err(e) => drop.decodes_to(Err::<Vec<String>, Error>(e)),
                    },
                },
            },
    {
        match fetched {
            None => Ok(None),
            Some(object) => match Self::get_clipboard_data(object) {
                Err(e) => Err(e),
                Ok(object) => match format::files::get(object, drop) {
                    Ok(list) => Ok(Some(list)),
                    Err(e) => Err(e),
                },
            },
        }
    }

    /// The image on the clipboard, if there is one: both the bitmap
    /// and its description have to be there. Each is `None` where the
    /// system has none, and else what it answered about the handle it
    /// gave; of the bitmap only the handle counts. `bits` is read only
    /// where both handles were given and the description was locked.
    ///
    /// A description too small for what it describes is excluded, where
    /// it is read: where the bitmap was handed out.
    pub fn image(
        &self,
        bitmap: Option<GlobalObject>,
        info: Option<GlobalObject>,
        bits: CopiedBits,
    ) -> (image: Result<Option<RgbImage>>)
        requires
            bitmap is Some && bitmap->0.handle != 0 && info is Some && fetch_failure(info->0) is None
                ==> info->0.bytes@.len() >= BITMAP_INFO_SIZE,
        ensures
            bitmap is None || info is None ==> image == Ok::<Option<RgbImage>, Error>(None),
            bitmap is Some && info is Some ==> (if bitmap->0.handle == 0 {
                image == Err::<Option<RgbImage>, Error>(Error::GetClipboard(bitmap->0.error))
            } else {
                match fetch_failure(info->0) {
                    Some(e) => image == Err::<Option<RgbImage>, Error>(e),
                    None => match image {
                        Ok(found) => {
                            &&& found matches Some(img)
                            &&& bits.scan_lines != 0
                            &&& header_of(info->0.bytes@).has_rgb_layout()
                            &&& img.wf()
                            &&& header_of(info->0.bytes@).decodes_to(bits.raw@, img)
                        },
                        Err(e) => if bits.scan_lines == 0 {
                            e == Error::ImageBits(bits.error)
                        } else {
                            !header_of(info->0.bytes@).has_rgb_layout() && e == Error::InvalidImage
                        },
                    },
                }
            }),
    {
        match bitmap {
            None => Ok(None),
            Some(pixels) => match info {
                None => Ok(None),
                Some(object) => match Self::get_clipboard_data(pixels) {
                    Err(e) => Err(e),
                    Ok(_) => match Self::get_clipboard_data(object) {
                        Err(e) => Err(e),
                        Ok(object) => match LockedPtr::new(object, BITMAP_INFO_SIZE) {
                            Err(e) => Err(e),
                            Ok(block) => match format::bitmap::get(&block, bits) {
                                Ok(img) => Ok(Some(img)),
                                Err(e) => Err(e),
                            },
                        },
                    },
                },
            },
        }
    }

    /// Says how emptying the clipboard went.
    pub fn empty(&self, emptied: bool, error: WindowsError) -> (done: Result<()>)
        ensures
            done == (if emptied {
                Ok::<(), Error>(())
            } else {
                Err::<(), Error>(Error::GetClipboard(error))
            }),
    {
        if !emptied {
            return Err(Error::GetClipboard(error));
        }
        Ok(())
    }

    /// The supported formats that are on the clipboard, in the
    /// system's order.
    ///
    /// `reported` holds the identifiers that the system listed before
    /// it reported zero, `last_error` the status code read then. A
    /// code other than zero means that the listing failed; zero means
    /// that it was done. Identifiers of other formats are left out.
    pub fn available_formats(&self, reported: &Vec<u32>, last_error: u32) -> (formats: Result<
        Vec<ClipboardFormat>,
    >)
        ensures
            match formats {
                Ok(list) => last_error == 0 && list@ == known_formats(
                    reported@,
                    reported@.len() as int,
                ),
                Err(e) => last_error != 0 && e == Error::EnumClipboard(WindowsError(last_error)),
            },
    {
        match WindowsError::try_from_last_error(last_error) {
            Some(err) => Err(Error::EnumClipboard(err)),
            None => {
                let mut formats: Vec<ClipboardFormat> = Vec::new();
                let mut i: usize = 0;
                while i < reported.len()
                    invariant
                        i <= reported@.len(),
                        formats@ == known_formats(reported@, i as int),
                    decreases reported@.len() - i,
                {
                    if let Some(format) = ClipboardFormat::try_from_u32(reported[i]) {
                        formats.push(format);
                    }
                    i = i + 1;
                }
                Ok(formats)
            },
        }
    }
}

/// The one place that knows whether a session is live in this process,
/// and how many handles share it.
#[derive(Debug)]
pub struct Registry {
    session: ClipboardHandleInner,
    handles: usize,
}

impl Registry {
    /// The number of handles that share the live session; zero where
    /// none is live.
    pub closed spec fn handles(&self) -> nat {
        self.handles as nat
    }

    /// The live session. It means nothing where none is live.
    pub closed spec fn session(&self) -> ClipboardHandleInner {
        self.session
    }

    /// Whether a session is live.
    pub open spec fn is_live(&self) -> bool {
        self.handles() > 0
    }

    /// A registry in which no session is live.
    pub fn new() -> (registry: Registry)
        ensures
            !registry.is_live(),
    {
        Registry { session: ClipboardHandleInner { window: 0 }, handles: 0 }
    }

    /// The number of handles that share the live session.
    pub fn handle_count(&self) -> (count: usize)
        ensures
            count == self.handles(),
    {
        self.handles
    }

    /// Whether a session is live.
    pub fn live(&self) -> (live: bool)
        ensures
            live == self.is_live(),
    {
        self.handles > 0
    }
}

/// A handle on the session of this process. Handles share one session;
/// the session ends with the last of them.
#[derive(Debug)]
pub struct ClipboardHandle {
    inner: ClipboardHandleInner,
}

impl ClipboardHandle {
    /// The session that this handle shares.
    pub closed spec fn inner(&self) -> ClipboardHandleInner {
        self.inner
    }

    /// A handle belongs to a registry where that registry's session is
    /// live and is the handle's.
    pub open spec fn belongs_to(&self, registry: &Registry) -> bool {
        registry.is_live() && registry.session() == self.inner()
    }

    /// Gives out a handle.
    ///
    /// While a session is live the handle joins it: this cannot fail,
    /// and `fresh` is not looked at, so no second session has to be
    /// opened for it. Where none is live, `fresh` is what opening one
    /// gave: a session, which becomes the live one, or the failure,
    /// which is handed on.
    pub fn new(registry: &mut Registry, fresh: Option<Result<ClipboardHandleInner>>) -> (handle:
        Result<ClipboardHandle>)
        requires
            old(registry).handles() < usize::MAX,
            !old(registry).is_live() ==> fresh is Some,
        ensures
            old(registry).is_live() ==> {
                &&& handle matches Ok(h)
                &&& h.inner() == old(registry).session()
                &&& final(registry).session() == old(registry).session()
                &&& final(registry).handles() == old(registry).handles() + 1
                &&& h.belongs_to(final(registry))
            },
            !old(registry).is_live() ==> match fresh {
                Some(Ok(opened)) => {
                    &&& handle matches Ok(h)
                    &&& h.inner() == opened
                    &&& final(registry).session() == opened
                    &&& final(registry).handles() == 1
                    &&& h.belongs_to(final(registry))
                },
                Some(Err(e)) => {
                    &&& handle matches Err(f) && f == e
                    &&& final(registry).handles() == 0
                    &&& final(registry).session() == old(registry).session()
                },
                None => true,
            },
    {
        if registry.handles > 0 {
            registry.handles = registry.handles + 1;
            Ok(ClipboardHandle { inner: registry.session })
        } else {
            match fresh {
                Some(Ok(opened)) => {
                    registry.session = opened;
                    registry.handles = 1;
                    Ok(ClipboardHandle { inner: opened })
                },
                Some(Err(e)) => Err(e),
                None => vstd::pervasive::unreached(),
            }
        }
    }

    /// The session that this handle shares.
    pub fn as_ref(&self) -> (session: &ClipboardHandleInner)
        ensures
            *session == self.inner(),
    {
        &self.inner
    }

    /// Gives the handle back. With the last handle the session ends,
    /// and the window on which the clipboard is to be released comes
    /// back; before that nothing is to be released.
    pub fn release(self, registry: &mut Registry) -> (closing: Option<isize>)
        requires
            self.belongs_to(old(registry)),
        ensures
            final(registry).handles() == old(registry).handles() - 1,
            final(registry).session() == old(registry).session(),
            closing == (if old(registry).handles() == 1 {
                Some(self.inner().owner())
            } else {
                None
            }),
    {
        registry.handles = registry.handles - 1;
        if registry.handles == 0 {
            Some(self.inner.window)
        } else {
            None
        }
    }
}

} // verus!
