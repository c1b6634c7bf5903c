use vstd::prelude::*;

verus! {

/// A status code of the system, as its last-error query reports it.
#[derive(Debug, Copy, Clone, PartialEq, Eq, Structural)]
pub struct WindowsError(pub u32);

impl WindowsError {
    /// The status code that this error carries.
    pub open spec fn code(self) -> u32 {
        self.0
    }

    /// Whether the code reports a failure: every code but zero does.
    pub open spec fn is_failure(self) -> bool {
        self.0 != 0
    }

    /// Wraps the code that the system reported last.
    pub fn from_last_error(code: u32) -> (err: Self)
        ensures
            err == WindowsError(code),
    {
        WindowsError(code)
    }

    /// Wraps the code that the system reported last, or gives `None`
    /// where that code is zero, which stands for success.
    pub fn try_from_last_error(code: u32) -> (err: Option<Self>)
        ensures
            err == (if code == 0 { None } else { Some(WindowsError(code)) }),
    {
        if code != 0 {
            Some(WindowsError(code))
        } else {
            None
        }
    }

    /// The code itself.
    pub fn raw(&self) -> (code: u32)
        ensures
            code == self.0,
    {
        self.0
    }

    /// Whether this is the code zero, which the system renders as
    /// "OK (no error)" and for which no message has to be looked up.
    pub fn is_ok(&self) -> (ok: bool)
        ensures
            ok == !self.is_failure(),
    {
        self.0 == 0
    }
}

/// The language identifier that the system's message lookup takes: the
/// primary language in the low ten bits, the sublanguage above them.
pub open spec fn lang_id(lang: u32, sublang: u32) -> u32 {
    lang | (sublang << 10u32)
}

/// Packs a primary language and a sublanguage into one identifier.
pub fn make_lang_id(lang: u32, sublang: u32) -> (id: u32)
    ensures
        id == lang_id(lang, sublang),
{
    lang | (sublang << 10u32)
}

} // verus!
