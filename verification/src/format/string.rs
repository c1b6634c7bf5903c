use crate::error::{Error, Result};
use crate::lock::{lock_failure, GlobalObject, LockedPtr};
use vstd::prelude::*;
use vstd::utf8::{decode_utf8, valid_utf8};

verus! {

/// The text that a run of UTF-16 code units decodes to when every
/// unpaired surrogate in it is replaced by U+FFFD.
pub uninterp spec fn lossy_utf8(units: Seq<u16>) -> Seq<char>;

/// The UTF-16 code units of one character: itself below U+10000, and
/// above that a high and a low surrogate, which share the twenty bits
/// of what it exceeds U+10000 by.
pub open spec fn utf16_of_char(c: char) -> Seq<u16> {
    let v = c as u32 as int;
    if v < 0x10000 {
        seq![v as u16]
    } else {
        seq![(0xD800 + (v - 0x10000) / 1024) as u16, (0xDC00 + (v - 0x10000) % 1024) as u16]
    }
}

/// The UTF-16 code units of a text: those of its characters, in order.
pub open spec fn utf16_of(chars: Seq<char>) -> Seq<u16>
    decreases chars.len(),
{
    if chars.len() == 0 {
        Seq::<u16>::empty()
    } else {
        utf16_of(chars.drop_last()) + utf16_of_char(chars.last())
    }
}

/// Whether a text's bytes are UTF-8 up to `n` and no further: `n` is
/// the greatest length of a prefix that is UTF-8.
pub open spec fn is_valid_up_to(bytes: Seq<u8>, n: int) -> bool {
    &&& 0 <= n <= bytes.len()
    &&& valid_utf8(bytes.subrange(0, n))
    &&& forall|m: int| n < m <= bytes.len() ==> !valid_utf8(#[trigger] bytes.subrange(0, m))
}

/// Only one index is that up to which bytes are UTF-8: the position
/// of the first byte that is not is fixed by the bytes.
pub proof fn lemma_valid_up_to_unique(bytes: Seq<u8>, a: int, b: int)
    requires
        is_valid_up_to(bytes, a),
        is_valid_up_to(bytes, b),
    ensures
        a == b,
{
    if a < b {
        assert(!valid_utf8(bytes.subrange(0, b)));
    }
    if b < a {
        assert(!valid_utf8(bytes.subrange(0, a)));
    }
}

/// Calls `wtf8::Wtf8Buf::from_ill_formed_utf16` and, on what it gives,
/// `Wtf8Buf::into_string_lossy`. Nothing is proved of the text that
/// comes back: the contract only names it.
#[verifier::external_body]
pub(crate) fn decode_utf16_lossy(units: &[u16]) -> (text: String)
    ensures
        text@ == lossy_utf8(units@),
{
    wtf8::Wtf8Buf::from_ill_formed_utf16(units).into_string_lossy()
}

/// Calls `str::encode_utf16` and collects the units. The contract says
/// what they are, and claims that the lossy decoder gives the text
/// back from them: the units of a `str` are well-formed UTF-16, in
/// which that decoder finds no unpaired surrogate to replace.
#[verifier::external_body]
pub(crate) fn encode_utf16(text: &str) -> (units: Vec<u16>)
    ensures
        units@ == utf16_of(text@),
        lossy_utf8(units@) == text@,
{
    text.encode_utf16().collect()
}

/// Calls `std::str::from_utf8`, and hands its error on as the index
/// that the error's `valid_up_to` gives. The call accepts exactly the
/// byte strings that are UTF-8, and gives them back as the text that
/// they encode; of the others the index is the greatest length of a
/// prefix that the call would accept.
#[verifier::external_body]
pub(crate) fn check_utf8(bytes: &[u8]) -> (text: std::result::Result<&str, usize>)
    ensures
        match text {
            Ok(s) => valid_utf8(bytes@) && s@ == decode_utf8(bytes@),
            Err(n) => !valid_utf8(bytes@) && is_valid_up_to(bytes@, n as int),
        },
{
    match std::str::from_utf8(bytes) {
        Ok(s) => Ok(s),
        Err(e) => Err(e.valid_up_to()),
    }
}

/// The index of the first zero byte at or after `start`, or the length
/// of `bytes` where there is none.
pub open spec fn terminator_from(bytes: Seq<u8>, start: int) -> int
    decreases bytes.len() - start,
{
    if start >= bytes.len() || bytes[start] == 0 {
        start
    } else {
        terminator_from(bytes, start + 1)
    }
}

/// The bytes of a null-terminated text: all that stand before the first
/// zero byte, or all where there is none.
pub open spec fn c_str_bytes(bytes: Seq<u8>) -> Seq<u8> {
    bytes.subrange(0, terminator_from(bytes, 0))
}

/// The code unit that two bytes make, the low byte first.
pub open spec fn unit_of(lo: u8, hi: u8) -> u16 {
    (lo as int + 256 * (hi as int)) as u16
}

/// The first `n` code units that `bytes` hold.
pub open spec fn units_of(bytes: Seq<u8>, n: int) -> Seq<u16> {
    Seq::new(n as nat, |i: int| unit_of(bytes[2 * i], bytes[2 * i + 1]))
}

/// The bytes that hold `units`, the low byte of each first.
pub open spec fn bytes_of(units: Seq<u16>) -> Seq<u8> {
    Seq::new(
        2 * units.len(),
        |k: int|
            if k % 2 == 0 {
                (units[k / 2] % 256) as u8
            } else {
                (units[k / 2] / 256) as u8
            },
    )
}

/// How many code units of text a block of `size` bytes holds: one unit
/// is the terminator's.
pub open spec fn text_units(size: int) -> int {
    size / 2 - 1
}

/// The text that a block of UTF-16 text decodes to where the system
/// reports `size` bytes for it: all code units in that size but the
/// terminator's, with every unpaired surrogate replaced.
pub open spec fn unicode_text_in(bytes: Seq<u8>, size: int) -> Seq<char> {
    lossy_utf8(units_of(bytes, text_units(size)))
}

/// The text that a block of UTF-16 text decodes to where the system
/// reports its true size.
pub open spec fn unicode_text_of(bytes: Seq<u8>) -> Seq<char> {
    unicode_text_in(bytes, bytes.len() as int)
}

/// The payload that stands for `chars` on the clipboard: its UTF-16
/// code units and one zero unit, as bytes.
pub open spec fn unicode_payload(chars: Seq<char>) -> Seq<u8> {
    bytes_of(utf16_of(chars).push(0u16))
}

/// Reads the first `n` code units out of `bytes`.
pub fn read_units(bytes: &Vec<u8>, n: usize) -> (units: Vec<u16>)
    requires
        2 * n <= bytes@.len(),
    ensures
        units@ == units_of(bytes@, n as int),
{
    let mut units: Vec<u16> = Vec::new();
    let size: usize = bytes.len();
    let mut i: usize = 0;
    while i < n
        invariant
            i <= n,
            size == bytes@.len(),
            2 * n <= size,
            units@ == units_of(bytes@, i as int),
        decreases n - i,
    {
        let lo: u16 = bytes[2 * i] as u16;
        let hi: u16 = bytes[2 * i + 1] as u16;
        units.push(lo + hi * 256);
        i = i + 1;
        assert(units@ =~= units_of(bytes@, i as int));
    }
    units
}

/// Writes code units out as bytes, the low byte of each first.
pub fn write_units(units: &Vec<u16>) -> (bytes: Vec<u8>)
    ensures
        bytes@ == bytes_of(units@),
{
    let mut bytes: Vec<u8> = Vec::new();
    let mut i: usize = 0;
    while i < units.len()
        invariant
            i <= units@.len(),
            bytes@ == bytes_of(units@.subrange(0, i as int)),
        decreases units@.len() - i,
    {
        let unit: u16 = units[i];
        bytes.push((unit % 256) as u8);
        bytes.push((unit / 256) as u8);
        i = i + 1;
        assert(bytes@ =~= bytes_of(units@.subrange(0, i as int)));
    }
    assert(units@.subrange(0, i as int) =~= units@);
    bytes
}

/// Reading back what was written gives the same code units.
pub proof fn lemma_units_of_bytes_of(units: Seq<u16>)
    ensures
        units_of(bytes_of(units), units.len() as int) == units,
{
    assert(units_of(bytes_of(units), units.len() as int) =~= units);
}

/// Decodes plain text: the bytes of the block up to its first zero
/// byte, or all of them where none is zero, read as UTF-8.
pub fn get(object: GlobalObject) -> (text: Result<String>)
    ensures
        match lock_failure(object) {
            Some(e) => text == Err::<String, Error>(e),
            None => match text {
                Ok(s) => valid_utf8(c_str_bytes(object.bytes@)) && s@ == decode_utf8(
                    c_str_bytes(object.bytes@),
                ),
                Err(e) => !valid_utf8(c_str_bytes(object.bytes@)) && (e matches Error::InvalidString {
                    valid_up_to,
                } && is_valid_up_to(c_str_bytes(object.bytes@), valid_up_to as int)),
            },
        },
{
    match LockedPtr::new(object, 1) {
        Err(e) => Err(e),
        Ok(block) => {
            let bytes = block.as_bytes();
            let mut end: usize = 0;
            while end < bytes.len() && bytes[end] != 0
                invariant
                    end <= bytes@.len(),
                    terminator_from(bytes@, 0) == terminator_from(bytes@, end as int),
                decreases bytes@.len() - end,
            {
                end = end + 1;
            }
            assert(terminator_from(bytes@, end as int) == end);
            let text = vstd::slice::slice_subrange(bytes.as_slice(), 0, end);
            assert(text@ == c_str_bytes(object.bytes@));
            match check_utf8(text) {
                Ok(s) => Ok(s.to_owned()),
                Err(valid_up_to) => Err(Error::InvalidString { valid_up_to }),
            }
        },
    }
}

/// Decodes UTF-16 text: all code units of the block but the last,
/// which is the terminator's, with every unpaired surrogate replaced.
///
/// `reported` is the size in bytes that the system reports for the
/// locked block when it is asked again; zero is `InvalidObject`. A
/// block that cannot hold one code unit is a fault of the caller, and
/// a size that cannot, or that exceeds the block, breaks the system's
/// own promise: both are excluded.
pub fn get_unicode(object: GlobalObject, reported: usize) -> (text: Result<String>)
    requires
        lock_failure(object) is None ==> object.bytes@.len() >= 2,
        lock_failure(object) is None && reported != 0 ==> 2 <= reported <= object.bytes@.len(),
    ensures
        match lock_failure(object) {
            Some(e) => text == Err::<String, Error>(e),
            None => if reported == 0 {
                text == Err::<String, Error>(Error::InvalidObject(object.error))
            } else {
                text matches Ok(s) && s@ == unicode_text_in(object.bytes@, reported as int)
            },
        },
{
    let error = object.error;
    match LockedPtr::new(object, 2) {
        Err(e) => Err(e),
        Ok(block) => match block.size(reported, error) {
            Err(e) => Err(e),
            Ok(size) => {
                let len: usize = size / 2 - 1;
                let units = read_units(block.as_bytes(), len);
                Ok(decode_utf16_lossy(units.as_slice()))
            },
        },
    }
}

/// The block of UTF-16 text with the given code units: the units and
/// one zero unit, as bytes.
pub fn frame_text(units: Vec<u16>) -> (payload: Vec<u8>)
    ensures
        payload@ == bytes_of(units@.push(0u16)),
        payload@.len() == 2 * (units@.len() + 1),
        units_of(payload@, text_units(payload@.len() as int)) == units@,
{
    let mut units = units;
    let ghost text = units@;
    units.push(0u16);
    assert(units_of(bytes_of(units@), text.len() as int) =~= text);
    write_units(&units)
}

/// What stands before the terminator of a null-terminated text holds
/// no zero byte, and is all of the block or is followed by one.
pub proof fn lemma_c_str_bytes(bytes: Seq<u8>)
    ensures
        c_str_bytes(bytes).len() <= bytes.len(),
        forall|i: int| 0 <= i < c_str_bytes(bytes).len() ==> c_str_bytes(bytes)[i] != 0,
        c_str_bytes(bytes).len() == bytes.len() || bytes[c_str_bytes(bytes).len() as int] == 0,
{
    lemma_terminator(bytes, 0);
}

/// The terminator found from `start` on lies at or behind `start`,
/// within the bytes or at their end, with no zero byte between.
proof fn lemma_terminator(bytes: Seq<u8>, start: int)
    requires
        0 <= start <= bytes.len(),
    ensures
        start <= terminator_from(bytes, start) <= bytes.len(),
        forall|i: int| start <= i < terminator_from(bytes, start) ==> bytes[i] != 0,
        terminator_from(bytes, start) == bytes.len() || bytes[terminator_from(bytes, start)] == 0,
    decreases bytes.len() - start,
{
    if start < bytes.len() && bytes[start] != 0 {
        lemma_terminator(bytes, start + 1);
    }
}

/// Encodes text for the clipboard: its UTF-16 code units, one zero
/// unit, and nothing else. A block that holds this payload decodes to
/// the text again.
pub fn encode_unicode(text: &str) -> (payload: Vec<u8>)
    ensures
        payload@ == unicode_payload(text@),
        payload@.len() == 2 * (utf16_of(text@).len() + 1),
        unicode_text_of(payload@) == text@,
{
    let units = encode_utf16(text);
    frame_text(units)
}

/// The code units that went into a payload are those that come out of
/// it: the terminator is dropped, and nothing else.
pub proof fn lemma_unicode_round_trip(chars: Seq<char>)
    ensures
        unicode_payload(chars).len() == 2 * (utf16_of(chars).len() + 1),
        units_of(unicode_payload(chars), text_units(unicode_payload(chars).len() as int))
            == utf16_of(chars),
        unicode_text_of(unicode_payload(chars)) == lossy_utf8(utf16_of(chars)),
{
    let units = utf16_of(chars).push(0u16);
    assert(units_of(bytes_of(units), utf16_of(chars).len() as int) =~= utf16_of(chars));
}

} // verus!
