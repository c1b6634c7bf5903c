use crate::error::{Error, Result, WindowsError};
use crate::lock::LockedPtr;
use vstd::prelude::*;

verus! {

/// The size in bytes of the header that every bitmap description
/// starts with.
pub const BITMAP_HEADER_SIZE: usize = 40;

/// The size in bytes of the legacy bitmap description: the header and
/// one colour entry.
pub const BITMAP_INFO_SIZE: usize = 44;

/// What the logic reads of a bitmap's header.
#[derive(Debug, Copy, Clone, PartialEq, Eq, Structural)]
pub struct BitmapHeader {
    /// The width in pixels.
    pub width: i32,
    /// The height in pixels; positive where the rows are stored from the
    /// bottom up.
    pub height: i32,
    /// The number of bits per pixel.
    pub bit_count: u16,
    /// The size in bytes that the header declares for the pixel data.
    pub size_image: u32,
}

/// What the system answered when it was asked to copy a bitmap's rows:
/// the buffer as it left it, the number of rows it reported, and the
/// status code read where that number was zero.
#[derive(Debug, Clone, PartialEq, Eq)]
pub struct CopiedBits {
    pub raw: Vec<u8>,
    pub scan_lines: i32,
    pub error: WindowsError,
}

/// An image of three bytes per pixel, its rows from the top down and
/// without padding.
#[derive(Debug, Clone, PartialEq, Eq)]
pub struct RgbImage {
    pub width: u32,
    pub height: u32,
    pub data: Vec<u8>,
}

impl RgbImage {
    /// The buffer holds three bytes for each pixel and nothing else.
    pub open spec fn wf(&self) -> bool {
        self.data@.len() == 3 * self.width * self.height
    }
}

/// The unsigned number that four bytes make, the lowest first.
pub open spec fn le_u32(bytes: Seq<u8>, at: int) -> int {
    bytes[at] as int + 256 * (bytes[at + 1] as int) + 65536 * (bytes[at + 2] as int) + 16777216 * (
    bytes[at + 3] as int)
}

/// The signed number that four bytes make, the lowest first.
pub open spec fn le_i32(bytes: Seq<u8>, at: int) -> int {
    if le_u32(bytes, at) < 0x8000_0000 {
        le_u32(bytes, at)
    } else {
        le_u32(bytes, at) - 0x1_0000_0000
    }
}

/// The unsigned number that two bytes make, the lower first.
pub open spec fn le_u16(bytes: Seq<u8>, at: int) -> int {
    bytes[at] as int + 256 * (bytes[at + 1] as int)
}

/// The header that the first forty bytes of a bitmap description hold.
pub open spec fn header_of(bytes: Seq<u8>) -> BitmapHeader {
    BitmapHeader {
        width: le_i32(bytes, 4) as i32,
        height: le_i32(bytes, 8) as i32,
        bit_count: le_u16(bytes, 14) as u16,
        size_image: le_u32(bytes, 20) as u32,
    }
}

/// The index of byte `col` of row `row` in a buffer of rows of
/// `row_len` bytes.
pub open spec fn at(row: int, col: int, row_len: int) -> int {
    row * row_len + col
}

/// Byte `col` of padded row `row` of `raw`; zero where `raw` ends
/// before that row does.
pub open spec fn padded_byte(raw: Seq<u8>, stride: int, row: int, col: int) -> u8 {
    if (row + 1) * stride <= raw.len() {
        raw[row * stride + col]
    } else {
        0u8
    }
}

/// `packed` holds the first `row_len` bytes of each of the first `rows`
/// padded rows of `raw`, and nothing between them.
pub open spec fn is_depadded(
    packed: Seq<u8>,
    raw: Seq<u8>,
    stride: int,
    row_len: int,
    rows: int,
) -> bool {
    &&& packed.len() == rows * row_len
    &&& forall|r: int, j: int|
        0 <= r < rows && 0 <= j < row_len ==> #[trigger] packed[at(r, j, row_len)] == padded_byte(
            raw,
            stride,
            r,
            j,
        )
}

/// `out` holds the `rows` rows of `data` in reverse order, and behind
/// them what `data` holds there.
pub open spec fn is_flipped(out: Seq<u8>, data: Seq<u8>, row_len: int, rows: int) -> bool {
    &&& out.len() == data.len()
    &&& forall|r: int, j: int|
        0 <= r < rows && 0 <= j < row_len ==> #[trigger] out[at(r, j, row_len)] == data[at(
            rows - 1 - r,
            j,
            row_len,
        )]
    &&& forall|k: int| rows * row_len <= k < data.len() ==> out[k] == data[k]
}

impl BitmapHeader {
    /// Whether the rows are stored from the bottom up.
    pub open spec fn should_flip(self) -> bool {
        self.height > 0
    }

    /// The number of rows.
    pub open spec fn rows(self) -> int {
        if self.height < 0 {
            -(self.height as int)
        } else {
            self.height as int
        }
    }

    /// The number of whole bytes per pixel.
    pub open spec fn bytes_per_pixel(self) -> int {
        self.bit_count as int / 8
    }

    /// The number of bytes of pixels in one row.
    pub open spec fn row_len(self) -> int {
        self.width * self.bytes_per_pixel()
    }

    /// The number of bytes from one stored row to the next: the bits of
    /// a row, rounded up to a multiple of four bytes.
    pub open spec fn row_stride(self) -> int {
        (self.bit_count * self.width + 31) / 32 * 4
    }

    /// The padded row of `raw` that row `row` of the image comes from.
    pub open spec fn source_row(self, row: int) -> int {
        if self.should_flip() {
            self.rows() - 1 - row
        } else {
            row
        }
    }

    /// Whether the packed pixels make an image of three bytes per
    /// pixel: the width is not negative, and the image is empty or a
    /// pixel has three bytes.
    pub open spec fn has_rgb_layout(self) -> bool {
        self.width >= 0 && self.rows() * self.row_len() == 3 * self.width * self.rows()
    }

    /// `image` is what `raw` decodes to under this header: as wide and
    /// as high as the header says, each row the pixel bytes of its
    /// source row.
    pub open spec fn decodes_to(self, raw: Seq<u8>, image: RgbImage) -> bool {
        &&& image.width == self.width
        &&& image.height == self.rows()
        &&& image.data@.len() == self.rows() * self.row_len()
        &&& forall|r: int, j: int|
            0 <= r < self.rows() && 0 <= j < self.row_len() ==> #[trigger] image.data@[at(
                r,
                j,
                self.row_len(),
            )] == padded_byte(raw, self.row_stride(), self.source_row(r), j)
    }
}

/// Calls `image::RgbImage::from_raw` and, on the image it gives,
/// `into_raw`. The buffer is accepted, and comes back as it went in,
/// exactly where it holds at least three bytes for each pixel.
#[verifier::external_body]
fn check_image(width: u32, height: u32, buf: Vec<u8>) -> (out: Option<Vec<u8>>)
    ensures
        match out {
            Some(data) => 3 * width * height <= buf@.len() && data@ == buf@,
            None => 3 * width * height > buf@.len(),
        },
{
    match image::RgbImage::from_raw(width, height, buf) {
        Some(img) => Some(img.into_raw()),
        None => None,
    }
}

/// Calls `image::RgbImage::from_raw`, `image::imageops::flip_vertical_in_place`
/// on the image it gives, and `into_raw`. The buffer is accepted as
/// above; its rows of three bytes per pixel then come back in reverse
/// order, and what it holds behind them is left alone.
#[verifier::external_body]
fn flip_image(width: u32, height: u32, buf: Vec<u8>) -> (out: Option<Vec<u8>>)
    ensures
        match out {
            Some(data) => 3 * width * height <= buf@.len() && is_flipped(
                data@,
                buf@,
                3 * width,
                height as int,
            ),
            None => 3 * width * height > buf@.len(),
        },
{
    match image::RgbImage::from_raw(width, height, buf) {
        Some(mut img) => {
            image::imageops::flip_vertical_in_place(&mut img);
            Some(img.into_raw())
        },
        None => None,
    }
}

/// A byte of row `q` lies before the start of any later row `r`.
proof fn lemma_at_bound(q: int, j: int, row_len: int, r: int)
    requires
        0 <= q < r,
        0 <= j < row_len,
    ensures
        0 <= at(q, j, row_len) < r * row_len,
{
    assert(q * row_len + j < (q + 1) * row_len) by (nonlinear_arith)
        requires
            0 <= j < row_len,
    ;
    assert((q + 1) * row_len <= r * row_len) by (nonlinear_arith)
        requires
            q + 1 <= r,
            0 <= row_len,
    ;
    assert(0 <= q * row_len) by (nonlinear_arith)
        requires
            0 <= q,
            0 <= row_len,
    ;
}

/// The start of the row after `r`.
proof fn lemma_next_row(r: int, len: int)
    ensures
        (r + 1) * len == r * len + len,
{
    assert((r + 1) * len == r * len + len) by (nonlinear_arith);
}

/// Reads an unsigned number of four bytes, the lowest first.
fn read_u32(bytes: &Vec<u8>, at: usize) -> (v: u32)
    requires
        at + 4 <= bytes.len(),
    ensures
        v == le_u32(bytes@, at as int),
{
    let b0: u32 = bytes[at] as u32;
    let b1: u32 = bytes[at + 1] as u32;
    let b2: u32 = bytes[at + 2] as u32;
    let b3: u32 = bytes[at + 3] as u32;
    b0 + 256 * b1 + 65536 * b2 + 16777216 * b3
}

/// Reads a signed number of four bytes, the lowest first.
fn read_i32(bytes: &Vec<u8>, at: usize) -> (v: i32)
    requires
        at + 4 <= bytes.len(),
    ensures
        v == le_i32(bytes@, at as int),
{
    let raw: u32 = read_u32(bytes, at);
    if raw < 0x8000_0000 {
        raw as i32
    } else {
        ((raw - 0x8000_0000) as i32) + i32::MIN
    }
}

impl BitmapHeader {
    /// Reads the header out of a locked bitmap description. A block too
    /// small for a header is a fault of the caller and is excluded.
    pub fn read(block: &LockedPtr) -> (header: BitmapHeader)
        requires
            block.wf(),
            block.contents().len() >= BITMAP_HEADER_SIZE,
        ensures
            header == header_of(block.contents()),
    {
        let bytes = block.as_bytes();
        let width: i32 = read_i32(bytes, 4);
        let height: i32 = read_i32(bytes, 8);
        let lo: u16 = bytes[14] as u16;
        let hi: u16 = bytes[15] as u16;
        let size_image: u32 = read_u32(bytes, 20);
        BitmapHeader { width, height, bit_count: lo + 256 * hi, size_image }
    }

    /// The number of rows, whatever the sign of the height.
    pub fn row_count(&self) -> (rows: u32)
        ensures
            rows == self.rows(),
    {
        if self.height < 0 {
            if self.height == i32::MIN {
                0x8000_0000u32
            } else {
                (-self.height) as u32
            }
        } else {
            self.height as u32
        }
    }

    /// The number of bytes that the buffer for the system's copy of
    /// the rows has: what the header declares.
    pub fn buffer_len(&self) -> (len: usize)
        ensures
            len == self.size_image,
    {
        self.size_image as usize
    }
}

/// Packs the rows of `raw`: of each of the first `rows` rows of
/// `stride` bytes the first `row_len` are kept. A row that `raw` does
/// not wholly hold gives zeros.
pub fn depad_rows(raw: &Vec<u8>, stride: u64, row_len: u64, rows: u32) -> (packed: Vec<u8>)
    requires
        row_len <= stride,
    ensures
        is_depadded(packed@, raw@, stride as int, row_len as int, rows as int),
{
    let size: usize = raw.len();
    let mut packed: Vec<u8> = Vec::new();
    let mut offset: usize = 0;
    let mut complete: bool = true;
    let mut r: u32 = 0;
    proof {
        assert(0 * (stride as int) == 0) by (nonlinear_arith);
        assert(0 * (row_len as int) == 0) by (nonlinear_arith);
    }
    while r < rows
        invariant
            r <= rows,
            size == raw@.len(),
            row_len <= stride,
            packed@.len() == r * row_len,
            complete ==> offset == r * stride && offset <= size,
            !complete ==> (r + 1) * stride > size,
            forall|q: int, j: int|
                0 <= q < r && 0 <= j < row_len ==> #[trigger] packed@[at(q, j, row_len as int)]
                    == padded_byte(raw@, stride as int, q, j),
        decreases rows - r,
    {
        let whole: bool = complete && stride <= (size - offset) as u64;
        proof {
            lemma_next_row(r as int, stride as int);
            lemma_next_row(r as int, row_len as int);
        }
        let ghost before = packed@;
        let mut j: u64 = 0;
        while j < row_len
            invariant
                j <= row_len,
                r < rows,
                size == raw@.len(),
                row_len <= stride,
                packed@.len() == r * row_len + j,
                before.len() == r * row_len,
                whole ==> offset == r * stride && offset + stride <= size,
                whole <==> (r + 1) * stride <= size,
                (r + 1) * stride == r * stride + stride,
                forall|k: int| 0 <= k < before.len() ==> packed@[k] == before[k],
                forall|c: int|
                    0 <= c < j ==> #[trigger] packed@[at(r as int, c, row_len as int)]
                        == padded_byte(raw@, stride as int, r as int, c),
            decreases row_len - j,
        {
            let byte: u8 = if whole {
                raw[offset + (j as usize)]
            } else {
                0u8
            };
            packed.push(byte);
            j = j + 1;
        }
        if whole {
            offset = offset + (stride as usize);
        }
        complete = whole;
        proof {
            assert forall|q: int, c: int| 0 <= q < r + 1 && 0 <= c < row_len implies #[trigger] packed@[at(
                q,
                c,
                row_len as int,
            )] == padded_byte(raw@, stride as int, q, c) by {
                if q < r {
                    lemma_at_bound(q, c, row_len as int, r as int);
                    assert(before[at(q, c, row_len as int)] == padded_byte(
                        raw@,
                        stride as int,
                        q,
                        c,
                    ));
                }
            }
            lemma_next_row(r + 1, stride as int);
        }
        r = r + 1;
    }
    packed
}

/// An image has three bytes per pixel exactly where it is empty or
/// its header says so.
proof fn lemma_rgb_layout(rows: int, width: int, bytes_per_pixel: int)
    requires
        0 <= rows,
        0 <= width,
    ensures
        rows * (width * bytes_per_pixel) == 3 * width * rows <==> (rows == 0 || width == 0
            || bytes_per_pixel == 3),
        rows > 0 && rows * (width * bytes_per_pixel) == 3 * width * rows ==> width
            * bytes_per_pixel == 3 * width,
{
    let lhs = rows * (width * bytes_per_pixel);
    let rhs = 3 * width * rows;
    if rows == 0 || width == 0 {
        assert(lhs == 0 && rhs == 0) by (nonlinear_arith)
            requires
                rows == 0 || width == 0,
                lhs == rows * (width * bytes_per_pixel),
                rhs == 3 * width * rows,
        ;
    } else if bytes_per_pixel == 3 {
        assert(lhs == rhs) by (nonlinear_arith)
            requires
                bytes_per_pixel == 3,
                lhs == rows * (width * bytes_per_pixel),
                rhs == 3 * width * rows,
        ;
    } else {
        assert(lhs != rhs) by (nonlinear_arith)
            requires
                rows > 0,
                width > 0,
                bytes_per_pixel != 3,
                lhs == rows * (width * bytes_per_pixel),
                rhs == 3 * width * rows,
        ;
    }
    if width == 0 {
        assert(width * bytes_per_pixel == 3 * width) by (nonlinear_arith)
            requires
                width == 0,
        ;
    }
}

/// Decodes a bitmap from its header and the system's copy of its rows.
///
/// Where the system copied no rows the answer is `ImageBits`. Where the
/// packed pixels do not make an image of three bytes per pixel it is
/// `InvalidImage`. Otherwise the padding of each row is dropped, and
/// the rows are put top down where the header stores them bottom up.
pub fn decode(header: &BitmapHeader, bits: CopiedBits) -> (image: Result<RgbImage>)
    ensures
        match image {
            Ok(img) => {
                &&& bits.scan_lines != 0
                &&& header.has_rgb_layout()
                &&& img.wf()
                &&& header.decodes_to(bits.raw@, img)
            },
            Err(e) => if bits.scan_lines == 0 {
                e == Error::ImageBits(bits.error)
            } else {
                !header.has_rgb_layout() && e == Error::InvalidImage
            },
        },
{
    if bits.scan_lines == 0 {
        return Err(Error::ImageBits(bits.error));
    }
    let should_flip: bool = header.height > 0;
    let rows: u32 = header.row_count();
    let bytes_per_pixel: u16 = header.bit_count / 8;
    if header.width < 0 {
        return Err(Error::InvalidImage);
    }
    let width: u32 = header.width as u32;
    proof {
        lemma_rgb_layout(rows as int, width as int, bytes_per_pixel as int);
    }
    if !(rows == 0 || width == 0 || bytes_per_pixel == 3) {
        return Err(Error::InvalidImage);
    }
    assert(header.bit_count * width <= 65535 * 0x7fff_ffff) by (nonlinear_arith)
        requires
            header.bit_count <= 65535,
            width <= 0x7fff_ffff,
    ;
    assert(width * bytes_per_pixel <= 0x7fff_ffff * 8191) by (nonlinear_arith)
        requires
            bytes_per_pixel <= 8191,
            width <= 0x7fff_ffff,
    ;
    assert(8 * (width * bytes_per_pixel) <= header.bit_count * width) by (nonlinear_arith)
        requires
            8 * bytes_per_pixel <= header.bit_count,
            0 <= width,
    ;
    let stride: u64 = ((header.bit_count as u64) * (width as u64) + 31) / 32 * 4;
    let row_len: u64 = (width as u64) * (bytes_per_pixel as u64);
    let packed = depad_rows(&bits.raw, stride, row_len, rows);
    assert(packed@.len() == 3 * width * rows);
    let flipped = if should_flip {
        flip_image(width, rows, packed)
    } else {
        check_image(width, rows, packed)
    };
    match flipped {
        Some(data) => {
            let img = RgbImage { width, height: rows, data };
            proof {
                if should_flip {
                    assert(row_len == 3 * width);
                    assert forall|r: int, j: int|
                        0 <= r < header.rows() && 0 <= j < header.row_len() implies #[trigger] img.data@[at(
                        r,
                        j,
                        header.row_len(),
                    )] == padded_byte(bits.raw@, header.row_stride(), header.source_row(r), j) by {
                        assert(packed@[at(rows - 1 - r, j, row_len as int)] == padded_byte(
                            bits.raw@,
                            stride as int,
                            rows - 1 - r,
                            j,
                        ));
                    }
                }
            }
            Ok(img)
        },
        None => Err(Error::InvalidImage),
    }
}

/// Decodes a bitmap from its locked description and the system's copy
/// of its rows: reads the header, and decodes under it.
///
/// The block is the one that holds the true header: the description
/// itself in the legacy layout, the separately locked header in the
/// newer one, whose first forty bytes are laid out alike.
pub fn get(bitmap_info: &LockedPtr, bits: CopiedBits) -> (image: Result<RgbImage>)
    requires
        bitmap_info.wf(),
        bitmap_info.contents().len() >= BITMAP_HEADER_SIZE,
    ensures
        match image {
            Ok(img) => {
                &&& bits.scan_lines != 0
                &&& header_of(bitmap_info.contents()).has_rgb_layout()
                &&& img.wf()
                &&& header_of(bitmap_info.contents()).decodes_to(bits.raw@, img)
            },
            Err(e) => if bits.scan_lines == 0 {
                e == Error::ImageBits(bits.error)
            } else {
                !header_of(bitmap_info.contents()).has_rgb_layout() && e == Error::InvalidImage
            },
        },
{
    let header = BitmapHeader::read(bitmap_info);
    decode(&header, bits)
}

/// Two headers that differ only in the sign of the height decode one
/// buffer to images that mirror each other top to bottom: row `r` of
/// the one is row `rows - 1 - r` of the other.
pub proof fn lemma_height_sign_mirrors(
    up: BitmapHeader,
    down: BitmapHeader,
    raw: Seq<u8>,
    a: RgbImage,
    b: RgbImage,
)
    requires
        up.height > 0,
        down.height == -up.height,
        down.width == up.width,
        down.bit_count == up.bit_count,
        up.decodes_to(raw, a),
        down.decodes_to(raw, b),
    ensures
        a.width == b.width,
        a.height == b.height,
        a.data@.len() == b.data@.len(),
        forall|r: int, j: int|
            0 <= r < up.rows() && 0 <= j < up.row_len() ==> #[trigger] a.data@[at(r, j, up.row_len())]
                == b.data@[at(up.rows() - 1 - r, j, up.row_len())],
{
    assert forall|r: int, j: int| 0 <= r < up.rows() && 0 <= j < up.row_len() implies #[trigger] a.data@[at(
        r,
        j,
        up.row_len(),
    )] == b.data@[at(up.rows() - 1 - r, j, up.row_len())] by {
        let mirror = up.rows() - 1 - r;
        assert(b.data@[at(mirror, j, down.row_len())] == padded_byte(
            raw,
            down.row_stride(),
            down.source_row(mirror),
            j,
        ));
    }
}

} // verus!
