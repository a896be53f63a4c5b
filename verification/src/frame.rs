//! Raw video frames: the 10-byte header and the BGRx-to-RGBA half-size payload,
//! and the geometry a captured buffer is read with.
use vstd::prelude::*;

verus! {

/// Length of the frame header in bytes.
pub const FRAME_HEADER_LEN: usize = 10;

/// Header format byte of a frame whose payload is raw RGBA (not JPEG).
pub const FORMAT_RAW_RGBA: u8 = 1;

/// The two bytes of `v`, most significant first.
pub open spec fn be_u16(v: u16) -> Seq<u8> {
    seq![(v / 256) as u8, (v % 256) as u8]
}

/// The four bytes of `v`, most significant first.
pub open spec fn be_u32(v: u32) -> Seq<u8> {
    seq![
        (v / 0x100_0000) as u8,
        ((v / 0x1_0000) % 256) as u8,
        ((v / 256) % 256) as u8,
        (v % 256) as u8,
    ]
}

/// The frame header: the source width and height, each truncated to 16 bits and
/// written big-endian, the format byte, a zero byte, then the timestamp in
/// milliseconds, big-endian.
pub open spec fn frame_header(w: usize, h: usize, ts_ms: u32) -> Seq<u8> {
    be_u16((w % 0x1_0000) as u16) + be_u16((h % 0x1_0000) as u16) + seq![FORMAT_RAW_RGBA, 0u8]
        + be_u32(ts_ms)
}

/// One output pixel: the BGRx source pixel at byte offset `i` as R, G, B and an
/// opaque alpha.
pub open spec fn rgba_pixel(raw: Seq<u8>, i: int) -> Seq<u8> {
    seq![raw[i + 2], raw[i + 1], raw[i], 255u8]
}

/// The pixels of the source row that starts at byte `row_off`, from column `col`
/// on: one for each pair of columns below `w` (the first column of the pair is
/// sampled, an odd last column is dropped), ending early at the first sampled
/// pixel whose blue, green and red bytes are not all inside `raw`.
pub open spec fn row_pixels(raw: Seq<u8>, row_off: int, w: int, col: int) -> Seq<u8>
    decreases w + 1 - col,
{
    if col + 1 >= w || row_off + col * 4 + 2 >= raw.len() {
        Seq::empty()
    } else {
        rgba_pixel(raw, row_off + col * 4) + row_pixels(raw, row_off, w, col + 2)
    }
}

/// The payload from source row `row` on: one row for each pair of rows below
/// `h` (the first row of the pair is sampled, an odd last row is dropped), each
/// sampled with [`row_pixels`] from its first column.
pub open spec fn frame_pixels(raw: Seq<u8>, w: int, h: int, stride: int, row: int) -> Seq<u8>
    decreases h + 1 - row,
{
    if row + 1 >= h {
        Seq::empty()
    } else {
        row_pixels(raw, row * stride, w, 0) + frame_pixels(raw, w, h, stride, row + 2)
    }
}

/// The frame sent for a `w` × `h` source with rows `stride` bytes apart, or
/// `None` where the half-size image would be empty.
pub open spec fn spec_frame(raw: Seq<u8>, w: usize, h: usize, stride: usize, ts_ms: u32) -> Option<
    Seq<u8>,
> {
    if w / 2 == 0 || h / 2 == 0 {
        None
    } else {
        Some(frame_header(w, h, ts_ms) + frame_pixels(raw, w as int, h as int, stride as int, 0))
    }
}

/// The sizes that encoding can handle without overflow: the reserved buffer fits
/// the address space, and so does the offset of the last sampled row.
pub open spec fn frame_fits(raw_len: nat, w: usize, h: usize, stride: usize) -> bool {
    &&& raw_len <= isize::MAX
    &&& (w / 2 > 0 && h / 2 > 0) ==> {
        &&& FRAME_HEADER_LEN + (w / 2) * (h / 2) * 4 <= isize::MAX
        &&& ((h / 2 - 1) * 2) * stride + 2 <= usize::MAX
    }
}

/// Whether [`encode_frame`] can handle a buffer of `raw_len` bytes for a
/// `w` × `h` source with rows `stride` bytes apart.
pub fn frame_encodable(raw_len: usize, w: usize, h: usize, stride: usize) -> (ok: bool)
    ensures
        ok == frame_fits(raw_len as nat, w, h, stride),
{
    if raw_len > isize::MAX as usize {
        return false;
    }
    let out_w = w / 2;
    let out_h = h / 2;
    if out_w == 0 || out_h == 0 {
        return true;
    }
    let pixels = match out_w.checked_mul(out_h) {
        Some(p) => p,
        None => return false,
    };
    let bytes = match pixels.checked_mul(4) {
        Some(b) => b,
        None => return false,
    };
    if bytes > isize::MAX as usize - FRAME_HEADER_LEN {
        return false;
    }
    let last_row = (out_h - 1) * 2;
    let offset = match last_row.checked_mul(stride) {
        Some(o) => o,
        None => return false,
    };
    offset <= usize::MAX - 2
}

/// Encodes a captured BGRx image as a frame: a header carrying the source
/// dimensions (so that the viewer can scale pointer input) and the image at
/// half size, (w/2) × (h/2) pixels, as RGBA, 4 bytes per pixel, uncompressed.
pub fn encode_frame(raw: &[u8], w: usize, h: usize, stride: usize, ts_ms: u32) -> (frame: Option<
    Vec<u8>,
>)
    requires
        frame_fits(raw@.len(), w, h, stride),
    ensures
        match frame {
            Some(f) => spec_frame(raw@, w, h, stride, ts_ms) == Some(f@),
            None => spec_frame(raw@, w, h, stride, ts_ms) is None,
        },
{
    let out_w = w / 2;
    let out_h = h / 2;
    if out_w == 0 || out_h == 0 {
        return None;
    }
    proof {
        assert(0 <= out_w * out_h * 4 && out_h <= out_w * out_h && out_w <= out_w * out_h)
            by (nonlinear_arith)
            requires
                out_w >= 1,
                out_h >= 1,
        ;
    }
    let pixel_bytes = out_w * out_h * 4;
    let mut frame: Vec<u8> = Vec::with_capacity(FRAME_HEADER_LEN + pixel_bytes);
    let w16 = (w % 0x1_0000) as u16;
    let h16 = (h % 0x1_0000) as u16;
    frame.push((w16 / 256) as u8);
    frame.push((w16 % 256) as u8);
    frame.push((h16 / 256) as u8);
    frame.push((h16 % 256) as u8);
    frame.push(FORMAT_RAW_RGBA);
    frame.push(0u8);
    frame.push((ts_ms / 0x100_0000) as u8);
    frame.push(((ts_ms / 0x1_0000) % 256) as u8);
    frame.push(((ts_ms / 256) % 256) as u8);
    frame.push((ts_ms % 256) as u8);
    let ghost header = frame@;
    proof {
        assert(header =~= frame_header(w, h, ts_ms));
    }
    let ghost last_row: int = (h / 2 - 1) * 2;
    let mut row: usize = 0;
    while row + 1 < h
        invariant
            frame_fits(raw@.len(), w, h, stride),
            out_w == w / 2,
            out_h == h / 2,
            out_w > 0,
            out_h > 0,
            w <= isize::MAX,
            h <= isize::MAX,
            last_row == (h / 2 - 1) * 2,
            row % 2 == 0,
            row <= h + 1,
            header + frame_pixels(raw@, w as int, h as int, stride as int, 0) == frame@
                + frame_pixels(raw@, w as int, h as int, stride as int, row as int),
        decreases h + 2 - row,
    {
        proof {
            assert(row <= last_row);
            assert(row * stride <= last_row * stride) by (nonlinear_arith)
                requires
                    row <= last_row,
                    stride >= 0,
            ;
        }
        let row_off = row * stride;
        let ghost start = frame@;
        let mut col: usize = 0;
        while col + 1 < w
            invariant
                frame_fits(raw@.len(), w, h, stride),
                out_w == w / 2,
                out_w > 0,
                w <= isize::MAX,
                row_off + 2 <= usize::MAX,
                col % 2 == 0,
                col <= w + 1,
                col == 0 || row_off + (col - 2) * 4 + 2 < raw@.len(),
                start + row_pixels(raw@, row_off as int, w as int, 0) == frame@ + row_pixels(
                    raw@,
                    row_off as int,
                    w as int,
                    col as int,
                ),
            ensures
                start + row_pixels(raw@, row_off as int, w as int, 0) == frame@,
            decreases w + 2 - col,
        {
            let i = row_off + col * 4;
            if i + 2 >= raw.len() {
                break;
            }
            frame.push(raw[i + 2]);
            frame.push(raw[i + 1]);
            frame.push(raw[i]);
            frame.push(255u8);
            proof {
                assert(frame@ =~= (frame@.subrange(0, frame@.len() - 4)) + rgba_pixel(
                    raw@,
                    i as int,
                ));
            }
            col = col + 2;
        }
        proof {
            assert(header + frame_pixels(raw@, w as int, h as int, stride as int, 0) =~= frame@
                + frame_pixels(raw@, w as int, h as int, stride as int, row + 2));
        }
        row = row + 2;
    }
    Some(frame)
}


/// Every sampled pixel of the source lies inside `raw`: the last sampled column of
/// the last sampled row ends before the end of the buffer.
pub open spec fn covers_samples(raw_len: nat, w: int, h: int, stride: int) -> bool {
    ((h / 2 - 1) * 2) * stride + ((w / 2 - 1) * 2) * 4 + 2 < raw_len
}

proof fn lemma_row_len(raw: Seq<u8>, off: int, w: int, col: int)
    requires
        w / 2 > 0,
        0 <= col,
        col % 2 == 0,
        0 <= off,
        off + ((w / 2 - 1) * 2) * 4 + 2 < raw.len(),
    ensures
        row_pixels(raw, off, w, col).len() == if col + 1 >= w {
            0
        } else {
            (w / 2 - col / 2) * 4
        },
    decreases w + 1 - col,
{
    if col + 1 < w {
        assert(col <= (w / 2 - 1) * 2);
        lemma_row_len(raw, off, w, col + 2);
    }
}

#[verifier::spinoff_prover]
proof fn lemma_frame_len(raw: Seq<u8>, w: int, h: int, stride: int, row: int)
    requires
        w / 2 > 0,
        h / 2 > 0,
        stride >= 0,
        0 <= row,
        row % 2 == 0,
        covers_samples(raw.len(), w, h, stride),
    ensures
        frame_pixels(raw, w, h, stride, row).len() == if row + 1 >= h {
            0
        } else {
            (h / 2 - row / 2) * ((w / 2) * 4)
        },
    decreases h + 1 - row,
{
    if row + 1 < h {
        let last = (h / 2 - 1) * 2;
        assert(row <= last);
        assert(row * stride <= last * stride) by (nonlinear_arith)
            requires
                row <= last,
                stride >= 0,
        ;
        assert(0 <= row * stride) by (nonlinear_arith)
            requires
                row >= 0,
                stride >= 0,
        ;
        lemma_row_len(raw, row * stride, w, 0);
        lemma_frame_len(raw, w, h, stride, row + 2);
        let m = (w / 2) * 4;
        let k = h / 2 - (row + 2) / 2;
        let rest = frame_pixels(raw, w, h, stride, row + 2);
        assert(frame_pixels(raw, w, h, stride, row) == row_pixels(raw, row * stride, w, 0) + rest);
        assert(row_pixels(raw, row * stride, w, 0).len() == m);
        if row + 3 < h {
            assert(rest.len() == k * m);
            assert(h / 2 - row / 2 == k + 1);
            assert((k + 1) * m == k * m + m) by (nonlinear_arith);
            assert((h / 2 - row / 2) * m == (k + 1) * m);
        } else {
            assert(rest.len() == 0);
            assert(h / 2 - row / 2 == 1);
            assert((h / 2 - row / 2) * m == m) by (nonlinear_arith)
                requires
                    h / 2 - row / 2 == 1,
            ;
        }
        assert(frame_pixels(raw, w, h, stride, row).len() == (h / 2 - row / 2) * m);
    }
}

/// The size of a frame: when every sampled pixel lies inside the buffer, the
/// payload is the (w/2) × (h/2) image at 4 bytes per pixel.
pub proof fn lemma_frame_size(raw: Seq<u8>, w: usize, h: usize, stride: usize, ts_ms: u32)
    requires
        w / 2 > 0,
        h / 2 > 0,
        covers_samples(raw.len(), w as int, h as int, stride as int),
    ensures
        spec_frame(raw, w, h, stride, ts_ms) is Some,
        spec_frame(raw, w, h, stride, ts_ms).unwrap().len() == FRAME_HEADER_LEN + (w / 2) * (h
            / 2) * 4,
{
    lemma_frame_len(raw, w as int, h as int, stride as int, 0);
    assert((h / 2) * ((w / 2) * 4) == (w / 2) * (h / 2) * 4) by (nonlinear_arith);
}

proof fn lemma_row_index(raw: Seq<u8>, off: int, w: int, col: int, t: int, k: int)
    requires
        w / 2 > 0,
        0 <= col,
        col % 2 == 0,
        0 <= off,
        off + ((w / 2 - 1) * 2) * 4 + 2 < raw.len(),
        0 <= t,
        col + 2 * t + 1 < w,
        0 <= k < 4,
    ensures
        row_pixels(raw, off, w, col)[4 * t + k] == rgba_pixel(raw, off + (col + 2 * t) * 4)[k],
    decreases t,
{
    assert(col <= (w / 2 - 1) * 2);
    let head = rgba_pixel(raw, off + col * 4);
    let rest = row_pixels(raw, off, w, col + 2);
    assert(row_pixels(raw, off, w, col) == head + rest);
    if t > 0 {
        lemma_row_index(raw, off, w, col + 2, t - 1, k);
        lemma_row_len(raw, off, w, col + 2);
        assert(rest.len() >= 4 * t);
        assert((head + rest)[4 * t + k] == rest[4 * (t - 1) + k]);
    }
}

proof fn lemma_frame_index(raw: Seq<u8>, w: int, h: int, stride: int, row: int, r: int, j: int)
    requires
        w / 2 > 0,
        h / 2 > 0,
        stride >= 0,
        0 <= row,
        row % 2 == 0,
        covers_samples(raw.len(), w, h, stride),
        0 <= r,
        row + 2 * r + 1 < h,
        0 <= j < (w / 2) * 4,
    ensures
        frame_pixels(raw, w, h, stride, row)[r * ((w / 2) * 4) + j] == row_pixels(
            raw,
            (row + 2 * r) * stride,
            w,
            0,
        )[j],
    decreases r,
{
    let m = (w / 2) * 4;
    let last = (h / 2 - 1) * 2;
    assert(row <= last);
    assert(row * stride <= last * stride && 0 <= row * stride) by (nonlinear_arith)
        requires
            0 <= row <= last,
            stride >= 0,
    ;
    lemma_row_len(raw, row * stride, w, 0);
    let head = row_pixels(raw, row * stride, w, 0);
    let rest = frame_pixels(raw, w, h, stride, row + 2);
    assert(frame_pixels(raw, w, h, stride, row) == head + rest);
    assert(head.len() == m);
    if r > 0 {
        lemma_frame_index(raw, w, h, stride, row + 2, r - 1, j);
        lemma_frame_len(raw, w, h, stride, row + 2);
        assert(row + 2 + 1 < h);
        let k = h / 2 - (row + 2) / 2;
        assert(k >= r);
        assert(rest.len() == k * m);
        assert((r - 1) * m + j < k * m && r * m + j == m + ((r - 1) * m + j)) by (nonlinear_arith)
            requires
                k >= r,
                r >= 1,
                0 <= j < m,
        ;
        assert((head + rest)[r * m + j] == rest[(r - 1) * m + j]);
        assert(row + 2 + 2 * (r - 1) == row + 2 * r);
    } else {
        assert(r * m + j == j) by (nonlinear_arith)
            requires
                r == 0,
        ;
        assert((head + rest)[j] == head[j]);
        assert(row + 2 * r == row);
    }
}

/// What a frame holds: when every sampled pixel lies inside the buffer, the
/// output pixel in row `r` and column `c` of the half-size image is the source
/// pixel in row `2r` and column `2c`, top row first, its blue, green and red
/// bytes written as red, green and blue, then an opaque alpha byte.
pub proof fn lemma_frame_pixels(
    raw: Seq<u8>,
    w: usize,
    h: usize,
    stride: usize,
    ts_ms: u32,
    r: int,
    c: int,
    k: int,
)
    requires
        covers_samples(raw.len(), w as int, h as int, stride as int),
        0 <= r < h / 2,
        0 <= c < w / 2,
        0 <= k < 3,
    ensures
        spec_frame(raw, w, h, stride, ts_ms) is Some,
        spec_frame(raw, w, h, stride, ts_ms).unwrap()[FRAME_HEADER_LEN + (r * (w / 2) + c) * 4
            + k] == raw[2 * r * stride + 2 * c * 4 + (2 - k)],
        spec_frame(raw, w, h, stride, ts_ms).unwrap()[FRAME_HEADER_LEN + (r * (w / 2) + c) * 4
            + 3] == 255,
{
    let wi = w as int;
    let hi = h as int;
    let si = stride as int;
    let m = (wi / 2) * 4;
    lemma_frame_len(raw, wi, hi, si, 0);
    let header = frame_header(w, h, ts_ms);
    let pixels = frame_pixels(raw, wi, hi, si, 0);
    assert(header.len() == FRAME_HEADER_LEN);
    assert(pixels.len() == (hi / 2) * m);
    let off = (2 * r) * si;
    let last = (hi / 2 - 1) * 2;
    assert(off <= last * si && 0 <= off) by (nonlinear_arith)
        requires
            off == (2 * r) * si,
            0 <= r,
            2 * r <= last,
            si >= 0,
    ;
    assert((r * (wi / 2) + c) * 4 == r * m + 4 * c && r * m + 4 * c + 3 < (hi / 2) * m)
        by (nonlinear_arith)
        requires
            m == (wi / 2) * 4,
            0 <= r < hi / 2,
            0 <= c < wi / 2,
    ;
    lemma_frame_index(raw, wi, hi, si, 0, r, 4 * c + k);
    lemma_frame_index(raw, wi, hi, si, 0, r, 4 * c + 3);
    lemma_row_index(raw, off, wi, 0, c, k);
    lemma_row_index(raw, off, wi, 0, c, 3);
    assert(0 + 2 * r == 2 * r);
    assert(off + (0 + 2 * c) * 4 == 2 * r * stride + 2 * c * 4);
    let f = header + pixels;
    assert(f[FRAME_HEADER_LEN + (r * m + 4 * c + k)] == pixels[r * m + (4 * c + k)]);
    assert(f[FRAME_HEADER_LEN + (r * m + 4 * c + 3)] == pixels[r * m + (4 * c + 3)]);
}


/// The bytes of a frame header in order carry the source width and height
/// modulo 2^16, most significant byte first, the raw-RGBA format byte and the
/// timestamp, most significant byte first.
pub proof fn lemma_header_fields(w: usize, h: usize, ts_ms: u32)
    ensures
        frame_header(w, h, ts_ms).len() == FRAME_HEADER_LEN,
        frame_header(w, h, ts_ms)[0] * 256 + frame_header(w, h, ts_ms)[1] == w % 0x1_0000,
        frame_header(w, h, ts_ms)[2] * 256 + frame_header(w, h, ts_ms)[3] == h % 0x1_0000,
        frame_header(w, h, ts_ms)[4] == FORMAT_RAW_RGBA,
        frame_header(w, h, ts_ms)[5] == 0,
        ((frame_header(w, h, ts_ms)[6] * 256 + frame_header(w, h, ts_ms)[7]) * 256
            + frame_header(w, h, ts_ms)[8]) * 256 + frame_header(w, h, ts_ms)[9] == ts_ms,
{
}

/// The size of the captured video: zero until the stream has told it.
pub struct CaptureGeometry {
    pub width: u32,
    pub height: u32,
}

/// How a captured buffer is read: its width, height and row stride in pixels and
/// bytes, and the number of bytes an image of that size takes.
#[derive(PartialEq, Eq, Structural, Clone, Copy, Debug)]
pub struct FrameLayout {
    pub width: usize,
    pub height: usize,
    pub stride: usize,
    pub needed: usize,
}

/// Where the pixels of a buffer are read from.
#[derive(PartialEq, Eq, Structural, Clone, Copy, Debug)]
pub enum FrameSource {
    /// The buffer's memory is mapped and large enough: encode it directly.
    Mapped,
    /// The buffer is not mapped but has a file descriptor: map `needed` bytes of it.
    MapDescriptor,
    /// Nothing to encode for this buffer.
    Skip,
}

/// The absolute value of a stride, as an unsigned number.
pub open spec fn stride_magnitude(stride: i32) -> nat {
    if stride < 0 {
        (-stride) as nat
    } else {
        stride as nat
    }
}

/// The layout of a buffer with the given row stride: the width is the video
/// width, or else a quarter of the stride; the height is the video height; an
/// unknown height, or an unknown width with a zero stride, gives `None`.
pub open spec fn spec_layout(width: u32, height: u32, stride: i32) -> Option<FrameLayout> {
    let s = stride_magnitude(stride);
    let w: int = if width > 0 {
        width as int
    } else {
        (s / 4) as int
    };
    if width == 0 && s == 0 {
        None
    } else if height == 0 {
        None
    } else {
        Some(
            FrameLayout {
                width: w as usize,
                height: height as usize,
                stride: s as usize,
                needed: (w * height * 4) as usize,
            },
        )
    }
}

/// A layout's byte count fits in `usize`.
pub open spec fn layout_fits(width: u32, height: u32, stride: i32) -> bool {
    let s = stride_magnitude(stride);
    let w: int = if width > 0 {
        width as int
    } else {
        (s / 4) as int
    };
    w * height * 4 <= usize::MAX
}

/// How a buffer is read: a layout exists exactly when the video height is known
/// and the width is known or can be taken from a non-zero stride; it reads
/// rows of the stride's magnitude, whatever its sign, with the video's height,
/// the video's width when known and otherwise the whole pixels a row holds, and
/// it needs 4 bytes for each pixel of that width and height.
pub proof fn lemma_layout_fields(width: u32, height: u32, stride: i32)
    requires
        layout_fits(width, height, stride),
    ensures
        spec_layout(width, height, stride) is Some <==> (height > 0 && (width > 0 || stride
            != 0)),
        stride != i32::MIN ==> spec_layout(width, height, stride) == spec_layout(
            width,
            height,
            -stride as i32,
        ),
        spec_layout(width, height, stride) matches Some(l) ==> {
            &&& l.height == height
            &&& l.stride == (if stride < 0 {
                -stride
            } else {
                stride as int
            })
            &&& width > 0 ==> l.width == width
            &&& width == 0 ==> l.width * 4 <= l.stride < l.width * 4 + 4
            &&& l.needed == l.width * l.height * 4
        },
{
    let s = stride_magnitude(stride);
    let w: int = if width > 0 {
        width as int
    } else {
        (s / 4) as int
    };
    assert(0 <= w * height * 4) by (nonlinear_arith)
        requires
            w >= 0,
            height >= 0,
    ;
    if stride != i32::MIN {
        assert(stride_magnitude(-stride as i32) == s);
    }
}

/// Whether [`CaptureGeometry::frame_layout`] can compute the byte count of a
/// buffer with this stride.
pub fn layout_computable(width: u32, height: u32, stride: i32) -> (ok: bool)
    ensures
        ok == layout_fits(width, height, stride),
{
    let s: usize = if stride < 0 {
        (-(stride as i64)) as usize
    } else {
        stride as usize
    };
    let w: usize = if width > 0 {
        width as usize
    } else {
        s / 4
    };
    match w.checked_mul(height as usize) {
        Some(p) => p.checked_mul(4).is_some(),
        None => false,
    }
}

impl CaptureGeometry {
    /// A stream whose video size is not known yet.
    pub fn new() -> (g: Self)
        ensures
            g.width == 0,
            g.height == 0,
    {
        CaptureGeometry { width: 0, height: 0 }
    }

    /// Records the video size that the stream's format announced.
    pub fn set_video_size(&mut self, width: u32, height: u32)
        ensures
            final(self).width == width,
            final(self).height == height,
    {
        self.width = width;
        self.height = height;
    }

    /// Works out how to read a buffer whose rows are `stride` bytes apart (the
    /// sign of the stride is ignored).
    pub fn frame_layout(&self, stride: i32) -> (layout: Option<FrameLayout>)
        requires
            layout_fits(self.width, self.height, stride),
        ensures
            layout == spec_layout(self.width, self.height, stride),
    {
        let s: usize = if stride < 0 {
            (-(stride as i64)) as usize
        } else {
            stride as usize
        };
        let w: usize = if self.width > 0 {
            self.width as usize
        } else if s > 0 {
            s / 4
        } else {
            return None;
        };
        let h: usize = if self.height > 0 {
            self.height as usize
        } else {
            return None;
        };
        proof {
            assert(0 <= w * h * 4) by (nonlinear_arith)
                requires
                    w >= 0,
                    h >= 0,
            ;
        }
        let needed = w * h * 4;
        Some(FrameLayout { width: w, height: h, stride: s, needed })
    }
}

/// Chooses where a buffer's pixels come from: mapped memory of `mapped_len`
/// bytes is used when it holds the whole image and skipped otherwise; without
/// mapped memory, a valid file descriptor is mapped; otherwise nothing is read.
pub fn frame_source(mapped_len: Option<usize>, fd: i32, needed: usize) -> (source: FrameSource)
    ensures
        source == match mapped_len {
            Some(len) => if len >= needed {
                FrameSource::Mapped
            } else {
                FrameSource::Skip
            },
            None => if fd < 0 {
                FrameSource::Skip
            } else {
                FrameSource::MapDescriptor
            },
        },
{
    match mapped_len {
        Some(len) => if len >= needed {
            FrameSource::Mapped
        } else {
            FrameSource::Skip
        },
        None => if fd < 0 {
            FrameSource::Skip
        } else {
            FrameSource::MapDescriptor
        },
    }
}


/// The byte length of a `width` × `height` image of 4-byte pixels.
pub fn image_len(width: u16, height: u16) -> (len: usize)
    requires
        width * height * 4 <= usize::MAX,
    ensures
        len == width * height * 4,
{
    proof {
        assert(0 <= width * height) by (nonlinear_arith);
    }
    (width as usize) * (height as usize) * 4
}

/// The byte offset of the centre pixel of a `width` × `height` image of 4-byte
/// pixels: column `width / 2` of row `height / 2`.
pub fn center_pixel_offset(width: u16, height: u16) -> (offset: usize)
    requires
        ((height / 2) * width + width / 2) * 4 <= usize::MAX,
    ensures
        offset == ((height / 2) * width + width / 2) * 4,
{
    proof {
        assert(0 <= (height / 2) * width) by (nonlinear_arith);
    }
    ((height as usize) / 2 * (width as usize) + (width as usize) / 2) * 4
}

} // verus!
