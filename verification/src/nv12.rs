//! NV12 camera frames turned into RGBA pixels for the preview.

use vstd::prelude::*;

verus! {

/// A raw camera frame: a luma plane, one byte per pixel, then a chroma plane,
/// one U and one V byte for each two-by-two block of pixels.
pub struct Nv12Frame {
    pub data: Vec<u8>,
    pub width: u32,
    pub height: u32,
}

/// What the camera sends to the display.
pub enum CameraEvent {
    Frame { rgba: Vec<u8>, width: u32, height: u32 },
}

/// Division that rounds towards zero.
pub open spec fn trunc_div(a: int, b: int) -> int
    recommends
        b > 0,
{
    if a >= 0 {
        a / b
    } else {
        -((-a) / b)
    }
}

/// A colour value cut off at the ends of a byte.
pub open spec fn clamp_byte(x: int) -> u8 {
    if x < 0 {
        0
    } else if x > 255 {
        255
    } else {
        x as u8
    }
}

/// Red, green, blue and alpha of a pixel with luma `y` and chroma `u` and `v`.
pub open spec fn pixel(y: u8, u: u8, v: u8) -> Seq<u8> {
    let du = u - 128;
    let dv = v - 128;
    seq![
        clamp_byte(y + trunc_div(1_402 * dv, 1_000)),
        clamp_byte(y - trunc_div(344 * du, 1_000) - trunc_div(714 * dv, 1_000)),
        clamp_byte(y + trunc_div(1_772 * du, 1_000)),
        255u8,
    ]
}

/// Where the chroma pair of the pixel at `row` and `col` starts.
pub open spec fn chroma_at(w: int, h: int, row: int, col: int) -> int {
    w * h + (row / 2) * w + (col / 2) * 2
}

/// How many bytes a frame of `w` by `h` pixels needs at least: up to the V byte
/// of its last pixel.
pub open spec fn bytes_needed(w: int, h: int) -> int {
    if w == 0 || h == 0 {
        0
    } else {
        chroma_at(w, h, h - 1, w - 1) + 2
    }
}

/// Whether a frame of that many bytes can be converted: it holds all of its
/// pixels, and the converted frame can be allocated.
pub open spec fn convertible(len: int, w: int, h: int) -> bool {
    bytes_needed(w, h) <= len && w * h * 4 <= isize::MAX
}

/// The four bytes of the pixel at `row` and `col` of a frame.
pub open spec fn pixel_of(nv12: Seq<u8>, w: int, h: int, row: int, col: int) -> Seq<u8> {
    let c = chroma_at(w, h, row, col);
    pixel(nv12[row * w + col], nv12[c], nv12[c + 1])
}

/// The converted frame: four bytes for each pixel, row by row.
pub open spec fn rgba_of(nv12: Seq<u8>, w: int, h: int) -> Seq<u8> {
    Seq::new(
        (w * h * 4) as nat,
        |k: int| pixel_of(nv12, w, h, (k / 4) / w, (k / 4) % w)[k % 4],
    )
}

fn clamp_to_byte(x: i32) -> (r: u8)
    ensures
        r == clamp_byte(x as int),
{
    if x < 0 {
        0
    } else if x > 255 {
        255
    } else {
        x as u8
    }
}

fn div_1000(x: i32) -> (r: i32)
    ensures
        r == trunc_div(x as int, 1_000),
        x >= 0 ==> 0 <= r <= x,
        x < 0 ==> x <= r <= 0,
{
    x / 1_000
}

/// Whether a frame of `len` bytes, `width` by `height` pixels, can be converted.
pub fn frame_fits(len: usize, width: u32, height: u32) -> (r: bool)
    ensures
        r == convertible(len as int, width as int, height as int),
{
    let w = width as u128;
    let h = height as u128;
    proof {
        lemma_area(width as int, height as int);
    }
    let needed: u128 = if w == 0 || h == 0 {
        0
    } else {
        w * h + ((h - 1) / 2) * w + ((w - 1) / 2) * 2 + 2
    };
    needed <= len as u128 && w * h * 4 <= isize::MAX as u128
}

proof fn lemma_area(w: int, h: int)
    requires
        0 <= w <= u32::MAX,
        0 <= h <= u32::MAX,
    ensures
        0 <= w * h <= u32::MAX * u32::MAX,
        h > 0 ==> 0 <= ((h - 1) / 2) * w <= u32::MAX * u32::MAX,
{
    assert(0 <= w * h <= u32::MAX * u32::MAX) by (nonlinear_arith)
        requires
            0 <= w <= u32::MAX,
            0 <= h <= u32::MAX,
    ;
    if h > 0 {
        let k = (h - 1) / 2;
        assert(0 <= k * w <= u32::MAX * u32::MAX) by (nonlinear_arith)
            requires
                0 <= w <= u32::MAX,
                0 <= k <= u32::MAX,
        ;
    }
}

/// Rows and columns find their place: the pixel number splits back into both,
/// and what it reads lies within the bytes that the frame needs.
proof fn lemma_places(w: int, h: int, row: int, col: int)
    requires
        0 <= row < h,
        0 <= col < w,
    ensures
        0 <= row * w + col < w * h,
        (row * w + col) / w == row,
        (row * w + col) % w == col,
        0 <= row * w,
        0 <= (row / 2) * w,
        w * h <= chroma_at(w, h, row, col),
        chroma_at(w, h, row, col) + 2 <= bytes_needed(w, h),
{
    assert(0 <= row * w && row * w + col < w * h) by (nonlinear_arith)
        requires
            0 <= row < h,
            0 <= col < w,
    ;
    vstd::arithmetic::div_mod::lemma_fundamental_div_mod_converse(row * w + col, w, row, col);
    let a = row / 2;
    let b = (h - 1) / 2;
    assert(0 <= a * w <= b * w) by (nonlinear_arith)
        requires
            0 <= a <= b,
            0 < w,
    ;
}

/// Converts an NV12 frame to RGBA.
pub fn nv12_to_rgba(nv12: &[u8], width: u32, height: u32) -> (r: Vec<u8>)
    requires
        convertible(nv12@.len() as int, width as int, height as int),
    ensures
        r@ == rgba_of(nv12@, width as int, height as int),
{
    let w = width as usize;
    let h = height as usize;
    let mut rgba: Vec<u8> = Vec::new();
    proof {
        lemma_area(w as int, h as int);
        assert(rgba@ =~= Seq::empty());
        if w == 0 {
            assert(w * h == 0) by (nonlinear_arith)
                requires
                    w == 0,
            ;
        }
    }
    let mut row: usize = 0;
    while w > 0 && row < h
        invariant
            convertible(nv12@.len() as int, w as int, h as int),
            row <= h,
            w > 0 ==> rgba@ == rgba_of(nv12@, w as int, h as int).take(row * w * 4),
            w == 0 ==> rgba@.len() == 0,
        decreases h - row,
    {
        let mut col: usize = 0;
        while col < w
            invariant
                convertible(nv12@.len() as int, w as int, h as int),
                0 <= col <= w,
                0 <= row < h,
                rgba@ == rgba_of(nv12@, w as int, h as int).take((row * w + col) * 4),
            decreases w - col,
        {
            proof {
                lemma_places(w as int, h as int, row as int, col as int);
            }
            let len = nv12.len();
            assert(chroma_at(w as int, h as int, row as int, col as int) + 2 <= len);
            let i = row * w + col;
            let c = w * h + (row / 2) * w + (col / 2) * 2;
            let y = nv12[i] as i32;
            let u = nv12[c] as i32 - 128;
            let v = nv12[c + 1] as i32 - 128;
            let red = clamp_to_byte(y + div_1000(1_402 * v));
            let green = clamp_to_byte(y - div_1000(344 * u) - div_1000(714 * v));
            let blue = clamp_to_byte(y + div_1000(1_772 * u));
            rgba.push(red);
            rgba.push(green);
            rgba.push(blue);
            rgba.push(255);
            proof {
                let all = rgba_of(nv12@, w as int, h as int);
                let p = pixel_of(nv12@, w as int, h as int, row as int, col as int);
                assert(all.take(i * 4 + 4) =~= all.take(i * 4) + p);
                assert(rgba@ =~= all.take(i * 4) + p);
            }
            col = col + 1;
        }
        assert(row * w + w == (row + 1) * w) by (nonlinear_arith);
        row = row + 1;
    }
    proof {
        let all = rgba_of(nv12@, w as int, h as int);
        assert(h * w == w * h) by (nonlinear_arith);
        assert(all.take(all.len() as int) =~= all);
        assert(rgba@ =~= all);
    }
    rgba
}

/// Converts a camera frame for the display.
pub fn convert_frame(frame: &Nv12Frame) -> (r: CameraEvent)
    requires
        convertible(frame.data@.len() as int, frame.width as int, frame.height as int),
    ensures
        r matches CameraEvent::Frame { rgba, width, height } && rgba@ == rgba_of(
            frame.data@,
            frame.width as int,
            frame.height as int,
        ) && width == frame.width && height == frame.height,
{
    CameraEvent::Frame {
        rgba: nv12_to_rgba(frame.data.as_slice(), frame.width, frame.height),
        width: frame.width,
        height: frame.height,
    }
}

/// Every converted pixel is opaque.
pub proof fn alpha_is_opaque(nv12: Seq<u8>, w: int, h: int, i: int)
    requires
        0 <= w,
        0 <= h,
        0 <= i < w * h,
    ensures
        rgba_of(nv12, w, h)[i * 4 + 3] == 255,
{
}

/// A pixel without colour is grey: red, green and blue equal its luma.
pub proof fn neutral_chroma_is_grey(y: u8)
    ensures
        pixel(y, 128, 128) == seq![y, y, y, 255u8],
{
    assert(pixel(y, 128, 128) =~= seq![y, y, y, 255u8]);
}

/// The four pixels of a block take their colour from the same chroma pair.
pub proof fn block_shares_chroma(w: int, h: int, row: int, col: int)
    requires
        row % 2 == 0,
        col % 2 == 0,
    ensures
        chroma_at(w, h, row, col + 1) == chroma_at(w, h, row, col),
        chroma_at(w, h, row + 1, col) == chroma_at(w, h, row, col),
        chroma_at(w, h, row + 1, col + 1) == chroma_at(w, h, row, col),
{
    assert((row + 1) / 2 == row / 2);
}

/// Bytes behind those that a frame needs make no difference.
pub proof fn trailing_bytes_make_no_difference(nv12: Seq<u8>, extra: Seq<u8>, w: int, h: int)
    requires
        0 <= w,
        0 <= h,
        convertible(nv12.len() as int, w, h),
    ensures
        convertible((nv12 + extra).len() as int, w, h),
        rgba_of(nv12 + extra, w, h) == rgba_of(nv12, w, h),
{
    let a = rgba_of(nv12, w, h);
    let b = rgba_of(nv12 + extra, w, h);
    assert forall|k: int| 0 <= k < a.len() implies a[k] == b[k] by {
        let i = k / 4;
        if w == 0 {
            assert(w * h * 4 == 0) by (nonlinear_arith)
                requires
                    w == 0,
            ;
        }
        assert(i < w * h);
        assert(w * h == h * w) by (nonlinear_arith);
        vstd::arithmetic::div_mod::lemma_multiply_divide_lt(i, w, h);
        vstd::arithmetic::div_mod::lemma_div_pos_is_pos(i, w);
        lemma_places(w, h, i / w, i % w);
    }
    assert(a =~= b);
}

/// The pixel at a row and a column is made of its own luma and of the chroma of
/// the block that it lies in, and stands at its own place.
pub proof fn pixels_stand_at_their_places(nv12: Seq<u8>, w: int, h: int, row: int, col: int)
    requires
        0 <= row < h,
        0 <= col < w,
        convertible(nv12.len() as int, w, h),
    ensures
        ({
            let at = (row * w + col) * 4;
            let block = w * h + (row / 2) * w + 2 * (col / 2);
            &&& 0 <= at
            &&& at + 4 <= rgba_of(nv12, w, h).len()
            &&& rgba_of(nv12, w, h).len() == w * h * 4
            &&& rgba_of(nv12, w, h).subrange(at, at + 4) == pixel(
                nv12[row * w + col],
                nv12[block],
                nv12[block + 1],
            )
        }),
{
    lemma_places(w, h, row, col);
    let i = row * w + col;
    let p = pixel_of(nv12, w, h, row, col);
    assert((w * h) * 4 == w * h * 4);
    assert(rgba_of(nv12, w, h).subrange(i * 4, i * 4 + 4) =~= p);
}

/// Whether a byte is a value of a thousandth's scale, cut off at the ends, off by
/// less than so many thousandths.
pub open spec fn close_to(byte: u8, thousandths: int, off: int) -> bool {
    ||| -off < 1_000 * byte - thousandths < off
    ||| byte == 0 && thousandths < off
    ||| byte == 255 && thousandths > 255_000 - off
}

/// A pixel has the colours of full-range YCbCr: red by 1.402 of the V byte's
/// distance from the middle, green by 0.344 of the U byte's and 0.714 of the V
/// byte's the other way, blue by 1.772 of the U byte's, each off by less than
/// its terms are rounded.
pub proof fn pixels_have_their_colours(y: u8, u: u8, v: u8)
    ensures
        ({
            let p = pixel(y, u, v);
            &&& p.len() == 4
            &&& close_to(p[0], 1_000 * y + 1_402 * (v - 128), 1_000)
            &&& close_to(p[1], 1_000 * y - 344 * (u - 128) - 714 * (v - 128), 2_000)
            &&& close_to(p[2], 1_000 * y + 1_772 * (u - 128), 1_000)
            &&& p[3] == 255
        }),
{
}

/// A converted frame is what the display is handed, with the frame's own size,
/// every pixel at its place.
pub proof fn frames_are_converted_whole(frame: Nv12Frame, r: CameraEvent, row: int, col: int)
    requires
        convertible(frame.data@.len() as int, frame.width as int, frame.height as int),
        call_ensures(convert_frame, (&frame,), r),
        0 <= row < frame.height,
        0 <= col < frame.width,
    ensures
        ({
            let CameraEvent::Frame { rgba, width, height } = r;
            let w = frame.width as int;
            let h = frame.height as int;
            let at = (row * w + col) * 4;
            let block = w * h + (row / 2) * w + 2 * (col / 2);
            &&& width == frame.width
            &&& height == frame.height
            &&& rgba@.len() == w * h * 4
            &&& rgba@.subrange(at, at + 4) == pixel(
                frame.data@[row * w + col],
                frame.data@[block],
                frame.data@[block + 1],
            )
        }),
{
    pixels_stand_at_their_places(
        frame.data@,
        frame.width as int,
        frame.height as int,
        row,
        col,
    );
}

/// A frame with an even number of rows and columns needs a byte for each pixel
/// and two for each block of four.
pub proof fn even_frames_need_three_halves(w: int, h: int)
    requires
        0 < w,
        0 < h,
        w % 2 == 0,
        h % 2 == 0,
    ensures
        2 * bytes_needed(w, h) == 3 * (w * h),
{
    let k = h / 2;
    assert((h - 1) / 2 == k - 1);
    assert((w - 1) / 2 * 2 == w - 2);
    assert((k - 1) * w == k * w - w) by (nonlinear_arith);
    assert(w * h == 2 * (k * w)) by (nonlinear_arith)
        requires
            h == 2 * k,
    ;
}

} // verus!
