//! Pixel transforms on packed RGBA buffers: luma conversion and a 5x5
//! Gaussian blur. Both are pure and return a fresh buffer.

use crate::frame::Frame;
use crate::frame::FrameView;
use vstd::prelude::*;

verus! {

/// Fixed-point luma of one pixel: the weights 77, 150 and 29 sum to 256 and
/// approximate 0.299, 0.587 and 0.114.
pub open spec fn luma(r: u8, g: u8, b: u8) -> int {
    (77 * r + 150 * g + 29 * b) / 256
}

/// Byte `i` of the grayscale image of `src`. In each complete group of four
/// bytes the first three become the group's luma and the fourth (alpha)
/// stays; bytes after the last complete group stay.
pub open spec fn gray_byte(src: Seq<u8>, i: int) -> u8 {
    let start = i - i % 4;
    if i % 4 == 3 || start + 4 > src.len() {
        src[i]
    } else {
        luma(src[start], src[start + 1], src[start + 2]) as u8
    }
}

/// The grayscale image of `src`.
pub open spec fn grayscale_of(src: Seq<u8>) -> Seq<u8> {
    Seq::new(src.len(), |i: int| gray_byte(src, i))
}

/// Luma of one pixel.
pub fn luma_of(r: u8, g: u8, b: u8) -> (y: u8)
    ensures
        y == luma(r, g, b),
{
    let weighted: u32 = 77 * (r as u32) + 150 * (g as u32) + 29 * (b as u32);
    assert(weighted >> 8 == weighted / 256) by (bit_vector);
    let shifted: u32 = weighted >> 8;
    shifted as u8
}

/// Appending the converted bytes of the group that starts at `4 * group`
/// extends a converted prefix by that group.
proof fn lemma_gray_group(src: Seq<u8>, done: Seq<u8>, group: int, y: u8, alpha: u8)
    requires
        0 <= group,
        4 * group + 4 <= src.len(),
        done == grayscale_of(src).take(4 * group),
        y == luma(src[4 * group], src[4 * group + 1], src[4 * group + 2]),
        alpha == src[4 * group + 3],
    ensures
        done.push(y).push(y).push(y).push(alpha) == grayscale_of(src).take(4 * group + 4),
{
    let start = 4 * group;
    assert(start % 4 == 0);
    assert((start + 1) % 4 == 1);
    assert((start + 2) % 4 == 2);
    assert((start + 3) % 4 == 3);
    assert(gray_byte(src, start) == y);
    assert(gray_byte(src, start + 1) == y);
    assert(gray_byte(src, start + 2) == y);
    assert(gray_byte(src, start + 3) == alpha);
    let want = grayscale_of(src).take(start + 4);
    let got = done.push(y).push(y).push(y).push(alpha);
    assert(got.len() == want.len());
    assert forall|k: int| 0 <= k < got.len() implies got[k] == want[k] by {
        if k < start {
            assert(got[k] == done[k]);
        }
    }
    assert(got =~= want);
}

/// Appending a byte that lies after the last complete group extends a
/// converted prefix by that byte.
proof fn lemma_gray_tail(src: Seq<u8>, done: Seq<u8>, i: int)
    requires
        0 <= i < src.len(),
        4 * (src.len() / 4) <= i,
        done == grayscale_of(src).take(i),
    ensures
        done.push(src[i]) == grayscale_of(src).take(i + 1),
{
    assert(i - i % 4 + 4 > src.len());
    assert(gray_byte(src, i) == src[i]);
    assert(done.push(src[i]) =~= grayscale_of(src).take(i + 1));
}

/// Grayscale conversion of a packed RGBA buffer.
pub fn grayscale_bytes(src: &[u8]) -> (out: Vec<u8>)
    ensures
        out@ == grayscale_of(src@),
{
    let n = src.len();
    let groups = n / 4;
    let mut out: Vec<u8> = Vec::with_capacity(n);
    let mut group: usize = 0;
    while group < groups
        invariant
            group <= groups,
            groups == n / 4,
            n == src@.len(),
            out@ == grayscale_of(src@).take(4 * group),
        decreases groups - group,
    {
        let start = 4 * group;
        let y = luma_of(src[start], src[start + 1], src[start + 2]);
        let alpha = src[start + 3];
        proof {
            lemma_gray_group(src@, out@, group as int, y, alpha);
        }
        out.push(y);
        out.push(y);
        out.push(y);
        out.push(alpha);
        group += 1;
    }
    let mut i: usize = 4 * groups;
    while i < n
        invariant
            4 * groups <= i <= n,
            groups == n / 4,
            n == src@.len(),
            out@ == grayscale_of(src@).take(i as int),
        decreases n - i,
    {
        proof {
            lemma_gray_tail(src@, out@, i as int);
        }
        out.push(src[i]);
        i += 1;
    }
    assert(out@ =~= grayscale_of(src@));
    out
}

/// Grayscale conversion of a frame. Dimensions and timecode carry over.
pub fn grayscale(frame: &Frame) -> (out: Frame)
    ensures
        out@ == (FrameView { pixels: grayscale_of(frame@.pixels), ..frame@ }),
{
    let pixels = grayscale_bytes(frame.pixels().as_slice());
    match Frame::new(frame.width(), frame.height(), pixels, frame.timecode()) {
        Some(out) => out,
        None => {
            assert(false);
            frame.duplicate()
        },
    }
}

/// Row `ky` of the 5x5 blur kernel. The twenty-five weights sum to 256.
pub open spec fn kernel_row(ky: int) -> Seq<int> {
    if ky == 0 || ky == 4 {
        seq![1, 4, 6, 4, 1]
    } else if ky == 1 || ky == 3 {
        seq![4, 16, 24, 16, 4]
    } else {
        seq![6, 24, 36, 24, 6]
    }
}

/// Weight of the kernel at row `ky`, column `kx`.
pub open spec fn kernel_weight(ky: int, kx: int) -> int {
    kernel_row(ky)[kx]
}

/// Sum of the weights of kernel row `ky`.
pub open spec fn kernel_row_total(ky: int) -> int {
    kernel_weight(ky, 0) + kernel_weight(ky, 1) + kernel_weight(ky, 2) + kernel_weight(ky, 3)
        + kernel_weight(ky, 4)
}

/// A coordinate brought into `[0, size - 1]`: the border pixel is repeated
/// outwards.
pub open spec fn clamp_coord(v: int, size: int) -> int {
    if v < 0 {
        0
    } else if v > size - 1 {
        size - 1
    } else {
        v
    }
}

/// Channel `ch` of the pixel at column `x`, row `y`, after clamping the
/// coordinates to the image.
pub open spec fn sample(pixels: Seq<u8>, width: int, height: int, x: int, y: int, ch: int) -> int {
    pixels[(clamp_coord(y, height) * width + clamp_coord(x, width)) * 4 + ch] as int
}

/// One term of the convolution around `(x, y)`.
pub open spec fn tap(
    pixels: Seq<u8>,
    width: int,
    height: int,
    x: int,
    y: int,
    ch: int,
    ky: int,
    kx: int,
) -> int {
    kernel_weight(ky, kx) * sample(pixels, width, height, x + kx - 2, y + ky - 2, ch)
}

/// The five terms of kernel row `ky`.
pub open spec fn row_sum(
    pixels: Seq<u8>,
    width: int,
    height: int,
    x: int,
    y: int,
    ch: int,
    ky: int,
) -> int {
    tap(pixels, width, height, x, y, ch, ky, 0) + tap(pixels, width, height, x, y, ch, ky, 1) + tap(
        pixels,
        width,
        height,
        x,
        y,
        ch,
        ky,
        2,
    ) + tap(pixels, width, height, x, y, ch, ky, 3) + tap(pixels, width, height, x, y, ch, ky, 4)
}

/// All twenty-five terms of the convolution around `(x, y)`.
pub open spec fn weighted_sum(
    pixels: Seq<u8>,
    width: int,
    height: int,
    x: int,
    y: int,
    ch: int,
) -> int {
    row_sum(pixels, width, height, x, y, ch, 0) + row_sum(pixels, width, height, x, y, ch, 1)
        + row_sum(pixels, width, height, x, y, ch, 2) + row_sum(pixels, width, height, x, y, ch, 3)
        + row_sum(pixels, width, height, x, y, ch, 4)
}

/// Byte `i` of the blurred image: the weighted sum around its pixel, divided
/// by 256 and truncated. Alpha is blurred like the colour channels.
pub open spec fn blurred_byte(pixels: Seq<u8>, width: int, height: int, i: int) -> u8 {
    let p = i / 4;
    (weighted_sum(pixels, width, height, p % width, p / width, i % 4) / 256) as u8
}

/// The blurred image of a `width` by `height` buffer.
pub open spec fn blur_of(pixels: Seq<u8>, width: int, height: int) -> Seq<u8> {
    Seq::new(pixels.len(), |i: int| blurred_byte(pixels, width, height, i))
}

/// The pixel at a clamped coordinate lies inside the buffer.
proof fn lemma_pixel_in_bounds(width: int, height: int, px: int, py: int)
    requires
        0 <= px < width,
        0 <= py < height,
    ensures
        0 <= py * width + px < width * height,
        0 <= py * width,
        (py * width + px) * 4 + 4 <= width * height * 4,
{
    assert(py * width + width <= height * width) by (nonlinear_arith)
        requires
            0 <= py < height,
            0 <= width,
    ;
    assert(0 <= py * width) by (nonlinear_arith)
        requires
            0 <= py,
            0 <= width,
    ;
    assert(height * width == width * height) by (nonlinear_arith);
}

fn weight(ky: usize, kx: usize) -> (w: u32)
    requires
        ky < 5,
        kx < 5,
    ensures
        w == kernel_weight(ky as int, kx as int),
        1 <= w <= 36,
{
    let across: u32 = if kx == 0 || kx == 4 {
        1
    } else if kx == 1 || kx == 3 {
        4
    } else {
        6
    };
    let down: u32 = if ky == 0 || ky == 4 {
        1
    } else if ky == 1 || ky == 3 {
        4
    } else {
        6
    };
    down * across
}

fn clamp_index(v: usize, k: usize, size: usize) -> (c: usize)
    requires
        v < size,
        k < 5,
    ensures
        c == clamp_coord(v + k - 2, size as int),
        c < size,
{
    if k < 2 {
        let back = 2 - k;
        if v < back {
            0
        } else {
            v - back
        }
    } else {
        let ahead = k - 2;
        if size - 1 - v < ahead {
            size - 1
        } else {
            v + ahead
        }
    }
}

/// The four channel terms of one kernel position.
fn tap_at(src: &[u8], width: usize, height: usize, x: usize, y: usize, ky: usize, kx: usize) -> (t:
    (u32, u32, u32, u32))
    requires
        src@.len() == width * height * 4,
        x < width,
        y < height,
        ky < 5,
        kx < 5,
    ensures
        t.0 == tap(src@, width as int, height as int, x as int, y as int, 0, ky as int, kx as int),
        t.1 == tap(src@, width as int, height as int, x as int, y as int, 1, ky as int, kx as int),
        t.2 == tap(src@, width as int, height as int, x as int, y as int, 2, ky as int, kx as int),
        t.3 == tap(src@, width as int, height as int, x as int, y as int, 3, ky as int, kx as int),
        t.0 <= kernel_weight(ky as int, kx as int) * 255,
        t.1 <= kernel_weight(ky as int, kx as int) * 255,
        t.2 <= kernel_weight(ky as int, kx as int) * 255,
        t.3 <= kernel_weight(ky as int, kx as int) * 255,
{
    let len = src.len();
    let py = clamp_index(y, ky, height);
    let px = clamp_index(x, kx, width);
    proof {
        lemma_pixel_in_bounds(width as int, height as int, px as int, py as int);
        assert(width * height * 4 == len);
    }
    let at = (py * width + px) * 4;
    let w = weight(ky, kx);
    let r = src[at] as u32;
    let g = src[at + 1] as u32;
    let b = src[at + 2] as u32;
    let a = src[at + 3] as u32;
    assert(w * r <= w * 255 && w * g <= w * 255 && w * b <= w * 255 && w * a <= w * 255)
        by (nonlinear_arith)
        requires
            0 <= w <= 36,
            0 <= r <= 255,
            0 <= g <= 255,
            0 <= b <= 255,
            0 <= a <= 255,
    ;
    (w * r, w * g, w * b, w * a)
}

/// The four channel sums of one kernel row.
fn row_taps(src: &[u8], width: usize, height: usize, x: usize, y: usize, ky: usize) -> (s: (
    u32,
    u32,
    u32,
    u32,
))
    requires
        src@.len() == width * height * 4,
        x < width,
        y < height,
        ky < 5,
    ensures
        s.0 == row_sum(src@, width as int, height as int, x as int, y as int, 0, ky as int),
        s.1 == row_sum(src@, width as int, height as int, x as int, y as int, 1, ky as int),
        s.2 == row_sum(src@, width as int, height as int, x as int, y as int, 2, ky as int),
        s.3 == row_sum(src@, width as int, height as int, x as int, y as int, 3, ky as int),
        s.0 <= kernel_row_total(ky as int) * 255,
        s.1 <= kernel_row_total(ky as int) * 255,
        s.2 <= kernel_row_total(ky as int) * 255,
        s.3 <= kernel_row_total(ky as int) * 255,
{
    let t0 = tap_at(src, width, height, x, y, ky, 0);
    let t1 = tap_at(src, width, height, x, y, ky, 1);
    let t2 = tap_at(src, width, height, x, y, ky, 2);
    let t3 = tap_at(src, width, height, x, y, ky, 3);
    let t4 = tap_at(src, width, height, x, y, ky, 4);
    (
        t0.0 + t1.0 + t2.0 + t3.0 + t4.0,
        t0.1 + t1.1 + t2.1 + t3.1 + t4.1,
        t0.2 + t1.2 + t2.2 + t3.2 + t4.2,
        t0.3 + t1.3 + t2.3 + t3.3 + t4.3,
    )
}

/// The four blurred bytes of pixel number `p`, counted row by row.
fn blur_pixel(src: &[u8], width: usize, height: usize, p: usize) -> (px: (u8, u8, u8, u8))
    requires
        src@.len() == width * height * 4,
        p < width * height,
    ensures
        px.0 == blurred_byte(src@, width as int, height as int, 4 * p),
        px.1 == blurred_byte(src@, width as int, height as int, 4 * p + 1),
        px.2 == blurred_byte(src@, width as int, height as int, 4 * p + 2),
        px.3 == blurred_byte(src@, width as int, height as int, 4 * p + 3),
{
    assert(width > 0) by (nonlinear_arith)
        requires
            p < width * height,
            0 <= p,
    ;
    let x = p % width;
    let y = p / width;
    assert(y < height) by (nonlinear_arith)
        requires
            p < width * height,
            y == p / width,
            width > 0,
    ;
    let r0 = row_taps(src, width, height, x, y, 0);
    let r1 = row_taps(src, width, height, x, y, 1);
    let r2 = row_taps(src, width, height, x, y, 2);
    let r3 = row_taps(src, width, height, x, y, 3);
    let r4 = row_taps(src, width, height, x, y, 4);
    assert(kernel_row_total(0) == 16 && kernel_row_total(1) == 64 && kernel_row_total(2) == 96
        && kernel_row_total(3) == 64 && kernel_row_total(4) == 16);
    let red: u32 = r0.0 + r1.0 + r2.0 + r3.0 + r4.0;
    let green: u32 = r0.1 + r1.1 + r2.1 + r3.1 + r4.1;
    let blue: u32 = r0.2 + r1.2 + r2.2 + r3.2 + r4.2;
    let alpha: u32 = r0.3 + r1.3 + r2.3 + r3.3 + r4.3;
    assert((4 * p) / 4 == p && (4 * p + 1) / 4 == p && (4 * p + 2) / 4 == p && (4 * p + 3) / 4
        == p);
    ((red / 256) as u8, (green / 256) as u8, (blue / 256) as u8, (alpha / 256) as u8)
}

/// Appending the blurred bytes of pixel `p` extends a blurred prefix by
/// that pixel.
proof fn lemma_blur_group(
    src: Seq<u8>,
    width: int,
    height: int,
    done: Seq<u8>,
    p: int,
    px: (u8, u8, u8, u8),
)
    requires
        0 <= p,
        4 * p + 4 <= src.len(),
        done == blur_of(src, width, height).take(4 * p),
        px.0 == blurred_byte(src, width, height, 4 * p),
        px.1 == blurred_byte(src, width, height, 4 * p + 1),
        px.2 == blurred_byte(src, width, height, 4 * p + 2),
        px.3 == blurred_byte(src, width, height, 4 * p + 3),
    ensures
        done.push(px.0).push(px.1).push(px.2).push(px.3) == blur_of(src, width, height).take(
            4 * p + 4,
        ),
{
    let want = blur_of(src, width, height).take(4 * p + 4);
    let got = done.push(px.0).push(px.1).push(px.2).push(px.3);
    assert(got.len() == want.len());
    assert forall|k: int| 0 <= k < got.len() implies got[k] == want[k] by {
        if k < 4 * p {
            assert(got[k] == done[k]);
        }
    }
    assert(got =~= want);
}

/// 5x5 Gaussian blur of a packed RGBA buffer of `width` by `height` pixels.
pub fn blur_bytes(src: &[u8], width: usize, height: usize) -> (out: Vec<u8>)
    requires
        src@.len() == width * height * 4,
    ensures
        out@ == blur_of(src@, width as int, height as int),
{
    let count = src.len() / 4;
    let mut out: Vec<u8> = Vec::with_capacity(src.len());
    let mut p: usize = 0;
    while p < count
        invariant
            p <= count,
            count == width * height,
            src@.len() == width * height * 4,
            out@ == blur_of(src@, width as int, height as int).take(4 * p),
        decreases count - p,
    {
        let px = blur_pixel(src, width, height, p);
        proof {
            lemma_blur_group(src@, width as int, height as int, out@, p as int, px);
        }
        out.push(px.0);
        out.push(px.1);
        out.push(px.2);
        out.push(px.3);
        p += 1;
    }
    assert(out@ =~= blur_of(src@, width as int, height as int));
    out
}

/// 5x5 Gaussian blur of a frame. Dimensions and timecode carry over.
pub fn gaussian_blur(frame: &Frame) -> (out: Frame)
    ensures
        out@ == (FrameView {
            pixels: blur_of(frame@.pixels, frame@.width as int, frame@.height as int),
            ..frame@
        }),
{
    let width = frame.width();
    let height = frame.height();
    let src = frame.pixels();
    let len = src.len();
    assert(width as usize * height as usize * 4 == len) by (nonlinear_arith)
        requires
            len == (width as nat) * (height as nat) * 4,
            width as usize == width,
            height as usize == height,
    ;
    let pixels = blur_bytes(src.as_slice(), width as usize, height as usize);
    match Frame::new(width, height, pixels, frame.timecode()) {
        Some(out) => out,
        None => {
            assert(false);
            frame.duplicate()
        },
    }
}

/// Converting to grayscale twice gives the same image as converting once:
/// a pixel whose three colour bytes are equal is its own luma.
pub proof fn lemma_grayscale_idempotent(src: Seq<u8>)
    ensures
        grayscale_of(grayscale_of(src)) == grayscale_of(src),
{
    let once = grayscale_of(src);
    let twice = grayscale_of(once);
    assert forall|i: int| 0 <= i < once.len() implies twice[i] == once[i] by {
        let start = i - i % 4;
        if i % 4 != 3 && start + 4 <= src.len() {
            let y = luma(src[start], src[start + 1], src[start + 2]);
            assert(0 <= y <= 255);
            assert(start % 4 == 0);
            assert((start + 1) % 4 == 1);
            assert((start + 2) % 4 == 2);
            assert(start - start % 4 == start);
            assert((start + 1) - (start + 1) % 4 == start);
            assert((start + 2) - (start + 2) % 4 == start);
            assert(once[start] == y as u8);
            assert(once[start + 1] == y as u8);
            assert(once[start + 2] == y as u8);
            assert(luma(y as u8, y as u8, y as u8) == y);
        }
    }
    assert(twice =~= once);
}

/// Every pixel of the image equals its first pixel.
pub open spec fn uniform(pixels: Seq<u8>) -> bool {
    forall|i: int| 0 <= i < pixels.len() ==> pixels[i] == #[trigger] pixels[i % 4]
}

/// In a uniform image every sample of a channel is that channel of the
/// first pixel, wherever the clamped coordinates land.
proof fn lemma_sample_uniform(pixels: Seq<u8>, width: int, height: int, x: int, y: int, ch: int)
    requires
        0 < width,
        0 < height,
        pixels.len() == width * height * 4,
        uniform(pixels),
        0 <= ch < 4,
    ensures
        sample(pixels, width, height, x, y, ch) == pixels[ch],
{
    let cx = clamp_coord(x, width);
    let cy = clamp_coord(y, height);
    lemma_pixel_in_bounds(width, height, cx, cy);
    let at = (cy * width + cx) * 4 + ch;
    assert(at % 4 == ch);
    assert(pixels[at] == pixels[at % 4]);
}

/// Blurring a uniform image gives the image back: the kernel weights sum to
/// the divisor.
pub proof fn lemma_blur_uniform(pixels: Seq<u8>, width: int, height: int)
    requires
        0 <= width,
        0 <= height,
        pixels.len() == width * height * 4,
        uniform(pixels),
    ensures
        blur_of(pixels, width, height) == pixels,
{
    let blurred = blur_of(pixels, width, height);
    assert forall|i: int| 0 <= i < pixels.len() implies blurred[i] == pixels[i] by {
        let ch = i % 4;
        let p = i / 4;
        assert(0 < width && 0 < height) by (nonlinear_arith)
            requires
                0 <= width,
                0 <= height,
                0 < width * height * 4,
        ;
        let x = p % width;
        let y = p / width;
        let c = pixels[ch] as int;
        assert(pixels[i] == pixels[i % 4]);
        assert forall|ky: int, kx: int| 0 <= ky < 5 && 0 <= kx < 5 implies #[trigger] tap(
            pixels,
            width,
            height,
            x,
            y,
            ch,
            ky,
            kx,
        ) == kernel_weight(ky, kx) * c by {
            lemma_sample_uniform(pixels, width, height, x + kx - 2, y + ky - 2, ch);
        }
        lemma_row_uniform(pixels, width, height, x, y, ch, 0, c);
        lemma_row_uniform(pixels, width, height, x, y, ch, 1, c);
        lemma_row_uniform(pixels, width, height, x, y, ch, 2, c);
        lemma_row_uniform(pixels, width, height, x, y, ch, 3, c);
        lemma_row_uniform(pixels, width, height, x, y, ch, 4, c);
        assert(weighted_sum(pixels, width, height, x, y, ch) == 256 * c);
    }
    assert(blurred =~= pixels);
}

/// A kernel row whose five samples all equal `c` sums to the row's total
/// weight times `c`.
proof fn lemma_row_uniform(
    pixels: Seq<u8>,
    width: int,
    height: int,
    x: int,
    y: int,
    ch: int,
    ky: int,
    c: int,
)
    requires
        0 <= ky < 5,
        forall|kx: int|
            0 <= kx < 5 ==> #[trigger] tap(pixels, width, height, x, y, ch, ky, kx)
                == kernel_weight(ky, kx) * c,
    ensures
        row_sum(pixels, width, height, x, y, ch, ky) == kernel_row_total(ky) * c,
        kernel_row_total(0) == 16,
        kernel_row_total(1) == 64,
        kernel_row_total(2) == 96,
        kernel_row_total(3) == 64,
        kernel_row_total(4) == 16,
{
    assert(tap(pixels, width, height, x, y, ch, ky, 0) == kernel_weight(ky, 0) * c);
    assert(tap(pixels, width, height, x, y, ch, ky, 1) == kernel_weight(ky, 1) * c);
    assert(tap(pixels, width, height, x, y, ch, ky, 2) == kernel_weight(ky, 2) * c);
    assert(tap(pixels, width, height, x, y, ch, ky, 3) == kernel_weight(ky, 3) * c);
    assert(tap(pixels, width, height, x, y, ch, ky, 4) == kernel_weight(ky, 4) * c);
    let w0 = kernel_weight(ky, 0);
    let w1 = kernel_weight(ky, 1);
    let w2 = kernel_weight(ky, 2);
    let w3 = kernel_weight(ky, 3);
    let w4 = kernel_weight(ky, 4);
    assert(w0 * c + w1 * c + w2 * c + w3 * c + w4 * c == (w0 + w1 + w2 + w3 + w4) * c)
        by (nonlinear_arith);
}

} // verus!
