//! Acceptance of raw video from the source: only tightly packed RGBA
//! frames go on to the exchanges.

use crate::frame::Frame;
use crate::frame::FrameView;
use vstd::prelude::*;

verus! {

/// FourCC pixel layouts a source may deliver.
#[derive(Clone, Copy, Debug, PartialEq, Eq, Structural)]
pub enum PixelFormat {
    UYVY,
    UYVA,
    P216,
    PA16,
    YV12,
    I420,
    NV12,
    BGRA,
    BGRX,
    RGBA,
    RGBX,
}

/// What the source reports about a buffer's layout: the bytes per row of an
/// uncompressed image, or the total size of a compressed one.
#[derive(Clone, Copy, Debug, PartialEq, Eq, Structural)]
pub enum LineStrideOrSize {
    LineStrideBytes(i32),
    DataSizeBytes(i32),
}

/// A video buffer as the source delivered it, before any check.
pub struct RawVideo<'a> {
    pub width: i32,
    pub height: i32,
    pub pixel_format: PixelFormat,
    pub line_stride_or_size: LineStrideOrSize,
    pub data: &'a [u8],
    pub timecode: i64,
}

/// A video buffer that passed [`validate`].
pub struct ValidatedFrame<'a> {
    pub width: i32,
    pub height: i32,
    pub data: &'a [u8],
    pub timecode: i64,
}

/// Why a raw buffer was turned away.
#[derive(Clone, Copy, Debug, PartialEq, Eq, Structural)]
pub enum Rejection {
    /// The source gave a data size where a line stride was expected.
    DataSizeInsteadOfStride,
    /// The pixel format is neither RGBA nor RGBX.
    UnexpectedFormat,
    /// The line stride is not `width * 4`: rows are padded.
    StrideMismatch,
    /// Width or height is negative.
    NegativeDimension,
    /// The buffer is shorter than half the uncompressed size.
    TooSmall,
}

/// Whether four bytes per pixel in red, green, blue, alpha order can be
/// read from the format.
pub open spec fn rgba_compatible(format: PixelFormat) -> bool {
    format == PixelFormat::RGBA || format == PixelFormat::RGBX
}

/// Bytes of an uncompressed `width` by `height` RGBA image.
pub open spec fn nominal_size(width: int, height: int) -> int {
    width * height * 4
}

/// The first reason, in the order of the checks, to turn a buffer of `len`
/// bytes away; `None` when it is accepted.
pub open spec fn rejection_of(
    width: int,
    height: int,
    format: PixelFormat,
    layout: LineStrideOrSize,
    len: int,
) -> Option<Rejection> {
    match layout {
        LineStrideOrSize::DataSizeBytes(_) => Some(Rejection::DataSizeInsteadOfStride),
        LineStrideOrSize::LineStrideBytes(stride) => if !rgba_compatible(format) {
            Some(Rejection::UnexpectedFormat)
        } else if stride != width * 4 {
            Some(Rejection::StrideMismatch)
        } else if width < 0 || height < 0 {
            Some(Rejection::NegativeDimension)
        } else if len < nominal_size(width, height) / 2 {
            Some(Rejection::TooSmall)
        } else {
            None
        },
    }
}

/// Whether a buffer of `len` bytes can be cut to exactly one uncompressed
/// image: RGBA or RGBX, a stride of `width * 4`, non-negative dimensions
/// and at least the nominal size.
pub open spec fn convertible(
    width: int,
    height: int,
    format: PixelFormat,
    layout: LineStrideOrSize,
    len: int,
) -> bool {
    &&& rgba_compatible(format)
    &&& layout matches LineStrideOrSize::LineStrideBytes(stride)
    &&& stride == width * 4
    &&& 0 <= width
    &&& 0 <= height
    &&& nominal_size(width, height) <= len
}

/// Whether the format is RGBA or RGBX.
pub fn is_rgba_compatible(format: PixelFormat) -> (yes: bool)
    ensures
        yes == rgba_compatible(format),
{
    match format {
        PixelFormat::RGBA | PixelFormat::RGBX => true,
        _ => false,
    }
}

/// `width * height * 4` for non-negative 32-bit dimensions.
fn nominal_bytes(width: i32, height: i32) -> (n: u64)
    requires
        0 <= width,
        0 <= height,
    ensures
        n == nominal_size(width as int, height as int),
{
    assert((width as int) * (height as int) <= 0x7FFF_FFFF * 0x7FFF_FFFF) by (nonlinear_arith)
        requires
            0 <= width <= 0x7FFF_FFFF,
            0 <= height <= 0x7FFF_FFFF,
    ;
    assert(0 <= (width as int) * (height as int)) by (nonlinear_arith)
        requires
            0 <= width,
            0 <= height,
    ;
    (width as u64) * (height as u64) * 4
}

/// Checks a raw buffer in the order pixel layout report, pixel format,
/// stride, dimensions, size, and hands it on unchanged if every check
/// passes.
pub fn validate<'a>(raw: &RawVideo<'a>) -> (checked: Result<ValidatedFrame<'a>, Rejection>)
    ensures
        checked matches Err(why) ==> rejection_of(
            raw.width as int,
            raw.height as int,
            raw.pixel_format,
            raw.line_stride_or_size,
            raw.data@.len() as int,
        ) == Some(why),
        checked matches Ok(frame) ==> rejection_of(
            raw.width as int,
            raw.height as int,
            raw.pixel_format,
            raw.line_stride_or_size,
            raw.data@.len() as int,
        ) is None && frame.width == raw.width && frame.height == raw.height && frame.data@
            == raw.data@ && frame.timecode == raw.timecode,
{
    let stride = match raw.line_stride_or_size {
        LineStrideOrSize::LineStrideBytes(stride) => stride,
        LineStrideOrSize::DataSizeBytes(_) => {
            return Err(Rejection::DataSizeInsteadOfStride);
        },
    };
    if !is_rgba_compatible(raw.pixel_format) {
        return Err(Rejection::UnexpectedFormat);
    }
    if stride as i64 != raw.width as i64 * 4 {
        return Err(Rejection::StrideMismatch);
    }
    if raw.width < 0 || raw.height < 0 {
        return Err(Rejection::NegativeDimension);
    }
    let nominal = nominal_bytes(raw.width, raw.height);
    if (raw.data.len() as u64) < nominal / 2 {
        return Err(Rejection::TooSmall);
    }
    Ok(
        ValidatedFrame {
            width: raw.width,
            height: raw.height,
            data: raw.data,
            timecode: raw.timecode,
        },
    )
}

/// A fresh buffer holding the first `n` bytes of `data`.
fn copy_prefix(data: &[u8], n: usize) -> (out: Vec<u8>)
    requires
        n <= data@.len(),
    ensures
        out@ == data@.take(n as int),
{
    let mut out: Vec<u8> = Vec::with_capacity(n);
    let mut i: usize = 0;
    while i < n
        invariant
            i <= n <= data@.len(),
            out@ == data@.take(i as int),
        decreases n - i,
    {
        out.push(data[i]);
        assert(out@ =~= data@.take(i + 1));
        i += 1;
    }
    out
}

/// Copies a validated buffer into an owned frame. Succeeds exactly when
/// the dimensions are non-negative and the buffer holds `width * height * 4`
/// bytes, neither more nor fewer.
pub fn to_frame(validated: &ValidatedFrame<'_>) -> (made: Option<Frame>)
    ensures
        made is Some <==> 0 <= validated.width && 0 <= validated.height && validated.data@.len()
            == nominal_size(validated.width as int, validated.height as int),
        made matches Some(f) ==> f@ == (FrameView {
            width: validated.width as nat,
            height: validated.height as nat,
            pixels: validated.data@,
            timecode: validated.timecode as int,
        }),
{
    if validated.width < 0 || validated.height < 0 {
        return None;
    }
    let nominal = nominal_bytes(validated.width, validated.height);
    let len = validated.data.len();
    if len as u64 != nominal {
        return None;
    }
    let pixels = copy_prefix(validated.data, len);
    assert(pixels@ =~= validated.data@);
    assert(nominal_size(validated.width as int, validated.height as int) == (validated.width as nat)
        * (validated.height as nat) * 4);
    Frame::new(validated.width as u32, validated.height as u32, pixels, validated.timecode)
}

/// Strict acceptance for sources that deliver clock-corrected frames: the
/// format must be RGBA or RGBX, the stride `width * 4`, and the buffer at
/// least the nominal size. The frame made holds the first `width * height
/// * 4` bytes.
pub fn validate_and_convert(raw: &RawVideo<'_>) -> (made: Option<Frame>)
    ensures
        made is Some <==> convertible(
            raw.width as int,
            raw.height as int,
            raw.pixel_format,
            raw.line_stride_or_size,
            raw.data@.len() as int,
        ),
        made matches Some(f) ==> f@ == (FrameView {
            width: raw.width as nat,
            height: raw.height as nat,
            pixels: raw.data@.take(nominal_size(raw.width as int, raw.height as int)),
            timecode: raw.timecode as int,
        }),
{
    if !is_rgba_compatible(raw.pixel_format) {
        return None;
    }
    let stride = match raw.line_stride_or_size {
        LineStrideOrSize::LineStrideBytes(stride) => stride,
        LineStrideOrSize::DataSizeBytes(_) => {
            return None;
        },
    };
    if stride as i64 != raw.width as i64 * 4 {
        return None;
    }
    if raw.width < 0 || raw.height < 0 {
        return None;
    }
    let nominal = nominal_bytes(raw.width, raw.height);
    let len = raw.data.len();
    if (len as u64) < nominal {
        return None;
    }
    let pixels = copy_prefix(raw.data, nominal as usize);
    assert(nominal_size(raw.width as int, raw.height as int) == (raw.width as nat) * (
    raw.height as nat) * 4);
    Frame::new(raw.width as u32, raw.height as u32, pixels, raw.timecode)
}

} // verus!
