use rust_ndi_viewer::frame::Frame;
use rust_ndi_viewer::intake::is_rgba_compatible;
use rust_ndi_viewer::intake::to_frame;
use rust_ndi_viewer::intake::validate;
use rust_ndi_viewer::intake::validate_and_convert;
use rust_ndi_viewer::intake::LineStrideOrSize;
use rust_ndi_viewer::intake::PixelFormat;
use rust_ndi_viewer::intake::RawVideo;
use rust_ndi_viewer::intake::Rejection;
use rust_ndi_viewer::intake::ValidatedFrame;
use rust_ndi_viewer::source::discovery_addresses;
use rust_ndi_viewer::source::select_source;

fn raw<'a>(width: i32, height: i32, stride: i32, data: &'a [u8]) -> RawVideo<'a> {
    RawVideo {
        width,
        height,
        pixel_format: PixelFormat::RGBA,
        line_stride_or_size: LineStrideOrSize::LineStrideBytes(stride),
        data,
        timecode: 77,
    }
}

fn rejection(video: &RawVideo<'_>) -> Option<Rejection> {
    validate(video).err()
}

#[test]
fn frame_new_needs_exact_length() {
    assert!(Frame::new(2, 2, vec![0; 16], 0).is_some());
    assert!(Frame::new(2, 2, vec![0; 15], 0).is_none());
    assert!(Frame::new(2, 2, vec![0; 17], 0).is_none());
    assert!(Frame::new(0, 7, Vec::new(), 0).is_some());
    assert!(Frame::new(0, 7, vec![0; 4], 0).is_none());
}

#[test]
fn frame_getters_return_the_parts() {
    let frame = Frame::new(2, 1, vec![1, 2, 3, 4, 5, 6, 7, 8], -9).unwrap();
    assert_eq!(frame.width(), 2);
    assert_eq!(frame.height(), 1);
    assert_eq!(frame.timecode(), -9);
    assert_eq!(frame.pixels(), &vec![1, 2, 3, 4, 5, 6, 7, 8]);
    let copy = frame.duplicate();
    assert_eq!(copy.pixels(), frame.pixels());
    assert_eq!(copy.timecode(), -9);
}

#[test]
fn frame_with_pixels_replaces_bytes_of_same_length() {
    let frame = Frame::new(1, 2, vec![0; 8], 3).unwrap();
    let replaced = frame.with_pixels(vec![9; 8]).unwrap();
    assert_eq!(replaced.pixels(), &vec![9; 8]);
    assert_eq!(replaced.width(), 1);
    assert_eq!(replaced.height(), 2);
    assert_eq!(replaced.timecode(), 3);
    assert!(frame.with_pixels(vec![9; 7]).is_none());
    assert!(frame.with_pixels(vec![9; 12]).is_none());
}

#[test]
fn validate_accepts_packed_rgba() {
    let data = vec![5u8; 24];
    let video = raw(3, 2, 12, &data);
    let checked = validate(&video).ok().unwrap();
    assert_eq!(checked.width, 3);
    assert_eq!(checked.height, 2);
    assert_eq!(checked.timecode, 77);
    assert_eq!(checked.data, &data[..]);
}

#[test]
fn validate_accepts_rgbx() {
    let data = vec![5u8; 24];
    let mut video = raw(3, 2, 12, &data);
    video.pixel_format = PixelFormat::RGBX;
    assert!(validate(&video).is_ok());
}

#[test]
fn validate_rejects_data_size_layout() {
    let data = vec![5u8; 24];
    let mut video = raw(3, 2, 12, &data);
    video.line_stride_or_size = LineStrideOrSize::DataSizeBytes(24);
    assert_eq!(rejection(&video), Some(Rejection::DataSizeInsteadOfStride));
    video.pixel_format = PixelFormat::UYVY;
    assert_eq!(rejection(&video), Some(Rejection::DataSizeInsteadOfStride));
}

#[test]
fn validate_rejects_other_formats() {
    let data = vec![5u8; 24];
    for format in [
        PixelFormat::UYVY,
        PixelFormat::UYVA,
        PixelFormat::P216,
        PixelFormat::PA16,
        PixelFormat::YV12,
        PixelFormat::I420,
        PixelFormat::NV12,
        PixelFormat::BGRA,
        PixelFormat::BGRX,
    ] {
        let mut video = raw(3, 2, 12, &data);
        video.pixel_format = format;
        assert_eq!(rejection(&video), Some(Rejection::UnexpectedFormat));
        assert!(!is_rgba_compatible(format));
    }
    assert!(is_rgba_compatible(PixelFormat::RGBA));
    assert!(is_rgba_compatible(PixelFormat::RGBX));
}

#[test]
fn validate_rejects_padded_rows() {
    let data = vec![5u8; 32];
    assert_eq!(rejection(&raw(3, 2, 16, &data)), Some(Rejection::StrideMismatch));
    assert_eq!(rejection(&raw(3, 2, 11, &data)), Some(Rejection::StrideMismatch));
}

#[test]
fn validate_rejects_negative_dimensions() {
    let data = vec![5u8; 32];
    assert_eq!(rejection(&raw(-2, -2, -8, &data)), Some(Rejection::NegativeDimension));
    assert_eq!(rejection(&raw(2, -2, 8, &data)), Some(Rejection::NegativeDimension));
}

#[test]
fn validate_rejects_less_than_half_the_size() {
    let data = vec![5u8; 24];
    assert_eq!(rejection(&raw(3, 2, 12, &data[..11])), Some(Rejection::TooSmall));
    assert!(validate(&raw(3, 2, 12, &data[..12])).is_ok());
    assert!(validate(&raw(3, 2, 12, &data[..23])).is_ok());
}

#[test]
fn validate_handles_widths_whose_stride_overflows() {
    let data = vec![5u8; 8];
    assert_eq!(rejection(&raw(i32::MAX, 1, -4, &data)), Some(Rejection::StrideMismatch));
    assert_eq!(rejection(&raw(0x2000_0000, 1, i32::MIN, &data)), Some(Rejection::StrideMismatch));
}

#[test]
fn to_frame_needs_the_exact_size() {
    let data = vec![5u8; 24];
    let exact = ValidatedFrame { width: 3, height: 2, data: &data, timecode: 12 };
    let frame = to_frame(&exact).unwrap();
    assert_eq!(frame.width(), 3);
    assert_eq!(frame.height(), 2);
    assert_eq!(frame.timecode(), 12);
    assert_eq!(frame.pixels(), &data);
    let short = ValidatedFrame { width: 3, height: 2, data: &data[..20], timecode: 12 };
    assert!(to_frame(&short).is_none());
    let long = ValidatedFrame { width: 2, height: 2, data: &data, timecode: 12 };
    assert!(to_frame(&long).is_none());
    let negative = ValidatedFrame { width: -3, height: -2, data: &data, timecode: 12 };
    assert!(to_frame(&negative).is_none());
}

#[test]
fn validate_and_convert_cuts_to_the_nominal_size() {
    let mut data = vec![1u8; 16];
    data.extend_from_slice(&[9, 9, 9]);
    let frame = validate_and_convert(&raw(2, 2, 8, &data)).unwrap();
    assert_eq!(frame.width(), 2);
    assert_eq!(frame.height(), 2);
    assert_eq!(frame.timecode(), 77);
    assert_eq!(frame.pixels(), &vec![1u8; 16]);
}

#[test]
fn validate_and_convert_rejects_what_it_must() {
    let data = vec![1u8; 16];
    assert!(validate_and_convert(&raw(2, 2, 8, &data[..15])).is_none());
    assert!(validate_and_convert(&raw(2, 2, 12, &data)).is_none());
    assert!(validate_and_convert(&raw(-2, -2, -8, &data)).is_none());
    let mut other = raw(2, 2, 8, &data);
    other.pixel_format = PixelFormat::BGRA;
    assert!(validate_and_convert(&other).is_none());
    let mut sized = raw(2, 2, 8, &data);
    sized.line_stride_or_size = LineStrideOrSize::DataSizeBytes(16);
    assert!(validate_and_convert(&sized).is_none());
    assert!(validate_and_convert(&raw(2, 2, 8, &data)).is_some());
}

#[test]
fn discovery_addresses_skip_program_name_and_options() {
    let args: Vec<String> = ["viewer", "192.168.0.1", "--verbose", "10.0.0.0/24", "-x", "--", "-"]
        .iter()
        .map(|s| s.to_string())
        .collect();
    assert_eq!(discovery_addresses(&args), vec![1, 3, 4, 6]);
    assert_eq!(discovery_addresses(&Vec::new()), Vec::<usize>::new());
    assert_eq!(discovery_addresses(&vec!["--only".to_string()]), Vec::<usize>::new());
}

#[test]
fn select_source_takes_first_when_no_name_is_given() {
    let names = vec!["A".to_string(), "B".to_string()];
    assert_eq!(select_source(&names, ""), Some(0));
    assert_eq!(select_source(&Vec::new(), ""), None);
}

#[test]
fn select_source_finds_first_of_that_name() {
    let names = vec!["A".to_string(), "B".to_string(), "B".to_string()];
    assert_eq!(select_source(&names, "B"), Some(1));
    assert_eq!(select_source(&names, "A"), Some(0));
    assert_eq!(select_source(&names, "C"), None);
    assert_eq!(select_source(&Vec::new(), "A"), None);
}
