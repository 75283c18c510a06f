use rust_ndi_viewer::frame::Frame;
use rust_ndi_viewer::offload::plan_dispatch;
use rust_ndi_viewer::offload::DispatchPlan;
use rust_ndi_viewer::offload::WORKGROUP_SIZE;
use rust_ndi_viewer::transform::blur_bytes;
use rust_ndi_viewer::transform::gaussian_blur;
use rust_ndi_viewer::transform::grayscale;
use rust_ndi_viewer::transform::grayscale_bytes;
use rust_ndi_viewer::transform::luma_of;

fn pattern(width: u32, height: u32) -> Vec<u8> {
    let mut bytes = Vec::new();
    for i in 0..(width * height * 4) {
        bytes.push(((i * 37 + 11) % 256) as u8);
    }
    bytes
}

#[test]
fn luma_exact_values() {
    assert_eq!(luma_of(0, 0, 0), 0);
    assert_eq!(luma_of(255, 255, 255), 255);
    assert_eq!(luma_of(255, 0, 0), 76);
    assert_eq!(luma_of(0, 255, 0), 149);
    assert_eq!(luma_of(0, 0, 255), 28);
    assert_eq!(luma_of(10, 20, 30), 18);
}

#[test]
fn luma_of_gray_pixel_is_itself() {
    for g in 0..=255u8 {
        assert_eq!(luma_of(g, g, g), g);
    }
}

#[test]
fn grayscale_writes_luma_and_keeps_alpha() {
    let out = grayscale_bytes(&[255, 0, 0, 7, 10, 20, 30, 200]);
    assert_eq!(out, vec![76, 76, 76, 7, 18, 18, 18, 200]);
}

#[test]
fn grayscale_leaves_trailing_bytes() {
    let out = grayscale_bytes(&[0, 255, 0, 1, 9, 8, 7]);
    assert_eq!(out, vec![149, 149, 149, 1, 9, 8, 7]);
    assert_eq!(grayscale_bytes(&[]), Vec::<u8>::new());
}

#[test]
fn grayscale_twice_equals_once() {
    let bytes = pattern(7, 5);
    let once = grayscale_bytes(&bytes);
    let twice = grayscale_bytes(&once);
    assert_eq!(once, twice);
    assert_ne!(once, bytes);
}

#[test]
fn grayscale_frame_keeps_dimensions_and_timecode() {
    let frame = Frame::new(2, 1, vec![255, 0, 0, 7, 10, 20, 30, 200], 42).unwrap();
    let gray = grayscale(&frame);
    assert_eq!(gray.width(), 2);
    assert_eq!(gray.height(), 1);
    assert_eq!(gray.timecode(), 42);
    assert_eq!(gray.pixels(), &vec![76, 76, 76, 7, 18, 18, 18, 200]);
    assert_eq!(frame.pixels(), &vec![255, 0, 0, 7, 10, 20, 30, 200]);
}

#[test]
fn blur_of_uniform_image_is_the_image() {
    let mut bytes = Vec::new();
    for _ in 0..(6 * 4) {
        bytes.extend_from_slice(&[200, 17, 255, 3]);
    }
    assert_eq!(blur_bytes(&bytes, 6, 4), bytes);
    let one = vec![1, 2, 3, 4];
    assert_eq!(blur_bytes(&one, 1, 1), one);
}

#[test]
fn blur_of_single_bright_pixel() {
    let mut bytes = vec![0u8; 5 * 5 * 4];
    bytes[(2 * 5 + 2) * 4] = 255;
    let out = blur_bytes(&bytes, 5, 5);
    let red = |x: usize, y: usize| out[(y * 5 + x) * 4];
    assert_eq!(red(2, 2), 35);
    assert_eq!(red(1, 2), 23);
    assert_eq!(red(2, 1), 23);
    assert_eq!(red(3, 3), 15);
    assert_eq!(red(0, 2), 5);
    assert_eq!(red(0, 0), 0);
    assert_eq!(red(4, 4), 0);
    for i in 0..25 {
        assert_eq!(out[i * 4 + 1], 0);
        assert_eq!(out[i * 4 + 2], 0);
        assert_eq!(out[i * 4 + 3], 0);
    }
}

#[test]
fn blur_replicates_the_border() {
    let bytes = vec![0, 0, 0, 0, 255, 255, 255, 255];
    let out = blur_bytes(&bytes, 2, 1);
    assert_eq!(out, vec![79, 79, 79, 79, 175, 175, 175, 175]);
}

#[test]
fn blur_treats_alpha_like_colour() {
    let mut bytes = vec![0u8; 3 * 3 * 4];
    bytes[(1 * 3 + 1) * 4 + 3] = 255;
    let out = blur_bytes(&bytes, 3, 3);
    assert_eq!(out[(1 * 3 + 1) * 4 + 3], 35);
    assert_eq!(out[(1 * 3 + 1) * 4], 0);
}

#[test]
fn blur_of_empty_image_is_empty() {
    assert_eq!(blur_bytes(&[], 0, 0), Vec::<u8>::new());
    assert_eq!(blur_bytes(&[], 0, 9), Vec::<u8>::new());
    assert_eq!(blur_bytes(&[], 9, 0), Vec::<u8>::new());
}

#[test]
fn blur_frame_keeps_dimensions_and_timecode() {
    let frame = Frame::new(2, 1, vec![0, 0, 0, 0, 255, 255, 255, 255], -5).unwrap();
    let blurred = gaussian_blur(&frame);
    assert_eq!(blurred.width(), 2);
    assert_eq!(blurred.height(), 1);
    assert_eq!(blurred.timecode(), -5);
    assert_eq!(blurred.pixels(), &vec![79, 79, 79, 79, 175, 175, 175, 175]);
    assert_eq!(frame.pixels(), &vec![0, 0, 0, 0, 255, 255, 255, 255]);
}

#[test]
fn dispatch_plan_rounds_groups_up() {
    assert_eq!(WORKGROUP_SIZE, 256);
    assert_eq!(
        plan_dispatch(1920, 1080),
        Some(DispatchPlan { pixel_count: 2_073_600, byte_size: 8_294_400, workgroup_count: 8_100 })
    );
    assert_eq!(
        plan_dispatch(257, 1),
        Some(DispatchPlan { pixel_count: 257, byte_size: 1_028, workgroup_count: 2 })
    );
    assert_eq!(
        plan_dispatch(16, 16),
        Some(DispatchPlan { pixel_count: 256, byte_size: 1_024, workgroup_count: 1 })
    );
    assert_eq!(
        plan_dispatch(1, 1),
        Some(DispatchPlan { pixel_count: 1, byte_size: 4, workgroup_count: 1 })
    );
    assert_eq!(
        plan_dispatch(0, 5),
        Some(DispatchPlan { pixel_count: 0, byte_size: 0, workgroup_count: 0 })
    );
}

#[test]
fn dispatch_plan_refuses_too_many_pixels() {
    assert_eq!(plan_dispatch(65_536, 65_536), None);
    assert_eq!(
        plan_dispatch(65_535, 65_537),
        Some(DispatchPlan {
            pixel_count: u32::MAX,
            byte_size: 4 * (u32::MAX as u64),
            workgroup_count: 16_777_216,
        })
    );
}
