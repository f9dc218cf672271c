use picam::nv12::{convert_frame, frame_fits, nv12_to_rgba, CameraEvent, Nv12Frame};

#[test]
fn nv12_to_rgba_pure_black() {
    // Y=16, U=128, V=128 → near-black
    let w = 2u32;
    let h = 2u32;
    let mut nv12 = vec![16u8; (w * h) as usize];
    nv12.extend_from_slice(&[128u8, 128u8]);
    let rgba = nv12_to_rgba(&nv12, w, h);
    assert_eq!(rgba.len(), (w * h * 4) as usize);
    assert!(rgba.iter().skip(3).step_by(4).all(|&a| a == 255));
    assert_eq!(&rgba[..4], &[16, 16, 16, 255]);
}

#[test]
fn nv12_to_rgba_output_size() {
    let w = 4u32;
    let h = 4u32;
    let nv12 = vec![128u8; (w * h + w * h / 2) as usize];
    let rgba = nv12_to_rgba(&nv12, w, h);
    assert_eq!(rgba.len(), (w * h * 4) as usize);
}

#[test]
fn nv12_to_rgba_alpha_always_255() {
    let w = 8u32;
    let h = 8u32;
    let nv12 = vec![200u8; (w * h + w * h / 2) as usize];
    let rgba = nv12_to_rgba(&nv12, w, h);
    assert!(rgba.iter().skip(3).step_by(4).all(|&a| a == 255));
}

#[test]
fn nv12_to_rgba_pure_white() {
    // Y=235 (broadcast white), U=128, V=128 → near-white RGB
    let w = 2u32;
    let h = 2u32;
    let mut nv12 = vec![235u8; (w * h) as usize];
    nv12.extend_from_slice(&[128u8, 128u8]);
    let rgba = nv12_to_rgba(&nv12, w, h);
    for i in 0..(w * h) as usize {
        assert!(rgba[i * 4] > 200, "R too low");
        assert!(rgba[i * 4 + 1] > 200, "G too low");
        assert!(rgba[i * 4 + 2] > 200, "B too low");
    }
}

#[test]
fn nv12_to_rgba_red_channel() {
    // Y=81, U=90, V=240 → approximately red (255, 0, 0) in studio swing
    let w = 2u32;
    let h = 2u32;
    let mut nv12 = vec![81u8; (w * h) as usize];
    nv12.extend_from_slice(&[90u8, 240u8]);
    let rgba = nv12_to_rgba(&nv12, w, h);
    assert!(rgba[0] > rgba[2], "red channel should dominate");
}

#[test]
fn nv12_to_rgba_exact_pixel() {
    let nv12 = vec![81u8, 81, 81, 81, 90, 240];
    let rgba = nv12_to_rgba(&nv12, 2, 2);
    for i in 0..4 {
        assert_eq!(&rgba[i * 4..i * 4 + 4], &[238, 15, 14, 255]);
    }
}

#[test]
fn nv12_to_rgba_clamps() {
    let bright = nv12_to_rgba(&[255, 255, 255, 255, 255, 255], 2, 2);
    assert_eq!(&bright[..4], &[255, 122, 255, 255]);
    let dark = nv12_to_rgba(&[0, 0, 0, 0, 0, 0], 2, 2);
    assert_eq!(&dark[..4], &[0, 135, 0, 255]);
}

#[test]
fn a_block_of_four_shares_its_colour() {
    // Two blocks side by side, the second one reddish.
    let nv12 = vec![100u8, 100, 100, 100, 100, 100, 100, 100, 128, 128, 128, 228];
    let rgba = nv12_to_rgba(&nv12, 4, 2);
    let pixel = |i: usize| rgba[i * 4..i * 4 + 4].to_vec();
    assert_eq!(pixel(0), vec![100, 100, 100, 255]);
    assert_eq!(pixel(0), pixel(1));
    assert_eq!(pixel(0), pixel(4));
    assert_eq!(pixel(0), pixel(5));
    assert_eq!(pixel(2), vec![240, 29, 100, 255]);
    assert_eq!(pixel(2), pixel(3));
    assert_eq!(pixel(2), pixel(6));
    assert_eq!(pixel(2), pixel(7));
}

#[test]
fn frames_that_are_too_short_do_not_fit() {
    assert!(frame_fits(6, 2, 2));
    assert!(frame_fits(7, 2, 2));
    assert!(!frame_fits(5, 2, 2));
    assert!(frame_fits(0, 0, 0));
}

#[test]
fn convert_frame_keeps_the_size() {
    let frame = Nv12Frame { data: vec![16, 16, 16, 16, 128, 128], width: 2, height: 2 };
    let CameraEvent::Frame { rgba, width, height } = convert_frame(&frame);
    assert_eq!(width, 2);
    assert_eq!(height, 2);
    assert_eq!(rgba, nv12_to_rgba(&frame.data, 2, 2));
}

#[test]
fn bytes_behind_a_frame_make_no_difference() {
    let frame: Vec<u8> = vec![10, 60, 110, 160, 90, 200];
    let mut longer = frame.clone();
    longer.extend([1, 2, 3]);
    assert_eq!(nv12_to_rgba(&longer, 2, 2), nv12_to_rgba(&frame, 2, 2));
}
