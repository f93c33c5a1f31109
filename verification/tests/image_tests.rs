use file_intake::transcode::{
    process_image_upload, select_resize_policy, target_format_of, ResizePolicy, TargetFormat,
};
use file_intake::validate::UploadError;

fn test_image_bytes(width: u32, height: u32, format: image::ImageFormat) -> Vec<u8> {
    let img = image::DynamicImage::new_rgb8(width, height);
    let mut buf: Vec<u8> = Vec::new();
    img.write_to(&mut std::io::Cursor::new(&mut buf), format)
        .expect("encoding the fixture image failed");
    buf
}

#[test]
fn proportional_width_shrink_is_exact() {
    let bytes = test_image_bytes(1000, 500, image::ImageFormat::Png);
    let p = process_image_upload("Photo Test.png", &bytes, 10_000_000, 500, 0).unwrap();
    assert_eq!(p.width, 500);
    assert_eq!(p.height, 250);
    assert_eq!(p.file_name, "photo-test.png");
}

#[test]
fn wider_bound_leaves_the_image_alone() {
    let bytes = test_image_bytes(1000, 500, image::ImageFormat::Png);
    let p = process_image_upload("photo.png", &bytes, 10_000_000, 2000, 0).unwrap();
    assert_eq!(p.width, 1000);
    assert_eq!(p.height, 500);
}

#[test]
fn proportional_height_shrink_is_exact() {
    let bytes = test_image_bytes(1000, 500, image::ImageFormat::Png);
    let p = process_image_upload("photo.png", &bytes, 10_000_000, 0, 250).unwrap();
    assert_eq!(p.width, 500);
    assert_eq!(p.height, 250);
}

#[test]
fn forced_resize_ignores_aspect_ratio() {
    let bytes = test_image_bytes(1000, 500, image::ImageFormat::Png);
    let p = process_image_upload("photo.png", &bytes, 10_000_000, 300, 300).unwrap();
    assert_eq!(p.width, 300);
    assert_eq!(p.height, 300);
}

#[test]
fn negative_request_means_no_resize() {
    let bytes = test_image_bytes(64, 32, image::ImageFormat::Png);
    let p = process_image_upload("photo.png", &bytes, 10_000_000, -5, 10).unwrap();
    assert_eq!(p.width, 64);
    assert_eq!(p.height, 32);
}

#[test]
fn png_round_trip_preserves_dimensions() {
    let bytes = test_image_bytes(1000, 500, image::ImageFormat::Png);
    let p = process_image_upload("photo.png", &bytes, 10_000_000, 500, 0).unwrap();
    let again = process_image_upload("copy.png", &p.data, 10_000_000, 0, 0).unwrap();
    assert_eq!(again.width, 500);
    assert_eq!(again.height, 250);
}

#[test]
fn jpeg_round_trip_preserves_dimensions() {
    let bytes = test_image_bytes(400, 300, image::ImageFormat::Jpeg);
    let p = process_image_upload("pic.jpeg", &bytes, 10_000_000, 200, 0).unwrap();
    assert_eq!(p.width, 200);
    assert_eq!(p.height, 150);
    let again = process_image_upload("copy.jpg", &p.data, 10_000_000, 0, 0).unwrap();
    assert_eq!(again.width, 200);
    assert_eq!(again.height, 150);
}

#[test]
fn gif_round_trip_preserves_dimensions() {
    let bytes = test_image_bytes(120, 80, image::ImageFormat::Gif);
    let p = process_image_upload("anim.gif", &bytes, 10_000_000, 60, 0).unwrap();
    assert_eq!(p.width, 60);
    assert_eq!(p.height, 40);
    let again = process_image_upload("copy.gif", &p.data, 10_000_000, 0, 0).unwrap();
    assert_eq!(again.width, 60);
    assert_eq!(again.height, 40);
}

#[test]
fn bmp_extension_is_disallowed_before_decoding() {
    let bytes = test_image_bytes(64, 64, image::ImageFormat::Png);
    let r = process_image_upload("img.bmp", &bytes, 10_000_000, 0, 0);
    match r {
        Err(UploadError::DisallowedType { ext }) => assert_eq!(ext, "bmp"),
        _ => panic!("expected a disallowed-type failure"),
    }
}

#[test]
fn upper_case_image_extension_is_accepted() {
    let bytes = test_image_bytes(64, 64, image::ImageFormat::Gif);
    let p = process_image_upload("IMG.GIF", &bytes, 10_000_000, 0, 0).unwrap();
    assert_eq!(p.width, 64);
    assert_eq!(p.file_name, "img.gif");
}

#[test]
fn size_is_checked_before_the_extension_for_images() {
    let bytes = vec![0u8; 10];
    let r = process_image_upload("no_extension_here", &bytes, 1, 0, 0);
    match r {
        Err(UploadError::TooLarge { size, max_size }) => {
            assert_eq!(size, 10);
            assert_eq!(max_size, 1);
        },
        _ => panic!("expected a too-large failure"),
    }
}

#[test]
fn missing_extension_on_image_upload() {
    let bytes = vec![0u8; 10];
    let r = process_image_upload("no_extension_here", &bytes, 100, 0, 0);
    assert!(matches!(r, Err(UploadError::NoExtension)));
}

#[test]
fn undecodable_bytes_are_reported() {
    let bytes = vec![7u8; 32];
    let r = process_image_upload("junk.png", &bytes, 100, 0, 0);
    assert!(matches!(
        r,
        Err(UploadError::InvalidFormat { .. }) | Err(UploadError::DecodeError { .. })
    ));
}

#[test]
fn unknown_magic_bytes_are_an_invalid_format() {
    // no known signature: format detection itself fails
    let bytes = vec![7u8; 32];
    let r = process_image_upload("junk2.png", &bytes, 100, 0, 0);
    assert!(matches!(r, Err(UploadError::InvalidFormat { .. })));
}

#[test]
fn truncated_png_is_a_decode_error() {
    // the PNG signature is detected, but the stream behind it is garbage
    let mut bytes = vec![0x89, b'P', b'N', b'G', 0x0d, 0x0a, 0x1a, 0x0a];
    bytes.extend_from_slice(&[0u8; 8]);
    let r = process_image_upload("broken.png", &bytes, 100, 0, 0);
    assert!(matches!(r, Err(UploadError::DecodeError { .. })));
}

#[test]
fn image_size_bound_is_inclusive() {
    let bytes = test_image_bytes(16, 16, image::ImageFormat::Png);
    let len = bytes.len();
    let p = process_image_upload("tiny.png", &bytes, len, 0, 0).unwrap();
    assert_eq!(p.width, 16);
    assert_eq!(p.height, 16);
}

#[test]
fn policy_selection_covers_all_four_cases() {
    assert_eq!(select_resize_policy(500, 0), ResizePolicy::ScaleToWidth(500));
    assert_eq!(select_resize_policy(0, 250), ResizePolicy::ScaleToHeight(250));
    assert_eq!(select_resize_policy(300, 300), ResizePolicy::ForceExact(300, 300));
    assert_eq!(select_resize_policy(0, 0), ResizePolicy::NoResize);
    assert_eq!(select_resize_policy(-1, -1), ResizePolicy::NoResize);
    assert_eq!(select_resize_policy(-5, 10), ResizePolicy::NoResize);
}

#[test]
fn target_format_follows_the_extension() {
    assert_eq!(target_format_of(&"png".to_string()), Some(TargetFormat::Png));
    assert_eq!(target_format_of(&"jpg".to_string()), Some(TargetFormat::Jpeg));
    assert_eq!(target_format_of(&"jpeg".to_string()), Some(TargetFormat::Jpeg));
    assert_eq!(target_format_of(&"gif".to_string()), Some(TargetFormat::Gif));
    assert_eq!(target_format_of(&"bmp".to_string()), None);
}
