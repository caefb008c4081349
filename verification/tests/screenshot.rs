use agent_desktop::error::BackendError;
use agent_desktop::screenshot::{
    capture_call_error, capture_retry, check_crop, check_delivered, check_transfer, decode_qimage,
    encode_shot, missing_field, png_shot, qimage_rgba, x11_image, x11_image_format, x11_rgba,
    CaptureRetry, RgbaFrame,
};
use agent_desktop::drivers::ShotFormat;
use agent_desktop::types::Bbox;

fn stderr_of(e: BackendError) -> String {
    match e {
        BackendError::ExternalCommandFailed { stderr } => stderr,
        other => panic!("unexpected {other:?}"),
    }
}

#[test]
fn argb32_frames_become_rgba() {
    let bytes = [1, 2, 3, 4, 5, 6, 7, 8];
    assert_eq!(qimage_rgba(&bytes, 2, 1, 8, 5).unwrap(), vec![3, 2, 1, 4, 7, 6, 5, 8]);
    assert_eq!(qimage_rgba(&bytes, 2, 1, 8, 6).unwrap(), vec![3, 2, 1, 4, 7, 6, 5, 8]);
    assert_eq!(qimage_rgba(&bytes, 2, 1, 8, 4).unwrap(), vec![3, 2, 1, 255, 7, 6, 5, 255]);
    assert_eq!(qimage_rgba(&bytes, 2, 1, 8, 17).unwrap(), bytes.to_vec());
}

#[test]
fn row_padding_is_skipped() {
    let bytes = [1, 2, 3, 4, 0, 0, 9, 10, 11, 12, 0, 0];
    assert_eq!(qimage_rgba(&bytes, 1, 2, 6, 18).unwrap(), vec![1, 2, 3, 4, 9, 10, 11, 12]);
}

#[test]
fn malformed_frames_are_refused() {
    assert_eq!(stderr_of(qimage_rgba(&[], 0, 1, 0, 5).unwrap_err()), "screenshot zero dimensions");
    assert_eq!(
        stderr_of(qimage_rgba(&[0; 7], 2, 1, 8, 5).unwrap_err()),
        "screenshot bytes too short: got 7, need 8, width 2, height 1, stride 8"
    );
    assert_eq!(
        stderr_of(qimage_rgba(&[0; 8], 2, 1, 4, 5).unwrap_err()),
        "screenshot bytes too short: got 8, need 4, width 2, height 1, stride 4"
    );
    assert_eq!(
        stderr_of(qimage_rgba(&[0; 8], 2, 1, 8, 3).unwrap_err()),
        "unsupported QImage::Format 3"
    );
}

#[test]
fn decoded_frames_keep_their_size_and_pixels() {
    let frame = decode_qimage(&[1, 2, 3, 4, 5, 6, 7, 8], 1, 2, 4, 4).unwrap();
    assert_eq!((frame.width, frame.height), (1, 2));
    assert_eq!(frame.pixels, vec![3, 2, 1, 255, 7, 6, 5, 255]);
    assert!(decode_qimage(&[1, 2, 3], 1, 1, 4, 4).is_err());
}

#[test]
fn transfers_stop_at_128_mib() {
    assert!(check_transfer(0, 65_536).is_ok());
    assert!(check_transfer(134_217_728 - 10, 10).is_ok());
    match check_transfer(134_217_728 - 10, 11) {
        Err(BackendError::Failed(m)) => assert_eq!(m, "Screenshot exceeds 128 MiB"),
        other => panic!("unexpected {other:?}"),
    }
    assert!(check_delivered(1).is_ok());
    assert_eq!(stderr_of(check_delivered(0).unwrap_err()), "screenshot pipe returned 0 bytes");
    assert_eq!(
        stderr_of(missing_field("stride")),
        "screenshot result missing/invalid u32 field: stride"
    );
}

#[test]
fn short_transfers_retry_once_and_denials_five_times() {
    let short = BackendError::ExternalCommandFailed {
        stderr: "screenshot bytes too short: got 7, need 8".to_string(),
    };
    assert_eq!(capture_retry(&short, 1, false), CaptureRetry::Transfer);
    assert_eq!(capture_retry(&short, 2, true), CaptureRetry::GiveUp);
    let denied = capture_call_error(
        Some("org.kde.KWin.ScreenShot2.Error.NoAuthorized"),
        "denied".to_string(),
    );
    assert!(matches!(denied, BackendError::PermissionDenied { .. }));
    assert_eq!(capture_retry(&denied, 5, false), CaptureRetry::Authorization);
    assert_eq!(capture_retry(&denied, 6, false), CaptureRetry::GiveUp);
    let lost = capture_call_error(Some("org.freedesktop.DBus.Error.Failed"), "gone".to_string());
    match &lost {
        BackendError::BusDisconnected { detail } => assert_eq!(detail, "gone"),
        other => panic!("unexpected {other:?}"),
    }
    assert_eq!(capture_retry(&lost, 1, false), CaptureRetry::GiveUp);
}

fn reason_of(e: BackendError) -> String {
    match e {
        BackendError::Unsupported { reason } => reason,
        other => panic!("unexpected {other:?}"),
    }
}

#[test]
fn x11_images_need_a_little_endian_32_bit_format() {
    let formats = [(1, 1), (24, 32), (32, 32), (16, 16)];
    assert!(x11_image_format(true, 24, &formats).is_ok());
    assert_eq!(
        reason_of(x11_image_format(false, 24, &formats).unwrap_err()),
        "big-endian X11 servers are not supported"
    );
    assert_eq!(
        reason_of(x11_image_format(true, 16, &formats).unwrap_err()),
        "unsupported X11 bits-per-pixel 16"
    );
    assert_eq!(
        reason_of(x11_image_format(true, 8, &formats).unwrap_err()),
        "X11 root has no pixmap format for depth 8"
    );
    // The first format listed for a depth decides.
    assert!(x11_image_format(true, 24, &[(24, 24), (24, 32)]).is_err());
}

#[test]
fn x11_pixels_are_reordered_with_alpha_by_depth() {
    let data = [10, 20, 30, 40, 50, 60, 70, 80, 99];
    assert_eq!(x11_rgba(&data, 2, 1, 24).unwrap(), vec![30, 20, 10, 255, 70, 60, 50, 255]);
    assert_eq!(x11_rgba(&data, 2, 1, 32).unwrap(), vec![30, 20, 10, 40, 70, 60, 50, 80]);
    match x11_rgba(&data, 3, 1, 24) {
        Err(BackendError::Failed(m)) => assert_eq!(m, "truncated X11 image: got 9, need 12"),
        other => panic!("unexpected {other:?}"),
    }
    let frame = x11_image(&data, 1, 2, 24).unwrap();
    assert_eq!((frame.width, frame.height), (1, 2));
    assert_eq!(frame.pixels, vec![30, 20, 10, 255, 70, 60, 50, 255]);
    assert!(x11_image(&data, 2, 2, 32).is_err());
}

#[test]
fn x11_crops_must_lie_on_the_root() {
    let area = |x, y, w, h| Bbox { x, y, w, h };
    assert!(check_crop(area(0, 0, 1920, 1080), 1920, 1080).is_ok());
    assert!(check_crop(area(10, 10, 100, 100), 1920, 1080).is_ok());
    for bad in [
        area(-1, 0, 10, 10),
        area(0, -1, 10, 10),
        area(0, 0, 0, 10),
        area(0, 0, 10, 0),
        area(1911, 0, 10, 10),
        area(0, 1071, 10, 10),
    ] {
        let e = check_crop(bad, 1920, 1080).unwrap_err();
        assert_eq!(e.code, "invalid_geometry");
        assert_eq!(e.message, "Crop is outside the X11 root");
    }
}

#[test]
fn frames_encode_as_png_with_their_coordinate_size() {
    let frame = RgbaFrame { width: 2, height: 1, pixels: vec![1, 2, 3, 255, 4, 5, 6, 128] };
    let shot = encode_shot(&frame, 20, 10).unwrap();
    assert_eq!(shot.format, ShotFormat::Png);
    assert_eq!((shot.coord_w, shot.coord_h), (20, 10));
    assert_eq!(&shot.bytes[..8], &[0x89, b'P', b'N', b'G', 0x0d, 0x0a, 0x1a, 0x0a]);
    let back = image::load_from_memory(&shot.bytes).unwrap().to_rgba8();
    assert_eq!((back.width(), back.height()), (2, 1));
    assert_eq!(back.into_raw(), frame.pixels);
    match png_shot(Err("too big".to_string()), 1, 1) {
        Err(BackendError::ExternalCommandFailed { stderr }) => assert_eq!(stderr, "png encode: too big"),
        other => panic!("unexpected {other:?}"),
    }
}
