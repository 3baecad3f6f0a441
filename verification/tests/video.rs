use peerwatch::video::{DecodedPixelFormat, PixelFormat, UnsupportedPixelFormat, VideoFrame};

#[test]
fn frames_keep_what_was_decoded() {
    let frame = VideoFrame::try_from(DecodedPixelFormat::Rgba, 2, 1, &[1, 2, 3, 4, 5, 6, 7, 8])
        .unwrap();
    assert_eq!(frame.width(), 2);
    assert_eq!(frame.height(), 1);
    assert_eq!(frame.pixel_format(), PixelFormat::Rgba);
    assert_eq!(frame.data(), &[1, 2, 3, 4, 5, 6, 7, 8]);

    let frame = VideoFrame::try_from(DecodedPixelFormat::Bgra, 0, 3, &[]).unwrap();
    assert_eq!((frame.width(), frame.height()), (0, 3));
    assert_eq!(frame.pixel_format(), PixelFormat::Bgra);
    assert!(frame.data().is_empty());
}

#[test]
fn other_pixel_formats_are_refused() {
    let error = VideoFrame::try_from(DecodedPixelFormat::Other("YUV420P".to_string()), 2, 1, &[0])
        .unwrap_err();
    assert_eq!(error, UnsupportedPixelFormat { name: "YUV420P".to_string() });
    assert_eq!(error.message(), "unsupported pixel format: YUV420P");
}

#[test]
fn rgba_is_the_default() {
    assert_eq!(PixelFormat::default(), PixelFormat::Rgba);
}
