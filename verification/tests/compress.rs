use memory_stream::compress::{check_encoded, check_input_size, shrink_box, CompressError, DEFAULT_MAX_INPUT_BYTES};

#[test]
fn input_over_the_limit_is_refused() {
    assert!(check_input_size(100, 100).is_ok());
    assert!(check_input_size(0, 0).is_ok());
    match check_input_size(101, 100) {
        Err(CompressError::PayloadTooLarge(m)) => {
            assert_eq!(m, "Image size 101 bytes exceeds the maximum allowed 100 bytes")
        }
        other => panic!("unexpected {:?}", other),
    }
    assert_eq!(DEFAULT_MAX_INPUT_BYTES, 20 * 1024 * 1024);
    assert!(check_input_size(DEFAULT_MAX_INPUT_BYTES + 1, DEFAULT_MAX_INPUT_BYTES).is_err());
}

#[test]
fn shrink_only_what_exceeds_the_box() {
    assert_eq!(shrink_box(2000, 2000, Some(800), Some(800)), Some((800, 800)));
    assert_eq!(shrink_box(50, 50, Some(800), Some(800)), None);
    assert_eq!(shrink_box(2000, 2000, None, None), None);
    assert_eq!(shrink_box(2000, 100, Some(800), None), Some((800, 100)));
    assert_eq!(shrink_box(100, 2000, Some(800), None), None);
    assert_eq!(shrink_box(100, 2000, None, Some(500)), Some((100, 500)));
    assert_eq!(shrink_box(800, 800, Some(800), Some(800)), None);
}

#[test]
fn empty_encoder_output_is_an_error() {
    assert_eq!(check_encoded(vec![1, 2, 3]).unwrap(), vec![1, 2, 3]);
    match check_encoded(Vec::new()) {
        Err(e) => assert_eq!(e.message(), "WebP 编码失败: WebP 编码器返回空数据"),
        Ok(_) => panic!("expected an error"),
    }
}

#[test]
fn compress_error_messages() {
    assert_eq!(CompressError::DecodeError("bad".to_string()).message(), "图片解码失败: bad");
    assert_eq!(CompressError::ResizeError("x".to_string()).message(), "图片缩放失败: x");
    assert_eq!(
        CompressError::TaskPanic { reason: "boom".to_string() }.message(),
        "Blocking task panicked: boom"
    );
    assert_eq!(CompressError::PayloadTooLarge("big".to_string()).message(), "输入数据过大: big");
}
