use moondream::common::{
    encode_image, handle_response, media_type, CaptionDetailLevel, ErrorResponse, ImageKind,
    ResponseAction,
};

#[test]
fn status_200_reads_json() {
    assert!(matches!(handle_response(200), ResponseAction::ReadJson));
}

#[test]
fn named_statuses_fail_with_their_condition() {
    assert!(matches!(handle_response(400), ResponseAction::Fail(ErrorResponse::BadRequest)));
    assert!(matches!(handle_response(401), ResponseAction::Fail(ErrorResponse::Unauthorized)));
    assert!(matches!(handle_response(413), ResponseAction::Fail(ErrorResponse::PayloadTooLarge)));
    assert!(matches!(handle_response(429), ResponseAction::Fail(ErrorResponse::TooManyRequests)));
    assert!(matches!(
        handle_response(500),
        ResponseAction::Fail(ErrorResponse::InternalServerError)
    ));
}

#[test]
fn other_statuses_read_the_text() {
    for status in [0u16, 100, 199, 201, 204, 301, 399, 402, 404, 412, 414, 428, 430, 499, 501, 503, 65535] {
        assert!(matches!(handle_response(status), ResponseAction::ReadText));
    }
}

#[test]
fn messages() {
    assert_eq!(
        ErrorResponse::BadRequest.message(),
        "Bad Request: Invalid parameters or image format"
    );
    assert_eq!(ErrorResponse::Unauthorized.message(), "Unauthorized: Invalid or missing API key");
    assert_eq!(
        ErrorResponse::PayloadTooLarge.message(),
        "Payload Too Large: Image size exceeds limits"
    );
    assert_eq!(
        ErrorResponse::TooManyRequests.message(),
        "Too Many Requests: Rate limit exceeded"
    );
    assert_eq!(ErrorResponse::InternalServerError.message(), "Internal Server Error");
    assert_eq!(ErrorResponse::Http("timed out".to_string()).message(), "HTTP Error: timed out");
    assert_eq!(
        ErrorResponse::Unexpected("teapot".to_string()).message(),
        "Unexpected response: teapot"
    );
    assert_eq!(
        ErrorResponse::JsonError("EOF".to_string()).message(),
        "JSON deserialization failed: EOF"
    );
}

#[test]
fn detail_words() {
    assert_eq!(CaptionDetailLevel::Short.as_str(), "short");
    assert_eq!(CaptionDetailLevel::Normal.as_str(), "normal");
    assert_eq!(CaptionDetailLevel::default().as_str(), "normal");
}

#[test]
fn media_types() {
    assert_eq!(media_type(ImageKind::Png), "image/png");
    assert_eq!(media_type(ImageKind::Gif), "image/gif");
    assert_eq!(media_type(ImageKind::Other), "image/jpeg");
}

#[test]
fn data_urls() {
    assert_eq!(encode_image(b"hello", ImageKind::Png), "data:image/png;base64,aGVsbG8=");
    assert_eq!(encode_image(b"", ImageKind::Gif), "data:image/gif;base64,");
    assert_eq!(encode_image(&[0xff, 0xd8, 0xff], ImageKind::Other), "data:image/jpeg;base64,/9j/");
    assert_eq!(encode_image(b"ab", ImageKind::Other), "data:image/jpeg;base64,YWI=");
    assert_eq!(encode_image(b"a", ImageKind::Other), "data:image/jpeg;base64,YQ==");
    assert_eq!(encode_image(&[0xfb, 0xef, 0xbe], ImageKind::Png), "data:image/png;base64,++++");
}
