//! What every task of the service shares: the error conditions of a
//! response, the handling of its status, the level of detail of a caption and
//! the data URL that carries an image.

use base64::Engine;
use vstd::prelude::*;
use vstd::string::StringExecFns;

verus! {

/// The conditions under which a call to the service fails.
pub enum ErrorResponse {
    /// Status 400.
    BadRequest,
    /// Status 401.
    Unauthorized,
    /// Status 413.
    PayloadTooLarge,
    /// Status 429.
    TooManyRequests,
    /// Status 500.
    InternalServerError,
    /// The transport failed; the text is its report.
    Http(String),
    /// Any other status; the text is the body of the response as it came.
    Unexpected(String),
    /// The body was no JSON of the expected shape; the text is the report.
    JsonError(String),
}

/// The text that describes an error condition.
pub open spec fn error_text(error: ErrorResponse) -> Seq<char> {
    match error {
        ErrorResponse::BadRequest => "Bad Request: Invalid parameters or image format"@,
        ErrorResponse::Unauthorized => "Unauthorized: Invalid or missing API key"@,
        ErrorResponse::PayloadTooLarge => "Payload Too Large: Image size exceeds limits"@,
        ErrorResponse::TooManyRequests => "Too Many Requests: Rate limit exceeded"@,
        ErrorResponse::InternalServerError => "Internal Server Error"@,
        ErrorResponse::Http(report) => "HTTP Error: "@ + report@,
        ErrorResponse::Unexpected(body) => "Unexpected response: "@ + body@,
        ErrorResponse::JsonError(report) => "JSON deserialization failed: "@ + report@,
    }
}

impl ErrorResponse {
    /// Describes the condition in words.
    pub fn message(&self) -> (text: String)
        ensures
            text@ == error_text(*self),
    {
        match self {
            ErrorResponse::BadRequest => String::from_str(
                "Bad Request: Invalid parameters or image format",
            ),
            ErrorResponse::Unauthorized => String::from_str(
                "Unauthorized: Invalid or missing API key",
            ),
            ErrorResponse::PayloadTooLarge => String::from_str(
                "Payload Too Large: Image size exceeds limits",
            ),
            ErrorResponse::TooManyRequests => String::from_str(
                "Too Many Requests: Rate limit exceeded",
            ),
            ErrorResponse::InternalServerError => String::from_str("Internal Server Error"),
            ErrorResponse::Http(report) => String::from_str("HTTP Error: ").concat(
                report.as_str(),
            ),
            ErrorResponse::Unexpected(body) => String::from_str("Unexpected response: ").concat(
                body.as_str(),
            ),
            ErrorResponse::JsonError(report) => String::from_str(
                "JSON deserialization failed: ",
            ).concat(report.as_str()),
        }
    }
}

/// What is done with a response once its status is known.
pub enum ResponseAction {
    /// Status 200: read the body as JSON; it is the result.
    ReadJson,
    /// The status names the condition by itself: fail with it.
    Fail(ErrorResponse),
    /// Any other status: read the body as text and fail with
    /// `ErrorResponse::Unexpected` of that text, empty where it cannot be read.
    ReadText,
}

/// The action that the status `status` asks for.
pub open spec fn action_for(status: u16) -> ResponseAction {
    if status == 200 {
        ResponseAction::ReadJson
    } else if status == 400 {
        ResponseAction::Fail(ErrorResponse::BadRequest)
    } else if status == 401 {
        ResponseAction::Fail(ErrorResponse::Unauthorized)
    } else if status == 413 {
        ResponseAction::Fail(ErrorResponse::PayloadTooLarge)
    } else if status == 429 {
        ResponseAction::Fail(ErrorResponse::TooManyRequests)
    } else if status == 500 {
        ResponseAction::Fail(ErrorResponse::InternalServerError)
    } else {
        ResponseAction::ReadText
    }
}

/// Decides from the status of a response what becomes of it.
pub fn handle_response(status: u16) -> (action: ResponseAction)
    ensures
        action == action_for(status),
{
    match status {
        200 => ResponseAction::ReadJson,
        400 => ResponseAction::Fail(ErrorResponse::BadRequest),
        401 => ResponseAction::Fail(ErrorResponse::Unauthorized),
        413 => ResponseAction::Fail(ErrorResponse::PayloadTooLarge),
        429 => ResponseAction::Fail(ErrorResponse::TooManyRequests),
        500 => ResponseAction::Fail(ErrorResponse::InternalServerError),
        _ => ResponseAction::ReadText,
    }
}

/// The level of detail of a generated caption.
#[derive(Debug, Clone, Copy)]
pub enum CaptionDetailLevel {
    /// A summary of one or two sentences.
    Short,
    /// A description of elements, context, colours and positions.
    Normal,
}

/// The word by which the service knows a level of detail.
pub open spec fn detail_word(level: CaptionDetailLevel) -> Seq<char> {
    match level {
        CaptionDetailLevel::Short => "short"@,
        CaptionDetailLevel::Normal => "normal"@,
    }
}

impl CaptionDetailLevel {
    /// The word by which the service knows this level.
    pub fn as_str(&self) -> (word: &'static str)
        ensures
            word@ == detail_word(*self),
    {
        match self {
            CaptionDetailLevel::Short => "short",
            CaptionDetailLevel::Normal => "normal",
        }
    }
}

impl Default for CaptionDetailLevel {
    fn default() -> (level: Self)
        ensures
            level == CaptionDetailLevel::Normal,
    {
        CaptionDetailLevel::Normal
    }
}

/// The format in which an image was encoded, as far as its media type
/// depends on it.
#[derive(Debug, Clone, Copy)]
pub enum ImageKind {
    /// PNG.
    Png,
    /// GIF.
    Gif,
    /// Any other format; it is announced as JPEG.
    Other,
}

/// The media type under which an image of this kind is sent.
pub open spec fn media_type_of(kind: ImageKind) -> Seq<char> {
    match kind {
        ImageKind::Png => "image/png"@,
        ImageKind::Gif => "image/gif"@,
        ImageKind::Other => "image/jpeg"@,
    }
}

/// The media type under which an image of this kind is sent.
pub fn media_type(kind: ImageKind) -> (name: &'static str)
    ensures
        name@ == media_type_of(kind),
{
    match kind {
        ImageKind::Png => "image/png",
        ImageKind::Gif => "image/gif",
        ImageKind::Other => "image/jpeg",
    }
}

/// The length of the padded base64 text of `count` bytes.
pub open spec fn base64_length(count: nat) -> nat {
    (count + 2) / 3 * 4
}

/// The 64 digits of base64, in the order of their values.
pub open spec fn base64_digits() -> Seq<char> {
    "ABCDEFGHIJKLMNOPQRSTUVWXYZabcdefghijklmnopqrstuvwxyz0123456789+/"@
}

/// The base64 text of `bytes`: four digits for every three bytes, and a last
/// group padded with `=` where one or two bytes are left.
pub open spec fn base64_text(bytes: Seq<u8>) -> Seq<char>
    decreases bytes.len(),
{
    let digits = base64_digits();
    if bytes.len() == 0 {
        Seq::empty()
    } else if bytes.len() == 1 {
        let a = bytes[0] as int;
        seq![digits[a / 4], digits[a % 4 * 16], '=', '=']
    } else if bytes.len() == 2 {
        let a = bytes[0] as int;
        let b = bytes[1] as int;
        seq![digits[a / 4], digits[a % 4 * 16 + b / 16], digits[b % 16 * 4], '=']
    } else {
        let a = bytes[0] as int;
        let b = bytes[1] as int;
        let c = bytes[2] as int;
        seq![
            digits[a / 4],
            digits[a % 4 * 16 + b / 16],
            digits[b % 16 * 4 + c / 64],
            digits[c % 64],
        ] + base64_text(bytes.skip(3))
    }
}

/// Calls `Engine::encode` on `base64::engine::general_purpose::STANDARD`:
/// the standard alphabet, with padding. Input too long for the engine to
/// size its buffer is left out.
#[verifier::external_body]
fn base64_encode(bytes: &[u8]) -> (text: String)
    requires
        base64_length(bytes@.len()) <= usize::MAX,
    ensures
        text@ == base64_text(bytes@),
{
    base64::engine::general_purpose::STANDARD.encode(bytes)
}

/// The data URL of an encoded image: its media type, then its bytes in base64.
pub open spec fn data_url(kind: ImageKind, encoded: Seq<u8>) -> Seq<char> {
    "data:"@ + media_type_of(kind) + ";base64,"@ + base64_text(encoded)
}

/// Builds the data URL that carries an image: `encoded` holds the image as
/// it was written in the format that `kind` stands for.
pub fn encode_image(encoded: &[u8], kind: ImageKind) -> (url: String)
    requires
        base64_length(encoded@.len()) <= usize::MAX,
    ensures
        url@ == data_url(kind, encoded@),
{
    let text = base64_encode(encoded);
    String::from_str("data:").concat(media_type(kind)).concat(";base64,").concat(text.as_str())
}

} // verus!
