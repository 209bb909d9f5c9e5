//! The tasks of the service, each as the request that asks for it.
//!
//! A request is described in plain values: the address, the value of the
//! `Authorization` header and the members of the JSON object that is its body.
//! Sending it is left to the caller.

use vstd::prelude::*;
use vstd::string::StringExecFns;

verus! {

/// The length of a generated caption.
pub enum CaptionDetailLevel {
    /// A short caption. This is the default.
    Short,
    /// A caption of medium length.
    Medium,
    /// A long caption.
    Long,
}

/// The word by which the service knows a length of caption.
pub open spec fn length_word(level: CaptionDetailLevel) -> Seq<char> {
    match level {
        CaptionDetailLevel::Short => "low"@,
        CaptionDetailLevel::Medium => "medium"@,
        CaptionDetailLevel::Long => "high"@,
    }
}

impl CaptionDetailLevel {
    /// The word by which the service knows this length.
    pub fn as_str(&self) -> (word: &'static str)
        ensures
            word@ == length_word(*self),
    {
        match self {
            CaptionDetailLevel::Short => "low",
            CaptionDetailLevel::Medium => "medium",
            CaptionDetailLevel::Long => "high",
        }
    }
}

impl Default for CaptionDetailLevel {
    fn default() -> (level: Self)
        ensures
            level == CaptionDetailLevel::Short,
    {
        CaptionDetailLevel::Short
    }
}

/// The answer to a caption task.
pub struct CaptionResponse {
    /// The caption.
    pub caption: String,
}

/// The answer to a question about an image.
pub struct QueryResponse {
    /// The answer.
    pub answer: String,
}

/// The answer to a detection task.
pub struct DetectResponse {
    /// The objects found, as the service describes them.
    pub objects: serde_json::Value,
}

/// The answer to a pointing task.
pub struct PointResponse {
    /// The points found, as the service describes them.
    pub points: serde_json::Value,
}

/// The value of a member of a request body.
pub enum FieldValue {
    /// A JSON string.
    Text(String),
    /// A JSON boolean.
    Flag(bool),
}

/// A member of a request body.
pub struct Field {
    /// The name of the member.
    pub name: String,
    /// Its value.
    pub value: FieldValue,
}

/// A request to the service.
pub struct ApiRequest {
    /// The address that the request is posted to.
    pub url: String,
    /// The value of the `Authorization` header.
    pub authorization: String,
    /// The members of the JSON object that is the body, in order.
    pub body: Vec<Field>,
}

/// The value of a member, as mathematics.
pub enum FieldModel {
    /// A JSON string.
    Text(Seq<char>),
    /// A JSON boolean.
    Flag(bool),
}

/// A request, as mathematics.
pub struct RequestModel {
    /// The address.
    pub url: Seq<char>,
    /// The value of the `Authorization` header.
    pub authorization: Seq<char>,
    /// The members of the body, each with its name.
    pub body: Seq<(Seq<char>, FieldModel)>,
}

impl View for FieldValue {
    type V = FieldModel;

    open spec fn view(&self) -> FieldModel {
        match self {
            FieldValue::Text(text) => FieldModel::Text(text@),
            FieldValue::Flag(flag) => FieldModel::Flag(*flag),
        }
    }
}

impl View for Field {
    type V = (Seq<char>, FieldModel);

    open spec fn view(&self) -> (Seq<char>, FieldModel) {
        (self.name@, self.value@)
    }
}

impl View for ApiRequest {
    type V = RequestModel;

    open spec fn view(&self) -> RequestModel {
        RequestModel {
            url: self.url@,
            authorization: self.authorization@,
            body: self.body@.map_values(|field: Field| field@),
        }
    }
}

/// The value of the `Authorization` header for a key.
pub open spec fn bearer(api_key: Seq<char>) -> Seq<char> {
    "Bearer "@ + api_key
}

/// The request that asks where `object` is, as points or as boxes: the two
/// tasks differ in their address only.
pub open spec fn locate_request(
    url: Seq<char>,
    api_key: Seq<char>,
    image_url: Seq<char>,
    object: Seq<char>,
) -> RequestModel {
    RequestModel {
        url,
        authorization: bearer(api_key),
        body: seq![
            ("image_url"@, FieldModel::Text(image_url)),
            ("object"@, FieldModel::Text(object)),
        ],
    }
}

/// The request that asks `question` about an image.
pub open spec fn query_request(
    api_key: Seq<char>,
    image_url: Seq<char>,
    question: Seq<char>,
    stream: bool,
) -> RequestModel {
    RequestModel {
        url: "https://api.moondream.ai/v1/query"@,
        authorization: bearer(api_key),
        body: seq![
            ("image_url"@, FieldModel::Text(image_url)),
            ("question"@, FieldModel::Text(question)),
            ("stream"@, FieldModel::Flag(stream)),
        ],
    }
}

/// The length of caption that is asked for where the caller names none.
pub open spec fn chosen_length(detail_level: Option<CaptionDetailLevel>) -> CaptionDetailLevel {
    match detail_level {
        Some(level) => level,
        None => CaptionDetailLevel::Short,
    }
}

/// The request that asks for a caption of an image.
pub open spec fn caption_request(
    api_key: Seq<char>,
    image_url: Seq<char>,
    detail_level: Option<CaptionDetailLevel>,
    stream: bool,
) -> RequestModel {
    RequestModel {
        url: "https://api.moondream.ai/v1/caption"@,
        authorization: bearer(api_key),
        body: seq![
            ("image_url"@, FieldModel::Text(image_url)),
            ("length"@, FieldModel::Text(length_word(chosen_length(detail_level)))),
            ("stream"@, FieldModel::Flag(stream)),
        ],
    }
}

fn text_field(name: &str, text: &str) -> (field: Field)
    ensures
        field@ == (name@, FieldModel::Text(text@)),
{
    Field { name: String::from_str(name), value: FieldValue::Text(String::from_str(text)) }
}

fn flag_field(name: &str, flag: bool) -> (field: Field)
    ensures
        field@ == (name@, FieldModel::Flag(flag)),
{
    Field { name: String::from_str(name), value: FieldValue::Flag(flag) }
}

/// A client of the service, as far as it is its key.
pub struct Moondream {
    api_key: String,
}

impl View for Moondream {
    type V = Seq<char>;

    /// The key.
    closed spec fn view(&self) -> Seq<char> {
        self.api_key@
    }
}

impl Moondream {
    /// A client that presents `api_key`.
    pub fn new(api_key: &str) -> (client: Self)
        ensures
            client@ == api_key@,
    {
        Moondream { api_key: String::from_str(api_key) }
    }

    /// The value of the `Authorization` header of every request.
    pub fn authorization(&self) -> (value: String)
        ensures
            value@ == bearer(self@),
    {
        String::from_str("Bearer ").concat(self.api_key.as_str())
    }

    fn locate(&self, url: &str, image_url: &str, object: &str) -> (request: ApiRequest)
        ensures
            request@ == locate_request(url@, self@, image_url@, object@),
    {
        let mut body: Vec<Field> = Vec::new();
        body.push(text_field("image_url", image_url));
        body.push(text_field("object", object));
        let request = ApiRequest {
            url: String::from_str(url),
            authorization: self.authorization(),
            body,
        };
        assert(request@.body =~= locate_request(url@, self@, image_url@, object@).body);
        request
    }

    /// The request for the points at which `object` is seen in the image
    /// that `image_url` carries.
    pub fn point(&self, image_url: &str, object: &str) -> (request: ApiRequest)
        ensures
            request@ == locate_request(
                "https://api.moondream.ai/v1/point"@,
                self@,
                image_url@,
                object@,
            ),
    {
        self.locate("https://api.moondream.ai/v1/point", image_url, object)
    }

    /// The request for the boxes around `object` in the image.
    pub fn detect(&self, image_url: &str, object: &str) -> (request: ApiRequest)
        ensures
            request@ == locate_request(
                "https://api.moondream.ai/v1/detect"@,
                self@,
                image_url@,
                object@,
            ),
    {
        self.locate("https://api.moondream.ai/v1/detect", image_url, object)
    }

    fn ask(&self, image_url: &str, question: &str, stream: bool) -> (request: ApiRequest)
        ensures
            request@ == query_request(self@, image_url@, question@, stream),
    {
        let mut body: Vec<Field> = Vec::new();
        body.push(text_field("image_url", image_url));
        body.push(text_field("question", question));
        body.push(flag_field("stream", stream));
        let request = ApiRequest {
            url: String::from_str("https://api.moondream.ai/v1/query"),
            authorization: self.authorization(),
            body,
        };
        assert(request@.body =~= query_request(self@, image_url@, question@, stream).body);
        request
    }

    /// The request for the answer to `question`, returned whole.
    pub fn query(&self, image_url: &str, question: &str) -> (request: ApiRequest)
        ensures
            request@ == query_request(self@, image_url@, question@, false),
    {
        self.ask(image_url, question, false)
    }

    /// The request for the answer to `question`, streamed chunk by chunk.
    pub fn query_stream(&self, image_url: &str, question: &str) -> (request: ApiRequest)
        ensures
            request@ == query_request(self@, image_url@, question@, true),
    {
        self.ask(image_url, question, true)
    }

    fn describe(
        &self,
        image_url: &str,
        detail_level: Option<CaptionDetailLevel>,
        stream: bool,
    ) -> (request: ApiRequest)
        ensures
            request@ == caption_request(self@, image_url@, detail_level, stream),
    {
        let level = match detail_level {
            Some(level) => level,
            None => CaptionDetailLevel::default(),
        };
        let mut body: Vec<Field> = Vec::new();
        body.push(text_field("image_url", image_url));
        body.push(text_field("length", level.as_str()));
        body.push(flag_field("stream", stream));
        let request = ApiRequest {
            url: String::from_str("https://api.moondream.ai/v1/caption"),
            authorization: self.authorization(),
            body,
        };
        assert(request@.body =~= caption_request(self@, image_url@, detail_level, stream).body);
        request
    }

    /// The request for a caption, returned whole. Without a level of detail
    /// the caption is short.
    pub fn caption(&self, image_url: &str, detail_level: Option<CaptionDetailLevel>) -> (request:
        ApiRequest)
        ensures
            request@ == caption_request(self@, image_url@, detail_level, false),
    {
        self.describe(image_url, detail_level, false)
    }

    /// The request for a caption, streamed chunk by chunk.
    pub fn caption_stream(
        &self,
        image_url: &str,
        detail_level: Option<CaptionDetailLevel>,
    ) -> (request: ApiRequest)
        ensures
            request@ == caption_request(self@, image_url@, detail_level, true),
    {
        self.describe(image_url, detail_level, true)
    }
}

} // verus!
