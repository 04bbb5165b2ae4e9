//! The client side of the archive's HTTP interface.
//!
//! Nothing here talks to the network. Each operation of the interface is a
//! function that describes the request to send as a [`Request`], and
//! [`handle_response`] classifies what came back. The caller sends the
//! request and decodes the body.

use vstd::prelude::*;

verus! {

/// Milliseconds to wait before a request is sent, so that the archive is not
/// hit in bursts.
pub const PACING_MILLIS: u64 = 100;

/// The status with which the archive rejects a credential.
pub const STATUS_FORBIDDEN: u16 = 403;

/// Configuration used for making API requests.
#[derive(Debug, Clone, PartialEq, Eq)]
pub struct Config {
    pub host: String,
    pub api_token: String,
}

/// What a [`Config`] holds, as sequences of characters.
pub struct ConfigView {
    pub host: Seq<char>,
    pub api_token: Seq<char>,
}

impl View for Config {
    type V = ConfigView;

    open spec fn view(&self) -> ConfigView {
        ConfigView { host: self.host@, api_token: self.api_token@ }
    }
}

/// The host every configuration starts with.
pub open spec fn default_host() -> Seq<char> {
    "https://spin-archive.org"@
}

impl Config {
    /// A configuration for the archive's public host with the given token.
    pub fn new(api_token: String) -> (config: Self)
        ensures
            config@ == (ConfigView { host: default_host(), api_token: api_token@ }),
    {
        Self { api_token, host: "https://spin-archive.org".to_owned() }
    }
}

/// The ways in which a request to the archive can fail. Every failed request
/// is exactly one of these.
#[derive(Debug, Clone, Copy, PartialEq, Eq, Structural)]
pub enum ApiError {
    /// The server answered with a status that is neither a success nor a
    /// rejected credential.
    NotFound,
    /// The server rejected the credential.
    ApiKeyError,
    /// The body of the answer did not have the expected shape.
    JsonError,
    /// No answer arrived: the connection failed or timed out.
    ServerUnavailable,
}

impl ApiError {
    /// The text shown to the user for each error.
    pub open spec fn message_text(self) -> Seq<char> {
        match self {
            ApiError::NotFound => "Resource was not found"@,
            ApiError::ApiKeyError => "API key was not valid"@,
            ApiError::JsonError => "Error decoding JSON"@,
            ApiError::ServerUnavailable => "Server is unreachable at this time"@,
        }
    }

    /// The text shown to the user for this error.
    pub fn message(&self) -> (text: String)
        ensures
            text@ == self.message_text(),
    {
        match self {
            ApiError::NotFound => "Resource was not found".to_owned(),
            ApiError::ApiKeyError => "API key was not valid".to_owned(),
            ApiError::JsonError => "Error decoding JSON".to_owned(),
            ApiError::ServerUnavailable => "Server is unreachable at this time".to_owned(),
        }
    }
}

/// The identity that a token belongs to.
#[derive(Debug, Clone, PartialEq, Eq)]
pub struct User {
    pub id: i32,
    pub username: String,
    pub role: String,
}

pub struct UserView {
    pub id: i32,
    pub username: Seq<char>,
    pub role: Seq<char>,
}

impl View for User {
    type V = UserView;

    open spec fn view(&self) -> UserView {
        UserView { id: self.id, username: self.username@, role: self.role@ }
    }
}

/// A set of fingerprints, as sent to and returned by the duplicate check.
#[derive(Debug, Clone, PartialEq, Eq)]
pub struct Checksums {
    pub checksums: Vec<String>,
}

/// An upload slot of the archive: its identifier and the address that takes
/// the file's bytes.
#[derive(Debug, Clone, PartialEq, Eq)]
pub struct Upload {
    pub id: String,
    pub url: String,
}

pub struct UploadView {
    pub id: Seq<char>,
    pub url: Seq<char>,
}

impl View for Upload {
    type V = UploadView;

    open spec fn view(&self) -> UploadView {
        UploadView { id: self.id@, url: self.url@ }
    }
}

/// The character sequences of a sequence of strings.
pub open spec fn texts(strings: Seq<String>) -> Seq<Seq<char>> {
    strings.map_values(|s: String| s@)
}

#[derive(Debug, Clone, Copy, PartialEq, Eq, Structural)]
pub enum Method {
    Get,
    Post,
    Put,
}

/// One header line of a request.
#[derive(Debug, PartialEq, Eq)]
pub struct Header {
    pub name: String,
    pub value: String,
}

impl View for Header {
    type V = (Seq<char>, Seq<char>);

    open spec fn view(&self) -> (Seq<char>, Seq<char>) {
        (self.name@, self.value@)
    }
}

/// A value of a JSON object sent to the archive.
#[derive(Debug, PartialEq, Eq)]
pub enum JsonValue {
    Text(String),
    Integer(i64),
    TextList(Vec<String>),
}

pub enum JsonValueView {
    Text(Seq<char>),
    Integer(i64),
    TextList(Seq<Seq<char>>),
}

impl View for JsonValue {
    type V = JsonValueView;

    open spec fn view(&self) -> JsonValueView {
        match self {
            JsonValue::Text(s) => JsonValueView::Text(s@),
            JsonValue::Integer(n) => JsonValueView::Integer(*n),
            JsonValue::TextList(list) => JsonValueView::TextList(texts(list@)),
        }
    }
}

/// One member of a JSON object sent to the archive.
#[derive(Debug, PartialEq, Eq)]
pub struct JsonField {
    pub name: String,
    pub value: JsonValue,
}

impl View for JsonField {
    type V = (Seq<char>, JsonValueView);

    open spec fn view(&self) -> (Seq<char>, JsonValueView) {
        (self.name@, self.value@)
    }
}

/// What a request carries.
#[derive(Debug, PartialEq, Eq)]
pub enum Body {
    /// Nothing.
    Empty,
    /// A JSON object with these members, in this order.
    Json(Vec<JsonField>),
    /// The bytes of the file at this path.
    File(String),
}

pub enum BodyView {
    Empty,
    Json(Seq<(Seq<char>, JsonValueView)>),
    File(Seq<char>),
}

impl View for Body {
    type V = BodyView;

    open spec fn view(&self) -> BodyView {
        match self {
            Body::Empty => BodyView::Empty,
            Body::Json(fields) => BodyView::Json(fields@.map_values(|f: JsonField| f@)),
            Body::File(path) => BodyView::File(path@),
        }
    }
}

/// A request to the archive, ready to be sent by the caller.
#[derive(Debug, PartialEq, Eq)]
pub struct Request {
    pub method: Method,
    pub url: String,
    pub headers: Vec<Header>,
    pub body: Body,
    /// Milliseconds to wait before sending.
    pub delay_millis: u64,
}

pub struct RequestView {
    pub method: Method,
    pub url: Seq<char>,
    pub headers: Seq<(Seq<char>, Seq<char>)>,
    pub body: BodyView,
    pub delay_millis: u64,
}

impl View for Request {
    type V = RequestView;

    open spec fn view(&self) -> RequestView {
        RequestView {
            method: self.method,
            url: self.url@,
            headers: self.headers@.map_values(|h: Header| h@),
            body: self.body@,
            delay_millis: self.delay_millis,
        }
    }
}

/// The two headers of every call that speaks JSON: the content type, and the
/// token as a bearer credential.
pub open spec fn json_headers(api_token: Seq<char>) -> Seq<(Seq<char>, Seq<char>)> {
    seq![
        ("content-type"@, "application/json"@),
        ("authorization"@, "Bearer "@ + api_token),
    ]
}

/// The request that asks the archive who the token belongs to.
pub open spec fn identity_request(config: ConfigView) -> RequestView {
    RequestView {
        method: Method::Get,
        url: config.host + "/api/v1/me"@,
        headers: json_headers(config.api_token),
        body: BodyView::Empty,
        delay_millis: PACING_MILLIS,
    }
}

/// The request that asks which of `checksums` the archive already holds.
pub open spec fn duplicate_check_request(
    checksums: Seq<Seq<char>>,
    config: ConfigView,
) -> RequestView {
    RequestView {
        method: Method::Post,
        url: config.host + "/api/v1/uploads/checksum"@,
        headers: json_headers(config.api_token),
        body: BodyView::Json(seq![("checksums"@, JsonValueView::TextList(checksums))]),
        delay_millis: PACING_MILLIS,
    }
}

/// The request that reserves an upload slot for a file.
pub open spec fn reserve_request(
    config: ConfigView,
    file_name: Seq<char>,
    content_length: i64,
    md5_hash: Seq<char>,
) -> RequestView {
    RequestView {
        method: Method::Post,
        url: config.host + "/api/v1/uploads"@,
        headers: json_headers(config.api_token),
        body: BodyView::Json(
            seq![
                ("file_name"@, JsonValueView::Text(file_name)),
                ("content_length"@, JsonValueView::Integer(content_length)),
                ("md5_hash"@, JsonValueView::Text(md5_hash)),
            ],
        ),
        delay_millis: PACING_MILLIS,
    }
}

/// The request that sends the bytes of the file at `path` to a reserved slot.
pub open spec fn upload_request(path: Seq<char>, url: Seq<char>) -> RequestView {
    RequestView {
        method: Method::Put,
        url,
        headers: Seq::empty(),
        body: BodyView::File(path),
        delay_millis: PACING_MILLIS,
    }
}

/// The request that completes an upload with the file's metadata.
pub open spec fn finalize_request(
    config: ConfigView,
    id: Seq<char>,
    tags: Seq<char>,
    source: Seq<char>,
    description: Seq<char>,
) -> RequestView {
    RequestView {
        method: Method::Post,
        url: config.host + "/api/v1/uploads/finalize"@,
        headers: json_headers(config.api_token),
        body: BodyView::Json(
            seq![
                ("id"@, JsonValueView::Text(id)),
                ("tags"@, JsonValueView::Text(tags)),
                ("source"@, JsonValueView::Text(source)),
                ("description"@, JsonValueView::Text(description)),
            ],
        ),
        delay_millis: PACING_MILLIS,
    }
}

/// A copy of each string of `list`, in order.
fn clone_texts(list: &Vec<String>) -> (copy: Vec<String>)
    ensures
        texts(copy@) == texts(list@),
{
    let mut copy: Vec<String> = Vec::new();
    let mut i: usize = 0;
    while i < list.len()
        invariant
            i <= list.len(),
            copy@.len() == i,
            forall|k: int| 0 <= k < i ==> copy@[k]@ == list@[k]@,
        decreases list.len() - i,
    {
        copy.push(list[i].clone());
        i += 1;
    }
    assert(texts(copy@) =~= texts(list@));
    copy
}

fn endpoint(config: &Config, route: &str) -> (url: String)
    ensures
        url@ == config.host@ + route@,
{
    config.host.clone().concat(route)
}

fn headers_for(config: &Config) -> (headers: Vec<Header>)
    ensures
        headers@.map_values(|h: Header| h@) == json_headers(config.api_token@),
{
    let mut headers: Vec<Header> = Vec::new();
    headers.push(
        Header { name: "content-type".to_owned(), value: "application/json".to_owned() },
    );
    headers.push(
        Header {
            name: "authorization".to_owned(),
            value: "Bearer ".to_owned().concat(config.api_token.as_str()),
        },
    );
    assert(headers@.map_values(|h: Header| h@) =~= json_headers(config.api_token@));
    headers
}

fn text_field(name: &str, value: &str) -> (field: JsonField)
    ensures
        field@ == (name@, JsonValueView::Text(value@)),
{
    JsonField { name: name.to_owned(), value: JsonValue::Text(value.to_owned()) }
}

impl User {
    /// The request that looks up the identity behind the configured token.
    pub fn get(config: &Config) -> (request: Request)
        ensures
            request@ == identity_request(config@),
    {
        let request = Request {
            method: Method::Get,
            url: endpoint(config, "/api/v1/me"),
            headers: headers_for(config),
            body: Body::Empty,
            delay_millis: PACING_MILLIS,
        };
        request
    }
}

impl Checksums {
    /// The request that checks all of `checksums` for duplicates in one
    /// round trip.
    pub fn check(checksums: &Vec<String>, config: &Config) -> (request: Request)
        ensures
            request@ == duplicate_check_request(texts(checksums@), config@),
    {
        let mut fields: Vec<JsonField> = Vec::new();
        fields.push(
            JsonField {
                name: "checksums".to_owned(),
                value: JsonValue::TextList(clone_texts(checksums)),
            },
        );
        assert(fields@.map_values(|f: JsonField| f@) =~= seq![
            ("checksums"@, JsonValueView::TextList(texts(checksums@))),
        ]);
        Request {
            method: Method::Post,
            url: endpoint(config, "/api/v1/uploads/checksum"),
            headers: headers_for(config),
            body: Body::Json(fields),
            delay_millis: PACING_MILLIS,
        }
    }
}

/// The length of a file as the archive takes it: the low 64 bits of `size`
/// read as a signed number. It equals `size` for every size below 2^63.
pub open spec fn content_length_of(size: u64) -> i64 {
    size as i64
}

impl Upload {
    /// The request that reserves an upload slot for a file of `size` bytes
    /// with the given name and fingerprint.
    pub fn new(config: &Config, file_name: &str, size: u64, md5_hash: &str) -> (request: Request)
        ensures
            request@ == reserve_request(config@, file_name@, content_length_of(size), md5_hash@),
    {
        let mut fields: Vec<JsonField> = Vec::new();
        fields.push(text_field("file_name", file_name));
        fields.push(
            JsonField {
                name: "content_length".to_owned(),
                value: JsonValue::Integer(
                    #[verifier::truncate]
                    (size as i64),
                ),
            },
        );
        fields.push(text_field("md5_hash", md5_hash));
        assert(fields@.map_values(|f: JsonField| f@) =~= seq![
            ("file_name"@, JsonValueView::Text(file_name@)),
            ("content_length"@, JsonValueView::Integer(content_length_of(size))),
            ("md5_hash"@, JsonValueView::Text(md5_hash@)),
        ]);
        Request {
            method: Method::Post,
            url: endpoint(config, "/api/v1/uploads"),
            headers: headers_for(config),
            body: Body::Json(fields),
            delay_millis: PACING_MILLIS,
        }
    }

    /// The request that sends the file at `path` to the reserved address.
    pub fn upload_file(path: &str, url: &str) -> (request: Request)
        ensures
            request@ == upload_request(path@, url@),
    {
        let headers: Vec<Header> = Vec::new();
        assert(headers@.map_values(|h: Header| h@) =~= Seq::<(Seq<char>, Seq<char>)>::empty());
        Request {
            method: Method::Put,
            url: url.to_owned(),
            headers,
            body: Body::File(path.to_owned()),
            delay_millis: PACING_MILLIS,
        }
    }

    /// The request that completes the upload `id` with its metadata.
    pub fn finalize(config: &Config, id: &str, tags: &str, source: &str, description: &str) -> (request:
        Request)
        ensures
            request@ == finalize_request(config@, id@, tags@, source@, description@),
    {
        let mut fields: Vec<JsonField> = Vec::new();
        fields.push(text_field("id", id));
        fields.push(text_field("tags", tags));
        fields.push(text_field("source", source));
        fields.push(text_field("description", description));
        assert(fields@.map_values(|f: JsonField| f@) =~= seq![
            ("id"@, JsonValueView::Text(id@)),
            ("tags"@, JsonValueView::Text(tags@)),
            ("source"@, JsonValueView::Text(source@)),
            ("description"@, JsonValueView::Text(description@)),
        ]);
        Request {
            method: Method::Post,
            url: endpoint(config, "/api/v1/uploads/finalize"),
            headers: headers_for(config),
            body: Body::Json(fields),
            delay_millis: PACING_MILLIS,
        }
    }
}

/// What came back for a request.
#[derive(Debug, PartialEq, Eq)]
pub enum Reply<T> {
    /// No HTTP response arrived.
    Unreachable,
    /// The server answered with `status`. `body` is the decoded body, or
    /// `None` where it was not read or did not have the expected shape.
    Answered { status: u16, body: Option<T> },
}

/// Whether `status` reports success.
pub open spec fn is_success(status: u16) -> bool {
    200 <= status < 300
}

/// The outcome of a request, given what came back for it.
pub open spec fn response_result<T>(reply: Reply<T>) -> Result<T, ApiError> {
    match reply {
        Reply::Unreachable => Err(ApiError::ServerUnavailable),
        Reply::Answered { status, body } => {
            if status == STATUS_FORBIDDEN {
                Err(ApiError::ApiKeyError)
            } else if is_success(status) {
                match body {
                    Some(value) => Ok(value),
                    None => Err(ApiError::JsonError),
                }
            } else {
                Err(ApiError::NotFound)
            }
        },
    }
}

/// Whether the body of an answer with `status` is worth decoding: only a
/// success carries one that is looked at.
pub fn expects_body(status: u16) -> (expected: bool)
    ensures
        expected == (is_success(status) && status != STATUS_FORBIDDEN),
{
    200 <= status && status < 300
}

/// Classifies what came back for a request.
///
/// A missing response is `ServerUnavailable`; status 403 is `ApiKeyError`
/// whatever the body holds; any other status outside 200..=299 is `NotFound`;
/// a success whose body could not be decoded is `JsonError`; a success with a
/// decoded body is that body.
pub fn handle_response<T>(reply: Reply<T>) -> (result: Result<T, ApiError>)
    ensures
        result == response_result(reply),
{
    match reply {
        Reply::Unreachable => Err(ApiError::ServerUnavailable),
        Reply::Answered { status, body } => {
            if status == STATUS_FORBIDDEN {
                Err(ApiError::ApiKeyError)
            } else if 200 <= status && status < 300 {
                match body {
                    Some(value) => Ok(value),
                    None => Err(ApiError::JsonError),
                }
            } else {
                Err(ApiError::NotFound)
            }
        },
    }
}

/// Classifies what came back for a request whose answer carries no body that
/// matters, such as the transfer of a file's bytes: `status` is `None` where
/// no response arrived.
pub fn handle_status(status: Option<u16>) -> (result: Result<(), ApiError>)
    ensures
        result == match status {
            Some(code) => response_result(Reply::Answered { status: code, body: Some(()) }),
            None => response_result(Reply::<()>::Unreachable),
        },
{
    match status {
        Some(code) => handle_response(Reply::Answered { status: code, body: Some(()) }),
        None => handle_response(Reply::<()>::Unreachable),
    }
}

/// A rejected credential is reported as such whatever else the answer holds.
pub proof fn lemma_forbidden_is_api_key_error<T>(body: Option<T>)
    ensures
        response_result(Reply::Answered { status: STATUS_FORBIDDEN, body })
            == Err::<T, ApiError>(ApiError::ApiKeyError),
{
}

/// Every request has exactly one outcome, and a failure is `ApiKeyError`
/// exactly for status 403, `ServerUnavailable` exactly where no response
/// arrived, `JsonError` exactly for a success without a decoded body, and
/// `NotFound` exactly for the remaining statuses.
pub proof fn lemma_error_taxonomy<T>(reply: Reply<T>)
    ensures
        response_result(reply) == Err::<T, ApiError>(ApiError::ServerUnavailable)
            <==> reply is Unreachable,
        response_result(reply) == Err::<T, ApiError>(ApiError::ApiKeyError) <==> (reply matches Reply::Answered {
            status,
            ..
        } && status == STATUS_FORBIDDEN),
        response_result(reply) == Err::<T, ApiError>(ApiError::NotFound) <==> (reply matches Reply::Answered {
            status,
            ..
        } && status != STATUS_FORBIDDEN && !is_success(status)),
        response_result(reply) == Err::<T, ApiError>(ApiError::JsonError) <==> (reply matches Reply::Answered {
            status,
            body,
        } && is_success(status) && body is None),
        response_result(reply) is Ok <==> (reply matches Reply::Answered { status, body }
            && is_success(status) && body is Some),
{
}

} // verus!
