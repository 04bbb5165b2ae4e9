use mx::api::{
    expects_body, handle_response, handle_status, ApiError, Body, Checksums, Config, Header,
    JsonField, JsonValue, Method, Reply, Request, Upload, User, PACING_MILLIS,
};

fn config() -> Config {
    Config { host: "https://example.test".to_string(), api_token: "secret".to_string() }
}

fn json_headers() -> Vec<Header> {
    vec![
        Header { name: "content-type".to_string(), value: "application/json".to_string() },
        Header { name: "authorization".to_string(), value: "Bearer secret".to_string() },
    ]
}

fn text(name: &str, value: &str) -> JsonField {
    JsonField { name: name.to_string(), value: JsonValue::Text(value.to_string()) }
}

#[test]
fn config_new_uses_public_host() {
    let config = Config::new("token".to_string());
    assert_eq!(config.host, "https://spin-archive.org");
    assert_eq!(config.api_token, "token");
}

#[test]
fn identity_request_is_a_get_with_bearer_token() {
    let request = User::get(&config());
    assert_eq!(
        request,
        Request {
            method: Method::Get,
            url: "https://example.test/api/v1/me".to_string(),
            headers: json_headers(),
            body: Body::Empty,
            delay_millis: 100,
        }
    );
}

#[test]
fn duplicate_check_request_lists_every_checksum_once() {
    let checksums = vec!["aa".to_string(), "bb".to_string()];
    let request = Checksums::check(&checksums, &config());
    assert_eq!(request.method, Method::Post);
    assert_eq!(request.url, "https://example.test/api/v1/uploads/checksum");
    assert_eq!(request.headers, json_headers());
    assert_eq!(
        request.body,
        Body::Json(vec![JsonField {
            name: "checksums".to_string(),
            value: JsonValue::TextList(vec!["aa".to_string(), "bb".to_string()]),
        }])
    );
    assert_eq!(request.delay_millis, PACING_MILLIS);
}

#[test]
fn duplicate_check_request_for_no_checksum() {
    let request = Checksums::check(&Vec::new(), &config());
    assert_eq!(
        request.body,
        Body::Json(vec![JsonField {
            name: "checksums".to_string(),
            value: JsonValue::TextList(Vec::new()),
        }])
    );
}

#[test]
fn reserve_request_carries_name_length_and_fingerprint() {
    let request = Upload::new(&config(), "clip.mp4", 1234, "0123abcd");
    assert_eq!(request.method, Method::Post);
    assert_eq!(request.url, "https://example.test/api/v1/uploads");
    assert_eq!(request.headers, json_headers());
    assert_eq!(
        request.body,
        Body::Json(vec![
            text("file_name", "clip.mp4"),
            JsonField { name: "content_length".to_string(), value: JsonValue::Integer(1234) },
            text("md5_hash", "0123abcd"),
        ])
    );
    assert_eq!(request.delay_millis, 100);
}

#[test]
fn reserve_request_reads_the_length_as_signed() {
    let request = Upload::new(&config(), "clip.mp4", u64::MAX, "00");
    match request.body {
        Body::Json(fields) => assert_eq!(fields[1].value, JsonValue::Integer(-1)),
        _ => panic!("a reservation carries a JSON body"),
    }
    let request = Upload::new(&config(), "clip.mp4", i64::MAX as u64, "00");
    match request.body {
        Body::Json(fields) => assert_eq!(fields[1].value, JsonValue::Integer(i64::MAX)),
        _ => panic!("a reservation carries a JSON body"),
    }
}

#[test]
fn upload_request_is_a_put_of_the_file() {
    let request = Upload::upload_file("/videos/clip.mp4", "https://store.test/slot/1");
    assert_eq!(
        request,
        Request {
            method: Method::Put,
            url: "https://store.test/slot/1".to_string(),
            headers: Vec::new(),
            body: Body::File("/videos/clip.mp4".to_string()),
            delay_millis: 100,
        }
    );
}

#[test]
fn finalize_request_carries_the_metadata() {
    let request = Upload::finalize(&config(), "remote-7", "a b", "somewhere", "a clip");
    assert_eq!(request.method, Method::Post);
    assert_eq!(request.url, "https://example.test/api/v1/uploads/finalize");
    assert_eq!(request.headers, json_headers());
    assert_eq!(
        request.body,
        Body::Json(vec![
            text("id", "remote-7"),
            text("tags", "a b"),
            text("source", "somewhere"),
            text("description", "a clip"),
        ])
    );
    assert_eq!(request.delay_millis, 100);
}

#[test]
fn forbidden_is_api_key_error_whatever_the_body() {
    let with_body: Result<u8, ApiError> =
        handle_response(Reply::Answered { status: 403, body: Some(7u8) });
    assert_eq!(with_body, Err(ApiError::ApiKeyError));
    let without_body: Result<u8, ApiError> =
        handle_response(Reply::Answered { status: 403, body: None });
    assert_eq!(without_body, Err(ApiError::ApiKeyError));
    assert_eq!(handle_status(Some(403)), Err(ApiError::ApiKeyError));
}

#[test]
fn success_with_a_decoded_body_is_the_body() {
    assert_eq!(handle_response(Reply::Answered { status: 200, body: Some("ok") }), Ok("ok"));
    assert_eq!(handle_response(Reply::Answered { status: 299, body: Some(5u8) }), Ok(5u8));
}

#[test]
fn success_without_a_decoded_body_is_json_error() {
    let result: Result<u8, ApiError> = handle_response(Reply::Answered { status: 200, body: None });
    assert_eq!(result, Err(ApiError::JsonError));
}

#[test]
fn other_statuses_are_not_found() {
    for status in [100u16, 199, 300, 301, 400, 401, 404, 500, 503, 999] {
        let result: Result<u8, ApiError> =
            handle_response(Reply::Answered { status, body: Some(1u8) });
        assert_eq!(result, Err(ApiError::NotFound));
    }
}

#[test]
fn no_response_is_server_unavailable() {
    let result: Result<u8, ApiError> = handle_response(Reply::Unreachable);
    assert_eq!(result, Err(ApiError::ServerUnavailable));
    assert_eq!(handle_status(None), Err(ApiError::ServerUnavailable));
}

#[test]
fn transfer_status_is_classified_without_a_body() {
    assert_eq!(handle_status(Some(200)), Ok(()));
    assert_eq!(handle_status(Some(204)), Ok(()));
    assert_eq!(handle_status(Some(500)), Err(ApiError::NotFound));
}

#[test]
fn only_a_success_has_a_body_worth_decoding() {
    assert!(expects_body(200));
    assert!(expects_body(299));
    assert!(!expects_body(199));
    assert!(!expects_body(300));
    assert!(!expects_body(403));
}

#[test]
fn each_error_has_its_text() {
    assert_eq!(ApiError::NotFound.message(), "Resource was not found");
    assert_eq!(ApiError::ApiKeyError.message(), "API key was not valid");
    assert_eq!(ApiError::JsonError.message(), "Error decoding JSON");
    assert_eq!(ApiError::ServerUnavailable.message(), "Server is unreachable at this time");
}
