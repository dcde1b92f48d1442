use hotaru::http_value::{HttpMethod, HttpVersion, RequestPath, StatusCode};
use hotaru::start_line::{HttpStartLine, RequestStartLine, ResponseStartLine, StartLineError};

#[test]
fn requests_and_responses_are_told_apart() {
    let request = HttpStartLine::request_get("/index.html");
    assert!(request.is_request());
    assert!(!request.is_response());
    let response = HttpStartLine::response(StatusCode::NOT_FOUND());
    assert!(response.is_response());
    assert_eq!(HttpStartLine::request_post("/x").represent(), "POST /x HTTP/1.1");
    assert_eq!(response.represent(), "HTTP/1.1 404 Not Found");
}

#[test]
fn parse_tries_a_request_line_then_a_status_line() {
    assert!(HttpStartLine::parse("GET / HTTP/1.1").unwrap().is_request());
    assert!(HttpStartLine::parse("HTTP/1.1 200 OK").unwrap().is_response());
    assert_eq!(HttpStartLine::parse("what").unwrap_err(), StartLineError::Unrecognised);
    let fallback = HttpStartLine::parse_or("what", HttpStartLine::response(StatusCode::OK()));
    assert!(fallback.is_response());
    let fallback = HttpStartLine::parse_or_default("what");
    assert_eq!(fallback.represent(), "GET / HTTP/1.1");
    assert_eq!(HttpStartLine::parse_request("GET / HTTP/9.9").unwrap_err(), StartLineError::UnsupportedHttpVersion);
}

#[test]
fn request_accessors() {
    let mut line = HttpStartLine::new_request(HttpVersion::Http11, HttpMethod::PUT, "/a?x=1".to_string());
    assert!(line.try_as_request().is_some());
    assert!(line.try_as_response().is_none());
    assert_eq!(line.as_request().path, "/a?x=1");
    let other = RequestStartLine::default();
    assert_eq!(line.as_request_or(&other).path, "/a?x=1");
    assert!(matches!(line.method_or(HttpMethod::GET), HttpMethod::PUT));
    assert_eq!(line.path_or("/none"), "/a?x=1");
    assert_eq!(line.status_code_or(StatusCode::OK()), StatusCode::OK());
    assert!(line.try_status_code().is_none());
    assert!(line.try_status_code_mut().is_none());
    assert_eq!(line.url_or(RequestPath::from_string("/z")).as_str(), "/z");

    *line.http_version_mut() = HttpVersion::Http10;
    *line.path_mut() = "/b".to_string();
    *line.method_mut() = HttpMethod::DELETE;
    assert_eq!(line.represent(), "DELETE /b HTTP/1.0");
    if let Some(m) = line.try_method_mut() {
        *m = HttpMethod::GET;
    }
    if let Some(p) = line.try_path_mut() {
        p.push_str("/c");
    }
    if let Some(r) = line.try_as_request_mut() {
        r.http_version = HttpVersion::Http11;
    }
    assert_eq!(line.represent(), "GET /b/c HTTP/1.1");
    line.as_request_mut().path = "/d".to_string();
    line.set_path("/e");
    line.set_method(HttpMethod::HEAD);
    line.set_http_version(HttpVersion::Http10);
    assert_eq!(line.represent(), "HEAD /e HTTP/1.0");
    assert_eq!(line.get_url().as_str(), "/e");
    assert_eq!(line.parse_url().as_str(), "/e");
    assert!(line.try_get_url().is_some());
    assert!(line.try_parse_url().is_some());
    assert!(line.try_is_success().is_none());
    assert!(!line.is_success());
    assert!(line.clone().try_into_response().is_err());
    assert_eq!(line.clone().into_request().path, "/e");
    assert!(line.try_into_request().is_ok());
}

#[test]
fn response_accessors() {
    let mut line = HttpStartLine::new_response(HttpVersion::Http11, StatusCode::CREATED());
    assert_eq!(line.status_code(), StatusCode::CREATED());
    assert!(line.is_success());
    assert_eq!(line.try_is_success(), Some(true));
    assert_eq!(line.try_is_client_error(), Some(false));
    assert!(!line.is_server_error());
    *line.status_code_mut() = StatusCode::BAD_REQUEST();
    assert!(line.is_client_error());
    line.set_status_code(StatusCode(503));
    assert!(line.is_server_error());
    assert_eq!(line.try_is_server_error(), Some(true));
    if let Some(r) = line.try_as_response_mut() {
        r.http_version = HttpVersion::Http10;
    }
    line.as_response_mut().status_code = StatusCode(500);
    assert_eq!(line.as_response().status_code, StatusCode(500));
    let other = ResponseStartLine::default();
    assert_eq!(line.as_response_or(&other).status_code, StatusCode(500));
    assert_eq!(line.path(), "/");
    assert!(line.try_path().is_none());
    assert!(line.try_method().is_none());
    assert!(line.try_url().is_none());
    assert_eq!(line.url().as_str(), "/");
    assert!(line.try_path_mut().is_none());
    assert!(line.try_method_mut().is_none());
    assert!(line.try_as_request_mut().is_none());
    assert_eq!(line.clone().into_response().status_code, StatusCode(500));
    assert!(line.clone().try_into_request().is_err());
    assert!(line.try_into_response().is_ok());
}

#[test]
fn request_target_cache() {
    let mut line = RequestStartLine::new(HttpVersion::Http11, HttpMethod::GET, "/p".to_string());
    line.set_url(RequestPath::from_string("/q"));
    assert_eq!(line.get_url().as_str(), "/q");
    line.clear_url();
    assert!(line.url.is_none());
    assert_eq!(line.get_url().as_str(), "/p");
}
