//! Headers of requests and responses.

use wtproxy::headers::{sanitize_response_headers, session_headers, RequestError};

fn header_value(value: &str) -> http::HeaderValue {
    http::HeaderValue::from_bytes(value.as_bytes()).unwrap()
}

#[test]
fn strips_connection_specific_headers() {
    let mut headers = http::HeaderMap::new();
    headers.insert(http::header::TRANSFER_ENCODING, header_value("chunked"));
    headers.insert(
        http::header::CONNECTION,
        header_value("keep-alive, x-custom"),
    );
    headers.insert("x-custom", header_value("1"));
    headers.insert("keep-alive", header_value("timeout=5"));
    headers.insert(
        http::header::CONTENT_TYPE,
        header_value("text/plain; charset=utf-8"),
    );

    sanitize_response_headers(&mut headers);

    assert!(headers.get(http::header::TRANSFER_ENCODING).is_none());
    assert!(headers.get(http::header::CONNECTION).is_none());
    assert!(headers.get("x-custom").is_none());
    assert!(headers.get("keep-alive").is_none());
    assert_eq!(
        headers.get(http::header::CONTENT_TYPE).unwrap(),
        "text/plain; charset=utf-8"
    );
}

#[test]
fn keeps_normal_response_headers() {
    let mut headers = http::HeaderMap::new();
    headers.insert(http::header::CONTENT_LENGTH, header_value("12"));
    headers.insert(http::header::CONTENT_TYPE, header_value("application/json"));

    sanitize_response_headers(&mut headers);

    assert_eq!(headers.len(), 2);
}

#[test]
fn strips_each_connection_specific_header() {
    for name in [
        "connection",
        "proxy-connection",
        "keep-alive",
        "transfer-encoding",
        "upgrade",
        "te",
    ] {
        let mut headers = http::HeaderMap::new();
        headers.append(name, header_value("a"));
        headers.append(name, header_value("b"));
        headers.append("x-kept", header_value("c"));
        sanitize_response_headers(&mut headers);
        assert_eq!(headers.len(), 1);
        assert_eq!(headers.get("x-kept").unwrap(), "c");
    }
}

#[test]
fn strips_what_any_connection_value_names() {
    let mut headers = http::HeaderMap::new();
    headers.append("connection", header_value("close,\tX-One ,, not a name"));
    headers.append(
        "connection",
        http::HeaderValue::from_bytes(b"x-two, \xff").unwrap(),
    );
    headers.append("connection", header_value("x-three"));
    headers.insert("x-one", header_value("1"));
    headers.insert("x-two", header_value("2"));
    headers.insert("x-three", header_value("3"));
    headers.insert("not", header_value("4"));
    sanitize_response_headers(&mut headers);
    assert!(headers.get("x-one").is_none());
    assert!(headers.get("x-three").is_none());
    // A value that is no text names nothing.
    assert_eq!(headers.get("x-two").unwrap(), "2");
    assert_eq!(headers.get("not").unwrap(), "4");
    assert_eq!(headers.len(), 2);
}

#[test]
fn a_named_header_goes_with_all_its_values() {
    let mut headers = http::HeaderMap::new();
    headers.append("connection", header_value("x-many"));
    headers.append("x-many", header_value("1"));
    headers.append("x-many", header_value("2"));
    sanitize_response_headers(&mut headers);
    assert!(headers.is_empty());
}

#[test]
fn kept_headers_keep_their_values_in_order() {
    let mut headers = http::HeaderMap::new();
    headers.append("set-cookie", header_value("a=1"));
    headers.append("te", header_value("trailers"));
    headers.append("set-cookie", header_value("b=2"));
    sanitize_response_headers(&mut headers);
    let cookies: Vec<&http::HeaderValue> = headers.get_all("set-cookie").iter().collect();
    assert_eq!(cookies, ["a=1", "b=2"]);
}

#[test]
fn stripping_twice_changes_nothing() {
    let mut headers = http::HeaderMap::new();
    headers.append("connection", header_value("x-custom"));
    headers.append("x-custom", header_value("1"));
    headers.append("content-type", header_value("text/plain"));
    sanitize_response_headers(&mut headers);
    let once = headers.clone();
    sanitize_response_headers(&mut headers);
    assert_eq!(headers, once);
}

#[test]
fn reads_the_first_value_of_the_session_headers() {
    let mut headers = http::HeaderMap::new();
    headers.append("Proxy-Protocol", header_value("tcp"));
    headers.append("proxy-protocol", header_value("udp"));
    headers.append("Proxy-Endpoint", header_value("example.com:443"));
    assert_eq!(
        session_headers(&headers),
        Ok(("tcp".to_owned(), "example.com:443".to_owned()))
    );
}

#[test]
fn names_what_a_session_request_lacks() {
    let mut headers = http::HeaderMap::new();
    assert_eq!(
        session_headers(&headers),
        Err(RequestError::MissingProtocol)
    );
    let odd = http::HeaderValue::from_bytes(b"\xe9").unwrap();
    headers.insert("proxy-protocol", odd.clone());
    assert_eq!(
        session_headers(&headers),
        Err(RequestError::ProtocolNotText)
    );
    headers.insert("proxy-protocol", header_value("tcp"));
    assert_eq!(
        session_headers(&headers),
        Err(RequestError::MissingEndpoint)
    );
    headers.insert("proxy-endpoint", odd);
    assert_eq!(
        session_headers(&headers),
        Err(RequestError::EndpointNotText)
    );
}

#[test]
fn reports_what_a_session_request_lacks() {
    assert_eq!(
        RequestError::MissingProtocol.message(),
        "missing proxy-protocol header"
    );
    assert_eq!(
        RequestError::MissingEndpoint.message(),
        "missing proxy-endpoint header"
    );
    let odd = http::HeaderValue::from_bytes(b"\xe9").unwrap();
    let report = odd.to_str().unwrap_err().to_string();
    assert_eq!(RequestError::ProtocolNotText.message(), report);
    assert_eq!(RequestError::EndpointNotText.message(), report);
}
