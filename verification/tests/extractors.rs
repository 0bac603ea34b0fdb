use http::Request;
use tower_otel::host::extract_server_address_and_port;
use tower_otel::request::RequestHead;

fn create_request_with_header(header_name: &str, header_value: &str) -> Request<()> {
    Request::builder()
        .header(header_name, header_value)
        .body(())
        .unwrap()
}

fn server_of(req: &Request<()>) -> (Option<String>, Option<String>) {
    extract_server_address_and_port(&RequestHead::from_request(req))
}

#[test]
fn test_forwarded_header_basic() {
    let req = create_request_with_header("Forwarded", "for=192.0.2.1");
    let (address, port) = server_of(&req);
    assert_eq!(address, Some("192.0.2.1".to_string()));
    assert_eq!(port, None);
}

#[test]
fn test_forwarded_header_with_port() {
    let req = create_request_with_header("Forwarded", "for=192.0.2.1:8080");
    let (address, port) = server_of(&req);
    assert_eq!(address, Some("192.0.2.1".to_string()));
    assert_eq!(port, Some("8080".to_string()));
}

#[test]
fn test_forwarded_header_multiple_values() {
    let req = create_request_with_header("Forwarded", "for=192.0.2.60;proto=http;by=203.0.113.43");
    let (address, port) = server_of(&req);
    assert_eq!(address, Some("192.0.2.60".to_string()));
    assert_eq!(port, None);
}

#[test]
fn test_forwarded_header_multiple_proxies() {
    let req = create_request_with_header("Forwarded", "for=192.0.2.43, for=198.51.100.17");
    let (address, port) = server_of(&req);
    assert_eq!(address, Some("192.0.2.43".to_string()));
    assert_eq!(port, None);
}

#[test]
fn test_x_forwarded_host_header() {
    let req = create_request_with_header("X-Forwarded-Host", "example.com:443");
    let (address, port) = server_of(&req);
    assert_eq!(address, Some("example.com".to_string()));
    assert_eq!(port, Some("443".to_string()));
}

#[test]
fn test_x_forwarded_host_header_no_port() {
    let req = create_request_with_header("X-Forwarded-Host", "example.com");
    let (address, port) = server_of(&req);
    assert_eq!(address, Some("example.com".to_string()));
    assert_eq!(port, None);
}

#[test]
fn test_authority_header_with_port() {
    let req = Request::builder()
        .uri("http://example.com:443")
        .body(())
        .unwrap();
    let (address, port) = server_of(&req);
    assert_eq!(address, Some("example.com".to_string()));
    assert_eq!(port, Some("443".to_string()));
}

#[test]
fn test_authority_header_no_port() {
    let req = Request::builder()
        .uri("http://example.com")
        .body(())
        .unwrap();
    let (address, port) = server_of(&req);
    assert_eq!(address, Some("example.com".to_string()));
    assert_eq!(port, None);
}

#[test]
fn test_host_header_with_port() {
    let req = create_request_with_header("Host", "example.com:80");
    let (address, port) = server_of(&req);
    assert_eq!(address, Some("example.com".to_string()));
    assert_eq!(port, Some("80".to_string()));
}

#[test]
fn test_host_header_no_port() {
    let req = create_request_with_header("Host", "example.com");
    let (address, port) = server_of(&req);
    assert_eq!(address, Some("example.com".to_string()));
    assert_eq!(port, None);
}
