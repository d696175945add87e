use axum_cloudflare_adapter::error::Error;
use axum_cloudflare_adapter::framework::Method;
use axum_cloudflare_adapter::host::HostRequest;
use axum_cloudflare_adapter::request::to_axum_request;

#[test]
fn it_should_convert_the_worker_request_to_an_axum_request() {
    let headers = vec![
        (b"Content-Type".to_vec(), b"text/html".to_vec()),
        (b"Cache-Control".to_vec(), b"no-cache".to_vec()),
    ];
    let request = HostRequest::new(
        b"GET".to_vec(),
        String::from("https://logankeenan.com"),
        headers,
        Vec::new(),
    );

    let translated = to_axum_request(request).unwrap();

    assert_eq!(translated.uri().as_str(), "https://logankeenan.com");
    assert!(matches!(translated.method(), Method::Get));
    assert_eq!(
        translated.get_header(&b"Content-Type".to_vec()),
        Some(&b"text/html".to_vec())
    );
    assert_eq!(
        translated.get_header(&b"Cache-Control".to_vec()),
        Some(&b"no-cache".to_vec())
    );
    assert_eq!(translated.body().len(), 0);
}

#[test]
fn it_should_convert_the_worker_request_to_an_axum_request_with_a_body() {
    let request = HostRequest::new(
        b"POST".to_vec(),
        String::from("https://logankeenan.com"),
        Vec::new(),
        b"hello world!".to_vec(),
    );

    let translated = to_axum_request(request).unwrap();

    assert!(matches!(translated.method(), Method::Post));
    let bytes = translated.into_body();
    assert_eq!(bytes, b"hello world!".to_vec());
    assert_eq!(bytes.len(), 12);
}

#[test]
fn header_names_are_matched_case_insensitively() {
    let headers = vec![(b"Content-Type".to_vec(), b"text/html".to_vec())];
    let request = HostRequest::new(
        b"GET".to_vec(),
        String::from("https://logankeenan.com"),
        headers,
        Vec::new(),
    );

    let translated = to_axum_request(request).unwrap();

    assert_eq!(
        translated.get_header(&b"content-type".to_vec()),
        Some(&b"text/html".to_vec())
    );
    assert_eq!(
        translated.get_header(&b"CONTENT-TYPE".to_vec()),
        Some(&b"text/html".to_vec())
    );
    assert_eq!(translated.get_header(&b"accept".to_vec()), None);
}

#[test]
fn duplicate_header_names_are_preserved_as_entries() {
    let headers = vec![
        (b"set-cookie".to_vec(), b"a=1".to_vec()),
        (b"set-cookie".to_vec(), b"b=2".to_vec()),
    ];
    let request = HostRequest::new(
        b"GET".to_vec(),
        String::from("https://logankeenan.com"),
        headers,
        Vec::new(),
    );

    let translated = to_axum_request(request).unwrap();

    assert_eq!(translated.headers().len(), 2);
    assert_eq!(translated.headers()[0].1, b"a=1".to_vec());
    assert_eq!(translated.headers()[1].1, b"b=2".to_vec());
    assert_eq!(
        translated.get_header(&b"set-cookie".to_vec()),
        Some(&b"a=1".to_vec())
    );
}

#[test]
fn an_unregistered_token_becomes_an_extension_method() {
    let request = HostRequest::new(
        b"PURGE".to_vec(),
        String::from("https://logankeenan.com"),
        Vec::new(),
        Vec::new(),
    );

    let translated = to_axum_request(request).unwrap();

    match translated.method() {
        Method::Extension(token) => assert_eq!(token, &b"PURGE".to_vec()),
        _ => panic!("expected an extension method"),
    }
}

#[test]
fn an_invalid_method_token_is_rejected() {
    let request = HostRequest::new(
        b"BAD METHOD".to_vec(),
        String::from("https://logankeenan.com"),
        Vec::new(),
        Vec::new(),
    );

    assert_eq!(to_axum_request(request).unwrap_err(), Error::InvalidMethod);
}

#[test]
fn an_empty_method_token_is_rejected() {
    let request = HostRequest::new(
        Vec::new(),
        String::from("https://logankeenan.com"),
        Vec::new(),
        Vec::new(),
    );

    assert_eq!(to_axum_request(request).unwrap_err(), Error::InvalidMethod);
}

#[test]
fn a_malformed_url_is_rejected() {
    let request = HostRequest::new(b"GET".to_vec(), String::new(), Vec::new(), Vec::new());

    assert_eq!(to_axum_request(request).unwrap_err(), Error::InvalidUri);
}

#[test]
fn an_invalid_header_name_is_rejected() {
    let headers = vec![(b"bad name".to_vec(), b"value".to_vec())];
    let request = HostRequest::new(
        b"GET".to_vec(),
        String::from("https://logankeenan.com"),
        headers,
        Vec::new(),
    );

    assert_eq!(
        to_axum_request(request).unwrap_err(),
        Error::InvalidHeaderName
    );
}

#[test]
fn an_invalid_header_value_is_rejected() {
    let headers = vec![(b"x-key".to_vec(), b"bad\nvalue".to_vec())];
    let request = HostRequest::new(
        b"GET".to_vec(),
        String::from("https://logankeenan.com"),
        headers,
        Vec::new(),
    );

    assert_eq!(
        to_axum_request(request).unwrap_err(),
        Error::InvalidHeaderValue
    );
}

#[test]
fn an_invalid_name_wins_over_an_invalid_value_of_the_same_pair() {
    let headers = vec![(b"bad name".to_vec(), b"bad\nvalue".to_vec())];
    let request = HostRequest::new(
        b"GET".to_vec(),
        String::from("https://logankeenan.com"),
        headers,
        Vec::new(),
    );

    assert_eq!(
        to_axum_request(request).unwrap_err(),
        Error::InvalidHeaderName
    );
}

#[test]
fn the_body_is_readable_exactly_once() {
    let mut request = HostRequest::new(
        b"GET".to_vec(),
        String::from("https://logankeenan.com"),
        Vec::new(),
        b"only once".to_vec(),
    );

    assert_eq!(request.bytes().unwrap(), b"only once".to_vec());
    assert_eq!(request.bytes().unwrap_err(), Error::WorkerError);
}

#[test]
fn a_request_whose_body_was_already_read_is_rejected() {
    let mut request = HostRequest::new(
        b"GET".to_vec(),
        String::from("https://logankeenan.com"),
        Vec::new(),
        b"gone".to_vec(),
    );
    let _ = request.bytes().unwrap();

    assert_eq!(to_axum_request(request).unwrap_err(), Error::WorkerError);
}

#[test]
fn every_registered_method_token_maps_to_its_variant() {
    let cases: Vec<(&[u8], fn(&Method) -> bool)> = vec![
        (b"GET", |m| matches!(m, Method::Get)),
        (b"HEAD", |m| matches!(m, Method::Head)),
        (b"POST", |m| matches!(m, Method::Post)),
        (b"PUT", |m| matches!(m, Method::Put)),
        (b"DELETE", |m| matches!(m, Method::Delete)),
        (b"CONNECT", |m| matches!(m, Method::Connect)),
        (b"OPTIONS", |m| matches!(m, Method::Options)),
        (b"TRACE", |m| matches!(m, Method::Trace)),
        (b"PATCH", |m| matches!(m, Method::Patch)),
        (b"QUERY", |m| matches!(m, Method::Query)),
    ];
    for (token, is_expected) in cases {
        let request = HostRequest::new(
            token.to_vec(),
            String::from("https://logankeenan.com"),
            Vec::new(),
            Vec::new(),
        );
        let translated = to_axum_request(request).unwrap();
        assert!(is_expected(translated.method()), "wrong variant for {:?}", token);
    }
}

#[test]
fn a_lower_case_method_token_is_an_extension_not_a_variant() {
    let request = HostRequest::new(
        b"get".to_vec(),
        String::from("https://logankeenan.com"),
        Vec::new(),
        Vec::new(),
    );

    let translated = to_axum_request(request).unwrap();

    assert!(matches!(translated.method(), Method::Extension(_)));
}

#[test]
fn a_header_name_longer_than_the_cap_is_rejected() {
    let long_name = vec![b'a'; 65536];
    let headers = vec![(long_name, b"value".to_vec())];
    let request = HostRequest::new(
        b"GET".to_vec(),
        String::from("https://logankeenan.com"),
        headers,
        Vec::new(),
    );

    assert_eq!(
        to_axum_request(request).unwrap_err(),
        Error::InvalidHeaderName
    );
}

#[test]
fn a_header_name_at_the_cap_is_accepted() {
    let long_name = vec![b'a'; 65535];
    let headers = vec![(long_name.clone(), b"value".to_vec())];
    let request = HostRequest::new(
        b"GET".to_vec(),
        String::from("https://logankeenan.com"),
        headers,
        Vec::new(),
    );

    let translated = to_axum_request(request).unwrap();

    assert_eq!(translated.get_header(&long_name), Some(&b"value".to_vec()));
}
