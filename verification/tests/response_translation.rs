use axum_cloudflare_adapter::error::Error;
use axum_cloudflare_adapter::framework::{Chunk, FrameworkResponse};
use axum_cloudflare_adapter::host::Headers;
use axum_cloudflare_adapter::response::to_worker_response;
use axum_cloudflare_adapter::status_in_range;

#[test]
fn it_should_convert_the_axum_response_to_a_worker_response() {
    let headers = vec![(
        b"content-type".to_vec(),
        b"text/html; charset=utf-8".to_vec(),
    )];
    let body = vec![Chunk::Data(b"Hello World!".to_vec())];
    let response = FrameworkResponse::new(200, headers, body);

    let translated = to_worker_response(response).unwrap();

    assert_eq!(translated.status_code(), 200);
    assert_eq!(
        translated.headers().get(&b"Content-Type".to_vec()),
        Some(&b"text/html; charset=utf-8".to_vec())
    );
    assert_eq!(translated.body(), &b"Hello World!".to_vec());
}

#[test]
fn it_should_convert_the_axum_response_to_a_worker_response_with_an_empty_body() {
    let headers = vec![(b"content-type".to_vec(), b"text/html".to_vec())];
    let response = FrameworkResponse::new(200, headers, Vec::new());

    let translated = to_worker_response(response).unwrap();

    assert_eq!(translated.status_code(), 200);
    assert_eq!(
        translated.headers().get(&b"Content-Type".to_vec()),
        Some(&b"text/html".to_vec())
    );
    assert_eq!(translated.body().len(), 0);
}

#[test]
fn body_chunks_are_concatenated_in_order() {
    let body = vec![
        Chunk::Data(b"hello ".to_vec()),
        Chunk::Data(Vec::new()),
        Chunk::Data(b"world".to_vec()),
    ];
    let response = FrameworkResponse::new(201, Vec::new(), body);

    let translated = to_worker_response(response).unwrap();

    assert_eq!(translated.status_code(), 201);
    assert_eq!(translated.body(), &b"hello world".to_vec());
}

#[test]
fn a_failing_chunk_pull_is_reported() {
    let body = vec![Chunk::Data(b"partial".to_vec()), Chunk::Failure];
    let response = FrameworkResponse::new(200, Vec::new(), body);

    assert_eq!(to_worker_response(response).unwrap_err(), Error::AxumError);
}

#[test]
fn a_header_value_without_a_text_form_is_reported() {
    let headers = vec![(b"x-raw".to_vec(), vec![200u8, 201u8])];
    let response = FrameworkResponse::new(200, headers, Vec::new());

    assert_eq!(to_worker_response(response).unwrap_err(), Error::ToStrError);
}

#[test]
fn a_repeated_name_keeps_its_last_value() {
    let headers = vec![
        (b"x-tag".to_vec(), b"first".to_vec()),
        (b"X-Tag".to_vec(), b"second".to_vec()),
    ];
    let response = FrameworkResponse::new(200, headers, Vec::new());

    let translated = to_worker_response(response).unwrap();

    assert_eq!(
        translated.headers().get(&b"x-tag".to_vec()),
        Some(&b"second".to_vec())
    );
    assert_eq!(translated.headers().entries().len(), 1);
}

#[test]
fn the_host_map_sets_and_gets_case_insensitively() {
    let mut headers = Headers::new();
    headers
        .set(&b"Content-Type".to_vec(), &b"text/plain".to_vec())
        .unwrap();

    assert_eq!(
        headers.get(&b"content-type".to_vec()),
        Some(&b"text/plain".to_vec())
    );
    assert_eq!(
        headers.get(&b"CONTENT-TYPE".to_vec()),
        Some(&b"text/plain".to_vec())
    );
    assert_eq!(headers.get(&b"accept".to_vec()), None);
}

#[test]
fn the_host_map_refuses_an_invalid_name_or_value() {
    let mut headers = Headers::new();

    assert_eq!(
        headers
            .set(&b"bad name".to_vec(), &b"value".to_vec())
            .unwrap_err(),
        Error::WorkerError
    );
    assert_eq!(
        headers
            .set(&b"x-key".to_vec(), &b"bad\0value".to_vec())
            .unwrap_err(),
        Error::WorkerError
    );
    assert_eq!(headers.entries().len(), 0);
}

#[test]
fn the_status_range_matches_the_framework_model() {
    assert!(!status_in_range(99));
    assert!(status_in_range(100));
    assert!(status_in_range(200));
    assert!(status_in_range(599));
    assert!(!status_in_range(600));
}

#[test]
fn a_replaced_value_keeps_the_name_in_its_first_position() {
    let mut headers = Headers::new();
    headers.set(&b"a".to_vec(), &b"1".to_vec()).unwrap();
    headers.set(&b"b".to_vec(), &b"2".to_vec()).unwrap();
    headers.set(&b"A".to_vec(), &b"3".to_vec()).unwrap();

    let entries = headers.entries();
    assert_eq!(entries.len(), 2);
    assert_eq!(entries[0], (b"a".to_vec(), b"3".to_vec()));
    assert_eq!(entries[1], (b"b".to_vec(), b"2".to_vec()));
}

#[test]
fn a_tab_in_a_header_value_survives_translation() {
    let headers = vec![(b"x-note".to_vec(), b"a\tb".to_vec())];
    let response = FrameworkResponse::new(204, headers, Vec::new());

    let translated = to_worker_response(response).unwrap();

    assert_eq!(translated.status_code(), 204);
    assert_eq!(
        translated.headers().get(&b"x-note".to_vec()),
        Some(&b"a\tb".to_vec())
    );
}

#[test]
fn the_host_map_refuses_a_name_longer_than_the_cap() {
    let mut headers = Headers::new();
    let long_name = vec![b'a'; 65536];

    assert_eq!(
        headers.set(&long_name, &b"value".to_vec()).unwrap_err(),
        Error::WorkerError
    );
    assert_eq!(headers.entries().len(), 0);
}
