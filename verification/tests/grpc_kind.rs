use griffin::grpc_kind::{BodyFrame, GrpcKind, GrpcKindPlain, GrpcKindWeb};
use http::header::{HeaderName, HeaderValue, CONTENT_LENGTH, CONTENT_TYPE, HOST};
use http::HeaderMap;

fn block(fields: &[(&'static str, &'static str)]) -> HeaderMap {
    let mut map = HeaderMap::new();
    for (name, value) in fields {
        map.append(HeaderName::from_static(name), HeaderValue::from_static(value));
    }
    map
}

#[test]
fn grpc_web_is_web() {
    assert_eq!(GrpcKind::from_content_type(b"application/grpc-web"), Some(GrpcKind::Web));
    assert_eq!(GrpcKind::from_content_type(b"application/grpc-web+proto"), Some(GrpcKind::Web));
    assert_eq!(GrpcKind::from_content_type(b"application/grpc-web-text"), Some(GrpcKind::Web));
}

#[test]
fn grpc_is_plain() {
    assert_eq!(GrpcKind::from_content_type(b"application/grpc"), Some(GrpcKind::Plain));
    assert_eq!(GrpcKind::from_content_type(b"application/grpc+proto"), Some(GrpcKind::Plain));
    assert_eq!(GrpcKind::from_content_type(b"application/grpc-we"), Some(GrpcKind::Plain));
    assert_eq!(GrpcKind::from_content_type(b"application/grpcweb"), Some(GrpcKind::Plain));
}

#[test]
fn other_types_are_rejected() {
    assert_eq!(GrpcKind::from_content_type(b""), None);
    assert_eq!(GrpcKind::from_content_type(b"application/json"), None);
    assert_eq!(GrpcKind::from_content_type(b"application/grp"), None);
    assert_eq!(GrpcKind::from_content_type(b" application/grpc"), None);
    assert_eq!(GrpcKind::from_content_type(b"Application/grpc"), None);
    assert_eq!(GrpcKind::from_content_type(b"text/application/grpc-web"), None);
}

#[test]
fn web_request_gets_grpc_type_and_loses_length() {
    let mut headers = block(&[
        ("content-type", "application/grpc-web"),
        ("content-length", "17"),
        ("x-user", "alice"),
    ]);
    assert_eq!(GrpcKindWeb.modify_request(&mut headers), Ok(()));
    assert_eq!(headers.get(CONTENT_TYPE).unwrap(), "application/grpc");
    assert_eq!(headers.get_all(CONTENT_TYPE).iter().count(), 1);
    assert!(headers.get(CONTENT_LENGTH).is_none());
    assert_eq!(headers.get("x-user").unwrap(), "alice");
    assert_eq!(headers.len(), 2);
}

#[test]
fn web_request_without_type_gets_one() {
    let mut headers = HeaderMap::new();
    assert_eq!(GrpcKindWeb.modify_request(&mut headers), Ok(()));
    assert_eq!(headers.get(CONTENT_TYPE).unwrap(), "application/grpc");
    assert_eq!(headers.len(), 1);
}

#[test]
fn web_request_with_several_types_keeps_one() {
    let mut headers = block(&[
        ("content-type", "application/grpc-web"),
        ("content-type", "application/grpc-web+proto"),
        ("content-length", "1"),
        ("content-length", "2"),
    ]);
    assert_eq!(GrpcKindWeb.modify_request(&mut headers), Ok(()));
    assert_eq!(headers.len(), 1);
    assert_eq!(headers.get(CONTENT_TYPE).unwrap(), "application/grpc");
}

#[test]
fn web_response_gets_web_type_and_keeps_the_rest() {
    let mut headers = block(&[
        ("content-type", "application/grpc"),
        ("grpc-encoding", "identity"),
        ("content-length", "5"),
    ]);
    assert_eq!(GrpcKindWeb.modify_response(&mut headers), Ok(()));
    assert_eq!(headers.get(CONTENT_TYPE).unwrap(), "application/grpc-web+proto");
    assert_eq!(headers.get("grpc-encoding").unwrap(), "identity");
    assert_eq!(headers.get(CONTENT_LENGTH).unwrap(), "5");
    assert_eq!(headers.len(), 3);
}

#[test]
fn plain_response_is_untouched() {
    let mut headers = block(&[("content-type", "application/grpc"), ("host", "up")]);
    let before = headers.clone();
    GrpcKindPlain.modify_response(&mut headers);
    assert_eq!(headers, before);
    assert_eq!(headers.get(HOST).unwrap(), "up");
}

#[test]
fn web_frame_of_data_stays() {
    let out = GrpcKindWeb.modify_frame(BodyFrame::Data(vec![0, 0, 0, 0, 2, 8, 1]));
    assert_eq!(out, Some(BodyFrame::Data(vec![0, 0, 0, 0, 2, 8, 1])));
}

#[test]
fn web_frame_of_trailers_becomes_terminal_frame() {
    let out = GrpcKindWeb.modify_frame(BodyFrame::Trailers(block(&[("grpc-status", "0")])));
    let mut expected = vec![0x80u8, 0, 0, 0, 16];
    expected.extend_from_slice(b"grpc-status: 0\r\n");
    assert_eq!(out, Some(BodyFrame::Data(expected)));
}

#[test]
fn plain_frames_stay() {
    let data = GrpcKindPlain.modify_frame(BodyFrame::Data(vec![1, 2, 3]));
    assert_eq!(data, BodyFrame::Data(vec![1, 2, 3]));
    let trailers = GrpcKindPlain.modify_frame(BodyFrame::Trailers(block(&[("grpc-status", "0")])));
    assert_eq!(trailers, BodyFrame::Trailers(block(&[("grpc-status", "0")])));
}

#[test]
fn kind_dispatches_request() {
    let mut plain = block(&[("content-type", "application/grpc"), ("content-length", "3")]);
    let before = plain.clone();
    assert_eq!(GrpcKind::Plain.rewrite_request(&mut plain), Ok(()));
    assert_eq!(plain, before);

    let mut web = block(&[("content-type", "application/grpc-web"), ("content-length", "3")]);
    assert_eq!(GrpcKind::Web.rewrite_request(&mut web), Ok(()));
    assert_eq!(web, block(&[("content-type", "application/grpc")]));
}

#[test]
fn kind_dispatches_response() {
    let mut plain = block(&[("content-type", "application/grpc")]);
    assert_eq!(GrpcKind::Plain.rewrite_response(&mut plain), Ok(()));
    assert_eq!(plain, block(&[("content-type", "application/grpc")]));

    let mut web = block(&[("content-type", "application/grpc")]);
    assert_eq!(GrpcKind::Web.rewrite_response(&mut web), Ok(()));
    assert_eq!(web, block(&[("content-type", "application/grpc-web+proto")]));
}

#[test]
fn kind_dispatches_frames() {
    let trailers = || BodyFrame::Trailers(block(&[("grpc-status", "0")]));
    assert_eq!(GrpcKind::Plain.rewrite_frame(trailers()), Some(trailers()));
    assert!(matches!(GrpcKind::Web.rewrite_frame(trailers()), Some(BodyFrame::Data(_))));
    assert_eq!(
        GrpcKind::Web.rewrite_frame(BodyFrame::Data(vec![9])),
        Some(BodyFrame::Data(vec![9]))
    );
}

#[test]
fn data_sent_is_data_received_and_terminal_frame() {
    let upstream = vec![
        BodyFrame::Data(vec![0, 0, 0, 0, 1, 65]),
        BodyFrame::Data(vec![0, 0, 0, 0, 1, 66]),
        BodyFrame::Trailers(block(&[("grpc-status", "0")])),
    ];
    let mut sent: Vec<u8> = Vec::new();
    for frame in upstream {
        match GrpcKind::Web.rewrite_frame(frame).unwrap() {
            BodyFrame::Data(bytes) => sent.extend_from_slice(&bytes),
            BodyFrame::Trailers(_) => panic!("trailers left as they were"),
        }
    }
    let mut expected = vec![0u8, 0, 0, 0, 1, 65, 0, 0, 0, 0, 1, 66, 0x80, 0, 0, 0, 16];
    expected.extend_from_slice(b"grpc-status: 0\r\n");
    assert_eq!(sent, expected);
}

fn full_block() -> HeaderMap {
    let mut map = HeaderMap::new();
    let mut i = 0u32;
    loop {
        let name = HeaderName::from_bytes(format!("x-filler-{}", i).as_bytes()).unwrap();
        if map.try_append(name, HeaderValue::from_static("v")).is_err() {
            return map;
        }
        i += 1;
    }
}

#[test]
fn full_block_refuses_web_rewrites() {
    let mut headers = full_block();
    let before = headers.clone();
    assert_eq!(GrpcKindWeb.modify_request(&mut headers), Err(griffin::headers::HeadersFull));
    assert_eq!(headers, before);
    assert_eq!(GrpcKindWeb.modify_response(&mut headers), Err(griffin::headers::HeadersFull));
    assert_eq!(headers, before);
    assert_eq!(GrpcKind::Web.rewrite_request(&mut headers), Err(griffin::headers::HeadersFull));
    assert_eq!(GrpcKind::Plain.rewrite_request(&mut headers), Ok(()));
    assert_eq!(GrpcKind::Plain.rewrite_response(&mut headers), Ok(()));
    assert_eq!(headers, before);
}

fn block_of(fields: usize, capacity: usize) -> HeaderMap {
    let mut map = HeaderMap::with_capacity(capacity);
    for i in 0..fields {
        let name = HeaderName::from_bytes(format!("x-filler-{}", i).as_bytes()).unwrap();
        map.append(name, HeaderValue::from_static("v"));
    }
    map
}

#[test]
fn sure_room_is_a_fifth_of_half_the_slots() {
    assert_eq!(griffin::headers::SURE_ROOM, 3276);
    assert_eq!(griffin::headers::SURE_ROOM, 16384 / 5);
}

#[test]
fn block_with_room_takes_the_web_rewrites() {
    for capacity in [0usize, 3276, 12288, 24576] {
        let mut headers = block_of(3276, capacity);
        assert_eq!(headers.len(), 3276);
        assert_eq!(GrpcKindWeb.modify_request(&mut headers), Ok(()));
        assert_eq!(headers.get(CONTENT_TYPE).unwrap(), "application/grpc");
        assert_eq!(headers.len(), 3277);

        let mut headers = block_of(3276, capacity);
        assert_eq!(GrpcKindWeb.modify_response(&mut headers), Ok(()));
        assert_eq!(headers.get(CONTENT_TYPE).unwrap(), "application/grpc-web+proto");
        assert_eq!(headers.len(), 3277);
    }
}

#[test]
fn block_with_room_under_one_name_takes_the_web_rewrites() {
    let mut headers = HeaderMap::new();
    for _ in 0..3276 {
        headers.append(CONTENT_LENGTH, HeaderValue::from_static("1"));
    }
    assert_eq!(GrpcKindWeb.modify_request(&mut headers), Ok(()));
    assert_eq!(headers.len(), 1);
    assert_eq!(headers.get(CONTENT_TYPE).unwrap(), "application/grpc");
}

#[test]
fn every_small_block_takes_the_web_rewrites() {
    let mut grown = HeaderMap::new();
    for i in 0..600usize {
        let mut request = grown.clone();
        assert_eq!(GrpcKindWeb.modify_request(&mut request), Ok(()));
        let mut answer = grown.clone();
        assert_eq!(GrpcKindWeb.modify_response(&mut answer), Ok(()));
        assert_eq!(answer.len(), i + 1);
        let name = HeaderName::from_bytes(format!("x-filler-{}", i).as_bytes()).unwrap();
        grown.append(name, HeaderValue::from_static("v"));
    }
}

#[test]
fn block_with_room_takes_the_rewrites_of_either_kind() {
    for kind in [GrpcKind::Plain, GrpcKind::Web] {
        let mut request = block_of(3276, 0);
        assert_eq!(kind.rewrite_request(&mut request), Ok(()));
        let mut answer = block_of(3276, 0);
        assert_eq!(kind.rewrite_response(&mut answer), Ok(()));
    }
    let mut one = block(&[("content-type", "application/grpc")]);
    assert_eq!(GrpcKind::Web.rewrite_response(&mut one), Ok(()));
    assert_eq!(one, block(&[("content-type", "application/grpc-web+proto")]));
}
